use vstd::prelude::*;

verus! {

/// A cached authorization grant: an opaque key/secret pair that lets
/// follower-list queries run without a fresh handshake.
#[derive(Debug)]
pub struct Credential {
    pub key: String,
    pub secret: String,
}

impl Clone for Credential {
    /// A copy that is equal, field for field, to the original.
    fn clone(&self) -> (r: Credential)
        ensures
            r == *self,
    {
        Credential { key: self.key.clone(), secret: self.secret.clone() }
    }
}

/// TokenCache: at most one credential is cached at a time; storing a new one
/// overwrites the old, nothing is versioned.
pub struct TokenCache {
    pub cached: Option<Credential>,
}

impl TokenCache {
    /// An empty cache.
    pub fn new() -> (r: TokenCache)
        ensures
            r.cached is None,
    {
        TokenCache { cached: None }
    }

    /// The cached credential, if any.
    pub fn lookup(&self) -> (r: &Option<Credential>)
        ensures
            *r == self.cached,
    {
        &self.cached
    }

    /// Persists `c` as the single cached credential, overwriting any earlier
    /// one.
    pub fn store(&mut self, c: Credential)
        ensures
            final(self).cached == Some(c),
    {
        self.cached = Some(c);
    }
}

} // verus!
