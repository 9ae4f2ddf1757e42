use vstd::prelude::*;

verus! {

/// A follower account. `twitter_id` is the immutable identifier assigned by
/// the platform and is the natural key: the registry keeps exactly one
/// account per distinct `twitter_id`. `id` is the internal key the registry
/// assigns on first sighting; a candidate that has not been persisted yet
/// carries `id == 0`. `screenname` and `name` are descriptive and mutable.
#[derive(Debug)]
pub struct User {
    pub id: i64,
    pub twitter_id: i64,
    pub screenname: String,
    pub name: String,
}

impl PartialEq for User {
    /// Two accounts are the same account exactly when their platform
    /// identifiers agree; descriptive fields do not matter.
    fn eq(&self, other: &User) -> (r: bool) {
        self.twitter_id == other.twitter_id
    }
}

impl Eq for User {

}

impl vstd::std_specs::cmp::PartialEqSpecImpl for User {
    open spec fn obeys_eq_spec() -> bool {
        true
    }

    open spec fn eq_spec(&self, other: &User) -> bool {
        self.twitter_id == other.twitter_id
    }
}

impl Clone for User {
    /// A deep copy that is equal, field for field, to the original.
    fn clone(&self) -> (r: User)
        ensures
            r == *self,
    {
        User {
            id: self.id,
            twitter_id: self.twitter_id,
            screenname: self.screenname.clone(),
            name: self.name.clone(),
        }
    }
}

} // verus!
