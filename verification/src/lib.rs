//! Follower reconciliation: a fresh snapshot of a social account's follower
//! set is compared against the previously recorded set, newly seen accounts
//! are registered exactly once, and follow/unfollow events are appended with
//! a run timestamp shared by the whole run.
//!
//! `diff` holds the set-diff engine and its partition laws; `registry` the
//! idempotent account registry; `events` the append-only event recorder;
//! `token` the cached-credential store; `reconcile` the run orchestration
//! that ties them together. Fetching, storage and printing live outside the
//! library and hand plain values in and out.

pub mod account;
pub mod diff;
pub mod events;
pub mod reconcile;
pub mod registry;
pub mod token;
