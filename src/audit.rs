//! Entities that record when they were last modified.

use vstd::prelude::*;

verus! {

/// An entity with a last-modified timestamp that every mutation refreshes.
pub trait Auditable: Sized {
    /// The last-modified timestamp, in milliseconds since the Unix epoch.
    spec fn stamp(&self) -> i64;

    /// This entity with its last-modified timestamp replaced by `t` and
    /// every other field kept.
    spec fn with_stamp(&self, t: i64) -> Self;

    /// Sets the last-modified timestamp to the current time, leaving every
    /// other field as it was.
    fn touch(&mut self)
        ensures
            final(self).stamp() >= 0,
            *final(self) == old(self).with_stamp(final(self).stamp()),
    ;

    /// The last-modified timestamp.
    fn updated_at(&self) -> (r: i64)
        ensures
            r == self.stamp(),
    ;
}

} // verus!
