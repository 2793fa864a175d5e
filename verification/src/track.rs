//! Track identifiers and titles.
use crate::uid::IsUid;
use vstd::prelude::*;

verus! {

/// Identifies a track.
#[derive(Copy, Clone, Debug, Eq, PartialEq, Ord, PartialOrd, Hash, Structural)]
pub struct TrackUid(pub usize);

impl Default for TrackUid {
    fn default() -> (r: Self)
        ensures
            r.0 == 1,
    {
        Self(1)
    }
}

impl IsUid for TrackUid {
    open spec fn number(&self) -> nat {
        self.0 as nat
    }

    open spec fn spec_first_uid() -> nat {
        1
    }

    fn as_usize(&self) -> (r: usize) {
        self.0
    }

    fn from_usize(value: usize) -> (r: Self) {
        TrackUid(value)
    }

    fn first_uid() -> (r: usize) {
        1
    }
}

/// Newtype for track title string.
#[derive(Debug)]
pub struct TrackTitle(pub String);

impl Clone for TrackTitle {
    fn clone(&self) -> (r: Self)
        ensures
            r.0@ == self.0@,
    {
        TrackTitle(self.0.clone())
    }
}

impl Default for TrackTitle {
    fn default() -> (r: Self)
        ensures
            r.0@ == "Untitled"@,
    {
        Self("Untitled".to_owned())
    }
}

impl TrackTitle {
    /// A title holding a copy of `value`.
    pub fn new_with(value: &str) -> (r: Self)
        ensures
            r.0@ == value@,
    {
        Self(value.to_owned())
    }
}

} // verus!
