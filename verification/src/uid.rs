//! Unique identifiers and the factories that mint them.
use core::marker::PhantomData;
use vstd::prelude::*;

verus! {

/// An identifier that wraps a number.
pub trait IsUid: Sized + Copy {
    /// The number the identifier wraps.
    spec fn number(&self) -> nat;

    /// The number a default factory for this kind of identifier starts at.
    spec fn spec_first_uid() -> nat;

    /// Returns the number the identifier wraps.
    fn as_usize(&self) -> (r: usize)
        ensures
            r == self.number(),
    ;

    /// Makes the identifier that wraps `value`.
    fn from_usize(value: usize) -> (r: Self)
        ensures
            r.number() == value,
    ;

    /// Returns the number a default factory starts at.
    fn first_uid() -> (r: usize)
        ensures
            r == Self::spec_first_uid(),
    ;
}

/// A [Uid] is an entity identifier that is unique within the current project.
#[derive(Clone, Copy, Debug, Default, Eq, Hash, Ord, PartialEq, PartialOrd, Structural)]
pub struct Uid(pub usize);

impl IsUid for Uid {
    open spec fn number(&self) -> nat {
        self.0 as nat
    }

    open spec fn spec_first_uid() -> nat {
        1024
    }

    fn as_usize(&self) -> (r: usize) {
        self.0
    }

    fn from_usize(value: usize) -> (r: Self) {
        Uid(value)
    }

    fn first_uid() -> (r: usize) {
        1024
    }
}

/// The counter value after one mint from a counter at `next`; the counter
/// wraps around past `usize::MAX`.
pub open spec fn counter_after_mint(next: nat) -> nat {
    if next < usize::MAX {
        next + 1
    } else {
        0
    }
}

/// Generates unique identifiers, counting up from a first value.
#[derive(Debug)]
pub struct UidFactory<U: IsUid> {
    next_uid_value: usize,
    _phantom: PhantomData<U>,
}

impl<U: IsUid> UidFactory<U> {
    /// The value the next mint will return.
    pub closed spec fn next_value(&self) -> nat {
        self.next_uid_value as nat
    }

    /// Creates a factory starting with the given value.
    pub fn new(first_uid: usize) -> (r: Self)
        ensures
            r.next_value() == first_uid,
    {
        Self { next_uid_value: first_uid, _phantom: PhantomData }
    }

    /// Generates the next identifier.
    pub fn mint_next(&mut self) -> (r: U)
        ensures
            r.number() == old(self).next_value(),
            final(self).next_value() == counter_after_mint(old(self).next_value()),
    {
        let uid_value = self.next_uid_value;
        self.next_uid_value = self.next_uid_value.wrapping_add(1);
        U::from_usize(uid_value)
    }

    /// Makes sure that later mints never return `uid`, which was made elsewhere.
    pub fn notify_externally_minted_uid(&mut self, uid: U)
        requires
            uid.number() < usize::MAX,
        ensures
            uid.number() >= old(self).next_value() ==> final(self).next_value() == uid.number()
                + 1,
            uid.number() < old(self).next_value() ==> final(self).next_value() == old(
                self,
            ).next_value(),
    {
        let value = uid.as_usize();
        if value >= self.next_uid_value {
            self.next_uid_value = value + 1;
        }
    }
}

impl<U: IsUid> Default for UidFactory<U> {
    fn default() -> (r: Self)
        ensures
            r.next_value() == U::spec_first_uid(),
    {
        Self::new(U::first_uid())
    }
}

/// Two mints in a row return different identifiers.
pub proof fn lemma_consecutive_mints_differ(next: nat)
    requires
        next <= usize::MAX,
    ensures
        next != counter_after_mint(next),
{
}

/// Minting `k` times from a counter at `next`, with no wrap-around, returns
/// `next`, `next + 1`, ..., `next + k - 1`: the mints are all different.
pub proof fn lemma_mints_without_wrap_are_distinct(next: nat, i: nat, j: nat)
    requires
        next + j <= usize::MAX,
        i < j,
    ensures
        minted_after(next, i) != minted_after(next, j),
{
    lemma_minted_after_no_wrap(next, i);
    lemma_minted_after_no_wrap(next, j);
}

/// The counter value after `k` mints from a counter at `next`.
pub open spec fn minted_after(next: nat, k: nat) -> nat
    decreases k,
{
    if k == 0 {
        next
    } else {
        counter_after_mint(minted_after(next, (k - 1) as nat))
    }
}

proof fn lemma_minted_after_no_wrap(next: nat, k: nat)
    requires
        next + k <= usize::MAX,
    ensures
        minted_after(next, k) == next + k,
    decreases k,
{
    if k > 0 {
        lemma_minted_after_no_wrap(next, (k - 1) as nat);
    }
}

} // verus!
