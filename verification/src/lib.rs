//! Generation-checked smart pointers over reusable ledger slots.
//!
//! A value that is put into a scope gets a slot. The slot's ledger holds a
//! validity counter, which names the slot's occupant, and a cookie jar, which
//! says who may read and who may write. An `OwnedRalc` owns the slot; a
//! `BorrowRalc` remembers the counter and is refused once the counter has
//! moved on; `RalcRef` and `RalcMut` are the guards of one read or write.

use vstd::prelude::*;
use crate::allocators::{scope_inv, scope_state, LedgerAllocator};

pub use crate::access::NoAccess;
pub use crate::borrowed::BorrowRalc;
pub use crate::mut_::RalcMut;
pub use crate::owned::OwnedRalc;
pub use crate::ref_::RalcRef;

pub mod access;
pub mod allocators;
pub mod borrowed;
pub mod cookie;
pub mod ledgerbooks;
pub mod laws;
pub mod ledgers;
pub mod mut_;
pub mod owned;
pub mod ref_;

verus! {

/// A pointer that is either the owner of its value or a borrow of it.
/// Cloning either gives a borrow.
pub enum Ralc<A: LedgerAllocator> {
    /// A borrow.
    Borrow(BorrowRalc<A>),
    /// The owner.
    Owned(OwnedRalc<A>),
}

impl<A: LedgerAllocator> From<OwnedRalc<A>> for Ralc<A> {
    fn from(value: OwnedRalc<A>) -> (ralc: Self) {
        Ralc::Owned(value)
    }
}

impl<A: LedgerAllocator> vstd::std_specs::convert::FromSpecImpl<OwnedRalc<A>> for Ralc<A> {
    open spec fn obeys_from_spec() -> bool {
        true
    }

    open spec fn from_spec(value: OwnedRalc<A>) -> Self {
        Ralc::Owned(value)
    }
}

impl<A: LedgerAllocator> From<BorrowRalc<A>> for Ralc<A> {
    fn from(value: BorrowRalc<A>) -> (ralc: Self) {
        Ralc::Borrow(value)
    }
}

impl<A: LedgerAllocator> vstd::std_specs::convert::FromSpecImpl<BorrowRalc<A>> for Ralc<A> {
    open spec fn obeys_from_spec() -> bool {
        true
    }

    open spec fn from_spec(value: BorrowRalc<A>) -> Self {
        Ralc::Borrow(value)
    }
}

impl<A: LedgerAllocator> Ralc<A> {
    /// The slot that the pointer points at.
    pub open spec fn slot(&self) -> usize {
        match self {
            Ralc::Borrow(borrow) => borrow.slot(),
            Ralc::Owned(owner) => owner.slot(),
        }
    }

    /// The pointer can be used with `scope`: a borrow points at one of its
    /// slots, an owner's slot holds its payload.
    pub open spec fn usable_in(&self, scope: A) -> bool {
        match self {
            Ralc::Borrow(borrow) => scope_state(scope).is_handle(borrow.slot()),
            Ralc::Owned(owner) => owner.live_in(scope),
        }
    }

    /// What a read through this pointer does and returns.
    pub open spec fn reads_as(
        &self,
        before: A,
        after: A,
        res: Result<RalcRef<A>, NoAccess>,
        refusal: NoAccess,
    ) -> bool {
        match self {
            Ralc::Borrow(borrow) => borrow.reads_as(before, after, res, refusal),
            Ralc::Owned(owner) => owner.reads_as(before, after, res, refusal),
        }
    }

    /// What a write through this pointer does and returns.
    pub open spec fn writes_as(
        &self,
        before: A,
        after: A,
        res: Result<RalcMut<A>, NoAccess>,
        refusal: NoAccess,
    ) -> bool {
        match self {
            Ralc::Borrow(borrow) => borrow.writes_as(before, after, res, refusal),
            Ralc::Owned(owner) => owner.writes_as(
                before,
                after,
                res,
                refusal,
                scope_state(before).validity(owner.slot()),
            ),
        }
    }

    /// Puts `data` into `scope` and returns the owning pointer.
    pub fn new(scope: &mut A, data: A::Payload) -> (ralc: Self)
        requires
            scope_inv(*old(scope)),
        ensures
            scope_inv(*final(scope)),
            ralc is Owned,
            ralc.slot() == scope_state(*old(scope)).next_slot(),
            ralc.usable_in(*final(scope)),
            scope_state(*final(scope)) == scope_state(*old(scope)).allocated().with_payload(
                ralc.slot(),
                Some(data),
            ),
    {
        Ralc::Owned(OwnedRalc::new(scope, data))
    }

    /// Whether this is the owner.
    pub fn is_owned(&self) -> (owned: bool)
        ensures
            owned == (self is Owned),
    {
        match self {
            Ralc::Borrow(_borrow_ralc) => false,
            Ralc::Owned(_owned_ralc) => true,
        }
    }

    /// Whether the pointer still points at its value. An owner always does.
    pub fn check(&self, scope: &A) -> (fresh: bool)
        requires
            scope_state(*scope).is_handle(self.slot()),
        ensures
            self matches Ralc::Borrow(borrow) ==> fresh == borrow.check_spec(*scope),
            self is Owned ==> fresh,
    {
        match self {
            Ralc::Borrow(borrow_ralc) => borrow_ralc.check(scope),
            Ralc::Owned(_owned_ralc) => true,
        }
    }

    /// A read guard, or `Stale` or `Blocked`.
    pub fn try_read(&self, scope: &mut A) -> (res: Result<RalcRef<A>, NoAccess>)
        requires
            scope_inv(*old(scope)),
            self.usable_in(*old(scope)),
        ensures
            scope_inv(*final(scope)),
            self.reads_as(*old(scope), *final(scope), res, NoAccess::Blocked),
    {
        match self {
            Ralc::Borrow(borrow_ralc) => borrow_ralc.try_read(scope),
            Ralc::Owned(owned_ralc) => owned_ralc.try_read(scope),
        }
    }

    /// The write guard, or `Stale` or `Blocked`.
    pub fn try_write(&self, scope: &mut A) -> (res: Result<RalcMut<A>, NoAccess>)
        requires
            scope_inv(*old(scope)),
            self.usable_in(*old(scope)),
        ensures
            scope_inv(*final(scope)),
            self.writes_as(*old(scope), *final(scope), res, NoAccess::Blocked),
    {
        match self {
            Ralc::Borrow(borrow_ralc) => borrow_ralc.try_write(scope),
            Ralc::Owned(owned_ralc) => owned_ralc.try_write(scope),
        }
    }

    /// A read guard for a caller that would wait, or `Stale` or `Deadlock`.
    pub fn read(&self, scope: &mut A) -> (res: Result<RalcRef<A>, NoAccess>)
        requires
            scope_inv(*old(scope)),
            self.usable_in(*old(scope)),
        ensures
            scope_inv(*final(scope)),
            self.reads_as(*old(scope), *final(scope), res, NoAccess::Deadlock),
    {
        match self {
            Ralc::Borrow(borrow_ralc) => borrow_ralc.read(scope),
            Ralc::Owned(owned_ralc) => owned_ralc.read(scope),
        }
    }

    /// The write guard for a caller that would wait, or `Stale` or
    /// `Deadlock`.
    pub fn write(&self, scope: &mut A) -> (res: Result<RalcMut<A>, NoAccess>)
        requires
            scope_inv(*old(scope)),
            self.usable_in(*old(scope)),
        ensures
            scope_inv(*final(scope)),
            self.writes_as(*old(scope), *final(scope), res, NoAccess::Deadlock),
    {
        match self {
            Ralc::Borrow(borrow_ralc) => borrow_ralc.write(scope),
            Ralc::Owned(owned_ralc) => owned_ralc.write(scope),
        }
    }

    /// A borrow of the value: a copy of a borrow, or a new borrow of what an
    /// owner owns.
    pub fn clone(&self, scope: &A) -> (copy: Self)
        requires
            scope_state(*scope).is_handle(self.slot()),
        ensures
            copy is Borrow,
            copy.slot() == self.slot(),
            self is Borrow ==> copy == *self,
            self is Owned ==> copy->Borrow_0.snapshot() == scope_state(*scope).validity(self.slot()),
    {
        match self {
            Ralc::Borrow(borrow_ralc) => Ralc::Borrow(*borrow_ralc),
            Ralc::Owned(owned_ralc) => Ralc::Borrow(owned_ralc.borrow(scope)),
        }
    }

    /// Moves the pointer out and leaves a borrow of its value behind.
    pub fn take(&mut self, scope: &A) -> (taken: Self)
        requires
            scope_state(*scope).is_handle(old(self).slot()),
        ensures
            taken == *old(self),
            *final(self) is Borrow,
            final(self).slot() == old(self).slot(),
            *old(self) is Borrow ==> *final(self) == *old(self),
            *old(self) is Owned ==> (*final(self))->Borrow_0.snapshot() == scope_state(
                *scope,
            ).validity(old(self).slot()),
    {
        let mut res = self.clone(scope);
        std::mem::swap(self, &mut res);
        res
    }

    /// Ends the pointer. A borrow just goes; an owner is dropped as
    /// `OwnedRalc::drop` says.
    pub fn drop(self, scope: &mut A)
        requires
            scope_inv(*old(scope)),
            self.usable_in(*old(scope)),
        ensures
            scope_inv(*final(scope)),
            self is Borrow ==> scope_state(*final(scope)) == scope_state(*old(scope)),
            self is Owned ==> scope_state(*final(scope)) == scope_state(*old(scope)).owner_dropped(
                self.slot(),
            ),
    {
        match self {
            Ralc::Borrow(_borrow_ralc) => {},
            Ralc::Owned(owned_ralc) => owned_ralc.drop(scope),
        }
    }
}

} // verus!
