//! The borrowing pointer.

use vstd::prelude::*;
use crate::access::NoAccess;
use crate::allocators::allocated::AllocatedLedger;
use crate::allocators::{jar_capacity, lemma_step_refused, scope_inv, scope_state, LedgerAllocator};
use crate::cookie::JarOp;
use crate::mut_::RalcMut;
use crate::ref_::RalcRef;

verus! {

/// A pointer that owns nothing: the handle of a slot and the validity
/// counter of the occupant it was taken from. It can be copied freely and
/// outlive the owner; once the owner is gone it refuses every access.
pub struct BorrowRalc<A: LedgerAllocator> {
    reallocation: u64,
    ledger: AllocatedLedger<A>,
}

impl<A: LedgerAllocator> Clone for BorrowRalc<A> {
    fn clone(&self) -> (copy: Self)
        ensures
            copy == *self,
    {
        BorrowRalc { reallocation: self.reallocation, ledger: self.ledger }
    }
}

impl<A: LedgerAllocator> Copy for BorrowRalc<A> {

}

impl<A: LedgerAllocator> BorrowRalc<A> {
    /// The slot that the borrow points at.
    pub closed spec fn slot(&self) -> usize {
        self.ledger.slot()
    }

    /// The validity counter of the occupant that the borrow was taken from.
    pub closed spec fn snapshot(&self) -> u64 {
        self.reallocation
    }

    /// The slot's counter still stands where it stood when the borrow was
    /// taken.
    pub open spec fn check_spec(&self, scope: A) -> bool {
        scope_state(scope).validity(self.slot()) == self.snapshot()
    }

    /// The borrow no longer points at a live value in `scope`: the counter
    /// has moved on, or the slot is empty.
    pub open spec fn stale_in(&self, scope: A) -> bool {
        !self.check_spec(scope) || !scope_state(scope).occupied(self.slot())
    }

    /// What a read through this borrow does and returns. `refusal` is the
    /// error of the entry point used.
    pub open spec fn reads_as(
        &self,
        before: A,
        after: A,
        res: Result<RalcRef<A>, NoAccess>,
        refusal: NoAccess,
    ) -> bool {
        let was = scope_state(before);
        let granted = was.jar(self.slot()).can_read(jar_capacity::<A>());
        if self.stale_in(before) {
            res is Err && res->Err_0 == NoAccess::Stale && scope_state(after) == was
        } else {
            &&& scope_state(after) == was.stepped(
                self.slot(),
                JarOp::AcquireRead,
                jar_capacity::<A>(),
            )
            &&& granted ==> res is Ok && res->Ok_0.slot() == self.slot() && res->Ok_0.snapshot()
                == self.snapshot()
            &&& !granted ==> res is Err && res->Err_0 == refusal && scope_state(after) == was
        }
    }

    /// What a write through this borrow does and returns. `refusal` is the
    /// error of the entry point used.
    pub open spec fn writes_as(
        &self,
        before: A,
        after: A,
        res: Result<RalcMut<A>, NoAccess>,
        refusal: NoAccess,
    ) -> bool {
        let was = scope_state(before);
        let granted = was.jar(self.slot()).can_write();
        if self.stale_in(before) {
            res is Err && res->Err_0 == NoAccess::Stale && scope_state(after) == was
        } else {
            &&& scope_state(after) == was.stepped(
                self.slot(),
                JarOp::AcquireWrite,
                jar_capacity::<A>(),
            )
            &&& granted ==> res is Ok && res->Ok_0.slot() == self.slot() && res->Ok_0.snapshot()
                == self.snapshot()
            &&& !granted ==> res is Err && res->Err_0 == refusal && scope_state(after) == was
        }
    }

    /// A borrow of the present occupant of `ledger`.
    pub(crate) fn from_parts(ledger: AllocatedLedger<A>, scope: &A) -> (borrow: Self)
        requires
            scope_state(*scope).is_handle(ledger.slot()),
        ensures
            borrow.slot() == ledger.slot(),
            borrow.snapshot() == scope_state(*scope).validity(ledger.slot()),
    {
        BorrowRalc { reallocation: ledger.reallocation(scope), ledger }
    }

    /// The validity counter of the occupant that the borrow was taken from.
    pub fn reallocation(&self) -> (validity: u64)
        ensures
            validity == self.snapshot(),
    {
        self.reallocation
    }

    /// The handle of the slot that the borrow points at.
    pub fn ledger_ptr(&self) -> (ledger: AllocatedLedger<A>)
        ensures
            ledger.slot() == self.slot(),
    {
        self.ledger
    }

    /// Whether the slot's counter still stands where it stood when the
    /// borrow was taken. `false` means that the owner is gone.
    pub fn check(&self, scope: &A) -> (fresh: bool)
        requires
            scope_state(*scope).is_handle(self.slot()),
        ensures
            fresh == self.check_spec(*scope),
    {
        self.ledger.reallocation(scope) == self.reallocation
    }

    /// Whether the borrow still points at a live value: the counter stands
    /// and the slot holds a payload.
    fn alive(&self, scope: &A) -> (alive: bool)
        requires
            scope_inv(*scope),
            scope_state(*scope).is_handle(self.slot()),
        ensures
            alive == !self.stale_in(*scope),
    {
        self.check(scope) && self.ledger.is_occupied(scope)
    }

    /// A read guard, for a caller that would wait. `Stale` if the owner is
    /// gone, `Deadlock` where the wait could not end.
    pub fn read(&self, scope: &mut A) -> (res: Result<RalcRef<A>, NoAccess>)
        requires
            scope_inv(*old(scope)),
            scope_state(*old(scope)).is_handle(self.slot()),
        ensures
            scope_inv(*final(scope)),
            self.reads_as(*old(scope), *final(scope), res, NoAccess::Deadlock),
    {
        if !self.alive(scope) {
            return Err(NoAccess::Stale);
        }
        let Some(cookie) = self.ledger.read(scope) else {
            proof {
                lemma_step_refused(
                    scope_state(*old(scope)),
                    self.slot(),
                    JarOp::AcquireRead,
                    jar_capacity::<A>(),
                );
            }
            return Err(NoAccess::Deadlock);
        };
        if !self.check(scope) {
            self.ledger.release_read(scope, cookie);
            return Err(NoAccess::Stale);
        }
        Ok(RalcRef::from_parts(cookie, self.reallocation, self.ledger))
    }

    /// The write guard, for a caller that would wait. `Stale` if the owner
    /// is gone, `Deadlock` where the wait could not end.
    pub fn write(&self, scope: &mut A) -> (res: Result<RalcMut<A>, NoAccess>)
        requires
            scope_inv(*old(scope)),
            scope_state(*old(scope)).is_handle(self.slot()),
        ensures
            scope_inv(*final(scope)),
            self.writes_as(*old(scope), *final(scope), res, NoAccess::Deadlock),
    {
        if !self.alive(scope) {
            return Err(NoAccess::Stale);
        }
        let Some(cookie) = self.ledger.write(scope) else {
            proof {
                lemma_step_refused(
                    scope_state(*old(scope)),
                    self.slot(),
                    JarOp::AcquireWrite,
                    jar_capacity::<A>(),
                );
            }
            return Err(NoAccess::Deadlock);
        };
        if !self.check(scope) {
            self.ledger.release_write(scope, cookie);
            return Err(NoAccess::Stale);
        }
        Ok(RalcMut::from_parts(cookie, self.reallocation, self.ledger))
    }

    /// A read guard. `Stale` if the owner is gone, `Blocked` if a writer
    /// holds the payload.
    pub fn try_read(&self, scope: &mut A) -> (res: Result<RalcRef<A>, NoAccess>)
        requires
            scope_inv(*old(scope)),
            scope_state(*old(scope)).is_handle(self.slot()),
        ensures
            scope_inv(*final(scope)),
            self.reads_as(*old(scope), *final(scope), res, NoAccess::Blocked),
    {
        if !self.alive(scope) {
            return Err(NoAccess::Stale);
        }
        if let Some(cookie) = self.ledger.try_read(scope) {
            if !self.check(scope) {
                self.ledger.release_read(scope, cookie);
                return Err(NoAccess::Stale);
            }
            Ok(RalcRef::from_parts(cookie, self.reallocation, self.ledger))
        } else {
            proof {
                lemma_step_refused(
                    scope_state(*old(scope)),
                    self.slot(),
                    JarOp::AcquireRead,
                    jar_capacity::<A>(),
                );
            }
            Err(NoAccess::Blocked)
        }
    }

    /// The write guard. `Stale` if the owner is gone, `Blocked` if any guard
    /// is out on the payload.
    pub fn try_write(&self, scope: &mut A) -> (res: Result<RalcMut<A>, NoAccess>)
        requires
            scope_inv(*old(scope)),
            scope_state(*old(scope)).is_handle(self.slot()),
        ensures
            scope_inv(*final(scope)),
            self.writes_as(*old(scope), *final(scope), res, NoAccess::Blocked),
    {
        if !self.alive(scope) {
            return Err(NoAccess::Stale);
        }
        if let Some(cookie) = self.ledger.try_write(scope) {
            if !self.check(scope) {
                self.ledger.release_write(scope, cookie);
                return Err(NoAccess::Stale);
            }
            Ok(RalcMut::from_parts(cookie, self.reallocation, self.ledger))
        } else {
            proof {
                lemma_step_refused(
                    scope_state(*old(scope)),
                    self.slot(),
                    JarOp::AcquireWrite,
                    jar_capacity::<A>(),
                );
            }
            Err(NoAccess::Blocked)
        }
    }
}

} // verus!
