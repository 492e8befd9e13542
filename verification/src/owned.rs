//! The owning pointer.

use vstd::prelude::*;
use crate::access::NoAccess;
use crate::allocators::allocated::{lemma_occupied_in_use, AllocatedLedger};
use crate::allocators::{
    jar_capacity, lemma_reclaim_forgets_jar, lemma_step_refused, scope_inv,
    scope_state, LedgerAllocator,
};
use crate::borrowed::BorrowRalc;
use crate::cookie::JarOp;
use crate::ledgers::RETIRED;
use crate::mut_::RalcMut;
use crate::ref_::RalcRef;

verus! {

/// The one owner of a slot and of the payload in it. An owner is made by
/// putting a value into a scope, and ends by `drop` or `try_into_box`.
pub struct OwnedRalc<A: LedgerAllocator> {
    ledger: AllocatedLedger<A>,
}

impl<A: LedgerAllocator> OwnedRalc<A> {
    /// The slot that the owner owns.
    pub closed spec fn slot(&self) -> usize {
        self.ledger.slot()
    }

    /// The owner's slot holds its payload in `scope`, and its counter is not
    /// exhausted.
    pub open spec fn live_in(&self, scope: A) -> bool {
        &&& scope_state(scope).occupied(self.slot())
        &&& scope_state(scope).validity(self.slot()) < RETIRED
    }

    /// What a read through this owner does and returns. `refusal` is the
    /// error of the entry point used.
    pub open spec fn reads_as(
        &self,
        before: A,
        after: A,
        res: Result<RalcRef<A>, NoAccess>,
        refusal: NoAccess,
    ) -> bool {
        let was = scope_state(before);
        let granted = was.jar(self.slot()).can_read(jar_capacity::<A>());
        &&& scope_state(after) == was.stepped(self.slot(), JarOp::AcquireRead, jar_capacity::<A>())
        &&& granted ==> res is Ok && res->Ok_0.slot() == self.slot() && res->Ok_0.snapshot()
            == was.validity(self.slot())
        &&& !granted ==> res is Err && res->Err_0 == refusal && scope_state(after) == was
    }

    /// What a write through this owner does and returns, for a guard that is
    /// to remember `snapshot`. `refusal` is the error of the entry point
    /// used.
    pub open spec fn writes_as(
        &self,
        before: A,
        after: A,
        res: Result<RalcMut<A>, NoAccess>,
        refusal: NoAccess,
        snapshot: u64,
    ) -> bool {
        let was = scope_state(before);
        let granted = was.jar(self.slot()).can_write();
        &&& scope_state(after) == was.stepped(self.slot(), JarOp::AcquireWrite, jar_capacity::<A>())
        &&& granted ==> res is Ok && res->Ok_0.slot() == self.slot() && res->Ok_0.snapshot()
            == snapshot
        &&& !granted ==> res is Err && res->Err_0 == refusal && scope_state(after) == was
    }

    /// The owner of a slot that was just allocated and filled.
    pub(crate) fn from_raw_parts(ledger: AllocatedLedger<A>) -> (owner: Self)
        ensures
            owner.slot() == ledger.slot(),
    {
        OwnedRalc { ledger }
    }

    /// The handle of the owner's slot.
    pub fn ledger_ptr(&self) -> (ledger: AllocatedLedger<A>)
        ensures
            ledger.slot() == self.slot(),
    {
        self.ledger
    }

    /// Allocates a slot of `scope`, puts `data` into it and returns its
    /// owner.
    pub fn new(scope: &mut A, data: A::Payload) -> (owner: Self)
        requires
            scope_inv(*old(scope)),
        ensures
            scope_inv(*final(scope)),
            owner.slot() == scope_state(*old(scope)).next_slot(),
            scope_state(*final(scope)) == scope_state(*old(scope)).allocated().with_payload(
                owner.slot(),
                Some(data),
            ),
            owner.live_in(*final(scope)),
            scope_state(*final(scope)).jar(owner.slot()).is_idle(),
    {
        let ledger = scope.alloc_ledger();
        ledger.put(scope, data);
        OwnedRalc { ledger }
    }

    /// A borrow of the payload: a copy of the handle and of the counter as it
    /// stands. Nothing is allocated and no cookie is taken.
    pub fn borrow(&self, scope: &A) -> (borrow: BorrowRalc<A>)
        requires
            scope_state(*scope).is_handle(self.slot()),
        ensures
            borrow.slot() == self.slot(),
            borrow.snapshot() == scope_state(*scope).validity(self.slot()),
            borrow.check_spec(*scope),
    {
        BorrowRalc::from_parts(self.ledger, scope)
    }

    /// A read guard, for a caller that would wait. Refused with `Deadlock`
    /// where the wait could not end.
    pub fn read(&self, scope: &mut A) -> (res: Result<RalcRef<A>, NoAccess>)
        requires
            scope_inv(*old(scope)),
            self.live_in(*old(scope)),
        ensures
            scope_inv(*final(scope)),
            self.reads_as(*old(scope), *final(scope), res, NoAccess::Deadlock),
    {
        let reallocation = self.ledger.reallocation(scope);
        match self.ledger.read(scope) {
            Some(cookie) => Ok(RalcRef::from_parts(cookie, reallocation, self.ledger)),
            None => {
                proof {
                    lemma_step_refused(
                        scope_state(*old(scope)),
                        self.slot(),
                        JarOp::AcquireRead,
                        jar_capacity::<A>(),
                    );
                }
                Err(NoAccess::Deadlock)
            },
        }
    }

    /// A read guard, or `Blocked` if a writer holds the payload.
    pub fn try_read(&self, scope: &mut A) -> (res: Result<RalcRef<A>, NoAccess>)
        requires
            scope_inv(*old(scope)),
            self.live_in(*old(scope)),
        ensures
            scope_inv(*final(scope)),
            self.reads_as(*old(scope), *final(scope), res, NoAccess::Blocked),
    {
        let reallocation = self.ledger.reallocation(scope);
        match self.ledger.try_read(scope) {
            Some(cookie) => Ok(RalcRef::from_parts(cookie, reallocation, self.ledger)),
            None => {
                proof {
                    lemma_step_refused(
                        scope_state(*old(scope)),
                        self.slot(),
                        JarOp::AcquireRead,
                        jar_capacity::<A>(),
                    );
                }
                Err(NoAccess::Blocked)
            },
        }
    }

    /// The write guard, for a caller that would wait. Refused with
    /// `Deadlock` where the wait could not end.
    pub fn write(&self, scope: &mut A) -> (res: Result<RalcMut<A>, NoAccess>)
        requires
            scope_inv(*old(scope)),
            self.live_in(*old(scope)),
        ensures
            scope_inv(*final(scope)),
            self.writes_as(
                *old(scope),
                *final(scope),
                res,
                NoAccess::Deadlock,
                scope_state(*old(scope)).validity(self.slot()),
            ),
    {
        let reallocation = self.ledger.reallocation(scope);
        match self.ledger.write(scope) {
            Some(cookie) => Ok(RalcMut::from_parts(cookie, reallocation, self.ledger)),
            None => {
                proof {
                    lemma_step_refused(
                        scope_state(*old(scope)),
                        self.slot(),
                        JarOp::AcquireWrite,
                        jar_capacity::<A>(),
                    );
                }
                Err(NoAccess::Deadlock)
            },
        }
    }

    /// The write guard, or `Blocked` if any guard is out on the payload.
    pub fn try_write(&self, scope: &mut A) -> (res: Result<RalcMut<A>, NoAccess>)
        requires
            scope_inv(*old(scope)),
            self.live_in(*old(scope)),
        ensures
            scope_inv(*final(scope)),
            self.writes_as(
                *old(scope),
                *final(scope),
                res,
                NoAccess::Blocked,
                scope_state(*old(scope)).validity(self.slot()),
            ),
    {
        let reallocation = self.ledger.reallocation(scope);
        self.try_write_with_reallocation(scope, reallocation)
    }

    /// The write guard under a snapshot that the caller names, or `Blocked`.
    /// The snapshot is not beyond the slot's counter.
    pub fn try_write_with_reallocation(&self, scope: &mut A, reallocation: u64) -> (res: Result<
        RalcMut<A>,
        NoAccess,
    >)
        requires
            scope_inv(*old(scope)),
            scope_state(*old(scope)).occupied(self.slot()),
            reallocation <= scope_state(*old(scope)).validity(self.slot()),
        ensures
            scope_inv(*final(scope)),
            self.writes_as(*old(scope), *final(scope), res, NoAccess::Blocked, reallocation),
    {
        match self.ledger.try_write(scope) {
            Some(cookie) => Ok(RalcMut::from_parts(cookie, reallocation, self.ledger)),
            None => {
                proof {
                    lemma_step_refused(
                        scope_state(*old(scope)),
                        self.slot(),
                        JarOp::AcquireWrite,
                        jar_capacity::<A>(),
                    );
                }
                Err(NoAccess::Blocked)
            },
        }
    }

    /// Takes the payload back out of the scope, if no guard is out on it.
    /// The occupant is retired, so every borrow of it goes stale; the slot,
    /// now empty, is not given back to the scope. With a guard out, the
    /// owner comes back unchanged.
    pub fn try_into_box(self, scope: &mut A) -> (res: Result<Box<A::Payload>, Self>)
        requires
            scope_inv(*old(scope)),
            self.live_in(*old(scope)),
        ensures
            scope_inv(*final(scope)),
            res is Ok <==> scope_state(*old(scope)).jar(self.slot()).can_write(),
            res is Ok ==> Some(*res->Ok_0) == scope_state(*old(scope)).payload(self.slot())
                && scope_state(*final(scope)) == scope_state(*old(scope)).unboxed(self.slot()),
            res is Err ==> res->Err_0 == self && scope_state(*final(scope)) == scope_state(
                *old(scope),
            ),
    {
        match self.try_write(scope) {
            Ok(writer) => {
                let payload = writer.take_box(scope);
                proof {
                    lemma_occupied_in_use(*old(scope), self.slot());
                }
                self.ledger.bump(scope);
                proof {
                    let was = scope_state(*old(scope));
                    let now = scope_state(*scope);
                    assert(now.ledgers =~= was.unboxed(self.slot()).ledgers);
                    assert(now.payloads =~= was.unboxed(self.slot()).payloads);
                }
                Ok(payload)
            },
            Err(_) => Err(self),
        }
    }

    /// Ends the owner. The occupant is retired at once, so every borrow of
    /// it is stale from now on. If no guard is out, the payload is destroyed
    /// and the slot given back to the scope; otherwise the last guard to let
    /// go does both.
    pub fn drop(self, scope: &mut A)
        requires
            scope_inv(*old(scope)),
            self.live_in(*old(scope)),
        ensures
            scope_inv(*final(scope)),
            scope_state(*final(scope)) == scope_state(*old(scope)).owner_dropped(self.slot()),
    {
        let reallocation = self.ledger.reallocation(scope);
        proof {
            lemma_occupied_in_use(*old(scope), self.slot());
        }
        self.ledger.bump(scope);
        let ghost retired = scope_state(*scope);
        match self.try_write_with_reallocation(scope, reallocation) {
            Ok(writer) => {
                proof {
                    lemma_reclaim_forgets_jar(
                        retired,
                        self.slot(),
                        JarOp::AcquireWrite,
                        jar_capacity::<A>(),
                    );
                }
                writer.drop(scope)
            },
            Err(_) => {},
        }
    }
}

} // verus!
