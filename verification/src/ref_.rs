//! The read guard.

use vstd::prelude::*;
use crate::allocators::allocated::{lemma_cookie_out, AllocatedLedger, ReadTokenOf};
use crate::allocators::{
    jar_capacity, lemma_reclaim_forgets_jar, lemma_stepped_twice, scope_inv, scope_state, LedgerAllocator,
};
use crate::cookie::JarOp;
use crate::mut_::RalcMut;

verus! {

/// Shared access to the payload of one slot, for as long as the guard is
/// held. It holds one read cookie of the slot's jar and remembers the
/// validity counter it was taken under.
pub struct RalcRef<A: LedgerAllocator> {
    cookie: ReadTokenOf<A>,
    reallocation: u64,
    ledger: AllocatedLedger<A>,
}

impl<A: LedgerAllocator> RalcRef<A> {
    /// The slot that the guard is on.
    pub closed spec fn slot(&self) -> usize {
        self.ledger.slot()
    }

    /// The validity counter that the guard was taken under.
    pub closed spec fn snapshot(&self) -> u64 {
        self.reallocation
    }

    /// The guard's cookie is out on its slot in `scope`.
    pub open spec fn held_in(&self, scope: A) -> bool {
        &&& scope_state(scope).is_handle(self.slot())
        &&& scope_state(scope).jar(self.slot()).readers >= 1
    }

    /// A guard made of a read cookie of the jar of `ledger`.
    pub(crate) fn from_parts(
        cookie: ReadTokenOf<A>,
        reallocation: u64,
        ledger: AllocatedLedger<A>,
    ) -> (guard: Self)
        ensures
            guard.slot() == ledger.slot(),
            guard.snapshot() == reallocation,
    {
        RalcRef { cookie, reallocation, ledger }
    }

    /// The validity counter that the guard was taken under.
    pub fn reallocation(&self) -> (validity: u64)
        ensures
            validity == self.snapshot(),
    {
        self.reallocation
    }

    /// The handle of the slot that the guard is on.
    pub fn ledger_ptr(&self) -> (ledger: AllocatedLedger<A>)
        ensures
            ledger.slot() == self.slot(),
    {
        self.ledger
    }

    /// The payload.
    pub fn deref<'a>(&self, scope: &'a A) -> (payload: &'a A::Payload)
        requires
            scope_inv(*scope),
            self.held_in(*scope),
        ensures
            Some(*payload) == scope_state(*scope).payload(self.slot()),
    {
        proof {
            lemma_cookie_out(*scope, self.ledger.slot());
        }
        self.ledger.get(scope)
    }

    /// One more read guard on the same slot, under the same snapshot.
    pub fn clone(&self, scope: &mut A) -> (guard: Self)
        requires
            scope_inv(*old(scope)),
            self.held_in(*old(scope)),
            scope_state(*old(scope)).jar(self.slot()).readers < jar_capacity::<A>(),
        ensures
            scope_inv(*final(scope)),
            guard.slot() == self.slot(),
            guard.snapshot() == self.snapshot(),
            scope_state(*final(scope)) == scope_state(*old(scope)).stepped(
                self.slot(),
                JarOp::CloneRead,
                jar_capacity::<A>(),
            ),
    {
        let cookie = self.ledger.clone_read(scope, &self.cookie);
        RalcRef { cookie, reallocation: self.reallocation, ledger: self.ledger }
    }

    /// Turns the guard into a write guard if it is the only guard on its
    /// slot; otherwise gives it back unchanged and changes nothing.
    pub fn try_into_write(self, scope: &mut A) -> (res: Result<RalcMut<A>, Self>)
        requires
            scope_inv(*old(scope)),
            self.held_in(*old(scope)),
        ensures
            scope_inv(*final(scope)),
            res.is_ok() <==> scope_state(*old(scope)).jar(self.slot()).can_upgrade(),
            res.is_ok() ==> res->Ok_0.slot() == self.slot() && res->Ok_0.snapshot()
                == self.snapshot(),
            res.is_err() ==> res->Err_0 == self,
            scope_state(*final(scope)) == scope_state(*old(scope)).stepped(
                self.slot(),
                JarOp::Upgrade,
                jar_capacity::<A>(),
            ),
    {
        self.write_unchecked(scope)
    }

    /// The upgrade itself, shared by `try_into_write` and `drop`.
    fn write_unchecked(self, scope: &mut A) -> (res: Result<RalcMut<A>, Self>)
        requires
            scope_inv(*old(scope)),
            self.held_in(*old(scope)),
        ensures
            scope_inv(*final(scope)),
            res.is_ok() <==> scope_state(*old(scope)).jar(self.slot()).can_upgrade(),
            res.is_ok() ==> res->Ok_0.slot() == self.slot() && res->Ok_0.snapshot()
                == self.snapshot(),
            res.is_err() ==> res->Err_0 == self,
            scope_state(*final(scope)) == scope_state(*old(scope)).stepped(
                self.slot(),
                JarOp::Upgrade,
                jar_capacity::<A>(),
            ),
    {
        let RalcRef { cookie, reallocation, ledger } = self;
        match ledger.try_upgrade(scope, cookie) {
            Ok(cookie) => Ok(RalcMut::from_parts(cookie, reallocation, ledger)),
            Err(cookie) => Err(RalcRef { cookie, reallocation, ledger }),
        }
    }

    /// Lets go of the guard. If the owner was dropped while the guard was
    /// held and this is the last guard on the slot, this destroys the payload
    /// and gives the slot back to the scope; otherwise it only gives the
    /// cookie back.
    pub fn drop(self, scope: &mut A)
        requires
            scope_inv(*old(scope)),
            self.held_in(*old(scope)),
        ensures
            scope_inv(*final(scope)),
            scope_state(*final(scope)) == scope_state(*old(scope)).ref_dropped(
                self.slot(),
                self.snapshot(),
            ),
    {
        let diverged = self.ledger.reallocation(scope) != self.reallocation;
        if diverged {
            match self.write_unchecked(scope) {
                Ok(writer) => {
                    proof {
                        lemma_reclaim_forgets_jar(
                            scope_state(*old(scope)),
                            self.slot(),
                            JarOp::Upgrade,
                            jar_capacity::<A>(),
                        );
                    }
                    writer.drop(scope)
                },
                Err(reader) => {
                    proof {
                        lemma_stepped_twice(
                            scope_state(*old(scope)),
                            self.slot(),
                            JarOp::Upgrade,
                            JarOp::ReleaseRead,
                            jar_capacity::<A>(),
                        );
                    }
                    let RalcRef { cookie, reallocation, ledger } = reader;
                    ledger.release_read(scope, cookie);
                },
            }
        } else {
            let RalcRef { cookie, reallocation, ledger } = self;
            ledger.release_read(scope, cookie);
        }
    }
}

} // verus!
