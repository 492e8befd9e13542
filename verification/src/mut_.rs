//! The write guard.

use vstd::prelude::*;
use crate::allocators::allocated::{lemma_cookie_out, AllocatedLedger, WriteTokenOf};
use crate::allocators::{jar_capacity, scope_inv, scope_state, LedgerAllocator};
use crate::cookie::JarOp;
use crate::ref_::RalcRef;

verus! {

/// Exclusive access to the payload of one slot, for as long as the guard is
/// held. It holds the write cookie of the slot's jar and remembers the
/// validity counter it was taken under.
pub struct RalcMut<A: LedgerAllocator> {
    cookie: WriteTokenOf<A>,
    reallocation: u64,
    ledger: AllocatedLedger<A>,
}

impl<A: LedgerAllocator> RalcMut<A> {
    /// The slot that the guard is on.
    pub closed spec fn slot(&self) -> usize {
        self.ledger.slot()
    }

    /// The validity counter that the guard was taken under.
    pub closed spec fn snapshot(&self) -> u64 {
        self.reallocation
    }

    /// The guard's cookie is out on its slot in `scope`.
    pub open spec fn held_in(&self, scope: A) -> bool {
        &&& scope_state(scope).is_handle(self.slot())
        &&& scope_state(scope).jar(self.slot()).writers >= 1
    }

    /// A guard made of a write cookie of the jar of `ledger`.
    pub(crate) fn from_parts(
        cookie: WriteTokenOf<A>,
        reallocation: u64,
        ledger: AllocatedLedger<A>,
    ) -> (guard: Self)
        ensures
            guard.slot() == ledger.slot(),
            guard.snapshot() == reallocation,
    {
        RalcMut { cookie, reallocation, ledger }
    }

    /// The validity counter that the guard was taken under.
    pub fn reallocation(&self) -> (validity: u64)
        ensures
            validity == self.snapshot(),
    {
        self.reallocation
    }

    /// The handle of the slot that the guard is on.
    pub fn ledger_ptr(&self) -> (ledger: AllocatedLedger<A>)
        ensures
            ledger.slot() == self.slot(),
    {
        self.ledger
    }

    /// The payload.
    pub fn deref<'a>(&self, scope: &'a A) -> (payload: &'a A::Payload)
        requires
            scope_inv(*scope),
            self.held_in(*scope),
        ensures
            Some(*payload) == scope_state(*scope).payload(self.slot()),
    {
        proof {
            lemma_cookie_out(*scope, self.ledger.slot());
        }
        self.ledger.get(scope)
    }

    /// The payload, to change it.
    pub fn deref_mut<'a>(&self, scope: &'a mut A) -> (payload: &'a mut A::Payload)
        requires
            scope_inv(*old(scope)),
            self.held_in(*old(scope)),
        ensures
            Some(*payload) == scope_state(*old(scope)).payload(self.slot()),
            scope_state(*final(scope)) == scope_state(*old(scope)).with_payload(
                self.slot(),
                Some(*final(payload)),
            ),
            scope_inv(*final(scope)),
    {
        proof {
            lemma_cookie_out(*old(scope), self.ledger.slot());
        }
        self.ledger.get_mut(scope)
    }

    /// Puts `value` in place of the payload.
    pub fn set(&self, scope: &mut A, value: A::Payload)
        requires
            scope_inv(*old(scope)),
            self.held_in(*old(scope)),
        ensures
            scope_inv(*final(scope)),
            scope_state(*final(scope)) == scope_state(*old(scope)).with_payload(
                self.slot(),
                Some(value),
            ),
    {
        proof {
            lemma_cookie_out(*old(scope), self.ledger.slot());
        }
        self.ledger.put(scope, value)
    }

    /// Gives up exclusive access and keeps shared access. Always succeeds.
    pub fn into_read(self, scope: &mut A) -> (guard: RalcRef<A>)
        requires
            scope_inv(*old(scope)),
            self.held_in(*old(scope)),
        ensures
            scope_inv(*final(scope)),
            guard.slot() == self.slot(),
            guard.snapshot() == self.snapshot(),
            scope_state(*final(scope)) == scope_state(*old(scope)).stepped(
                self.slot(),
                JarOp::Downgrade,
                jar_capacity::<A>(),
            ),
    {
        let RalcMut { cookie, reallocation, ledger } = self;
        let reader = ledger.downgrade(scope, cookie);
        RalcRef::from_parts(reader, reallocation, ledger)
    }

    /// Takes the payload out and gives the cookie back. The slot stays
    /// handed out; this is for the owner, who gives up the slot itself.
    pub(crate) fn take_box(self, scope: &mut A) -> (payload: Box<A::Payload>)
        requires
            scope_inv(*old(scope)),
            self.held_in(*old(scope)),
        ensures
            scope_inv(*final(scope)),
            Some(*payload) == scope_state(*old(scope)).payload(self.slot()),
            scope_state(*final(scope)) == scope_state(*old(scope)).stepped(
                self.slot(),
                JarOp::ReleaseWrite,
                jar_capacity::<A>(),
            ).with_payload(self.slot(), None),
    {
        let RalcMut { cookie, reallocation, ledger } = self;
        proof {
            lemma_cookie_out(*old(scope), ledger.slot());
        }
        ledger.release_write(scope, cookie);
        let payload = ledger.take(scope);
        Box::new(payload.unwrap())
    }

    /// Lets go of the guard. If the owner was dropped while the guard was
    /// held, this destroys the payload and gives the slot back to the scope;
    /// otherwise it only gives the cookie back.
    pub fn drop(self, scope: &mut A)
        requires
            scope_inv(*old(scope)),
            self.held_in(*old(scope)),
        ensures
            scope_inv(*final(scope)),
            scope_state(*final(scope)) == scope_state(*old(scope)).mut_dropped(
                self.slot(),
                self.snapshot(),
            ),
    {
        let RalcMut { cookie, reallocation, ledger } = self;
        proof {
            lemma_cookie_out(*old(scope), ledger.slot());
        }
        let diverged = ledger.reallocation(scope) != reallocation;
        ledger.release_write(scope, cookie);
        if diverged {
            let _payload = ledger.take(scope);
            ledger.free(scope);
        }
    }
}

} // verus!
