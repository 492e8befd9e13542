//! The scope of one thread.

use vstd::prelude::*;
use crate::allocators::{scope_inv, scope_state, LedgerAllocator, Scope, ScopeState};
use crate::ledgerbooks::retaining::RetainingBook;
use crate::ledgerbooks::CHUNK_SIZE;
use crate::owned::OwnedRalc;
use crate::Ralc;
use crate::ledgers::silo::SiloedLedger;

verus! {

/// The slots and payloads that one thread keeps for itself. It is kept where
/// only that thread reaches it, and goes with the thread.
pub struct ThreadLocalAllocator<T> {
    book: RetainingBook<SiloedLedger>,
    data: Vec<Option<T>>,
}

impl<T> ThreadLocalAllocator<T> {
    /// A scope without slots.
    pub fn new() -> (scope: Self)
        ensures
            scope_inv(scope),
            scope_state(scope) == (ScopeState::<T> {
                ledgers: Seq::empty(),
                payloads: Seq::empty(),
                free: Seq::empty(),
                chunk_size: CHUNK_SIZE,
                max_chunk_size: (CHUNK_SIZE * CHUNK_SIZE) as usize,
                expansions: 0,
                total_allocations: 0,
            }),
    {
        let scope = ThreadLocalAllocator { book: RetainingBook::new(), data: Vec::new() };
        assert(scope_state(scope).ledgers =~= Seq::empty());
        scope
    }
}

impl<T> Scope for ThreadLocalAllocator<T> {
    type Payload = T;

    type WrappedLedger = SiloedLedger;

    type Allocator = RetainingBook<SiloedLedger>;

    closed spec fn book_spec(&self) -> RetainingBook<SiloedLedger> {
        self.book
    }

    closed spec fn payloads_spec(&self) -> Seq<Option<T>> {
        self.data@
    }

    open spec fn guard_idle(&self) -> bool {
        true
    }

    fn book(&self) -> (book: &RetainingBook<SiloedLedger>) {
        &self.book
    }

    fn book_mut(&mut self) -> (book: &mut RetainingBook<SiloedLedger>) {
        &mut self.book
    }

    fn payloads(&self) -> (payloads: &Vec<Option<T>>) {
        &self.data
    }

    fn payloads_mut(&mut self) -> (payloads: &mut Vec<Option<T>>) {
        &mut self.data
    }
}

impl<T> LedgerAllocator for ThreadLocalAllocator<T> {

}

impl<T> OwnedRalc<ThreadLocalAllocator<T>> {
    /// Puts `data` into a thread's scope and returns its owner.
    pub fn new_thread_local(scope: &mut ThreadLocalAllocator<T>, data: T) -> (owner: Self)
        requires
            scope_inv(*old(scope)),
        ensures
            scope_inv(*final(scope)),
            owner.slot() == scope_state(*old(scope)).next_slot(),
            owner.live_in(*final(scope)),
            scope_state(*final(scope)) == scope_state(*old(scope)).allocated().with_payload(
                owner.slot(),
                Some(data),
            ),
    {
        OwnedRalc::new(scope, data)
    }
}

impl<T> Ralc<ThreadLocalAllocator<T>> {
    /// Puts `data` into a thread's scope and returns the owning pointer.
    pub fn new_thread_local(scope: &mut ThreadLocalAllocator<T>, data: T) -> (ralc: Self)
        requires
            scope_inv(*old(scope)),
        ensures
            scope_inv(*final(scope)),
            ralc is Owned,
            ralc.slot() == scope_state(*old(scope)).next_slot(),
            ralc.usable_in(*final(scope)),
            scope_state(*final(scope)) == scope_state(*old(scope)).allocated().with_payload(
                ralc.slot(),
                Some(data),
            ),
    {
        Ralc::Owned(OwnedRalc::new_thread_local(scope, data))
    }
}

} // verus!
