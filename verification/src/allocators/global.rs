//! The scope of a whole process.

use vstd::prelude::*;
use crate::allocators::{scope_inv, scope_state, LedgerAllocator, Scope, ScopeState};
use crate::ledgerbooks::leaking::LeakyBook;
use crate::ledgerbooks::CHUNK_SIZE;
use crate::owned::OwnedRalc;
use crate::Ralc;
use crate::ledgers::sync::SyncLedger;

verus! {

/// The slots and payloads that all threads of a process share. Whoever keeps
/// it puts it behind a mutex; its slots are never given up.
pub struct GlobalAllocator<T> {
    book: LeakyBook<SyncLedger>,
    data: Vec<Option<T>>,
}

impl<T> GlobalAllocator<T> {
    /// A scope without slots.
    pub fn new() -> (scope: Self)
        ensures
            scope_inv(scope),
            scope_state(scope) == (ScopeState::<T> {
                ledgers: Seq::empty(),
                payloads: Seq::empty(),
                free: Seq::empty(),
                chunk_size: CHUNK_SIZE,
                max_chunk_size: (CHUNK_SIZE * CHUNK_SIZE) as usize,
                expansions: 0,
                total_allocations: 0,
            }),
    {
        let scope = GlobalAllocator { book: LeakyBook::new(), data: Vec::new() };
        assert(scope_state(scope).ledgers =~= Seq::empty());
        scope
    }
}

impl<T> Scope for GlobalAllocator<T> {
    type Payload = T;

    type WrappedLedger = SyncLedger;

    type Allocator = LeakyBook<SyncLedger>;

    closed spec fn book_spec(&self) -> LeakyBook<SyncLedger> {
        self.book
    }

    closed spec fn payloads_spec(&self) -> Seq<Option<T>> {
        self.data@
    }

    open spec fn guard_idle(&self) -> bool {
        true
    }

    fn book(&self) -> (book: &LeakyBook<SyncLedger>) {
        &self.book
    }

    fn book_mut(&mut self) -> (book: &mut LeakyBook<SyncLedger>) {
        &mut self.book
    }

    fn payloads(&self) -> (payloads: &Vec<Option<T>>) {
        &self.data
    }

    fn payloads_mut(&mut self) -> (payloads: &mut Vec<Option<T>>) {
        &mut self.data
    }
}

impl<T> LedgerAllocator for GlobalAllocator<T> {

}

impl<T> OwnedRalc<GlobalAllocator<T>> {
    /// Puts `data` into the process-wide scope and returns its owner.
    pub fn new_global(scope: &mut GlobalAllocator<T>, data: T) -> (owner: Self)
        requires
            scope_inv(*old(scope)),
        ensures
            scope_inv(*final(scope)),
            owner.slot() == scope_state(*old(scope)).next_slot(),
            owner.live_in(*final(scope)),
            scope_state(*final(scope)) == scope_state(*old(scope)).allocated().with_payload(
                owner.slot(),
                Some(data),
            ),
    {
        OwnedRalc::new(scope, data)
    }
}

impl<T> Ralc<GlobalAllocator<T>> {
    /// Puts `data` into the process-wide scope and returns the owning pointer.
    pub fn new_global(scope: &mut GlobalAllocator<T>, data: T) -> (ralc: Self)
        requires
            scope_inv(*old(scope)),
        ensures
            scope_inv(*final(scope)),
            ralc is Owned,
            ralc.slot() == scope_state(*old(scope)).next_slot(),
            ralc.usable_in(*final(scope)),
            scope_state(*final(scope)) == scope_state(*old(scope)).allocated().with_payload(
                ralc.slot(),
                Some(data),
            ),
    {
        Ralc::Owned(OwnedRalc::new_global(scope, data))
    }
}

} // verus!
