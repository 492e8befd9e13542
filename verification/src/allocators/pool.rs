//! The pool: a scope that a caller makes, owns and drops.

use vstd::prelude::*;
use crate::allocators::allocated::{AllocatedLedger, RefLike};
use crate::allocators::{scope_inv, scope_state, LedgerAllocator, Scope, ScopeState};
use crate::cookie::{CookieJar, JarState};
use crate::ledgerbooks::retaining::RetainingBook;
use crate::ledgerbooks::{LedgerBook, CHUNK_SIZE};
use crate::ledgers::silo::SiloedLedger;
use crate::owned::OwnedRalc;
use crate::ledgers::Ledger;

verus! {

/// A scope with a lifetime of its own. A jar of the ledgers' kind guards the
/// book: allocation and deallocation take its write cookie, since both change
/// the free list, and a look at the counts takes a read cookie.
pub struct PoolAllocator<T, L: Ledger> {
    cookie: L::Cookies,
    shelf: PoolShelf<T, L>,
}

/// What the guard of a pool guards: the book and the payloads. It is a scope
/// by itself, so that work on it leaves the guard alone.
pub struct PoolShelf<T, L: Ledger> {
    book: RetainingBook<L>,
    data: Vec<Option<T>>,
}

/// The handle of a slot of a pool.
pub type PoolLedger<T, L> = AllocatedLedger<PoolAllocator<T, L>>;

impl<T> PoolAllocator<T, SiloedLedger> {
    /// A pool for the use of one thread or task.
    pub fn new_local() -> (pool: Self)
        ensures
            pool.inv(),
            scope_state(pool) == PoolAllocator::<T, SiloedLedger>::empty(),
    {
        PoolAllocator::new()
    }
}

impl<T, L: Ledger> PoolAllocator<T, L> {
    /// What a new pool holds: nothing.
    pub open spec fn empty() -> ScopeState<T> {
        ScopeState {
            ledgers: Seq::empty(),
            payloads: Seq::empty(),
            free: Seq::empty(),
            chunk_size: CHUNK_SIZE,
            max_chunk_size: (CHUNK_SIZE * CHUNK_SIZE) as usize,
            expansions: 0,
            total_allocations: 0,
        }
    }

    /// The cookies outstanding on the jar that guards the book.
    pub closed spec fn guard(&self) -> JarState {
        self.cookie.state()
    }

    /// The pool is consistent and nobody is at its book.
    pub open spec fn inv(&self) -> bool {
        scope_inv(*self)
    }

    /// Nobody is at the book of a consistent pool.
    pub proof fn lemma_inv(&self)
        requires
            self.inv(),
        ensures
            self.guard().is_idle(),
    {
    }

    /// A pool without slots.
    pub fn new() -> (pool: Self)
        ensures
            pool.inv(),
            scope_state(pool) == Self::empty(),
    {
        let pool = PoolAllocator {
            cookie: <L::Cookies as CookieJar>::new(),
            shelf: PoolShelf { book: RetainingBook::new(), data: Vec::new() },
        };
        assert(scope_state(pool).ledgers =~= Seq::empty());
        pool
    }

    /// How many slots wait on the free list.
    pub fn free_count(&mut self) -> (n: usize)
        requires
            old(self).inv(),
        ensures
            final(self).inv(),
            scope_state(*final(self)) == scope_state(*old(self)),
            n == scope_state(*old(self)).free.len(),
    {
        proof {
            self.cookie.lemma_inv();
        }
        let cookie = self.cookie.read().unwrap();
        let n = self.shelf.book.free_count();
        self.cookie.release_read(cookie);
        n
    }

    /// How many chunks were carved.
    pub fn expansions(&mut self) -> (n: usize)
        requires
            old(self).inv(),
        ensures
            final(self).inv(),
            scope_state(*final(self)) == scope_state(*old(self)),
            n == scope_state(*old(self)).expansions,
    {
        proof {
            self.cookie.lemma_inv();
        }
        let cookie = self.cookie.read().unwrap();
        let n = self.shelf.book.expansions();
        self.cookie.release_read(cookie);
        n
    }

    /// How many times a slot was handed out.
    pub fn total_allocations(&mut self) -> (n: usize)
        requires
            old(self).inv(),
        ensures
            final(self).inv(),
            scope_state(*final(self)) == scope_state(*old(self)),
            n == scope_state(*old(self)).total_allocations,
    {
        proof {
            self.cookie.lemma_inv();
        }
        let cookie = self.cookie.read().unwrap();
        let n = self.shelf.book.total_allocations();
        self.cookie.release_read(cookie);
        n
    }

    /// Hands out a slot, with the guard's write cookie held meanwhile.
    pub fn alloc_guarded(&mut self) -> (ledger: PoolLedger<T, L>)
        requires
            old(self).inv(),
        ensures
            final(self).inv(),
            ledger.slot() == scope_state(*old(self)).next_slot(),
            scope_state(*final(self)) == scope_state(*old(self)).allocated(),
            scope_state(*final(self)).in_use(ledger.slot()),
            scope_state(*final(self)).validity(ledger.slot()) < crate::ledgers::RETIRED,
            scope_state(*final(self)).jar(ledger.slot()).is_idle(),
            scope_state(*final(self)).payload(ledger.slot()).is_none(),
    {
        let cookie = self.cookie.write().unwrap();
        let ledger = self.shelf.alloc_ledger();
        self.cookie.release_write(cookie);
        PoolLedger::from_ptr(ledger.to_ptr())
    }

    /// Puts `value` into the pool and returns its owner.
    pub fn alc(&mut self, value: T) -> (owner: OwnedRalc<PoolAllocator<T, L>>)
        requires
            old(self).inv(),
        ensures
            final(self).inv(),
            owner.slot() == scope_state(*old(self)).next_slot(),
            owner.live_in(*final(self)),
            scope_state(*final(self)) == scope_state(*old(self)).allocated().with_payload(
                owner.slot(),
                Some(value),
            ),
    {
        let ledger = self.alloc_guarded();
        ledger.put(self, value);
        OwnedRalc::from_raw_parts(ledger)
    }

    /// Takes back a slot that is in use and has no payload, with the guard's
    /// write cookie held meanwhile.
    pub fn dealloc_ledger(&mut self, ledger: PoolLedger<T, L>)
        requires
            old(self).inv(),
            scope_state(*old(self)).in_use(ledger.slot()),
            scope_state(*old(self)).payload(ledger.slot()).is_none(),
        ensures
            final(self).inv(),
            scope_state(*final(self)) == scope_state(*old(self)).deallocated(ledger.slot()),
    {
        let cookie = self.cookie.write().unwrap();
        self.shelf.free(AllocatedLedger::from_ptr(ledger.to_ptr()));
        self.cookie.release_write(cookie);
    }
}

impl<T, L: Ledger> Scope for PoolShelf<T, L> {
    type Payload = T;

    type WrappedLedger = L;

    type Allocator = RetainingBook<L>;

    closed spec fn book_spec(&self) -> RetainingBook<L> {
        self.book
    }

    closed spec fn payloads_spec(&self) -> Seq<Option<T>> {
        self.data@
    }

    open spec fn guard_idle(&self) -> bool {
        true
    }

    fn book(&self) -> (book: &RetainingBook<L>) {
        &self.book
    }

    fn book_mut(&mut self) -> (book: &mut RetainingBook<L>) {
        &mut self.book
    }

    fn payloads(&self) -> (payloads: &Vec<Option<T>>) {
        &self.data
    }

    fn payloads_mut(&mut self) -> (payloads: &mut Vec<Option<T>>) {
        &mut self.data
    }
}

impl<T, L: Ledger> LedgerAllocator for PoolShelf<T, L> {

}

impl<T, L: Ledger> Scope for PoolAllocator<T, L> {
    type Payload = T;

    type WrappedLedger = L;

    type Allocator = RetainingBook<L>;

    closed spec fn book_spec(&self) -> RetainingBook<L> {
        self.shelf.book
    }

    closed spec fn payloads_spec(&self) -> Seq<Option<T>> {
        self.shelf.data@
    }

    closed spec fn guard_idle(&self) -> bool {
        self.cookie.inv() && self.cookie.state().is_idle()
    }

    fn book(&self) -> (book: &RetainingBook<L>) {
        &self.shelf.book
    }

    fn book_mut(&mut self) -> (book: &mut RetainingBook<L>) {
        &mut self.shelf.book
    }

    fn payloads(&self) -> (payloads: &Vec<Option<T>>) {
        &self.shelf.data
    }

    fn payloads_mut(&mut self) -> (payloads: &mut Vec<Option<T>>) {
        &mut self.shelf.data
    }
}

impl<T, L: Ledger> LedgerAllocator for PoolAllocator<T, L> {

}

} // verus!
