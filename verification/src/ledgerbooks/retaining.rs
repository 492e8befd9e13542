//! The book that keeps its chunks: the slots live in the book and go when
//! the book goes.

use vstd::prelude::*;
use crate::ledgerbooks::{new_chunk, BookState, LedgerBook, CHUNK_SIZE};
use crate::ledgers::Ledger;

verus! {

/// A book for a scope that ends: a thread, a task or a pool. Nothing of it
/// outlives it.
pub struct RetainingBook<L: Ledger> {
    chunk_size: usize,
    max_chunk_size: usize,
    expansions: usize,
    total_allocations: usize,
    alloc: Vec<L>,
    free: Vec<usize>,
}

impl<L: Ledger> RetainingBook<L> {
    /// An empty book whose first chunk has `CHUNK_SIZE` slots and whose
    /// chunks grow up to the square of that.
    pub fn new() -> (book: Self)
        ensures
            book.initialized(),
            book@.wf(),
            book@ == (BookState::<L> {
                slots: Seq::empty(),
                free: Seq::empty(),
                chunk_size: CHUNK_SIZE,
                max_chunk_size: (CHUNK_SIZE * CHUNK_SIZE) as usize,
                expansions: 0,
                total_allocations: 0,
            }),
    {
        RetainingBook {
            chunk_size: CHUNK_SIZE,
            max_chunk_size: CHUNK_SIZE * CHUNK_SIZE,
            expansions: 0,
            total_allocations: 0,
            alloc: Vec::new(),
            free: Vec::new(),
        }
    }
}

impl<L: Ledger> LedgerBook<L> for RetainingBook<L> {
    closed spec fn view(&self) -> BookState<L> {
        BookState {
            slots: self.alloc@,
            free: self.free@,
            chunk_size: self.chunk_size,
            max_chunk_size: self.max_chunk_size,
            expansions: self.expansions,
            total_allocations: self.total_allocations,
        }
    }

    open spec fn initialized(&self) -> bool {
        true
    }

    fn free_list(&mut self) -> (free: &mut Vec<usize>) {
        &mut self.free
    }

    fn lazy_init(&mut self) {
    }

    fn new_slice<F: Fn() -> L>(&mut self, produce: &F) -> (base: usize) {
        let end = new_chunk(&mut self.alloc, self.chunk_size, produce);
        end - self.chunk_size
    }

    fn chunk_size(&self) -> (size: usize) {
        self.chunk_size
    }

    fn bump_chunk_size(&mut self) {
        if self.chunk_size <= self.max_chunk_size / 2 {
            self.chunk_size = 2 * self.chunk_size;
        } else if self.chunk_size <= self.max_chunk_size {
            self.chunk_size = self.max_chunk_size;
        }
    }

    fn set_chunks(&mut self, chunk: usize, limit: usize) {
        self.chunk_size = chunk;
        self.max_chunk_size = limit;
    }

    fn count_expansion(&mut self) {
        if self.expansions < usize::MAX {
            self.expansions = self.expansions + 1;
        }
    }

    fn count_allocation(&mut self) {
        if self.total_allocations < usize::MAX {
            self.total_allocations = self.total_allocations + 1;
        }
    }

    fn slot_count(&self) -> (n: usize) {
        self.alloc.len()
    }

    fn expansions(&self) -> (n: usize) {
        self.expansions
    }

    fn total_allocations(&self) -> (n: usize) {
        self.total_allocations
    }

    fn free_count(&self) -> (n: usize) {
        self.free.len()
    }

    fn reset(&mut self) {
        self.total_allocations = 0;
        self.expansions = 0;
        self.free.clear();
    }

    fn ledger(&self, ledger: usize) -> (slot: &L) {
        &self.alloc[ledger]
    }

    fn ledger_mut(&mut self, ledger: usize) -> (slot: &mut L) {
        &mut self.alloc[ledger]
    }
}

} // verus!
