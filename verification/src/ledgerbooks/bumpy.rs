//! The bump-arena book: one arena, made on first use, that only ever grows
//! at its end.

use vstd::prelude::*;
use crate::ledgerbooks::{new_chunk, BookState, LedgerBook, CHUNK_SIZE};
use crate::ledgers::Ledger;

verus! {

/// A book that carves its chunks from the end of a single arena. Until the
/// first allocation there is no arena at all. Its chunks do not grow unless
/// `set_chunks` raises the limit.
pub struct BumpyBook<L: Ledger> {
    chunk_size: usize,
    max_chunk_size: usize,
    total_allocations: usize,
    expansions: usize,
    alo: Option<Vec<L>>,
    free: Vec<usize>,
}

impl<L: Ledger> BumpyBook<L> {
    /// A book without an arena, whose chunks will have `CHUNK_SIZE` slots.
    pub fn new() -> (book: Self)
        ensures
            !book.initialized(),
            book@.wf(),
            book@ == (BookState::<L> {
                slots: Seq::empty(),
                free: Seq::empty(),
                chunk_size: CHUNK_SIZE,
                max_chunk_size: CHUNK_SIZE,
                expansions: 0,
                total_allocations: 0,
            }),
    {
        BumpyBook {
            chunk_size: CHUNK_SIZE,
            max_chunk_size: CHUNK_SIZE,
            expansions: 0,
            total_allocations: 0,
            alo: None,
            free: Vec::new(),
        }
    }
}

impl<L: Ledger> LedgerBook<L> for BumpyBook<L> {
    closed spec fn view(&self) -> BookState<L> {
        BookState {
            slots: match self.alo {
                Some(arena) => arena@,
                None => Seq::empty(),
            },
            free: self.free@,
            chunk_size: self.chunk_size,
            max_chunk_size: self.max_chunk_size,
            expansions: self.expansions,
            total_allocations: self.total_allocations,
        }
    }

    closed spec fn initialized(&self) -> bool {
        self.alo.is_some()
    }

    fn free_list(&mut self) -> (free: &mut Vec<usize>) {
        &mut self.free
    }

    fn lazy_init(&mut self) {
        if self.alo.is_none() {
            self.alo = Some(Vec::new());
        }
    }

    fn new_slice<F: Fn() -> L>(&mut self, produce: &F) -> (base: usize) {
        let mut arena = self.alo.take().unwrap();
        let end = new_chunk(&mut arena, self.chunk_size, produce);
        self.alo = Some(arena);
        end - self.chunk_size
    }

    fn chunk_size(&self) -> (size: usize) {
        self.chunk_size
    }

    fn bump_chunk_size(&mut self) {
        if self.chunk_size <= self.max_chunk_size / 2 {
            self.chunk_size = 2 * self.chunk_size;
        } else if self.chunk_size <= self.max_chunk_size {
            self.chunk_size = self.max_chunk_size;
        }
    }

    fn set_chunks(&mut self, chunk: usize, limit: usize) {
        self.chunk_size = chunk;
        self.max_chunk_size = limit;
    }

    fn count_expansion(&mut self) {
        if self.expansions < usize::MAX {
            self.expansions = self.expansions + 1;
        }
    }

    fn count_allocation(&mut self) {
        if self.total_allocations < usize::MAX {
            self.total_allocations = self.total_allocations + 1;
        }
    }

    fn slot_count(&self) -> (n: usize) {
        match &self.alo {
            Some(arena) => arena.len(),
            None => 0,
        }
    }

    fn expansions(&self) -> (n: usize) {
        self.expansions
    }

    fn total_allocations(&self) -> (n: usize) {
        self.total_allocations
    }

    fn free_count(&self) -> (n: usize) {
        self.free.len()
    }

    fn reset(&mut self) {
        self.expansions = 0;
        self.total_allocations = 0;
        self.free.clear();
    }

    fn ledger(&self, ledger: usize) -> (slot: &L) {
        let arena = self.alo.as_ref().unwrap();
        &arena[ledger]
    }

    fn ledger_mut(&mut self, ledger: usize) -> (slot: &mut L) {
        let arena = self.alo.as_mut().unwrap();
        &mut arena[ledger]
    }
}

} // verus!
