//! Ledger books: pools of ledger slots with a free list and a growth policy.
//!
//! A book carves its slots in chunks. A slot is known by its handle, the
//! position at which it was carved; a carved slot never moves and is never
//! removed, so a handle stays good for as long as the book exists. Slots that
//! are out of use wait on a last-in, first-out free list.

use vstd::prelude::*;
use crate::ledgers::{ledger_fresh, ledger_inv, Ledger, RETIRED};

pub mod bumpy;
pub mod leaking;
pub mod retaining;

verus! {

/// The size of the first chunk of a new book.
pub const CHUNK_SIZE: usize = 1024;

/// What a book holds.
pub struct BookState<L> {
    /// Every slot carved so far, by handle.
    pub slots: Seq<L>,
    /// The handles out of use; the last one is handed out next.
    pub free: Seq<usize>,
    /// The size of the next chunk.
    pub chunk_size: usize,
    /// The size that no chunk exceeds.
    pub max_chunk_size: usize,
    /// How many chunks were carved.
    pub expansions: usize,
    /// How many times a slot was handed out.
    pub total_allocations: usize,
}

/// A counter after one more event. It stops at the largest value.
pub open spec fn counted(n: usize) -> usize {
    if n < usize::MAX {
        (n + 1) as usize
    } else {
        n
    }
}

/// The chunk size after an expansion: doubled, but not beyond `limit`.
pub open spec fn grown(chunk: usize, limit: usize) -> usize {
    if 2 * chunk <= limit {
        (2 * chunk) as usize
    } else if chunk <= limit {
        limit
    } else {
        chunk
    }
}

/// The handles that an expansion puts on an empty free list: all of the new
/// chunk but its first slot, in carving order.
pub open spec fn chunk_rest(base: usize, chunk: usize) -> Seq<usize> {
    Seq::new((chunk - 1) as nat, |i: int| (base + 1 + i) as usize)
}

impl<L: Ledger> BookState<L> {
    /// The free list names carved slots, each once, none of them retired for
    /// good; every ledger is consistent; the growth policy is usable.
    pub open spec fn wf(self) -> bool {
        &&& 1 <= self.chunk_size <= self.max_chunk_size
        &&& self.slots.len() <= usize::MAX
        &&& forall|i: int| 0 <= i < self.free.len() ==> (#[trigger] self.free[i] as int) < self.slots.len()
        &&& self.free.no_duplicates()
        &&& forall|s: int| 0 <= s < self.slots.len() ==> ledger_inv(#[trigger] self.slots[s])
        &&& forall|i: int|
            0 <= i < self.free.len() ==> self.slots[#[trigger] self.free[i] as int].reallocation_spec()
                < RETIRED
    }

    /// `ledger` names a carved slot.
    pub open spec fn is_handle(self, ledger: usize) -> bool {
        (ledger as int) < self.slots.len()
    }

    /// `ledger` names a carved slot that is handed out.
    pub open spec fn in_use(self, ledger: usize) -> bool {
        self.is_handle(ledger) && !self.free.contains(ledger)
    }

    /// The validity counter of slot `ledger`.
    pub open spec fn validity(self, ledger: usize) -> u64 {
        self.slots[ledger as int].reallocation_spec()
    }

    /// The book after slot `ledger` came back: on top of the free list,
    /// unless its counter is exhausted.
    pub open spec fn deallocated(self, ledger: usize) -> BookState<L> {
        if self.validity(ledger) != RETIRED {
            BookState { free: self.free.push(ledger), ..self }
        } else {
            self
        }
    }

    /// The book after the top of a non-empty free list was handed out.
    pub open spec fn recycled(self) -> BookState<L> {
        BookState {
            free: self.free.drop_last(),
            total_allocations: counted(self.total_allocations),
            ..self
        }
    }

    /// `self` is what an expansion makes of `before`, whose free list was
    /// empty: one chunk of fresh slots is carved behind the old ones, its
    /// first slot is held back for the caller and the others are free.
    pub open spec fn expanded_from(self, before: BookState<L>) -> bool {
        &&& self.slots.len() == before.slots.len() + before.chunk_size
        &&& forall|s: int| 0 <= s < before.slots.len() ==> self.slots[s] == before.slots[s]
        &&& forall|s: int|
            before.slots.len() <= s < self.slots.len() ==> ledger_fresh(#[trigger] self.slots[s])
        &&& self.free == chunk_rest(before.slots.len() as usize, before.chunk_size)
        &&& self.chunk_size == grown(before.chunk_size, before.max_chunk_size)
        &&& self.max_chunk_size == before.max_chunk_size
        &&& self.expansions == counted(before.expansions)
        &&& self.total_allocations == counted(before.total_allocations)
    }
}

/// `produce` can always be called and only ever makes fresh ledgers.
pub open spec fn makes_fresh<L: Ledger, F: Fn() -> L>(produce: &F) -> bool {
    &&& forall|unit: ()| produce.requires(unit)
    &&& forall|unit: (), ledger: L| produce.ensures(unit, ledger) ==> ledger_fresh(ledger)
}

/// `ledger` is a fresh ledger that a call of `produce` made.
pub open spec fn made_by<L: Ledger, F: Fn() -> L>(produce: &F, ledger: L) -> bool {
    produce.ensures((), ledger) && ledger_fresh(ledger)
}

/// Carves `count` ledgers of `produce` behind the ones in `slots`, and
/// returns the handle that the next carved ledger would get.
pub fn new_chunk<L: Ledger, F: Fn() -> L>(slots: &mut Vec<L>, count: usize, produce: &F) -> (end:
    usize)
    requires
        makes_fresh(produce),
    ensures
        end == final(slots)@.len(),
        final(slots)@.len() == old(slots)@.len() + count,
        forall|s: int| 0 <= s < old(slots)@.len() ==> final(slots)@[s] == old(slots)@[s],
        forall|s: int|
            old(slots)@.len() <= s < final(slots)@.len() ==> made_by(produce, #[trigger] final(slots)@[s]),
{
    let mut done: usize = 0;
    while done < count
        invariant
            done <= count,
            makes_fresh(produce),
            slots@.len() == old(slots)@.len() + done,
            forall|s: int| 0 <= s < old(slots)@.len() ==> slots@[s] == old(slots)@[s],
            forall|s: int| old(slots)@.len() <= s < slots@.len() ==> made_by(produce, #[trigger] slots@[s]),
        decreases count - done,
    {
        let ledger = produce();
        slots.push(ledger);
        done = done + 1;
    }
    slots.len()
}

/// The storage and the counters of a book. Each strategy of keeping the
/// slots implements this; `LedgerBookExt` then allocates and deallocates.
pub trait LedgerBook<L: Ledger>: Sized {
    /// What the book holds.
    spec fn view(&self) -> BookState<L>;

    /// The backing store exists.
    spec fn initialized(&self) -> bool;

    /// The free list.
    fn free_list(&mut self) -> (free: &mut Vec<usize>)
        ensures
            free@ == old(self)@.free,
            final(self)@ == (BookState { free: final(free)@, ..old(self)@ }),
            final(self).initialized() == old(self).initialized(),
    ;

    /// Makes the backing store if this is the first use of the book.
    fn lazy_init(&mut self)
        ensures
            final(self).initialized(),
            final(self)@ == old(self)@,
    ;

    /// Carves one chunk of fresh ledgers behind the existing slots and
    /// returns the handle of its first slot.
    fn new_slice<F: Fn() -> L>(&mut self, produce: &F) -> (base: usize)
        requires
            old(self).initialized(),
            makes_fresh(produce),
        ensures
            final(self).initialized(),
            base == old(self)@.slots.len(),
            final(self)@.slots.len() == old(self)@.slots.len() + old(self)@.chunk_size,
            final(self)@.slots.len() <= usize::MAX,
            forall|s: int| 0 <= s < old(self)@.slots.len() ==> final(self)@.slots[s] == old(self)@.slots[s],
            forall|s: int|
                old(self)@.slots.len() <= s < final(self)@.slots.len() ==> made_by(
                    produce,
                    #[trigger] final(self)@.slots[s],
                ),
            final(self)@.free == old(self)@.free,
            final(self)@.chunk_size == old(self)@.chunk_size,
            final(self)@.max_chunk_size == old(self)@.max_chunk_size,
            final(self)@.expansions == old(self)@.expansions,
            final(self)@.total_allocations == old(self)@.total_allocations,
    ;

    /// The size of the next chunk.
    fn chunk_size(&self) -> (size: usize)
        ensures
            size == self@.chunk_size,
    ;

    /// Doubles the size of the next chunk, up to the limit.
    fn bump_chunk_size(&mut self)
        ensures
            final(self)@ == (BookState {
                chunk_size: grown(old(self)@.chunk_size, old(self)@.max_chunk_size),
                ..old(self)@
            }),
            final(self).initialized() == old(self).initialized(),
    ;

    /// Sets the size of the next chunk and the limit for all later ones.
    fn set_chunks(&mut self, chunk: usize, limit: usize)
        requires
            1 <= chunk <= limit,
        ensures
            final(self)@ == (BookState { chunk_size: chunk, max_chunk_size: limit, ..old(self)@ }),
            final(self).initialized() == old(self).initialized(),
    ;

    /// Records one expansion.
    fn count_expansion(&mut self)
        ensures
            final(self)@ == (BookState { expansions: counted(old(self)@.expansions), ..old(self)@ }),
            final(self).initialized() == old(self).initialized(),
    ;

    /// Records one allocation.
    fn count_allocation(&mut self)
        ensures
            final(self)@ == (BookState {
                total_allocations: counted(old(self)@.total_allocations),
                ..old(self)@
            }),
            final(self).initialized() == old(self).initialized(),
    ;

    /// How many slots were carved.
    fn slot_count(&self) -> (n: usize)
        ensures
            n == self@.slots.len(),
    ;

    /// How many chunks were carved.
    fn expansions(&self) -> (n: usize)
        ensures
            n == self@.expansions,
    ;

    /// How many times a slot was handed out.
    fn total_allocations(&self) -> (n: usize)
        ensures
            n == self@.total_allocations,
    ;

    /// How many slots wait on the free list.
    fn free_count(&self) -> (n: usize)
        ensures
            n == self@.free.len(),
    ;

    /// Forgets the counts and the free list. The slots stay where they are,
    /// so handles that are out remain good; the slots that were free are
    /// never handed out again.
    fn reset(&mut self)
        ensures
            final(self)@ == (BookState {
                free: Seq::empty(),
                expansions: 0,
                total_allocations: 0,
                ..old(self)@
            }),
            final(self).initialized() == old(self).initialized(),
    ;

    /// The ledger of slot `ledger`.
    fn ledger(&self, ledger: usize) -> (slot: &L)
        requires
            self@.is_handle(ledger),
        ensures
            *slot == self@.slots[ledger as int],
    ;

    /// The ledger of slot `ledger`, to change it.
    fn ledger_mut(&mut self, ledger: usize) -> (slot: &mut L)
        requires
            old(self)@.is_handle(ledger),
        ensures
            *slot == old(self)@.slots[ledger as int],
            final(self)@ == (BookState {
                slots: old(self)@.slots.update(ledger as int, *final(slot)),
                ..old(self)@
            }),
            final(self).initialized() == old(self).initialized(),
    ;
}

/// The free list without its top does not hold the top.
pub proof fn lemma_top_leaves(free: Seq<usize>)
    requires
        free.len() > 0,
        free.no_duplicates(),
    ensures
        !free.drop_last().contains(free.last()),
        free.drop_last().no_duplicates(),
{
    let rest = free.drop_last();
    assert forall|i: int| 0 <= i < rest.len() implies rest[i] != free.last() by {
        assert(rest[i] == free[i]);
    }
    assert forall|i: int, j: int| 0 <= i < rest.len() && 0 <= j < rest.len() && i != j implies rest[i]
        != rest[j] by {
        assert(rest[i] == free[i] && rest[j] == free[j]);
    }
}

/// A free list with a handle it did not hold pushed on top has no duplicates.
pub proof fn lemma_push_fresh(free: Seq<usize>, ledger: usize)
    requires
        free.no_duplicates(),
        !free.contains(ledger),
    ensures
        free.push(ledger).no_duplicates(),
{
    let more = free.push(ledger);
    assert forall|i: int, j: int| 0 <= i < more.len() && 0 <= j < more.len() && i != j implies more[i]
        != more[j] by {
        if i < free.len() {
            assert(free.contains(free[i]));
        }
        if j < free.len() {
            assert(free.contains(free[j]));
        }
    }
}

/// The rest of a chunk lists the handles behind the chunk's first, each
/// once.
pub proof fn lemma_chunk_rest(base: usize, chunk: usize)
    requires
        chunk >= 1,
        base + chunk <= usize::MAX,
    ensures
        chunk_rest(base, chunk).len() == chunk - 1,
        forall|i: int| 0 <= i < chunk - 1 ==> #[trigger] chunk_rest(base, chunk)[i] == base + 1 + i,
        chunk_rest(base, chunk).no_duplicates(),
        !chunk_rest(base, chunk).contains(base),
{
    let rest = chunk_rest(base, chunk);
    assert forall|i: int| 0 <= i < rest.len() implies rest[i] != base by {
        assert(rest[i] == base + 1 + i);
    }
}

/// Allocation and deallocation, the same for every strategy.
pub trait LedgerBookExt<L: Ledger>: LedgerBook<L> {
    /// Takes slot `ledger` back. It goes on top of the free list, unless its
    /// counter is exhausted: such a slot is dropped from circulation.
    ///
    /// The caller vouches that `ledger` came from `allocate` and is not
    /// already free.
    fn deallocate(&mut self, ledger: usize)
        requires
            old(self)@.wf(),
            old(self)@.in_use(ledger),
        ensures
            final(self)@.wf(),
            final(self)@ == old(self)@.deallocated(ledger),
            final(self).initialized() == old(self).initialized(),
    {
        let not_exhausted = self.ledger(ledger).reallocation() != RETIRED;
        if not_exhausted {
            proof {
                lemma_push_fresh(self@.free, ledger);
            }
            self.free_list().push(ledger);
            proof {
                let before = old(self)@;
                let after = self@;
                assert forall|i: int| 0 <= i < after.free.len() implies (#[trigger] after.free[i] as int)
                    < after.slots.len() && after.slots[after.free[i] as int].reallocation_spec()
                    < RETIRED by {
                    if i < before.free.len() {
                        assert(after.free[i] == before.free[i]);
                    }
                }
            }
        }
    }

    /// Hands out a slot: the top of the free list if there is one; otherwise
    /// the first slot of a newly carved chunk, whose other slots go on the
    /// free list, after which the chunk size doubles up to its limit.
    fn allocate<F: Fn() -> L>(&mut self, produce: F) -> (ledger: usize)
        requires
            old(self)@.wf(),
            makes_fresh(&produce),
        ensures
            final(self)@.wf(),
            old(self)@.free.len() > 0 ==> {
                &&& ledger == old(self)@.free.last()
                &&& final(self)@ == old(self)@.recycled()
                &&& final(self).initialized() == old(self).initialized()
            },
            old(self)@.free.len() == 0 ==> {
                &&& ledger == old(self)@.slots.len()
                &&& final(self)@.expanded_from(old(self)@)
                &&& final(self).initialized()
            },
            forall|s: int|
                old(self)@.slots.len() <= s < final(self)@.slots.len() ==> made_by(
                    &produce,
                    #[trigger] final(self)@.slots[s],
                ),
            final(self)@.in_use(ledger),
            final(self)@.validity(ledger) < RETIRED,
    {
        self.count_allocation();
        let top = self.free_list().pop();
        if let Some(ledger) = top {
            proof {
                lemma_top_leaves(old(self)@.free);
                let before = old(self)@;
                let after = self@;
                assert(after.free == before.free.drop_last());
                assert(before.free[before.free.len() - 1] == ledger);
                assert forall|i: int| 0 <= i < after.free.len() implies (#[trigger] after.free[i] as int)
                    < after.slots.len() && after.slots[after.free[i] as int].reallocation_spec()
                    < RETIRED by {
                    assert(after.free[i] == before.free[i]);
                }
            }
            return ledger;
        }
        self.count_expansion();
        self.lazy_init();
        let size = self.chunk_size();
        let base = self.new_slice(&produce);
        let ghost carved = self@;
        assert(carved.free =~= chunk_rest(base, 1));
        let mut offset: usize = 1;
        while offset < size
            invariant
                1 <= offset <= size,
                size == carved.chunk_size,
                base + size == carved.slots.len(),
                carved.slots.len() <= usize::MAX,
                self.initialized(),
                self@ == (BookState { free: chunk_rest(base, offset), ..carved }),
            decreases size - offset,
        {
            self.free_list().push(base + offset);
            offset = offset + 1;
            assert(self@.free =~= chunk_rest(base, offset));
        }
        self.bump_chunk_size();
        proof {
            let before = old(self)@;
            let after = self@;
            lemma_chunk_rest(base, size);
            assert forall|s: int| 0 <= s < after.slots.len() implies ledger_inv(
                #[trigger] after.slots[s],
            ) by {
                if s < before.slots.len() {
                    assert(after.slots[s] == before.slots[s]);
                }
            }
            assert forall|i: int| 0 <= i < after.free.len() implies (#[trigger] after.free[i] as int)
                < after.slots.len() && after.slots[after.free[i] as int].reallocation_spec()
                < RETIRED by {
                assert(after.free[i] == base + 1 + i);
                assert(made_by(&produce, after.slots[base + 1 + i]));
            }
            assert(made_by(&produce, after.slots[base as int]));
            assert forall|s: int| before.slots.len() <= s < after.slots.len() implies ledger_fresh(
                #[trigger] after.slots[s],
            ) by {
                assert(made_by(&produce, after.slots[s]));
            }
        }
        base
    }
}

impl<L: Ledger, B: LedgerBook<L>> LedgerBookExt<L> for B {

}

} // verus!
