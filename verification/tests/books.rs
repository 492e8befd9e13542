//! The three books: growth, recycling and the counts.

use ralc::ledgerbooks::bumpy::BumpyBook;
use ralc::ledgerbooks::leaking::LeakyBook;
use ralc::ledgerbooks::retaining::RetainingBook;
use ralc::ledgerbooks::{LedgerBook, LedgerBookExt, CHUNK_SIZE};
use ralc::ledgers::silo::SiloedLedger;
use ralc::ledgers::sync::SyncLedger;
use ralc::ledgers::Ledger;

fn first_chunk_and_recycling<L: Ledger, B: LedgerBookExt<L>>(mut book: B) {
    book.set_chunks(4, 16);
    assert_eq!(book.slot_count(), 0);
    assert_eq!(book.free_count(), 0);

    // The first allocation carves four slots and holds the first back.
    let first = book.allocate(L::new);
    assert_eq!(first, 0);
    assert_eq!(book.slot_count(), 4);
    assert_eq!(book.free_count(), 3);
    assert_eq!(book.expansions(), 1);
    assert_eq!(book.total_allocations(), 1);
    assert_eq!(book.chunk_size(), 8);

    // The rest of the chunk comes off the free list, last carved first.
    assert_eq!(book.allocate(L::new), 3);
    assert_eq!(book.allocate(L::new), 2);
    assert_eq!(book.allocate(L::new), 1);
    assert_eq!(book.free_count(), 0);
    assert_eq!(book.expansions(), 1);

    // What comes back last goes out first, and nothing is carved for it.
    book.deallocate(2);
    book.deallocate(0);
    assert_eq!(book.free_count(), 2);
    assert_eq!(book.allocate(L::new), 0);
    assert_eq!(book.allocate(L::new), 2);
    assert_eq!(book.slot_count(), 4);
    assert_eq!(book.expansions(), 1);
    assert_eq!(book.total_allocations(), 6);

    // The next chunk is twice as large.
    assert_eq!(book.allocate(L::new), 4);
    assert_eq!(book.slot_count(), 12);
    assert_eq!(book.free_count(), 7);
    assert_eq!(book.expansions(), 2);
    assert_eq!(book.chunk_size(), 16);
}

fn growth_stops_at_the_limit<L: Ledger, B: LedgerBookExt<L>>(mut book: B) {
    book.set_chunks(3, 10);
    let mut sizes = vec![];
    for _ in 0..5 {
        sizes.push(book.chunk_size());
        let before = book.slot_count();
        while book.free_count() > 0 {
            book.allocate(L::new);
        }
        book.allocate(L::new);
        assert_eq!(book.slot_count() - before, *sizes.last().unwrap());
    }
    assert_eq!(sizes, vec![3, 6, 10, 10, 10]);
    assert_eq!(book.expansions(), 5);
    assert_eq!(book.slot_count(), 39);
}

fn reset_forgets<L: Ledger, B: LedgerBookExt<L>>(mut book: B) {
    book.set_chunks(4, 4);
    let kept = book.allocate(L::new);
    book.reset();
    assert_eq!(book.free_count(), 0);
    assert_eq!(book.expansions(), 0);
    assert_eq!(book.total_allocations(), 0);
    assert_eq!(book.slot_count(), 4);
    // The slot that was out is still a slot of the book.
    assert_eq!(book.ledger(kept).reallocation(), 1);
    // The slots that were free are gone for good: the next one is new.
    assert_eq!(book.allocate(L::new), 4);
    book.deallocate(kept);
    assert_eq!(book.allocate(L::new), kept);
}

#[test]
fn retaining_book_recycles() {
    first_chunk_and_recycling::<SiloedLedger, _>(RetainingBook::new());
}

#[test]
fn leaky_book_recycles() {
    first_chunk_and_recycling::<SyncLedger, _>(LeakyBook::new());
}

#[test]
fn bumpy_book_recycles() {
    first_chunk_and_recycling::<SiloedLedger, _>(BumpyBook::new());
}

#[test]
fn retaining_book_growth() {
    growth_stops_at_the_limit::<SiloedLedger, _>(RetainingBook::new());
}

#[test]
fn leaky_book_growth() {
    growth_stops_at_the_limit::<SyncLedger, _>(LeakyBook::new());
}

#[test]
fn bumpy_book_growth() {
    growth_stops_at_the_limit::<SiloedLedger, _>(BumpyBook::new());
}

#[test]
fn retaining_book_reset() {
    reset_forgets::<SiloedLedger, _>(RetainingBook::new());
}

#[test]
fn leaky_book_reset() {
    reset_forgets::<SyncLedger, _>(LeakyBook::new());
}

#[test]
fn bumpy_book_reset() {
    reset_forgets::<SiloedLedger, _>(BumpyBook::new());
}

#[test]
fn new_books_start_with_the_standard_chunk() {
    let retaining = RetainingBook::<SiloedLedger>::new();
    assert_eq!(retaining.chunk_size(), CHUNK_SIZE);
    let leaky = LeakyBook::<SyncLedger>::new();
    assert_eq!(leaky.chunk_size(), CHUNK_SIZE);
    let mut bumpy = BumpyBook::<SiloedLedger>::new();
    assert_eq!(bumpy.chunk_size(), CHUNK_SIZE);
    // A bump book does not grow its chunks by itself.
    bumpy.allocate(SiloedLedger::new);
    assert_eq!(bumpy.chunk_size(), CHUNK_SIZE);
    assert_eq!(bumpy.slot_count(), CHUNK_SIZE);
    // The others double theirs.
    let mut retaining = retaining;
    retaining.allocate(SiloedLedger::new);
    assert_eq!(retaining.chunk_size(), 2 * CHUNK_SIZE);
}

#[test]
fn a_ledger_counts_its_occupants() {
    let mut ledger = SiloedLedger::new();
    assert_eq!(ledger.reallocation(), 1);
    ledger.bump();
    assert_eq!(ledger.reallocation(), 2);
    ledger.bump();
    assert_eq!(ledger.reallocation(), 3);

    let mut shared = SyncLedger::default();
    assert_eq!(shared.reallocation(), 1);
    shared.bump();
    assert_eq!(shared.reallocation(), 2);
}
