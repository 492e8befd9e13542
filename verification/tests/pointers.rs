//! Owners, borrows and guards: who may access what, and who frees it.

use ralc::access::NoAccess;
use ralc::allocators::pool::PoolAllocator;
use ralc::allocators::task_local::TaskLocalAllocator;
use ralc::allocators::thread_local::ThreadLocalAllocator;
use ralc::allocators::allocated::{AllocatedLedger, RefLike};
use ralc::allocators::{LedgerAllocator, Scope};
use ralc::cookie::CookieJar;
use ralc::ledgerbooks::LedgerBook;
use ralc::ledgers::silo::SiloedLedger;
use ralc::ledgers::sync::SyncLedger;
use ralc::owned::OwnedRalc;
use ralc::Ralc;

fn error_of<T>(res: Result<T, NoAccess>) -> NoAccess {
    match res {
        Ok(_) => panic!("access was granted"),
        Err(refusal) => refusal,
    }
}

#[test]
fn write_then_read_leaves_the_counter_alone() {
    let mut pool = PoolAllocator::<i32, SiloedLedger>::new_local();
    let owned = pool.alc(0);
    let ledger = owned.ledger_ptr();
    let before = ledger.reallocation(&pool);

    let writer = owned.write(&mut pool).unwrap();
    writer.set(&mut pool, 1);
    writer.drop(&mut pool);
    assert_eq!(ledger.reallocation(&pool), before);

    let reader = owned.read(&mut pool).unwrap();
    assert_eq!(*reader.deref(&pool), 1);
    reader.drop(&mut pool);
    assert_eq!(ledger.reallocation(&pool), before);
    owned.drop(&mut pool);
}

#[test]
fn a_guard_that_outlives_the_owner_frees() {
    let mut pool = PoolAllocator::<i32, SiloedLedger>::new_local();
    pool.set_chunks(4, 4);
    let owned = pool.alc(0);
    let ledger = owned.ledger_ptr();
    let before = ledger.reallocation(&pool);
    let free_before = pool.free_count();

    let writer = owned.write(&mut pool).unwrap();
    owned.drop(&mut pool);

    // Retired at once, freed not yet.
    assert_eq!(ledger.reallocation(&pool), before + 1);
    assert_eq!(pool.free_count(), free_before);
    assert!(ledger.is_occupied(&pool));
    assert_eq!(*writer.deref(&pool), 0);

    writer.drop(&mut pool);
    assert_eq!(pool.free_count(), free_before + 1);
    assert!(!ledger.is_occupied(&pool));
    assert_eq!(ledger.cookie(&pool).count(), 0);
}

#[test]
fn a_thousand_borrows_allocate_nothing() {
    let mut pool = PoolAllocator::<i32, SiloedLedger>::new_local();
    let owned = pool.alc(0);
    for _ in 0..1000 {
        let borrow = owned.borrow(&pool);
        let writer = borrow.write(&mut pool).unwrap();
        *writer.deref_mut(&mut pool) += 1;
        writer.drop(&mut pool);
    }
    let reader = owned.read(&mut pool).unwrap();
    assert_eq!(*reader.deref(&pool), 1000);
    reader.drop(&mut pool);
    assert_eq!(pool.total_allocations(), 1);
    assert_eq!(pool.expansions(), 1);
}

#[test]
fn expansions_follow_the_doubling_sequence() {
    let mut pool = PoolAllocator::<usize, SiloedLedger>::new_local();
    pool.set_chunks(16, 256);
    let mut owners = vec![];
    for i in 0..100_000 {
        owners.push(pool.alc(i));
    }
    // 16 + 32 + 64 + 128 = 240 slots in four chunks, then chunks of 256:
    // 390 of them cover the other 99,760.
    assert_eq!(pool.expansions(), 394);
    assert_eq!(pool.slot_count(), 240 + 390 * 256);
    assert!(pool.slot_count() >= 100_000);
    assert_eq!(pool.total_allocations(), 100_000);
    assert_eq!(pool.free_count(), 240 + 390 * 256 - 100_000);
    assert_eq!(pool.book().chunk_size(), 256);
    for owner in owners {
        owner.drop(&mut pool);
    }
    assert_eq!(pool.free_count(), 240 + 390 * 256);
}

#[test]
fn a_borrow_is_stale_once_the_owner_is_gone() {
    let mut scope = ThreadLocalAllocator::<&'static str>::new();
    scope.set_chunks(2, 2);
    let owned = OwnedRalc::new(&mut scope, "first");
    let slot = owned.ledger_ptr().inner();
    let borrow = owned.borrow(&scope);
    assert!(borrow.check(&scope));
    assert_eq!(borrow.reallocation(), 1);

    owned.drop(&mut scope);
    assert!(!borrow.check(&scope));
    assert_eq!(error_of(borrow.try_read(&mut scope)), NoAccess::Stale);
    assert_eq!(error_of(borrow.try_write(&mut scope)), NoAccess::Stale);
    assert_eq!(error_of(borrow.read(&mut scope)), NoAccess::Stale);
    assert_eq!(error_of(borrow.write(&mut scope)), NoAccess::Stale);

    // The slot is handed out again, to a new value: the old borrow stays
    // refused, and a new one is granted.
    let next = OwnedRalc::new(&mut scope, "second");
    assert_eq!(next.ledger_ptr().inner(), slot);
    assert!(!borrow.check(&scope));
    assert_eq!(error_of(borrow.try_read(&mut scope)), NoAccess::Stale);
    let fresh = next.borrow(&scope);
    assert_eq!(fresh.reallocation(), 2);
    let reader = fresh.try_read(&mut scope).unwrap();
    assert_eq!(*reader.deref(&scope), "second");
    reader.drop(&mut scope);

    // And again.
    next.drop(&mut scope);
    let third = OwnedRalc::new(&mut scope, "third");
    assert_eq!(third.ledger_ptr().inner(), slot);
    assert!(!borrow.check(&scope));
    assert!(!fresh.check(&scope));
    third.drop(&mut scope);
}

#[test]
fn a_conflict_is_blocked_or_a_deadlock() {
    let mut scope = TaskLocalAllocator::<u8>::new();
    let owned = OwnedRalc::new_task_local(&mut scope, 7);
    let borrow = owned.borrow(&scope);

    let writer = owned.try_write(&mut scope).unwrap();
    assert_eq!(error_of(owned.try_read(&mut scope)), NoAccess::Blocked);
    assert_eq!(error_of(owned.try_write(&mut scope)), NoAccess::Blocked);
    assert_eq!(error_of(borrow.try_read(&mut scope)), NoAccess::Blocked);
    assert_eq!(error_of(borrow.try_write(&mut scope)), NoAccess::Blocked);
    assert_eq!(error_of(owned.read(&mut scope)), NoAccess::Deadlock);
    assert_eq!(error_of(owned.write(&mut scope)), NoAccess::Deadlock);
    assert_eq!(error_of(borrow.read(&mut scope)), NoAccess::Deadlock);
    assert_eq!(error_of(borrow.write(&mut scope)), NoAccess::Deadlock);
    assert_eq!(owned.ledger_ptr().cookie(&scope).count(), u32::MAX);
    writer.drop(&mut scope);

    let reader = owned.try_read(&mut scope).unwrap();
    let other = borrow.try_read(&mut scope).unwrap();
    assert_eq!(error_of(owned.try_write(&mut scope)), NoAccess::Blocked);
    assert_eq!(error_of(borrow.write(&mut scope)), NoAccess::Deadlock);
    assert_eq!(owned.ledger_ptr().cookie(&scope).count(), 2);
    reader.drop(&mut scope);
    other.drop(&mut scope);
    owned.drop(&mut scope);
}

fn freed_once_whoever_goes_last(readers: usize, owner_goes_after: usize) {
    let mut pool = PoolAllocator::<i32, SyncLedger>::new();
    pool.set_chunks(1, 1);
    let owned = pool.alc(5);
    let ledger = owned.ledger_ptr();
    let mut guards = vec![];
    for _ in 0..readers {
        guards.push(owned.read(&mut pool).unwrap());
    }
    let mut owner = Some(owned);
    let mut frees = 0;
    let mut gone = 0;
    loop {
        let before = pool.free_count();
        if gone == owner_goes_after && owner.is_some() {
            owner.take().unwrap().drop(&mut pool);
        } else if let Some(guard) = guards.pop() {
            guard.drop(&mut pool);
            gone += 1;
        } else {
            break;
        }
        frees += pool.free_count() - before;
        let last = owner.is_none() && guards.is_empty();
        assert_eq!(ledger.is_occupied(&pool), !last);
    }
    assert_eq!(frees, 1);
    assert_eq!(pool.free_count(), 1);
    assert_eq!(ledger.cookie(&pool).count(), 0);
    assert_eq!(ledger.reallocation(&pool), 2);
}

#[test]
fn the_payload_is_freed_once_in_every_order() {
    for readers in 0..4 {
        for owner_goes_after in 0..=readers {
            freed_once_whoever_goes_last(readers, owner_goes_after);
        }
    }
}

#[test]
fn the_write_guard_frees_if_the_owner_went_first() {
    let mut scope = ThreadLocalAllocator::<i32>::new();
    scope.set_chunks(1, 1);
    let owned = OwnedRalc::new(&mut scope, 1);
    let writer = owned.write(&mut scope).unwrap();
    owned.drop(&mut scope);
    assert_eq!(scope.free_count(), 0);
    // Downgraded, the guard still frees when it goes.
    let reader = writer.into_read(&mut scope);
    assert_eq!(scope.free_count(), 0);
    assert_eq!(*reader.deref(&scope), 1);
    reader.drop(&mut scope);
    assert_eq!(scope.free_count(), 1);
}

#[test]
fn guards_convert() {
    let mut scope = ThreadLocalAllocator::<i32>::new();
    let owned = OwnedRalc::new(&mut scope, 1);
    let jar_count = |scope: &ThreadLocalAllocator<i32>| owned.ledger_ptr().cookie(scope).count();

    let reader = owned.read(&mut scope).unwrap();
    let second = reader.clone(&mut scope);
    assert_eq!(jar_count(&scope), 2);
    assert_eq!(second.reallocation(), reader.reallocation());

    // Not the only reader: the guard comes back.
    let reader = match reader.try_into_write(&mut scope) {
        Ok(_) => panic!("upgraded beside another reader"),
        Err(guard) => guard,
    };
    assert_eq!(jar_count(&scope), 2);
    second.drop(&mut scope);

    let writer = reader.try_into_write(&mut scope).ok().expect("the only reader upgrades");
    assert_eq!(jar_count(&scope), u32::MAX);
    *writer.deref_mut(&mut scope) = 2;
    assert_eq!(*writer.deref(&scope), 2);

    let reader = writer.into_read(&mut scope);
    assert_eq!(jar_count(&scope), 1);
    assert_eq!(*reader.deref(&scope), 2);
    reader.drop(&mut scope);
    assert_eq!(jar_count(&scope), 0);
    owned.drop(&mut scope);
}

#[test]
fn the_payload_comes_back_only_without_guards() {
    let mut scope = ThreadLocalAllocator::<String>::new();
    scope.set_chunks(1, 1);
    let owned = OwnedRalc::new(&mut scope, String::from("kept"));
    let ledger = owned.ledger_ptr();
    let borrow = owned.borrow(&scope);

    let reader = owned.read(&mut scope).unwrap();
    let owned = match owned.try_into_box(&mut scope) {
        Ok(_) => panic!("taken from under a guard"),
        Err(owner) => owner,
    };
    assert_eq!(ledger.reallocation(&scope), 1);
    assert!(borrow.check(&scope));
    reader.drop(&mut scope);

    let payload = owned.try_into_box(&mut scope).ok().expect("no guard is out");
    assert_eq!(*payload, "kept");
    assert_eq!(ledger.reallocation(&scope), 2);
    assert!(!borrow.check(&scope));
    assert_eq!(error_of(borrow.try_read(&mut scope)), NoAccess::Stale);
    assert!(!ledger.is_occupied(&scope));
    // The slot is not given back.
    assert_eq!(scope.free_count(), 0);
}

#[test]
fn either_pointer_reads_and_writes() {
    let mut scope = ThreadLocalAllocator::<i32>::new();
    let mut ralc = Ralc::new_thread_local(&mut scope, 3);
    assert!(ralc.is_owned());
    assert!(ralc.check(&scope));

    let copy = ralc.clone(&scope);
    assert!(!copy.is_owned());
    assert!(copy.check(&scope));

    let writer = copy.try_write(&mut scope).unwrap();
    writer.set(&mut scope, 4);
    assert_eq!(error_of(ralc.try_read(&mut scope)), NoAccess::Blocked);
    assert_eq!(error_of(ralc.read(&mut scope)), NoAccess::Deadlock);
    writer.drop(&mut scope);

    let reader = ralc.read(&mut scope).unwrap();
    assert_eq!(*reader.deref(&scope), 4);
    assert_eq!(error_of(copy.try_write(&mut scope)), NoAccess::Blocked);
    assert_eq!(error_of(copy.write(&mut scope)), NoAccess::Deadlock);
    reader.drop(&mut scope);

    // Taking the owner out leaves a borrow behind.
    let taken = ralc.take(&scope);
    assert!(taken.is_owned());
    assert!(!ralc.is_owned());
    assert!(ralc.check(&scope));
    let writer = taken.write(&mut scope).unwrap();
    writer.drop(&mut scope);

    taken.drop(&mut scope);
    assert!(!ralc.check(&scope));
    assert!(!copy.check(&scope));
    assert_eq!(error_of(ralc.try_read(&mut scope)), NoAccess::Stale);
    assert_eq!(error_of(copy.read(&mut scope)), NoAccess::Stale);
    ralc.drop(&mut scope);
    copy.drop(&mut scope);
}

#[test]
fn every_scope_makes_owners() {
    let mut global = ralc::allocators::global::GlobalAllocator::<i32>::new();
    let ralc = Ralc::new_global(&mut global, 1);
    assert!(ralc.is_owned());
    assert_eq!(global.total_allocations(), 1);
    ralc.drop(&mut global);
    assert_eq!(global.free_count(), global.slot_count());

    let mut task = TaskLocalAllocator::<i32>::new();
    let ralc = Ralc::new_task_local(&mut task, 1);
    assert!(ralc.is_owned());
    ralc.drop(&mut task);

    let mut pool = PoolAllocator::<i32, SyncLedger>::new();
    let ralc = Ralc::new(&mut pool, 1);
    assert!(ralc.is_owned());
    assert_eq!(pool.total_allocations(), 1);
    ralc.drop(&mut pool);
}

#[test]
fn a_pool_gives_and_takes_slots_under_its_guard() {
    let mut pool = PoolAllocator::<i32, SiloedLedger>::new();
    pool.set_chunks(2, 2);
    let first = pool.alloc_guarded();
    assert_eq!(first.inner(), 0);
    assert_eq!(pool.free_count(), 1);
    pool.dealloc_ledger(first);
    assert_eq!(pool.free_count(), 2);
    let again = pool.alloc_guarded();
    assert_eq!(again.inner(), 0);
    again.free(&mut pool);
    assert_eq!(pool.free_count(), 2);
    assert_eq!(pool.total_allocations(), 2);
    assert_eq!(pool.expansions(), 1);
}

#[test]
fn handles_are_positions() {
    let mut scope = ThreadLocalAllocator::<i32>::new();
    scope.set_chunks(3, 3);
    let first = scope.alloc_ledger();
    let second = scope.alloc_ledger();
    assert_eq!(first.inner(), 0);
    assert_eq!(second.inner(), 2);
    assert_eq!(second.to_ptr(), 2);
    assert_eq!(second.into_inner_ptr(), 2);
    let again = AllocatedLedger::<ThreadLocalAllocator<i32>>::from_ptr(2);
    assert_eq!(again.inner(), second.inner());
    assert_eq!(7usize.to_ptr(), 7);
    assert_eq!(<usize as RefLike>::from_ptr(7), 7);

    // A slot by itself: its counter, its jar and its payload.
    assert_eq!(second.reallocation(&scope), 1);
    assert!(!second.is_occupied(&scope));
    second.put(&mut scope, 5);
    assert!(second.is_occupied(&scope));
    assert_eq!(*second.get(&scope), 5);
    *second.get_mut(&mut scope) += 1;
    let cookie = second.try_write(&mut scope).unwrap();
    assert!(second.try_read(&mut scope).is_none());
    let cookie = second.downgrade(&mut scope, cookie);
    let copy = second.clone_read(&mut scope, &cookie);
    assert_eq!(second.cookie(&scope).count(), 2);
    second.release_read(&mut scope, copy);
    let cookie = second.try_upgrade(&mut scope, cookie).ok().unwrap();
    second.release_write(&mut scope, cookie);
    assert_eq!(second.take(&mut scope), Some(6));
    second.bump(&mut scope);
    assert_eq!(second.reallocation(&scope), 2);
    second.free(&mut scope);
    scope.free(first);
    assert_eq!(scope.free_count(), 3);
    // Last in, first out.
    assert_eq!(scope.alloc_ledger().inner(), 0);
    assert_eq!(scope.alloc_ledger().inner(), 2);
    assert_eq!(scope.alloc_ledger().inner(), 1);
}

#[test]
fn either_pointer_is_made_from_its_kind() {
    let mut scope = ThreadLocalAllocator::<i32>::new();
    let owned = OwnedRalc::new(&mut scope, 1);
    let borrow = owned.borrow(&scope);
    let from_borrow = Ralc::from(borrow);
    assert!(!from_borrow.is_owned());
    let from_owned = Ralc::from(owned);
    assert!(from_owned.is_owned());
    from_owned.drop(&mut scope);
    assert!(!from_borrow.check(&scope));
}
