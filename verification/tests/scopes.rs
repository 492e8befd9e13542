//! The pointers at work in each kind of scope.

use ralc::allocators::global::GlobalAllocator;
use ralc::allocators::pool::PoolAllocator;
use ralc::allocators::thread_local::ThreadLocalAllocator;
use ralc::allocators::LedgerAllocator;
use ralc::cookie::CookieJar;
use ralc::ledgers::silo::SiloedLedger;
use ralc::ledgers::sync::SyncLedger;
use ralc::owned::OwnedRalc;

const N: usize = 100_000;

fn allocation_count<A: LedgerAllocator<Payload = i32>>(scope: &mut A) {
    scope.reset();
    let mut vec = vec![];
    for i in 0..N {
        vec.push(OwnedRalc::new(scope, i as i32))
    }
    assert_eq!(N, scope.total_allocations());
    for or in vec {
        write_read(scope, or);
    }
    assert!(scope.free_count() >= N);
}

fn borrows_dont_allocate_in<A: LedgerAllocator<Payload = i32>>(scope: &mut A) {
    scope.reset();
    let owned = OwnedRalc::new(scope, 0);
    let mut vec = vec![];
    for _ in 0..N {
        vec.push(owned.borrow(scope));
    }
    assert_eq!(1, scope.total_allocations());
    for or in vec {
        let writer = or.write(scope).unwrap();
        *writer.deref_mut(scope) += 1;
        writer.drop(scope);
    }
    let reader = owned.read(scope).unwrap();
    assert_eq!(*reader.deref(scope), N as i32);
    reader.drop(scope);
    owned.drop(scope);
}

fn into_inner<A: LedgerAllocator<Payload = i32>>(scope: &mut A, owned: OwnedRalc<A>) {
    let ledger = owned.ledger_ptr();
    let reallocation = ledger.reallocation(scope);

    let wr = owned.write(scope).unwrap();
    *wr.deref_mut(scope) = 99;
    assert_eq!(ledger.cookie(scope).count(), u32::MAX);
    wr.drop(scope);

    assert_eq!(ledger.cookie(scope).count(), 0);

    let res = *owned.try_into_box(scope).ok().unwrap();

    assert_ne!(reallocation, ledger.reallocation(scope));

    assert_eq!(res, 99)
}

fn write_read<A: LedgerAllocator<Payload = i32>>(scope: &mut A, owned: OwnedRalc<A>) {
    let ledger = owned.ledger_ptr();
    let reallocation = ledger.reallocation(scope);

    let wr = owned.write(scope).unwrap();
    *wr.deref_mut(scope) = 99;
    assert_eq!(ledger.cookie(scope).count(), u32::MAX);
    wr.drop(scope);

    assert_eq!(ledger.reallocation(scope), reallocation);

    assert_eq!(ledger.cookie(scope).count(), 0);

    let rd = owned.read(scope).unwrap();
    assert_eq!(ledger.cookie(scope).count(), 1);
    let res = *rd.deref(scope);
    rd.drop(scope);

    assert_eq!(ledger.reallocation(scope), reallocation);

    assert_eq!(ledger.cookie(scope).count(), 0);

    assert_eq!(res, 99);

    owned.drop(scope);
    assert_ne!(reallocation, ledger.reallocation(scope));
}

fn is_sync<T: Sync>() {}

fn is_send<T: Send>() {}

#[test]
fn predicatble_allocation_count() {
    let mut scope = ThreadLocalAllocator::new();
    allocation_count(&mut scope);
}

#[test]
fn predicatble_allocation_count_local() {
    let mut scope = ThreadLocalAllocator::new();
    scope.reset();
    let mut vec = vec![];
    for i in 0..N {
        vec.push(OwnedRalc::new_thread_local(&mut scope, i as i32))
    }
    assert_eq!(N, scope.total_allocations());
    for or in vec {
        write_read(&mut scope, or);
    }
    assert!(scope.free_count() >= N);
}

#[test]
fn local_borrows_dont_allocate() {
    let mut scope = ThreadLocalAllocator::new();
    borrows_dont_allocate_in(&mut scope);
}

#[test]
fn local_test_thread_local_write_read() {
    let mut scope = ThreadLocalAllocator::new();
    let owned = OwnedRalc::new_thread_local(&mut scope, 0);
    write_read(&mut scope, owned);
}

#[test]
fn test_thread_local_write_read() {
    let mut scope = ThreadLocalAllocator::new();
    let owned = OwnedRalc::new(&mut scope, 0);
    write_read(&mut scope, owned);
}

#[test]
fn local_test_thread_local_into_inner() {
    let mut scope = ThreadLocalAllocator::new();
    let owned = OwnedRalc::new_thread_local(&mut scope, 0);
    into_inner(&mut scope, owned);
}

#[test]
fn test_thread_local_into_inner() {
    let mut scope = ThreadLocalAllocator::new();
    let owned = OwnedRalc::new(&mut scope, 0);
    into_inner(&mut scope, owned);
}

#[test]
fn pool_predicatble_allocation_count_pool() {
    let mut pool = PoolAllocator::<i32, SiloedLedger>::new_local();
    let mut vec = vec![];
    for i in 0..N {
        vec.push(pool.alc(i as i32))
    }
    assert_eq!(N, pool.total_allocations());
    for or in vec {
        write_read(&mut pool, or);
    }
    assert!(pool.free_count() >= N);
}

#[test]
fn pool_borrows_dont_allocate() {
    let mut pool = PoolAllocator::<i32, SiloedLedger>::new_local();
    let owned = pool.alc(0);
    let mut vec = vec![];
    for _ in 0..N {
        vec.push(owned.borrow(&pool));
    }
    assert_eq!(1, pool.total_allocations());
    for or in vec {
        let writer = or.write(&mut pool).unwrap();
        *writer.deref_mut(&mut pool) += 1;
        writer.drop(&mut pool);
    }
    let reader = owned.read(&mut pool).unwrap();
    assert_eq!(*reader.deref(&pool), N as i32);
    reader.drop(&mut pool);
}

#[test]
fn pool_test_pool_write_read() {
    let mut pool = PoolAllocator::<i32, SiloedLedger>::new_local();
    let owned = pool.alc(0);
    write_read(&mut pool, owned);
}

#[test]
fn pool_test_pool_into_inner() {
    let mut pool = PoolAllocator::<i32, SiloedLedger>::new_local();
    let owned = pool.alc(0);
    into_inner(&mut pool, owned);
}

#[test]
fn predicatble_allocation_count_global() {
    let mut scope = GlobalAllocator::new();
    allocation_count(&mut scope);
}

#[test]
fn global_borrows_dont_allocate() {
    let mut scope = GlobalAllocator::new();
    borrows_dont_allocate_in(&mut scope);
}

#[test]
fn global_test_global_into_inner() {
    let mut scope = GlobalAllocator::new();
    scope.reset();
    let owned = OwnedRalc::new(&mut scope, 0);
    into_inner(&mut scope, owned);
}

#[test]
fn test_test_global_into_inner() {
    let mut scope = GlobalAllocator::new();
    let owned = OwnedRalc::new_global(&mut scope, 0i32);
    into_inner(&mut scope, owned);
}

#[test]
fn global_test_global_write_read() {
    let mut scope = GlobalAllocator::new();
    scope.reset();
    let owned = OwnedRalc::new(&mut scope, 0i32);
    write_read(&mut scope, owned);
}

#[test]
fn test_test_global_write_read() {
    let mut scope = GlobalAllocator::new();
    let owned = OwnedRalc::new_global(&mut scope, 0i32);
    write_read(&mut scope, owned);
}

#[test]
fn syncledger_is_sync() {
    is_sync::<SyncLedger>();
}

#[test]
fn global_send_sync() {
    is_send::<OwnedRalc<GlobalAllocator<i32>>>();
}
