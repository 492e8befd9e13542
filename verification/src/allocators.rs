//! Ledger allocators: a ledger book bound to a scope, together with the
//! payloads of the slots that are in use.
//!
//! A scope is a value. Whoever holds it exclusively may allocate and free;
//! how that exclusivity comes about (a mutex round a process-wide scope, one
//! scope per thread or per task, a pool that a caller owns) is the business
//! of whoever keeps the scope.

use vstd::prelude::*;
use crate::allocators::allocated::AllocatedLedger;
use crate::cookie::{CookieJar, JarOp, JarState};
use crate::ledgerbooks::{chunk_rest, counted, grown, lemma_chunk_rest, made_by, BookState, LedgerBook, LedgerBookExt};
use crate::ledgers::{bumped, ledger_fresh, ledger_inv, ledger_state, Ledger, LedgerState, RETIRED};

pub mod allocated;
pub mod global;
pub mod pool;
pub mod task_local;
pub mod thread_local;

verus! {

/// Everything a scope holds, slot by slot.
pub struct ScopeState<T> {
    /// Counter and cookies of every carved slot, by handle.
    pub ledgers: Seq<LedgerState>,
    /// The payload of every carved slot; `None` where there is none.
    pub payloads: Seq<Option<T>>,
    /// The handles out of use; the last one is handed out next.
    pub free: Seq<usize>,
    /// The size of the next chunk.
    pub chunk_size: usize,
    /// The size that no chunk exceeds.
    pub max_chunk_size: usize,
    /// How many chunks were carved.
    pub expansions: usize,
    /// How many times a slot was handed out.
    pub total_allocations: usize,
}

impl<T> ScopeState<T> {
    /// `slot` names a carved slot.
    pub open spec fn is_handle(self, slot: usize) -> bool {
        (slot as int) < self.ledgers.len()
    }

    /// `slot` names a carved slot that is handed out.
    pub open spec fn in_use(self, slot: usize) -> bool {
        self.is_handle(slot) && !self.free.contains(slot)
    }

    /// `slot` names a carved slot that holds a payload.
    pub open spec fn occupied(self, slot: usize) -> bool {
        self.is_handle(slot) && self.payloads[slot as int].is_some()
    }

    /// The validity counter of `slot`.
    pub open spec fn validity(self, slot: usize) -> u64 {
        self.ledgers[slot as int].validity
    }

    /// The cookies outstanding on `slot`.
    pub open spec fn jar(self, slot: usize) -> JarState {
        self.ledgers[slot as int].jar
    }

    /// The payload of `slot`.
    pub open spec fn payload(self, slot: usize) -> Option<T> {
        self.payloads[slot as int]
    }

    /// The invariant of a scope: counters are never zero; every jar is
    /// exclusive; a slot without payload has no cookie out; a free slot has
    /// no payload and a counter that is not exhausted; no slot is free twice.
    pub open spec fn consistent(self) -> bool {
        &&& self.ledgers.len() == self.payloads.len()
        &&& self.ledgers.len() <= usize::MAX
        &&& 1 <= self.chunk_size <= self.max_chunk_size
        &&& forall|s: int|
            0 <= s < self.ledgers.len() ==> (#[trigger] self.ledgers[s]).validity >= 1
                && self.ledgers[s].jar.exclusive()
        &&& forall|s: int|
            0 <= s < self.ledgers.len() && (#[trigger] self.payloads[s]).is_none()
                ==> self.ledgers[s].jar.is_idle()
        &&& self.free.no_duplicates()
        &&& forall|i: int|
            0 <= i < self.free.len() ==> {
                let slot = #[trigger] self.free[i];
                &&& self.is_handle(slot)
                &&& self.validity(slot) < RETIRED
                &&& self.payload(slot).is_none()
            }
    }

    /// The scope with the ledger of `slot` replaced.
    pub open spec fn with_ledger(self, slot: usize, ledger: LedgerState) -> ScopeState<T> {
        ScopeState { ledgers: self.ledgers.update(slot as int, ledger), ..self }
    }

    /// The scope after `op` on the jar of `slot`, by a jar that can count
    /// `capacity` readers.
    pub open spec fn stepped(self, slot: usize, op: JarOp, capacity: nat) -> ScopeState<T> {
        self.with_ledger(
            slot,
            LedgerState { validity: self.validity(slot), jar: self.jar(slot).step(op, capacity) },
        )
    }

    /// The scope after the occupant of `slot` was retired.
    pub open spec fn retired(self, slot: usize) -> ScopeState<T> {
        self.with_ledger(
            slot,
            LedgerState { validity: bumped(self.validity(slot)), jar: self.jar(slot) },
        )
    }

    /// The scope with the payload of `slot` replaced.
    pub open spec fn with_payload(self, slot: usize, payload: Option<T>) -> ScopeState<T> {
        ScopeState { payloads: self.payloads.update(slot as int, payload), ..self }
    }

    /// The slot that the next allocation hands out.
    pub open spec fn next_slot(self) -> usize {
        if self.free.len() > 0 {
            self.free.last()
        } else {
            self.ledgers.len() as usize
        }
    }

    /// The scope after one allocation: the top of the free list leaves it;
    /// or, the list being empty, one chunk of fresh slots is carved, its
    /// first slot held back and the others put on the list, and the chunk
    /// size doubles up to its limit.
    pub open spec fn allocated(self) -> ScopeState<T> {
        if self.free.len() > 0 {
            ScopeState {
                free: self.free.drop_last(),
                total_allocations: counted(self.total_allocations),
                ..self
            }
        } else {
            ScopeState {
                ledgers: self.ledgers + Seq::new(
                    self.chunk_size as nat,
                    |i: int| LedgerState::fresh(),
                ),
                payloads: self.payloads + Seq::new(self.chunk_size as nat, |i: int| None::<T>),
                free: chunk_rest(self.ledgers.len() as usize, self.chunk_size),
                chunk_size: grown(self.chunk_size, self.max_chunk_size),
                max_chunk_size: self.max_chunk_size,
                expansions: counted(self.expansions),
                total_allocations: counted(self.total_allocations),
            }
        }
    }

    /// The scope after `slot` came back: on top of the free list, unless its
    /// counter is exhausted.
    pub open spec fn deallocated(self, slot: usize) -> ScopeState<T> {
        if self.validity(slot) != RETIRED {
            ScopeState { free: self.free.push(slot), ..self }
        } else {
            self
        }
    }

    /// The scope after the payload of `slot` was destroyed and the slot
    /// given back, its jar idle.
    pub open spec fn reclaimed(self, slot: usize) -> ScopeState<T> {
        self.with_ledger(
            slot,
            LedgerState { validity: self.validity(slot), jar: JarState::idle() },
        ).with_payload(slot, None).deallocated(slot)
    }

    /// The scope after the owner of `slot` was dropped. The occupant is
    /// retired at once. If no cookie is out, the payload is destroyed and the
    /// slot given back there and then; otherwise that is left to the guard
    /// that lets go last.
    pub open spec fn owner_dropped(self, slot: usize) -> ScopeState<T> {
        if self.jar(slot).can_write() {
            self.retired(slot).reclaimed(slot)
        } else {
            self.retired(slot)
        }
    }

    /// The scope after a read guard on `slot`, taken when the counter stood
    /// at `snapshot`, was dropped. If the occupant was retired meanwhile and
    /// this is the last cookie out, the payload is destroyed and the slot
    /// given back; otherwise only the cookie goes back. (Giving a cookie
    /// back does not depend on how many readers the jar can count.)
    pub open spec fn ref_dropped(self, slot: usize, snapshot: u64) -> ScopeState<T> {
        if self.validity(slot) != snapshot && self.jar(slot).can_upgrade() {
            self.reclaimed(slot)
        } else {
            self.stepped(slot, JarOp::ReleaseRead, 0)
        }
    }

    /// The scope after the write guard on `slot`, taken when the counter
    /// stood at `snapshot`, was dropped. If the occupant was retired
    /// meanwhile, the payload is destroyed and the slot given back; otherwise
    /// only the cookie goes back.
    pub open spec fn mut_dropped(self, slot: usize, snapshot: u64) -> ScopeState<T> {
        if self.validity(slot) != snapshot {
            self.reclaimed(slot)
        } else {
            self.stepped(slot, JarOp::ReleaseWrite, 0)
        }
    }

    /// The scope after the payload of `slot` was handed to its owner for
    /// good: the occupant is retired and the slot, empty, stays out of
    /// circulation.
    pub open spec fn unboxed(self, slot: usize) -> ScopeState<T> {
        self.retired(slot).with_payload(slot, None)
    }

    /// The scope after a reset: counts and free list forgotten.
    pub open spec fn cleared(self) -> ScopeState<T> {
        ScopeState { free: Seq::empty(), expansions: 0, total_allocations: 0, ..self }
    }
}

/// Reclaiming a slot forgets what its jar held: an operation on the jar just
/// before makes no difference.
pub proof fn lemma_reclaim_forgets_jar<T>(state: ScopeState<T>, slot: usize, op: JarOp, capacity: nat)
    requires
        state.is_handle(slot),
    ensures
        state.stepped(slot, op, capacity).reclaimed(slot) == state.reclaimed(slot),
{
    let stepped = state.stepped(slot, op, capacity);
    let idle = LedgerState { validity: state.validity(slot), jar: JarState::idle() };
    assert(stepped.with_ledger(slot, idle).ledgers =~= state.with_ledger(slot, idle).ledgers);
}

/// Two operations on the jar of one slot, one after the other, are one
/// change of that slot's jar.
pub proof fn lemma_stepped_twice<T>(
    state: ScopeState<T>,
    slot: usize,
    first: JarOp,
    second: JarOp,
    capacity: nat,
)
    requires
        state.is_handle(slot),
    ensures
        state.stepped(slot, first, capacity).stepped(slot, second, capacity) == state.with_ledger(
            slot,
            LedgerState {
                validity: state.validity(slot),
                jar: state.jar(slot).step(first, capacity).step(second, capacity),
            },
        ),
{
    let twice = state.stepped(slot, first, capacity).stepped(slot, second, capacity);
    let once = state.with_ledger(
        slot,
        LedgerState {
            validity: state.validity(slot),
            jar: state.jar(slot).step(first, capacity).step(second, capacity),
        },
    );
    assert(twice.ledgers =~= once.ledgers);
}

/// An operation that the jar refuses leaves the whole scope as it was.
pub proof fn lemma_step_refused<T>(state: ScopeState<T>, slot: usize, op: JarOp, capacity: nat)
    requires
        state.is_handle(slot),
        state.jar(slot).step(op, capacity) == state.jar(slot),
    ensures
        state.stepped(slot, op, capacity) == state,
{
    assert(state.stepped(slot, op, capacity).ledgers =~= state.ledgers);
}

/// What each of `slots` records.
pub open spec fn ledger_states<L: Ledger>(slots: Seq<L>) -> Seq<LedgerState> {
    Seq::new(slots.len(), |s: int| ledger_state(slots[s]))
}

/// Where a scope keeps its book and its payloads.
pub trait Scope: Sized {
    /// What the slots of this scope hold.
    type Payload;

    /// The kind of ledger in each slot.
    type WrappedLedger: Ledger;

    /// The kind of book.
    type Allocator: LedgerBook<Self::WrappedLedger>;

    /// The book.
    spec fn book_spec(&self) -> Self::Allocator;

    /// The payloads, by handle.
    spec fn payloads_spec(&self) -> Seq<Option<Self::Payload>>;

    /// The scope's own guard, where it has one, is consistent and nobody
    /// holds it.
    spec fn guard_idle(&self) -> bool;

    /// The book of this scope.
    fn book(&self) -> (book: &Self::Allocator)
        ensures
            *book == self.book_spec(),
    ;

    /// The book of this scope, to change it. The payloads are out of reach
    /// through it.
    fn book_mut(&mut self) -> (book: &mut Self::Allocator)
        ensures
            *book == old(self).book_spec(),
            final(self).book_spec() == *final(book),
            final(self).payloads_spec() == old(self).payloads_spec(),
            final(self).guard_idle() == old(self).guard_idle(),
    ;

    /// The payloads of this scope.
    fn payloads(&self) -> (payloads: &Vec<Option<Self::Payload>>)
        ensures
            payloads@ == self.payloads_spec(),
    ;

    /// The payloads of this scope, to change them. The book is out of reach
    /// through them.
    fn payloads_mut(&mut self) -> (payloads: &mut Vec<Option<Self::Payload>>)
        ensures
            payloads@ == old(self).payloads_spec(),
            final(self).payloads_spec() == final(payloads)@,
            final(self).book_spec() == old(self).book_spec(),
            final(self).guard_idle() == old(self).guard_idle(),
    ;
}

/// A ledger book bound to a scope: allocation, deallocation and the counts.
pub trait LedgerAllocator: Scope {
    /// Hands out a slot without payload and without cookies out, whose
    /// counter is not exhausted.
    fn alloc_ledger(&mut self) -> (ledger: AllocatedLedger<Self>)
        requires
            scope_inv(*old(self)),
        ensures
            scope_inv(*final(self)),
            ledger.slot() == scope_state(*old(self)).next_slot(),
            scope_state(*final(self)) == scope_state(*old(self)).allocated(),
            scope_state(*final(self)).in_use(ledger.slot()),
            scope_state(*final(self)).validity(ledger.slot()) < RETIRED,
            scope_state(*final(self)).jar(ledger.slot()).is_idle(),
            scope_state(*final(self)).payload(ledger.slot()).is_none(),
    {
        let produce = || -> (ledger: Self::WrappedLedger)
            ensures
                ledger_state(ledger) == LedgerState::fresh(),
                ledger_fresh(ledger),
            { <Self::WrappedLedger as Ledger>::new() };
        let slot = self.book_mut().allocate(produce);
        let count = self.book().slot_count();
        pad(self.payloads_mut(), count);
        proof {
            lemma_allocated(*old(self), *self, slot);
            assert forall|s: int|
                old(self).book_spec()@.slots.len() <= s < self.book_spec()@.slots.len() implies ledger_state(
                #[trigger] self.book_spec()@.slots[s],
            ) == LedgerState::fresh() by {
                assert(made_by(&produce, self.book_spec()@.slots[s]));
            }
            lemma_allocated_state(*old(self), *self, slot);
        }
        AllocatedLedger::from_inner_ptr(slot)
    }

    /// Takes back a slot that is in use, has no payload and has no cookie
    /// out. It goes on top of the free list unless its counter is exhausted.
    fn free(&mut self, ledger: AllocatedLedger<Self>)
        requires
            scope_inv(*old(self)),
            scope_state(*old(self)).in_use(ledger.slot()),
            scope_state(*old(self)).payload(ledger.slot()).is_none(),
        ensures
            scope_inv(*final(self)),
            scope_state(*final(self)) == scope_state(*old(self)).deallocated(ledger.slot()),
    {
        let slot = ledger.into_inner_ptr();
        proof {
            lemma_free_is_free(*old(self), slot);
        }
        self.book_mut().deallocate(slot);
        proof {
            lemma_deallocated(*old(self), *self, slot);
        }
    }

    /// How many chunks were carved.
    fn expansions(&self) -> (n: usize)
        ensures
            n == scope_state(*self).expansions,
    {
        self.book().expansions()
    }

    /// How many times a slot was handed out.
    fn total_allocations(&self) -> (n: usize)
        ensures
            n == scope_state(*self).total_allocations,
    {
        self.book().total_allocations()
    }

    /// How many slots wait on the free list.
    fn free_count(&self) -> (n: usize)
        ensures
            n == scope_state(*self).free.len(),
    {
        self.book().free_count()
    }

    /// How many slots were carved.
    fn slot_count(&self) -> (n: usize)
        ensures
            n == scope_state(*self).ledgers.len(),
    {
        self.book().slot_count()
    }

    /// Sets the size of the next chunk and the limit for all later ones.
    fn set_chunks(&mut self, chunk: usize, limit: usize)
        requires
            scope_inv(*old(self)),
            1 <= chunk <= limit,
        ensures
            scope_inv(*final(self)),
            scope_state(*final(self)) == (ScopeState {
                chunk_size: chunk,
                max_chunk_size: limit,
                ..scope_state(*old(self))
            }),
    {
        self.book_mut().set_chunks(chunk, limit);
    }

    /// Forgets the counts and the free list. Slots that are in use stay
    /// good; slots that were free are abandoned.
    fn reset(&mut self)
        requires
            scope_inv(*old(self)),
        ensures
            scope_inv(*final(self)),
            scope_state(*final(self)) == scope_state(*old(self)).cleared(),
    {
        self.book_mut().reset();
    }
}

/// Everything `scope` holds.
pub open spec fn scope_state<A: Scope>(scope: A) -> ScopeState<A::Payload> {
    let book = scope.book_spec()@;
    ScopeState {
        ledgers: ledger_states(book.slots),
        payloads: scope.payloads_spec(),
        free: book.free,
        chunk_size: book.chunk_size,
        max_chunk_size: book.max_chunk_size,
        expansions: book.expansions,
        total_allocations: book.total_allocations,
    }
}

/// The book of `scope` is well formed, what the scope holds is consistent,
/// and nobody holds the scope's own guard.
pub open spec fn scope_inv<A: Scope>(scope: A) -> bool {
    scope.book_spec()@.wf() && scope_state(scope).consistent() && scope.guard_idle()
}

/// How many readers a jar of scope type `A` can count.
pub open spec fn jar_capacity<A: Scope>() -> nat {
    <<A::WrappedLedger as Ledger>::Cookies as CookieJar>::capacity()
}

/// Puts `None` behind `data` until it has `count` entries.
fn pad<T>(data: &mut Vec<Option<T>>, count: usize)
    requires
        old(data)@.len() <= count,
    ensures
        final(data)@.len() == count,
        forall|s: int| 0 <= s < old(data)@.len() ==> final(data)@[s] == old(data)@[s],
        forall|s: int| old(data)@.len() <= s < count ==> (#[trigger] final(data)@[s]).is_none(),
{
    while data.len() < count
        invariant
            old(data)@.len() <= data@.len() <= count,
            forall|s: int| 0 <= s < old(data)@.len() ==> data@[s] == old(data)@[s],
            forall|s: int| old(data)@.len() <= s < data@.len() ==> (#[trigger] data@[s]).is_none(),
        decreases count - data@.len(),
    {
        data.push(None);
    }
}

/// A free slot has no payload, hence no cookie out.
proof fn lemma_free_is_free<A: Scope>(scope: A, slot: usize)
    requires
        scope_inv(scope),
        scope_state(scope).is_handle(slot),
        scope_state(scope).payload(slot).is_none(),
    ensures
        scope_state(scope).jar(slot).is_idle(),
        scope.book_spec()@.is_handle(slot),
        scope.book_spec()@.free.contains(slot) == scope_state(scope).free.contains(slot),
{
    let state = scope_state(scope);
    assert(state.payloads[slot as int].is_none());
}

/// What `after` holds once the book of `before` has handed out `slot` and
/// the payloads were padded: it is consistent.
proof fn lemma_allocated<A: Scope>(before: A, after: A, slot: usize)
    requires
        scope_inv(before),
        after.guard_idle(),
        after.book_spec()@.wf(),
        after.book_spec()@.in_use(slot),
        after.book_spec()@.validity(slot) < RETIRED,
        before.book_spec()@.free.len() > 0 ==> slot == before.book_spec()@.free.last()
            && after.book_spec()@ == before.book_spec()@.recycled(),
        before.book_spec()@.free.len() == 0 ==> slot == before.book_spec()@.slots.len()
            && after.book_spec()@.expanded_from(before.book_spec()@),
        after.payloads_spec().len() == after.book_spec()@.slots.len(),
        forall|s: int|
            0 <= s < before.payloads_spec().len() ==> after.payloads_spec()[s]
                == before.payloads_spec()[s],
        forall|s: int|
            before.payloads_spec().len() <= s < after.payloads_spec().len() ==> (
            #[trigger] after.payloads_spec()[s]).is_none(),
    ensures
        scope_inv(after),
        scope_state(after).in_use(slot),
        scope_state(after).validity(slot) < RETIRED,
        scope_state(after).jar(slot).is_idle(),
        scope_state(after).payload(slot).is_none(),
        slot == scope_state(before).next_slot(),
{
    let b = scope_state(before);
    let a = scope_state(after);
    let bb = before.book_spec()@;
    let ab = after.book_spec()@;
    assert forall|s: int| 0 <= s < a.ledgers.len() implies (#[trigger] a.ledgers[s]).validity >= 1
        && a.ledgers[s].jar.exclusive() by {
        assert(ledger_inv(ab.slots[s]));
        ab.slots[s].cookie_spec().lemma_inv();
    }
    if bb.free.len() > 0 {
        crate::ledgerbooks::lemma_top_leaves(bb.free);
        assert(b.free[b.free.len() - 1] == slot);
        assert forall|s: int| 0 <= s < a.ledgers.len() && (#[trigger] a.payloads[s]).is_none() implies a.ledgers[s].jar.is_idle() by {
            assert(b.payloads[s].is_none());
        }
        assert forall|i: int| 0 <= i < a.free.len() implies {
            let f = #[trigger] a.free[i];
            &&& a.is_handle(f)
            &&& a.validity(f) < RETIRED
            &&& a.payload(f).is_none()
        } by {
            assert(a.free[i] == b.free[i]);
        }
        assert(a.payloads[slot as int].is_none());
    } else {
        lemma_chunk_rest(bb.slots.len() as usize, bb.chunk_size);
        assert forall|s: int| 0 <= s < a.ledgers.len() && (#[trigger] a.payloads[s]).is_none() implies a.ledgers[s].jar.is_idle() by {
            if s < b.ledgers.len() {
                assert(b.payloads[s].is_none());
                assert(ab.slots[s] == bb.slots[s]);
            } else {
                assert(ledger_fresh(ab.slots[s]));
            }
        }
        assert forall|i: int| 0 <= i < a.free.len() implies {
            let f = #[trigger] a.free[i];
            &&& a.is_handle(f)
            &&& a.validity(f) < RETIRED
            &&& a.payload(f).is_none()
        } by {
            let f = a.free[i];
            assert(f == bb.slots.len() + 1 + i);
            assert(ledger_fresh(ab.slots[f as int]));
            assert(a.payloads[f as int].is_none());
        }
        assert(ledger_fresh(ab.slots[slot as int]));
        assert(a.payloads[slot as int].is_none());
    }
}

/// What `after` holds once the book of `before` has handed out `slot`, with
/// new ledgers as `Ledger::new` makes them, is what allocation is said to
/// give.
proof fn lemma_allocated_state<A: Scope>(before: A, after: A, slot: usize)
    requires
        scope_inv(before),
        scope_inv(after),
        before.book_spec()@.free.len() > 0 ==> after.book_spec()@ == before.book_spec()@.recycled()
            && after.payloads_spec().len() == before.payloads_spec().len(),
        before.book_spec()@.free.len() == 0 ==> after.book_spec()@.expanded_from(
            before.book_spec()@,
        ),
        forall|s: int|
            before.book_spec()@.slots.len() <= s < after.book_spec()@.slots.len() ==> ledger_state(
                #[trigger] after.book_spec()@.slots[s],
            ) == LedgerState::fresh(),
        forall|s: int|
            0 <= s < before.payloads_spec().len() ==> after.payloads_spec()[s]
                == before.payloads_spec()[s],
        forall|s: int|
            before.payloads_spec().len() <= s < after.payloads_spec().len() ==> (
            #[trigger] after.payloads_spec()[s]).is_none(),
    ensures
        scope_state(after) == scope_state(before).allocated(),
{
    let b = scope_state(before);
    let a = scope_state(after);
    let want = b.allocated();
    let bb = before.book_spec()@;
    let ab = after.book_spec()@;
    if bb.free.len() > 0 {
        assert(a.ledgers =~= want.ledgers);
        assert(a.payloads =~= want.payloads);
    } else {
        assert forall|s: int| 0 <= s < a.ledgers.len() implies a.ledgers[s] == want.ledgers[s] by {
            if s < b.ledgers.len() {
                assert(ab.slots[s] == bb.slots[s]);
            } else {
                assert(ledger_state(ab.slots[s]) == LedgerState::fresh());
            }
        }
        assert(a.ledgers =~= want.ledgers);
        assert forall|s: int| 0 <= s < a.payloads.len() implies a.payloads[s] == want.payloads[s] by {
            if s >= b.payloads.len() {
                assert(a.payloads[s].is_none());
            }
        }
        assert(a.payloads =~= want.payloads);
    }
}

/// What `after` holds once the book of `before` took `slot` back.
proof fn lemma_deallocated<A: Scope>(before: A, after: A, slot: usize)
    requires
        scope_inv(before),
        after.guard_idle(),
        scope_state(before).in_use(slot),
        scope_state(before).payload(slot).is_none(),
        after.book_spec()@.wf(),
        after.book_spec()@ == before.book_spec()@.deallocated(slot),
        after.payloads_spec() == before.payloads_spec(),
    ensures
        scope_inv(after),
        scope_state(after) == scope_state(before).deallocated(slot),
{
    let b = scope_state(before);
    let a = scope_state(after);
    assert(a.ledgers =~= b.ledgers);
    if b.validity(slot) != RETIRED {
        crate::ledgerbooks::lemma_push_fresh(b.free, slot);
        assert forall|i: int| 0 <= i < a.free.len() implies {
            let f = #[trigger] a.free[i];
            &&& a.is_handle(f)
            &&& a.validity(f) < RETIRED
            &&& a.payload(f).is_none()
        } by {
            if i < b.free.len() {
                assert(a.free[i] == b.free[i]);
            }
        }
    }
}

/// What `after` holds once the ledger of `slot` was changed in place: in a
/// way that keeps the ledger consistent, keeps a slot without payload idle
/// and keeps a free slot's counter from exhaustion.
pub proof fn lemma_ledger_changed<A: Scope>(before: A, after: A, slot: usize)
    requires
        scope_inv(before),
        after.guard_idle(),
        scope_state(before).is_handle(slot),
        after.book_spec()@ == (BookState {
            slots: before.book_spec()@.slots.update(slot as int, after.book_spec()@.slots[slot as int]),
            ..before.book_spec()@
        }),
        after.payloads_spec() == before.payloads_spec(),
        ledger_inv(after.book_spec()@.slots[slot as int]),
        scope_state(before).payload(slot).is_none() ==> after.book_spec()@.slots[slot as int].cookie_spec().state().is_idle(),
        scope_state(before).free.contains(slot) ==> after.book_spec()@.slots[slot as int].reallocation_spec()
            < RETIRED,
    ensures
        scope_inv(after),
        scope_state(after) == scope_state(before).with_ledger(
            slot,
            ledger_state(after.book_spec()@.slots[slot as int]),
        ),
{
    let b = scope_state(before);
    let a = scope_state(after);
    let bb = before.book_spec()@;
    let ab = after.book_spec()@;
    let changed = ab.slots[slot as int];
    changed.cookie_spec().lemma_inv();
    assert(a.ledgers =~= b.ledgers.update(slot as int, ledger_state(changed)));
    assert forall|s: int| 0 <= s < ab.slots.len() implies ledger_inv(#[trigger] ab.slots[s]) by {
        if s != slot {
            assert(ab.slots[s] == bb.slots[s]);
        }
    }
    assert forall|i: int| 0 <= i < ab.free.len() implies (#[trigger] ab.free[i] as int) < ab.slots.len()
        && ab.slots[ab.free[i] as int].reallocation_spec() < RETIRED by {
        let f = ab.free[i];
        assert(f == bb.free[i]);
        if f == slot {
            assert(b.free.contains(slot));
        } else {
            assert(ab.slots[f as int] == bb.slots[f as int]);
        }
    }
    assert forall|s: int| 0 <= s < a.ledgers.len() implies (#[trigger] a.ledgers[s]).validity >= 1
        && a.ledgers[s].jar.exclusive() by {
        if s != slot {
            assert(a.ledgers[s] == b.ledgers[s]);
        }
    }
    assert forall|s: int| 0 <= s < a.ledgers.len() && (#[trigger] a.payloads[s]).is_none() implies a.ledgers[s].jar.is_idle() by {
        assert(b.payloads[s].is_none());
        if s != slot {
            assert(a.ledgers[s] == b.ledgers[s]);
        }
    }
    assert forall|i: int| 0 <= i < a.free.len() implies {
        let f = #[trigger] a.free[i];
        &&& a.is_handle(f)
        &&& a.validity(f) < RETIRED
        &&& a.payload(f).is_none()
    } by {
        let f = a.free[i];
        assert(f == b.free[i]);
        if f == slot {
            assert(b.free.contains(slot));
        } else {
            assert(a.ledgers[f as int] == b.ledgers[f as int]);
        }
    }
}

/// What `after` holds once the payload of an occupied or idle slot was
/// replaced: by a payload, or by none where no cookie is out and the slot is
/// not free.
pub proof fn lemma_payload_changed<A: Scope>(before: A, after: A, slot: usize)
    requires
        scope_inv(before),
        after.guard_idle(),
        scope_state(before).is_handle(slot),
        after.book_spec() == before.book_spec(),
        after.payloads_spec() == before.payloads_spec().update(
            slot as int,
            after.payloads_spec()[slot as int],
        ),
        after.payloads_spec()[slot as int].is_none() ==> scope_state(before).jar(slot).is_idle(),
        after.payloads_spec()[slot as int].is_some() ==> !scope_state(before).free.contains(slot),
    ensures
        scope_inv(after),
        scope_state(after) == scope_state(before).with_payload(
            slot,
            after.payloads_spec()[slot as int],
        ),
{
    let b = scope_state(before);
    let a = scope_state(after);
    assert forall|s: int| 0 <= s < a.ledgers.len() && (#[trigger] a.payloads[s]).is_none() implies a.ledgers[s].jar.is_idle() by {
        if s != slot {
            assert(b.payloads[s].is_none());
        }
    }
    assert forall|i: int| 0 <= i < a.free.len() implies {
        let f = #[trigger] a.free[i];
        &&& a.is_handle(f)
        &&& a.validity(f) < RETIRED
        &&& a.payload(f).is_none()
    } by {
        let f = a.free[i];
        assert(f == b.free[i]);
        assert(b.free.contains(f));
        assert(b.payload(f).is_none());
    }
}

} // verus!
