//! What holds of a scope whatever is done with it.
//!
//! Every operation of this library changes a scope by one of the steps of
//! `ScopeOp`, as the operation's own contract says. The laws here speak of
//! all sequences of such steps.

use vstd::prelude::*;
use crate::allocators::ScopeState;
use crate::cookie::{JarOp, JarState};
use crate::ledgerbooks::{counted, grown, lemma_chunk_rest, lemma_top_leaves};
use crate::ledgers::{bumped, RETIRED};

verus! {

/// One step by which a scope changes.
pub enum ScopeOp<T> {
    /// A slot is handed out.
    Allocate,
    /// A slot comes back.
    Deallocate(usize),
    /// A payload is put into a slot.
    Put(usize, T),
    /// The payload of a slot is taken out.
    Clear(usize),
    /// An operation on the jar of a slot.
    Jar(usize, JarOp),
    /// The occupant of a slot is retired.
    Retire(usize),
    /// The owner of a slot is dropped.
    DropOwner(usize),
    /// A read guard on a slot, taken under a snapshot, is dropped.
    DropRef(usize, u64),
    /// The write guard on a slot, taken under a snapshot, is dropped.
    DropMut(usize, u64),
    /// The owner of a slot takes its payload back for good.
    Unbox(usize),
    /// The counts and the free list are forgotten.
    Reset,
    /// The growth policy is set.
    SetChunks(usize, usize),
}

impl<T> ScopeOp<T> {
    /// The slot that the step is about, if it is about one.
    pub open spec fn target(self) -> Option<usize> {
        match self {
            ScopeOp::Deallocate(slot) => Some(slot),
            ScopeOp::Put(slot, _) => Some(slot),
            ScopeOp::Clear(slot) => Some(slot),
            ScopeOp::Jar(slot, _) => Some(slot),
            ScopeOp::Retire(slot) => Some(slot),
            ScopeOp::DropOwner(slot) => Some(slot),
            ScopeOp::DropRef(slot, _) => Some(slot),
            ScopeOp::DropMut(slot, _) => Some(slot),
            ScopeOp::Unbox(slot) => Some(slot),
            _ => None,
        }
    }
}

impl<T> ScopeState<T> {
    /// A chunk can still be carved: its handles fit the machine.
    pub open spec fn has_room(self) -> bool {
        self.ledgers.len() + self.chunk_size <= usize::MAX
    }

    /// The step makes sense here: it is about a carved slot, and an
    /// allocation that must carve has room to.
    pub open spec fn accepts(self, op: ScopeOp<T>) -> bool {
        match op {
            ScopeOp::Allocate => self.free.len() > 0 || self.has_room(),
            _ => op.target() matches Some(slot) ==> self.is_handle(slot),
        }
    }

    /// The scope after the step, for jars that count `capacity` readers.
    pub open spec fn apply(self, op: ScopeOp<T>, capacity: nat) -> ScopeState<T> {
        match op {
            ScopeOp::Allocate => self.allocated(),
            ScopeOp::Deallocate(slot) => self.deallocated(slot),
            ScopeOp::Put(slot, value) => self.with_payload(slot, Some(value)),
            ScopeOp::Clear(slot) => self.with_payload(slot, None),
            ScopeOp::Jar(slot, op) => self.stepped(slot, op, capacity),
            ScopeOp::Retire(slot) => self.retired(slot),
            ScopeOp::DropOwner(slot) => self.owner_dropped(slot),
            ScopeOp::DropRef(slot, snapshot) => self.ref_dropped(slot, snapshot),
            ScopeOp::DropMut(slot, snapshot) => self.mut_dropped(slot, snapshot),
            ScopeOp::Unbox(slot) => self.unboxed(slot),
            ScopeOp::Reset => self.cleared(),
            ScopeOp::SetChunks(chunk, limit) => ScopeState {
                chunk_size: chunk,
                max_chunk_size: limit,
                ..self
            },
        }
    }

    /// Every step of `ops` makes sense when its turn comes.
    pub open spec fn admits(self, ops: Seq<ScopeOp<T>>, capacity: nat) -> bool
        decreases ops.len(),
    {
        ops.len() == 0 || (self.accepts(ops[0]) && self.apply(ops[0], capacity).admits(
            ops.drop_first(),
            capacity,
        ))
    }

    /// The scope after all of `ops`, in order.
    pub open spec fn run(self, ops: Seq<ScopeOp<T>>, capacity: nat) -> ScopeState<T>
        decreases ops.len(),
    {
        if ops.len() == 0 {
            self
        } else {
            self.apply(ops[0], capacity).run(ops.drop_first(), capacity)
        }
    }

    /// The scope after `count` allocations in a row.
    pub open spec fn allocated_times(self, count: nat) -> ScopeState<T>
        decreases count,
    {
        if count == 0 {
            self
        } else {
            self.allocated_times((count - 1) as nat).allocated()
        }
    }

    /// How many slots are handed out.
    pub open spec fn in_use_count(self) -> int {
        self.ledgers.len() - self.free.len()
    }
}

/// No step takes a slot away or moves its counter backward.
pub proof fn lemma_step_keeps_going<T>(state: ScopeState<T>, op: ScopeOp<T>, capacity: nat, slot: usize)
    requires
        state.is_handle(slot),
        state.accepts(op),
    ensures
        state.apply(op, capacity).is_handle(slot),
        state.apply(op, capacity).validity(slot) >= state.validity(slot),
{
    crate::ledgers::lemma_bumped_grows(state.validity(slot));
}

impl<T> ScopeOp<T> {
    /// The step ends the occupant of `slot`: it retires it, drops its owner,
    /// or hands its payload back to its owner.
    pub open spec fn ends_occupant_of(self, slot: usize) -> bool {
        match self {
            ScopeOp::Retire(target) => target == slot,
            ScopeOp::DropOwner(target) => target == slot,
            ScopeOp::Unbox(target) => target == slot,
            _ => false,
        }
    }
}

/// A slot's counter moves only when its occupant ends, and then by one
/// retirement: one up, or to a halt at the last value.
pub proof fn lemma_counter_moves_on_retirement<T>(
    state: ScopeState<T>,
    op: ScopeOp<T>,
    capacity: nat,
    slot: usize,
)
    requires
        state.is_handle(slot),
        state.accepts(op),
    ensures
        state.apply(op, capacity).validity(slot) == (if op.ends_occupant_of(slot) {
            bumped(state.validity(slot))
        } else {
            state.validity(slot)
        }),
{
}

/// The validity counter of a slot only ever grows: whatever is done with a
/// scope, in whatever order, a slot's counter never comes back to a value
/// that it has left.
pub proof fn lemma_validity_only_grows<T>(
    state: ScopeState<T>,
    ops: Seq<ScopeOp<T>>,
    capacity: nat,
    slot: usize,
)
    requires
        state.is_handle(slot),
        state.admits(ops, capacity),
    ensures
        state.run(ops, capacity).is_handle(slot),
        state.run(ops, capacity).validity(slot) >= state.validity(slot),
    decreases ops.len(),
{
    if ops.len() > 0 {
        lemma_step_keeps_going(state, ops[0], capacity, slot);
        lemma_validity_only_grows(state.apply(ops[0], capacity), ops.drop_first(), capacity, slot);
    }
}

/// Generational soundness. A borrow taken from a live owner remembers the
/// counter of the owner's slot. Once the owner is dropped, the counter never
/// stands there again, whatever happens to the scope afterwards: the slot may
/// be given back, handed out to a new owner and retired again any number of
/// times, and the borrow's check fails every time.
pub proof fn lemma_borrow_stale_for_good<T>(
    state: ScopeState<T>,
    slot: usize,
    snapshot: u64,
    ops: Seq<ScopeOp<T>>,
    capacity: nat,
)
    requires
        state.is_handle(slot),
        state.validity(slot) == snapshot,
        snapshot < RETIRED,
        state.owner_dropped(slot).admits(ops, capacity),
    ensures
        state.owner_dropped(slot).run(ops, capacity).validity(slot) != snapshot,
{
    lemma_validity_only_grows(state.owner_dropped(slot), ops, capacity, slot);
}

/// As `lemma_borrow_stale_for_good`, where the owner ended by taking its
/// payload back.
pub proof fn lemma_borrow_stale_after_unbox<T>(
    state: ScopeState<T>,
    slot: usize,
    snapshot: u64,
    ops: Seq<ScopeOp<T>>,
    capacity: nat,
)
    requires
        state.is_handle(slot),
        state.validity(slot) == snapshot,
        snapshot < RETIRED,
        state.unboxed(slot).admits(ops, capacity),
    ensures
        state.unboxed(slot).run(ops, capacity).validity(slot) != snapshot,
{
    lemma_validity_only_grows(state.unboxed(slot), ops, capacity, slot);
}

/// Who lets go of a value.
pub enum Release {
    /// The owner is dropped.
    Owner,
    /// A guard is dropped.
    Guard,
}

/// How many times the owner appears in `order`.
pub open spec fn owners(order: Seq<Release>) -> nat
    decreases order.len(),
{
    if order.len() == 0 {
        0
    } else {
        (if order[0] is Owner {
            1nat
        } else {
            0nat
        }) + owners(order.drop_first())
    }
}

/// How many times a guard appears in `order`.
pub open spec fn guards(order: Seq<Release>) -> nat
    decreases order.len(),
{
    if order.len() == 0 {
        0
    } else {
        (if order[0] is Guard {
            1nat
        } else {
            0nat
        }) + guards(order.drop_first())
    }
}

impl<T> ScopeState<T> {
    /// The scope after `who` let go of the value in `slot`. The guards were
    /// taken under `snapshot`; `writer` says that the guard is the write
    /// guard.
    pub open spec fn released(self, slot: usize, snapshot: u64, writer: bool, who: Release) -> ScopeState<
        T,
    > {
        match who {
            Release::Owner => self.owner_dropped(slot),
            Release::Guard => if writer {
                self.mut_dropped(slot, snapshot)
            } else {
                self.ref_dropped(slot, snapshot)
            },
        }
    }

    /// Whether `who`, letting go now, is the one that destroys the payload
    /// and gives the slot back.
    pub open spec fn frees(self, slot: usize, snapshot: u64, writer: bool, who: Release) -> bool {
        match who {
            Release::Owner => self.jar(slot).can_write(),
            Release::Guard => if writer {
                self.validity(slot) != snapshot
            } else {
                self.validity(slot) != snapshot && self.jar(slot).can_upgrade()
            },
        }
    }

    /// The scope after all of `order` let go, one after the other.
    pub open spec fn released_all(
        self,
        slot: usize,
        snapshot: u64,
        writer: bool,
        order: Seq<Release>,
    ) -> ScopeState<T>
        decreases order.len(),
    {
        if order.len() == 0 {
            self
        } else {
            self.released(slot, snapshot, writer, order[0]).released_all(
                slot,
                snapshot,
                writer,
                order.drop_first(),
            )
        }
    }

    /// How many of `order`, letting go one after the other, destroy the
    /// payload and give the slot back.
    pub open spec fn frees_count(
        self,
        slot: usize,
        snapshot: u64,
        writer: bool,
        order: Seq<Release>,
    ) -> nat
        decreases order.len(),
    {
        if order.len() == 0 {
            0
        } else {
            (if self.frees(slot, snapshot, writer, order[0]) {
                1nat
            } else {
                0nat
            }) + self.released(slot, snapshot, writer, order[0]).frees_count(
                slot,
                snapshot,
                writer,
                order.drop_first(),
            )
        }
    }

    /// The free list after `slot`, retired from `snapshot`, was given back.
    pub open spec fn free_after_return(self, slot: usize, snapshot: u64) -> Seq<usize> {
        if bumped(snapshot) != RETIRED {
            self.free.push(slot)
        } else {
            self.free
        }
    }
}

/// An order in which nobody appears is empty.
proof fn lemma_nobody(order: Seq<Release>)
    requires
        owners(order) == 0,
        guards(order) == 0,
    ensures
        order.len() == 0,
{
    if order.len() > 0 {
        match order[0] {
            Release::Owner => {},
            Release::Guard => {},
        }
    }
}

/// The rest of the way from any point at which the payload is still there.
proof fn lemma_release_rest<T>(
    state: ScopeState<T>,
    start: ScopeState<T>,
    slot: usize,
    snapshot: u64,
    writer: bool,
    order: Seq<Release>,
    owner_gone: bool,
)
    requires
        state.is_handle(slot),
        state.ledgers.len() == state.payloads.len(),
        state.payload(slot).is_some(),
        state.free == start.free,
        snapshot < RETIRED,
        state.validity(slot) == (if owner_gone {
            bumped(snapshot)
        } else {
            snapshot
        }),
        owners(order) == (if owner_gone {
            0nat
        } else {
            1nat
        }),
        owner_gone ==> guards(order) >= 1,
        writer ==> guards(order) <= 1,
        state.jar(slot) == (if writer {
            JarState { readers: 0, writers: guards(order) }
        } else {
            JarState { readers: guards(order), writers: 0 }
        }),
    ensures
        state.frees_count(slot, snapshot, writer, order) == 1,
        state.released_all(slot, snapshot, writer, order).payload(slot).is_none(),
        state.released_all(slot, snapshot, writer, order).jar(slot).is_idle(),
        state.released_all(slot, snapshot, writer, order).validity(slot) == bumped(snapshot),
        state.released_all(slot, snapshot, writer, order).free == start.free_after_return(
            slot,
            snapshot,
        ),
    decreases order.len(),
{
    assert(order.len() > 0) by {
        if order.len() == 0 {
            assert(owners(order) == 0 && guards(order) == 0);
        }
    }
    let rest = order.drop_first();
    let next = state.released(slot, snapshot, writer, order[0]);
    let left = guards(order);
    let end = state.released_all(slot, snapshot, writer, order);
    assert(end == next.released_all(slot, snapshot, writer, rest));
    assert(state.frees_count(slot, snapshot, writer, order) == (if state.frees(
        slot,
        snapshot,
        writer,
        order[0],
    ) {
        1nat
    } else {
        0nat
    }) + next.frees_count(slot, snapshot, writer, rest));
    crate::ledgers::lemma_bumped_grows(snapshot);
    match order[0] {
        Release::Owner => {
            assert(!owner_gone);
            assert(owners(rest) == 0);
            assert(guards(rest) == left);
            if left == 0 {
                assert(state.jar(slot).can_write());
                lemma_nobody(rest);
                assert(next == state.retired(slot).reclaimed(slot));
                lemma_reclaimed(state.retired(slot), slot);
                assert(end == next);
                assert(next.frees_count(slot, snapshot, writer, rest) == 0);
            } else {
                assert(!state.jar(slot).can_write());
                assert(next == state.retired(slot));
                lemma_release_rest(next, start, slot, snapshot, writer, rest, true);
            }
        },
        Release::Guard => {
            assert(left >= 1);
            assert(guards(rest) == left - 1);
            assert(owners(rest) == owners(order));
            if owner_gone && left == 1 {
                assert(state.frees(slot, snapshot, writer, order[0]));
                lemma_nobody(rest);
                assert(next == state.reclaimed(slot));
                lemma_reclaimed(state, slot);
                assert(end == next);
                assert(next.frees_count(slot, snapshot, writer, rest) == 0);
            } else {
                assert(!state.frees(slot, snapshot, writer, order[0]));
                if writer {
                    assert(next == state.stepped(slot, JarOp::ReleaseWrite, 0));
                } else {
                    assert(next == state.stepped(slot, JarOp::ReleaseRead, 0));
                }
                lemma_release_rest(next, start, slot, snapshot, writer, rest, owner_gone);
            }
        },
    }
}

/// What reclaiming leaves of a slot: no payload, no cookie out, the counter
/// as it was, and the slot on top of the free list unless the counter is
/// exhausted.
pub proof fn lemma_reclaimed<T>(state: ScopeState<T>, slot: usize)
    requires
        state.is_handle(slot),
        state.ledgers.len() == state.payloads.len(),
    ensures
        state.reclaimed(slot).payload(slot).is_none(),
        state.reclaimed(slot).jar(slot).is_idle(),
        state.reclaimed(slot).validity(slot) == state.validity(slot),
        state.reclaimed(slot).free == (if state.validity(slot) != RETIRED {
            state.free.push(slot)
        } else {
            state.free
        }),
{
}

/// Deferred free completeness. A value has a live owner and, on its slot,
/// either the write guard or any number of read guards, all taken from that
/// owner. Let the owner and the guards be dropped in any order. Then exactly
/// one of them destroys the payload and gives the slot back: the payload is
/// gone at the end, no cookie is out, and the slot is on the free list once,
/// unless its counter is exhausted.
pub proof fn lemma_freed_exactly_once<T>(
    state: ScopeState<T>,
    slot: usize,
    writer: bool,
    order: Seq<Release>,
)
    requires
        state.consistent(),
        state.occupied(slot),
        state.validity(slot) < RETIRED,
        writer ==> state.jar(slot).writers == 1,
        !writer ==> state.jar(slot).writers == 0,
        owners(order) == 1,
        guards(order) == state.jar(slot).readers + state.jar(slot).writers,
    ensures
        state.frees_count(slot, state.validity(slot), writer, order) == 1,
        state.released_all(slot, state.validity(slot), writer, order).payload(slot).is_none(),
        state.released_all(slot, state.validity(slot), writer, order).jar(slot).is_idle(),
        state.released_all(slot, state.validity(slot), writer, order).free
            == state.free_after_return(slot, state.validity(slot)),
        !state.free.contains(slot),
{
    assert(state.ledgers[slot as int].jar.exclusive());
    if state.free.contains(slot) {
        let i = choose|i: int| 0 <= i < state.free.len() && state.free[i] == slot;
        assert(state.payload(state.free[i]).is_none());
    }
    lemma_release_rest(state, state, slot, state.validity(slot), writer, order, false);
}

/// Allocation accounting, one allocation: a consistent scope stays
/// consistent; one more slot is handed out; the slot handed out was not in
/// use before; and while the free list has a slot, none is carved.
pub proof fn lemma_allocation_step<T>(state: ScopeState<T>)
    requires
        state.consistent(),
        state.free.len() > 0 || state.has_room(),
    ensures
        state.allocated().consistent(),
        state.allocated().in_use_count() == state.in_use_count() + 1,
        state.allocated().total_allocations == counted(state.total_allocations),
        state.allocated().in_use(state.next_slot()),
        !state.in_use(state.next_slot()),
        state.free.len() > 0 ==> state.allocated().ledgers == state.ledgers
            && state.allocated().expansions == state.expansions,
        state.free.len() == 0 ==> state.allocated().ledgers.len() == state.ledgers.len()
            + state.chunk_size && state.allocated().expansions == counted(state.expansions)
            && state.allocated().chunk_size == grown(state.chunk_size, state.max_chunk_size),
{
    let after = state.allocated();
    let slot = state.next_slot();
    if state.free.len() > 0 {
        lemma_top_leaves(state.free);
        assert(state.free[state.free.len() - 1] == slot);
        assert(state.free.contains(slot));
        assert forall|i: int| 0 <= i < after.free.len() implies {
            let f = #[trigger] after.free[i];
            &&& after.is_handle(f)
            &&& after.validity(f) < RETIRED
            &&& after.payload(f).is_none()
        } by {
            assert(after.free[i] == state.free[i]);
        }
    } else {
        lemma_chunk_rest(state.ledgers.len() as usize, state.chunk_size);
        assert forall|s: int| 0 <= s < after.ledgers.len() implies (#[trigger] after.ledgers[s]).validity
            >= 1 && after.ledgers[s].jar.exclusive() by {
            if s < state.ledgers.len() {
                assert(after.ledgers[s] == state.ledgers[s]);
            }
        }
        assert forall|s: int|
            0 <= s < after.ledgers.len() && (#[trigger] after.payloads[s]).is_none() implies after.ledgers[s].jar.is_idle() by {
            if s < state.ledgers.len() {
                assert(after.payloads[s] == state.payloads[s]);
                assert(after.ledgers[s] == state.ledgers[s]);
            }
        }
        assert forall|i: int| 0 <= i < after.free.len() implies {
            let f = #[trigger] after.free[i];
            &&& after.is_handle(f)
            &&& after.validity(f) < RETIRED
            &&& after.payload(f).is_none()
        } by {
            assert(after.free[i] == state.ledgers.len() + 1 + i);
        }
    }
}

/// Allocation accounting, any number of allocations: after `count`
/// allocations in a row, `count` more slots are handed out and, short of the
/// counter's limit, `count` more allocations are on record.
pub proof fn lemma_allocation_count<T>(state: ScopeState<T>, count: nat)
    requires
        state.consistent(),
        forall|done: nat|
            done < count ==> (#[trigger] state.allocated_times(done)).free.len() > 0
                || state.allocated_times(done).has_room(),
    ensures
        state.allocated_times(count).consistent(),
        state.allocated_times(count).in_use_count() == state.in_use_count() + count,
        state.total_allocations + count <= usize::MAX ==> state.allocated_times(
            count,
        ).total_allocations == state.total_allocations + count,
        state.allocated_times(count).ledgers.len() >= state.in_use_count() + count,
    decreases count,
{
    if count > 0 {
        let before = (count - 1) as nat;
        lemma_allocation_count(state, before);
        assert(state.allocated_times(before).free.len() > 0 || state.allocated_times(
            before,
        ).has_room());
        lemma_allocation_step(state.allocated_times(before));
    }
}

/// The size of the chunk that expansion number `k`, counted from zero,
/// carves in a scope that started with chunks of `chunk` and a limit of
/// `limit`.
pub open spec fn chunk_of(chunk: usize, limit: usize, k: nat) -> usize
    decreases k,
{
    if k == 0 {
        chunk
    } else {
        grown(chunk_of(chunk, limit, (k - 1) as nat), limit)
    }
}

/// How many slots the first `k` expansions carve together.
pub open spec fn carved(chunk: usize, limit: usize, k: nat) -> nat
    decreases k,
{
    if k == 0 {
        0
    } else {
        carved(chunk, limit, (k - 1) as nat) + chunk_of(chunk, limit, (k - 1) as nat) as nat
    }
}

/// Every chunk has at least one slot and at most `limit`, so `k` expansions
/// carve at least `k` slots.
pub proof fn lemma_chunks_count(chunk: usize, limit: usize, k: nat)
    requires
        1 <= chunk <= limit,
    ensures
        1 <= chunk_of(chunk, limit, k) <= limit,
        k <= carved(chunk, limit, k),
    decreases k,
{
    if k > 0 {
        lemma_chunks_count(chunk, limit, (k - 1) as nat);
        lemma_growth(chunk_of(chunk, limit, (k - 1) as nat), limit);
    }
}

impl<T> ScopeState<T> {
    /// Nothing was carved and nothing counted yet.
    pub open spec fn untouched(self) -> bool {
        &&& self.ledgers.len() == 0
        &&& self.payloads.len() == 0
        &&& self.free.len() == 0
        &&& self.expansions == 0
        &&& self.total_allocations == 0
    }
}

/// The doubling sequence. Allocate `count` times from a scope that nothing
/// was carved in. Then the chunks carved are the first chunks of the sequence
/// that starts at the scope's chunk size and doubles up to its limit, and
/// there are just as many of them as it takes to hold `count` slots: one
/// chunk fewer would not do.
pub proof fn lemma_doubling_sequence<T>(state: ScopeState<T>, count: nat)
    requires
        state.consistent(),
        state.untouched(),
        forall|done: nat|
            done < count ==> (#[trigger] state.allocated_times(done)).free.len() > 0
                || state.allocated_times(done).has_room(),
    ensures
        ({
            let after = state.allocated_times(count);
            let chunks = after.expansions as nat;
            &&& after.ledgers.len() == carved(state.chunk_size, state.max_chunk_size, chunks)
            &&& after.chunk_size == chunk_of(state.chunk_size, state.max_chunk_size, chunks)
            &&& after.max_chunk_size == state.max_chunk_size
            &&& after.in_use_count() == count
            &&& count == 0 ==> chunks == 0
            &&& count > 0 ==> chunks >= 1 && carved(
                state.chunk_size,
                state.max_chunk_size,
                (chunks - 1) as nat,
            ) < count <= carved(state.chunk_size, state.max_chunk_size, chunks)
        }),
    decreases count,
{
    let chunk = state.chunk_size;
    let limit = state.max_chunk_size;
    if count > 0 {
        let done = (count - 1) as nat;
        let before = state.allocated_times(done);
        let after = state.allocated_times(count);
        lemma_doubling_sequence(state, done);
        lemma_allocation_count(state, done);
        assert(before.free.len() > 0 || before.has_room());
        lemma_allocation_step(before);
        let had = before.expansions as nat;
        lemma_chunks_count(chunk, limit, had);
        lemma_chunks_count(chunk, limit, had + 1);
        if before.free.len() > 0 {
            assert(before.is_handle(before.free[0]));
        } else {
            assert(carved(chunk, limit, had + 1) == carved(chunk, limit, had) + chunk_of(
                chunk,
                limit,
                had,
            ));
            assert(after.ledgers.len() == carved(chunk, limit, had + 1));
            assert(had + 1 <= usize::MAX);
            assert(after.expansions == had + 1);
        }
    }
}

/// Last in, first out: a slot that comes back is the next to be handed out,
/// and handing it out carves nothing. This does not hold of a slot whose
/// counter is exhausted: such a slot is never handed out again.
pub proof fn lemma_last_in_first_out<T>(state: ScopeState<T>, slot: usize)
    requires
        state.consistent(),
        state.in_use(slot),
        state.validity(slot) != RETIRED,
    ensures
        state.deallocated(slot).next_slot() == slot,
        state.deallocated(slot).allocated().ledgers == state.ledgers,
        state.deallocated(slot).allocated().expansions == state.expansions,
        state.deallocated(slot).allocated().free == state.free,
{
    let back = state.deallocated(slot);
    assert(back.free.drop_last() =~= state.free);
}

/// A slot whose counter is exhausted leaves circulation: giving it back
/// changes nothing, so no allocation will ever hand it out.
pub proof fn lemma_exhausted_slot_retires<T>(state: ScopeState<T>, slot: usize)
    requires
        state.in_use(slot),
        state.validity(slot) == RETIRED,
    ensures
        state.deallocated(slot) == state,
        !state.deallocated(slot).free.contains(slot),
{
}

/// The growth policy: a chunk is never smaller than the one before, never
/// larger than the limit, and twice the one before where the limit allows.
pub proof fn lemma_growth(chunk: usize, limit: usize)
    requires
        1 <= chunk <= limit,
    ensures
        chunk <= grown(chunk, limit) <= limit,
        2 * chunk <= limit ==> grown(chunk, limit) == 2 * chunk,
        2 * chunk > limit ==> grown(chunk, limit) == limit,
{
}

} // verus!
