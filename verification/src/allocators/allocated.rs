//! The handle of an allocated slot, and the slot's ledger and payload as
//! they are reached through the scope that holds them.

use vstd::prelude::*;
use std::marker::PhantomData;
use crate::allocators::{
    jar_capacity, lemma_ledger_changed, lemma_payload_changed, scope_inv, scope_state,
    LedgerAllocator, Scope,
};
use crate::cookie::{CookieJar, JarOp};
use crate::ledgerbooks::LedgerBook;
use crate::ledgers::Ledger;

verus! {

/// The jar of the ledgers of a scope of type `A`.
pub type JarOf<A> = <<A as Scope>::WrappedLedger as Ledger>::Cookies;

/// The read cookie of the ledgers of a scope of type `A`.
pub type ReadTokenOf<A> = <<<A as Scope>::WrappedLedger as Ledger>::Cookies as CookieJar>::ReadToken;

/// The write cookie of the ledgers of a scope of type `A`.
pub type WriteTokenOf<A> = <<<A as Scope>::WrappedLedger as Ledger>::Cookies as CookieJar>::WriteToken;

/// The handles that a free list may hold, as a book of plain positions and a
/// scope's typed handles both are.
pub trait RefLike: Copy + Sized {
    /// The position of the slot.
    spec fn position(self) -> usize;

    /// The plain position of the slot.
    fn to_ptr(self) -> (ptr: usize)
        ensures
            ptr == self.position(),
    ;

    /// The handle for the slot at `ptr`.
    fn from_ptr(ptr: usize) -> (handle: Self)
        ensures
            handle.position() == ptr,
    ;
}

impl RefLike for usize {
    open spec fn position(self) -> usize {
        self
    }

    fn to_ptr(self) -> (ptr: usize) {
        self
    }

    fn from_ptr(ptr: usize) -> (handle: usize) {
        ptr
    }
}

/// The handle of a slot of a scope of type `A`. It is only ever made by
/// `A::alloc_ledger`, and is good for the scope that made it.
pub struct AllocatedLedger<A> {
    inner: usize,
    _scope: PhantomData<A>,
}

impl<A> Clone for AllocatedLedger<A> {
    fn clone(&self) -> (copy: Self)
        ensures
            copy == *self,
    {
        AllocatedLedger { inner: self.inner, _scope: PhantomData }
    }
}

impl<A> Copy for AllocatedLedger<A> {

}

impl<A> AllocatedLedger<A> {
    /// The position of the slot in its scope's book.
    pub closed spec fn slot(self) -> usize {
        self.inner
    }

    /// The position of the slot in its scope's book.
    pub fn inner(&self) -> (slot: usize)
        ensures
            slot == self.slot(),
    {
        self.inner
    }

    /// The typed handle of the slot that the scope's book knows as `ptr`.
    pub(crate) fn from_inner_ptr(ptr: usize) -> (ledger: Self)
        ensures
            ledger.slot() == ptr,
    {
        AllocatedLedger { inner: ptr, _scope: PhantomData }
    }

    /// The handle by which the scope's book knows the slot.
    pub fn into_inner_ptr(self) -> (ptr: usize)
        ensures
            ptr == self.slot(),
    {
        self.inner
    }
}

impl<A> RefLike for AllocatedLedger<A> {
    open spec fn position(self) -> usize {
        self.slot()
    }

    fn to_ptr(self) -> (ptr: usize) {
        self.into_inner_ptr()
    }

    fn from_ptr(ptr: usize) -> (handle: Self) {
        AllocatedLedger::from_inner_ptr(ptr)
    }
}

impl<A: Scope> AllocatedLedger<A> {
    /// The validity counter of the slot.
    pub fn reallocation(&self, scope: &A) -> (validity: u64)
        requires
            scope_state(*scope).is_handle(self.slot()),
        ensures
            validity == scope_state(*scope).validity(self.slot()),
    {
        scope.book().ledger(self.inner).reallocation()
    }

    /// Retires the occupant of the slot: the counter goes up by one, or
    /// stays at its last value for good.
    pub fn bump(&self, scope: &mut A)
        requires
            scope_inv(*old(scope)),
            scope_state(*old(scope)).in_use(self.slot()),
        ensures
            scope_inv(*final(scope)),
            scope_state(*final(scope)) == scope_state(*old(scope)).retired(self.slot()),
    {
        scope.book_mut().ledger_mut(self.inner).bump();
        proof {
            crate::ledgers::lemma_bumped_grows(scope_state(*old(scope)).validity(self.slot()));
            lemma_ledger_changed(*old(scope), *scope, self.inner);
        }
    }

    /// The jar of the slot.
    pub fn cookie<'a>(&self, scope: &'a A) -> (jar: &'a JarOf<A>)
        requires
            scope_state(*scope).is_handle(self.slot()),
        ensures
            jar.state() == scope_state(*scope).jar(self.slot()),
            scope_inv(*scope) ==> jar.inv(),
    {
        scope.book().ledger(self.inner).cookie()
    }

    /// Asks the slot's jar for a read cookie.
    pub fn try_read(&self, scope: &mut A) -> (cookie: Option<ReadTokenOf<A>>)
        requires
            scope_inv(*old(scope)),
            scope_state(*old(scope)).occupied(self.slot()),
        ensures
            scope_inv(*final(scope)),
            cookie.is_some() <==> scope_state(*old(scope)).jar(self.slot()).can_read(
                jar_capacity::<A>(),
            ),
            scope_state(*final(scope)) == scope_state(*old(scope)).stepped(
                self.slot(),
                JarOp::AcquireRead,
                jar_capacity::<A>(),
            ),
    {
        let cookie = scope.book_mut().ledger_mut(self.inner).cookie_mut().try_read();
        proof {
            lemma_ledger_changed(*old(scope), *scope, self.inner);
        }
        cookie
    }

    /// Asks the slot's jar for a read cookie, as a caller that would wait.
    pub fn read(&self, scope: &mut A) -> (cookie: Option<ReadTokenOf<A>>)
        requires
            scope_inv(*old(scope)),
            scope_state(*old(scope)).occupied(self.slot()),
        ensures
            scope_inv(*final(scope)),
            cookie.is_some() <==> scope_state(*old(scope)).jar(self.slot()).can_read(
                jar_capacity::<A>(),
            ),
            scope_state(*final(scope)) == scope_state(*old(scope)).stepped(
                self.slot(),
                JarOp::AcquireRead,
                jar_capacity::<A>(),
            ),
    {
        let cookie = scope.book_mut().ledger_mut(self.inner).cookie_mut().read();
        proof {
            lemma_ledger_changed(*old(scope), *scope, self.inner);
        }
        cookie
    }

    /// Asks the slot's jar for the write cookie.
    pub fn try_write(&self, scope: &mut A) -> (cookie: Option<WriteTokenOf<A>>)
        requires
            scope_inv(*old(scope)),
            scope_state(*old(scope)).occupied(self.slot()),
        ensures
            scope_inv(*final(scope)),
            cookie.is_some() <==> scope_state(*old(scope)).jar(self.slot()).can_write(),
            scope_state(*final(scope)) == scope_state(*old(scope)).stepped(
                self.slot(),
                JarOp::AcquireWrite,
                jar_capacity::<A>(),
            ),
    {
        let cookie = scope.book_mut().ledger_mut(self.inner).cookie_mut().try_write();
        proof {
            lemma_ledger_changed(*old(scope), *scope, self.inner);
        }
        cookie
    }

    /// Asks the slot's jar for the write cookie, as a caller that would
    /// wait.
    pub fn write(&self, scope: &mut A) -> (cookie: Option<WriteTokenOf<A>>)
        requires
            scope_inv(*old(scope)),
            scope_state(*old(scope)).occupied(self.slot()),
        ensures
            scope_inv(*final(scope)),
            cookie.is_some() <==> scope_state(*old(scope)).jar(self.slot()).can_write(),
            scope_state(*final(scope)) == scope_state(*old(scope)).stepped(
                self.slot(),
                JarOp::AcquireWrite,
                jar_capacity::<A>(),
            ),
    {
        let cookie = scope.book_mut().ledger_mut(self.inner).cookie_mut().write();
        proof {
            lemma_ledger_changed(*old(scope), *scope, self.inner);
        }
        cookie
    }

    /// Hands a read cookie back to the slot's jar.
    pub fn release_read(&self, scope: &mut A, cookie: ReadTokenOf<A>)
        requires
            scope_inv(*old(scope)),
            scope_state(*old(scope)).is_handle(self.slot()),
            scope_state(*old(scope)).jar(self.slot()).readers >= 1,
        ensures
            scope_inv(*final(scope)),
            scope_state(*final(scope)) == scope_state(*old(scope)).stepped(
                self.slot(),
                JarOp::ReleaseRead,
                jar_capacity::<A>(),
            ),
    {
        proof {
            lemma_cookie_out(*old(scope), self.inner);
        }
        scope.book_mut().ledger_mut(self.inner).cookie_mut().release_read(cookie);
        proof {
            lemma_ledger_changed(*old(scope), *scope, self.inner);
        }
    }

    /// Hands the write cookie back to the slot's jar.
    pub fn release_write(&self, scope: &mut A, cookie: WriteTokenOf<A>)
        requires
            scope_inv(*old(scope)),
            scope_state(*old(scope)).is_handle(self.slot()),
            scope_state(*old(scope)).jar(self.slot()).writers >= 1,
        ensures
            scope_inv(*final(scope)),
            scope_state(*final(scope)) == scope_state(*old(scope)).stepped(
                self.slot(),
                JarOp::ReleaseWrite,
                jar_capacity::<A>(),
            ),
    {
        proof {
            lemma_cookie_out(*old(scope), self.inner);
        }
        scope.book_mut().ledger_mut(self.inner).cookie_mut().release_write(cookie);
        proof {
            lemma_ledger_changed(*old(scope), *scope, self.inner);
        }
    }

    /// Asks the slot's jar for one more read cookie.
    pub fn clone_read(&self, scope: &mut A, cookie: &ReadTokenOf<A>) -> (copy: ReadTokenOf<A>)
        requires
            scope_inv(*old(scope)),
            scope_state(*old(scope)).is_handle(self.slot()),
            1 <= scope_state(*old(scope)).jar(self.slot()).readers < jar_capacity::<A>(),
        ensures
            scope_inv(*final(scope)),
            scope_state(*final(scope)) == scope_state(*old(scope)).stepped(
                self.slot(),
                JarOp::CloneRead,
                jar_capacity::<A>(),
            ),
    {
        proof {
            lemma_cookie_out(*old(scope), self.inner);
        }
        let copy = scope.book_mut().ledger_mut(self.inner).cookie_mut().clone_read(cookie);
        proof {
            lemma_ledger_changed(*old(scope), *scope, self.inner);
        }
        copy
    }

    /// Asks the slot's jar to turn a read cookie into the write cookie.
    pub fn try_upgrade(&self, scope: &mut A, cookie: ReadTokenOf<A>) -> (res: Result<
        WriteTokenOf<A>,
        ReadTokenOf<A>,
    >)
        requires
            scope_inv(*old(scope)),
            scope_state(*old(scope)).is_handle(self.slot()),
            scope_state(*old(scope)).jar(self.slot()).readers >= 1,
        ensures
            scope_inv(*final(scope)),
            res.is_ok() <==> scope_state(*old(scope)).jar(self.slot()).can_upgrade(),
            res.is_err() ==> res->Err_0 == cookie,
            scope_state(*final(scope)) == scope_state(*old(scope)).stepped(
                self.slot(),
                JarOp::Upgrade,
                jar_capacity::<A>(),
            ),
    {
        proof {
            lemma_cookie_out(*old(scope), self.inner);
        }
        let res = scope.book_mut().ledger_mut(self.inner).cookie_mut().try_upgrade(cookie);
        proof {
            lemma_ledger_changed(*old(scope), *scope, self.inner);
        }
        res
    }

    /// Turns the write cookie of the slot's jar into its only read cookie.
    pub fn downgrade(&self, scope: &mut A, cookie: WriteTokenOf<A>) -> (reader: ReadTokenOf<A>)
        requires
            scope_inv(*old(scope)),
            scope_state(*old(scope)).is_handle(self.slot()),
            scope_state(*old(scope)).jar(self.slot()).writers >= 1,
        ensures
            scope_inv(*final(scope)),
            scope_state(*final(scope)) == scope_state(*old(scope)).stepped(
                self.slot(),
                JarOp::Downgrade,
                jar_capacity::<A>(),
            ),
    {
        proof {
            lemma_cookie_out(*old(scope), self.inner);
        }
        let reader = scope.book_mut().ledger_mut(self.inner).cookie_mut().downgrade(cookie);
        proof {
            lemma_ledger_changed(*old(scope), *scope, self.inner);
        }
        reader
    }

    /// Puts `value` into the slot, in place of what it held.
    pub fn put(&self, scope: &mut A, value: A::Payload)
        requires
            scope_inv(*old(scope)),
            scope_state(*old(scope)).in_use(self.slot()),
        ensures
            scope_inv(*final(scope)),
            scope_state(*final(scope)) == scope_state(*old(scope)).with_payload(
                self.slot(),
                Some(value),
            ),
    {
        let data = scope.payloads_mut();
        data[self.inner] = Some(value);
        proof {
            lemma_payload_changed(*old(scope), *scope, self.inner);
        }
    }

    /// Takes the payload out of a slot that has no cookie out.
    pub fn take(&self, scope: &mut A) -> (payload: Option<A::Payload>)
        requires
            scope_inv(*old(scope)),
            scope_state(*old(scope)).is_handle(self.slot()),
            scope_state(*old(scope)).jar(self.slot()).is_idle(),
        ensures
            scope_inv(*final(scope)),
            payload == scope_state(*old(scope)).payload(self.slot()),
            scope_state(*final(scope)) == scope_state(*old(scope)).with_payload(self.slot(), None),
    {
        let data = scope.payloads_mut();
        let payload = data[self.inner].take();
        proof {
            lemma_payload_changed(*old(scope), *scope, self.inner);
        }
        payload
    }

    /// Whether the slot holds a payload.
    pub fn is_occupied(&self, scope: &A) -> (occupied: bool)
        requires
            scope_inv(*scope),
            scope_state(*scope).is_handle(self.slot()),
        ensures
            occupied == scope_state(*scope).occupied(self.slot()),
    {
        scope.payloads()[self.inner].is_some()
    }

    /// The payload of an occupied slot, to change it.
    pub fn get_mut<'a>(&self, scope: &'a mut A) -> (payload: &'a mut A::Payload)
        requires
            scope_inv(*old(scope)),
            scope_state(*old(scope)).occupied(self.slot()),
        ensures
            Some(*payload) == scope_state(*old(scope)).payload(self.slot()),
            scope_state(*final(scope)) == scope_state(*old(scope)).with_payload(
                self.slot(),
                Some(*final(payload)),
            ),
            scope_inv(*final(scope)),
    {
        proof {
            lemma_occupied_in_use(*old(scope), self.inner);
            let before = *old(scope);
            let slot = self.inner;
            assert forall|after: A|
                after.book_spec() == before.book_spec() && after.guard_idle() && after.payloads_spec()
                    == before.payloads_spec().update(slot as int, after.payloads_spec()[slot as int])
                    && after.payloads_spec()[slot as int].is_some() implies #[trigger] scope_inv(
                after,
            ) && scope_state(after) == scope_state(before).with_payload(
                slot,
                after.payloads_spec()[slot as int],
            ) by {
                lemma_payload_changed(before, after, slot);
            }
        }
        let data = scope.payloads_mut();
        data[self.inner].as_mut().unwrap()
    }

    /// The payload of an occupied slot.
    pub fn get<'a>(&self, scope: &'a A) -> (payload: &'a A::Payload)
        requires
            scope_state(*scope).occupied(self.slot()),
            scope_state(*scope).payloads.len() == scope_state(*scope).ledgers.len(),
        ensures
            Some(*payload) == scope_state(*scope).payload(self.slot()),
    {
        scope.payloads()[self.inner].as_ref().unwrap()
    }
}

impl<A: LedgerAllocator> AllocatedLedger<A> {
    /// Gives the slot back to its scope. The slot has no payload, hence no
    /// cookie out.
    pub fn free(self, scope: &mut A)
        requires
            scope_inv(*old(scope)),
            scope_state(*old(scope)).in_use(self.slot()),
            scope_state(*old(scope)).payload(self.slot()).is_none(),
        ensures
            scope_inv(*final(scope)),
            scope_state(*final(scope)) == scope_state(*old(scope)).deallocated(self.slot()),
    {
        scope.free(self)
    }
}

/// An occupied slot is not free.
pub proof fn lemma_occupied_in_use<A: Scope>(scope: A, slot: usize)
    requires
        scope_inv(scope),
        scope_state(scope).occupied(slot),
    ensures
        scope_state(scope).in_use(slot),
{
    let state = scope_state(scope);
    if state.free.contains(slot) {
        let i = choose|i: int| 0 <= i < state.free.len() && state.free[i] == slot;
        assert(state.payload(state.free[i]).is_none());
    }
}

/// A slot with a cookie out holds a payload, so it is not free.
pub proof fn lemma_cookie_out<A: Scope>(scope: A, slot: usize)
    requires
        scope_inv(scope),
        scope_state(scope).is_handle(slot),
        !scope_state(scope).jar(slot).is_idle(),
    ensures
        scope_state(scope).occupied(slot),
        scope_state(scope).in_use(slot),
{
    let state = scope_state(scope);
    assert(state.payloads[slot as int].is_some());
    if state.free.contains(slot) {
        let i = choose|i: int| 0 <= i < state.free.len() && state.free[i] == slot;
        assert(state.payload(state.free[i]).is_none());
    }
}

} // verus!
