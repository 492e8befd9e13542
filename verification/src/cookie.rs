//! Permission cookies: the reader/writer state machine that guards one ledger.
//!
//! A jar hands out read cookies (shared access) and write cookies (exclusive
//! access). A cookie is evidence that the jar counted its holder in; handing
//! it back to the jar counts the holder out again. The jar, not the cookie,
//! holds the state, so every operation on a cookie names the jar it came
//! from.

use vstd::prelude::*;

pub mod cell;
pub mod lock;

verus! {

/// How many cookies of each kind a jar has outstanding.
pub struct JarState {
    /// Live read cookies.
    pub readers: nat,
    /// Live write cookies.
    pub writers: nat,
}

impl JarState {
    /// No reader and no writer.
    pub open spec fn idle() -> JarState {
        JarState { readers: 0, writers: 0 }
    }

    pub open spec fn is_idle(self) -> bool {
        self.readers == 0 && self.writers == 0
    }

    /// At most one writer, and never a writer together with a reader.
    pub open spec fn exclusive(self) -> bool {
        self.writers <= 1 && (self.writers == 1 ==> self.readers == 0)
    }

    /// A further read cookie may be handed out by a jar that can count
    /// `capacity` readers.
    pub open spec fn can_read(self, capacity: nat) -> bool {
        self.writers == 0 && self.readers < capacity
    }

    /// A write cookie may be handed out.
    pub open spec fn can_write(self) -> bool {
        self.readers == 0 && self.writers == 0
    }

    /// The one outstanding read cookie may become a write cookie.
    pub open spec fn can_upgrade(self) -> bool {
        self.readers == 1 && self.writers == 0
    }

    pub open spec fn add_reader(self) -> JarState {
        JarState { readers: self.readers + 1, writers: self.writers }
    }

    pub open spec fn drop_reader(self) -> JarState {
        JarState { readers: (self.readers - 1) as nat, writers: self.writers }
    }

    pub open spec fn add_writer(self) -> JarState {
        JarState { readers: self.readers, writers: self.writers + 1 }
    }

    pub open spec fn drop_writer(self) -> JarState {
        JarState { readers: self.readers, writers: (self.writers - 1) as nat }
    }

    /// One reader leaves and one writer arrives, in a single step.
    pub open spec fn upgraded(self) -> JarState {
        JarState { readers: (self.readers - 1) as nat, writers: self.writers + 1 }
    }

    /// One writer leaves and one reader arrives, in a single step.
    pub open spec fn downgraded(self) -> JarState {
        JarState { readers: self.readers + 1, writers: (self.writers - 1) as nat }
    }
}

/// One operation on a jar.
pub enum JarOp {
    /// Ask for a read cookie.
    AcquireRead,
    /// Ask for the write cookie.
    AcquireWrite,
    /// Hand a read cookie back.
    ReleaseRead,
    /// Hand the write cookie back.
    ReleaseWrite,
    /// Ask for one more read cookie while holding one.
    CloneRead,
    /// Ask to turn a read cookie into the write cookie.
    Upgrade,
    /// Turn the write cookie into a read cookie.
    Downgrade,
}

impl JarState {
    /// Whether somebody can perform `op`: the operations that consume or
    /// present a cookie need a live cookie of that kind.
    pub open spec fn enabled(self, op: JarOp, capacity: nat) -> bool {
        match op {
            JarOp::AcquireRead | JarOp::AcquireWrite => true,
            JarOp::ReleaseRead | JarOp::Upgrade => self.readers >= 1,
            JarOp::CloneRead => 1 <= self.readers < capacity,
            JarOp::ReleaseWrite | JarOp::Downgrade => self.writers >= 1,
        }
    }

    /// The state after `op`. A refused acquisition or upgrade leaves the
    /// state as it was.
    pub open spec fn step(self, op: JarOp, capacity: nat) -> JarState {
        match op {
            JarOp::AcquireRead => if self.can_read(capacity) {
                self.add_reader()
            } else {
                self
            },
            JarOp::AcquireWrite => if self.can_write() {
                self.add_writer()
            } else {
                self
            },
            JarOp::ReleaseRead => self.drop_reader(),
            JarOp::ReleaseWrite => self.drop_writer(),
            JarOp::CloneRead => self.add_reader(),
            JarOp::Upgrade => if self.can_upgrade() {
                self.upgraded()
            } else {
                self
            },
            JarOp::Downgrade => self.downgraded(),
        }
    }

    /// Every operation of `ops` is enabled when its turn comes.
    pub open spec fn admits(self, ops: Seq<JarOp>, capacity: nat) -> bool
        decreases ops.len(),
    {
        ops.len() == 0 || (self.enabled(ops[0], capacity) && self.step(ops[0], capacity).admits(
            ops.drop_first(),
            capacity,
        ))
    }

    /// The state after all of `ops`, in order.
    pub open spec fn run(self, ops: Seq<JarOp>, capacity: nat) -> JarState
        decreases ops.len(),
    {
        if ops.len() == 0 {
            self
        } else {
            self.step(ops[0], capacity).run(ops.drop_first(), capacity)
        }
    }
}

/// One enabled operation keeps a jar exclusive.
pub proof fn lemma_step_exclusive(s: JarState, op: JarOp, capacity: nat)
    requires
        s.exclusive(),
        s.enabled(op, capacity),
    ensures
        s.step(op, capacity).exclusive(),
{
}

/// Exclusivity: whatever operations are performed on a jar, in whatever
/// order, there is never more than one write cookie alive, and never a write
/// cookie together with a read cookie.
pub proof fn lemma_exclusive_always(s: JarState, ops: Seq<JarOp>, capacity: nat)
    requires
        s.exclusive(),
        s.admits(ops, capacity),
    ensures
        s.run(ops, capacity).exclusive(),
    decreases ops.len(),
{
    if ops.len() > 0 {
        lemma_step_exclusive(s, ops[0], capacity);
        lemma_exclusive_always(s.step(ops[0], capacity), ops.drop_first(), capacity);
    }
}

/// Upgrade is all or nothing: it either moves the one reader over to the
/// writer's side, or changes nothing at all.
pub proof fn lemma_upgrade_atomic(s: JarState, capacity: nat)
    requires
        s.exclusive(),
        s.enabled(JarOp::Upgrade, capacity),
    ensures
        s.can_upgrade() ==> s.step(JarOp::Upgrade, capacity) == (JarState {
            readers: 0,
            writers: 1,
        }),
        !s.can_upgrade() ==> s.step(JarOp::Upgrade, capacity) == s,
{
}

/// A permission state machine that answers "may I read" and "may I write".
///
/// None of the operations waits. `read` and `write` are the entry points for
/// callers that would be willing to wait; a jar that has nobody to wait for
/// answers them as `try_read` and `try_write` do, and `None` then means that
/// waiting could never end.
pub trait CookieJar: Sized {
    /// Evidence of one counted reader.
    type ReadToken;

    /// Evidence of the one counted writer.
    type WriteToken;

    /// The cookies outstanding.
    spec fn state(&self) -> JarState;

    /// The largest number of readers this kind of jar can count.
    spec fn capacity() -> nat;

    /// The representation is consistent.
    spec fn inv(&self) -> bool;

    /// A consistent jar is exclusive and within its capacity.
    proof fn lemma_inv(&self)
        requires
            self.inv(),
        ensures
            self.state().exclusive(),
            self.state().readers <= Self::capacity(),
            1 <= Self::capacity() < u32::MAX,
    ;

    /// An idle jar.
    fn new() -> (jar: Self)
        ensures
            jar.inv(),
            jar.state() == JarState::idle(),
    ;

    /// The number of readers, or `u32::MAX` while a writer holds the jar.
    fn count(&self) -> (n: u32)
        requires
            self.inv(),
        ensures
            self.state().writers == 0 ==> n == self.state().readers,
            self.state().writers != 0 ==> n == u32::MAX,
    ;

    /// Hands out a read cookie unless a writer holds the jar or the reader
    /// count is at capacity.
    fn try_read(&mut self) -> (cookie: Option<Self::ReadToken>)
        requires
            old(self).inv(),
        ensures
            final(self).inv(),
            final(self).state() == old(self).state().step(JarOp::AcquireRead, Self::capacity()),
            cookie.is_some() <==> old(self).state().can_read(Self::capacity()),
    ;

    /// Hands out the write cookie if the jar is idle.
    fn try_write(&mut self) -> (cookie: Option<Self::WriteToken>)
        requires
            old(self).inv(),
        ensures
            final(self).inv(),
            final(self).state() == old(self).state().step(JarOp::AcquireWrite, Self::capacity()),
            cookie.is_some() <==> old(self).state().can_write(),
    ;

    /// As `try_read`, for a caller that would wait.
    fn read(&mut self) -> (cookie: Option<Self::ReadToken>)
        requires
            old(self).inv(),
        ensures
            final(self).inv(),
            final(self).state() == old(self).state().step(JarOp::AcquireRead, Self::capacity()),
            cookie.is_some() <==> old(self).state().can_read(Self::capacity()),
    {
        self.try_read()
    }

    /// As `try_write`, for a caller that would wait.
    fn write(&mut self) -> (cookie: Option<Self::WriteToken>)
        requires
            old(self).inv(),
        ensures
            final(self).inv(),
            final(self).state() == old(self).state().step(JarOp::AcquireWrite, Self::capacity()),
            cookie.is_some() <==> old(self).state().can_write(),
    {
        self.try_write()
    }

    /// Takes a read cookie back: one reader fewer.
    fn release_read(&mut self, cookie: Self::ReadToken)
        requires
            old(self).inv(),
            old(self).state().readers >= 1,
        ensures
            final(self).inv(),
            final(self).state() == old(self).state().step(JarOp::ReleaseRead, Self::capacity()),
    ;

    /// Takes the write cookie back: the jar is idle again.
    fn release_write(&mut self, cookie: Self::WriteToken)
        requires
            old(self).inv(),
            old(self).state().writers >= 1,
        ensures
            final(self).inv(),
            final(self).state() == old(self).state().step(JarOp::ReleaseWrite, Self::capacity()),
    ;

    /// Hands out one more read cookie to a holder of one.
    fn clone_read(&mut self, cookie: &Self::ReadToken) -> (copy: Self::ReadToken)
        requires
            old(self).inv(),
            1 <= old(self).state().readers < Self::capacity(),
        ensures
            final(self).inv(),
            final(self).state() == old(self).state().step(JarOp::CloneRead, Self::capacity()),
    ;

    /// Turns a read cookie into the write cookie if it is the only cookie
    /// outstanding; otherwise gives it back and leaves the jar as it was.
    fn try_upgrade(&mut self, cookie: Self::ReadToken) -> (res: Result<
        Self::WriteToken,
        Self::ReadToken,
    >)
        requires
            old(self).inv(),
            old(self).state().readers >= 1,
        ensures
            final(self).inv(),
            final(self).state() == old(self).state().step(JarOp::Upgrade, Self::capacity()),
            res.is_ok() <==> old(self).state().can_upgrade(),
            res.is_err() ==> res->Err_0 == cookie,
    ;

    /// Turns the write cookie into the only read cookie.
    fn downgrade(&mut self, cookie: Self::WriteToken) -> (reader: Self::ReadToken)
        requires
            old(self).inv(),
            old(self).state().writers >= 1,
        ensures
            final(self).inv(),
            final(self).state() == old(self).state().step(JarOp::Downgrade, Self::capacity()),
    ;
}

/// A cookie representing permission to take shared references to a resource.
pub trait ReadCookie<J: CookieJar>: Sized {
    /// The cookie that a successful upgrade gives.
    type UpgradesTo;

    /// Attempts to turn this cookie into permission for exclusive access.
    /// Succeeds exactly when this is the only cookie outstanding on `jar`;
    /// on failure the cookie comes back and `jar` is untouched.
    fn try_upgrade(self, jar: &mut J) -> (res: Result<Self::UpgradesTo, Self>)
        requires
            old(jar).inv(),
            old(jar).state().readers >= 1,
        ensures
            final(jar).inv(),
            final(jar).state() == old(jar).state().step(JarOp::Upgrade, J::capacity()),
            res.is_ok() <==> old(jar).state().can_upgrade(),
            res.is_err() ==> res->Err_0 == self,
    ;

    /// Acquires one more unit of shared access on `jar`.
    fn duplicate(&self, jar: &mut J) -> (copy: Self)
        requires
            old(jar).inv(),
            1 <= old(jar).state().readers < J::capacity(),
        ensures
            final(jar).inv(),
            final(jar).state() == old(jar).state().step(JarOp::CloneRead, J::capacity()),
    ;

    /// Gives up this unit of shared access.
    fn release(self, jar: &mut J)
        requires
            old(jar).inv(),
            old(jar).state().readers >= 1,
        ensures
            final(jar).inv(),
            final(jar).state() == old(jar).state().step(JarOp::ReleaseRead, J::capacity()),
    ;
}

/// A cookie representing permission to take exclusive reference to a resource.
pub trait WriteCookie<J: CookieJar>: Sized {
    /// The cookie that a downgrade gives.
    type DowngradesTo;

    /// Relinquishes exclusive access but keeps shared access. Always succeeds.
    fn downgrade(self, jar: &mut J) -> (reader: Self::DowngradesTo)
        requires
            old(jar).inv(),
            old(jar).state().writers >= 1,
        ensures
            final(jar).inv(),
            final(jar).state() == old(jar).state().step(JarOp::Downgrade, J::capacity()),
    ;

    /// Gives up exclusive access.
    fn release(self, jar: &mut J)
        requires
            old(jar).inv(),
            old(jar).state().writers >= 1,
        ensures
            final(jar).inv(),
            final(jar).state() == old(jar).state().step(JarOp::ReleaseWrite, J::capacity()),
    ;
}

} // verus!
