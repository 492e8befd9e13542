//! The single-owner jar: one `u32` counts the readers, and its largest value
//! stands for the writer.

use vstd::prelude::*;
use std::rc::Rc;
use std::marker::PhantomData;
use crate::cookie::{CookieJar, JarState, ReadCookie, WriteCookie};

verus! {

/// The count that stands for "a writer holds the jar".
pub const WRITER: u32 = 0xffff_ffff;

/// A jar kept in one counter. `0` is idle, `WRITER` is the writer, and any
/// value between is that many readers.
pub struct CellJar {
    count: u32,
}

/// A read cookie of a `CellJar`: handing it back decrements the counter. It
/// stays on the thread that took it.
pub struct CellDecr {
    _confined: PhantomData<Rc<()>>,
}

/// The write cookie of a `CellJar`: handing it back zeroes the counter. It
/// stays on the thread that took it.
pub struct CellZero {
    _confined: PhantomData<Rc<()>>,
}

impl CellJar {
    /// The raw counter.
    pub closed spec fn raw(&self) -> u32 {
        self.count
    }

    /// What a raw counter value means.
    pub open spec fn decode(raw: u32) -> JarState {
        if raw == WRITER {
            JarState { readers: 0, writers: 1 }
        } else {
            JarState { readers: raw as nat, writers: 0 }
        }
    }
}

impl CookieJar for CellJar {
    type ReadToken = CellDecr;

    type WriteToken = CellZero;

    open spec fn state(&self) -> JarState {
        Self::decode(self.raw())
    }

    open spec fn capacity() -> nat {
        (WRITER - 1) as nat
    }

    open spec fn inv(&self) -> bool {
        true
    }

    proof fn lemma_inv(&self) {
    }

    fn new() -> (jar: Self) {
        CellJar { count: 0 }
    }

    fn count(&self) -> (n: u32) {
        self.count
    }

    fn try_read(&mut self) -> (cookie: Option<CellDecr>) {
        let n = self.count;
        if n < WRITER - 1 {
            self.count = n + 1;
            Some(CellDecr { _confined: PhantomData })
        } else {
            None
        }
    }

    fn try_write(&mut self) -> (cookie: Option<CellZero>) {
        if self.count == 0 {
            self.count = WRITER;
            Some(CellZero { _confined: PhantomData })
        } else {
            None
        }
    }

    fn release_read(&mut self, cookie: CellDecr) {
        self.count = self.count - 1;
    }

    fn release_write(&mut self, cookie: CellZero) {
        self.count = 0;
    }

    fn clone_read(&mut self, cookie: &CellDecr) -> (copy: CellDecr) {
        self.count = self.count + 1;
        CellDecr { _confined: PhantomData }
    }

    fn try_upgrade(&mut self, cookie: CellDecr) -> (res: Result<CellZero, CellDecr>) {
        if self.count == 1 {
            self.count = WRITER;
            Ok(CellZero { _confined: PhantomData })
        } else {
            Err(cookie)
        }
    }

    fn downgrade(&mut self, cookie: CellZero) -> (reader: CellDecr) {
        self.count = 1;
        CellDecr { _confined: PhantomData }
    }
}

impl ReadCookie<CellJar> for CellDecr {
    type UpgradesTo = CellZero;

    fn try_upgrade(self, jar: &mut CellJar) -> (res: Result<CellZero, CellDecr>) {
        jar.try_upgrade(self)
    }

    fn duplicate(&self, jar: &mut CellJar) -> (copy: CellDecr) {
        jar.clone_read(self)
    }

    fn release(self, jar: &mut CellJar) {
        jar.release_read(self)
    }
}

impl WriteCookie<CellJar> for CellZero {
    type DowngradesTo = CellDecr;

    fn downgrade(self, jar: &mut CellJar) -> (reader: CellDecr) {
        jar.downgrade(self)
    }

    fn release(self, jar: &mut CellJar) {
        jar.release_write(self)
    }
}

} // verus!
