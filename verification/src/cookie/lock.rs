//! The lock-word jar: a reader count beside a writer flag, the shape of a
//! shared/exclusive lock's state. It is the jar of ledgers that a scope shares
//! between threads; the scope serialises access to it.

use vstd::prelude::*;
use crate::cookie::{CookieJar, JarState, ReadCookie, WriteCookie};

verus! {

/// The most readers a `LockJar` counts.
pub const MAX_READERS: u32 = 0xffff_fffe;

/// A jar kept as a reader count and a writer flag.
pub struct LockJar {
    readers: u32,
    writer: bool,
}

/// A read cookie of a `LockJar`.
pub struct LockReadToken {
    _seal: (),
}

/// The write cookie of a `LockJar`.
pub struct LockWriteToken {
    _seal: (),
}

impl LockJar {
    pub closed spec fn raw_readers(&self) -> u32 {
        self.readers
    }

    pub closed spec fn raw_writer(&self) -> bool {
        self.writer
    }
}

impl CookieJar for LockJar {
    type ReadToken = LockReadToken;

    type WriteToken = LockWriteToken;

    open spec fn state(&self) -> JarState {
        JarState {
            readers: self.raw_readers() as nat,
            writers: if self.raw_writer() {
                1
            } else {
                0
            },
        }
    }

    open spec fn capacity() -> nat {
        MAX_READERS as nat
    }

    open spec fn inv(&self) -> bool {
        &&& self.raw_readers() <= MAX_READERS
        &&& self.raw_writer() ==> self.raw_readers() == 0
    }

    proof fn lemma_inv(&self) {
    }

    fn new() -> (jar: Self) {
        LockJar { readers: 0, writer: false }
    }

    fn count(&self) -> (n: u32) {
        if self.writer {
            u32::MAX
        } else {
            self.readers
        }
    }

    fn try_read(&mut self) -> (cookie: Option<LockReadToken>) {
        if !self.writer && self.readers < MAX_READERS {
            self.readers = self.readers + 1;
            Some(LockReadToken { _seal: () })
        } else {
            None
        }
    }

    fn try_write(&mut self) -> (cookie: Option<LockWriteToken>) {
        if !self.writer && self.readers == 0 {
            self.writer = true;
            Some(LockWriteToken { _seal: () })
        } else {
            None
        }
    }

    fn release_read(&mut self, cookie: LockReadToken) {
        self.readers = self.readers - 1;
    }

    fn release_write(&mut self, cookie: LockWriteToken) {
        self.writer = false;
    }

    fn clone_read(&mut self, cookie: &LockReadToken) -> (copy: LockReadToken) {
        self.readers = self.readers + 1;
        LockReadToken { _seal: () }
    }

    fn try_upgrade(&mut self, cookie: LockReadToken) -> (res: Result<
        LockWriteToken,
        LockReadToken,
    >) {
        if !self.writer && self.readers == 1 {
            self.readers = 0;
            self.writer = true;
            Ok(LockWriteToken { _seal: () })
        } else {
            Err(cookie)
        }
    }

    fn downgrade(&mut self, cookie: LockWriteToken) -> (reader: LockReadToken) {
        self.writer = false;
        self.readers = 1;
        LockReadToken { _seal: () }
    }
}

impl ReadCookie<LockJar> for LockReadToken {
    type UpgradesTo = LockWriteToken;

    fn try_upgrade(self, jar: &mut LockJar) -> (res: Result<LockWriteToken, LockReadToken>) {
        jar.try_upgrade(self)
    }

    fn duplicate(&self, jar: &mut LockJar) -> (copy: LockReadToken) {
        jar.clone_read(self)
    }

    fn release(self, jar: &mut LockJar) {
        jar.release_read(self)
    }
}

impl WriteCookie<LockJar> for LockWriteToken {
    type DowngradesTo = LockReadToken;

    fn downgrade(self, jar: &mut LockJar) -> (reader: LockReadToken) {
        jar.downgrade(self)
    }

    fn release(self, jar: &mut LockJar) {
        jar.release_write(self)
    }
}

} // verus!
