//! The ledger of a scope that one thread or one task owns.

use vstd::prelude::*;
use std::rc::Rc;
use std::marker::PhantomData;
use crate::cookie::cell::CellJar;
use crate::cookie::CookieJar;
use crate::ledgers::Ledger;

verus! {

/// A ledger for slots that never leave their owner's thread or task: a plain
/// counter and a counter-cell jar. It stays on the thread that made it.
pub struct SiloedLedger {
    count: u64,
    lock: CellJar,
    _confined: PhantomData<Rc<()>>,
}

impl SiloedLedger {
    /// A ledger with its counter at one and an idle jar.
    pub fn new() -> (ledger: Self)
        ensures
            ledger.reallocation_spec() == 1,
            ledger.cookie_spec().inv(),
            ledger.cookie_spec().state() == crate::cookie::JarState::idle(),
    {
        SiloedLedger { count: 1, lock: CellJar::new(), _confined: PhantomData }
    }
}

impl Default for SiloedLedger {
    fn default() -> (ledger: Self)
        ensures
            ledger.reallocation_spec() == 1,
            ledger.cookie_spec().inv(),
            ledger.cookie_spec().state() == crate::cookie::JarState::idle(),
    {
        SiloedLedger::new()
    }
}

impl Ledger for SiloedLedger {
    type Cookies = CellJar;

    closed spec fn reallocation_spec(&self) -> u64 {
        self.count
    }

    closed spec fn cookie_spec(&self) -> CellJar {
        self.lock
    }

    fn new() -> (ledger: Self) {
        SiloedLedger { count: 1, lock: CellJar::new(), _confined: PhantomData }
    }

    fn cookie(&self) -> (jar: &CellJar) {
        &self.lock
    }

    fn cookie_mut(&mut self) -> (jar: &mut CellJar) {
        &mut self.lock
    }

    fn reallocation(&self) -> (validity: u64) {
        self.count
    }

    fn bump(&mut self) {
        self.count = self.count.saturating_add(1);
    }
}

} // verus!
