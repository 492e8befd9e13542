//! The ledger of a scope that threads share.

use vstd::prelude::*;
use crate::cookie::lock::LockJar;
use crate::cookie::CookieJar;
use crate::ledgers::Ledger;

verus! {

/// A ledger for slots of a scope that several threads use. The scope
/// serialises every access to it; the ledger keeps a lock-word jar.
pub struct SyncLedger {
    count: u64,
    lock: LockJar,
}

impl SyncLedger {
    /// A ledger with its counter at one and an idle jar.
    pub fn new() -> (ledger: Self)
        ensures
            ledger.reallocation_spec() == 1,
            ledger.cookie_spec().inv(),
            ledger.cookie_spec().state() == crate::cookie::JarState::idle(),
    {
        SyncLedger { count: 1, lock: LockJar::new() }
    }
}

impl Default for SyncLedger {
    fn default() -> (ledger: Self)
        ensures
            ledger.reallocation_spec() == 1,
            ledger.cookie_spec().inv(),
            ledger.cookie_spec().state() == crate::cookie::JarState::idle(),
    {
        SyncLedger::new()
    }
}

impl Ledger for SyncLedger {
    type Cookies = LockJar;

    closed spec fn reallocation_spec(&self) -> u64 {
        self.count
    }

    closed spec fn cookie_spec(&self) -> LockJar {
        self.lock
    }

    fn new() -> (ledger: Self) {
        SyncLedger { count: 1, lock: LockJar::new() }
    }

    fn cookie(&self) -> (jar: &LockJar) {
        &self.lock
    }

    fn cookie_mut(&mut self) -> (jar: &mut LockJar) {
        &mut self.lock
    }

    fn reallocation(&self) -> (validity: u64) {
        self.count
    }

    fn bump(&mut self) {
        self.count = self.count.saturating_add(1);
    }
}

} // verus!
