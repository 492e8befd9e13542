//! Ledgers: one validity counter and one cookie jar per allocation slot.
//!
//! The counter names the slot's current occupant. It starts at one, only ever
//! grows, and stops for good at `RETIRED`; a slot whose counter has reached
//! `RETIRED` is never given to a new occupant.

use vstd::prelude::*;
use crate::cookie::{CookieJar, JarState};

pub mod silo;
pub mod sync;

verus! {

/// The counter value of a slot that is permanently out of use.
pub const RETIRED: u64 = 0xffff_ffff_ffff_ffff;

/// The counter after one retirement: one more, or `RETIRED` for good.
pub open spec fn bumped(validity: u64) -> u64 {
    if validity < RETIRED {
        (validity + 1) as u64
    } else {
        RETIRED
    }
}

/// Retirement never moves a counter backward, and moves every counter but
/// one at the sentinel strictly forward.
pub proof fn lemma_bumped_grows(validity: u64)
    ensures
        bumped(validity) >= validity,
        bumped(validity) > validity || bumped(validity) == RETIRED,
        validity >= 1 ==> bumped(validity) >= 1,
{
}

/// What a ledger records, apart from how it records it.
pub struct LedgerState {
    /// The validity counter.
    pub validity: u64,
    /// The cookies outstanding on the ledger's jar.
    pub jar: JarState,
}

impl LedgerState {
    /// A ledger as it is carved: counter at one, jar idle.
    pub open spec fn fresh() -> LedgerState {
        LedgerState { validity: 1, jar: JarState::idle() }
    }
}

/// A validity counter together with the jar that guards the slot's payload.
pub trait Ledger: Sized {
    /// The kind of jar this ledger keeps.
    type Cookies: CookieJar;

    /// The validity counter.
    spec fn reallocation_spec(&self) -> u64;

    /// The jar.
    spec fn cookie_spec(&self) -> Self::Cookies;

    /// A ledger as it is carved: counter at one, jar idle.
    fn new() -> (ledger: Self)
        ensures
            ledger.reallocation_spec() == 1,
            ledger.cookie_spec().inv(),
            ledger.cookie_spec().state() == JarState::idle(),
    ;

    /// The jar of this ledger.
    fn cookie(&self) -> (jar: &Self::Cookies)
        ensures
            *jar == self.cookie_spec(),
    ;

    /// The jar of this ledger, to acquire or release a cookie. The counter is
    /// out of reach through it.
    fn cookie_mut(&mut self) -> (jar: &mut Self::Cookies)
        ensures
            *jar == old(self).cookie_spec(),
            final(self).cookie_spec() == *final(jar),
            final(self).reallocation_spec() == old(self).reallocation_spec(),
    ;

    /// The current validity counter. Never zero on a consistent ledger.
    fn reallocation(&self) -> (validity: u64)
        ensures
            validity == self.reallocation_spec(),
    ;

    /// Retires the current occupant: the counter goes up by one, or stays at
    /// `RETIRED`. The jar is untouched.
    fn bump(&mut self)
        ensures
            final(self).reallocation_spec() == bumped(old(self).reallocation_spec()),
            final(self).cookie_spec() == old(self).cookie_spec(),
    ;
}

/// The counter is not zero and the jar is consistent.
pub open spec fn ledger_inv<L: Ledger>(ledger: L) -> bool {
    ledger.reallocation_spec() >= 1 && ledger.cookie_spec().inv()
}

/// What `ledger` records.
pub open spec fn ledger_state<L: Ledger>(ledger: L) -> LedgerState {
    LedgerState { validity: ledger.reallocation_spec(), jar: ledger.cookie_spec().state() }
}

/// The ledger's jar has no cookie outstanding.
pub open spec fn ledger_idle<L: Ledger>(ledger: L) -> bool {
    ledger.cookie_spec().state().is_idle()
}

/// A ledger as `Ledger::new` and every ledger factory must make it.
pub open spec fn ledger_fresh<L: Ledger>(ledger: L) -> bool {
    &&& ledger_inv(ledger)
    &&& ledger.reallocation_spec() < RETIRED
    &&& ledger_idle(ledger)
}

} // verus!
