//! The bank selector: which of the four stored images is active.
//!
//! A single small integer, written by the button task on each completed
//! press-release pair and read once per frame by the panel driver. Staleness
//! of at most one frame period is tolerated by design, so no synchronization
//! beyond an atomic single-word read/write is ever needed around it.

use vstd::arithmetic::div_mod::lemma_add_mod_noop;
use vstd::prelude::*;

verus! {

/// Number of selectable image banks.
pub const BANKS: u8 = 4;

/// The active-image selector, always in the range 0..4.
pub struct BankSelector {
    value: u8,
}

impl BankSelector {
    /// The currently selected bank index.
    pub closed spec fn bank(self) -> int {
        self.value as int
    }

    /// The selector is in range.
    pub open spec fn wf(self) -> bool {
        0 <= self.bank() < 4
    }

    /// The selector starts at bank 0.
    pub fn new() -> (s: Self)
        ensures
            s.bank() == 0,
            s.wf(),
    {
        BankSelector { value: 0 }
    }

    /// The non-blocking read done once per frame by the panel driver.
    pub fn read(&self) -> (b: u8)
        requires
            self.wf(),
        ensures
            b as int == self.bank(),
            b < 4,
    {
        self.value
    }

    /// One completed press-release of the face button: advance the selector
    /// with wraparound.
    pub fn press(&mut self)
        requires
            old(self).wf(),
        ensures
            final(self).bank() == (old(self).bank() + 1) % 4,
            final(self).wf(),
    {
        let mut b = self.value + 1;
        if b >= BANKS {
            b = 0;
        }
        self.value = b;
    }
}

/// The bank selected after `n` completed button presses from reset: each
/// press advances the previous value by one, wrapping at four.
pub open spec fn bank_after_presses(n: nat) -> int
    decreases n,
{
    if n == 0 {
        0
    } else {
        (bank_after_presses((n - 1) as nat) + 1) % 4
    }
}

/// After `n` completed button presses from reset the selected bank is
/// `n % 4`, for every `n`.
pub proof fn lemma_bank_after_presses(n: nat)
    ensures
        bank_after_presses(n) == n % 4,
    decreases n,
{
    if n > 0 {
        lemma_bank_after_presses((n - 1) as nat);
        lemma_add_mod_noop(n - 1, 1, 4);
    }
}

} // verus!
