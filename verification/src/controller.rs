//! The heartbeat flip-flop.

use vstd::prelude::*;

verus! {

/// A boolean that flips on every `toggle`.
pub struct Controller {
    state: bool,
}

impl View for Controller {
    type V = bool;

    closed spec fn view(&self) -> bool {
        self.state
    }
}

impl Controller {
    /// A controller that holds `false`.
    pub fn new() -> (ctrl: Self)
        ensures
            ctrl@ == false,
    {
        Self { state: false }
    }

    /// Flips the held value and returns the new one.
    pub fn toggle(&mut self) -> (now: bool)
        ensures
            final(self)@ == !old(self)@,
            now == final(self)@,
            now == after_toggles(old(self)@, 1),
    {
        assert(after_toggles(self@, 0) == self@);
        self.state = !self.state;
        self.state
    }

    /// The held value.
    pub fn state(&self) -> (held: bool)
        ensures
            held == self@,
    {
        self.state
    }
}

/// The value a controller holds after `n` toggles, when it held `start` before
/// the first of them. This is also what the `n`-th toggle returns.
pub open spec fn after_toggles(start: bool, n: nat) -> bool
    decreases n,
{
    if n == 0 {
        start
    } else {
        !after_toggles(start, (n - 1) as nat)
    }
}

/// Toggling a controller `n` times is the same as toggling it once when `n` is
/// odd and as leaving it alone when `n` is even.
pub proof fn lemma_toggles_parity(start: bool, n: nat)
    ensures
        after_toggles(start, n) == (if n % 2 == 1 { !start } else { start }),
    decreases n,
{
    if n > 0 {
        lemma_toggles_parity(start, (n - 1) as nat);
    }
}

/// On a fresh controller the `n`-th toggle, counted from one, returns `true`
/// exactly when `n` is odd.
pub proof fn lemma_nth_toggle_is_odd(n: nat)
    requires
        n >= 1,
    ensures
        after_toggles(false, n) == (n % 2 == 1),
{
    lemma_toggles_parity(false, n);
}

} // verus!
