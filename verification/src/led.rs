//! The indicator output.

use embedded_hal::digital::OutputPin;
use vstd::prelude::*;
use crate::pin::OutputLine;

verus! {

/// An indicator on an output pin, lit when the pin is high.
pub struct Led<PIN> {
    line: OutputLine<PIN>,
}

impl<PIN> Led<PIN> {
    /// The levels asked of the pin so far, `true` for high, oldest first.
    pub closed spec fn levels(&self) -> Seq<bool> {
        self.line.levels()
    }
}

impl<PIN> Led<PIN> where PIN: OutputPin {
    /// An indicator on `pin`; the pin is left as it is.
    pub fn new(pin: PIN) -> (led: Self)
        ensures
            led.levels() == Seq::<bool>::empty(),
    {
        Self { line: OutputLine::new(pin) }
    }

    /// Asks the pin once for the level that `on` stands for: high to light
    /// the indicator, low to put it out. A pin that refuses is not asked
    /// again.
    pub fn set(&mut self, on: bool)
        ensures
            final(self).levels() == old(self).levels().push(on),
    {
        if on {
            let _ = self.line.high();
        } else {
            let _ = self.line.low();
        }
    }
}

} // verus!
