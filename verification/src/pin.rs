//! The way out to an output pin.
//!
//! An `OutputLine` owns the pin and the record of the levels asked of it. The
//! record grows by one level with each call made here, and nothing outside
//! this module can write it.

use embedded_hal::digital::OutputPin;
use vstd::prelude::*;

verus! {

/// `OutputPin::set_high` of embedded-hal. Nothing is claimed of the answer:
/// the pin decides it.
#[verifier::external_body]
fn pin_set_high<PIN: OutputPin>(pin: &mut PIN) -> (taken: Result<(), ()>) {
    pin.set_high().map_err(|_| ())
}

/// `OutputPin::set_low` of embedded-hal. Nothing is claimed of the answer:
/// the pin decides it.
#[verifier::external_body]
fn pin_set_low<PIN: OutputPin>(pin: &mut PIN) -> (taken: Result<(), ()>) {
    pin.set_low().map_err(|_| ())
}

/// An output pin, with the record of the levels that were asked of it.
pub struct OutputLine<PIN> {
    pin: PIN,
    levels: Ghost<Seq<bool>>,
}

impl<PIN> OutputLine<PIN> {
    /// The levels asked of the pin so far, `true` for high, oldest first.
    pub closed spec fn levels(&self) -> Seq<bool> {
        self.levels@
    }
}

impl<PIN> OutputLine<PIN> where PIN: OutputPin {
    /// A line on `pin`; the pin is left as it is.
    pub fn new(pin: PIN) -> (line: Self)
        ensures
            line.levels() == Seq::<bool>::empty(),
    {
        OutputLine { pin, levels: Ghost(Seq::empty()) }
    }

    /// Asks the pin, once, to go high, and returns its answer.
    pub fn high(&mut self) -> (taken: Result<(), ()>)
        ensures
            final(self).levels() == old(self).levels().push(true),
    {
        let taken = pin_set_high(&mut self.pin);
        proof {
            self.levels@ = self.levels@.push(true);
        }
        taken
    }

    /// Asks the pin, once, to go low, and returns its answer.
    pub fn low(&mut self) -> (taken: Result<(), ()>)
        ensures
            final(self).levels() == old(self).levels().push(false),
    {
        let taken = pin_set_low(&mut self.pin);
        proof {
            self.levels@ = self.levels@.push(false);
        }
        taken
    }
}

} // verus!
