//! The way out to the bus and the delay line.
//!
//! A `Wire` owns the bus handle of one device and the record of what was
//! asked through it. The record grows by one request with each call made
//! here, and nothing outside this module can write it.

use embedded_hal::delay::DelayNs;
use embedded_hal::i2c::I2c;
use vstd::prelude::*;
use crate::signal::{halted, pause, performed, send, Signal};

verus! {

/// `I2c::write` of embedded-hal, with a single byte for the device at `addr`.
/// Nothing is claimed of the answer: the bus decides it.
#[verifier::external_body]
fn bus_write<I2C: I2c>(i2c: &mut I2C, addr: u8, byte: u8) -> (taken: Result<(), ()>) {
    i2c.write(addr, &[byte]).map_err(|_| ())
}

/// `DelayNs::delay_ns` of embedded-hal. It returns nothing to speak of.
#[verifier::external_body]
fn delay_ns<D: DelayNs>(delay: &mut D, ns: u32) {
    delay.delay_ns(ns)
}

/// `DelayNs::delay_us` of embedded-hal. It returns nothing to speak of.
#[verifier::external_body]
fn delay_us<D: DelayNs>(delay: &mut D, us: u32) {
    delay.delay_us(us)
}

/// `DelayNs::delay_ms` of embedded-hal. It returns nothing to speak of.
#[verifier::external_body]
fn delay_ms<D: DelayNs>(delay: &mut D, ms: u32) {
    delay.delay_ms(ms)
}

/// The bus, as far as one device at one address is concerned, with the
/// record of every byte handed to it, the bus's answer to each, and every
/// pause asked for on the device's behalf.
pub struct Wire<I2C> {
    i2c: I2C,
    addr: u8,
    trace: Ghost<Seq<Signal>>,
}

/// What is left of a wire that was given up: its record.
pub struct Retired {
    record: Ghost<Seq<Signal>>,
}

impl Retired {
    /// The record of the wire when it was given up.
    pub closed spec fn record(&self) -> Seq<Signal> {
        self.record@
    }

    /// What is left where there never was a wire: an empty record.
    pub fn none() -> (left: Self)
        ensures
            left.record() == Seq::<Signal>::empty(),
    {
        Retired { record: Ghost(Seq::empty()) }
    }
}

impl<I2C> Wire<I2C> {
    /// Everything asked through this wire so far, oldest first.
    pub closed spec fn trace(&self) -> Seq<Signal> {
        self.trace@
    }

    /// The bus address that every byte goes to.
    pub closed spec fn address(&self) -> u8 {
        self.addr
    }

    /// Gives the wire up, bus handle and all, and keeps its record.
    pub fn retire(self) -> (left: Retired)
        ensures
            left.record() == self.trace(),
    {
        Retired { record: Ghost(self.trace@) }
    }
}

impl<I2C> Wire<I2C> where I2C: I2c {
    /// A wire to the device at `addr` on `i2c`; nothing has been asked yet.
    pub fn open(i2c: I2C, addr: u8) -> (wire: Self)
        ensures
            wire.address() == addr,
            wire.trace() == Seq::<Signal>::empty(),
    {
        Wire { i2c, addr, trace: Ghost(Seq::empty()) }
    }

    /// Hands `byte` to the bus for the device of this wire, once, and puts
    /// the request on the record with the answer that is returned.
    pub fn write(&mut self, byte: u8) -> (taken: Result<(), ()>)
        ensures
            final(self).trace() == old(self).trace().push(
                Signal::Write { addr: old(self).address(), byte, ok: taken is Ok },
            ),
            performed(
                old(self).trace(),
                send(old(self).address(), byte),
                final(self).trace(),
                taken is Ok,
            ),
            final(self).address() == old(self).address(),
    {
        let taken = bus_write(&mut self.i2c, self.addr, byte);
        proof {
            reveal(performed);
            self.trace@ = self.trace@.push(
                Signal::Write { addr: self.addr, byte, ok: taken is Ok },
            );
            if taken is Err {
                assert(self.trace@ =~= old(self).trace() + halted(send(self.addr, byte), 0));
            }
        }
        taken
    }

    /// Waits for `ns` nanoseconds and puts the pause on the record.
    pub fn wait_ns<D: DelayNs>(&mut self, delay: &mut D, ns: u32)
        ensures
            final(self).trace() == old(self).trace().push(Signal::Pause { nanos: ns as nat }),
            performed(old(self).trace(), pause(ns as nat), final(self).trace(), true),
            final(self).address() == old(self).address(),
    {
        delay_ns(delay, ns);
        proof {
            reveal(performed);
            self.trace@ = self.trace@.push(Signal::Pause { nanos: ns as nat });
        }
    }

    /// Waits for `us` microseconds and puts the pause on the record.
    pub fn wait_us<D: DelayNs>(&mut self, delay: &mut D, us: u32)
        ensures
            final(self).trace() == old(self).trace().push(
                Signal::Pause { nanos: (us * 1_000) as nat },
            ),
            performed(old(self).trace(), pause((us * 1_000) as nat), final(self).trace(), true),
            final(self).address() == old(self).address(),
    {
        delay_us(delay, us);
        proof {
            reveal(performed);
            self.trace@ = self.trace@.push(Signal::Pause { nanos: (us * 1_000) as nat });
        }
    }

    /// Waits for `ms` milliseconds and puts the pause on the record.
    pub fn wait_ms<D: DelayNs>(&mut self, delay: &mut D, ms: u32)
        ensures
            final(self).trace() == old(self).trace().push(
                Signal::Pause { nanos: (ms * 1_000_000) as nat },
            ),
            performed(old(self).trace(), pause((ms * 1_000_000) as nat), final(self).trace(), true),
            final(self).address() == old(self).address(),
    {
        delay_ms(delay, ms);
        proof {
            reveal(performed);
            self.trace@ = self.trace@.push(Signal::Pause { nanos: (ms * 1_000_000) as nat });
        }
    }
}

} // verus!
