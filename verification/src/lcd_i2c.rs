//! Driver for an HD44780 character display behind a PCF8574 I2C expander,
//! run in 4-bit mode.

use embedded_hal::delay::DelayNs;
use embedded_hal::i2c::I2c;
use vstd::prelude::*;
use vstd::string::StringSliceAdditionalSpecFns;
use crate::wire::{Retired, Wire};
use crate::signal::{
    anchored, bound_for, clean, group_performed, lemma_bound_for_concat, lemma_clean_concat,
    lemma_performed_stops, lemma_performed_then, pause, performed, send, Signal,
};

verus! {

/// Expander pin that selects the data register.
pub const REGISTER_SELECT: u8 = 0x01;

/// Expander pin that latches a nibble on its falling edge.
pub const ENABLE: u8 = 0x04;

/// Expander pin that drives the backlight.
pub const BACKLIGHT: u8 = 0x08;

/// How a display hangs on the bus: the address of its expander, and whether
/// the backlight pin is driven with every byte.
pub struct Wiring {
    pub addr: u8,
    pub backlight: bool,
}

/// The wiring that stands in where there is no device. Nothing is ever sent
/// by it.
pub open spec fn unwired() -> Wiring {
    Wiring { addr: 0, backlight: true }
}

/// The expander byte that presents the low four bits of `nibble` on the data
/// pins, with the register-select and backlight pins as given and the enable
/// pin low.
pub open spec fn nibble_bits(nibble: u8, rs: bool, backlight: bool) -> u8 {
    let data = (nibble & 0x0F) << 4;
    let data = if rs {
        data | REGISTER_SELECT
    } else {
        data
    };
    if backlight {
        data | BACKLIGHT
    } else {
        data
    }
}

/// Latching one expander byte at the device at `addr`: enable high, hold,
/// enable low, settle.
pub open spec fn pulse(data: u8, addr: u8) -> Seq<Signal> {
    send(addr, data | ENABLE) + pause(1_000) + send(addr, data & !ENABLE) + pause(50_000)
}

/// Sending one nibble.
pub open spec fn nibble_frame(nibble: u8, rs: bool, wiring: Wiring) -> Seq<Signal> {
    pulse(nibble_bits(nibble, rs, wiring.backlight), wiring.addr)
}

/// Sending one byte: the high nibble, then the low one.
pub open spec fn byte_frame(val: u8, rs: bool, wiring: Wiring) -> Seq<Signal> {
    nibble_frame(val >> 4, rs, wiring) + nibble_frame(val & 0x0F, rs, wiring)
}

/// Sending `bytes` to the data register, one after the other.
pub open spec fn text_frames(bytes: Seq<u8>, wiring: Wiring) -> Seq<Signal>
    decreases bytes.len(),
{
    if bytes.len() == 0 {
        Seq::empty()
    } else {
        text_frames(bytes.drop_last(), wiring) + byte_frame(bytes.last(), true, wiring)
    }
}

/// The clear-display command and the time the controller needs for it.
pub open spec fn clear_frame(wiring: Wiring) -> Seq<Signal> {
    byte_frame(0x01, false, wiring) + pause(2_000_000)
}

/// Address of the first cell of `row` in display memory.
pub open spec fn row_offset(row: u8) -> u8 {
    if row == 0 {
        0x00
    } else {
        0x40
    }
}

/// The command that moves the cursor to column `col` of `row`.
pub open spec fn cursor_frame(col: u8, row: u8, wiring: Wiring) -> Seq<Signal> {
    byte_frame(0x80 | ((col + row_offset(row)) as u8), false, wiring)
}

/// What brings the controller from power-up into 4-bit, two-line mode with the
/// display on, the cursor moving right, and the screen cleared.
pub open spec fn power_on_plan(wiring: Wiring) -> Seq<Signal> {
    pause(50_000_000) + nibble_frame(0x03, false, wiring) + pause(5_000_000) + nibble_frame(
        0x03,
        false,
        wiring,
    ) + pause(150_000) + nibble_frame(0x03, false, wiring) + pause(150_000) + nibble_frame(
        0x02,
        false,
        wiring,
    ) + pause(150_000) + byte_frame(0x28, false, wiring) + byte_frame(0x0C, false, wiring)
        + byte_frame(0x06, false, wiring) + clear_frame(wiring)
}

/// Sending a text is sending its parts one after the other.
pub proof fn lemma_text_frames_concat(head: Seq<u8>, tail: Seq<u8>, wiring: Wiring)
    ensures
        text_frames(head + tail, wiring) =~= text_frames(head, wiring) + text_frames(
            tail,
            wiring,
        ),
    decreases tail.len(),
{
    if tail.len() == 0 {
        assert(head + tail =~= head);
    } else {
        lemma_text_frames_concat(head, tail.drop_last(), wiring);
        assert((head + tail).drop_last() =~= head + tail.drop_last());
    }
}

/// Every plan of this driver is clean.
pub proof fn lemma_plans_clean(wiring: Wiring)
    ensures
        forall|data: u8, addr: u8| clean(#[trigger] pulse(data, addr)),
        forall|val: u8, rs: bool| clean(#[trigger] byte_frame(val, rs, wiring)),
        forall|bytes: Seq<u8>| clean(#[trigger] text_frames(bytes, wiring)),
        forall|col: u8, row: u8| clean(#[trigger] cursor_frame(col, row, wiring)),
        clean(clear_frame(wiring)),
        clean(power_on_plan(wiring)),
{
    assert forall|val: u8, rs: bool| clean(#[trigger] byte_frame(val, rs, wiring)) by {
        lemma_clean_concat(nibble_frame(val >> 4, rs, wiring), nibble_frame(val & 0x0F, rs, wiring));
    }
    assert forall|bytes: Seq<u8>| clean(#[trigger] text_frames(bytes, wiring)) by {
        lemma_text_frames_clean(bytes, wiring);
    }
    lemma_clean_concat(byte_frame(0x01, false, wiring), pause(2_000_000));
    let one = pause(50_000_000) + nibble_frame(0x03, false, wiring);
    lemma_clean_concat(pause(50_000_000), nibble_frame(0x03, false, wiring));
    let two = one + pause(5_000_000);
    lemma_clean_concat(one, pause(5_000_000));
    let three = two + nibble_frame(0x03, false, wiring);
    lemma_clean_concat(two, nibble_frame(0x03, false, wiring));
    let four = three + pause(150_000);
    lemma_clean_concat(three, pause(150_000));
    let five = four + nibble_frame(0x03, false, wiring);
    lemma_clean_concat(four, nibble_frame(0x03, false, wiring));
    let six = five + pause(150_000);
    lemma_clean_concat(five, pause(150_000));
    let seven = six + nibble_frame(0x02, false, wiring);
    lemma_clean_concat(six, nibble_frame(0x02, false, wiring));
    let eight = seven + pause(150_000);
    lemma_clean_concat(seven, pause(150_000));
    let nine = eight + byte_frame(0x28, false, wiring);
    lemma_clean_concat(eight, byte_frame(0x28, false, wiring));
    let ten = nine + byte_frame(0x0C, false, wiring);
    lemma_clean_concat(nine, byte_frame(0x0C, false, wiring));
    let eleven = ten + byte_frame(0x06, false, wiring);
    lemma_clean_concat(ten, byte_frame(0x06, false, wiring));
    lemma_clean_concat(eleven, clear_frame(wiring));
}

/// Every text is sent by a clean plan.
proof fn lemma_text_frames_clean(bytes: Seq<u8>, wiring: Wiring)
    ensures
        clean(text_frames(bytes, wiring)),
    decreases bytes.len(),
{
    if bytes.len() > 0 {
        lemma_text_frames_clean(bytes.drop_last(), wiring);
        lemma_clean_concat(
            nibble_frame(bytes.last() >> 4, true, wiring),
            nibble_frame(bytes.last() & 0x0F, true, wiring),
        );
        lemma_clean_concat(
            text_frames(bytes.drop_last(), wiring),
            byte_frame(bytes.last(), true, wiring),
        );
    }
}

/// Every text is sent to the device of the wiring.
proof fn lemma_text_frames_bound(bytes: Seq<u8>, wiring: Wiring)
    ensures
        bound_for(text_frames(bytes, wiring), wiring.addr),
    decreases bytes.len(),
{
    if bytes.len() > 0 {
        lemma_text_frames_bound(bytes.drop_last(), wiring);
        lemma_bound_for_concat(
            nibble_frame(bytes.last() >> 4, true, wiring),
            nibble_frame(bytes.last() & 0x0F, true, wiring),
            wiring.addr,
        );
        lemma_bound_for_concat(
            text_frames(bytes.drop_last(), wiring),
            byte_frame(bytes.last(), true, wiring),
            wiring.addr,
        );
    }
}

/// Every write of every plan of this driver goes to the device of the
/// wiring, and to no other.
pub proof fn lemma_plans_bound(wiring: Wiring)
    ensures
        forall|nibble: u8, rs: bool| bound_for(#[trigger] nibble_frame(nibble, rs, wiring), wiring.addr),
        forall|val: u8, rs: bool| bound_for(#[trigger] byte_frame(val, rs, wiring), wiring.addr),
        forall|bytes: Seq<u8>| bound_for(#[trigger] text_frames(bytes, wiring), wiring.addr),
        forall|col: u8, row: u8| bound_for(#[trigger] cursor_frame(col, row, wiring), wiring.addr),
        bound_for(clear_frame(wiring), wiring.addr),
        bound_for(power_on_plan(wiring), wiring.addr),
{
    let addr = wiring.addr;
    assert forall|val: u8, rs: bool| bound_for(#[trigger] byte_frame(val, rs, wiring), addr) by {
        lemma_bound_for_concat(
            nibble_frame(val >> 4, rs, wiring),
            nibble_frame(val & 0x0F, rs, wiring),
            addr,
        );
    }
    assert forall|bytes: Seq<u8>| bound_for(#[trigger] text_frames(bytes, wiring), addr) by {
        lemma_text_frames_bound(bytes, wiring);
    }
    lemma_bound_for_concat(byte_frame(0x01, false, wiring), pause(2_000_000), addr);
    let one = pause(50_000_000) + nibble_frame(0x03, false, wiring);
    lemma_bound_for_concat(pause(50_000_000), nibble_frame(0x03, false, wiring), addr);
    let two = one + pause(5_000_000);
    lemma_bound_for_concat(one, pause(5_000_000), addr);
    let three = two + nibble_frame(0x03, false, wiring);
    lemma_bound_for_concat(two, nibble_frame(0x03, false, wiring), addr);
    let four = three + pause(150_000);
    lemma_bound_for_concat(three, pause(150_000), addr);
    let five = four + nibble_frame(0x03, false, wiring);
    lemma_bound_for_concat(four, nibble_frame(0x03, false, wiring), addr);
    let six = five + pause(150_000);
    lemma_bound_for_concat(five, pause(150_000), addr);
    let seven = six + nibble_frame(0x02, false, wiring);
    lemma_bound_for_concat(six, nibble_frame(0x02, false, wiring), addr);
    let eight = seven + pause(150_000);
    lemma_bound_for_concat(seven, pause(150_000), addr);
    let nine = eight + byte_frame(0x28, false, wiring);
    lemma_bound_for_concat(eight, byte_frame(0x28, false, wiring), addr);
    let ten = nine + byte_frame(0x0C, false, wiring);
    lemma_bound_for_concat(nine, byte_frame(0x0C, false, wiring), addr);
    let eleven = ten + byte_frame(0x06, false, wiring);
    lemma_bound_for_concat(ten, byte_frame(0x06, false, wiring), addr);
    lemma_bound_for_concat(eleven, clear_frame(wiring), addr);
}

/// A character display reached through the I2C device at one address.
///
/// Whatever the driver sends goes through its wire, which keeps the record
/// of it.
pub struct LcdI2c<I2C> {
    wire: Wire<I2C>,
    backlight: bool,
}

impl<I2C> LcdI2c<I2C> {
    /// Everything this driver has asked of its bus and delay line so far.
    pub closed spec fn trace(&self) -> Seq<Signal> {
        self.wire.trace()
    }

    /// The bus address of the expander.
    pub closed spec fn address(&self) -> u8 {
        self.wire.address()
    }

    /// Whether the backlight pin is driven with every byte.
    pub closed spec fn backlight(&self) -> bool {
        self.backlight
    }

    /// How the display hangs on the bus.
    pub open spec fn wiring(&self) -> Wiring {
        Wiring { addr: self.address(), backlight: self.backlight() }
    }

    /// The same device, whatever has been sent to it in between.
    pub open spec fn same_wiring(&self, other: &Self) -> bool {
        self.wiring() == other.wiring()
    }

    /// Gives the driver up, bus handle and all, and keeps the record of what
    /// it asked.
    pub fn retire(self) -> (left: Retired)
        ensures
            left.record() == self.trace(),
    {
        self.wire.retire()
    }
}

impl<I2C> LcdI2c<I2C> where I2C: I2c {
    /// A driver for the display at `addr` on `i2c`, with the backlight on.
    /// Nothing is sent: the display is yet to be brought up by `power_on`.
    /// A caller that wants the record of a refused power-on keeps the driver
    /// and retires it.
    pub fn attach(i2c: I2C, addr: u8) -> (lcd: Self)
        ensures
            lcd.wiring() == (Wiring { addr, backlight: true }),
            lcd.trace() == Seq::<Signal>::empty(),
    {
        Self { wire: Wire::open(i2c, addr), backlight: true }
    }

    /// Takes the bus and brings the display at `addr` up: `attach`, then
    /// `power_on`. On success the record holds the power-on sequence and
    /// nothing else. When the bus refuses a byte, the bus is given up, and
    /// the record of what was asked of it with it.
    pub fn new<D: DelayNs>(i2c: I2C, addr: u8, delay: &mut D) -> (made: Result<Self, ()>)
        ensures
            made matches Ok(lcd) ==> lcd.wiring() == (Wiring { addr, backlight: true })
                && lcd.trace() == power_on_plan(lcd.wiring()),
    {
        let mut lcd = Self::attach(i2c, addr);
        proof {
            reveal(performed);
        }
        match lcd.power_on(delay) {
            Ok(()) => Ok(lcd),
            Err(()) => Err(()),
        }
    }

    /// Runs the power-on sequence of the controller, stopping at the first
    /// byte the bus refuses. It is what `new` runs on the bus it is given, and
    /// it brings a display that has lost its settings back to them.
    pub fn power_on<D: DelayNs>(&mut self, delay: &mut D) -> (done: Result<(), ()>)
        ensures
            performed(
                old(self).trace(),
                power_on_plan(old(self).wiring()),
                final(self).trace(),
                done is Ok,
            ),
            final(self).same_wiring(old(self)),
    {
        broadcast use group_performed;

        assert(anchored(old(self).trace()));

        self.wire.wait_ms(delay, 50);
        self.write_nibble(0x03, false, delay)?;
        self.wire.wait_ms(delay, 5);
        self.write_nibble(0x03, false, delay)?;
        self.wire.wait_us(delay, 150);
        self.write_nibble(0x03, false, delay)?;
        self.wire.wait_us(delay, 150);
        self.write_nibble(0x02, false, delay)?;
        self.wire.wait_us(delay, 150);
        self.command(0x28, delay)?;
        self.command(0x0C, delay)?;
        self.command(0x06, delay)?;
        self.clear(delay)?;
        Ok(())
    }

    /// Clears the screen and waits until the controller is ready again.
    pub fn clear<D: DelayNs>(&mut self, delay: &mut D) -> (done: Result<(), ()>)
        ensures
            performed(
                old(self).trace(),
                clear_frame(old(self).wiring()),
                final(self).trace(),
                done is Ok,
            ),
            final(self).same_wiring(old(self)),
    {
        broadcast use group_performed;

        assert(anchored(old(self).trace()));

        self.command(0x01, delay)?;
        self.wire.wait_ns(delay, 2_000_000);
        Ok(())
    }

    /// Moves the cursor to column `col` of `row`; every row but the first is
    /// the second.
    pub fn set_cursor<D: DelayNs>(&mut self, col: u8, row: u8, delay: &mut D) -> (done: Result<
        (),
        (),
    >)
        requires
            col + row_offset(row) <= u8::MAX,
        ensures
            performed(
                old(self).trace(),
                cursor_frame(col, row, old(self).wiring()),
                final(self).trace(),
                done is Ok,
            ),
            final(self).same_wiring(old(self)),
    {
        let row_offset: u8 = if row == 0 {
            0x00
        } else {
            0x40
        };
        self.command(0x80 | (col + row_offset), delay)
    }

    /// Writes the bytes of `text` at the cursor, stopping at the first one the
    /// bus refuses. Of an empty text there is nothing to refuse.
    pub fn print<D: DelayNs>(&mut self, text: &str, delay: &mut D) -> (done: Result<(), ()>)
        ensures
            performed(
                old(self).trace(),
                text_frames(text.spec_bytes(), old(self).wiring()),
                final(self).trace(),
                done is Ok,
            ),
            text.spec_bytes().len() == 0 ==> done is Ok && final(self).trace() == old(self).trace(),
            final(self).same_wiring(old(self)),
    {
        let bytes = text.as_bytes();
        let ghost all = text.spec_bytes();
        let ghost wiring = self.wiring();
        let mut i: usize = 0;
        proof {
            reveal(performed);
            assert(all.take(0) =~= Seq::<u8>::empty());
        }
        while i < bytes.len()
            invariant
                i <= bytes.len(),
                bytes@ == all,
                all == text.spec_bytes(),
                self.same_wiring(old(self)),
                wiring == old(self).wiring(),
                i == 0 ==> self.trace() == old(self).trace(),
                performed(
                    old(self).trace(),
                    text_frames(all.take(i as int), wiring),
                    self.trace(),
                    true,
                ),
            decreases bytes.len() - i,
        {
            let ghost sent = all.take(i as int);
            let ghost next = all.take(i + 1);
            let ghost rest = all.skip(i + 1);
            let ghost mid = self.trace();
            let step = self.data(bytes[i], delay);
            proof {
                assert(next.drop_last() =~= sent);
                assert(all =~= next + rest);
                lemma_text_frames_concat(next, rest, wiring);
                lemma_performed_then(
                    old(self).trace(),
                    text_frames(sent, wiring),
                    mid,
                    byte_frame(all[i as int], true, wiring),
                    self.trace(),
                    step is Ok,
                );
                if step is Err {
                    lemma_performed_stops(
                        old(self).trace(),
                        text_frames(next, wiring),
                        self.trace(),
                        text_frames(rest, wiring),
                    );
                }
            }
            step?;
            i += 1;
        }
        assert(all.take(i as int) =~= all);
        Ok(())
    }

    /// Sends `cmd` to the instruction register.
    fn command<D: DelayNs>(&mut self, cmd: u8, delay: &mut D) -> (done: Result<(), ()>)
        ensures
            performed(
                old(self).trace(),
                byte_frame(cmd, false, old(self).wiring()),
                final(self).trace(),
                done is Ok,
            ),
            final(self).same_wiring(old(self)),
    {
        self.write_byte(cmd, false, delay)
    }

    /// Sends `data` to the data register.
    fn data<D: DelayNs>(&mut self, data: u8, delay: &mut D) -> (done: Result<(), ()>)
        ensures
            performed(
                old(self).trace(),
                byte_frame(data, true, old(self).wiring()),
                final(self).trace(),
                done is Ok,
            ),
            final(self).same_wiring(old(self)),
    {
        self.write_byte(data, true, delay)
    }

    /// Sends `val` as two nibbles, the high one first.
    fn write_byte<D: DelayNs>(&mut self, val: u8, rs: bool, delay: &mut D) -> (done: Result<
        (),
        (),
    >)
        ensures
            performed(
                old(self).trace(),
                byte_frame(val, rs, old(self).wiring()),
                final(self).trace(),
                done is Ok,
            ),
            final(self).same_wiring(old(self)),
    {
        broadcast use group_performed;

        assert(anchored(old(self).trace()));

        self.write_nibble(val >> 4, rs, delay)?;
        self.write_nibble(val & 0x0F, rs, delay)?;
        Ok(())
    }

    /// Puts the low four bits of `nibble` on the data pins and latches them.
    fn write_nibble<D: DelayNs>(&mut self, nibble: u8, rs: bool, delay: &mut D) -> (done: Result<
        (),
        (),
    >)
        ensures
            performed(
                old(self).trace(),
                nibble_frame(nibble, rs, old(self).wiring()),
                final(self).trace(),
                done is Ok,
            ),
            final(self).same_wiring(old(self)),
    {
        let mut data: u8 = (nibble & 0x0F) << 4;
        if rs {
            data = data | REGISTER_SELECT;
        }
        if self.backlight {
            data = data | BACKLIGHT;
        }
        self.pulse_enable(data, delay)
    }

    /// Latches `data`: once with the enable pin high, once with it low.
    fn pulse_enable<D: DelayNs>(&mut self, data: u8, delay: &mut D) -> (done: Result<(), ()>)
        ensures
            performed(
                old(self).trace(),
                pulse(data, old(self).address()),
                final(self).trace(),
                done is Ok,
            ),
            final(self).same_wiring(old(self)),
    {
        broadcast use group_performed;

        assert(anchored(old(self).trace()));

        self.write_raw(data | ENABLE)?;
        self.wire.wait_ns(delay, 1_000);
        self.write_raw(data & !ENABLE)?;
        self.wire.wait_ns(delay, 50_000);
        Ok(())
    }

    /// Hands one byte to the bus, for the expander and for no other device.
    fn write_raw(&mut self, data: u8) -> (done: Result<(), ()>)
        ensures
            final(self).trace() == old(self).trace().push(
                Signal::Write { addr: old(self).address(), byte: data, ok: done is Ok },
            ),
            performed(
                old(self).trace(),
                send(old(self).address(), data),
                final(self).trace(),
                done is Ok,
            ),
            final(self).same_wiring(old(self)),
    {
        self.wire.write(data)
    }
}

} // verus!
