//! The status display: an optional character display that falls silent, for
//! good, when its device is missing or cannot be cleared at start-up.

use embedded_hal::delay::DelayNs;
use embedded_hal::i2c::I2c;
use vstd::prelude::*;
use vstd::string::StringExecFns;
use vstd::string::StringSliceAdditionalSpecFns;
use crate::lcd_i2c::{
    clear_frame, cursor_frame, lemma_plans_clean, text_frames, unwired, LcdI2c, Wiring,
};
use crate::wire::Retired;
use crate::signal::{
    added, attempted_each, clean, in_turn, lemma_attempted_each_concat, lemma_attempted_each_push,
    lemma_attempted_each_taken, lemma_performed_decided, performed, Signal,
};

verus! {

/// Writing `bytes` from the first column of `row`: the cursor is moved, then
/// the bytes are sent.
pub open spec fn write_at(row: u8, bytes: Seq<u8>, wiring: Wiring) -> Seq<Seq<Signal>> {
    seq![cursor_frame(0, row, wiring), text_frames(bytes, wiring)]
}

/// A row of `cols` spaces.
pub open spec fn blank(cols: nat) -> Seq<u8> {
    Seq::new(cols, |i: int| 0x20u8)
}

/// The boot screen: a cleared display with the device's name on the first row
/// and its state on the second.
pub open spec fn boot_script(wiring: Wiring) -> Seq<Seq<Signal>> {
    seq![clear_frame(wiring)] + write_at(0, "ESP32-C3 Mini".spec_bytes(), wiring) + write_at(
        1,
        "System Ready".spec_bytes(),
        wiring,
    )
}

/// The text that tells the state of the indicator; both forms are as wide.
pub open spec fn led_label(on: bool) -> Seq<u8> {
    if on {
        "LED: ON ".spec_bytes()
    } else {
        "LED: OFF".spec_bytes()
    }
}

/// A character display that may be absent.
///
/// A display without a driver is degraded: every operation on it returns
/// without touching the bus. A display becomes degraded when `init` cannot
/// clear it, and never recovers. What is left of a driver that was let go is
/// its record, as the driver handed it over.
pub struct LcdDisplay<I2C, D> {
    lcd: Option<LcdI2c<I2C>>,
    delay: D,
    error: bool,
    last: Retired,
}

impl<I2C, D> LcdDisplay<I2C, D> {
    /// The display is degraded exactly when it has no driver. `new` makes it
    /// so and every operation keeps it so.
    pub open spec fn wf(&self) -> bool {
        self.degraded() == (self.driver() is None)
    }

    /// Whether the display has fallen silent.
    pub closed spec fn degraded(&self) -> bool {
        self.error
    }

    /// The driver, while the display has one.
    pub closed spec fn driver(&self) -> Option<LcdI2c<I2C>> {
        self.lcd
    }

    /// Everything that was asked of the bus and the delay line through the
    /// driver of this display, before and after the display got it. The record
    /// of a degraded display stays as it was when the driver was let go.
    pub closed spec fn trace(&self) -> Seq<Signal> {
        match self.lcd {
            Some(lcd) => lcd.trace(),
            None => self.last.record(),
        }
    }

    /// How the driver hangs on the bus; `unwired()` when there is no driver.
    pub closed spec fn wiring(&self) -> Wiring {
        match self.lcd {
            Some(lcd) => lcd.wiring(),
            None => unwired(),
        }
    }

    /// Both displays are without a driver, or both have one for the same
    /// device, whatever was sent to it in between.
    pub open spec fn same_driver(self, other: Self) -> bool {
        &&& self.wiring() == other.wiring()
        &&& (self.driver() is None) == (other.driver() is None)
    }

    /// What an operation that shows `script` makes of a display: a degraded
    /// one is left as it was, on another each plan of the script is attempted
    /// in turn. Neither kind turns into the other.
    pub open spec fn shown(before: Self, script: Seq<Seq<Signal>>, after: Self) -> bool {
        &&& after.wf()
        &&& after.degraded() == before.degraded()
        &&& after.same_driver(before)
        &&& if before.degraded() {
            after.trace() == before.trace()
        } else {
            attempted_each(before.trace(), script, after.trace())
        }
    }

    /// What `init` makes of a display: a degraded one is left as it was, on
    /// another the clear command is attempted, and the display is degraded
    /// from then on, and without its driver, exactly if the command did not
    /// go through.
    pub open spec fn started(before: Self, after: Self) -> bool {
        &&& after.degraded() == (after.driver() is None)
        &&& !after.degraded() ==> after.same_driver(before)
        &&& if before.degraded() {
            after.degraded() && after.trace() == before.trace()
        } else {
            performed(
                before.trace(),
                clear_frame(before.wiring()),
                after.trace(),
                !after.degraded(),
            )
        }
    }
}

impl<I2C, D> LcdDisplay<I2C, D> where I2C: I2c, D: DelayNs {
    /// A display on `lcd`, degraded from the start when there is none.
    pub fn new(lcd: Option<LcdI2c<I2C>>, delay: D) -> (display: Self)
        ensures
            display.wf(),
            display.driver() == lcd,
            display.degraded() == (lcd is None),
            display.trace() == match lcd {
                Some(driver) => driver.trace(),
                None => Seq::empty(),
            },
            display.wiring() == match lcd {
                Some(driver) => driver.wiring(),
                None => unwired(),
            },
    {
        let error = lcd.is_none();
        Self { lcd, delay, error, last: Retired::none() }
    }

    /// A display whose driver was let go before the display was made:
    /// degraded from the start, with the record that the driver left.
    pub fn fallen(left: Retired, delay: D) -> (display: Self)
        ensures
            display.wf(),
            display.degraded(),
            display.driver() is None,
            display.trace() == left.record(),
            display.wiring() == unwired(),
    {
        Self { lcd: None, delay, error: true, last: left }
    }

    /// Whether the display has fallen silent.
    pub fn is_degraded(&self) -> (silent: bool)
        ensures
            silent == self.degraded(),
    {
        self.error
    }

    /// Clears the display. When the bus refuses, the driver is let go and the
    /// display is degraded.
    pub fn init(&mut self)
        requires
            old(self).wf(),
        ensures
            Self::started(*old(self), *final(self)),
    {
        let mut failed = false;
        match &mut self.lcd {
            Some(lcd) => {
                if lcd.clear(&mut self.delay).is_err() {
                    failed = true;
                }
            },
            None => {},
        }
        if failed {
            match self.lcd.take() {
                Some(lcd) => {
                    self.last = lcd.retire();
                },
                None => {},
            }
            self.error = true;
        }
    }

    /// Clears the display and writes the two lines of the boot screen.
    pub fn boot_screen(&mut self)
        requires
            old(self).wf(),
        ensures
            Self::shown(*old(self), boot_script(old(self).wiring()), *final(self)),
    {
        let ghost wiring = self.wiring();
        let ghost t0 = self.trace();
        match &mut self.lcd {
            Some(lcd) => {
                let _ = lcd.clear(&mut self.delay);
                let ghost t1 = lcd.trace();
                let _ = lcd.set_cursor(0, 0, &mut self.delay);
                let ghost t2 = lcd.trace();
                let _ = lcd.print("ESP32-C3 Mini", &mut self.delay);
                let ghost t3 = lcd.trace();
                let _ = lcd.set_cursor(0, 1, &mut self.delay);
                let ghost t4 = lcd.trace();
                let _ = lcd.print("System Ready", &mut self.delay);
                proof {
                    let s0 = Seq::<Seq<Signal>>::empty();
                    let s1 = s0.push(clear_frame(wiring));
                    let s2 = s1.push(cursor_frame(0, 0, wiring));
                    let s3 = s2.push(text_frames("ESP32-C3 Mini".spec_bytes(), wiring));
                    let s4 = s3.push(cursor_frame(0, 1, wiring));
                    let s5 = s4.push(text_frames("System Ready".spec_bytes(), wiring));
                    lemma_attempted_each_push(t0, s0, t0, clear_frame(wiring), t1);
                    lemma_attempted_each_push(t0, s1, t1, cursor_frame(0, 0, wiring), t2);
                    lemma_attempted_each_push(
                        t0,
                        s2,
                        t2,
                        text_frames("ESP32-C3 Mini".spec_bytes(), wiring),
                        t3,
                    );
                    lemma_attempted_each_push(t0, s3, t3, cursor_frame(0, 1, wiring), t4);
                    lemma_attempted_each_push(
                        t0,
                        s4,
                        t4,
                        text_frames("System Ready".spec_bytes(), wiring),
                        lcd.trace(),
                    );
                    assert(s5 =~= boot_script(wiring));
                }
            },
            None => {},
        }
    }

    /// Tells the state of the indicator on the second row.
    pub fn show_led(&mut self, on: bool)
        requires
            old(self).wf(),
        ensures
            Self::shown(*old(self), write_at(1, led_label(on), old(self).wiring()), *final(self)),
    {
        let label = if on {
            "LED: ON "
        } else {
            "LED: OFF"
        };
        self.show_message(1, label);
    }

    /// Writes `msg` from the first column of `line`; every line but the first
    /// is the second. A write that the bus refuses is passed over.
    pub fn show_message(&mut self, line: u8, msg: &str)
        requires
            old(self).wf(),
        ensures
            Self::shown(
                *old(self),
                write_at(line, msg.spec_bytes(), old(self).wiring()),
                *final(self),
            ),
    {
        let ghost wiring = self.wiring();
        let ghost t0 = self.trace();
        match &mut self.lcd {
            Some(lcd) => {
                let _ = lcd.set_cursor(0, line, &mut self.delay);
                let ghost t1 = lcd.trace();
                let _ = lcd.print(msg, &mut self.delay);
                proof {
                    let s0 = Seq::<Seq<Signal>>::empty();
                    let s1 = s0.push(cursor_frame(0, line, wiring));
                    let s2 = s1.push(text_frames(msg.spec_bytes(), wiring));
                    lemma_attempted_each_push(t0, s0, t0, cursor_frame(0, line, wiring), t1);
                    lemma_attempted_each_push(
                        t0,
                        s1,
                        t1,
                        text_frames(msg.spec_bytes(), wiring),
                        lcd.trace(),
                    );
                    assert(s2 =~= write_at(line, msg.spec_bytes(), wiring));
                }
            },
            None => {},
        }
    }

    /// Overwrites the first `cols` cells of `row` with spaces. Nothing is read
    /// back and no cell beyond them is touched.
    pub fn clear_row(&mut self, row: u8, cols: usize)
        requires
            old(self).wf(),
        ensures
            Self::shown(
                *old(self),
                write_at(row, blank(cols as nat), old(self).wiring()),
                *final(self),
            ),
    {
        let spaces = blank_row(cols);
        self.show_message(row, spaces.as_str());
    }
}

/// Showing one script and then another is showing the two as one.
pub proof fn lemma_shown_then<I2C, D>(
    before: LcdDisplay<I2C, D>,
    first: Seq<Seq<Signal>>,
    mid: LcdDisplay<I2C, D>,
    second: Seq<Seq<Signal>>,
    after: LcdDisplay<I2C, D>,
)
    requires
        LcdDisplay::shown(before, first, mid),
        LcdDisplay::shown(mid, second, after),
    ensures
        LcdDisplay::shown(before, first + second, after),
{
    if !before.degraded() {
        lemma_attempted_each_concat(before.trace(), first, mid.trace(), second, after.trace());
    }
}

/// A degraded display stays degraded and nothing is asked of the bus or the
/// delay line on its behalf, whether it is started or shown something.
pub proof fn lemma_degraded_is_silent<I2C, D>(
    before: LcdDisplay<I2C, D>,
    script: Seq<Seq<Signal>>,
    after: LcdDisplay<I2C, D>,
)
    requires
        before.degraded(),
        LcdDisplay::started(before, after) || LcdDisplay::shown(before, script, after),
    ensures
        after.degraded(),
        after.trace() == before.trace(),
{
}

/// A display whose clear command is refused at start is degraded from then
/// on: whatever it is shown afterwards, nothing more is asked of the bus.
pub proof fn lemma_failed_start_silences<I2C, D>(
    before: LcdDisplay<I2C, D>,
    started: LcdDisplay<I2C, D>,
    script: Seq<Seq<Signal>>,
    after: LcdDisplay<I2C, D>,
)
    requires
        !before.degraded(),
        LcdDisplay::started(before, started),
        performed(before.trace(), clear_frame(before.wiring()), started.trace(), false),
        LcdDisplay::shown(started, script, after),
    ensures
        started.degraded(),
        started.driver() is None,
        after.degraded(),
        after.driver() is None,
        after.trace() == started.trace(),
{
    lemma_plans_clean(before.wiring());
    lemma_performed_decided(
        before.trace(),
        clear_frame(before.wiring()),
        started.trace(),
    );
}

/// While the bus takes every byte handed to it, what a working display is
/// shown is added to the record in full and in order, and nothing else is,
/// whatever went before.
pub proof fn lemma_shown_in_full<I2C, D>(
    before: LcdDisplay<I2C, D>,
    script: Seq<Seq<Signal>>,
    after: LcdDisplay<I2C, D>,
)
    requires
        !before.degraded(),
        LcdDisplay::shown(before, script, after),
        clean(added(before.trace(), after.trace())),
    ensures
        after.trace() == before.trace() + in_turn(script),
{
    lemma_attempted_each_taken(before.trace(), script, after.trace());
}

/// Clearing a row is one write of `cols` spaces from the first column of the
/// row: while the bus takes every byte handed to it, the cursor command for
/// the row and the spaces are all that is added to the record, whatever the
/// record holds and whatever the row showed.
pub proof fn lemma_clear_row_overwrites<I2C, D>(
    before: LcdDisplay<I2C, D>,
    row: u8,
    cols: nat,
    after: LcdDisplay<I2C, D>,
)
    requires
        !before.degraded(),
        LcdDisplay::shown(before, write_at(row, blank(cols), before.wiring()), after),
        clean(added(before.trace(), after.trace())),
    ensures
        after.trace() == before.trace() + cursor_frame(0, row, before.wiring()) + text_frames(
            blank(cols),
            before.wiring(),
        ),
        blank(cols).len() == cols,
        forall|i: int| 0 <= i < cols ==> blank(cols)[i] == 0x20u8,
{
    let wiring = before.wiring();
    let script = write_at(row, blank(cols), wiring);
    lemma_shown_in_full(before, script, after);
    assert(script.drop_last() =~= seq![cursor_frame(0, row, wiring)]);
    assert(script.drop_last().drop_last() =~= Seq::<Seq<Signal>>::empty());
    assert(in_turn(script.drop_last().drop_last()) =~= Seq::<Signal>::empty());
    assert(in_turn(script.drop_last()) =~= cursor_frame(0, row, wiring));
    assert(in_turn(script) =~= cursor_frame(0, row, wiring) + text_frames(blank(cols), wiring));
    assert(after.trace() =~= before.trace() + cursor_frame(0, row, wiring) + text_frames(
        blank(cols),
        wiring,
    ));
}

/// A string of `cols` spaces.
fn blank_row(cols: usize) -> (row: String)
    ensures
        row@ == Seq::new(cols as nat, |i: int| ' '),
        vstd::utf8::encode_utf8(row@) == blank(cols as nat),
{
    let mut row = String::new();
    let mut i: usize = 0;
    while i < cols
        invariant
            i <= cols,
            row@ == Seq::new(i as nat, |k: int| ' '),
        decreases cols - i,
    {
        proof {
            reveal_strlit(" ");
        }
        row.append(" ");
        i += 1;
        assert(row@ =~= Seq::new(i as nat, |k: int| ' '));
    }
    proof {
        vstd::utf8::is_ascii_chars_encode_utf8(row@);
        assert(vstd::utf8::encode_utf8(row@) =~= blank(cols as nat));
    }
    row
}

} // verus!
