//! The boot sequence and the status loop, one step at a time.
//!
//! The caller owns the clock: it calls `App::step`, waits for as long as the
//! step asks, and calls it again, for ever. A step deals with one part of the
//! device only, so what is asked of the display, the radio and the indicator
//! is asked in the order of the stages.

use embedded_hal::delay::DelayNs;
use embedded_hal::digital::OutputPin;
use embedded_hal::i2c::I2c;
use vstd::prelude::*;
use vstd::string::StringSliceAdditionalSpecFns;
use crate::controller::Controller;
use crate::display::{blank, boot_script, led_label, lemma_shown_then, write_at, LcdDisplay};
use crate::hardware::Hardware;
use crate::lcd_i2c::Wiring;
use crate::led::Led;
use crate::signal::Signal;
use crate::wifi::{joined, polled, Wifi, WifiService, WifiStatus};

verus! {

/// Cells in a row of the display.
pub const ROW_WIDTH: usize = 16;

/// Milliseconds for which the indicator is lit in each round.
pub const LIT_MS: u32 = 2000;

/// Milliseconds for which the indicator is dark in each round.
pub const DARK_MS: u32 = 2000;

/// Milliseconds of rest that end each round.
pub const REST_MS: u32 = 1000;

/// Where the device stands in its life. The first three stages are the boot
/// sequence and come once; the other six are a round of the status loop and
/// come round for ever.
#[derive(Debug, Clone, Copy, PartialEq, Eq, Structural)]
pub enum Stage {
    /// Nothing has been done yet: the display is to be started and shown the
    /// welcome.
    Boot,
    /// The radio is to be asked to join.
    Join,
    /// The display is to be shown the placeholder for the state of the link.
    Announce,
    /// A round begins: the heartbeat is to flip and the indicator to follow
    /// it.
    Beat,
    /// The link is to be polled.
    Poll,
    /// The state of the link, as the poll found it, is to be shown.
    Report(WifiStatus),
    /// The indicator is to be lit, and to stay so for its time.
    Light,
    /// The indicator is to be put out, and to stay so for its time.
    Dim,
    /// The round ends with a rest.
    Rest,
}

/// The line that tells the state of the link.
pub open spec fn status_text(status: WifiStatus) -> Seq<u8> {
    match status {
        WifiStatus::Connected => "Connected.".spec_bytes(),
        WifiStatus::Disconnected => "Failed.".spec_bytes(),
    }
}

/// What the boot sequence shows before the radio is started: the boot
/// screen, the indicator as off, and a greeting over the first row.
pub open spec fn welcome_script(wiring: Wiring) -> Seq<Seq<Signal>> {
    boot_script(wiring) + write_at(1, led_label(false), wiring) + write_at(
        0,
        "Hello ESP32".spec_bytes(),
        wiring,
    )
}

/// What the boot sequence shows once the radio has been started: both rows
/// blanked, then the heading and a placeholder for the state of the link.
pub open spec fn connecting_script(wiring: Wiring) -> Seq<Seq<Signal>> {
    write_at(0, blank(ROW_WIDTH as nat), wiring) + write_at(
        1,
        blank(ROW_WIDTH as nat),
        wiring,
    ) + write_at(0, "WiFi status:".spec_bytes(), wiring) + write_at(
        1,
        "Connecting...".spec_bytes(),
        wiring,
    )
}

/// What a round shows: the second row blanked, then the state of the link.
pub open spec fn status_script(status: WifiStatus, wiring: Wiring) -> Seq<Seq<Signal>> {
    write_at(1, blank(ROW_WIDTH as nat), wiring) + write_at(
        1,
        status_text(status),
        wiring,
    )
}

/// The device: its heartbeat, its parts, and where it stands.
///
/// What the device asks of the outside it asks through its parts, and each
/// part answers for its own record. A step deals with one part only and
/// leaves the others as they were, so the order in which the parts are dealt
/// with is the order of the stages.
pub struct App<PIN, I2C, D, W: Wifi> {
    ctrl: Controller,
    hw: Hardware<PIN, I2C, D, W>,
    stage: Stage,
}

impl<PIN, I2C, D, W: Wifi> App<PIN, I2C, D, W> {
    /// The value of the heartbeat.
    pub closed spec fn heartbeat(&self) -> bool {
        self.ctrl@
    }

    /// The indicator.
    pub closed spec fn led(&self) -> Led<PIN> {
        self.hw.led
    }

    /// The display.
    pub closed spec fn display(&self) -> LcdDisplay<I2C, D> {
        self.hw.display
    }

    /// The WiFi lifecycle.
    pub closed spec fn wifi(&self) -> WifiService<W> {
        self.hw.wifi
    }

    /// Where the device stands.
    pub closed spec fn stage(&self) -> Stage {
        self.stage
    }

    /// The display is well formed.
    pub open spec fn wf(&self) -> bool {
        self.display().wf()
    }

    /// The step dealt with the display, if with anything.
    pub open spec fn display_only(before: Self, after: Self) -> bool {
        &&& after.heartbeat() == before.heartbeat()
        &&& after.led() == before.led()
        &&& after.wifi() == before.wifi()
    }

    /// The step dealt with the radio, if with anything.
    pub open spec fn radio_only(before: Self, after: Self) -> bool {
        &&& after.heartbeat() == before.heartbeat()
        &&& after.led() == before.led()
        &&& after.display() == before.display()
        &&& after.wifi().same_credentials(&before.wifi())
    }

    /// The step dealt with the indicator, if with anything.
    pub open spec fn led_only(before: Self, after: Self) -> bool {
        &&& after.display() == before.display()
        &&& after.wifi() == before.wifi()
    }

    /// What one step makes of the device, and how long the caller is to wait
    /// before the next.
    pub open spec fn stepped(before: Self, after: Self, wait: Option<u32>) -> bool {
        match before.stage() {
            Stage::Boot => {
                &&& Self::display_only(before, after)
                &&& welcomed(before.display(), after.display())
                &&& after.stage() == Stage::Join
                &&& wait is None
            },
            Stage::Join => {
                &&& Self::radio_only(before, after)
                &&& exists|status: WifiStatus| #[trigger]
                    joined(
                        before.wifi().calls(),
                        before.wifi().ssid(),
                        before.wifi().password(),
                        after.wifi().calls(),
                        status,
                    )
                &&& after.stage() == Stage::Announce
                &&& wait is None
            },
            Stage::Announce => {
                &&& Self::display_only(before, after)
                &&& LcdDisplay::shown(
                    before.display(),
                    connecting_script(before.display().wiring()),
                    after.display(),
                )
                &&& after.stage() == Stage::Beat
                &&& wait is None
            },
            Stage::Beat => {
                &&& Self::led_only(before, after)
                &&& after.heartbeat() == !before.heartbeat()
                &&& after.led().levels() == before.led().levels().push(after.heartbeat())
                &&& after.stage() == Stage::Poll
                &&& wait is None
            },
            Stage::Poll => {
                &&& Self::radio_only(before, after)
                &&& match after.stage() {
                    Stage::Report(status) => polled(
                        before.wifi().calls(),
                        before.wifi().ssid(),
                        before.wifi().password(),
                        after.wifi().calls(),
                        status,
                    ),
                    _ => false,
                }
                &&& wait is None
            },
            Stage::Report(status) => {
                &&& Self::display_only(before, after)
                &&& LcdDisplay::shown(
                    before.display(),
                    status_script(status, before.display().wiring()),
                    after.display(),
                )
                &&& after.stage() == Stage::Light
                &&& wait is None
            },
            Stage::Light => {
                &&& Self::led_only(before, after)
                &&& after.heartbeat() == before.heartbeat()
                &&& after.led().levels() == before.led().levels().push(true)
                &&& after.stage() == Stage::Dim
                &&& wait == Some(LIT_MS)
            },
            Stage::Dim => {
                &&& Self::led_only(before, after)
                &&& after.heartbeat() == before.heartbeat()
                &&& after.led().levels() == before.led().levels().push(false)
                &&& after.stage() == Stage::Rest
                &&& wait == Some(DARK_MS)
            },
            Stage::Rest => {
                &&& Self::led_only(before, after)
                &&& after.heartbeat() == before.heartbeat()
                &&& after.led() == before.led()
                &&& after.stage() == Stage::Beat
                &&& wait == Some(REST_MS)
            },
        }
    }
}

impl<PIN, I2C, D, W> App<PIN, I2C, D, W> where PIN: OutputPin, I2C: I2c, D: DelayNs, W: Wifi {
    /// A device that has yet to boot, with its heartbeat at `false`.
    pub fn new(hw: Hardware<PIN, I2C, D, W>) -> (app: Self)
        requires
            hw.display.wf(),
        ensures
            app.wf(),
            !app.heartbeat(),
            app.led() == hw.led,
            app.display() == hw.display,
            app.wifi() == hw.wifi,
            app.stage() == Stage::Boot,
    {
        Self { ctrl: Controller::new(), hw, stage: Stage::Boot }
    }

    /// Does what is due at the stage the device stands at, moves it to the
    /// next, and returns the milliseconds to wait before the next step, if
    /// any.
    pub fn step(&mut self) -> (wait: Option<u32>)
        requires
            old(self).wf(),
        ensures
            final(self).wf(),
            Self::stepped(*old(self), *final(self), wait),
    {
        match self.stage {
            Stage::Boot => {
                welcome(&mut self.hw.display);
                self.stage = Stage::Join;
                None
            },
            Stage::Join => {
                let status = self.hw.wifi.start();
                self.stage = Stage::Announce;
                assert(joined(
                    old(self).wifi().calls(),
                    old(self).wifi().ssid(),
                    old(self).wifi().password(),
                    self.wifi().calls(),
                    status,
                ));
                None
            },
            Stage::Announce => {
                announce(&mut self.hw.display);
                self.stage = Stage::Beat;
                None
            },
            Stage::Beat => {
                let state = self.ctrl.toggle();
                self.hw.led.set(state);
                self.stage = Stage::Poll;
                None
            },
            Stage::Poll => {
                let status = self.hw.wifi.poll();
                self.stage = Stage::Report(status);
                None
            },
            Stage::Report(status) => {
                report(&mut self.hw.display, status);
                self.stage = Stage::Light;
                None
            },
            Stage::Light => {
                self.hw.led.set(true);
                self.stage = Stage::Dim;
                Some(LIT_MS)
            },
            Stage::Dim => {
                self.hw.led.set(false);
                self.stage = Stage::Rest;
                Some(DARK_MS)
            },
            Stage::Rest => {
                self.stage = Stage::Beat;
                Some(REST_MS)
            },
        }
    }
}

/// What the first stage of the boot sequence makes of the display: it is
/// started, and what comes of that is shown the welcome.
pub open spec fn welcomed<I2C, D>(before: LcdDisplay<I2C, D>, after: LcdDisplay<I2C, D>) -> bool {
    exists|mid: LcdDisplay<I2C, D>|
        #[trigger] LcdDisplay::started(before, mid) && LcdDisplay::shown(
            mid,
            welcome_script(mid.wiring()),
            after,
        )
}

/// Starts the display and shows the welcome.
fn welcome<I2C: I2c, D: DelayNs>(display: &mut LcdDisplay<I2C, D>)
    requires
        old(display).wf(),
    ensures
        final(display).wf(),
        welcomed(*old(display), *final(display)),
{
    display.init();
    let ghost d1 = *display;
    let ghost wiring = d1.wiring();
    display.boot_screen();
    let ghost d2 = *display;
    display.show_led(false);
    let ghost d3 = *display;
    display.show_message(0, "Hello ESP32");
    proof {
        let one = boot_script(wiring) + write_at(1, led_label(false), wiring);
        lemma_shown_then(d1, boot_script(wiring), d2, write_at(1, led_label(false), wiring), d3);
        lemma_shown_then(d1, one, d3, write_at(0, "Hello ESP32".spec_bytes(), wiring), *display);
        assert(LcdDisplay::started(*old(display), d1));
    }
}

/// Shows the placeholder for the state of the link.
fn announce<I2C: I2c, D: DelayNs>(display: &mut LcdDisplay<I2C, D>)
    requires
        old(display).wf(),
    ensures
        final(display).wf(),
        LcdDisplay::shown(*old(display), connecting_script(old(display).wiring()), *final(display)),
{
    let ghost wiring = display.wiring();
    display.clear_row(0, ROW_WIDTH);
    let ghost d1 = *display;
    display.clear_row(1, ROW_WIDTH);
    let ghost d2 = *display;
    display.show_message(0, "WiFi status:");
    let ghost d3 = *display;
    display.show_message(1, "Connecting...");
    proof {
        let row0 = write_at(0, blank(ROW_WIDTH as nat), wiring);
        let row1 = write_at(1, blank(ROW_WIDTH as nat), wiring);
        let head = write_at(0, "WiFi status:".spec_bytes(), wiring);
        let tail = write_at(1, "Connecting...".spec_bytes(), wiring);
        lemma_shown_then(*old(display), row0, d1, row1, d2);
        lemma_shown_then(*old(display), row0 + row1, d2, head, d3);
        lemma_shown_then(*old(display), row0 + row1 + head, d3, tail, *display);
    }
}

/// Shows the state of the link on the second row.
fn report<I2C: I2c, D: DelayNs>(display: &mut LcdDisplay<I2C, D>, status: WifiStatus)
    requires
        old(display).wf(),
    ensures
        final(display).wf(),
        LcdDisplay::shown(
            *old(display),
            status_script(status, old(display).wiring()),
            *final(display),
        ),
{
    let ghost wiring = display.wiring();
    let text = match status {
        WifiStatus::Connected => "Connected.",
        WifiStatus::Disconnected => "Failed.",
    };
    display.clear_row(1, ROW_WIDTH);
    let ghost d1 = *display;
    display.show_message(1, text);
    proof {
        lemma_shown_then(
            *old(display),
            write_at(1, blank(ROW_WIDTH as nat), wiring),
            d1,
            write_at(1, status_text(status), wiring),
            *display,
        );
    }
}

/// The boot sequence is three steps: the display is started and shown the
/// welcome, then the radio is asked once to join with the stored credentials,
/// then the display is shown the placeholder for the state of the link. No
/// step asks for a wait, the indicator and the heartbeat are left alone, and
/// the first round is next.
pub proof fn lemma_boot_sequence<PIN, I2C, D, W: Wifi>(
    s0: App<PIN, I2C, D, W>,
    s1: App<PIN, I2C, D, W>,
    s2: App<PIN, I2C, D, W>,
    s3: App<PIN, I2C, D, W>,
    w1: Option<u32>,
    w2: Option<u32>,
    w3: Option<u32>,
)
    requires
        s0.stage() == Stage::Boot,
        App::stepped(s0, s1, w1),
        App::stepped(s1, s2, w2),
        App::stepped(s2, s3, w3),
    ensures
        s3.stage() == Stage::Beat,
        w1 is None && w2 is None && w3 is None,
        s3.heartbeat() == s0.heartbeat(),
        s3.led() == s0.led(),
        welcomed(s0.display(), s1.display()),
        s1.wifi() == s0.wifi() && s2.display() == s1.display(),
        exists|status: WifiStatus| #[trigger]
            joined(
                s0.wifi().calls(),
                s0.wifi().ssid(),
                s0.wifi().password(),
                s3.wifi().calls(),
                status,
            ),
        s3.wifi().same_credentials(&s0.wifi()),
        LcdDisplay::shown(s1.display(), connecting_script(s1.display().wiring()), s3.display()),
{
    let status = choose|status: WifiStatus| #[trigger]
        joined(
            s1.wifi().calls(),
            s1.wifi().ssid(),
            s1.wifi().password(),
            s2.wifi().calls(),
            status,
        );
    assert(joined(
        s0.wifi().calls(),
        s0.wifi().ssid(),
        s0.wifi().password(),
        s3.wifi().calls(),
        status,
    ));
}

/// A round is six steps, from beat to beat: the heartbeat flips and the
/// indicator is set to it; then the link is polled; then the state of the
/// link, as that poll found it, is shown on the second row; then the
/// indicator is lit for `LIT_MS`, put out for `DARK_MS`, and the device rests
/// for `REST_MS`. Each part is dealt with at its own steps and left alone at
/// the others.
pub proof fn lemma_round<PIN, I2C, D, W: Wifi>(
    s0: App<PIN, I2C, D, W>,
    s1: App<PIN, I2C, D, W>,
    s2: App<PIN, I2C, D, W>,
    s3: App<PIN, I2C, D, W>,
    s4: App<PIN, I2C, D, W>,
    s5: App<PIN, I2C, D, W>,
    s6: App<PIN, I2C, D, W>,
    w1: Option<u32>,
    w2: Option<u32>,
    w3: Option<u32>,
    w4: Option<u32>,
    w5: Option<u32>,
    w6: Option<u32>,
)
    requires
        s0.stage() == Stage::Beat,
        App::stepped(s0, s1, w1),
        App::stepped(s1, s2, w2),
        App::stepped(s2, s3, w3),
        App::stepped(s3, s4, w4),
        App::stepped(s4, s5, w5),
        App::stepped(s5, s6, w6),
    ensures
        s6.stage() == Stage::Beat,
        w1 is None && w2 is None && w3 is None,
        w4 == Some(LIT_MS) && w5 == Some(DARK_MS) && w6 == Some(REST_MS),
        s6.heartbeat() == !s0.heartbeat(),
        s1.led().levels() == s0.led().levels().push(!s0.heartbeat()),
        s1.wifi() == s0.wifi() && s1.display() == s0.display(),
        s2.stage() is Report,
        polled(
            s0.wifi().calls(),
            s0.wifi().ssid(),
            s0.wifi().password(),
            s6.wifi().calls(),
            s2.stage()->Report_0,
        ),
        s6.wifi().same_credentials(&s0.wifi()),
        s2.led() == s1.led() && s2.display() == s0.display(),
        LcdDisplay::shown(
            s0.display(),
            status_script(s2.stage()->Report_0, s0.display().wiring()),
            s6.display(),
        ),
        s3.led() == s1.led() && s3.wifi() == s6.wifi(),
        s6.led().levels() == s0.led().levels().push(!s0.heartbeat()).push(true).push(false),
{
}

} // verus!
