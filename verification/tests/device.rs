use core::convert::Infallible;
use std::cell::RefCell;
use std::rc::Rc;

use embedded_hal::delay::DelayNs;
use embedded_hal::digital::{ErrorType as DigitalErrorType, OutputPin};
use embedded_hal::i2c::{
    ErrorKind, ErrorType as I2cErrorType, I2c, Operation, SevenBitAddress,
};
use firmware_core::hardware::{init, LCD_ADDRESS};
use firmware_core::orchestrator::{DARK_MS, LIT_MS, REST_MS, ROW_WIDTH};
use firmware_core::{App, Wifi, WifiStatus};

/// What the device asked of its parts, in the order in which it asked.
#[derive(Debug, Clone, PartialEq, Eq)]
enum Event {
    Pin(bool),
    Bus(u8, u8),
    Connect(String, String),
    IsConnected,
}

type Journal = Rc<RefCell<Vec<Event>>>;

struct Pin {
    journal: Journal,
}

impl DigitalErrorType for Pin {
    type Error = Infallible;
}

impl OutputPin for Pin {
    fn set_high(&mut self) -> Result<(), Self::Error> {
        self.journal.borrow_mut().push(Event::Pin(true));
        Ok(())
    }

    fn set_low(&mut self) -> Result<(), Self::Error> {
        self.journal.borrow_mut().push(Event::Pin(false));
        Ok(())
    }
}

struct Bus {
    journal: Journal,
    dead: bool,
}

impl I2cErrorType for Bus {
    type Error = ErrorKind;
}

impl I2c<SevenBitAddress> for Bus {
    fn transaction(
        &mut self,
        addr: SevenBitAddress,
        operations: &mut [Operation<'_>],
    ) -> Result<(), Self::Error> {
        for op in operations {
            if let Operation::Write(bytes) = op {
                self.journal.borrow_mut().push(Event::Bus(addr, bytes[0]));
                if self.dead {
                    return Err(ErrorKind::Other);
                }
            }
        }
        Ok(())
    }
}

struct NoDelay;

impl DelayNs for NoDelay {
    fn delay_ns(&mut self, _ns: u32) {}
}

struct Radio {
    journal: Journal,
    linked: Rc<RefCell<bool>>,
    joins: bool,
}

impl Wifi for Radio {
    fn connect(&mut self, ssid: &str, password: &str) -> WifiStatus {
        self.journal.borrow_mut().push(Event::Connect(ssid.to_string(), password.to_string()));
        *self.linked.borrow_mut() = self.joins;
        WifiStatus::from_link(self.joins)
    }

    fn is_connected(&self) -> bool {
        self.journal.borrow_mut().push(Event::IsConnected);
        *self.linked.borrow()
    }
}

/// What the display was told, as (register select, byte) pairs, with what
/// the other parts were asked in between left in place.
#[derive(Debug, Clone, PartialEq, Eq)]
enum Told {
    Lcd(bool, u8),
    Other(Event),
}

fn told(events: &[Event]) -> Vec<Told> {
    let mut out = Vec::new();
    let mut nibbles: Vec<u8> = Vec::new();
    for event in events {
        match event {
            Event::Bus(_, byte) => {
                if byte & 0x04 != 0 {
                    nibbles.push(*byte);
                    if nibbles.len() == 2 {
                        out.push(Told::Lcd(
                            nibbles[0] & 0x01 != 0,
                            (nibbles[0] & 0xF0) | (nibbles[1] >> 4),
                        ));
                        nibbles.clear();
                    }
                }
            }
            other => {
                assert!(nibbles.is_empty());
                out.push(Told::Other(other.clone()));
            }
        }
    }
    assert!(nibbles.is_empty());
    out
}

fn line(row: u8, text: &str) -> Vec<Told> {
    let mut out = vec![Told::Lcd(false, if row == 0 { 0x80 } else { 0xC0 })];
    out.extend(text.bytes().map(|b| Told::Lcd(true, b)));
    out
}

fn device(dead_bus: bool, linked: bool, joins: bool) -> (App<Pin, Bus, NoDelay, Radio>, Journal) {
    let journal: Journal = Rc::new(RefCell::new(Vec::new()));
    let hw = init(
        Pin { journal: journal.clone() },
        Bus { journal: journal.clone(), dead: dead_bus },
        NoDelay,
        Radio { journal: journal.clone(), linked: Rc::new(RefCell::new(linked)), joins },
    );
    (App::new(hw), journal)
}

fn drain(journal: &Journal) -> Vec<Event> {
    journal.borrow_mut().drain(..).collect()
}

#[test]
fn hardware_init_brings_up_the_display_and_nothing_else() {
    let journal: Journal = Rc::new(RefCell::new(Vec::new()));
    let hw = init(
        Pin { journal: journal.clone() },
        Bus { journal: journal.clone(), dead: false },
        NoDelay,
        Radio { journal: journal.clone(), linked: Rc::new(RefCell::new(false)), joins: true },
    );

    assert!(!hw.display.is_degraded());
    let events = drain(&journal);
    assert_eq!(events.len(), 24);
    assert!(events.iter().all(|e| matches!(e, Event::Bus(addr, _) if *addr == LCD_ADDRESS)));
    assert_eq!(LCD_ADDRESS, 0x27);
    assert_eq!(
        told(&events),
        vec![
            Told::Lcd(false, 0x33),
            Told::Lcd(false, 0x32),
            Told::Lcd(false, 0x28),
            Told::Lcd(false, 0x0C),
            Told::Lcd(false, 0x06),
            Told::Lcd(false, 0x01),
        ]
    );
}

#[test]
fn hardware_init_goes_on_without_a_display() {
    let journal: Journal = Rc::new(RefCell::new(Vec::new()));
    let mut hw = init(
        Pin { journal: journal.clone() },
        Bus { journal: journal.clone(), dead: true },
        NoDelay,
        Radio { journal: journal.clone(), linked: Rc::new(RefCell::new(false)), joins: true },
    );

    assert!(hw.display.is_degraded());
    assert_eq!(drain(&journal).len(), 1);

    hw.display.show_message(0, "Hello");
    assert!(drain(&journal).is_empty());
}

#[test]
fn hardware_init_uses_the_default_credentials() {
    let journal: Journal = Rc::new(RefCell::new(Vec::new()));
    let mut hw = init(
        Pin { journal: journal.clone() },
        Bus { journal: journal.clone(), dead: true },
        NoDelay,
        Radio { journal: journal.clone(), linked: Rc::new(RefCell::new(false)), joins: true },
    );
    drain(&journal);

    assert_eq!(hw.wifi.start(), WifiStatus::Connected);

    assert_eq!(
        drain(&journal),
        vec![Event::Connect("ICON+".to_string(), "M12@n0@mrq@15@r@".to_string())]
    );
}

/// Steps the device until a step asks for a wait, as the loop around it
/// does, and returns the wait.
fn until_wait(app: &mut App<Pin, Bus, NoDelay, Radio>) -> u32 {
    loop {
        if let Some(ms) = app.step() {
            return ms;
        }
    }
}

/// Steps the device through its boot sequence.
fn boot(app: &mut App<Pin, Bus, NoDelay, Radio>) {
    for _ in 0..3 {
        assert_eq!(app.step(), None);
    }
}

fn credentials() -> Event {
    Event::Connect("ICON+".to_string(), "M12@n0@mrq@15@r@".to_string())
}

#[test]
fn app_boots_in_three_steps() {
    let (mut app, journal) = device(false, false, true);
    drain(&journal);

    // The display is started and shown the welcome.
    assert_eq!(app.step(), None);
    let mut expected = vec![Told::Lcd(false, 0x01), Told::Lcd(false, 0x01)];
    expected.extend(line(0, "ESP32-C3 Mini"));
    expected.extend(line(1, "System Ready"));
    expected.extend(line(1, "LED: OFF"));
    expected.extend(line(0, "Hello ESP32"));
    assert_eq!(told(&drain(&journal)), expected);

    // The radio is asked once to join.
    assert_eq!(app.step(), None);
    assert_eq!(drain(&journal), vec![credentials()]);

    // The display is shown the placeholder.
    assert_eq!(app.step(), None);
    let mut expected = line(0, "                ");
    expected.extend(line(1, "                "));
    expected.extend(line(0, "WiFi status:"));
    expected.extend(line(1, "Connecting..."));
    assert_eq!(told(&drain(&journal)), expected);
}

#[test]
fn app_round_is_six_steps_one_part_each() {
    let (mut app, journal) = device(false, false, true);
    boot(&mut app);
    drain(&journal);

    // The heartbeat goes up and the indicator follows.
    assert_eq!(app.step(), None);
    assert_eq!(drain(&journal), vec![Event::Pin(true)]);

    // The link, up since the boot sequence, is polled.
    assert_eq!(app.step(), None);
    assert_eq!(drain(&journal), vec![Event::IsConnected]);

    // Its state is shown.
    assert_eq!(app.step(), None);
    let mut expected = line(1, "                ");
    expected.extend(line(1, "Connected."));
    assert_eq!(told(&drain(&journal)), expected);

    // Lit, dark, rest.
    assert_eq!(app.step(), Some(2000));
    assert_eq!(drain(&journal), vec![Event::Pin(true)]);
    assert_eq!(app.step(), Some(2000));
    assert_eq!(drain(&journal), vec![Event::Pin(false)]);
    assert_eq!(app.step(), Some(1000));
    assert!(drain(&journal).is_empty());

    // The next round begins with the heartbeat going down; there is no
    // second boot.
    assert_eq!(app.step(), None);
    assert_eq!(drain(&journal), vec![Event::Pin(false)]);
}

#[test]
fn app_boots_once_then_runs_rounds() {
    let (mut app, journal) = device(false, false, true);
    drain(&journal);

    // Boot, and the first round up to its first wait: the heartbeat goes up,
    // the link is found up.
    assert_eq!(until_wait(&mut app), 2000);
    let mut expected = vec![Told::Lcd(false, 0x01), Told::Lcd(false, 0x01)];
    expected.extend(line(0, "ESP32-C3 Mini"));
    expected.extend(line(1, "System Ready"));
    expected.extend(line(1, "LED: OFF"));
    expected.extend(line(0, "Hello ESP32"));
    expected.push(Told::Other(credentials()));
    expected.extend(line(0, "                "));
    expected.extend(line(1, "                "));
    expected.extend(line(0, "WiFi status:"));
    expected.extend(line(1, "Connecting..."));
    expected.extend(vec![Told::Other(Event::Pin(true)), Told::Other(Event::IsConnected)]);
    expected.extend(line(1, "                "));
    expected.extend(line(1, "Connected."));
    expected.push(Told::Other(Event::Pin(true)));
    assert_eq!(told(&drain(&journal)), expected);

    assert_eq!(until_wait(&mut app), 2000);
    assert_eq!(drain(&journal), vec![Event::Pin(false)]);

    assert_eq!(until_wait(&mut app), 1000);
    assert!(drain(&journal).is_empty());

    // Second round: the heartbeat goes down; there is no second boot.
    assert_eq!(until_wait(&mut app), 2000);
    let mut expected = vec![Told::Other(Event::Pin(false)), Told::Other(Event::IsConnected)];
    expected.extend(line(1, "                "));
    expected.extend(line(1, "Connected."));
    expected.push(Told::Other(Event::Pin(true)));
    assert_eq!(told(&drain(&journal)), expected);
}

#[test]
fn app_shows_failed_while_the_radio_stays_down() {
    let (mut app, journal) = device(false, false, false);
    boot(&mut app);
    drain(&journal);

    for round in 0..3 {
        assert_eq!(until_wait(&mut app), LIT_MS);
        let mut expected = vec![
            Told::Other(Event::Pin(round % 2 == 0)),
            Told::Other(Event::IsConnected),
            Told::Other(credentials()),
            Told::Other(Event::IsConnected),
        ];
        expected.extend(line(1, &" ".repeat(ROW_WIDTH)));
        expected.extend(line(1, "Failed."));
        expected.push(Told::Other(Event::Pin(true)));
        assert_eq!(told(&drain(&journal)), expected);

        assert_eq!(until_wait(&mut app), DARK_MS);
        assert_eq!(until_wait(&mut app), REST_MS);
        assert_eq!(drain(&journal), vec![Event::Pin(false)]);
    }
}

#[test]
fn app_shows_what_the_poll_found_not_what_is_so_later() {
    let linked = Rc::new(RefCell::new(false));
    let journal: Journal = Rc::new(RefCell::new(Vec::new()));
    let hw = init(
        Pin { journal: journal.clone() },
        Bus { journal: journal.clone(), dead: false },
        NoDelay,
        Radio { journal: journal.clone(), linked: linked.clone(), joins: false },
    );
    let mut app = App::new(hw);
    boot(&mut app);

    // Beat, then a poll that finds the link down and cannot bring it up.
    assert_eq!(app.step(), None);
    assert_eq!(app.step(), None);
    // The link comes up by itself before the state is shown.
    *linked.borrow_mut() = true;
    drain(&journal);

    assert_eq!(app.step(), None);
    let mut expected = line(1, "                ");
    expected.extend(line(1, "Failed."));
    assert_eq!(told(&drain(&journal)), expected);
}

#[test]
fn app_runs_without_a_display() {
    let (mut app, journal) = device(true, true, true);
    drain(&journal);

    boot(&mut app);
    assert_eq!(drain(&journal), vec![credentials()]);

    assert_eq!(until_wait(&mut app), 2000);
    assert_eq!(drain(&journal), vec![Event::Pin(true), Event::IsConnected, Event::Pin(true)]);
    assert_eq!(until_wait(&mut app), 2000);
    assert_eq!(until_wait(&mut app), 1000);
    assert_eq!(drain(&journal), vec![Event::Pin(false)]);
}

#[test]
fn app_constants() {
    assert_eq!(ROW_WIDTH, 16);
    assert_eq!(LIT_MS, 2000);
    assert_eq!(DARK_MS, 2000);
    assert_eq!(REST_MS, 1000);
}
