//! The parts of the device, put together.

use embedded_hal::delay::DelayNs;
use embedded_hal::digital::OutputPin;
use embedded_hal::i2c::I2c;
use vstd::prelude::*;
use crate::bounded::{as_str32, as_str64};
use crate::display::LcdDisplay;
use crate::lcd_i2c::{power_on_plan, LcdI2c, Wiring};
use crate::led::Led;
use crate::radio::RadioCall;
use crate::signal::{performed, Signal};
use crate::wifi::{Wifi, WifiService};
use crate::wifi_config::{default_password, default_ssid, load_wifi};

verus! {

/// The bus address of the display's expander.
pub const LCD_ADDRESS: u8 = 0x27;

/// How the display hangs on the bus: at `LCD_ADDRESS`, backlight on.
pub open spec fn lcd_wiring() -> Wiring {
    Wiring { addr: LCD_ADDRESS, backlight: true }
}

/// The indicator, the display and the WiFi lifecycle of one device.
pub struct Hardware<PIN, I2C, D, W: Wifi> {
    pub led: Led<PIN>,
    pub display: LcdDisplay<I2C, D>,
    pub wifi: WifiService<W>,
}

/// Puts the device together from its acquired peripherals.
///
/// The display at `LCD_ADDRESS` is brought up on `i2c`, backlight on. The
/// device has a working display exactly if the power-on sequence ran to its
/// end; when the bus refuses a byte of it, the sequence stops there, the bus
/// is given up, and the device goes on with a degraded display. The WiFi
/// lifecycle gets the stored credentials, or the default ones. Neither the pin
/// nor the radio is touched.
pub fn init<PIN, I2C, D, W>(pin: PIN, i2c: I2C, delay: D, wifi: W) -> (hw: Hardware<
    PIN,
    I2C,
    D,
    W,
>) where PIN: OutputPin, I2C: I2c, D: DelayNs, W: Wifi
    ensures
        hw.led.levels() == Seq::<bool>::empty(),
        hw.display.wf(),
        performed(
            Seq::<Signal>::empty(),
            power_on_plan(lcd_wiring()),
            hw.display.trace(),
            !hw.display.degraded(),
        ),
        !hw.display.degraded() ==> hw.display.wiring() == lcd_wiring() && hw.display.trace()
            == power_on_plan(lcd_wiring()),
        hw.display.driver() matches Some(lcd) ==> lcd.wiring() == lcd_wiring(),
        hw.wifi.radio() == wifi,
        hw.wifi.ssid() == default_ssid(),
        hw.wifi.password() == default_password(),
        hw.wifi.calls() == Seq::<RadioCall>::empty(),
{
    let led = Led::new(pin);
    let mut delay = delay;
    let mut lcd = LcdI2c::attach(i2c, LCD_ADDRESS);
    let display = match lcd.power_on(&mut delay) {
        Ok(()) => LcdDisplay::new(Some(lcd), delay),
        Err(()) => LcdDisplay::fallen(lcd.retire(), delay),
    };
    proof {
        reveal(performed);
    }
    let cfg = load_wifi();
    let wifi = WifiService::new(wifi, as_str32(&cfg.ssid), as_str64(&cfg.password));
    Hardware { led, display, wifi }
}

} // verus!
