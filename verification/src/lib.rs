//! Core of a small status node: a heartbeat flip-flop, a best-effort WiFi
//! lifecycle over an abstract radio, and a character display that degrades to
//! silence when its device is missing.
//!
//! Every call that leaves the crate is made through one of three handles:
//! `wire::Wire` for bus writes and pauses, `pin::OutputLine` for pin levels,
//! `radio::Radio` for radio requests. A handle owns the outside object and
//! the record of what was asked of it, and only the handle's own module can
//! add to that record. The contracts of the components are stated over those
//! records.

pub mod bounded;
pub mod controller;
pub mod display;
pub mod hardware;
pub mod lcd_i2c;
pub mod led;
pub mod orchestrator;
pub mod pin;
pub mod wire;
pub mod radio;
pub mod signal;
pub mod wifi;
pub mod wifi_config;

pub use controller::Controller;
pub use display::LcdDisplay;
pub use hardware::Hardware;
pub use lcd_i2c::LcdI2c;
pub use led::Led;
pub use orchestrator::App;
pub use wifi::{Wifi, WifiService, WifiStatus};
pub use wifi_config::{load_from_fs, WifiConfig};
