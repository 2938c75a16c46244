use std::cell::RefCell;
use std::rc::Rc;

use firmware_core::bounded::{bounded32, bounded64};
use firmware_core::wifi_config::{
    default_wifi, load_wifi, wifi_or_default, ConfigError,
};
use firmware_core::{load_from_fs, Wifi, WifiConfig, WifiService, WifiStatus};

/// What the radio was asked, in order.
#[derive(Debug, Clone, PartialEq, Eq)]
enum Asked {
    Connect(String, String),
    IsConnected,
}

/// A radio that answers from a script.
struct MockWifi {
    asked: Rc<RefCell<Vec<Asked>>>,
    /// Whether the link is up before any attempt to join.
    linked: bool,
    /// Whether an attempt to join brings the link up.
    joins: bool,
    /// What an attempt to join reports.
    reports: WifiStatus,
}

impl MockWifi {
    fn new(linked: bool, joins: bool, reports: WifiStatus) -> (Self, Rc<RefCell<Vec<Asked>>>) {
        let asked = Rc::new(RefCell::new(Vec::new()));
        (Self { asked: asked.clone(), linked, joins, reports }, asked)
    }
}

impl Wifi for MockWifi {
    fn connect(&mut self, ssid: &str, password: &str) -> WifiStatus {
        self.asked.borrow_mut().push(Asked::Connect(ssid.to_string(), password.to_string()));
        self.linked = self.joins;
        self.reports
    }

    fn is_connected(&self) -> bool {
        self.asked.borrow_mut().push(Asked::IsConnected);
        self.linked
    }
}

fn connects(asked: &Rc<RefCell<Vec<Asked>>>) -> usize {
    asked.borrow().iter().filter(|a| matches!(a, Asked::Connect(_, _))).count()
}

#[test]
fn wifi_status_follows_the_link() {
    assert_eq!(WifiStatus::from_link(true), WifiStatus::Connected);
    assert_eq!(WifiStatus::from_link(false), WifiStatus::Disconnected);
}

#[test]
fn wifi_new_does_not_touch_the_radio() {
    let (mock, asked) = MockWifi::new(false, true, WifiStatus::Connected);
    let _service = WifiService::new(mock, "MySSID", "secret");
    assert!(asked.borrow().is_empty());
}

#[test]
fn wifi_start_connects_once_with_the_credentials() {
    let (mock, asked) = MockWifi::new(false, true, WifiStatus::Connected);
    let mut service = WifiService::new(mock, "MySSID", "secret");

    assert_eq!(service.start(), WifiStatus::Connected);

    assert_eq!(*asked.borrow(), vec![Asked::Connect("MySSID".to_string(), "secret".to_string())]);
}

#[test]
fn wifi_start_returns_what_the_radio_reports() {
    // The link comes up, yet the radio reports otherwise: the report is what
    // is returned, and the link is not looked at.
    let (mock, asked) = MockWifi::new(false, true, WifiStatus::Disconnected);
    let mut service = WifiService::new(mock, "OfficeWiFi", "12345678");

    assert_eq!(service.start(), WifiStatus::Disconnected);

    assert_eq!(asked.borrow().len(), 1);
}

#[test]
fn wifi_poll_when_connected_makes_no_attempt() {
    let (mock, asked) = MockWifi::new(true, true, WifiStatus::Connected);
    let mut service = WifiService::new(mock, "MySSID", "secret");

    assert_eq!(service.poll(), WifiStatus::Connected);

    assert_eq!(connects(&asked), 0);
    assert_eq!(*asked.borrow(), vec![Asked::IsConnected]);
}

#[test]
fn wifi_poll_reconnects_once_and_succeeds() {
    let (mock, asked) = MockWifi::new(false, true, WifiStatus::Connected);
    let mut service = WifiService::new(mock, "MySSID", "secret");

    assert_eq!(service.poll(), WifiStatus::Connected);

    assert_eq!(connects(&asked), 1);
    assert_eq!(
        *asked.borrow(),
        vec![
            Asked::IsConnected,
            Asked::Connect("MySSID".to_string(), "secret".to_string()),
            Asked::IsConnected,
        ]
    );
}

#[test]
fn wifi_poll_reconnects_once_and_fails() {
    let (mock, asked) = MockWifi::new(false, false, WifiStatus::Disconnected);
    let mut service = WifiService::new(mock, "MySSID", "secret");

    assert_eq!(service.poll(), WifiStatus::Disconnected);
    assert_eq!(connects(&asked), 1);

    // A radio that stays down is asked once more at every poll.
    assert_eq!(service.poll(), WifiStatus::Disconnected);
    assert_eq!(service.poll(), WifiStatus::Disconnected);
    assert_eq!(connects(&asked), 3);
    assert_eq!(asked.borrow().len(), 9);
}

#[test]
fn wifi_poll_goes_by_the_link_not_by_the_report() {
    // The attempt reports success but the link stays down.
    let (mock, _) = MockWifi::new(false, false, WifiStatus::Connected);
    let mut service = WifiService::new(mock, "MySSID", "secret");
    assert_eq!(service.poll(), WifiStatus::Disconnected);

    // The attempt reports failure but the link comes up.
    let (mock, _) = MockWifi::new(false, true, WifiStatus::Disconnected);
    let mut service = WifiService::new(mock, "MySSID", "secret");
    assert_eq!(service.poll(), WifiStatus::Connected);
}

#[test]
fn wifi_poll_after_a_reconnect_finds_the_link_up() {
    let (mock, asked) = MockWifi::new(false, true, WifiStatus::Connected);
    let mut service = WifiService::new(mock, "MySSID", "secret");

    assert_eq!(service.poll(), WifiStatus::Connected);
    assert_eq!(service.poll(), WifiStatus::Connected);

    assert_eq!(connects(&asked), 1);
}

#[test]
fn wifi_credentials_that_fit_exactly_are_kept() {
    let ssid = "a".repeat(32);
    let pass = "b".repeat(64);
    let (mock, asked) = MockWifi::new(false, true, WifiStatus::Connected);
    let mut service = WifiService::new(mock, &ssid, &pass);

    service.start();

    assert_eq!(*asked.borrow(), vec![Asked::Connect(ssid, pass)]);
}

#[test]
fn wifi_credentials_that_do_not_fit_are_dropped_whole() {
    let ssid = "a".repeat(33);
    let pass = "b".repeat(65);
    let (mock, asked) = MockWifi::new(false, true, WifiStatus::Connected);
    let mut service = WifiService::new(mock, &ssid, &pass);

    service.start();

    assert_eq!(*asked.borrow(), vec![Asked::Connect(String::new(), String::new())]);
}

#[test]
fn wifi_credentials_are_measured_in_bytes() {
    // Seventeen letters of two bytes each: 34 bytes.
    let ssid = "é".repeat(17);
    let (mock, asked) = MockWifi::new(false, true, WifiStatus::Connected);
    let mut service = WifiService::new(mock, &ssid, "pw");
    service.start();
    assert_eq!(*asked.borrow(), vec![Asked::Connect(String::new(), "pw".to_string())]);

    let ssid = "é".repeat(16);
    let (mock, asked) = MockWifi::new(false, true, WifiStatus::Connected);
    let mut service = WifiService::new(mock, &ssid, "pw");
    service.start();
    assert_eq!(*asked.borrow(), vec![Asked::Connect(ssid, "pw".to_string())]);
}

#[test]
fn bounded_strings_keep_what_fits() {
    assert_eq!(bounded32("ICON+").as_str(), "ICON+");
    assert_eq!(bounded32("").as_str(), "");
    assert_eq!(bounded32(&"x".repeat(32)).as_str(), "x".repeat(32));
    assert_eq!(bounded32(&"x".repeat(33)).as_str(), "");
    assert_eq!(bounded64(&"y".repeat(33)).as_str(), "y".repeat(33));
    assert_eq!(bounded64(&"y".repeat(64)).as_str(), "y".repeat(64));
    assert_eq!(bounded64(&"y".repeat(65)).as_str(), "");
}

#[test]
fn config_is_not_found_on_the_device() {
    let loaded = load_from_fs();
    assert!(matches!(loaded, Err(ConfigError::NotFound)));
    assert_eq!(ConfigError::NotFound.message(), "wifi config not found");
}

#[test]
fn config_default_credentials() {
    let cfg = default_wifi();
    assert_eq!(cfg.ssid.as_str(), "ICON+");
    assert_eq!(cfg.password.as_str(), "M12@n0@mrq@15@r@");
}

#[test]
fn config_load_falls_back_to_the_default() {
    let cfg = load_wifi();
    assert_eq!(cfg.ssid.as_str(), "ICON+");
    assert_eq!(cfg.password.as_str(), "M12@n0@mrq@15@r@");

    let cfg = wifi_or_default(Err(ConfigError::NotFound));
    assert_eq!(cfg.ssid.as_str(), "ICON+");
    assert_eq!(cfg.password.as_str(), "M12@n0@mrq@15@r@");
}

#[test]
fn config_stored_credentials_win() {
    let stored = WifiConfig { ssid: bounded32("Home"), password: bounded64("hunter2hunter2") };
    let cfg = wifi_or_default(Ok(stored));
    assert_eq!(cfg.ssid.as_str(), "Home");
    assert_eq!(cfg.password.as_str(), "hunter2hunter2");
}

#[test]
fn config_clone_reads_the_same() {
    let stored = WifiConfig { ssid: bounded32("Home"), password: bounded64("hunter2hunter2") };
    let copy = stored.clone();
    assert_eq!(copy.ssid.as_str(), stored.ssid.as_str());
    assert_eq!(copy.password.as_str(), stored.password.as_str());
}
