//! The credentials, and where they come from.

use vstd::prelude::*;
use crate::bounded::{as_str32, as_str64, bounded32, bounded64, text32, text64};

verus! {

/// The credentials of one network.
#[derive(Debug)]
pub struct WifiConfig {
    pub ssid: heapless::String<32>,
    pub password: heapless::String<64>,
}

impl Clone for WifiConfig {
    /// Credentials that read the same.
    fn clone(&self) -> (copy: Self)
        ensures
            text32(copy.ssid) == text32(self.ssid),
            text64(copy.password) == text64(self.password),
    {
        WifiConfig {
            ssid: bounded32(as_str32(&self.ssid)),
            password: bounded64(as_str64(&self.password)),
        }
    }
}

/// Why no stored configuration could be had.
#[derive(Debug, Clone, Copy, PartialEq, Eq, Structural)]
pub enum ConfigError {
    /// The device holds no stored configuration.
    NotFound,
}

impl ConfigError {
    /// The error in words.
    pub fn message(&self) -> (text: &'static str)
        ensures
            text@ == "wifi config not found"@,
    {
        match self {
            ConfigError::NotFound => "wifi config not found",
        }
    }
}

/// The network name that is used when none is stored.
pub open spec fn default_ssid() -> Seq<char> {
    "ICON+"@
}

/// The password that is used when none is stored.
pub open spec fn default_password() -> Seq<char> {
    "M12@n0@mrq@15@r@"@
}

/// The stored configuration. The device has no store, so there is none.
pub fn load_from_fs() -> (loaded: Result<WifiConfig, ConfigError>)
    ensures
        loaded is Err,
        loaded->Err_0 == ConfigError::NotFound,
{
    Err(ConfigError::NotFound)
}

/// The credentials that are used when none are stored.
pub fn default_wifi() -> (cfg: WifiConfig)
    ensures
        text32(cfg.ssid) == default_ssid(),
        text64(cfg.password) == default_password(),
{
    let ssid = bounded32("ICON+");
    let pass = bounded64("M12@n0@mrq@15@r@");
    proof {
        reveal_strlit("ICON+");
        reveal_strlit("M12@n0@mrq@15@r@");
        vstd::utf8::is_ascii_chars_encode_utf8("ICON+"@);
        vstd::utf8::is_ascii_chars_encode_utf8("M12@n0@mrq@15@r@"@);
    }
    WifiConfig { ssid, password: pass }
}

/// The credentials to use, given what loading the stored ones came to: the
/// stored ones where there are any, the default ones where there are none.
pub fn wifi_or_default(loaded: Result<WifiConfig, ConfigError>) -> (cfg: WifiConfig)
    ensures
        match loaded {
            Ok(stored) => cfg == stored,
            Err(_) => text32(cfg.ssid) == default_ssid() && text64(cfg.password)
                == default_password(),
        },
{
    match loaded {
        Ok(stored) => stored,
        Err(_) => default_wifi(),
    }
}

/// The credentials to use: the stored ones, or the default ones.
pub fn load_wifi() -> (cfg: WifiConfig)
    ensures
        text32(cfg.ssid) == default_ssid(),
        text64(cfg.password) == default_password(),
{
    wifi_or_default(load_from_fs())
}

} // verus!
