//! The way out to the radio.
//!
//! A `Radio` owns the radio and the record of what was asked of it. The
//! record grows by one request, with the radio's answer, with each call made
//! here, and nothing outside this module can write it.

use vstd::prelude::*;
use crate::wifi::{Wifi, WifiStatus};

verus! {

/// One request made of the radio, with the answer it got.
pub enum RadioCall {
    /// The radio was asked whether it holds a link, and answered `linked`.
    Probe { linked: bool },
    /// The radio was asked to join `ssid` with `password`, and reported
    /// `status`.
    Connect { ssid: Seq<char>, password: Seq<char>, status: WifiStatus },
}

/// A radio, with the record of every request made of it.
pub struct Radio<W: Wifi> {
    wifi: W,
    calls: Ghost<Seq<RadioCall>>,
}

impl<W: Wifi> Radio<W> {
    /// The radio itself.
    pub closed spec fn device(&self) -> W {
        self.wifi
    }

    /// The requests made of the radio so far, oldest first.
    pub closed spec fn calls(&self) -> Seq<RadioCall> {
        self.calls@
    }

    /// The way to `wifi`; nothing has been asked of it yet.
    pub fn new(wifi: W) -> (radio: Self)
        ensures
            radio.device() == wifi,
            radio.calls() == Seq::<RadioCall>::empty(),
    {
        Radio { wifi, calls: Ghost(Seq::empty()) }
    }

    /// Asks the radio, once, whether it holds a link, and returns its
    /// answer.
    pub fn probe(&mut self) -> (linked: bool)
        ensures
            final(self).calls() == old(self).calls().push(RadioCall::Probe { linked }),
    {
        let linked = self.wifi.is_connected();
        proof {
            self.calls@ = self.calls@.push(RadioCall::Probe { linked });
        }
        linked
    }

    /// Asks the radio, once, to join `ssid` with `password`, and returns what
    /// it reports.
    pub fn join(&mut self, ssid: &str, password: &str) -> (status: WifiStatus)
        ensures
            final(self).calls() == old(self).calls().push(
                RadioCall::Connect { ssid: ssid@, password: password@, status },
            ),
    {
        let status = self.wifi.connect(ssid, password);
        proof {
            self.calls@ = self.calls@.push(
                RadioCall::Connect { ssid: ssid@, password: password@, status },
            );
        }
        status
    }
}

} // verus!
