//! The WiFi lifecycle: one connect attempt at start, and at most one more
//! each time the link is found down.

use vstd::prelude::*;
use crate::bounded::{as_str32, as_str64, bounded32, bounded64, fitted, text32, text64};
use crate::radio::{Radio, RadioCall};

verus! {

/// Whether the radio holds a link.
#[derive(Debug, Clone, Copy, PartialEq, Eq, Structural)]
pub enum WifiStatus {
    Connected,
    Disconnected,
}

impl WifiStatus {
    /// The status that goes with a link that is up or down.
    pub open spec fn of_link(linked: bool) -> WifiStatus {
        if linked {
            WifiStatus::Connected
        } else {
            WifiStatus::Disconnected
        }
    }

    /// The status that goes with a link that is up or down.
    pub fn from_link(linked: bool) -> (status: WifiStatus)
        ensures
            status == Self::of_link(linked),
    {
        if linked {
            WifiStatus::Connected
        } else {
            WifiStatus::Disconnected
        }
    }
}

/// A radio that can be asked to join a network and to tell whether it holds a
/// link. Neither request may fail: a radio that cannot join reports
/// `Disconnected`.
pub trait Wifi {
    fn connect(&mut self, ssid: &str, password: &str) -> WifiStatus;

    fn is_connected(&self) -> bool;
}

/// How many of `calls` asked the radio to join a network.
pub open spec fn connect_attempts(calls: Seq<RadioCall>) -> nat
    decreases calls.len(),
{
    if calls.len() == 0 {
        0
    } else {
        connect_attempts(calls.drop_last()) + if calls.last() is Connect {
            1nat
        } else {
            0nat
        }
    }
}

/// The one request that `start` makes: to join with the stored credentials.
pub open spec fn joined(
    before: Seq<RadioCall>,
    ssid: Seq<char>,
    password: Seq<char>,
    after: Seq<RadioCall>,
    status: WifiStatus,
) -> bool {
    after == before.push(RadioCall::Connect { ssid, password, status })
}

/// The requests that `poll` makes of a radio whose link is down: the probe
/// that finds it down, one attempt to join, and the probe that tells how the
/// attempt went.
pub open spec fn reconnect(
    ssid: Seq<char>,
    password: Seq<char>,
    reported: WifiStatus,
    linked: bool,
) -> Seq<RadioCall> {
    seq![
        RadioCall::Probe { linked: false },
        RadioCall::Connect { ssid, password, status: reported },
        RadioCall::Probe { linked },
    ]
}

/// What `poll` asks of the radio and returns. A radio that holds a link is
/// probed and left alone. One that does not is asked once to join, whatever
/// it reports of the attempt is passed over, and the status is that of the
/// link as a second probe finds it.
pub open spec fn polled(
    before: Seq<RadioCall>,
    ssid: Seq<char>,
    password: Seq<char>,
    after: Seq<RadioCall>,
    status: WifiStatus,
) -> bool {
    ||| after == before.push(RadioCall::Probe { linked: true }) && status == WifiStatus::Connected
    ||| exists|reported: WifiStatus, linked: bool|
        after == before + #[trigger] reconnect(ssid, password, reported, linked) && status
            == WifiStatus::of_link(linked)
}

/// Keeps the credentials and drives the radio with them.
pub struct WifiService<W: Wifi> {
    link: Radio<W>,
    ssid: heapless::String<32>,
    pass: heapless::String<64>,
}

impl<W: Wifi> WifiService<W> {
    /// The radio.
    pub closed spec fn radio(&self) -> W {
        self.link.device()
    }

    /// The network name in use.
    pub closed spec fn ssid(&self) -> Seq<char> {
        text32(self.ssid)
    }

    /// The password in use.
    pub closed spec fn password(&self) -> Seq<char> {
        text64(self.pass)
    }

    /// The requests made of the radio so far, oldest first.
    pub closed spec fn calls(&self) -> Seq<RadioCall> {
        self.link.calls()
    }

    /// The credentials are those of `other`.
    pub open spec fn same_credentials(&self, other: &Self) -> bool {
        self.ssid() == other.ssid() && self.password() == other.password()
    }

    /// A service on `wifi`. A name of more than 32 bytes, or a password of
    /// more than 64, is not cut short but replaced by the empty text. The
    /// radio is not touched.
    pub fn new(wifi: W, ssid: &str, pass: &str) -> (service: Self)
        ensures
            service.radio() == wifi,
            service.ssid() == fitted(ssid@, 32),
            service.password() == fitted(pass@, 64),
            service.calls() == Seq::<RadioCall>::empty(),
    {
        let s = bounded32(ssid);
        let p = bounded64(pass);
        Self { link: Radio::new(wifi), ssid: s, pass: p }
    }

    /// Asks the radio once to join, and returns what it reports.
    pub fn start(&mut self) -> (status: WifiStatus)
        ensures
            final(self).same_credentials(old(self)),
            joined(
                old(self).calls(),
                old(self).ssid(),
                old(self).password(),
                final(self).calls(),
                status,
            ),
    {
        self.link.join(as_str32(&self.ssid), as_str64(&self.pass))
    }

    /// Looks whether the link is up, and asks the radio once to join again
    /// when it is not.
    pub fn poll(&mut self) -> (status: WifiStatus)
        ensures
            final(self).same_credentials(old(self)),
            polled(
                old(self).calls(),
                old(self).ssid(),
                old(self).password(),
                final(self).calls(),
                status,
            ),
    {
        if !self.link.probe() {
            let reported = self.link.join(as_str32(&self.ssid), as_str64(&self.pass));
            let linked = self.link.probe();
            proof {
                let made = reconnect(self.ssid(), self.password(), reported, linked);
                assert(self.calls() =~= old(self).calls() + made);
            }
            WifiStatus::from_link(linked)
        } else {
            WifiStatus::Connected
        }
    }
}

/// Counting the attempts in two records, one after the other, adds them up.
pub proof fn lemma_connect_attempts_concat(first: Seq<RadioCall>, second: Seq<RadioCall>)
    ensures
        connect_attempts(first + second) == connect_attempts(first) + connect_attempts(second),
    decreases second.len(),
{
    if second.len() == 0 {
        assert(first + second =~= first);
    } else {
        lemma_connect_attempts_concat(first, second.drop_last());
        assert((first + second).drop_last() =~= first + second.drop_last());
    }
}

/// A reconnect holds exactly one attempt to join.
pub proof fn lemma_reconnect_attempts_once(
    ssid: Seq<char>,
    password: Seq<char>,
    reported: WifiStatus,
    linked: bool,
)
    ensures
        connect_attempts(reconnect(ssid, password, reported, linked)) == 1,
{
    let calls = reconnect(ssid, password, reported, linked);
    let two = calls.drop_last();
    let one = two.drop_last();
    let none = one.drop_last();
    assert(none.len() == 0);
    assert(connect_attempts(none) == 0);
    assert(one.last() == calls[0]);
    assert(connect_attempts(one) == 0);
    assert(two.last() == calls[1]);
    assert(connect_attempts(two) == 1);
    assert(calls.last() == calls[2]);
}

/// A poll that finds the link up returns `Connected` and makes no attempt to
/// join.
pub proof fn lemma_poll_linked(
    before: Seq<RadioCall>,
    ssid: Seq<char>,
    password: Seq<char>,
    after: Seq<RadioCall>,
    status: WifiStatus,
)
    requires
        polled(before, ssid, password, after, status),
        after.len() > before.len(),
        after[before.len() as int] == (RadioCall::Probe { linked: true }),
    ensures
        status == WifiStatus::Connected,
        connect_attempts(after) == connect_attempts(before),
        after.len() == before.len() + 1,
{
    if after == before.push(RadioCall::Probe { linked: true }) {
        assert(after.drop_last() =~= before);
    } else {
        let (reported, linked) = choose|reported: WifiStatus, linked: bool|
            after == before + #[trigger] reconnect(ssid, password, reported, linked) && status
                == WifiStatus::of_link(linked);
        assert(after[before.len() as int] == reconnect(ssid, password, reported, linked)[0]);
    }
}

/// A poll that finds the link down makes exactly one attempt to join, with
/// the stored credentials, and returns the status of the link as it is after
/// the attempt: `Connected` when the link came up, `Disconnected` when it did
/// not.
pub proof fn lemma_poll_unlinked(
    before: Seq<RadioCall>,
    ssid: Seq<char>,
    password: Seq<char>,
    after: Seq<RadioCall>,
    status: WifiStatus,
)
    requires
        polled(before, ssid, password, after, status),
        after.len() > before.len(),
        after[before.len() as int] == (RadioCall::Probe { linked: false }),
    ensures
        connect_attempts(after) == connect_attempts(before) + 1,
        after.len() == before.len() + 3,
        after[before.len() as int + 1] is Connect,
        after[before.len() as int + 1]->ssid == ssid,
        after[before.len() as int + 1]->password == password,
        after.last() is Probe,
        status == WifiStatus::of_link(after.last()->linked),
{
    if after == before.push(RadioCall::Probe { linked: true }) {
        assert(after[before.len() as int] == (RadioCall::Probe { linked: true }));
    } else {
        let (reported, linked) = choose|reported: WifiStatus, linked: bool|
            after == before + #[trigger] reconnect(ssid, password, reported, linked) && status
                == WifiStatus::of_link(linked);
        let made = reconnect(ssid, password, reported, linked);
        lemma_connect_attempts_concat(before, made);
        lemma_reconnect_attempts_once(ssid, password, reported, linked);
        assert(after[before.len() as int + 1] == made[1]);
        assert(after.last() == made[2]);
    }
}

} // verus!
