//! The WiFi connection manager: credentials and the bounded-retry connection
//! state machine. The caller drives the radio; each status poll is handed to
//! `poll_connection`, which decides what happens next.
use vstd::prelude::*;
use vstd::string::StringExecFns;
use crate::protocol::UiStatus;
use crate::text::{BoundedText, byte_len};

verus! {

/// How many one-second polls a connection attempt may take.
pub const MAX_ATTEMPTS: u32 = 30;

/// Errors of the WiFi manager.
#[derive(Debug, Clone, Copy, PartialEq, Eq, Structural)]
pub enum WifiError {
    SsidTooLong,
    PasswordTooLong,
    ConnectionTimeout,
    NotConnected,
    AlreadyConnected,
}

impl WifiError {
    /// A description for the user.
    pub fn message(&self) -> (r: String)
        ensures
            r@ == match self {
                WifiError::SsidTooLong => "SSID too long (max 32 chars)"@,
                WifiError::PasswordTooLong => "Password too long (max 64 chars)"@,
                WifiError::ConnectionTimeout => "WiFi connection timeout"@,
                WifiError::NotConnected => "WiFi not connected"@,
                WifiError::AlreadyConnected => "WiFi already connected"@,
            },
    {
        match self {
            WifiError::SsidTooLong => String::from_str("SSID too long (max 32 chars)"),
            WifiError::PasswordTooLong => String::from_str("Password too long (max 64 chars)"),
            WifiError::ConnectionTimeout => String::from_str("WiFi connection timeout"),
            WifiError::NotConnected => String::from_str("WiFi not connected"),
            WifiError::AlreadyConnected => String::from_str("WiFi already connected"),
        }
    }
}

/// The states of a connection.
#[derive(Debug, Clone, Copy, PartialEq, Eq, Structural)]
pub enum WifiState {
    Idle,
    Connecting,
    Connected,
    Failed,
}

/// The abstract state of a manager.
pub struct WifiModel {
    pub ssid: Seq<char>,
    pub password: Seq<char>,
    pub state: WifiState,
    pub attempts: nat,
}

/// One status poll of an attempt in progress: the next state, and `Ok(true)`
/// when connected, `Ok(false)` to poll again, `Err` when the attempt failed.
pub open spec fn poll_step(m: WifiModel, radio_connected: bool) -> (WifiModel, Result<
    bool,
    WifiError,
>) {
    if m.state != WifiState::Connecting {
        (m, Err(WifiError::NotConnected))
    } else if radio_connected {
        (WifiModel { state: WifiState::Connected, attempts: m.attempts + 1, ..m }, Ok(true))
    } else if m.attempts + 1 >= MAX_ATTEMPTS {
        (
            WifiModel { state: WifiState::Failed, attempts: m.attempts + 1, ..m },
            Err(WifiError::ConnectionTimeout),
        )
    } else {
        (WifiModel { attempts: m.attempts + 1, ..m }, Ok(false))
    }
}

/// Polls with the radio's successive answers until the attempt ends: the
/// final state, the outcome if it ended, and the number of polls made.
pub open spec fn drive(m: WifiModel, reports: Seq<bool>) -> (WifiModel, Option<Result<(), WifiError>>, nat)
    decreases reports.len(),
{
    if reports.len() == 0 {
        (m, None, 0)
    } else {
        let (next, step) = poll_step(m, reports[0]);
        match step {
            Ok(false) => {
                let (last, outcome, n) = drive(next, reports.drop_first());
                (last, outcome, n + 1)
            },
            Ok(true) => (next, Some(Ok(())), 1),
            Err(e) => (next, Some(Err(e)), 1),
        }
    }
}

/// Holds WiFi credentials and the state of the connection.
#[derive(Debug)]
pub struct WifiManager {
    ssid: BoundedText<32>,
    password: BoundedText<64>,
    state: WifiState,
    attempts: u32,
}

impl View for WifiManager {
    type V = WifiModel;

    closed spec fn view(&self) -> WifiModel {
        WifiModel {
            ssid: self.ssid@,
            password: self.password@,
            state: self.state,
            attempts: self.attempts as nat,
        }
    }
}

impl WifiManager {
    /// The attempt counter never passes the ceiling, and an attempt in
    /// progress has polls left.
    pub closed spec fn wf(&self) -> bool {
        &&& self.attempts <= MAX_ATTEMPTS
        &&& self.state == WifiState::Connecting ==> self.attempts < MAX_ATTEMPTS
    }

    /// An idle manager without credentials.
    pub fn new() -> (r: Self)
        ensures
            r.wf(),
            r@.ssid.len() == 0,
            r@.password.len() == 0,
            r@.state == WifiState::Idle,
            r@.attempts == 0,
    {
        WifiManager {
            ssid: BoundedText::new(),
            password: BoundedText::new(),
            state: WifiState::Idle,
            attempts: 0,
        }
    }

    /// Replaces the stored credentials as a whole: the old ones are cleared
    /// first, and the new ones are stored only when both fit. On an error
    /// neither is stored, so both are empty. The connection state is not
    /// touched.
    pub fn connect(&mut self, ssid: &str, password: &str) -> (r: Result<(), WifiError>)
        requires
            old(self).wf(),
        ensures
            final(self).wf(),
            final(self)@.state == old(self)@.state,
            final(self)@.attempts == old(self)@.attempts,
            r == if byte_len(ssid@) > 32 {
                Err::<(), WifiError>(WifiError::SsidTooLong)
            } else if byte_len(password@) > 64 {
                Err(WifiError::PasswordTooLong)
            } else {
                Ok(())
            },
            r is Ok ==> final(self)@.ssid == ssid@ && final(self)@.password == password@,
            r is Err ==> final(self)@.ssid.len() == 0 && final(self)@.password.len() == 0,
    {
        self.ssid.clear();
        self.password.clear();
        let new_ssid = BoundedText::<32>::from_str(ssid);
        let new_password = BoundedText::<64>::from_str(password);
        match (new_ssid, new_password) {
            (Ok(s), Ok(p)) => {
                self.ssid = s;
                self.password = p;
                Ok(())
            },
            (Err(_), _) => Err(WifiError::SsidTooLong),
            (_, Err(_)) => Err(WifiError::PasswordTooLong),
        }
    }

    /// Starts a connection attempt: stores the credentials as `connect` does
    /// and, when they fit, moves to `Connecting` with no poll made yet. The
    /// caller then starts, scans, configures and connects the radio, and
    /// hands each one-second status poll to `poll_connection`.
    pub fn connect_async(&mut self, ssid: &str, password: &str) -> (r: Result<(), WifiError>)
        requires
            old(self).wf(),
        ensures
            final(self).wf(),
            r == if byte_len(ssid@) > 32 {
                Err::<(), WifiError>(WifiError::SsidTooLong)
            } else if byte_len(password@) > 64 {
                Err(WifiError::PasswordTooLong)
            } else {
                Ok(())
            },
            r is Ok ==> final(self)@ == (WifiModel {
                ssid: ssid@,
                password: password@,
                state: WifiState::Connecting,
                attempts: 0,
            }),
            r is Err ==> final(self)@.state == old(self)@.state && final(self)@.attempts == old(
                self,
            )@.attempts && final(self)@.ssid.len() == 0 && final(self)@.password.len() == 0,
    {
        let r = self.connect(ssid, password);
        if r.is_ok() {
            self.state = WifiState::Connecting;
            self.attempts = 0;
        }
        r
    }

    /// Records one status poll of the radio during an attempt; see
    /// `poll_step`. Outside an attempt it fails with `NotConnected`.
    pub fn poll_connection(&mut self, radio_connected: bool) -> (r: Result<bool, WifiError>)
        requires
            old(self).wf(),
        ensures
            final(self).wf(),
            (final(self)@, r) == poll_step(old(self)@, radio_connected),
    {
        if self.state != WifiState::Connecting {
            return Err(WifiError::NotConnected);
        }
        self.attempts = self.attempts + 1;
        if radio_connected {
            self.state = WifiState::Connected;
            Ok(true)
        } else if self.attempts >= MAX_ATTEMPTS {
            self.state = WifiState::Failed;
            Err(WifiError::ConnectionTimeout)
        } else {
            Ok(false)
        }
    }

    /// Whether the manager is connected.
    pub fn is_connected(&self) -> (r: bool)
        ensures
            r == (self@.state == WifiState::Connected),
    {
        self.state == WifiState::Connected
    }

    /// The state of the connection.
    pub fn state(&self) -> (r: WifiState)
        ensures
            r == self@.state,
    {
        self.state
    }

    /// Polls made in the current or last attempt.
    pub fn attempts(&self) -> (r: u32)
        ensures
            r == self@.attempts,
    {
        self.attempts
    }

    /// Goes back to `Idle`; the credentials stay. Doing it twice changes
    /// nothing more.
    pub fn disconnect(&mut self) -> (r: Result<(), WifiError>)
        requires
            old(self).wf(),
        ensures
            final(self).wf(),
            r is Ok,
            final(self)@ == (WifiModel { state: WifiState::Idle, ..old(self)@ }),
    {
        self.state = WifiState::Idle;
        Ok(())
    }

    /// A status snapshot: the SSID is reported only while connected.
    pub fn get_status(&self) -> (r: UiStatus)
        ensures
            r.connected == (self@.state == WifiState::Connected),
            self@.state == WifiState::Connected ==> (r.wifi_ssid matches Some(s) && s@
                == self@.ssid),
            self@.state != WifiState::Connected ==> r.wifi_ssid is None,
            r.signal_strength is None,
            r.battery_level is None,
            !r.zeroclaw_connected,
    {
        let connected = self.state == WifiState::Connected;
        UiStatus {
            connected,
            wifi_ssid: if connected {
                Some(self.ssid.duplicate())
            } else {
                None
            },
            signal_strength: None,
            battery_level: None,
            zeroclaw_connected: false,
        }
    }
}

/// An attempt whose radio reports connected on the third poll succeeds on
/// that poll: it is still connecting after the first two, then connected,
/// and the attempt ends there.
pub proof fn lemma_connects_on_third_poll(m: WifiModel, reports: Seq<bool>)
    requires
        m.state == WifiState::Connecting,
        m.attempts == 0,
        reports.len() >= 3,
        !reports[0],
        !reports[1],
        reports[2],
    ensures
        drive(m, reports.take(2)).0.state == WifiState::Connecting,
        drive(m, reports.take(2)).1 is None,
        drive(m, reports) == (WifiModel { state: WifiState::Connected, attempts: 3, ..m }, Some(
            Ok::<(), WifiError>(()),
        ), 3nat),
{
    reveal_with_fuel(drive, 4);
    assert(reports.take(2).drop_first().drop_first() =~= Seq::<bool>::empty());
    assert(reports.take(2)[0] == reports[0]);
    assert(reports.take(2).drop_first()[0] == reports[1]);
    assert(reports.drop_first()[0] == reports[1]);
    assert(reports.drop_first().drop_first()[0] == reports[2]);
}

proof fn lemma_times_out_from(m: WifiModel, reports: Seq<bool>)
    requires
        m.state == WifiState::Connecting,
        m.attempts < MAX_ATTEMPTS,
        reports.len() + m.attempts >= MAX_ATTEMPTS,
        forall|i: int| 0 <= i < reports.len() ==> !reports[i],
    ensures
        drive(m, reports) == (WifiModel {
            state: WifiState::Failed,
            attempts: MAX_ATTEMPTS as nat,
            ..m
        }, Some(Err::<(), WifiError>(WifiError::ConnectionTimeout)), (MAX_ATTEMPTS
            - m.attempts) as nat),
    decreases MAX_ATTEMPTS - m.attempts,
{
    assert(!reports[0]);
    if m.attempts + 1 < MAX_ATTEMPTS {
        let next = WifiModel { attempts: m.attempts + 1, ..m };
        assert forall|i: int| 0 <= i < reports.drop_first().len() implies !reports.drop_first()[i] by {
            assert(reports.drop_first()[i] == reports[i + 1]);
        }
        lemma_times_out_from(next, reports.drop_first());
    }
}

/// An attempt whose radio never reports connected fails with
/// `ConnectionTimeout` after exactly `MAX_ATTEMPTS` polls.
pub proof fn lemma_times_out_after_ceiling(m: WifiModel, reports: Seq<bool>)
    requires
        m.state == WifiState::Connecting,
        m.attempts == 0,
        reports.len() >= MAX_ATTEMPTS,
        forall|i: int| 0 <= i < reports.len() ==> !reports[i],
    ensures
        drive(m, reports) == (WifiModel {
            state: WifiState::Failed,
            attempts: MAX_ATTEMPTS as nat,
            ..m
        }, Some(Err::<(), WifiError>(WifiError::ConnectionTimeout)), MAX_ATTEMPTS as nat),
{
    lemma_times_out_from(m, reports);
}

} // verus!
