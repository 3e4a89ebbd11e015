use zeroclaw_ui::wifi::{WifiError, WifiManager, WifiState, MAX_ATTEMPTS};

fn run(m: &mut WifiManager, connected_on: Option<u32>) -> (Result<(), WifiError>, u32, u32) {
    let mut polls: u32 = 0;
    let mut transitions: u32 = 0;
    loop {
        polls += 1;
        let radio = connected_on == Some(polls);
        let before = m.is_connected();
        let step = m.poll_connection(radio);
        if !before && m.is_connected() {
            transitions += 1;
        }
        match step {
            Ok(true) => return (Ok(()), polls, transitions),
            Ok(false) => {}
            Err(e) => return (Err(e), polls, transitions),
        }
    }
}

#[test]
fn connects_on_third_attempt() {
    let mut m = WifiManager::new();
    m.connect_async("home", "pw").unwrap();
    assert_eq!(m.state(), WifiState::Connecting);
    let (r, polls, transitions) = run(&mut m, Some(3));
    assert_eq!(r, Ok(()));
    assert_eq!(polls, 3);
    assert_eq!(transitions, 1);
    assert_eq!(m.state(), WifiState::Connected);
}

#[test]
fn times_out_after_thirty_attempts() {
    let mut m = WifiManager::new();
    m.connect_async("home", "pw").unwrap();
    let (r, polls, _) = run(&mut m, None);
    assert_eq!(r, Err(WifiError::ConnectionTimeout));
    assert_eq!(polls, MAX_ATTEMPTS);
    assert_eq!(polls, 30);
    assert_eq!(m.state(), WifiState::Failed);
    assert!(!m.is_connected());
    assert_eq!(m.poll_connection(true), Err(WifiError::NotConnected));
}

#[test]
fn credential_limits() {
    let mut m = WifiManager::new();
    assert_eq!(m.connect(&"s".repeat(33), "pw"), Err(WifiError::SsidTooLong));
    assert_eq!(m.connect("ssid", &"p".repeat(65)), Err(WifiError::PasswordTooLong));
    assert_eq!(m.connect(&"s".repeat(32), &"p".repeat(64)), Ok(()));
    assert_eq!(m.connect_async(&"s".repeat(33), "pw"), Err(WifiError::SsidTooLong));
    assert_eq!(m.state(), WifiState::Idle);
}

#[test]
fn status_reports_ssid_only_when_connected() {
    let mut m = WifiManager::new();
    m.connect("home", "pw").unwrap();
    let s = m.get_status();
    assert!(!s.connected);
    assert!(s.wifi_ssid.is_none());
    m.connect_async("home", "pw").unwrap();
    assert_eq!(m.poll_connection(true), Ok(true));
    let s = m.get_status();
    assert!(s.connected);
    assert_eq!(s.wifi_ssid.unwrap().as_str(), "home");
    assert!(!s.zeroclaw_connected);
}

#[test]
fn disconnect_is_idempotent() {
    let mut m = WifiManager::new();
    m.connect_async("home", "pw").unwrap();
    m.poll_connection(true).unwrap();
    assert_eq!(m.disconnect(), Ok(()));
    assert_eq!(m.disconnect(), Ok(()));
    assert_eq!(m.state(), WifiState::Idle);
    assert!(m.get_status().wifi_ssid.is_none());
    assert_eq!(WifiError::ConnectionTimeout.message(), "WiFi connection timeout");
}

#[test]
fn failed_credentials_store_nothing() {
    let mut m = WifiManager::new();
    m.connect_async("home", "pw").unwrap();
    m.poll_connection(true).unwrap();
    assert_eq!(m.connect("office", &"p".repeat(65)), Err(WifiError::PasswordTooLong));
    assert_eq!(m.get_status().wifi_ssid.unwrap().as_str(), "");
    assert_eq!(m.connect_async(&"s".repeat(33), "pw"), Err(WifiError::SsidTooLong));
    assert_eq!(m.get_status().wifi_ssid.unwrap().as_str(), "");
    assert_eq!(m.state(), WifiState::Connected);
}
