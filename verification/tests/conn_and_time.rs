//! Connection-manager failover, debounce, GPS time and coordinate
//! conversion, and the modem decision core.

use telemetry_gateway::connmgr::{
    begin_switch, can_switch_to, commit_switch, handle_event, is_recently_switched,
    ActiveConnection, ConnectionEvent, ConnectionStatus,
};
use telemetry_gateway::modem::{
    mqtt_result_outcome, next_state, registration_action, upload_chunks, ModemState,
    MqttConnectError, RegistrationAction,
};
use telemetry_gateway::timeconv::{
    is_leap_year, nmea_to_degrees_e7, utc_date_to_unix_timestamp,
};

fn run_switch(status: &mut ConnectionStatus, target: ActiveConnection, now_ms: u64) {
    if begin_switch(status, target) {
        assert_eq!(status.active, ActiveConnection::Switching, "quiet window publishes Switching");
        commit_switch(status, target, now_ms);
    }
}

#[test]
fn connection_failover_sequence() {
    // LTE registers, Wi-Fi appears inside the debounce window (ignored),
    // appears again after it (switch), then drops (failover back to LTE).
    let mut s = ConnectionStatus::init();

    let t0: u64 = 0;
    let r = handle_event(&mut s, ConnectionEvent::LteRegistered, t0);
    assert_eq!(r, Some(ActiveConnection::Lte));
    run_switch(&mut s, ActiveConnection::Lte, t0);
    assert_eq!(s.active, ActiveConnection::Lte);
    assert_eq!(s.switch_count, 1);

    let t1: u64 = 3_000;
    let r = handle_event(&mut s, ConnectionEvent::WiFiConnected, t1);
    assert_eq!(r, None, "debounced: 3 s after the last switch");
    assert_eq!(s.active, ActiveConnection::Lte);

    let t2: u64 = 14_000;
    let r = handle_event(&mut s, ConnectionEvent::WiFiConnected, t2);
    assert_eq!(r, Some(ActiveConnection::WiFi));
    run_switch(&mut s, ActiveConnection::WiFi, t2);
    assert_eq!(s.active, ActiveConnection::WiFi);
    assert_eq!(s.switch_count, 2);

    let t3: u64 = 15_000;
    let r = handle_event(&mut s, ConnectionEvent::WiFiDisconnected, t3);
    assert_eq!(r, Some(ActiveConnection::Lte), "failover ignores the debounce");
    run_switch(&mut s, ActiveConnection::Lte, t3);
    assert_eq!(s.active, ActiveConnection::Lte);
    assert_eq!(s.switch_count, 3);
}

#[test]
fn connection_loss_without_alternative() {
    let mut s = ConnectionStatus::init();
    handle_event(&mut s, ConnectionEvent::LteRegistered, 0);
    run_switch(&mut s, ActiveConnection::Lte, 0);
    let r = handle_event(&mut s, ConnectionEvent::LteDisconnected, 1_000);
    assert_eq!(r, None);
    assert_eq!(s.active, ActiveConnection::Unconnected);
    assert_eq!(s.switch_count, 1, "dropping to no transport is not a switch");
}

#[test]
fn manual_switch_requires_availability() {
    let mut s = ConnectionStatus::init();
    s.wifi_available = true;
    assert!(can_switch_to(&s, ActiveConnection::WiFi));
    assert!(!can_switch_to(&s, ActiveConnection::Lte));
    assert!(can_switch_to(&s, ActiveConnection::Unconnected));
    assert!(!can_switch_to(&s, ActiveConnection::Switching));
}

#[test]
fn debounce_window_boundaries() {
    let mut s = ConnectionStatus::init();
    s.last_switch = Some(5_000);
    assert!(is_recently_switched(&s, 14_999));
    assert!(!is_recently_switched(&s, 15_000));
}

#[test]
fn nmea_time_conversion() {
    // The two-digit year reads in the 1970-2069 window: the classic RMC
    // sample date 230394 is 23 March 1994, 12:35:19.250 UTC.
    let ms94 = utc_date_to_unix_timestamp(b"123519.250", b"230394");
    assert_eq!(ms94, 764_426_119_250);
    // A date on the 20yy side of the window.
    let ms = utc_date_to_unix_timestamp(b"123519.250", b"230324");
    assert_eq!(ms, 1_711_197_319_250);
    // The epoch itself, and the century boundary.
    assert_eq!(utc_date_to_unix_timestamp(b"000000.000", b"010170"), 0);
    assert_eq!(utc_date_to_unix_timestamp(b"000000.000", b"010100"), 946_684_800_000);
    // A leap day.
    let feb29 = utc_date_to_unix_timestamp(b"000000.000", b"290224");
    assert_eq!(feb29, 1_709_164_800_000);
}

#[test]
fn leap_year_rule() {
    assert!(is_leap_year(2000));
    assert!(is_leap_year(2024));
    assert!(!is_leap_year(1900));
    assert!(!is_leap_year(2023));
}

#[test]
fn nmea_coordinate_conversion() {
    // 4807.0380 = 48 degrees 7.0380 minutes = 48.1173000 degrees.
    assert_eq!(nmea_to_degrees_e7(48_070_380), 481_173_000);
    // 00000.0000 stays zero.
    assert_eq!(nmea_to_degrees_e7(0), 0);
}

#[test]
fn modem_bringup_transitions() {
    assert_eq!(next_state(ModemState::ResetHardware, true), ModemState::DisableEchoMode);
    assert_eq!(next_state(ModemState::DisableEchoMode, true), ModemState::GetModelId);
    assert_eq!(next_state(ModemState::DisableEchoMode, false), ModemState::DisableEchoMode);
    assert_eq!(next_state(ModemState::UploadFiles, false), ModemState::ErrorState);
    assert_eq!(next_state(ModemState::CheckNetworkRegistration, true), ModemState::MqttOpenState);
    assert_eq!(next_state(ModemState::ErrorState, false), ModemState::ResetHardware);
    assert_eq!(next_state(ModemState::MqttPublishData, true), ModemState::MqttPublishData);
}

#[test]
fn registration_codes() {
    assert_eq!(registration_action(1), RegistrationAction::Registered);
    assert_eq!(registration_action(5), RegistrationAction::Registered);
    assert_eq!(registration_action(2), RegistrationAction::KeepWaiting);
    assert_eq!(registration_action(3), RegistrationAction::GiveUp);
    assert_eq!(registration_action(4), RegistrationAction::GiveUp);
    assert_eq!(registration_action(9), RegistrationAction::GiveUp);
}

#[test]
fn mqtt_result_codes() {
    assert!(mqtt_result_outcome(0).is_ok());
    assert_eq!(mqtt_result_outcome(2), Err(MqttConnectError::ModemError(2)));
}

#[test]
fn credential_upload_plan() {
    // The CA chain of 2574 bytes uploads as 1024 + 1024 + 526.
    let blob: Vec<u8> = (0..2574u32).map(|i| (i % 256) as u8).collect();
    let chunks = upload_chunks(&blob);
    let lens: Vec<usize> = chunks.iter().map(|c| c.len()).collect();
    assert_eq!(lens, vec![1024, 1024, 526]);
    let joined: Vec<u8> = chunks.concat();
    assert_eq!(joined, blob);
    assert!(upload_chunks(&[]).is_empty());
}
