use videocall_client::connection::ConnectOptions;
use videocall_client::connection::Interval;
use videocall_client::connection::HEARTBEAT_PERIOD_MS;
use videocall_client::connection::PEER_MONITOR_PERIOD_MS;
use videocall_client::connection::ConnectError;
use videocall_client::connection::Connection;
use videocall_client::connection::CountingMonitor;
use videocall_client::connection::Task;
use videocall_client::crypto::Cipher;
use videocall_client::wire::PacketType;
use videocall_client::wire::PacketWrapper;

fn cipher() -> Cipher {
    Cipher::new(vec![7u8, 1, 9, 4])
}

fn options() -> ConnectOptions {
    ConnectOptions {
        userid: "bob".to_string(),
        websocket_url: "wss://example.invalid/call".to_string(),
        webtransport_url: String::new(),
    }
}

fn some_packet() -> PacketWrapper {
    PacketWrapper {
        data: vec![1u8, 2, 3],
        email: "bob".to_string(),
        packet_type: PacketType::MediaManagement,
    }
}

#[test]
fn lifecycle_single_state_after_each_call() {
    let conn = Connection::new();
    assert!(!conn.is_connected());
    let conn = conn.connect(false, options(), cipher());
    assert!(!conn.is_connected());
    assert!(conn.sent_packets().is_some());
    let conn = conn.complate_connection();
    assert!(conn.is_connected());
    let conn = conn.disconnect();
    assert!(!conn.is_connected());
    assert!(conn.sent_packets().is_none());
}

#[test]
fn connect_failure_stays_closed() {
    let conn = Connection::new();
    let opts = ConnectOptions {
        userid: "bob".to_string(),
        websocket_url: String::new(),
        webtransport_url: String::new(),
    };
    let conn = conn.connect(false, opts, cipher());
    assert!(!conn.is_connected());
    assert!(conn.sent_packets().is_none());
}

#[test]
fn connect_picks_endpoint_by_flag() {
    let opts = ConnectOptions {
        userid: "bob".to_string(),
        websocket_url: String::new(),
        webtransport_url: "https://example.invalid/wt".to_string(),
    };
    assert!(Task::connect(true, &opts).is_ok());
    match Task::connect(false, &opts) {
        Ok(_) => panic!("an empty endpoint must be rejected"),
        Err(e) => assert!(e == ConnectError::InvalidEndpoint),
    }
}

#[test]
fn complete_connection_on_closed_yields_closed() {
    let conn = Connection::new();
    let conn = conn.complate_connection();
    assert!(!conn.is_connected());
    assert!(conn.sent_packets().is_none());
}

#[test]
fn connect_while_connecting_forces_closed() {
    let conn = Connection::new().connect(false, options(), cipher());
    assert!(conn.sent_packets().is_some());
    let conn = conn.connect(false, options(), cipher());
    assert!(!conn.is_connected());
    assert!(conn.sent_packets().is_none());
}

#[test]
fn connect_while_connected_forces_closed() {
    let conn = Connection::new().connect(false, options(), cipher()).complate_connection();
    assert!(conn.is_connected());
    let conn = conn.connect(false, options(), cipher());
    assert!(!conn.is_connected());
    assert!(conn.sent_packets().is_none());
}

#[test]
fn send_packet_dropped_when_not_connected() {
    let mut conn = Connection::new();
    conn.send_packet(some_packet());
    assert!(conn.sent_packets().is_none());

    let mut conn = Connection::new().connect(false, options(), cipher());
    conn.send_packet(some_packet());
    assert_eq!(conn.sent_packets().unwrap().len(), 0);
}

#[test]
fn send_packet_forwarded_when_connected() {
    let mut conn = Connection::new().connect(false, options(), cipher()).complate_connection();
    conn.send_packet(some_packet());
    let sent = conn.sent_packets().unwrap();
    assert_eq!(sent.len(), 1);
    assert_eq!(sent[0].email.as_str(), "bob");
}

#[test]
fn heartbeat_tick_sends_one_mandatory_packet() {
    let mut conn = Connection::new().connect(false, options(), cipher()).complate_connection();
    conn.heartbeat_tick(123_456);
    let sent = conn.sent_packets().unwrap();
    assert_eq!(sent.len(), 1);
    assert!(sent[0].packet_type == PacketType::MediaMandatory);
    assert_eq!(sent[0].email.as_str(), "bob");
    conn.heartbeat_tick(124_456);
    assert_eq!(conn.sent_packets().unwrap().len(), 2);
}

#[test]
fn heartbeat_tick_ignored_unless_connected() {
    let mut conn = Connection::new();
    conn.heartbeat_tick(1);
    assert!(conn.sent_packets().is_none());

    let mut conn = Connection::new().connect(false, options(), cipher());
    conn.heartbeat_tick(1);
    assert_eq!(conn.sent_packets().unwrap().len(), 0);
}

#[test]
fn no_ticks_have_effect_after_disconnect() {
    let conn = Connection::new().connect(false, options(), cipher()).complate_connection();
    let mut conn = conn.disconnect();
    let mut monitor = CountingMonitor::new();
    conn.heartbeat_tick(99);
    conn.monitor_tick(&mut monitor);
    assert!(conn.sent_packets().is_none());
    assert_eq!(monitor.count(), 0);
}

#[test]
fn monitor_tick_fires_only_while_connected() {
    let mut monitor = CountingMonitor::new();
    let conn = Connection::new();
    conn.monitor_tick(&mut monitor);
    assert_eq!(monitor.count(), 0);
    let conn = conn.connect(false, options(), cipher());
    conn.monitor_tick(&mut monitor);
    assert_eq!(monitor.count(), 0);
    let conn = conn.complate_connection();
    conn.monitor_tick(&mut monitor);
    conn.monitor_tick(&mut monitor);
    assert_eq!(monitor.count(), 2);
}

#[test]
fn interval_reports_its_period() {
    let heartbeat = Interval::new(HEARTBEAT_PERIOD_MS);
    let monitor = Interval::new(PEER_MONITOR_PERIOD_MS);
    assert_eq!(heartbeat.millis(), 1000);
    assert_eq!(monitor.millis(), 5000);
}
