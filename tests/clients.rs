use holo_telemetry::protocol::{
    classify, fan_argument, fan_reply, handle_datagram, probe_candidates, DatagramAction,
    DatagramKind, FanOutcome,
};
use holo_telemetry::registry::{ClientRegistry, PeerAddr};

fn peer(n: u128, port: u16) -> PeerAddr {
    PeerAddr { ip: n, port, v6: false }
}

#[test]
fn upsert_is_idempotent() {
    let mut r = ClientRegistry::new();
    let a = peer(0x0a000001, 4000);
    assert!(r.upsert(a, 100));
    assert!(!r.upsert(a, 200));
    assert_eq!(r.live_addresses(), vec![a]);
    assert_eq!(r.last_seen(a), Some(200));
}

#[test]
fn eviction_at_exact_timeout() {
    let mut r = ClientRegistry::new();
    let a = peer(1, 1);
    let b = peer(2, 2);
    r.upsert(a, 1000);
    r.upsert(b, 5000);
    let gone = r.evict_expired(10999, 10000);
    assert!(gone.is_empty());
    let gone = r.evict_expired(11000, 10000);
    assert_eq!(gone, vec![a]);
    assert_eq!(r.live_addresses(), vec![b]);
    assert_eq!(r.last_seen(a), None);
}

#[test]
fn heartbeats_before_timeout_keep_client() {
    let mut r = ClientRegistry::new();
    let a = peer(7, 9001);
    let mut t: u64 = 0;
    for _ in 0..50 {
        r.upsert(a, t);
        t += 9999;
        assert!(r.evict_expired(t, 10000).is_empty());
    }
    assert_eq!(r.live_addresses(), vec![a]);
}

#[test]
fn clock_behind_last_seen_keeps_client() {
    let mut r = ClientRegistry::new();
    let a = peer(3, 3);
    r.upsert(a, 500);
    assert!(r.evict_expired(100, 10).is_empty());
}

#[test]
fn discover_replies_and_registers() {
    let mut r = ClientRegistry::new();
    let a = peer(0xc0a80105, 5555);
    match handle_datagram(&mut r, a, &b"DISCOVER".to_vec(), 10) {
        DatagramAction::Reply(s) => assert_eq!(s, "SERVER"),
        _ => panic!("expected a reply"),
    }
    r.evict_expired(20, 10000);
    assert_eq!(r.live_addresses(), vec![a]);
}

#[test]
fn repeated_hello_is_new_once() {
    let mut r = ClientRegistry::new();
    let a = peer(9, 9);
    let mut news = 0;
    for t in 0..5u64 {
        match handle_datagram(&mut r, a, &b"HELLO 3DS".to_vec(), t) {
            DatagramAction::Registered(true) => news += 1,
            DatagramAction::Registered(false) => {}
            _ => panic!("expected a heartbeat"),
        }
    }
    assert_eq!(news, 1);
    match handle_datagram(&mut r, a, &b"PING".to_vec(), 9) {
        DatagramAction::Registered(is_new) => assert!(!is_new),
        _ => panic!("expected a heartbeat"),
    }
    assert_eq!(r.last_seen(a), Some(9));
}

#[test]
fn fan_command_parses_mode_and_refreshes() {
    let mut r = ClientRegistry::new();
    let a = peer(4, 4);
    match handle_datagram(&mut r, a, &b"FAN: Quiet \n".to_vec(), 77) {
        DatagramAction::SetFan(mode) => assert_eq!(mode, "quiet"),
        _ => panic!("expected a fan command"),
    }
    assert_eq!(r.last_seen(a), Some(77));
    match handle_datagram(&mut r, a, &b"FAN:FAN:Auto".to_vec(), 78) {
        DatagramAction::SetFan(mode) => assert_eq!(mode, "auto"),
        _ => panic!("expected a fan command"),
    }
}

#[test]
fn fan_mode_decodes_lossily() {
    let mut r = ClientRegistry::new();
    match handle_datagram(&mut r, peer(5, 5), &vec![b'F', b'A', b'N', b':', 0xff, b'X'], 1) {
        DatagramAction::SetFan(mode) => assert_eq!(mode, "\u{fffd}x"),
        _ => panic!("expected a fan command"),
    }
}

#[test]
fn fan_quiet_without_probe() {
    let mut r = ClientRegistry::new();
    let a = peer(6, 6);
    let mode = match handle_datagram(&mut r, a, &b"FAN:quiet".to_vec(), 300) {
        DatagramAction::SetFan(mode) => mode,
        _ => panic!("expected a fan command"),
    };
    let reply = fan_reply(&mode, &FanOutcome::NotFound);
    assert!(reply.starts_with("FAN_ERR:"));
    assert!(reply.contains("not found"));
    assert_eq!(r.last_seen(a), Some(300));
}

#[test]
fn fan_replies() {
    let mode = "quiet".to_string();
    assert_eq!(fan_reply(&mode, &FanOutcome::Applied), "FAN_OK:quiet");
    assert_eq!(fan_reply(&mode, &FanOutcome::Failed("denied".to_string())), "FAN_ERR:denied");
    assert_eq!(fan_reply(&mode, &FanOutcome::NotFound), "FAN_ERR:temp_sensor not found");
}

#[test]
fn unknown_datagram_is_ignored() {
    let mut r = ClientRegistry::new();
    let a = peer(8, 8);
    assert!(matches!(handle_datagram(&mut r, a, &b"hello".to_vec(), 1), DatagramAction::Ignore));
    assert!(matches!(handle_datagram(&mut r, a, &Vec::new(), 1), DatagramAction::Ignore));
    assert!(r.live_addresses().is_empty());
}

#[test]
fn classification_by_prefix() {
    assert_eq!(classify(&b"DISCOVERY".to_vec()), DatagramKind::Discover);
    assert_eq!(classify(&b"PINGPONG".to_vec()), DatagramKind::Heartbeat);
    assert_eq!(classify(&b"FAN:".to_vec()), DatagramKind::Fan);
    assert_eq!(classify(&b"FAN".to_vec()), DatagramKind::Other);
    assert_eq!(fan_argument(&b"FAN:FAN:FANx".to_vec()), b"FANx".to_vec());
}

#[test]
fn candidate_paths() {
    let c = probe_candidates(None);
    assert_eq!(c, vec!["temp-sensor/temp_sensor", "../temp-sensor/temp_sensor", "server/temp-sensor/temp_sensor"]);
    let c = probe_candidates(Some("/opt/bin/temp_sensor".to_string()));
    assert_eq!(c.len(), 4);
    assert_eq!(c[3], "/opt/bin/temp_sensor");
}
