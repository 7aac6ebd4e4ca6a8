use jotainchat::discovery::{AnnouncePacket, PeerInfo, PeerTable, validate_announce, PEER_ONLINE_TTL_MS, PEER_RETAIN_TTL_MS};
use jotainchat::protocol::{validate_text_body, WireMessage, MAX_TEXT_CHARS};
use jotainchat::session::{
    arbitrate, check_hello, control_address, dial_port, hello_name, is_correct_connection_side,
    is_preferred_dialer, reader_step, should_dial, Arbitration, ReaderStep, SessionEntry, SessionMap,
};
use jotainchat::diagnostics::{DiagLevel, LogicPoint};
use jotainchat::frame::FrameError;

fn peer(id: &str, addr: &str, online: bool) -> PeerInfo {
    PeerInfo {
        device_id: id.to_string(),
        display_name: id.to_uppercase(),
        os: "macos".to_string(),
        control_port: 0,
        address: addr.to_string(),
        online,
        last_seen_ms: 0,
    }
}

fn entry(id: &str, addr: &str, we_dialed: bool, conn: u64) -> SessionEntry {
    SessionEntry {
        peer_id: id.to_string(),
        display_name: id.to_string(),
        address: addr.to_string(),
        we_dialed,
        conn,
    }
}

#[test]
fn preferred_dialer_is_lexicographically_lower() {
    assert!(is_preferred_dialer("aaa", "bbb"));
    assert!(!is_preferred_dialer("bbb", "aaa"));
}

#[test]
fn correct_side_matches_preferred_role() {
    assert!(is_correct_connection_side(true, "aaa", "bbb"));
    assert!(!is_correct_connection_side(false, "aaa", "bbb"));
    assert!(is_correct_connection_side(false, "bbb", "aaa"));
    assert!(!is_correct_connection_side(true, "bbb", "aaa"));
}

#[test]
fn session_should_drop_when_peer_offline_or_ip_changes() {
    // The policy reconcile applies: a session is dropped unless its peer is
    // online at the session's address.
    fn should_drop(online: bool, peer_addr: &str, session_addr: &str) -> bool {
        let mut map = SessionMap::new();
        map.register_connection(entry("bbb", session_addr, true, 1), "aaa");
        !map.stale_sessions(&vec![peer("bbb", peer_addr, online)]).is_empty()
    }
    assert!(!should_drop(true, "10.0.0.2", "10.0.0.2"));
    assert!(should_drop(false, "10.0.0.2", "10.0.0.2"));
    assert!(should_drop(true, "10.0.0.9", "10.0.0.2"));
    assert!(should_drop(false, "10.0.0.9", "10.0.0.2"));
}

#[test]
fn text_validation() {
    assert!(validate_text_body("hi").is_ok());
    assert!(validate_text_body("").is_err());
    assert!(validate_text_body(&"x".repeat(MAX_TEXT_CHARS + 1)).is_err());
}

#[test]
fn text_validation_messages() {
    assert_eq!(validate_text_body(""), Err("Message cannot be empty.".to_string()));
    assert_eq!(
        validate_text_body(&"x".repeat(MAX_TEXT_CHARS + 1)),
        Err("Message too long (max 16000 characters).".to_string())
    );
    assert_eq!(
        validate_text_body("bell\u{7}"),
        Err("Message contains invalid control characters.".to_string())
    );
    assert!(validate_text_body("line\nbreak\ttab\r").is_ok());
    assert!(validate_text_body(&"x".repeat(MAX_TEXT_CHARS)).is_ok());
}

#[test]
fn arbitration_outcomes() {
    // "aaa" dials "bbb"; the dialed side is correct for "aaa".
    assert!(matches!(arbitrate(None, true, "aaa", "bbb"), Arbitration::Register));
    assert!(matches!(arbitrate(None, false, "aaa", "bbb"), Arbitration::DropWrongSide));
    assert!(matches!(arbitrate(Some(true), true, "aaa", "bbb"), Arbitration::KeepFirst));
    assert!(matches!(arbitrate(Some(true), false, "aaa", "bbb"), Arbitration::KeepExisting));
    assert!(matches!(arbitrate(Some(false), true, "aaa", "bbb"), Arbitration::ReplaceExisting));
}

#[test]
fn session_map_registration_and_removal() {
    let mut map = SessionMap::new();
    assert!(map.try_begin_dial("bbb"));
    assert!(!map.try_begin_dial("bbb"));
    let (verdict, replaced) = map.register_connection(entry("bbb", "10.0.0.2", true, 7), "aaa");
    assert!(matches!(verdict, Arbitration::Register));
    assert!(replaced.is_none());
    // A live session blocks further dials to that peer.
    assert!(!map.try_begin_dial("bbb"));
    assert_eq!(map.list().len(), 1);
    assert_eq!(map.get("bbb").map(|e| e.conn), Some(7));
    assert!(!map.remove_if_current("bbb", 8));
    assert!(map.remove_if_current("bbb", 7));
    assert!(map.get("bbb").is_none());
    assert!(map.try_begin_dial("bbb"));
    map.end_dial("bbb");
    assert!(map.try_begin_dial("bbb"));
}

#[test]
fn dialing_helpers() {
    assert!(should_dial("aaa", &peer("bbb", "10.0.0.2", true)));
    assert!(!should_dial("bbb", &peer("aaa", "10.0.0.2", true)));
    assert!(!should_dial("aaa", &peer("bbb", "10.0.0.2", false)));
    assert_eq!(dial_port(0), 48766);
    assert_eq!(dial_port(5000), 5000);
    assert_eq!(control_address(&peer("bbb", "10.0.0.2", true)), "10.0.0.2:48766");
    assert_eq!(hello_name(""), "Mac");
    assert_eq!(hello_name("Ann"), "Ann");
}

#[test]
fn hello_checks() {
    assert_eq!(
        check_hello(WireMessage::hello("bbb".into(), "Bob".into()), "aaa", "1.2.3.4"),
        Ok(("bbb".to_string(), "Bob".to_string()))
    );
    assert_eq!(
        check_hello(WireMessage::hello("aaa".into(), "Me".into()), "aaa", "1.2.3.4"),
        Err("peer is self".to_string())
    );
    assert_eq!(
        check_hello(WireMessage::Hello { v: 2, device_id: "b".into(), display_name: "B".into() }, "aaa", "1.2.3.4"),
        Err("incompatible protocol version 2 (ours 1) from 1.2.3.4".to_string())
    );
    assert_eq!(
        check_hello(WireMessage::text("1".into(), "x".into(), 0), "aaa", "1.2.3.4"),
        Err("expected hello".to_string())
    );
}

#[test]
fn peer_table_ttl_and_sort() {
    let mut table = PeerTable::new();
    let now: u64 = 1_000_000;
    let pkt = AnnouncePacket::new("id-1".into(), "Zed".into(), "macos".into());
    table.upsert_from_announce(&pkt, "192.168.1.5".into(), now, 1);
    let pkt2 = AnnouncePacket::new("id-2".into(), "Ann".into(), "macos".into());
    table.upsert_from_announce(&pkt2, "192.168.1.6".into(), now, 1);

    let list = table.list();
    assert_eq!(list[0].display_name, "Ann");
    assert_eq!(list[1].display_name, "Zed");

    let later = now + PEER_ONLINE_TTL_MS + 1000;
    let (c1, exp) = table.refresh(later);
    assert!(c1);
    assert!(!exp.is_empty());
    assert!(!table.list()[0].online);

    let much_later = now + PEER_RETAIN_TTL_MS + 1000;
    let (c2, _) = table.refresh(much_later);
    assert!(c2);
    assert!(table.list().is_empty());
}

#[test]
fn announce_filters_self_and_foreign() {
    let good = AnnouncePacket::new("bbb".into(), "Bob".into(), "macos".into());
    assert_eq!(validate_announce(good, "aaa").map(|p| p.device_id), Some("bbb".to_string()));
    let me = AnnouncePacket::new("aaa".into(), "Me".into(), "macos".into());
    assert!(validate_announce(me, "aaa").is_none());
    let mut old_version = AnnouncePacket::new("x".into(), "X".into(), "macos".into());
    old_version.v = 99;
    assert!(validate_announce(old_version, "other").is_none());
    let blank = AnnouncePacket::new("  ".into(), "X".into(), "macos".into());
    assert!(validate_announce(blank, "other").is_none());
}

#[test]
fn reader_step_keeps_or_closes_the_session() {
    assert!(matches!(reader_step(Err(FrameError::Timeout), "p1"), ReaderStep::Wait));
    match reader_step(Ok(vec![1, 2, 3]), "p1") {
        ReaderStep::Handle(b) => assert_eq!(b, vec![1, 2, 3]),
        _ => panic!("frame not handed on"),
    }
    match reader_step(Err(FrameError::TooLarge(2000000)), "p1") {
        ReaderStep::Close(p, l, m) => {
            assert!(p == LogicPoint::TcpFrameBad && l == DiagLevel::Error);
            assert_eq!(m, "oversized frame from p1: 2000000");
        }
        _ => panic!("oversized frame kept"),
    }
    match reader_step(Err(FrameError::Io("read len: reset".to_string())), "p1") {
        ReaderStep::Close(p, l, m) => {
            assert!(p == LogicPoint::TcpReadFail && l == DiagLevel::Warn);
            assert_eq!(m, "read fail peer=p1: read len: reset");
        }
        _ => panic!("io failure kept"),
    }
}
