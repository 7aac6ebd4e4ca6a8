use jotainchat::diagnostics::{console_line, DiagEntry, DiagLevel, DiagnosticsLog, LogicPoint, MAX_ENTRIES};

#[test]
fn codes_are_unique_and_stable() {
    assert_eq!(LogicPoint::TcpPingFail.code(), "TCP-PING-FAIL");
    assert_eq!(LogicPoint::DiscBindFail.area(), "discovery");
}

#[test]
fn ring_buffer_caps() {
    let mut log = DiagnosticsLog::new();
    for i in 0..(MAX_ENTRIES + 50) {
        log.push(DiagEntry {
            ts_ms: i as u64,
            code: "T".into(),
            area: "t".into(),
            level: DiagLevel::Info,
            message: format!("{i}"),
        });
    }
    let all = log.list_newest_first(1000);
    assert_eq!(all.len(), MAX_ENTRIES);
    assert_eq!(all[0].message, format!("{}", MAX_ENTRIES + 49));
}

#[test]
fn newest_first_respects_limit_and_clear() {
    let mut log = DiagnosticsLog::new();
    for i in 0..5u64 {
        log.push(DiagEntry::new(i, LogicPoint::MsgSend, DiagLevel::Warn, format!("m{i}")));
    }
    let two = log.list_newest_first(2);
    assert_eq!(two.len(), 2);
    assert_eq!(two[0].message, "m4");
    assert_eq!(two[1].message, "m3");
    assert_eq!(two[0].code, "MSG-SEND");
    log.clear();
    assert_eq!(log.len(), 0);
    assert!(log.list_newest_first(10).is_empty());
}

#[test]
fn levels_and_console_lines() {
    assert_eq!(DiagLevel::Info.as_str(), "INFO");
    assert_eq!(DiagLevel::Warn.as_str(), "WARN");
    assert_eq!(DiagLevel::Error.as_str(), "ERROR");
    assert_eq!(
        console_line(LogicPoint::AppStart, DiagLevel::Info, "application starting"),
        "[JC][APP-START][INFO] application starting"
    );
    assert_eq!(LogicPoint::XferHydrate.code(), "XFER-HYDRATE");
}

#[test]
fn areas_follow_code_prefixes() {
    let points = [
        LogicPoint::AppStart,
        LogicPoint::CfgSaveFail,
        LogicPoint::DiscPeerExpire,
        LogicPoint::TcpReconcileDrop,
        LogicPoint::MsgRecvDup,
        LogicPoint::HistClearAll,
        LogicPoint::DbQueryFail,
        LogicPoint::XferFirstDataTimeout,
    ];
    let table = [
        ("APP-", "lifecycle"),
        ("CFG-", "config"),
        ("DISC-", "discovery"),
        ("TCP-", "session"),
        ("MSG-", "messaging"),
        ("HIST-", "history"),
        ("DB-", "database"),
        ("XFER-", "transfer"),
    ];
    for p in points {
        let code = p.code();
        let (_, area) = table.iter().find(|(prefix, _)| code.starts_with(prefix)).unwrap();
        assert_eq!(p.area(), *area);
        assert!(!code.starts_with('-') && !code.ends_with('-') && !code.contains("--"));
        assert!(code.chars().all(|c| c.is_ascii_uppercase() || c == '-'));
    }
    assert_eq!(LogicPoint::XferFirstDataTimeout.code(), "XFER-FIRST-DATA-TIMEOUT");
}
