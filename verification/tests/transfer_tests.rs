use jotainchat::hashing::{digest_hex, FileDigest};
use jotainchat::transfer::{check_data_offset, verify_received, ProgressMarks, StreamProgress};
use jotainchat::commands::{decode_clipboard_payload, diagnostics_list_limit, message_list_limit};
use jotainchat::db::{incoming_message, outgoing_message};
use jotainchat::ids::random_token;
use jotainchat::sound::{parse_sound_kind, SoundKind};
use jotainchat::transfer::{
    auto_resume_retryable, can_retry, check_incoming_offer, check_outgoing_file, check_push_offset,
    check_resume_source, check_source_unchanged, dest_from_partial, history_action, hydrate_plan,
    last_done_bytes, make_transfer_row, mime_guess, outgoing_name, partial_recovery, recv_end,
    restart_error, resume_reject_text, reusable_digest, send_end, socket_addr_str, verify_digest,
    CardRef, HistoryAction, HydrateAction, OfferRefusal, PendingInbound, PendingOutbound,
    PushRefusal, ResumePlan, SourceStat, TransferEnd, TransferRegistry, MAX_FILE_SIZE,
};

fn offer(reg: &mut TransferRegistry, fid: &str, mid: &str, peer: &str) {
    reg.offer_received(
        fid.into(),
        mid.into(),
        peer.into(),
        "a.txt".into(),
        10,
        "text/plain".into(),
        "tok".into(),
        None,
    );
}

fn outbound(fid: &str, peer: &str) -> PendingOutbound {
    PendingOutbound {
        file_id: fid.into(),
        message_id: format!("m-{fid}"),
        peer_id: peer.into(),
        path: "/src/a.bin".into(),
        name: "a.bin".into(),
        size: 1000,
        mime: "application/octet-stream".into(),
        token: "tok".into(),
        peer_address: "10.0.0.2".into(),
        source_mtime_ms: Some(5),
        cached_sha256: Some("abc".into()),
    }
}

#[test]
fn pending_inbound_defaults_not_accepted() {
    let p = PendingInbound {
        file_id: "f".into(),
        message_id: "m".into(),
        peer_id: "p".into(),
        name: "a.txt".into(),
        size: 1,
        mime: "text/plain".into(),
        token: "t".into(),
        accepted: false,
        dest_path: None,
        partial_path: None,
        bytes_done: 0,
        expected_sha256: None,
    };
    assert!(!p.accepted);
}

#[test]
fn socket_addr_formats_ipv4_and_ipv6() {
    assert_eq!(socket_addr_str("192.168.1.5", 48767), "192.168.1.5:48767");
    assert_eq!(socket_addr_str("fe80::1", 48767), "[fe80::1]:48767");
    assert_eq!(socket_addr_str("[fe80::1]", 48767), "[fe80::1]:48767");
}

#[test]
fn data_only_after_accept() {
    let mut reg = TransferRegistry::new();
    offer(&mut reg, "f1", "m1", "p1");
    assert_eq!(reg.admit_data("f1", "tok", 10).err(), Some("file not accepted yet".to_string()));
    assert_eq!(reg.admit_data("zz", "tok", 10).err(), Some("file not accepted yet".to_string()));
    let (fid, name) = reg.find_offer_to_accept("m1", "p1").unwrap();
    assert_eq!((fid.as_str(), name.as_str()), ("f1", "a.txt"));
    reg.mark_accepted("f1", "/dl/a.txt".into(), "/dl/a.txt.partial".into());
    assert_eq!(reg.find_offer_to_accept("m1", "p1"), Err("File already accepted.".to_string()));
    assert_eq!(reg.admit_data("f1", "bad", 10).err(), Some("token mismatch".to_string()));
    assert_eq!(reg.admit_data("f1", "tok", 11).err(), Some("size mismatch".to_string()));
    let (p, dest, partial) = reg.admit_data("f1", "tok", 10).unwrap();
    assert_eq!(p.file_id, "f1");
    assert_eq!(dest, "/dl/a.txt");
    assert_eq!(partial, "/dl/a.txt.partial");
    // While data flows, a second connection is refused.
    assert_eq!(reg.admit_data("f1", "tok", 10).err(), Some("busy".to_string()));
    // Interrupted: back to waiting with its bytes.
    reg.reinsert_interrupted(&p, dest, partial, 262144);
    reg.release_active("f1");
    let again = reg.admit_data("f1", "tok", 10).unwrap();
    assert_eq!(again.0.bytes_done, 262144);
}

#[test]
fn accept_and_reject_lookups() {
    let mut reg = TransferRegistry::new();
    assert_eq!(
        reg.find_offer_to_accept("m1", "p1"),
        Err("No pending file offer for this message.".to_string())
    );
    offer(&mut reg, "f1", "m1", "p1");
    assert_eq!(reg.reject_offer("m1", "other"), Err("No pending file offer to reject.".to_string()));
    assert_eq!(reg.reject_offer("m1", "p1"), Ok("f1".to_string()));
    assert_eq!(reg.reject_offer("m1", "p1"), Err("No pending file offer to reject.".to_string()));
    offer(&mut reg, "f2", "m2", "p1");
    reg.mark_accepted("f2", "/d".into(), "/d.partial".into());
    assert!(reg.reject_offer("m2", "p1").is_err());
    reg.undo_accept("f2");
    assert_eq!(reg.find_offer_to_accept("m2", "p1").map(|x| x.0), Ok("f2".to_string()));
}

#[test]
fn missing_reservation_is_refused() {
    let mut reg = TransferRegistry::new();
    offer(&mut reg, "f1", "m1", "p1");
    reg.hydrate_inbound(
        &make_transfer_row("f1", "recv", "p1", "m1", "", None, "a.txt", 10, "text/plain", "tok", 0, "interrupted", None, None, 7),
        true,
        None,
    );
    assert_eq!(
        reg.admit_data("f1", "tok", 10).err(),
        Some("no reserved dest (accept path missing)".to_string())
    );
}

#[test]
fn digest_checks_and_endings() {
    assert!(verify_digest("aa", "aa", &None).is_ok());
    assert!(verify_digest("aa", "aa", &Some("aa".into())).is_ok());
    let e = verify_digest("aa", "bb", &None).unwrap_err();
    assert_eq!(e, "sha256 mismatch local=aa remote=bb");
    assert_eq!(recv_end(&e), TransferEnd::Failed);
    let e2 = verify_digest("aa", "aa", &Some("cc".into())).unwrap_err();
    assert_eq!(e2, "sha256 mismatch local=aa offer=cc");
    assert_eq!(recv_end("cancelled"), TransferEnd::Cancelled);
    assert_eq!(recv_end("read data: reset"), TransferEnd::Interrupted);
    assert_eq!(send_end("cancelled"), TransferEnd::Cancelled);
    assert_eq!(send_end("source_changed"), TransferEnd::Interrupted);
    assert_eq!(TransferEnd::Failed.as_str(), "failed");
    assert!(TransferEnd::Interrupted.resumable());
    assert!(!TransferEnd::Cancelled.resumable());
}

#[test]
fn push_checks() {
    assert!(check_push_offset(0, 10).is_ok());
    assert_eq!(check_push_offset(10, 10), Err("offset_invalid".to_string()));
    assert!(check_source_unchanged(10, 10, Some(5), Some(5)).is_ok());
    assert!(check_source_unchanged(10, 10, None, Some(9)).is_ok());
    assert_eq!(check_source_unchanged(10, 10, Some(5), Some(6)), Err("source_changed".to_string()));
    assert_eq!(check_source_unchanged(10, 9, None, None), Err("source_changed".to_string()));
    assert_eq!(reusable_digest(&Some("h".into()), Some(5), Some(5), Some(5)), Some("h".to_string()));
    assert_eq!(reusable_digest(&Some("h".into()), Some(5), Some(5), Some(6)), None);
    assert_eq!(reusable_digest(&None, Some(5), Some(5), Some(5)), None);
    assert_eq!(last_done_bytes(Some(30), 10), 30);
    assert_eq!(last_done_bytes(Some(3), 10), 10);
    assert_eq!(last_done_bytes(None, 10), 10);
}

#[test]
fn push_lifecycle() {
    let mut reg = TransferRegistry::new();
    assert_eq!(reg.outbound_for_push("s1").err(), Some(PushRefusal::UnknownFile));
    reg.offer_sent(outbound("s1", "p1"));
    let out = reg.outbound_for_push("s1").unwrap();
    reg.mark_active("s1");
    assert_eq!(reg.outbound_for_push("s1").err(), Some(PushRefusal::Busy));
    reg.push_ended(&out, "10.0.0.3".into(), &Err("write data: broken pipe".into()));
    let kept = reg.outbound_for_push("s1").unwrap();
    assert_eq!(kept.peer_address, "10.0.0.3");
    assert_eq!(kept.mime, "");
    reg.push_ended(&kept, "10.0.0.3".into(), &Err("cancelled".into()));
    assert!(reg.outbound_for_push("s1").is_err());
}

#[test]
fn resume_requests_from_receiver() {
    let mut reg = TransferRegistry::new();
    reg.offer_sent(outbound("s1", "p1"));
    assert!(reg.check_resume_request("p1", "s1", 100, "tok").is_ok());
    let r = reg.check_resume_request("p2", "s1", 100, "tok").err().unwrap();
    assert_eq!((r.reason.as_str(), r.detail.as_deref()), ("unknown_file", Some("peer mismatch")));
    let r = reg.check_resume_request("p1", "s1", 100, "nope").err().unwrap();
    assert_eq!(r.reason, "token_mismatch");
    let r = reg.check_resume_request("p1", "s1", 1000, "tok").err().unwrap();
    assert_eq!((r.reason.as_str(), r.detail.as_deref()), ("offset_invalid", Some("offset=1000 size=1000")));
    let r = reg.check_resume_request("p1", "zz", 0, "tok").err().unwrap();
    assert_eq!((r.reason.as_str(), r.detail.as_deref()), ("unknown_file", None));
    reg.mark_active("s1");
    let r = reg.check_resume_request("p1", "s1", 0, "tok").err().unwrap();
    assert_eq!((r.reason.as_str(), r.detail.as_deref()), ("busy", Some("push already in flight")));
    assert!(check_resume_source(1000, SourceStat::Present(1000)).is_ok());
    let r = check_resume_source(1000, SourceStat::Present(999)).err().unwrap();
    assert_eq!((r.reason.as_str(), r.detail.as_deref()), ("source_changed", Some("len=999 expected=1000")));
    let r = check_resume_source(1000, SourceStat::Missing).err().unwrap();
    assert_eq!((r.reason.as_str(), r.detail), ("source_missing", None));
    assert!(!can_retry("source_missing"));
    assert!(!can_retry("offset_invalid"));
    assert!(can_retry("busy"));
    assert!(can_retry("unknown_file"));
    assert_eq!(resume_reject_text("busy", &Some("push already in flight".into())), "busy: push already in flight");
    assert_eq!(resume_reject_text("busy", &Some(String::new())), "busy");
    assert_eq!(resume_reject_text("busy", &None), "busy");
}

#[test]
fn receiver_resume_plan_and_timers() {
    let mut reg = TransferRegistry::new();
    offer(&mut reg, "f1", "m1", "p1");
    let card = Some(CardRef { message_peer_id: "p1".into(), file_id: "f1".into(), state: "interrupted".into() });
    assert_eq!(
        reg.plan_resume(false, &card, "m1", "p1").err(),
        Some("Not connected to peer. Wait until status shows connected.".to_string())
    );
    assert_eq!(reg.plan_resume(true, &None, "m1", "p1").err(), Some("Message not found.".to_string()));
    let done = Some(CardRef { message_peer_id: "p1".into(), file_id: "f1".into(), state: "completed".into() });
    assert_eq!(
        reg.plan_resume(true, &done, "m1", "p1").err(),
        Some("Cannot resume in state 'completed'.".to_string())
    );
    assert_eq!(reg.plan_resume(true, &card, "m1", "p1").err(), Some("File was never accepted.".to_string()));
    assert_eq!(
        reg.plan_resume(true, &card, "m9", "p1").err(),
        Some("Transfer does not match this chat.".to_string())
    );
    reg.mark_accepted("f1", "/dl/a".into(), "/dl/a.partial".into());
    match reg.plan_resume(true, &card, "m1", "p1").unwrap() {
        ResumePlan::Start { file_id, partial, size, dest_reserved, .. } => {
            assert_eq!((file_id.as_str(), partial.as_str(), size, dest_reserved), ("f1", "/dl/a.partial", 10, true));
        }
        ResumePlan::AlreadyWaiting => panic!("nothing waits yet"),
    }
    let g1 = reg.record_resume("f1", "m1", "p1", 0);
    assert!(matches!(reg.plan_resume(true, &card, "m1", "p1").unwrap(), ResumePlan::AlreadyWaiting));
    let g2 = reg.record_resume("f1", "m1", "p1", 0);
    assert_eq!(g2, g1 + 1);
    assert!(!reg.resume_timed_out("f1", g1));
    assert!(reg.resume_timed_out("f1", g2));
    assert!(!reg.resume_timed_out("f1", g2));
    assert!(reg.first_data_wait_applies("f1"));
    assert!(reg.resume_settled("f1"));
    assert_eq!(partial_recovery(true, false), Ok(false));
    assert_eq!(partial_recovery(false, true), Ok(true));
    assert_eq!(partial_recovery(false, false), Err("Partial file missing.".to_string()));
}

#[test]
fn auto_resume_picks_fewest_bytes() {
    let mut reg = TransferRegistry::new();
    assert!(reg.auto_resume_candidate("p1").is_none());
    for (fid, mid, bytes) in [("f1", "m1", 500u64), ("f2", "m2", 100), ("f3", "m3", 300)] {
        offer(&mut reg, fid, mid, "p1");
        reg.mark_accepted(fid, format!("/dl/{fid}"), format!("/dl/{fid}.partial"));
        let row = make_transfer_row(fid, "recv", "p1", mid, &format!("/dl/{fid}"), Some(format!("/dl/{fid}.partial")), "a", 10, "x", "tok", bytes, "interrupted", None, None, 0);
        reg.hydrate_inbound(&row, true, None);
    }
    assert_eq!(reg.auto_resume_candidate("p1"), Some(("m2".to_string(), "f2".to_string())));
    assert!(reg.try_begin_auto_resume("p1"));
    assert!(!reg.try_begin_auto_resume("p1"));
    reg.clear_auto_peer("p1");
    reg.record_resume("f2", "m2", "p1", 0);
    assert!(!reg.try_begin_auto_resume("p1"));
    assert_eq!(reg.auto_resume_candidate("p1"), Some(("m3".to_string(), "f3".to_string())));
    assert!(auto_resume_retryable("busy"));
    assert!(auto_resume_retryable("Not connected to peer. Wait until status shows connected."));
    assert!(!auto_resume_retryable("token_mismatch"));
}

#[test]
fn cancel_and_history_cleanup() {
    let mut reg = TransferRegistry::new();
    offer(&mut reg, "f1", "m1", "p1");
    reg.mark_accepted("f1", "/dl/a".into(), "/dl/a.partial".into());
    reg.offer_sent(outbound("s1", "p1"));
    offer(&mut reg, "f2", "m2", "p2");
    assert_eq!(reg.history_lookup("m1", "p1"), Some(("f1".to_string(), true)));
    assert_eq!(reg.history_lookup("m-s1", "p1"), Some(("s1".to_string(), false)));
    assert_eq!(reg.history_lookup("m9", "p1"), None);
    assert_eq!(reg.transfers_for_peer("p1"), vec![("f1".to_string(), true), ("s1".to_string(), true)]);
    assert_eq!(reg.all_transfers().len(), 3);
    let g = reg.next_generation();
    let info = reg.cancel_entries("f1");
    assert_eq!(info.message_id.as_deref(), Some("m1"));
    assert_eq!(info.dest.as_deref(), Some("/dl/a"));
    assert_eq!(info.partial.as_deref(), Some("/dl/a.partial"));
    assert_eq!(reg.next_generation(), g + 2);
    let info = reg.cancel_entries("s1");
    assert_eq!(info.message_id.as_deref(), Some("m-s1"));
    assert!(info.dest.is_none());
    reg.drop_offer("f2");
    assert!(reg.all_transfers().is_empty());
    assert_eq!(history_action("offered"), HistoryAction::DropOffer);
    assert_eq!(history_action("transferring"), HistoryAction::Cancel);
    assert_eq!(history_action("completed"), HistoryAction::DeleteRow);
    assert_eq!(history_action("weird"), HistoryAction::DeleteRow);
    assert_eq!(dest_from_partial("/dl/a.bin.partial").as_deref(), Some("/dl/a.bin"));
    assert_eq!(dest_from_partial("/dl/a.partial.partial").as_deref(), Some("/dl/a"));
    assert_eq!(dest_from_partial("/dl/a.bin"), None);
}

#[test]
fn hydrate_decisions() {
    let p = hydrate_plan("completed", "recv", "/d", &None, false, false, false);
    assert!(matches!(p.action, HydrateAction::Delete));
    let p = hydrate_plan("transferring", "recv", "/d", &Some("/d.partial".into()), true, true, false);
    assert!(p.demoted);
    assert_eq!(p.state, "interrupted");
    assert!(matches!(p.action, HydrateAction::LoadReceive { accepted: true, recreate_partial: false }));
    let p = hydrate_plan("accepted", "recv", "", &None, false, false, false);
    match p.action {
        HydrateAction::DropReceive(e) => assert_eq!(e, "state lost after restart; re-send required"),
        _ => panic!("expected a drop"),
    }
    let p = hydrate_plan("interrupted", "recv", "/d", &Some("/d.partial".into()), false, true, false);
    assert!(matches!(p.action, HydrateAction::LoadReceive { accepted: true, recreate_partial: true }));
    let p = hydrate_plan("interrupted", "recv", "/d", &Some("/d.partial".into()), false, false, false);
    match p.action {
        HydrateAction::DropReceive(e) => assert_eq!(e, "partial missing after restart"),
        _ => panic!("expected a drop"),
    }
    let p = hydrate_plan("offered", "recv", "", &None, false, false, false);
    assert!(matches!(p.action, HydrateAction::LoadReceive { accepted: false, recreate_partial: false }));
    let p = hydrate_plan("offered", "send", "/src", &None, false, false, false);
    match p.action {
        HydrateAction::DropSend(e) => assert_eq!(e, "source missing after restart"),
        _ => panic!("expected a drop"),
    }
    assert!(matches!(hydrate_plan("offered", "send", "/src", &None, false, false, true).action, HydrateAction::LoadSend));
    assert!(matches!(hydrate_plan("offered", "relay", "/src", &None, false, false, true).action, HydrateAction::Skip));
    assert_eq!(restart_error(&None), "app_restart");
    assert_eq!(restart_error(&Some("eof".into())), "eof");
    let mut reg = TransferRegistry::new();
    let row = make_transfer_row("s1", "send", "p1", "m1", "/src/a", None, "a", 5, "x", "tok", 0, "offered", None, Some(3), 9);
    assert_eq!((row.created_at, row.updated_at), (3, 9));
    reg.hydrate_outbound(&row, Some("h".into()));
    let o = reg.outbound_for_push("s1").unwrap();
    assert_eq!(o.peer_address, "");
    assert_eq!(o.cached_sha256.as_deref(), Some("h"));
}

#[test]
fn offers_and_outgoing_files() {
    assert_eq!(check_incoming_offer("../x/a.png", 10).ok(), Some("a.png".to_string()));
    assert!(matches!(check_incoming_offer("..", 10), Err(OfferRefusal::BadName(_))));
    assert!(matches!(check_incoming_offer("a.png", MAX_FILE_SIZE + 1), Err(OfferRefusal::TooLarge(n)) if n == MAX_FILE_SIZE + 1));
    assert_eq!(check_outgoing_file(false, 5), Err("Not a regular file.".to_string()));
    assert_eq!(check_outgoing_file(true, 0), Err("Cannot send empty file.".to_string()));
    assert_eq!(
        check_outgoing_file(true, MAX_FILE_SIZE + 1),
        Err("File too large (max 53687091200 bytes).".to_string())
    );
    assert!(check_outgoing_file(true, 1).is_ok());
    assert_eq!(outgoing_name("/Users/me/Pictures/cat.JPG"), Ok("cat.JPG".to_string()));
    assert_eq!(outgoing_name("/"), Err("bad file name".to_string()));
    assert_eq!(mime_guess("cat.JPG"), "image/jpeg");
    assert_eq!(mime_guess("notes.md"), "text/plain");
    assert_eq!(mime_guess("clip.mov"), "video/quicktime");
    assert_eq!(mime_guess("archive"), "application/octet-stream");
    assert_eq!(mime_guess(".png"), "application/octet-stream");
}

#[test]
fn tokens_are_hex() {
    let t = random_token();
    assert_eq!(t.len(), 32);
    assert!(t.chars().all(|c| c.is_ascii_hexdigit() && !c.is_ascii_uppercase()));
    assert_ne!(random_token(), t);
}

#[test]
fn clipboard_payloads_decode() {
    assert_eq!(decode_clipboard_payload("data:image/png;base64,aGk="), Ok(b"hi".to_vec()));
    assert_eq!(decode_clipboard_payload("  aGk= "), Ok(b"hi".to_vec()));
    assert_eq!(decode_clipboard_payload("aGk"), Ok(b"hi".to_vec()));
    let e = decode_clipboard_payload("!!!").unwrap_err();
    assert!(e.starts_with("Invalid base64 in clipboard payload: "));
    assert_eq!(message_list_limit(None), 500);
    assert_eq!(message_list_limit(Some(0)), 1);
    assert_eq!(message_list_limit(Some(5000)), 2000);
    assert_eq!(diagnostics_list_limit(None), 100);
    assert_eq!(diagnostics_list_limit(Some(500)), 200);
}

#[test]
fn sounds_and_messages() {
    assert_eq!(SoundKind::FileDone.as_str(), "file_done");
    assert_eq!(SoundKind::Message.system_path(), "/System/Library/Sounds/Glass.aiff");
    assert_eq!(parse_sound_kind("file_alert"), Ok(SoundKind::FileAlert));
    assert_eq!(parse_sound_kind("x"), Err("unknown sound kind: x".to_string()));
    let m = incoming_message("i".into(), "p", "text", "hi".into(), 0, 42);
    assert_eq!((m.created_at, m.direction.as_str(), m.status.as_str()), (42, "in", "received"));
    let m = outgoing_message("o".into(), "p", "file", "{}".into(), 7);
    assert_eq!((m.created_at, m.direction.as_str(), m.status.as_str()), (7, "out", "pending"));
}

#[test]
fn cancelled_transfer_cannot_resume() {
    let mut reg = TransferRegistry::new();
    offer(&mut reg, "f1", "m1", "p1");
    reg.mark_accepted("f1", "/dl/a".into(), "/dl/a.partial".into());
    let g = reg.record_resume("f1", "m1", "p1", 0);
    reg.cancel_entries("f1");
    let card = Some(CardRef { message_peer_id: "p1".into(), file_id: "f1".into(), state: "interrupted".into() });
    assert_eq!(
        reg.plan_resume(true, &card, "m1", "p1").err(),
        Some("No resumable transfer in memory (restart app requires PR-R3 persistence).".to_string())
    );
    assert!(!reg.resume_timed_out("f1", g));
    assert!(reg.auto_resume_candidate("p1").is_none());
}

#[test]
fn received_bytes_are_checked_by_their_digest() {
    let abc = "ba7816bf8f01cfea414140de5dae2223b00361a396177a9cb410ff61f20015ad";
    let mut d = FileDigest::new();
    d.update(b"ab");
    d.update(b"c");
    assert_eq!(digest_hex(d), abc);
    let mut d = FileDigest::new();
    d.update(b"abc");
    assert_eq!(verify_received(d, abc, &Some(abc.to_string())), Ok(abc.to_string()));
    let mut d = FileDigest::new();
    d.update(b"abd");
    let e = verify_received(d, abc, &None).unwrap_err();
    assert!(e.starts_with("sha256 mismatch local=") && e.ends_with(&format!(" remote={abc}")));
    let mut d = FileDigest::new();
    d.update(b"abc");
    assert_eq!(
        verify_received(d, abc, &Some("00".to_string())),
        Err(format!("sha256 mismatch local={abc} offer=00"))
    );
}

#[test]
fn stream_progress_accounting() {
    assert_eq!(check_data_offset(5, 5), Ok(()));
    assert_eq!(check_data_offset(5, 0), Err("offset_mismatch".to_string()));
    let chunk = jotainchat::fsutil::CHUNK;
    let size = 3 * chunk + 10;
    let mut p = StreamProgress::start(10, size);
    assert_eq!(p.remaining(), 3 * chunk);
    assert_eq!(p.next_len(), chunk as usize);
    assert_eq!(p.advance(100), ProgressMarks { show: false, store: false });
    assert_eq!(p.advance(chunk), ProgressMarks { show: true, store: false });
    assert_eq!(p.advance(chunk * 2 - 100), ProgressMarks { show: true, store: true });
    assert_eq!(p.done, size);
    assert_eq!(p.remaining(), 0);
    let q = StreamProgress::start(20, 10);
    assert_eq!(q.remaining(), 0);
    assert_eq!(q.next_len(), 0);
}

#[test]
fn inbound_entry_is_kept_under_its_id() {
    let mut reg = TransferRegistry::new();
    offer(&mut reg, "f1", "m1", "p1");
    let e = reg.inbound_entry("f1").unwrap();
    assert_eq!((e.file_id.as_str(), e.message_id.as_str(), e.accepted), ("f1", "m1", false));
    assert!(reg.inbound_entry("f2").is_none());
}
