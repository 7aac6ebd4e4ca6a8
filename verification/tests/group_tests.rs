use jotainchat::group::{
    check_join_code, create_group, created_at_or_now, generate_join_code, group_send_status,
    is_group_peer_id, normalize_code, parse_group_peer_id, peer_key, self_display_name, GroupInfo,
    GroupRegistry, JOIN_CODE_ALPHABET,
};
use jotainchat::protocol::GroupMemberWire;

fn member(id: &str, name: &str) -> GroupMemberWire {
    GroupMemberWire { device_id: id.to_string(), display_name: name.to_string() }
}

fn group(id: &str, name: &str, code: &str, members: Vec<GroupMemberWire>, active: bool) -> GroupInfo {
    GroupInfo {
        id: id.to_string(),
        name: name.to_string(),
        join_code: code.to_string(),
        creator_id: "c".to_string(),
        members,
        active,
    }
}

#[test]
fn peer_key_roundtrip() {
    let id = "abc-123";
    let k = peer_key(id);
    assert!(is_group_peer_id(&k));
    assert_eq!(parse_group_peer_id(&k).as_deref(), Some(id));
}

#[test]
fn join_code_normalize() {
    assert_eq!(normalize_code(" ab-cd "), "ABCD");
}

#[test]
fn non_group_keys_are_not_parsed() {
    assert!(!is_group_peer_id("device-1"));
    assert_eq!(parse_group_peer_id("g"), None);
    assert_eq!(parse_group_peer_id("g:").as_deref(), Some(""));
    assert_eq!(peer_key("x"), "g:x");
}

#[test]
fn join_codes_use_the_alphabet() {
    for _ in 0..20 {
        let c = generate_join_code();
        assert_eq!(c.chars().count(), 6);
        assert!(c.chars().all(|ch| JOIN_CODE_ALPHABET.contains(ch)));
    }
    assert_eq!(check_join_code(" ab-cd 12 ").unwrap(), "ABCD12");
    assert_eq!(
        check_join_code("a-b"),
        Err("Join code should be 6 characters (letters/numbers).".to_string())
    );
    assert!(check_join_code("ABCDEFGHIJKLM").is_err());
}

#[test]
fn create_group_validates_name() {
    assert_eq!(
        create_group("   ", "me".into(), "Me".into()).err(),
        Some("Group name cannot be empty.".to_string())
    );
    assert_eq!(
        create_group(&"n".repeat(41), "me".into(), "Me".into()).err(),
        Some("Group name too long (max 40 characters).".to_string())
    );
    let g = create_group("  Team  ", "me".into(), "Me".into()).unwrap();
    assert_eq!(g.name, "Team");
    assert_eq!(g.creator_id, "me");
    assert_eq!(g.members.len(), 1);
    assert_eq!(g.members[0].device_id, "me");
    assert_eq!(g.id.len(), 36);
    assert_eq!(g.join_code.len(), 6);
    assert!(g.active);
}

#[test]
fn registry_lists_by_name_and_finds_codes() {
    let mut reg = GroupRegistry::new();
    reg.upsert(group("2", "Zeta", "AB-CD12", vec![member("me", "Me")], true));
    reg.upsert(group("1", "Alpha", "XYZ789", vec![member("me", "Me")], true));
    let names: Vec<String> = reg.list().into_iter().map(|g| g.name).collect();
    assert_eq!(names, vec!["Alpha".to_string(), "Zeta".to_string()]);
    assert_eq!(reg.find_by_join_code("abcd12").map(|g| g.id), Some("2".to_string()));
    reg.remove_active("2");
    assert!(reg.find_by_join_code("abcd12").is_none());
    assert_eq!(reg.get("2").map(|g| g.active), Some(false));
    assert_eq!(reg.list_active().len(), 1);
    // Upsert replaces by id.
    reg.upsert(group("1", "Alpha2", "XYZ789", vec![], true));
    assert_eq!(reg.list().len(), 2);
    assert_eq!(reg.get("1").map(|g| g.name), Some("Alpha2".to_string()));
}

#[test]
fn join_request_adds_or_renames_member() {
    let mut reg = GroupRegistry::new();
    reg.upsert(group("g1", "Team", "QWERTY", vec![member("me", "Me"), member("b", "Bea")], true));
    assert!(reg.admit_join_request("NOPE00", "x", "X", "me").is_none());
    let (g, notify) = reg.admit_join_request("qwe-rty", "c", "Cy", "me").unwrap();
    assert_eq!(g.members.len(), 3);
    assert_eq!(g.members[2].device_id, "c");
    assert_eq!(notify, vec!["b".to_string()]);
    let (g, _) = reg.admit_join_request("QWERTY", "b", "Bea2", "me").unwrap();
    assert_eq!(g.members.len(), 3);
    assert_eq!(g.members[1].display_name, "Bea2");
    assert_eq!(reg.get("g1").unwrap().members[1].display_name, "Bea2");
}

#[test]
fn leave_and_member_updates() {
    let mut reg = GroupRegistry::new();
    reg.upsert(group("g1", "Team", "QWERTY", vec![member("me", "Me"), member("b", "Bea")], true));
    assert_eq!(reg.leave_group("nope", "me"), Err("Group not found.".to_string()));
    assert_eq!(reg.leave_group("g1", "me"), Ok(vec!["b".to_string()]));
    let g = reg.get("g1").unwrap();
    assert!(!g.active);
    assert_eq!(g.members.len(), 1);
    assert_eq!(reg.leave_group("g1", "me"), Ok(vec![]));
    let still = reg.apply_member_update(group("g1", "Team", "QWERTY", vec![member("me", "Me")], false), "me");
    assert!(still);
    assert!(reg.get("g1").unwrap().active);
    let removed = reg.remove_member("g1", "me").unwrap();
    assert!(removed.members.is_empty());
    assert!(reg.remove_member("zzz", "me").is_none());
}

#[test]
fn group_text_rules() {
    let mut reg = GroupRegistry::new();
    reg.upsert(group("g1", "Team", "QWERTY", vec![member("me", "Me"), member("b", "Bea")], true));
    assert!(reg.accepts_group_text("g1", "b", "me"));
    assert!(!reg.accepts_group_text("g1", "me", "me"));
    assert!(!reg.accepts_group_text("g2", "b", "me"));
    assert!(!reg.accepts_group_text("g1", "b", "zed"));
    assert_eq!(reg.check_group_send("g1", "hi", "me"), Ok(vec!["b".to_string()]));
    assert_eq!(reg.check_group_send("g1", "", "me"), Err("Message cannot be empty.".to_string()));
    assert_eq!(reg.check_group_send("g9", "hi", "me"), Err("You are not in this group.".to_string()));
    assert_eq!(
        reg.check_group_send("g1", "hi", "zed"),
        Err("You are not a member of this group.".to_string())
    );
    assert!(group_send_status(false, 1).is_ok());
    assert!(group_send_status(true, 3).is_ok());
    assert_eq!(
        group_send_status(false, 2),
        Err("No group members reachable. They must be connected (green) on the LAN.".to_string())
    );
    assert_eq!(created_at_or_now(5, 9), 5);
    assert_eq!(created_at_or_now(0, 9), 9);
    assert_eq!(self_display_name("  ", "Mac".into()), "Mac");
    assert_eq!(self_display_name("Ann", "Mac".into()), "Ann");
}
