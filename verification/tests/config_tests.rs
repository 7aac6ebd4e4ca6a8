use jotainchat::config::{
    clamp_display_name_hint, computer_name_from_output, config_file_path, default_downloads_save_dir,
    host_name_from_output, normalize_display_name, repair_loaded_config, resolve_paths,
    set_auto_resume_transfers, set_display_name, set_sound_enabled, suggested_display_name, AppInfo,
    UserConfig, APP_NAME, BUNDLE_ID, DISPLAY_NAME_MAX_CHARS,
};
use jotainchat::db::db_path;
use std::cell::RefCell;

fn save_ok(_: &UserConfig) -> Result<(), String> {
    Ok(())
}

#[test]
fn app_info_disables_auto_update() {
    let info = AppInfo::current("macos");
    assert!(!info.auto_update);
    assert_eq!(info.name, APP_NAME);
    assert_eq!(info.bundle_id, BUNDLE_ID);
}

#[test]
fn normalize_display_name_trims_and_rejects_empty() {
    assert_eq!(normalize_display_name("  Alice  ").unwrap(), "Alice");
    assert!(normalize_display_name("   ").is_err());
    assert!(normalize_display_name("").is_err());
}

#[test]
fn normalize_display_name_max_length() {
    let ok = "a".repeat(DISPLAY_NAME_MAX_CHARS);
    assert!(normalize_display_name(&ok).is_ok());
    let too_long = "a".repeat(DISPLAY_NAME_MAX_CHARS + 1);
    assert!(normalize_display_name(&too_long).is_err());
}

#[test]
fn suggested_name_never_exceeds_max() {
    let long = "名".repeat(50);
    let clamped = clamp_display_name_hint(&long);
    assert_eq!(clamped.chars().count(), DISPLAY_NAME_MAX_CHARS);
}

#[test]
fn set_display_name_completes_onboarding() {
    let saved: RefCell<Vec<(String, bool)>> = RefCell::new(Vec::new());
    let mut cfg = UserConfig::new_with_device_id("dev-1".to_string());
    set_display_name(&mut cfg, "  Studio Mac  ", |c: &UserConfig| {
        saved.borrow_mut().push((c.display_name.clone(), c.onboarding_complete));
        Ok(())
    })
    .unwrap();
    assert_eq!(cfg.display_name, "Studio Mac");
    assert!(cfg.onboarding_complete);
    assert_eq!(saved.borrow().as_slice(), &[("Studio Mac".to_string(), true)]);
    assert_eq!(cfg.device_id, "dev-1");
}

#[test]
fn set_display_name_rolls_back_memory_on_save_failure() {
    let mut cfg = UserConfig::new_with_device_id("dev-2".to_string());
    let before_name = cfg.display_name.clone();
    let before_done = cfg.onboarding_complete;
    let err = set_display_name(&mut cfg, "Alice", |_: &UserConfig| Err("disk full".to_string()));
    assert!(err.is_err());
    assert_eq!(cfg.display_name, before_name);
    assert_eq!(cfg.onboarding_complete, before_done);
}

#[test]
fn set_display_name_refused_name_is_not_saved() {
    let calls = RefCell::new(0);
    let mut cfg = UserConfig::new_with_device_id("dev-3".to_string());
    let r = set_display_name(&mut cfg, "bad\u{7}name", |_: &UserConfig| {
        *calls.borrow_mut() += 1;
        Ok(())
    });
    assert_eq!(r, Err("Display name cannot contain control characters.".to_string()));
    assert_eq!(*calls.borrow(), 0);
    assert!(!cfg.onboarding_complete);
}

#[test]
fn preferences_roll_back_on_save_failure() {
    let mut cfg = UserConfig::new_with_device_id("dev-4".to_string());
    assert!(set_sound_enabled(&mut cfg, false, |_: &UserConfig| Err("x".to_string())).is_err());
    assert!(cfg.sound_enabled);
    set_sound_enabled(&mut cfg, false, save_ok).unwrap();
    assert!(!cfg.sound_enabled);
    assert!(set_auto_resume_transfers(&mut cfg, false, |_: &UserConfig| Err("x".to_string())).is_err());
    assert!(cfg.auto_resume_transfers);
    set_auto_resume_transfers(&mut cfg, false, save_ok).unwrap();
    assert!(!cfg.auto_resume_transfers);
    let p = cfg.to_preferences();
    assert!(!p.sound_enabled && !p.auto_resume_transfers);
}

#[test]
fn load_repairs_onboarding_without_name() {
    let mut cfg = UserConfig::new_with_device_id("dev".to_string());
    cfg.onboarding_complete = true;
    cfg.display_name = String::new();
    let notes = repair_loaded_config(&mut cfg);
    assert!(!cfg.onboarding_complete);
    assert!(cfg.display_name.is_empty());
    assert_eq!(notes, vec!["onboarding reset (empty name)".to_string()]);
}

#[test]
fn load_repairs_name_without_onboarding_flag() {
    let mut cfg = UserConfig::new_with_device_id("dev".to_string());
    cfg.display_name = "Bob".into();
    cfg.onboarding_complete = false;
    let notes = repair_loaded_config(&mut cfg);
    assert!(cfg.onboarding_complete);
    assert_eq!(cfg.display_name, "Bob");
    assert_eq!(notes, vec!["onboarding marked complete from name".to_string()]);
}

#[test]
fn repair_regenerates_blank_device_id_and_bumps_version() {
    let mut cfg = UserConfig::new_with_device_id("   ".to_string());
    cfg.version = 0;
    let notes = repair_loaded_config(&mut cfg);
    assert_eq!(cfg.device_id.len(), 36);
    assert_eq!(cfg.version, 1);
    assert_eq!(
        notes,
        vec!["empty device_id regenerated".to_string(), "schema version bumped".to_string()]
    );
    // A repaired config needs no further repair.
    let again = repair_loaded_config(&mut cfg);
    assert!(again.is_empty());
}

#[test]
fn repair_keeps_existing_device_id() {
    let mut cfg = UserConfig::new_with_device_id("keep-me".to_string());
    let notes = repair_loaded_config(&mut cfg);
    assert!(notes.is_empty());
    assert_eq!(cfg.device_id, "keep-me");
}

#[test]
fn normalize_errors_are_exact() {
    assert_eq!(normalize_display_name(""), Err("Display name cannot be empty.".to_string()));
    assert_eq!(
        normalize_display_name(&"b".repeat(33)),
        Err("Display name must be at most 32 characters.".to_string())
    );
    assert_eq!(
        normalize_display_name("a\u{1}b"),
        Err("Display name cannot contain control characters.".to_string())
    );
    // Normalizing a normalized name gives it back.
    let n = normalize_display_name("\t Zoë \n").unwrap();
    assert_eq!(n, "Zoë");
    assert_eq!(normalize_display_name(&n).unwrap(), n);
}

#[test]
fn clamp_keeps_short_names() {
    assert_eq!(clamp_display_name_hint("  Mac mini  "), "Mac mini");
    assert_eq!(clamp_display_name_hint(""), "");
}

#[test]
fn paths_join_like_path_join() {
    assert_eq!(config_file_path("/data/app"), "/data/app/config.json");
    assert_eq!(config_file_path("/data/app/"), "/data/app/config.json");
    assert_eq!(db_path("/d"), "/d/messages.db");
    assert_eq!(
        default_downloads_save_dir(Some("/home/u".to_string())).unwrap(),
        "/home/u/Downloads/jotainchatttttttt"
    );
    assert_eq!(
        default_downloads_save_dir(None),
        Err("could not resolve home directory".to_string())
    );
    let p = resolve_paths("/data", Some("/home/u".to_string())).unwrap();
    assert_eq!(p.config_path, "/data/config.json");
    assert_eq!(p.default_save_dir, "/home/u/Downloads/jotainchatttttttt");
    assert!(p.history_note.starts_with("Chat history and identity"));
}

#[test]
fn host_and_computer_names_from_output() {
    assert_eq!(host_name_from_output("studio.local\n"), Some("studio".to_string()));
    assert_eq!(host_name_from_output("  box  "), Some("box".to_string()));
    assert_eq!(host_name_from_output(".local"), None);
    assert_eq!(host_name_from_output("   "), None);
    assert_eq!(computer_name_from_output(" Anna's Mac \n"), Some("Anna's Mac".to_string()));
    assert_eq!(computer_name_from_output("\n"), None);
}

#[test]
fn suggested_name_falls_back_per_platform() {
    assert_eq!(suggested_display_name("macos", None, None), "Mac");
    assert_eq!(suggested_display_name("windows", None, None), "Windows PC");
    assert_eq!(suggested_display_name("linux", None, None), "Computer");
    assert_eq!(suggested_display_name("linux", None, Some("host1".into())), "host1");
    assert_eq!(suggested_display_name("macos", Some("Studio".into()), Some("host1".into())), "Studio");
    // A blank computer name does not fall through to the host name.
    assert_eq!(suggested_display_name("macos", Some("  ".into()), Some("host1".into())), "Mac");
    let long = "x".repeat(40);
    assert_eq!(suggested_display_name("linux", Some(long), None).chars().count(), 32);
}

#[test]
fn identity_reports_config_and_suggestion() {
    let mut cfg = UserConfig::new_with_device_id("id-9".to_string());
    set_display_name(&mut cfg, "Kim", save_ok).unwrap();
    let ident = cfg.to_identity("Mac".to_string());
    assert_eq!(ident.device_id, "id-9");
    assert_eq!(ident.display_name, "Kim");
    assert!(ident.onboarding_complete);
    assert_eq!(ident.suggested_display_name, "Mac");
}
