//! App identity, durable user configuration and its consistency rules.
//!
//! Reading and writing the file is the caller's business; this module decides
//! what a configuration holds, how a loaded one is repaired, and how a change
//! is committed only once it has been saved.

use vstd::prelude::*;
use vstd::string::*;
use crate::text::{trim, is_ctrl, trimmed_chars, string_of, append_str, opt_view, copy_opt};
use crate::ids::{new_uuid_string, uuid_text, uuid_v4_text};
use crate::order::str_eq;

verus! {

pub const APP_NAME: &'static str = "jotainchatttttttt";
pub const APP_VERSION: &'static str = "0.2.1";
pub const BUNDLE_ID: &'static str = "com.jotain.jotainchatttttttt";
pub const CONFIG_FILE_NAME: &'static str = "config.json";
pub const CONFIG_SCHEMA_VERSION: u32 = 1;

/// Default relative folder under the user's Downloads for received files.
pub const DEFAULT_SAVE_SUBDIR: &'static str = "jotainchatttttttt";

/// Display name constraints.
pub const DISPLAY_NAME_MIN_CHARS: usize = 1;
pub const DISPLAY_NAME_MAX_CHARS: usize = 32;

pub const HISTORY_NOTE: &'static str = "Chat history and identity are stored in the app data directory and are not removed when you delete the application. Clear history from Settings, or delete this folder manually.";

/// `path.join(name)` on a Unix path: an absolute `name` replaces the path,
/// otherwise a separator is put between them unless the path is empty or
/// already ends with one.
pub open spec fn path_join(dir: Seq<char>, name: Seq<char>) -> Seq<char> {
    if name.len() > 0 && name[0] == '/' {
        name
    } else if dir.len() == 0 || dir.last() == '/' {
        dir + name
    } else {
        dir + seq!['/'] + name
    }
}

pub fn join_path(dir: &str, name: &str) -> (r: String)
    ensures
        r@ == path_join(dir@, name@),
{
    let n = name.unicode_len();
    if n > 0 && name.get_char(0) == '/' {
        return name.to_owned();
    }
    let mut r = dir.to_owned();
    let d = dir.unicode_len();
    if d > 0 && dir.get_char(d - 1) != '/' {
        crate::text::push_char(&mut r, '/');
    }
    append_str(&mut r, name);
    r
}

#[derive(Debug)]
pub struct AppInfo {
    pub name: String,
    pub version: String,
    pub bundle_id: String,
    pub platform: String,
    /// Explicit product policy: this build has no auto-updater.
    pub auto_update: bool,
}

impl AppInfo {
    /// The app's identity on the given platform (`std::env::consts::OS`).
    pub fn current(platform: &str) -> (r: Self)
        ensures
            r.name@ == APP_NAME@,
            r.version@ == APP_VERSION@,
            r.bundle_id@ == BUNDLE_ID@,
            r.platform@ == platform@,
            !r.auto_update,
    {
        AppInfo {
            name: APP_NAME.to_owned(),
            version: APP_VERSION.to_owned(),
            bundle_id: BUNDLE_ID.to_owned(),
            platform: platform.to_owned(),
            auto_update: false,
        }
    }
}

#[derive(Debug)]
pub struct AppPaths {
    /// Durable config + SQLite history (survives uninstall of the .app).
    pub app_data_dir: String,
    /// Suggested default directory for received files.
    pub default_save_dir: String,
    /// Absolute path to the durable config JSON file.
    pub config_path: String,
    pub history_note: String,
}

/// Public identity snapshot for the UI.
#[derive(Debug)]
pub struct Identity {
    pub device_id: String,
    pub display_name: String,
    /// True after the user has finished first-run naming.
    pub onboarding_complete: bool,
    /// Suggested name for first-run (e.g. computer name).
    pub suggested_display_name: String,
}

/// On-disk config. `device_id` is stable for the life of this data directory.
#[derive(Debug)]
pub struct UserConfig {
    pub version: u32,
    pub device_id: String,
    pub display_name: String,
    pub onboarding_complete: bool,
    /// Optional override; empty means use default Downloads subdir.
    pub save_dir_override: Option<String>,
    /// Play system sounds for incoming messages / file transfer events.
    pub sound_enabled: bool,
    /// When a peer session comes up, auto-resume interrupted inbound transfers.
    pub auto_resume_transfers: bool,
}

/// What a `UserConfig` holds, as plain values.
pub struct ConfigModel {
    pub version: u32,
    pub device_id: Seq<char>,
    pub display_name: Seq<char>,
    pub onboarding_complete: bool,
    pub save_dir_override: Option<Seq<char>>,
    pub sound_enabled: bool,
    pub auto_resume_transfers: bool,
}

impl View for UserConfig {
    type V = ConfigModel;

    open spec fn view(&self) -> ConfigModel {
        ConfigModel {
            version: self.version,
            device_id: self.device_id@,
            display_name: self.display_name@,
            onboarding_complete: self.onboarding_complete,
            save_dir_override: opt_view(self.save_dir_override),
            sound_enabled: self.sound_enabled,
            auto_resume_transfers: self.auto_resume_transfers,
        }
    }
}

/// UI-facing preferences (sound, etc.).
#[derive(Debug)]
pub struct Preferences {
    pub sound_enabled: bool,
    pub auto_resume_transfers: bool,
}

/// Default for the boolean preferences of a config file that lacks them.
pub fn default_true() -> (r: bool)
    ensures
        r,
{
    true
}

impl UserConfig {
    pub fn new_with_device_id(device_id: String) -> (c: Self)
        ensures
            c@ == (ConfigModel {
                version: CONFIG_SCHEMA_VERSION,
                device_id: device_id@,
                display_name: Seq::empty(),
                onboarding_complete: false,
                save_dir_override: None,
                sound_enabled: true,
                auto_resume_transfers: true,
            }),
    {
        UserConfig {
            version: CONFIG_SCHEMA_VERSION,
            device_id,
            display_name: String::new(),
            onboarding_complete: false,
            save_dir_override: None,
            sound_enabled: true,
            auto_resume_transfers: true,
        }
    }

    /// A field-by-field copy.
    pub fn duplicate(&self) -> (c: Self)
        ensures
            c@ == self@,
    {
        UserConfig {
            version: self.version,
            device_id: self.device_id.clone(),
            display_name: self.display_name.clone(),
            onboarding_complete: self.onboarding_complete,
            save_dir_override: copy_opt(&self.save_dir_override),
            sound_enabled: self.sound_enabled,
            auto_resume_transfers: self.auto_resume_transfers,
        }
    }

    /// The identity shown to the UI; `suggested` is the first-run name hint.
    pub fn to_identity(&self, suggested: String) -> (i: Identity)
        ensures
            i.device_id@ == self.device_id@,
            i.display_name@ == self.display_name@,
            i.onboarding_complete == self.onboarding_complete,
            i.suggested_display_name@ == suggested@,
    {
        Identity {
            device_id: self.device_id.clone(),
            display_name: self.display_name.clone(),
            onboarding_complete: self.onboarding_complete,
            suggested_display_name: suggested,
        }
    }

    pub fn to_preferences(&self) -> (p: Preferences)
        ensures
            p.sound_enabled == self.sound_enabled,
            p.auto_resume_transfers == self.auto_resume_transfers,
    {
        Preferences {
            sound_enabled: self.sound_enabled,
            auto_resume_transfers: self.auto_resume_transfers,
        }
    }
}

pub fn config_file_path(app_data_dir: &str) -> (r: String)
    ensures
        r@ == path_join(app_data_dir@, CONFIG_FILE_NAME@),
{
    join_path(app_data_dir, CONFIG_FILE_NAME)
}

/// `$HOME/Downloads/<DEFAULT_SAVE_SUBDIR>`, given the home directory if known.
pub fn default_downloads_save_dir(home: Option<String>) -> (r: Result<String, String>)
    ensures
        match home {
            None => r matches Err(e) && e@ == "could not resolve home directory"@,
            Some(h) => r matches Ok(p) && p@ == path_join(
                path_join(h@, "Downloads"@),
                DEFAULT_SAVE_SUBDIR@,
            ),
        },
{
    match home {
        None => Err(String::from_str("could not resolve home directory")),
        Some(h) => {
            let d = join_path(h.as_str(), "Downloads");
            Ok(join_path(d.as_str(), DEFAULT_SAVE_SUBDIR))
        },
    }
}

/// The paths shown to the UI, given the app data directory and the home directory.
pub fn resolve_paths(app_data_dir: &str, home: Option<String>) -> (r: Result<AppPaths, String>)
    ensures
        home is None ==> (r matches Err(e) && e@ == "could not resolve home directory"@),
        home matches Some(h) ==> (r matches Ok(p) && p.app_data_dir@ == app_data_dir@
            && p.default_save_dir@ == path_join(path_join(h@, "Downloads"@), DEFAULT_SAVE_SUBDIR@)
            && p.config_path@ == path_join(app_data_dir@, CONFIG_FILE_NAME@)
            && p.history_note@ == HISTORY_NOTE@),
{
    let config_path = config_file_path(app_data_dir);
    let default_save_dir = match default_downloads_save_dir(home) {
        Ok(d) => d,
        Err(e) => return Err(e),
    };
    Ok(AppPaths {
        app_data_dir: app_data_dir.to_owned(),
        default_save_dir,
        config_path,
        history_note: HISTORY_NOTE.to_owned(),
    })
}

pub open spec fn has_ctrl(s: Seq<char>) -> bool {
    exists|i: int| 0 <= i < s.len() && is_ctrl(#[trigger] s[i])
}

/// Why a raw display name is refused, if it is.
pub open spec fn display_name_error(raw: Seq<char>) -> Option<Seq<char>> {
    let t = trim(raw);
    if t.len() < DISPLAY_NAME_MIN_CHARS {
        Some("Display name cannot be empty."@)
    } else if t.len() > DISPLAY_NAME_MAX_CHARS {
        Some("Display name must be at most 32 characters."@)
    } else if has_ctrl(t) {
        Some("Display name cannot contain control characters."@)
    } else {
        None
    }
}

pub open spec fn display_name_ok(raw: Seq<char>) -> bool {
    display_name_error(raw) is None
}

/// Validate and normalize a display name. Returns trimmed name or error.
pub fn normalize_display_name(raw: &str) -> (r: Result<String, String>)
    ensures
        match r {
            Ok(n) => display_name_ok(raw@) && n@ == trim(raw@),
            Err(e) => display_name_error(raw@) == Some(e@),
        },
{
    let chars = trimmed_chars(raw);
    let len = chars.len();
    if len < DISPLAY_NAME_MIN_CHARS {
        return Err(String::from_str("Display name cannot be empty."));
    }
    if len > DISPLAY_NAME_MAX_CHARS {
        return Err(String::from_str("Display name must be at most 32 characters."));
    }
    let mut i: usize = 0;
    while i < len
        invariant
            len == chars@.len(),
            chars@ == trim(raw@),
            DISPLAY_NAME_MIN_CHARS <= len <= DISPLAY_NAME_MAX_CHARS,
            i <= len,
            forall|k: int| 0 <= k < i ==> !is_ctrl(#[trigger] chars@[k]),
        decreases len - i,
    {
        if crate::text::is_control_char(chars[i]) {
            assert(is_ctrl(chars@[i as int]));
            assert(has_ctrl(trim(raw@)));
            return Err(String::from_str("Display name cannot contain control characters."));
        }
        i = i + 1;
    }
    Ok(string_of(&chars, 0, len))
}

/// Clamp a string to at most `DISPLAY_NAME_MAX_CHARS` Unicode scalars (for suggestions).
pub fn clamp_display_name_hint(raw: &str) -> (r: String)
    ensures
        r@ == (if trim(raw@).len() <= DISPLAY_NAME_MAX_CHARS {
            trim(raw@)
        } else {
            trim(raw@).take(DISPLAY_NAME_MAX_CHARS as int)
        }),
{
    let chars = trimmed_chars(raw);
    let n = if chars.len() <= DISPLAY_NAME_MAX_CHARS {
        chars.len()
    } else {
        DISPLAY_NAME_MAX_CHARS
    };
    let r = string_of(&chars, 0, n);
    proof {
        assert(chars@.subrange(0, chars@.len() as int) =~= chars@);
    }
    r
}

impl ConfigModel {
    pub open spec fn with_display_name(self, name: Seq<char>) -> ConfigModel {
        ConfigModel { display_name: name, onboarding_complete: true, ..self }
    }

    pub open spec fn with_sound(self, enabled: bool) -> ConfigModel {
        ConfigModel { sound_enabled: enabled, ..self }
    }

    pub open spec fn with_auto_resume(self, enabled: bool) -> ConfigModel {
        ConfigModel { auto_resume_transfers: enabled, ..self }
    }
}

/// Saves `candidate` through `save` and makes it the live config only if
/// saving succeeded; on failure the live config stays as it was.
fn commit<F: Fn(&UserConfig) -> Result<(), String>>(
    cfg: &mut UserConfig,
    candidate: UserConfig,
    save: &F,
) -> (r: Result<(), String>)
    requires
        save.requires((&candidate,)),
    ensures
        save.ensures((&candidate,), r),
        r is Ok ==> final(cfg)@ == candidate@,
        r is Err ==> final(cfg)@ == old(cfg)@,
{
    let res = save(&candidate);
    if res.is_ok() {
        *cfg = candidate;
    }
    res
}

/// Set display name and mark onboarding complete, persisting through `save`.
/// On a refused name nothing is saved; on a failed save `cfg` is left
/// unchanged (rollback) and the save's error is returned.
pub fn set_display_name<F: Fn(&UserConfig) -> Result<(), String>>(
    cfg: &mut UserConfig,
    raw: &str,
    save: F,
) -> (r: Result<(), String>)
    requires
        forall|c: &UserConfig| save.requires((c,)),
    ensures
        !display_name_ok(raw@) ==> (r matches Err(e) && display_name_error(raw@) == Some(e@)
            && final(cfg)@ == old(cfg)@),
        display_name_ok(raw@) ==> exists|c: UserConfig|
            c@ == old(cfg)@.with_display_name(trim(raw@)) && #[trigger] save.ensures((&c,), r),
        r is Ok ==> display_name_ok(raw@) && final(cfg)@ == old(cfg)@.with_display_name(
            trim(raw@),
        ),
        r is Err ==> final(cfg)@ == old(cfg)@,
{
    let name = match normalize_display_name(raw) {
        Ok(n) => n,
        Err(e) => return Err(e),
    };
    let mut candidate = cfg.duplicate();
    candidate.display_name = name;
    candidate.onboarding_complete = true;
    let ghost c = candidate;
    let r = commit(cfg, candidate, &save);
    assert(save.ensures((&c,), r));
    r
}

/// Turn notification sounds on or off, persisting through `save`;
/// `cfg` is unchanged when saving fails.
pub fn set_sound_enabled<F: Fn(&UserConfig) -> Result<(), String>>(
    cfg: &mut UserConfig,
    enabled: bool,
    save: F,
) -> (r: Result<(), String>)
    requires
        forall|c: &UserConfig| save.requires((c,)),
    ensures
        exists|c: UserConfig| c@ == old(cfg)@.with_sound(enabled) && #[trigger] save.ensures((&c,), r),
        r is Ok ==> final(cfg)@ == old(cfg)@.with_sound(enabled),
        r is Err ==> final(cfg)@ == old(cfg)@,
{
    let mut candidate = cfg.duplicate();
    candidate.sound_enabled = enabled;
    let ghost c = candidate;
    let r = commit(cfg, candidate, &save);
    assert(save.ensures((&c,), r));
    r
}

/// Turn automatic resume of interrupted transfers on or off, persisting
/// through `save`; `cfg` is unchanged when saving fails.
pub fn set_auto_resume_transfers<F: Fn(&UserConfig) -> Result<(), String>>(
    cfg: &mut UserConfig,
    enabled: bool,
    save: F,
) -> (r: Result<(), String>)
    requires
        forall|c: &UserConfig| save.requires((c,)),
    ensures
        exists|c: UserConfig|
            c@ == old(cfg)@.with_auto_resume(enabled) && #[trigger] save.ensures((&c,), r),
        r is Ok ==> final(cfg)@ == old(cfg)@.with_auto_resume(enabled),
        r is Err ==> final(cfg)@ == old(cfg)@,
{
    let mut candidate = cfg.duplicate();
    candidate.auto_resume_transfers = enabled;
    let ghost c = candidate;
    let r = commit(cfg, candidate, &save);
    assert(save.ensures((&c,), r));
    r
}

/// A config is consistent when its schema is current, its device id is not
/// blank, and onboarding is complete exactly when it holds a usable name.
pub open spec fn consistent(m: ConfigModel) -> bool {
    &&& m.version == CONFIG_SCHEMA_VERSION
    &&& trim(m.device_id).len() > 0
    &&& m.onboarding_complete == display_name_ok(m.display_name)
}

pub open spec fn needs_new_id(m: ConfigModel) -> bool {
    trim(m.device_id).len() == 0
}

/// Marked complete but no usable name: first-run naming starts again.
pub open spec fn resets_onboarding(m: ConfigModel) -> bool {
    m.onboarding_complete && !display_name_ok(m.display_name)
}

/// A usable name but onboarding not marked: it counts as complete.
pub open spec fn marks_onboarding(m: ConfigModel) -> bool {
    !m.onboarding_complete && display_name_ok(m.display_name)
}

pub open spec fn note_if(b: bool, note: Seq<char>) -> Seq<Seq<char>> {
    if b { seq![note] } else { Seq::empty() }
}

/// The repair notes for a loaded config, in the order the repairs are made.
pub open spec fn repair_notes(m: ConfigModel) -> Seq<Seq<char>> {
    note_if(needs_new_id(m), "empty device_id regenerated"@)
        + note_if(m.version != CONFIG_SCHEMA_VERSION, "schema version bumped"@)
        + note_if(resets_onboarding(m), "onboarding reset (empty name)"@)
        + note_if(marks_onboarding(m), "onboarding marked complete from name"@)
}

pub open spec fn views_of(v: Seq<String>) -> Seq<Seq<char>> {
    v.map_values(|s: String| s@)
}

fn push_note(notes: &mut Vec<String>, note: &str)
    ensures
        views_of(final(notes)@) == views_of(old(notes)@).push(note@),
{
    notes.push(note.to_owned());
    proof {
        assert(views_of(notes@) =~= views_of(old(notes)@).push(note@));
    }
}

/// Repairs a config read from disk: a blank device id is regenerated (an
/// existing one is never replaced), the schema version is brought up to date,
/// and the onboarding flag is made to agree with the name. Returns the notes
/// of what was repaired; the caller saves the config when there are any.
pub fn repair_loaded_config(cfg: &mut UserConfig) -> (notes: Vec<String>)
    ensures
        views_of(notes@) == repair_notes(old(cfg)@),
        final(cfg).version == CONFIG_SCHEMA_VERSION,
        needs_new_id(old(cfg)@) ==> uuid_v4_text(final(cfg).device_id@),
        !needs_new_id(old(cfg)@) ==> final(cfg).device_id@ == old(cfg).device_id@,
        resets_onboarding(old(cfg)@) ==> final(cfg).display_name@ == Seq::<char>::empty()
            && !final(cfg).onboarding_complete,
        !resets_onboarding(old(cfg)@) ==> final(cfg).display_name@ == old(cfg).display_name@
            && final(cfg).onboarding_complete == (old(cfg).onboarding_complete || marks_onboarding(
            old(cfg)@,
        )),
        opt_view(final(cfg).save_dir_override) == opt_view(old(cfg).save_dir_override),
        final(cfg).sound_enabled == old(cfg).sound_enabled,
        final(cfg).auto_resume_transfers == old(cfg).auto_resume_transfers,
        consistent(final(cfg)@),
{
    let ghost m = cfg@;
    let mut notes: Vec<String> = Vec::new();
    if crate::text::is_blank(cfg.device_id.as_str()) {
        cfg.device_id = new_uuid_string();
        push_note(&mut notes, "empty device_id regenerated");
    }
    if cfg.version != CONFIG_SCHEMA_VERSION {
        cfg.version = CONFIG_SCHEMA_VERSION;
        push_note(&mut notes, "schema version bumped");
    }
    let name_ok = normalize_display_name(cfg.display_name.as_str()).is_ok();
    if cfg.onboarding_complete && !name_ok {
        cfg.onboarding_complete = false;
        cfg.display_name = String::new();
        push_note(&mut notes, "onboarding reset (empty name)");
    }
    let name_ok = normalize_display_name(cfg.display_name.as_str()).is_ok();
    if !cfg.onboarding_complete && name_ok {
        cfg.onboarding_complete = true;
        push_note(&mut notes, "onboarding marked complete from name");
    }
    proof {
        if needs_new_id(m) {
            lemma_uuid_not_blank(cfg.device_id@);
        }
        lemma_empty_name_refused();
        assert(views_of(notes@) =~= repair_notes(m));
    }
    notes
}

proof fn lemma_empty_name_refused()
    ensures
        !display_name_ok(Seq::<char>::empty()),
{
    let e = Seq::<char>::empty();
    crate::text::lemma_trim_ends(e);
}

/// A UUID's text has no white space, so it is never blank.
pub proof fn lemma_uuid_not_blank(s: Seq<char>)
    requires
        uuid_text(s),
    ensures
        trim(s).len() > 0,
{
    assert forall|k: int| 0 <= k < s.len() implies !crate::text::is_ws(#[trigger] s[k]) by {
        assert(crate::ids::is_lower_hex(s[k]) || s[k] == '-');
    }
    crate::text::lemma_trim_no_ws(s);
}

/// Law: a consistent config needs no repair.
pub proof fn lemma_consistent_needs_no_repair(m: ConfigModel)
    requires
        consistent(m),
    ensures
        repair_notes(m) =~= Seq::<Seq<char>>::empty(),
{
}

/// Law: a loaded config given a valid name is still consistent, so when it
/// is read back after saving, repair finds nothing to do: it keeps the name,
/// the completed onboarding and the device id that were saved.
pub proof fn lemma_named_config_reloads_unchanged(m: ConfigModel, raw: Seq<char>)
    requires
        consistent(m),
        display_name_ok(raw),
    ensures
        consistent(m.with_display_name(trim(raw))),
        repair_notes(m.with_display_name(trim(raw))) =~= Seq::<Seq<char>>::empty(),
        m.with_display_name(trim(raw)).display_name == trim(raw),
        m.with_display_name(trim(raw)).onboarding_complete,
        m.with_display_name(trim(raw)).device_id == m.device_id,
{
    lemma_normalize_idempotent(raw);
    lemma_consistent_needs_no_repair(m.with_display_name(trim(raw)));
}

/// Law: a trimmed valid name normalizes to itself.
pub proof fn lemma_normalize_idempotent(raw: Seq<char>)
    requires
        display_name_ok(raw),
    ensures
        display_name_ok(trim(raw)),
        trim(trim(raw)) == trim(raw),
{
    crate::text::lemma_trim_idempotent(raw);
}

/// The fallback name for the platform when no machine name is available.
pub open spec fn fallback_name(os: Seq<char>) -> Seq<char> {
    if os == "macos"@ {
        "Mac"@
    } else if os == "windows"@ {
        "Windows PC"@
    } else {
        "Computer"@
    }
}

pub open spec fn clamp_hint(raw: Seq<char>) -> Seq<char> {
    if trim(raw).len() <= DISPLAY_NAME_MAX_CHARS {
        trim(raw)
    } else {
        trim(raw).take(DISPLAY_NAME_MAX_CHARS as int)
    }
}

/// The name suggested at first run: the computer name, else the host name
/// (consulted only when there is no computer name), when not blank; else
/// the platform's fallback. Clamped to the display-name limit.
pub open spec fn suggested_name(
    os: Seq<char>,
    computer: Option<Seq<char>>,
    host: Option<Seq<char>>,
) -> Seq<char> {
    let raw = match computer {
        Some(c) => Some(c),
        None => host,
    };
    let chosen = match raw {
        Some(r) => if trim(r).len() > 0 { r } else { fallback_name(os) },
        None => fallback_name(os),
    };
    if clamp_hint(chosen).len() == 0 { fallback_name(os) } else { clamp_hint(chosen) }
}

fn fallback_for(os: &str) -> (r: String)
    ensures
        r@ == fallback_name(os@),
{
    if str_eq(os, "macos") {
        String::from_str("Mac")
    } else if str_eq(os, "windows") {
        String::from_str("Windows PC")
    } else {
        String::from_str("Computer")
    }
}

/// The first-run name suggestion from the platform name and what the
/// machine reports as its computer name and host name.
pub fn suggested_display_name(os: &str, computer: Option<String>, host: Option<String>) -> (r:
    String)
    ensures
        r@ == suggested_name(os@, opt_view(computer), opt_view(host)),
{
    let raw = match computer {
        Some(c) => Some(c),
        None => host,
    };
    let chosen = match raw {
        Some(r) => if !crate::text::is_blank(r.as_str()) {
            r
        } else {
            fallback_for(os)
        },
        None => fallback_for(os),
    };
    let clamped = clamp_display_name_hint(chosen.as_str());
    if clamped.unicode_len() == 0 {
        fallback_for(os)
    } else {
        clamped
    }
}

/// `s` without the suffix `suffix`, when it ends with it.
pub open spec fn strip_suffix(s: Seq<char>, suffix: Seq<char>) -> Seq<char> {
    if s.len() >= suffix.len() && s.subrange(s.len() - suffix.len(), s.len() as int) == suffix {
        s.subrange(0, s.len() - suffix.len())
    } else {
        s
    }
}

/// The host name from the output of `hostname`: trimmed, without the
/// `.local` suffix that mDNS adds; none when nothing is left.
pub fn host_name_from_output(stdout: &str) -> (r: Option<String>)
    ensures
        match r {
            Some(h) => h@ == strip_suffix(trim(stdout@), ".local"@) && h@.len() > 0,
            None => strip_suffix(trim(stdout@), ".local"@).len() == 0,
        },
{
    let t = trimmed_chars(stdout);
    let n = t.len();
    let suffix = crate::text::chars_of(".local");
    let mut ends = n >= 6;
    let mut k: usize = 0;
    while ends && k < 6
        invariant
            suffix@ == ".local"@,
            n == t@.len(),
            k <= 6,
            ends ==> n >= 6,
            ends ==> forall|j: int| 0 <= j < k ==> t@[n - 6 + j] == suffix@[j],
            !ends ==> !(n >= 6 && t@.subrange(n - 6, n as int) == ".local"@),
        decreases 6 - k,
    {
        proof {
            reveal_strlit(".local");
        }
        if t[n - 6 + k] != suffix[k] {
            ends = false;
            proof {
                assert(t@.subrange(n - 6, n as int)[k as int] == t@[n - 6 + k]);
            }
        }
        k = k + 1;
    }
    proof {
        reveal_strlit(".local");
        if ends {
            assert(t@.subrange(n - 6, n as int) =~= ".local"@);
        }
    }
    let end = if ends { n - 6 } else { n };
    if end == 0 {
        None
    } else {
        Some(string_of(&t, 0, end))
    }
}

/// The computer name from the output of `scutil --get ComputerName`:
/// trimmed; none when blank.
pub fn computer_name_from_output(stdout: &str) -> (r: Option<String>)
    ensures
        match r {
            Some(c) => c@ == trim(stdout@) && c@.len() > 0,
            None => trim(stdout@).len() == 0,
        },
{
    let t = trimmed_chars(stdout);
    if t.len() == 0 {
        None
    } else {
        Some(string_of(&t, 0, t.len()))
    }
}

} // verus!
