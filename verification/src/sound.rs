//! Notification sounds for chat and file transfer: which sound goes with
//! which event, and whether it plays. Playing it is the caller's business.

use vstd::prelude::*;
use vstd::string::*;
use crate::order::str_eq;
use crate::text::append_str;

verus! {

#[derive(PartialEq, Eq, Structural, Clone, Copy, Debug)]
pub enum SoundKind {
    Message,
    FileOffer,
    FileDone,
    FileAlert,
}

pub open spec fn kind_name(k: SoundKind) -> Seq<char> {
    match k {
        SoundKind::Message => "message"@,
        SoundKind::FileOffer => "file_offer"@,
        SoundKind::FileDone => "file_done"@,
        SoundKind::FileAlert => "file_alert"@,
    }
}

pub open spec fn kind_path(k: SoundKind) -> Seq<char> {
    match k {
        SoundKind::Message => "/System/Library/Sounds/Glass.aiff"@,
        SoundKind::FileOffer => "/System/Library/Sounds/Submarine.aiff"@,
        SoundKind::FileDone => "/System/Library/Sounds/Hero.aiff"@,
        SoundKind::FileAlert => "/System/Library/Sounds/Basso.aiff"@,
    }
}

impl SoundKind {
    /// The system sound file played for this kind.
    pub fn system_path(self) -> (r: &'static str)
        ensures
            r@ == kind_path(self),
    {
        match self {
            SoundKind::Message => "/System/Library/Sounds/Glass.aiff",
            SoundKind::FileOffer => "/System/Library/Sounds/Submarine.aiff",
            SoundKind::FileDone => "/System/Library/Sounds/Hero.aiff",
            SoundKind::FileAlert => "/System/Library/Sounds/Basso.aiff",
        }
    }

    /// The name the UI knows this kind by.
    pub fn as_str(self) -> (r: &'static str)
        ensures
            r@ == kind_name(self),
    {
        match self {
            SoundKind::Message => "message",
            SoundKind::FileOffer => "file_offer",
            SoundKind::FileDone => "file_done",
            SoundKind::FileAlert => "file_alert",
        }
    }
}

/// The kind the UI names `kind`, for a settings preview.
pub fn parse_sound_kind(kind: &str) -> (r: Result<SoundKind, String>)
    ensures
        match r {
            Ok(k) => kind_name(k) == kind@,
            Err(e) => e@ == "unknown sound kind: "@ + kind@ && forall|k: SoundKind|
                kind_name(k) != kind@,
        },
{
    if str_eq(kind, "message") {
        Ok(SoundKind::Message)
    } else if str_eq(kind, "file_offer") {
        Ok(SoundKind::FileOffer)
    } else if str_eq(kind, "file_done") {
        Ok(SoundKind::FileDone)
    } else if str_eq(kind, "file_alert") {
        Ok(SoundKind::FileAlert)
    } else {
        let mut e = String::from_str("unknown sound kind: ");
        append_str(&mut e, kind);
        proof {
            assert forall|k: SoundKind| kind_name(k) != kind@ by {
                match k {
                    SoundKind::Message => {},
                    SoundKind::FileOffer => {},
                    SoundKind::FileDone => {},
                    SoundKind::FileAlert => {},
                }
            }
        }
        Err(e)
    }
}

/// Law: a kind's name parses back to that kind.
pub proof fn lemma_kind_name_injective(a: SoundKind, b: SoundKind)
    ensures
        kind_name(a) == kind_name(b) ==> a == b,
{
    reveal_strlit("message");
    reveal_strlit("file_offer");
    reveal_strlit("file_done");
    reveal_strlit("file_alert");
    if kind_name(a) == kind_name(b) && a != b {
        assert(kind_name(a).len() == kind_name(b).len());
        match (a, b) {
            (SoundKind::FileDone, SoundKind::FileAlert) | (SoundKind::FileAlert, SoundKind::FileDone) => {
                assert(kind_name(a)[5] != kind_name(b)[5]);
            },
            (SoundKind::FileOffer, SoundKind::FileAlert) | (SoundKind::FileAlert, SoundKind::FileOffer) => {
                assert(kind_name(a)[5] != kind_name(b)[5]);
            },
            _ => {},
        }
    }
}

/// Law: the sound of each event, and the name the UI knows it by.
pub proof fn lemma_sound_table(k: SoundKind)
    ensures
        k == SoundKind::Message ==> kind_path(k) == "/System/Library/Sounds/Glass.aiff"@
            && kind_name(k) == "message"@,
        k == SoundKind::FileOffer ==> kind_path(k) == "/System/Library/Sounds/Submarine.aiff"@
            && kind_name(k) == "file_offer"@,
        k == SoundKind::FileDone ==> kind_path(k) == "/System/Library/Sounds/Hero.aiff"@
            && kind_name(k) == "file_done"@,
        k == SoundKind::FileAlert ==> kind_path(k) == "/System/Library/Sounds/Basso.aiff"@
            && kind_name(k) == "file_alert"@,
{
}

/// Event sounds play when the user has them on; a settings preview plays always.
pub fn should_play(sound_enabled: bool, preview: bool) -> (r: bool)
    ensures
        r == (sound_enabled || preview),
{
    sound_enabled || preview
}

} // verus!
