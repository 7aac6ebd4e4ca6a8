//! Control-plane wire messages and text-message validation.

use vstd::prelude::*;
use vstd::string::*;
use crate::discovery::PROTOCOL_VERSION;
use crate::text::{chars_of, is_ctrl, is_control_char};

verus! {

/// Longest accepted text message, in characters.
pub const MAX_TEXT_CHARS: usize = 16000;

/// Member snapshot on the wire / in a group roster.
#[derive(Debug)]
pub struct GroupMemberWire {
    pub device_id: String,
    pub display_name: String,
}

impl GroupMemberWire {
    pub fn duplicate(&self) -> (r: Self)
        ensures
            r == *self,
    {
        GroupMemberWire { device_id: self.device_id.clone(), display_name: self.display_name.clone() }
    }
}

/// Control-plane messages.
#[derive(Debug)]
pub enum WireMessage {
    Hello { v: u32, device_id: String, display_name: String },
    Text { id: String, body: String, ts: i64 },
    /// The receiver must accept before bytes flow, unless `auto_accept`
    /// (pasted screenshots only).
    FileOffer {
        file_id: String,
        message_id: String,
        name: String,
        size: u64,
        mime: String,
        token: String,
        ts: i64,
        sha256: Option<String>,
        auto_accept: bool,
    },
    FileAccept { file_id: String, message_id: String },
    FileReject { file_id: String, message_id: String },
    FileCancel { file_id: String, message_id: String },
    /// The receiver asks the sender to push from `resume_offset`.
    FileResume { file_id: String, message_id: String, resume_offset: u64, token: String },
    /// The sender cannot serve a resume.
    FileResumeReject { file_id: String, message_id: String, reason: String, detail: Option<String> },
    Ping,
    Pong,
    GroupJoinRequest { group_id: String, join_code: String, device_id: String, display_name: String },
    GroupJoinOk {
        group_id: String,
        name: String,
        join_code: String,
        creator_id: String,
        members: Vec<GroupMemberWire>,
    },
    GroupJoinReject { group_id: String, reason: String },
    GroupMemberUpdate {
        group_id: String,
        name: String,
        join_code: String,
        creator_id: String,
        members: Vec<GroupMemberWire>,
    },
    GroupLeave { group_id: String, device_id: String },
    GroupText {
        group_id: String,
        id: String,
        from_device_id: String,
        from_name: String,
        body: String,
        ts: i64,
    },
}

impl WireMessage {
    pub fn hello(device_id: String, display_name: String) -> (m: Self)
        ensures
            m == (WireMessage::Hello { v: PROTOCOL_VERSION, device_id, display_name }),
    {
        WireMessage::Hello { v: PROTOCOL_VERSION, device_id, display_name }
    }

    pub fn text(id: String, body: String, ts: i64) -> (m: Self)
        ensures
            m == (WireMessage::Text { id, body, ts }),
    {
        WireMessage::Text { id, body, ts }
    }
}

/// A file message's card, kept as the message body.
#[derive(Debug)]
pub struct FileCard {
    pub file_id: String,
    pub name: String,
    pub size: u64,
    pub mime: String,
    pub bytes_done: u64,
    /// offered | accepted | rejected | cancelled | transferring | completed | failed | interrupted
    pub state: String,
    pub local_path: Option<String>,
    pub sha256: Option<String>,
    pub error: Option<String>,
    pub resume_capable: Option<bool>,
    pub auto_accept: bool,
}

/// A control character other than newline, carriage return and tab.
pub open spec fn bad_text_char(c: char) -> bool {
    is_ctrl(c) && c != '\n' && c != '\r' && c != '\t'
}

pub open spec fn has_bad_text_char(s: Seq<char>) -> bool {
    exists|i: int| 0 <= i < s.len() && bad_text_char(#[trigger] s[i])
}

/// Checks an outgoing or incoming text message: non-empty, at most
/// `MAX_TEXT_CHARS` characters, no control characters but `\n`, `\r`, `\t`.
pub fn validate_text_body(body: &str) -> (r: Result<(), String>)
    ensures
        body@.len() == 0 ==> (r matches Err(m) && m@ == "Message cannot be empty."@),
        body@.len() > 0 && body@.len() > MAX_TEXT_CHARS ==> (r matches Err(m) && m@
            == "Message too long (max 16000 characters)."@),
        0 < body@.len() <= MAX_TEXT_CHARS && has_bad_text_char(body@) ==> (r matches Err(m)
            && m@ == "Message contains invalid control characters."@),
        r is Ok <==> (0 < body@.len() <= MAX_TEXT_CHARS && !has_bad_text_char(body@)),
{
    let v = chars_of(body);
    if v.len() == 0 {
        return Err(String::from_str("Message cannot be empty."));
    }
    if v.len() > MAX_TEXT_CHARS {
        return Err(String::from_str("Message too long (max 16000 characters)."));
    }
    let mut i: usize = 0;
    while i < v.len()
        invariant
            v@ == body@,
            0 < v@.len() <= MAX_TEXT_CHARS,
            i <= v@.len(),
            forall|k: int| 0 <= k < i ==> !bad_text_char(#[trigger] v@[k]),
        decreases v@.len() - i,
    {
        let c = v[i];
        if is_control_char(c) && c != '\n' && c != '\r' && c != '\t' {
            assert(bad_text_char(v@[i as int]));
            return Err(String::from_str("Message contains invalid control characters."));
        }
        i = i + 1;
    }
    Ok(())
}

} // verus!
