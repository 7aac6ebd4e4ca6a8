//! The records kept in the message history: chat messages and the durable
//! state of file transfers. The database itself lives outside the library.

use vstd::prelude::*;
use vstd::string::*;
use crate::config::{join_path, path_join};
use crate::text::copy_opt;

verus! {

pub const DB_FILE_NAME: &'static str = "messages.db";

#[derive(Debug)]
pub struct ChatMessage {
    pub id: String,
    pub peer_id: String,
    /// "in" | "out"
    pub direction: String,
    /// "text" | "file" | "gtext"
    pub msg_type: String,
    pub body: String,
    pub created_at: i64,
    /// pending | sent | failed | received
    pub status: String,
}

#[derive(Debug)]
pub struct TransferRow {
    pub file_id: String,
    /// `send` | `recv`
    pub role: String,
    pub peer_id: String,
    pub message_id: String,
    /// send: source path; recv: final dest path
    pub path: String,
    pub partial_path: Option<String>,
    pub name: String,
    pub size: u64,
    pub mime: String,
    pub token: String,
    pub bytes_done: u64,
    pub state: String,
    pub source_mtime: Option<i64>,
    pub error: Option<String>,
    pub created_at: i64,
    pub updated_at: i64,
}

impl ChatMessage {
    pub fn duplicate(&self) -> (r: Self)
        ensures
            r == *self,
    {
        ChatMessage {
            id: self.id.clone(),
            peer_id: self.peer_id.clone(),
            direction: self.direction.clone(),
            msg_type: self.msg_type.clone(),
            body: self.body.clone(),
            created_at: self.created_at,
            status: self.status.clone(),
        }
    }
}

impl TransferRow {
    pub fn duplicate(&self) -> (r: Self)
        ensures
            r == *self,
    {
        TransferRow {
            file_id: self.file_id.clone(),
            role: self.role.clone(),
            peer_id: self.peer_id.clone(),
            message_id: self.message_id.clone(),
            path: self.path.clone(),
            partial_path: copy_opt(&self.partial_path),
            name: self.name.clone(),
            size: self.size,
            mime: self.mime.clone(),
            token: self.token.clone(),
            bytes_done: self.bytes_done,
            state: self.state.clone(),
            source_mtime: self.source_mtime,
            error: copy_opt(&self.error),
            created_at: self.created_at,
            updated_at: self.updated_at,
        }
    }
}

/// Where the message database lives in the app data directory.
pub fn db_path(app_data_dir: &str) -> (r: String)
    ensures
        r@ == path_join(app_data_dir@, DB_FILE_NAME@),
{
    join_path(app_data_dir, DB_FILE_NAME)
}

/// A message received from `peer_id`: stamped with the sender's time when
/// positive, else with the local time.
pub fn incoming_message(id: String, peer_id: &str, msg_type: &str, body: String, ts: i64, now: i64) -> (m:
    ChatMessage)
    ensures
        m.id == id,
        m.peer_id@ == peer_id@,
        m.direction@ == "in"@,
        m.msg_type@ == msg_type@,
        m.body == body,
        m.created_at == (if ts > 0 { ts } else { now }),
        m.status@ == "received"@,
{
    ChatMessage {
        id,
        peer_id: peer_id.to_owned(),
        direction: String::from_str("in"),
        msg_type: msg_type.to_owned(),
        body,
        created_at: if ts > 0 { ts } else { now },
        status: String::from_str("received"),
    }
}

/// A message this device sends to `peer_id`, pending until delivered.
pub fn outgoing_message(id: String, peer_id: &str, msg_type: &str, body: String, created_at: i64) -> (m:
    ChatMessage)
    ensures
        m.id == id,
        m.peer_id@ == peer_id@,
        m.direction@ == "out"@,
        m.msg_type@ == msg_type@,
        m.body == body,
        m.created_at == created_at,
        m.status@ == "pending"@,
{
    ChatMessage {
        id,
        peer_id: peer_id.to_owned(),
        direction: String::from_str("out"),
        msg_type: msg_type.to_owned(),
        body,
        created_at,
        status: String::from_str("pending"),
    }
}

} // verus!
