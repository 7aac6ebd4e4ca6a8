//! File transfer bookkeeping: the registry of pending and running transfers
//! and the decisions of the control and data planes. Receive policy is
//! confirm by default: bytes are taken only after the user accepted.
//!
//! Sockets, files, hashing and timers belong to the caller, which asks this
//! module what to do at each step and reports what happened.

use vstd::prelude::*;
use vstd::string::*;
use crate::table::{Table, Keyed};
use crate::text::{copy_opt, opt_view, append_str, chars_of, decimal, decimal_spec, to_lower, lowercase};
use crate::order::str_eq;
use crate::fsutil::{safe_basename, basename_of, file_name, path_file_name, path_extension, extension_spec};
use crate::db::TransferRow;
use crate::hashing::{FileDigest, digest_fed, digest_hex, sha256_of};
use crate::ids::hex_lower;
use crate::fsutil::CHUNK;

verus! {

/// 50 GiB soft cap on a single file.
pub const MAX_FILE_SIZE: u64 = 53687091200;
pub const PUSH_CONNECT_RETRIES: u32 = 8;
pub const CONNECT_TIMEOUT_MS: u64 = 15000;
pub const PUSH_RETRY_DELAY_MS: u64 = 250;
/// Throttle SQLite/UI card rewrites during transfer.
pub const PROGRESS_DB_EVERY: u64 = 1048576;
/// After Accept / before first data byte; demote to interrupted so user can retry later.
pub const FIRST_DATA_WAIT_MS: u64 = 20000;
/// After fileResume until data body or reject (same as FIRST_DATA_WAIT_MS).
pub const RESUME_WAIT_MS: u64 = 20000;

/// First frame on a data connection.
#[derive(Debug)]
pub struct DataHeader {
    pub file_id: String,
    pub token: String,
    pub size: u64,
    pub name: String,
    /// Byte offset into the full file; missing on old peers → 0.
    pub offset: u64,
}

/// Last frame on a data connection.
#[derive(Debug)]
pub struct DataTrailer {
    pub sha256: String,
}

#[derive(Debug)]
pub struct TransferProgress {
    pub file_id: String,
    pub message_id: String,
    pub peer_id: String,
    pub bytes_done: u64,
    pub size: u64,
    pub state: String,
}

/// An incoming offer, accepted or not yet.
#[derive(Debug)]
pub struct PendingInbound {
    pub file_id: String,
    pub message_id: String,
    pub peer_id: String,
    pub name: String,
    pub size: u64,
    pub mime: String,
    pub token: String,
    /// Confirm-by-default: data plane must not run until user Accept.
    pub accepted: bool,
    /// Reserved final path (placeholder until complete).
    pub dest_path: Option<String>,
    /// Reserved partial path for inbound bytes.
    pub partial_path: Option<String>,
    pub bytes_done: u64,
    /// Expected whole-file SHA-256 from FileOffer (if provided).
    pub expected_sha256: Option<String>,
}

/// An outgoing offer, or a send that can be resumed.
#[derive(Debug)]
pub struct PendingOutbound {
    pub file_id: String,
    pub message_id: String,
    pub peer_id: String,
    pub path: String,
    pub name: String,
    pub size: u64,
    pub mime: String,
    pub token: String,
    /// Discovery address at offer time; re-resolved at push when possible.
    pub peer_address: String,
    /// Source mtime when cached_sha256 was computed.
    pub source_mtime_ms: Option<u128>,
    /// Precomputed whole-file hash from offer time (reuse for trailer if source unchanged).
    pub cached_sha256: Option<String>,
}

/// A receiver waiting for data after it asked the sender to resume.
#[derive(Debug)]
pub struct ResumeInflight {
    pub file_id: String,
    pub generation: u64,
    pub message_id: String,
    pub peer_id: String,
    pub offset: u64,
}

impl PendingInbound {
    pub fn duplicate(&self) -> (r: Self)
        ensures
            r == *self,
    {
        PendingInbound {
            file_id: self.file_id.clone(),
            message_id: self.message_id.clone(),
            peer_id: self.peer_id.clone(),
            name: self.name.clone(),
            size: self.size,
            mime: self.mime.clone(),
            token: self.token.clone(),
            accepted: self.accepted,
            dest_path: copy_opt(&self.dest_path),
            partial_path: copy_opt(&self.partial_path),
            bytes_done: self.bytes_done,
            expected_sha256: copy_opt(&self.expected_sha256),
        }
    }
}

impl PendingOutbound {
    pub fn duplicate(&self) -> (r: Self)
        ensures
            r == *self,
    {
        PendingOutbound {
            file_id: self.file_id.clone(),
            message_id: self.message_id.clone(),
            peer_id: self.peer_id.clone(),
            path: self.path.clone(),
            name: self.name.clone(),
            size: self.size,
            mime: self.mime.clone(),
            token: self.token.clone(),
            peer_address: self.peer_address.clone(),
            source_mtime_ms: self.source_mtime_ms,
            cached_sha256: copy_opt(&self.cached_sha256),
        }
    }
}

impl Keyed for PendingInbound {
    open spec fn key(&self) -> Seq<char> {
        self.file_id@
    }

    fn key_str(&self) -> (r: &str) {
        self.file_id.as_str()
    }
}

impl Keyed for PendingOutbound {
    open spec fn key(&self) -> Seq<char> {
        self.file_id@
    }

    fn key_str(&self) -> (r: &str) {
        self.file_id.as_str()
    }
}

impl Keyed for ResumeInflight {
    open spec fn key(&self) -> Seq<char> {
        self.file_id@
    }

    fn key_str(&self) -> (r: &str) {
        self.file_id.as_str()
    }
}

impl Keyed for String {
    open spec fn key(&self) -> Seq<char> {
        self@
    }

    fn key_str(&self) -> (r: &str) {
        self.as_str()
    }
}

/// Everything in flight, keyed by file id (peer ids for auto-resume).
pub struct TransferRegistry {
    /// Incoming offers waiting for Accept, and accepted ones not running.
    inbound: Table<PendingInbound>,
    /// Outgoing offers waiting for Accept, and interrupted sends.
    outbound: Table<PendingOutbound>,
    /// Data-plane work running for these file ids (one at a time per file).
    active_files: Table<String>,
    /// Receiver waiting for data after fileResume.
    resume_inflight: Table<ResumeInflight>,
    /// Monotonic generation for resume/first-data timers.
    timer_generation: u64,
    /// Peers with an auto-resume currently scheduled or in-flight (serial 1/peer).
    auto_resume_peers: Table<String>,
}

impl TransferRegistry {
    pub closed spec fn wf(&self) -> bool {
        &&& self.inbound.wf()
        &&& self.outbound.wf()
        &&& self.active_files.wf()
        &&& self.resume_inflight.wf()
        &&& self.auto_resume_peers.wf()
    }

    pub closed spec fn inbound_map(&self) -> Map<Seq<char>, PendingInbound> {
        self.inbound@
    }

    pub closed spec fn outbound_map(&self) -> Map<Seq<char>, PendingOutbound> {
        self.outbound@
    }

    pub closed spec fn inflight_map(&self) -> Map<Seq<char>, ResumeInflight> {
        self.resume_inflight@
    }

    pub closed spec fn active(&self) -> Set<Seq<char>> {
        self.active_files@.dom()
    }

    pub closed spec fn auto_peers(&self) -> Set<Seq<char>> {
        self.auto_resume_peers@.dom()
    }

    pub closed spec fn generation(&self) -> u64 {
        self.timer_generation
    }

    pub fn new() -> (r: Self)
        ensures
            r.wf(),
            r.inbound_map() == Map::<Seq<char>, PendingInbound>::empty(),
            r.outbound_map() == Map::<Seq<char>, PendingOutbound>::empty(),
            r.inflight_map() == Map::<Seq<char>, ResumeInflight>::empty(),
            r.active() == Set::<Seq<char>>::empty(),
            r.auto_peers() == Set::<Seq<char>>::empty(),
            r.generation() == 1,
    {
        TransferRegistry {
            inbound: Table::new(),
            outbound: Table::new(),
            active_files: Table::new(),
            resume_inflight: Table::new(),
            timer_generation: 1,
            auto_resume_peers: Table::new(),
        }
    }

    /// Hands out the current timer generation and moves to the next one
    /// (wrapping, as an atomic counter does).
    pub fn next_generation(&mut self) -> (g: u64)
        requires
            old(self).wf(),
        ensures
            final(self).wf(),
            g == old(self).generation(),
            final(self).generation() == (if g == u64::MAX { 0 } else { (g + 1) as u64 }),
            final(self).inbound_map() == old(self).inbound_map(),
            final(self).outbound_map() == old(self).outbound_map(),
            final(self).inflight_map() == old(self).inflight_map(),
            final(self).active() == old(self).active(),
            final(self).auto_peers() == old(self).auto_peers(),
    {
        let g = self.timer_generation;
        self.timer_generation = g.wrapping_add(1);
        g
    }
}

/// The inbound entry belongs to this chat message.
pub open spec fn for_message(p: PendingInbound, message_id: Seq<char>, peer_id: Seq<char>) -> bool {
    p.message_id@ == message_id && p.peer_id@ == peer_id
}

pub open spec fn some_inbound_for(
    m: Map<Seq<char>, PendingInbound>,
    message_id: Seq<char>,
    peer_id: Seq<char>,
) -> bool {
    exists|k: Seq<char>| m.contains_key(k) && for_message(#[trigger] m[k], message_id, peer_id)
}

pub open spec fn some_unaccepted_for(
    m: Map<Seq<char>, PendingInbound>,
    message_id: Seq<char>,
    peer_id: Seq<char>,
) -> bool {
    exists|k: Seq<char>|
        m.contains_key(k) && for_message(#[trigger] m[k], message_id, peer_id) && !m[k].accepted
}

/// A fresh incoming offer: not accepted, nothing reserved, nothing received.
pub open spec fn new_offer(
    file_id: String,
    message_id: String,
    peer_id: String,
    name: String,
    size: u64,
    mime: String,
    token: String,
    sha256: Option<String>,
) -> PendingInbound {
    PendingInbound {
        file_id,
        message_id,
        peer_id,
        name,
        size,
        mime,
        token,
        accepted: false,
        dest_path: None,
        partial_path: None,
        bytes_done: 0,
        expected_sha256: sha256,
    }
}

/// The entry once the user accepted it and its files are reserved.
pub open spec fn accepted_entry(p: PendingInbound, dest: String, partial: String) -> PendingInbound {
    PendingInbound {
        accepted: true,
        dest_path: Some(dest),
        partial_path: Some(partial),
        bytes_done: 0,
        ..p
    }
}

/// The entry put back after a data connection ended early: accepted, with
/// its reservation and the bytes received so far.
pub open spec fn interrupted_entry(
    p: PendingInbound,
    dest: String,
    partial: String,
    bytes_done: u64,
) -> PendingInbound {
    PendingInbound {
        accepted: true,
        dest_path: Some(dest),
        partial_path: Some(partial),
        bytes_done,
        ..p
    }
}

/// Why an incoming offer is dropped.
#[derive(Debug)]
pub enum OfferRefusal {
    /// The offered name is not a usable file name; the text says why.
    BadName(String),
    /// Larger than `MAX_FILE_SIZE`.
    TooLarge(u64),
}

/// Checks an incoming offer's name and size; gives the sanitized name.
pub fn check_incoming_offer(name: &str, size: u64) -> (r: Result<String, OfferRefusal>)
    ensures
        match r {
            Ok(n) => basename_of(name@) == Ok::<Seq<char>, Seq<char>>(n@) && size <= MAX_FILE_SIZE,
            Err(OfferRefusal::BadName(e)) => basename_of(name@) == Err::<Seq<char>, Seq<char>>(e@),
            Err(OfferRefusal::TooLarge(n)) => basename_of(name@) is Ok && size > MAX_FILE_SIZE
                && n == size,
        },
{
    let name = match safe_basename(name) {
        Ok(n) => n,
        Err(e) => return Err(OfferRefusal::BadName(e)),
    };
    if size > MAX_FILE_SIZE {
        return Err(OfferRefusal::TooLarge(size));
    }
    Ok(name)
}

impl TransferRegistry {
    proof fn lemma_inbound_rows(&self)
        requires
            self.wf(),
        ensures
            forall|i: int|
                0 <= i < self.inbound.rows().len() ==> self.inbound_map().contains_key(
                    #[trigger] self.inbound.rows()[i].key(),
                ) && self.inbound_map()[self.inbound.rows()[i].key()] == self.inbound.rows()[i],
            forall|k: Seq<char>| #[trigger]
                self.inbound_map().contains_key(k) ==> exists|i: int|
                    0 <= i < self.inbound.rows().len() && (#[trigger] self.inbound.rows()[i]).key()
                        == k,
    {
        self.inbound.lemma_rows();
    }

    /// A new incoming offer was recorded in the history: it waits for the
    /// user's Accept (confirm by default).
    pub fn offer_received(
        &mut self,
        file_id: String,
        message_id: String,
        peer_id: String,
        name: String,
        size: u64,
        mime: String,
        token: String,
        sha256: Option<String>,
    )
        requires
            old(self).wf(),
        ensures
            final(self).wf(),
            final(self).inbound_map() == old(self).inbound_map().insert(
                file_id@,
                new_offer(file_id, message_id, peer_id, name, size, mime, token, sha256),
            ),
            final(self).outbound_map() == old(self).outbound_map(),
            final(self).inflight_map() == old(self).inflight_map(),
            final(self).active() == old(self).active(),
            final(self).auto_peers() == old(self).auto_peers(),
            final(self).generation() == old(self).generation(),
    {
        let p = PendingInbound {
            file_id,
            message_id,
            peer_id,
            name,
            size,
            mime,
            token,
            accepted: false,
            dest_path: None,
            partial_path: None,
            bytes_done: 0,
            expected_sha256: sha256,
        };
        self.inbound.upsert(p);
    }

    /// The offer the user accepts from a chat message: gives its file id
    /// and offered name.
    pub fn find_offer_to_accept(&self, message_id: &str, peer_id: &str) -> (r: Result<
        (String, String),
        String,
    >)
        requires
            self.wf(),
        ensures
            match r {
                Ok((fid, name)) => {
                    &&& self.inbound_map().contains_key(fid@)
                    &&& for_message(self.inbound_map()[fid@], message_id@, peer_id@)
                    &&& !self.inbound_map()[fid@].accepted
                    &&& name == self.inbound_map()[fid@].name
                },
                Err(e) => (e@ == "No pending file offer for this message."@ && !some_inbound_for(
                    self.inbound_map(),
                    message_id@,
                    peer_id@,
                )) || (e@ == "File already accepted."@ && exists|k: Seq<char>|
                    self.inbound_map().contains_key(k) && for_message(
                        #[trigger] self.inbound_map()[k],
                        message_id@,
                        peer_id@,
                    ) && self.inbound_map()[k].accepted),
            },
            some_inbound_for(self.inbound_map(), message_id@, peer_id@) ==> !(r matches Err(e)
                && e@ == "No pending file offer for this message."@),
    {
        proof {
            self.lemma_inbound_rows();
        }
        let n = self.inbound.len();
        let mut i: usize = 0;
        while i < n
            invariant
                self.wf(),
                n == self.inbound.rows().len(),
                i <= n,
                forall|j: int| 0 <= j < i ==> !for_message(#[trigger] self.inbound.rows()[j], message_id@, peer_id@),
            decreases n - i,
        {
            let p = self.inbound.at(i);
            if str_eq(p.message_id.as_str(), message_id) && str_eq(p.peer_id.as_str(), peer_id) {
                proof {
                    self.lemma_inbound_rows();
                    assert(self.inbound_map()[p.key()] == *p);
                }
                if p.accepted {
                    proof {
                        reveal_strlit("File already accepted.");
                        reveal_strlit("No pending file offer for this message.");
                        assert("File already accepted."@.len() != "No pending file offer for this message."@.len());
                    }
                    return Err(String::from_str("File already accepted."));
                }
                return Ok((p.file_id.clone(), p.name.clone()));
            }
            i = i + 1;
        }
        proof {
            self.lemma_inbound_rows();
            assert forall|k: Seq<char>| self.inbound_map().contains_key(k) implies !for_message(
                #[trigger] self.inbound_map()[k],
                message_id@,
                peer_id@,
            ) by {
                let j = choose|j: int| 0 <= j < self.inbound.rows().len() && (#[trigger] self.inbound.rows()[j]).key() == k;
                assert(self.inbound_map()[self.inbound.rows()[j].key()] == self.inbound.rows()[j]);
            }
        }
        Err(String::from_str("No pending file offer for this message."))
    }

    /// Records the user's Accept and the reserved files; the data plane may
    /// now take bytes for this file.
    pub fn mark_accepted(&mut self, file_id: &str, dest: String, partial: String)
        requires
            old(self).wf(),
        ensures
            final(self).wf(),
            old(self).inbound_map().contains_key(file_id@) ==> final(self).inbound_map()
                == old(self).inbound_map().insert(
                file_id@,
                accepted_entry(old(self).inbound_map()[file_id@], dest, partial),
            ),
            !old(self).inbound_map().contains_key(file_id@) ==> final(self).inbound_map()
                == old(self).inbound_map(),
            final(self).outbound_map() == old(self).outbound_map(),
            final(self).inflight_map() == old(self).inflight_map(),
            final(self).active() == old(self).active(),
            final(self).auto_peers() == old(self).auto_peers(),
            final(self).generation() == old(self).generation(),
    {
        let mut p = match self.inbound.get(file_id) {
            None => return,
            Some(p) => p.duplicate(),
        };
        proof {
            self.inbound.lemma_rows();
        }
        p.accepted = true;
        p.dest_path = Some(dest);
        p.partial_path = Some(partial);
        p.bytes_done = 0;
        self.inbound.upsert(p);
    }

    /// The Accept could not be sent: the offer goes back to waiting, with
    /// nothing reserved.
    pub fn undo_accept(&mut self, file_id: &str)
        requires
            old(self).wf(),
        ensures
            final(self).wf(),
            old(self).inbound_map().contains_key(file_id@) ==> final(self).inbound_map()
                == old(self).inbound_map().insert(
                file_id@,
                PendingInbound {
                    accepted: false,
                    dest_path: None,
                    partial_path: None,
                    ..old(self).inbound_map()[file_id@]
                },
            ),
            !old(self).inbound_map().contains_key(file_id@) ==> final(self).inbound_map()
                == old(self).inbound_map(),
            final(self).outbound_map() == old(self).outbound_map(),
            final(self).inflight_map() == old(self).inflight_map(),
            final(self).active() == old(self).active(),
            final(self).auto_peers() == old(self).auto_peers(),
            final(self).generation() == old(self).generation(),
    {
        let mut p = match self.inbound.get(file_id) {
            None => return,
            Some(p) => p.duplicate(),
        };
        proof {
            self.inbound.lemma_rows();
        }
        p.accepted = false;
        p.dest_path = None;
        p.partial_path = None;
        self.inbound.upsert(p);
    }

    fn find_unaccepted(&self, message_id: &str, peer_id: &str) -> (r: Option<String>)
        requires
            self.wf(),
        ensures
            match r {
                Some(fid) => {
                    &&& self.inbound_map().contains_key(fid@)
                    &&& for_message(self.inbound_map()[fid@], message_id@, peer_id@)
                    &&& !self.inbound_map()[fid@].accepted
                },
                None => !some_unaccepted_for(self.inbound_map(), message_id@, peer_id@),
            },
    {
        proof {
            self.lemma_inbound_rows();
        }
        let n = self.inbound.len();
        let mut i: usize = 0;
        while i < n
            invariant
                self.wf(),
                n == self.inbound.rows().len(),
                i <= n,
                forall|j: int|
                    0 <= j < i ==> !(for_message(#[trigger] self.inbound.rows()[j], message_id@, peer_id@)
                        && !self.inbound.rows()[j].accepted),
            decreases n - i,
        {
            let p = self.inbound.at(i);
            if str_eq(p.message_id.as_str(), message_id) && str_eq(p.peer_id.as_str(), peer_id)
                && !p.accepted {
                proof {
                    self.lemma_inbound_rows();
                    assert(self.inbound_map()[p.key()] == *p);
                }
                return Some(p.file_id.clone());
            }
            i = i + 1;
        }
        proof {
            self.lemma_inbound_rows();
            assert forall|k: Seq<char>| self.inbound_map().contains_key(k) implies !(for_message(
                #[trigger] self.inbound_map()[k],
                message_id@,
                peer_id@,
            ) && !self.inbound_map()[k].accepted) by {
                let j = choose|j: int| 0 <= j < self.inbound.rows().len() && (#[trigger] self.inbound.rows()[j]).key() == k;
                assert(self.inbound_map()[self.inbound.rows()[j].key()] == self.inbound.rows()[j]);
            }
        }
        None
    }

    /// The user declines an offer that was not accepted: it is dropped and
    /// its file id returned.
    pub fn reject_offer(&mut self, message_id: &str, peer_id: &str) -> (r: Result<String, String>)
        requires
            old(self).wf(),
        ensures
            final(self).wf(),
            match r {
                Ok(fid) => {
                    &&& old(self).inbound_map().contains_key(fid@)
                    &&& for_message(old(self).inbound_map()[fid@], message_id@, peer_id@)
                    &&& !old(self).inbound_map()[fid@].accepted
                    &&& final(self).inbound_map() == old(self).inbound_map().remove(fid@)
                },
                Err(e) => {
                    &&& e@ == "No pending file offer to reject."@
                    &&& !some_unaccepted_for(old(self).inbound_map(), message_id@, peer_id@)
                    &&& final(self).inbound_map() == old(self).inbound_map()
                },
            },
            final(self).outbound_map() == old(self).outbound_map(),
            final(self).inflight_map() == old(self).inflight_map(),
            final(self).active() == old(self).active(),
            final(self).auto_peers() == old(self).auto_peers(),
            final(self).generation() == old(self).generation(),
    {
        match self.find_unaccepted(message_id, peer_id) {
            Some(fid) => {
                self.inbound.remove(fid.as_str());
                Ok(fid)
            },
            None => Err(String::from_str("No pending file offer to reject.")),
        }
    }
}

/// Two registry states hold the same entries and generation.
pub open spec fn unchanged(a: TransferRegistry, b: TransferRegistry) -> bool {
    &&& a.inbound_map() == b.inbound_map()
    &&& a.outbound_map() == b.outbound_map()
    &&& a.inflight_map() == b.inflight_map()
    &&& a.active() == b.active()
    &&& a.auto_peers() == b.auto_peers()
    &&& a.generation() == b.generation()
}

/// The inbound entry was accepted by the user.
pub open spec fn is_accepted(m: Map<Seq<char>, PendingInbound>, fid: Seq<char>) -> bool {
    m.contains_key(fid) && m[fid].accepted
}

/// How a transfer that did not complete ends.
#[derive(PartialEq, Eq, Structural, Clone, Copy, Debug)]
pub enum TransferEnd {
    Cancelled,
    Failed,
    Interrupted,
}

impl TransferEnd {
    pub open spec fn text(self) -> Seq<char> {
        match self {
            TransferEnd::Cancelled => "cancelled"@,
            TransferEnd::Failed => "failed"@,
            TransferEnd::Interrupted => "interrupted"@,
        }
    }

    /// The card state for this ending.
    pub fn as_str(self) -> (r: &'static str)
        ensures
            r@ == self.text(),
    {
        match self {
            TransferEnd::Cancelled => "cancelled",
            TransferEnd::Failed => "failed",
            TransferEnd::Interrupted => "interrupted",
        }
    }

    /// Whether the user can resume from here.
    pub fn resumable(self) -> (r: bool)
        ensures
            r == (self == TransferEnd::Interrupted),
    {
        match self {
            TransferEnd::Interrupted => true,
            _ => false,
        }
    }
}

pub open spec fn starts_with(s: Seq<char>, prefix: Seq<char>) -> bool {
    s.len() >= prefix.len() && s.take(prefix.len() as int) == prefix
}

fn has_prefix(s: &str, prefix: &str) -> (r: bool)
    ensures
        r == starts_with(s@, prefix@),
{
    let n = s.unicode_len();
    let k = prefix.unicode_len();
    if n < k {
        return false;
    }
    let mut i: usize = 0;
    while i < k
        invariant
            k == prefix@.len(),
            n == s@.len(),
            k <= n,
            i <= k,
            forall|j: int| 0 <= j < i ==> s@[j] == prefix@[j],
        decreases k - i,
    {
        if s.get_char(i) != prefix.get_char(i) {
            proof {
                assert(s@.take(k as int)[i as int] == s@[i as int]);
            }
            return false;
        }
        i = i + 1;
    }
    proof {
        assert(s@.take(k as int) =~= prefix@);
    }
    true
}

/// How a receive that stopped ends: cancelled by the user, failed on a
/// hash mismatch (nothing to resume), interrupted otherwise.
pub open spec fn recv_end_spec(err: Seq<char>) -> TransferEnd {
    if err == "cancelled"@ {
        TransferEnd::Cancelled
    } else if starts_with(err, "sha256 mismatch"@) {
        TransferEnd::Failed
    } else {
        TransferEnd::Interrupted
    }
}

/// Law: a receive stopped by the user's cancel ends cancelled, exactly as
/// the sending side ends on the same error; one that failed its digest
/// check ends failed; every other stop leaves it interrupted, to resume.
pub proof fn lemma_receive_endings(err: Seq<char>)
    ensures
        (recv_end_spec(err) == TransferEnd::Cancelled) <==> err == "cancelled"@,
        err != "cancelled"@ && starts_with(err, "sha256 mismatch"@) ==> recv_end_spec(err)
            == TransferEnd::Failed,
        !starts_with(err, "sha256 mismatch"@) && err != "cancelled"@ ==> recv_end_spec(err)
            == TransferEnd::Interrupted,
        (recv_end_spec(err) == TransferEnd::Interrupted) <==> (err != "cancelled"@ && !starts_with(
            err,
            "sha256 mismatch"@,
        )),
{
}

pub fn recv_end(err: &str) -> (r: TransferEnd)
    ensures
        r == recv_end_spec(err@),
{
    if str_eq(err, "cancelled") {
        TransferEnd::Cancelled
    } else if has_prefix(err, "sha256 mismatch") {
        TransferEnd::Failed
    } else {
        TransferEnd::Interrupted
    }
}

/// How a send that stopped ends: cancelled by the user, interrupted otherwise.
pub fn send_end(err: &str) -> (r: TransferEnd)
    ensures
        r == (if err@ == "cancelled"@ {
            TransferEnd::Cancelled
        } else {
            TransferEnd::Interrupted
        }),
{
    if str_eq(err, "cancelled") {
        TransferEnd::Cancelled
    } else {
        TransferEnd::Interrupted
    }
}

/// Checks the received file's whole-file hash against the sender's trailer
/// and, when the offer carried one, against the offered hash.
pub fn verify_digest(local: &str, remote: &str, offered: &Option<String>) -> (r: Result<(), String>)
    ensures
        local@ != remote@ ==> (r matches Err(e) && e@ == "sha256 mismatch local="@ + local@
            + " remote="@ + remote@),
        local@ == remote@ && (offered matches Some(x) && x@ != local@) ==> (r matches Err(e)
            && e@ == "sha256 mismatch local="@ + local@ + " offer="@ + offered->0@),
        r is Ok <==> (local@ == remote@ && (offered matches Some(x) ==> x@ == local@)),
{
    if !str_eq(local, remote) {
        let mut e = String::from_str("sha256 mismatch local=");
        append_str(&mut e, local);
        append_str(&mut e, " remote=");
        append_str(&mut e, remote);
        return Err(e);
    }
    match offered {
        Some(x) => {
            if !str_eq(local, x.as_str()) {
                let mut e = String::from_str("sha256 mismatch local=");
                append_str(&mut e, local);
                append_str(&mut e, " offer=");
                append_str(&mut e, x.as_str());
                return Err(e);
            }
        },
        None => {},
    }
    Ok(())
}

/// The receiver's integrity check on the bytes it holds: their SHA-256 must
/// match the sender's trailer and, when the offer carried one, the offered
/// hash. On success gives the hex digest of those bytes.
pub fn verify_received(d: FileDigest, remote: &str, offered: &Option<String>) -> (r: Result<
    String,
    String,
>)
    ensures
        ({
            let local = hex_lower(sha256_of(digest_fed(d)));
            &&& local != remote@ ==> (r matches Err(e) && e@ == "sha256 mismatch local="@ + local
                + " remote="@ + remote@)
            &&& local == remote@ && (offered matches Some(x) && x@ != local) ==> (r matches Err(e)
                && e@ == "sha256 mismatch local="@ + local + " offer="@ + offered->0@)
            &&& r is Ok <==> (local == remote@ && (offered matches Some(x) ==> x@ == local))
            &&& r matches Ok(h) ==> h@ == local
        }),
{
    let local = digest_hex(d);
    match verify_digest(local.as_str(), remote, offered) {
        Ok(()) => Ok(local),
        Err(e) => Err(e),
    }
}

/// A receive may start only at the offset the receiver's partial file
/// holds; otherwise it stops with `offset_mismatch`.
pub fn check_data_offset(offset: u64, expected: u64) -> (r: Result<(), String>)
    ensures
        r is Ok <==> offset == expected,
        r matches Err(e) ==> e@ == "offset_mismatch"@,
{
    if offset != expected {
        Err(String::from_str("offset_mismatch"))
    } else {
        Ok(())
    }
}

/// Byte accounting of a data stream, either side: the file's size, how far
/// the stream got, and where progress was last shown and last stored.
pub struct StreamProgress {
    pub size: u64,
    pub done: u64,
    pub last_ui: u64,
    pub last_db: u64,
}

/// What to do after a chunk moved: show progress, store progress.
#[derive(PartialEq, Eq, Structural, Clone, Copy, Debug)]
pub struct ProgressMarks {
    pub show: bool,
    pub store: bool,
}

impl StreamProgress {
    /// The marks never lie ahead of the stream.
    pub open spec fn wf(self) -> bool {
        self.last_ui <= self.done && self.last_db <= self.done
    }

    /// Bytes still to move.
    pub open spec fn remaining_spec(self) -> nat {
        if self.done < self.size {
            (self.size - self.done) as nat
        } else {
            0
        }
    }

    /// A stream of a `size`-byte file starting at byte `offset`.
    pub fn start(offset: u64, size: u64) -> (p: Self)
        ensures
            p.wf(),
            p.size == size,
            p.done == offset,
            p.last_ui == offset,
            p.last_db == offset,
    {
        StreamProgress { size, done: offset, last_ui: offset, last_db: offset }
    }

    /// Bytes still to move.
    pub fn remaining(&self) -> (r: u64)
        ensures
            r == self.remaining_spec(),
    {
        if self.done < self.size {
            self.size - self.done
        } else {
            0
        }
    }

    /// How many bytes the next read or write may take: the rest, at most
    /// one chunk.
    pub fn next_len(&self) -> (r: usize)
        ensures
            r == (if self.remaining_spec() < CHUNK { self.remaining_spec() } else { CHUNK as nat }),
    {
        let rem = self.remaining();
        if rem < CHUNK {
            rem as usize
        } else {
            CHUNK as usize
        }
    }

    /// Records `n` more bytes moved. Progress is shown after each chunk's
    /// worth and at the end, and stored after each MiB's worth and at the end.
    pub fn advance(&mut self, n: u64) -> (m: ProgressMarks)
        requires
            old(self).wf(),
            0 < n <= old(self).remaining_spec(),
        ensures
            final(self).wf(),
            final(self).size == old(self).size,
            final(self).done == old(self).done + n,
            m.show == (final(self).done - old(self).last_ui >= CHUNK || final(self).done == old(self).size),
            final(self).last_ui == (if m.show { final(self).done } else { old(self).last_ui }),
            m.store == (final(self).done - old(self).last_db >= PROGRESS_DB_EVERY || final(self).done
                == old(self).size),
            final(self).last_db == (if m.store { final(self).done } else { old(self).last_db }),
    {
        self.done = self.done + n;
        let show = self.done - self.last_ui >= CHUNK || self.done == self.size;
        if show {
            self.last_ui = self.done;
        }
        let store = self.done - self.last_db >= PROGRESS_DB_EVERY || self.done == self.size;
        if store {
            self.last_db = self.done;
        }
        ProgressMarks { show, store }
    }
}

/// Law: a digest mismatch ends the receive as failed, never as resumable.
pub proof fn lemma_digest_mismatch_fails(local: Seq<char>, other: Seq<char>, label: Seq<char>)
    ensures
        recv_end_spec("sha256 mismatch local="@ + local + label + other) == TransferEnd::Failed,
{
    let e = "sha256 mismatch local="@ + local + label + other;
    reveal_strlit("sha256 mismatch local=");
    reveal_strlit("sha256 mismatch");
    reveal_strlit("cancelled");
    assert(e.take(15) =~= "sha256 mismatch"@);
    assert(e.len() != "cancelled"@.len() || e != "cancelled"@);
    if e == "cancelled"@ {
        assert(e[0] == 's');
        assert("cancelled"@[0] == 'c');
    }
}

/// Why the sender does not start pushing a file.
#[derive(PartialEq, Eq, Structural, Clone, Copy, Debug)]
pub enum PushRefusal {
    /// A push for this file is already running.
    Busy,
    /// No outgoing transfer with this id.
    UnknownFile,
}

/// A push may start only when the offset lies inside the file.
pub fn check_push_offset(offset: u64, size: u64) -> (r: Result<(), String>)
    ensures
        r is Ok <==> offset < size,
        r matches Err(e) ==> e@ == "offset_invalid"@,
{
    if offset >= size {
        Err(String::from_str("offset_invalid"))
    } else {
        Ok(())
    }
}

/// The source must still have the offered size.
pub fn check_source_len(len: u64, size: u64) -> (r: Result<(), String>)
    ensures
        r is Ok <==> len == size,
        r matches Err(e) ==> e@ == "source_changed"@,
{
    if len != size {
        Err(String::from_str("source_changed"))
    } else {
        Ok(())
    }
}

/// After the bytes went out the source must still have its size and, when
/// its modification time was known before, that same time.
pub fn check_source_unchanged(
    size: u64,
    len_after: u64,
    mtime_before: Option<u128>,
    mtime_after: Option<u128>,
) -> (r: Result<(), String>)
    ensures
        r is Ok <==> (len_after == size && (mtime_before is Some ==> mtime_after == mtime_before)),
        r matches Err(e) ==> e@ == "source_changed"@,
{
    if len_after != size {
        return Err(String::from_str("source_changed"));
    }
    if mtime_before.is_some() && mtime_after != mtime_before {
        return Err(String::from_str("source_changed"));
    }
    Ok(())
}

/// The offer-time hash, when it can stand for the file: it was computed at
/// the modification time the file had before and still has.
pub fn reusable_digest(
    cached: &Option<String>,
    cached_mtime: Option<u128>,
    mtime_before: Option<u128>,
    mtime_after: Option<u128>,
) -> (r: Option<String>)
    ensures
        r == (match (cached, cached_mtime, mtime_before) {
            (Some(c), Some(cm), Some(mb)) => if cm == mb && mtime_after == Some(cm) {
                Some(*c)
            } else {
                None::<String>
            },
            _ => None::<String>,
        }),
{
    match (cached, cached_mtime, mtime_before) {
        (Some(c), Some(cm), Some(mb)) => {
            if cm == mb && mtime_after == Some(cm) {
                Some(c.clone())
            } else {
                None
            }
        },
        _ => None,
    }
}

/// The bytes a stopped send reports: what the card showed, but never less
/// than the offset it started from.
pub fn last_done_bytes(card_bytes: Option<u64>, offset: u64) -> (r: u64)
    ensures
        r == (match card_bytes {
            Some(b) => if b > offset { b } else { offset },
            None => offset,
        }),
{
    match card_bytes {
        Some(b) => if b > offset { b } else { offset },
        None => offset,
    }
}

impl TransferRegistry {
    /// A data connection announced `file_id`: it is taken only for an
    /// accepted offer with the offered token and size, and only when no
    /// data for this file is already flowing. On success the entry leaves
    /// the waiting table, any resume wait for it ends, and the file counts
    /// as active; the entry and its reserved paths are returned.
    pub fn admit_data(&mut self, file_id: &str, token: &str, size: u64) -> (r: Result<
        (PendingInbound, String, String),
        String,
    >)
        requires
            old(self).wf(),
        ensures
            final(self).wf(),
            ({
                let m = old(self).inbound_map();
                let fid = file_id@;
                &&& old(self).active().contains(fid) ==> (r matches Err(e) && e@ == "busy"@
                    && unchanged(*final(self), *old(self)))
                &&& !old(self).active().contains(fid) && !is_accepted(m, fid) ==> (r matches Err(e)
                    && e@ == "file not accepted yet"@ && unchanged(*final(self), *old(self)))
                &&& !old(self).active().contains(fid) && is_accepted(m, fid) && m[fid].token@
                    != token@ ==> (r matches Err(e) && e@ == "token mismatch"@ && unchanged(
                    *final(self),
                    *old(self),
                ))
                &&& !old(self).active().contains(fid) && is_accepted(m, fid) && m[fid].token@
                    == token@ && m[fid].size != size ==> (r matches Err(e) && e@ == "size mismatch"@
                    && unchanged(*final(self), *old(self)))
                &&& !old(self).active().contains(fid) && is_accepted(m, fid) && m[fid].token@
                    == token@ && m[fid].size == size ==> {
                    &&& final(self).inbound_map() == m.remove(fid)
                    &&& final(self).inflight_map() == old(self).inflight_map().remove(fid)
                    &&& final(self).outbound_map() == old(self).outbound_map()
                    &&& final(self).auto_peers() == old(self).auto_peers()
                    &&& final(self).generation() == old(self).generation()
                    &&& m[fid].dest_path is None ==> (r matches Err(e) && e@
                        == "no reserved dest (accept path missing)"@ && final(self).active()
                        == old(self).active())
                    &&& m[fid].dest_path is Some && m[fid].partial_path is None ==> (r matches Err(e)
                        && e@ == "no reserved partial (accept path missing)"@ && final(self).active()
                        == old(self).active())
                    &&& m[fid].dest_path is Some && m[fid].partial_path is Some ==> (r matches Ok(
                        t,
                    ) && t.0 == m[fid] && m[fid].dest_path == Some(t.1) && m[fid].partial_path
                        == Some(t.2) && final(self).active() == old(self).active().insert(fid))
                }
            }),
    {
        proof {
            self.inbound.lemma_rows();
        }
        if self.active_files.contains(file_id) {
            return Err(String::from_str("busy"));
        }
        let accepted = match self.inbound.get(file_id) {
            Some(p) => p.accepted,
            None => false,
        };
        if !accepted {
            return Err(String::from_str("file not accepted yet"));
        }
        let p = match self.inbound.get(file_id) {
            Some(p) => p.duplicate(),
            None => return Err(String::from_str("no pending accept for file")),
        };
        if !str_eq(p.token.as_str(), token) {
            return Err(String::from_str("token mismatch"));
        }
        if p.size != size {
            return Err(String::from_str("size mismatch"));
        }
        self.inbound.remove(file_id);
        self.resume_inflight.remove(file_id);
        let dest = match &p.dest_path {
            Some(d) => d.clone(),
            None => return Err(String::from_str("no reserved dest (accept path missing)")),
        };
        let partial = match &p.partial_path {
            Some(q) => q.clone(),
            None => return Err(String::from_str("no reserved partial (accept path missing)")),
        };
        self.active_files.upsert(file_id.to_owned());
        proof {
            assert(self.active() =~= old(self).active().insert(file_id@));
        }
        Ok((p, dest, partial))
    }

    /// Puts an accepted receive back to wait for a resume, with the bytes
    /// it holds so far.
    pub fn reinsert_interrupted(
        &mut self,
        p: &PendingInbound,
        dest: String,
        partial: String,
        bytes_done: u64,
    )
        requires
            old(self).wf(),
        ensures
            final(self).wf(),
            final(self).inbound_map() == old(self).inbound_map().insert(
                p.file_id@,
                interrupted_entry(*p, dest, partial, bytes_done),
            ),
            final(self).outbound_map() == old(self).outbound_map(),
            final(self).inflight_map() == old(self).inflight_map(),
            final(self).active() == old(self).active(),
            final(self).auto_peers() == old(self).auto_peers(),
            final(self).generation() == old(self).generation(),
    {
        let mut q = p.duplicate();
        q.accepted = true;
        q.dest_path = Some(dest);
        q.partial_path = Some(partial);
        q.bytes_done = bytes_done;
        self.inbound.upsert(q);
    }

    /// Data work for `file_id` started.
    pub fn mark_active(&mut self, file_id: &str)
        requires
            old(self).wf(),
        ensures
            final(self).wf(),
            final(self).active() == old(self).active().insert(file_id@),
            final(self).inbound_map() == old(self).inbound_map(),
            final(self).outbound_map() == old(self).outbound_map(),
            final(self).inflight_map() == old(self).inflight_map(),
            final(self).auto_peers() == old(self).auto_peers(),
            final(self).generation() == old(self).generation(),
    {
        self.active_files.upsert(file_id.to_owned());
        assert(self.active() =~= old(self).active().insert(file_id@));
    }

    /// Data work for `file_id` stopped.
    pub fn release_active(&mut self, file_id: &str)
        requires
            old(self).wf(),
        ensures
            final(self).wf(),
            final(self).active() == old(self).active().remove(file_id@),
            final(self).inbound_map() == old(self).inbound_map(),
            final(self).outbound_map() == old(self).outbound_map(),
            final(self).inflight_map() == old(self).inflight_map(),
            final(self).auto_peers() == old(self).auto_peers(),
            final(self).generation() == old(self).generation(),
    {
        self.active_files.remove(file_id);
        assert(self.active() =~= old(self).active().remove(file_id@));
    }

    /// A receive finished, one way or another: the file is no longer active
    /// and no resume waits for it.
    pub fn end_receive(&mut self, file_id: &str)
        requires
            old(self).wf(),
        ensures
            final(self).wf(),
            final(self).active() == old(self).active().remove(file_id@),
            final(self).inflight_map() == old(self).inflight_map().remove(file_id@),
            final(self).inbound_map() == old(self).inbound_map(),
            final(self).outbound_map() == old(self).outbound_map(),
            final(self).auto_peers() == old(self).auto_peers(),
            final(self).generation() == old(self).generation(),
    {
        self.active_files.remove(file_id);
        self.resume_inflight.remove(file_id);
        assert(self.active() =~= old(self).active().remove(file_id@));
    }

    /// The outgoing transfer to push, unless one is already running for it
    /// or none is known.
    pub fn outbound_for_push(&self, file_id: &str) -> (r: Result<PendingOutbound, PushRefusal>)
        requires
            self.wf(),
        ensures
            self.active().contains(file_id@) ==> r == Err::<PendingOutbound, PushRefusal>(
                PushRefusal::Busy,
            ),
            !self.active().contains(file_id@) && !self.outbound_map().contains_key(file_id@) ==> r
                == Err::<PendingOutbound, PushRefusal>(PushRefusal::UnknownFile),
            !self.active().contains(file_id@) && self.outbound_map().contains_key(file_id@) ==> r
                == Ok::<PendingOutbound, PushRefusal>(self.outbound_map()[file_id@]),
    {
        if self.active_files.contains(file_id) {
            return Err(PushRefusal::Busy);
        }
        match self.outbound.get(file_id) {
            Some(o) => Ok(o.duplicate()),
            None => Err(PushRefusal::UnknownFile),
        }
    }

    /// A push ended: the file is no longer active. A completed or cancelled
    /// send is forgotten; an interrupted one stays resumable, at the address
    /// it was pushed to.
    pub fn push_ended(&mut self, out: &PendingOutbound, peer_address: String, outcome: &Result<(), String>)
        requires
            old(self).wf(),
        ensures
            final(self).wf(),
            final(self).active() == old(self).active().remove(out.file_id@),
            (outcome is Ok || (outcome matches Err(e) && e@ == "cancelled"@)) ==> final(self).outbound_map()
                == old(self).outbound_map().remove(out.file_id@),
            (outcome matches Err(e) && e@ != "cancelled"@) ==> ({
                let kept = final(self).outbound_map()[out.file_id@];
                &&& final(self).outbound_map() == old(self).outbound_map().insert(out.file_id@, kept)
                &&& kept == PendingOutbound { mime: kept.mime, peer_address, ..*out }
                &&& kept.mime@ == Seq::<char>::empty()
            }),
            final(self).inbound_map() == old(self).inbound_map(),
            final(self).inflight_map() == old(self).inflight_map(),
            final(self).auto_peers() == old(self).auto_peers(),
            final(self).generation() == old(self).generation(),
    {
        self.active_files.remove(out.file_id.as_str());
        assert(self.active() =~= old(self).active().remove(out.file_id@));
        match outcome {
            Ok(()) => {
                self.outbound.remove(out.file_id.as_str());
            },
            Err(e) => {
                if str_eq(e.as_str(), "cancelled") {
                    self.outbound.remove(out.file_id.as_str());
                } else {
                    let mut o = out.duplicate();
                    o.mime = String::new();
                    o.peer_address = peer_address;
                    self.outbound.upsert(o);
                }
            },
        }
    }
}

/// What the sender found of a source file it is asked to resume.
#[derive(Debug)]
pub enum SourceStat {
    /// Not there.
    Missing,
    /// There, but its metadata could not be read; the text says why.
    Unreadable(String),
    /// There, with this length.
    Present(u64),
}

/// A sender's refusal of a resume request, as sent back on the wire.
#[derive(Debug)]
pub struct ResumeReject {
    pub reason: String,
    pub detail: Option<String>,
}

pub open spec fn reject_is(r: ResumeReject, reason: Seq<char>, detail: Option<Seq<char>>) -> bool {
    r.reason@ == reason && opt_view(r.detail) == detail
}

fn reject(reason: &str, detail: Option<String>) -> (r: ResumeReject)
    ensures
        r.reason@ == reason@,
        r.detail == detail,
{
    ResumeReject { reason: reason.to_owned(), detail }
}

/// `key=value key2=value2` with decimal values.
pub open spec fn two_numbers(k1: Seq<char>, v1: u64, k2: Seq<char>, v2: u64) -> Seq<char> {
    k1 + decimal_spec(v1 as nat) + k2 + decimal_spec(v2 as nat)
}

fn two_numbers_text(k1: &str, v1: u64, k2: &str, v2: u64) -> (r: String)
    ensures
        r@ == two_numbers(k1@, v1, k2@, v2),
{
    let mut r = k1.to_owned();
    let a = decimal(v1);
    append_str(&mut r, a.as_str());
    append_str(&mut r, k2);
    let b = decimal(v2);
    append_str(&mut r, b.as_str());
    r
}

/// The reason texts after which the receiver cannot retry a resume: the
/// source is gone or changed, or the request was wrong.
pub open spec fn permanent_reason(reason: Seq<char>) -> bool {
    reason == "source_missing"@ || reason == "source_changed"@ || reason == "token_mismatch"@
        || reason == "offset_invalid"@
}

/// Whether a resume refused for `reason` may be tried again.
pub fn can_retry(reason: &str) -> (r: bool)
    ensures
        r == !permanent_reason(reason@),
{
    !(str_eq(reason, "source_missing") || str_eq(reason, "source_changed") || str_eq(
        reason,
        "token_mismatch",
    ) || str_eq(reason, "offset_invalid"))
}

/// Law: a resume the sender refused because its source is gone or changed,
/// or because the request itself was wrong (token, offset), can never
/// succeed by asking again; only a busy sender, or one that does not know
/// the transfer, may be asked again.
pub proof fn lemma_only_transient_refusals_retry(
    size: u64,
    source: SourceStat,
    reg: TransferRegistry,
    peer_id: Seq<char>,
    file_id: Seq<char>,
    resume_offset: u64,
    token: Seq<char>,
)
    ensures
        source_refusal(size, source) matches Some(reason) ==> permanent_reason(reason),
        resume_request_result(reg, peer_id, file_id, resume_offset, token) matches Some((reason, _))
            ==> (permanent_reason(reason) <==> !(reason == "busy"@ || reason == "unknown_file"@)),
{
    reveal_strlit("busy");
    reveal_strlit("unknown_file");
    reveal_strlit("source_missing");
    reveal_strlit("source_changed");
    reveal_strlit("token_mismatch");
    reveal_strlit("offset_invalid");
    assert("busy"@.len() == 4 && "unknown_file"@.len() == 12);
    assert("source_missing"@.len() == 14 && "source_changed"@.len() == 14);
    assert("token_mismatch"@.len() == 14 && "offset_invalid"@.len() == 14);
}

/// The error shown for a refused resume: the reason, and the detail after
/// a colon when there is one.
pub fn resume_reject_text(reason: &str, detail: &Option<String>) -> (r: String)
    ensures
        r@ == (match detail {
            Some(d) => if d@.len() > 0 {
                reason@ + ": "@ + d@
            } else {
                reason@
            },
            None => reason@,
        }),
{
    match detail {
        Some(d) => {
            if d.unicode_len() > 0 {
                let mut r = reason.to_owned();
                append_str(&mut r, ": ");
                append_str(&mut r, d.as_str());
                r
            } else {
                reason.to_owned()
            }
        },
        None => reason.to_owned(),
    }
}

/// The reason the sender refuses to serve `source` for a file offered with
/// `size` bytes, if it does.
pub open spec fn source_refusal(size: u64, source: SourceStat) -> Option<Seq<char>> {
    match source {
        SourceStat::Missing => Some("source_missing"@),
        SourceStat::Unreadable(_) => Some("source_missing"@),
        SourceStat::Present(len) => if len != size {
            Some("source_changed"@)
        } else {
            None
        },
    }
}

/// Whether the sender can serve its source for a resume: it must still be
/// there with the offered size.
pub fn check_resume_source(size: u64, source: SourceStat) -> (r: Result<(), ResumeReject>)
    ensures
        r is Ok <==> source_refusal(size, source) is None,
        r matches Err(j) ==> source_refusal(size, source) == Some(j.reason@),
        match source {
            SourceStat::Missing => r matches Err(j) && reject_is(j, "source_missing"@, None),
            SourceStat::Unreadable(e) => r matches Err(j) && reject_is(
                j,
                "source_missing"@,
                Some(e@),
            ),
            SourceStat::Present(len) => if len != size {
                r matches Err(j) && reject_is(
                    j,
                    "source_changed"@,
                    Some(two_numbers("len="@, len, " expected="@, size)),
                )
            } else {
                r is Ok
            },
        },
{
    match source {
        SourceStat::Missing => Err(reject("source_missing", None)),
        SourceStat::Unreadable(e) => Err(reject("source_missing", Some(e))),
        SourceStat::Present(len) => {
            if len != size {
                let d = two_numbers_text("len=", len, " expected=", size);
                Err(reject("source_changed", Some(d)))
            } else {
                Ok(())
            }
        },
    }
}

/// How the receiver goes on with a resume it asked for.
#[derive(Debug)]
pub enum ResumePlan {
    /// A resume for this file already waits for data: nothing to do.
    AlreadyWaiting,
    /// Align the partial file and ask the sender for the rest.
    Start {
        file_id: String,
        token: String,
        partial: String,
        size: u64,
        /// A final-path reservation exists, so a lost partial may be recreated.
        dest_reserved: bool,
    },
}

/// What the receiver's history says of a file message.
#[derive(Debug)]
pub struct CardRef {
    /// The chat the message belongs to.
    pub message_peer_id: String,
    pub file_id: String,
    /// The card's state (offered, accepted, transferring, interrupted, ...).
    pub state: String,
}

pub open spec fn resumable_state(state: Seq<char>) -> bool {
    state == "interrupted"@ || state == "accepted"@
}

pub fn is_resumable_state(state: &str) -> (r: bool)
    ensures
        r == resumable_state(state@),
{
    str_eq(state, "interrupted") || str_eq(state, "accepted")
}

/// When a lost partial file is found at resume: recreate it while the final
/// path is still reserved, otherwise the resume fails.
pub fn partial_recovery(partial_exists: bool, dest_reserved: bool) -> (r: Result<bool, String>)
    ensures
        partial_exists ==> r == Ok::<bool, String>(false),
        !partial_exists && dest_reserved ==> r == Ok::<bool, String>(true),
        !partial_exists && !dest_reserved ==> (r matches Err(e) && e@ == "Partial file missing."@),
{
    if partial_exists {
        Ok(false)
    } else if dest_reserved {
        Ok(true)
    } else {
        Err(String::from_str("Partial file missing."))
    }
}

/// The sender's answer to a resume request once the source checks passed.
pub open spec fn resume_request_result(
    reg: TransferRegistry,
    peer_id: Seq<char>,
    file_id: Seq<char>,
    resume_offset: u64,
    token: Seq<char>,
) -> Option<(Seq<char>, Option<Seq<char>>)> {
    let m = reg.outbound_map();
    if reg.active().contains(file_id) {
        Some(("busy"@, Some("push already in flight"@)))
    } else if !m.contains_key(file_id) {
        Some(("unknown_file"@, None))
    } else if m[file_id].peer_id@ != peer_id {
        Some(("unknown_file"@, Some("peer mismatch"@)))
    } else if m[file_id].token@ != token {
        Some(("token_mismatch"@, None))
    } else if resume_offset >= m[file_id].size {
        Some(
            (
                "offset_invalid"@,
                Some(two_numbers("offset="@, resume_offset, " size="@, m[file_id].size)),
            ),
        )
    } else {
        None
    }
}

impl TransferRegistry {
    /// The sender's check of a resume request from `peer_id`: the file must
    /// not be pushing already, must be one this device sends to that peer
    /// with that token, and the offset must lie inside it. Gives the
    /// outgoing transfer, whose source the caller checks next.
    pub fn check_resume_request(
        &self,
        peer_id: &str,
        file_id: &str,
        resume_offset: u64,
        token: &str,
    ) -> (r: Result<PendingOutbound, ResumeReject>)
        requires
            self.wf(),
        ensures
            match resume_request_result(*self, peer_id@, file_id@, resume_offset, token@) {
                Some((reason, detail)) => r matches Err(j) && reject_is(j, reason, detail),
                None => r == Ok::<PendingOutbound, ResumeReject>(self.outbound_map()[file_id@]),
            },
    {
        if self.active_files.contains(file_id) {
            return Err(reject("busy", Some(String::from_str("push already in flight"))));
        }
        let out = match self.outbound.get(file_id) {
            Some(o) => o.duplicate(),
            None => return Err(reject("unknown_file", None)),
        };
        if !str_eq(out.peer_id.as_str(), peer_id) {
            return Err(reject("unknown_file", Some(String::from_str("peer mismatch"))));
        }
        if !str_eq(out.token.as_str(), token) {
            return Err(reject("token_mismatch", None));
        }
        if resume_offset >= out.size {
            let d = two_numbers_text("offset=", resume_offset, " size=", out.size);
            return Err(reject("offset_invalid", Some(d)));
        }
        Ok(out)
    }

    /// The receiver's checks before it asks for a resume, in order: a live
    /// session, the file message of this chat, a resumable card, no resume
    /// already waiting (then nothing is to be done), no data flowing, a
    /// matching accepted entry with a partial file.
    pub fn plan_resume(
        &self,
        connected: bool,
        card: &Option<CardRef>,
        message_id: &str,
        peer_id: &str,
    ) -> (r: Result<ResumePlan, String>)
        requires
            self.wf(),
        ensures
            !connected ==> (r matches Err(e) && e@
                == "Not connected to peer. Wait until status shows connected."@),
            connected && !(card matches Some(c) && c.message_peer_id@ == peer_id@) ==> (r matches Err(
                e,
            ) && e@ == "Message not found."@),
            connected && (card matches Some(c) && c.message_peer_id@ == peer_id@) ==> ({
                let c = card->0;
                let fid = c.file_id@;
                let m = self.inbound_map();
                &&& !resumable_state(c.state@) ==> (r matches Err(e) && e@ == "Cannot resume in state '"@
                    + c.state@ + "'."@)
                &&& resumable_state(c.state@) && self.inflight_map().contains_key(fid) ==> (r matches Ok(
                    p,
                ) && p is AlreadyWaiting)
                &&& resumable_state(c.state@) && !self.inflight_map().contains_key(fid)
                    && self.active().contains(fid) ==> (r matches Err(e) && e@
                    == "Transfer already in progress."@)
                &&& resumable_state(c.state@) && !self.inflight_map().contains_key(fid)
                    && !self.active().contains(fid) && !m.contains_key(fid) ==> (r matches Err(e)
                    && e@
                    == "No resumable transfer in memory (restart app requires PR-R3 persistence)."@)
                &&& resumable_state(c.state@) && !self.inflight_map().contains_key(fid)
                    && !self.active().contains(fid) && m.contains_key(fid) ==> {
                    let p = m[fid];
                    &&& !for_message(p, message_id@, peer_id@) ==> (r matches Err(e) && e@
                        == "Transfer does not match this chat."@)
                    &&& for_message(p, message_id@, peer_id@) && !p.accepted ==> (r matches Err(e)
                        && e@ == "File was never accepted."@)
                    &&& for_message(p, message_id@, peer_id@) && p.accepted && p.partial_path is None
                        ==> (r matches Err(e) && e@ == "Missing partial path."@)
                    &&& for_message(p, message_id@, peer_id@) && p.accepted
                        && p.partial_path is Some ==> r == Ok::<ResumePlan, String>(
                        ResumePlan::Start {
                            file_id: p.file_id,
                            token: p.token,
                            partial: p.partial_path->0,
                            size: p.size,
                            dest_reserved: p.dest_path is Some,
                        },
                    )
                }
            }),
    {
        if !connected {
            return Err(String::from_str("Not connected to peer. Wait until status shows connected."));
        }
        let c = match card {
            Some(c) => c,
            None => return Err(String::from_str("Message not found.")),
        };
        if !str_eq(c.message_peer_id.as_str(), peer_id) {
            return Err(String::from_str("Message not found."));
        }
        if !is_resumable_state(c.state.as_str()) {
            let mut e = String::from_str("Cannot resume in state '");
            append_str(&mut e, c.state.as_str());
            append_str(&mut e, "'.");
            return Err(e);
        }
        if self.resume_inflight.contains(c.file_id.as_str()) {
            return Ok(ResumePlan::AlreadyWaiting);
        }
        if self.active_files.contains(c.file_id.as_str()) {
            return Err(String::from_str("Transfer already in progress."));
        }
        let p = match self.inbound.get(c.file_id.as_str()) {
            Some(p) => p,
            None => return Err(
                String::from_str(
                    "No resumable transfer in memory (restart app requires PR-R3 persistence).",
                ),
            ),
        };
        if !str_eq(p.peer_id.as_str(), peer_id) || !str_eq(p.message_id.as_str(), message_id) {
            return Err(String::from_str("Transfer does not match this chat."));
        }
        if !p.accepted {
            return Err(String::from_str("File was never accepted."));
        }
        let partial = match &p.partial_path {
            Some(q) => q.clone(),
            None => return Err(String::from_str("Missing partial path.")),
        };
        Ok(
            ResumePlan::Start {
                file_id: p.file_id.clone(),
                token: p.token.clone(),
                partial,
                size: p.size,
                dest_reserved: p.dest_path.is_some(),
            },
        )
    }

    /// Records a resume request sent at `offset`: the entry holds that many
    /// bytes and a resume wait under a fresh timer generation begins, which
    /// is returned.
    pub fn record_resume(&mut self, file_id: &str, message_id: &str, peer_id: &str, offset: u64) -> (g: u64)
        requires
            old(self).wf(),
        ensures
            final(self).wf(),
            g == old(self).generation(),
            final(self).generation() == (if g == u64::MAX { 0 } else { (g + 1) as u64 }),
            old(self).inbound_map().contains_key(file_id@) ==> final(self).inbound_map()
                == old(self).inbound_map().insert(
                file_id@,
                PendingInbound { bytes_done: offset, ..old(self).inbound_map()[file_id@] },
            ),
            !old(self).inbound_map().contains_key(file_id@) ==> final(self).inbound_map()
                == old(self).inbound_map(),
            final(self).inflight_map().contains_key(file_id@),
            ({
                let w = final(self).inflight_map()[file_id@];
                &&& final(self).inflight_map() == old(self).inflight_map().insert(file_id@, w)
                &&& w.file_id@ == file_id@ && w.generation == g && w.message_id@ == message_id@
                    && w.peer_id@ == peer_id@ && w.offset == offset
            }),
            final(self).outbound_map() == old(self).outbound_map(),
            final(self).active() == old(self).active(),
            final(self).auto_peers() == old(self).auto_peers(),
    {
        proof {
            self.inbound.lemma_rows();
        }
        match self.inbound.get(file_id) {
            Some(p) => {
                let mut q = p.duplicate();
                q.bytes_done = offset;
                self.inbound.upsert(q);
            },
            None => {},
        }
        let g = self.next_generation();
        self.resume_inflight.upsert(
            ResumeInflight {
                file_id: file_id.to_owned(),
                generation: g,
                message_id: message_id.to_owned(),
                peer_id: peer_id.to_owned(),
                offset,
            },
        );
        g
    }

    /// A resume request could not be sent, or was refused: the wait ends.
    pub fn clear_resume_inflight(&mut self, file_id: &str)
        requires
            old(self).wf(),
        ensures
            final(self).wf(),
            final(self).inflight_map() == old(self).inflight_map().remove(file_id@),
            final(self).inbound_map() == old(self).inbound_map(),
            final(self).outbound_map() == old(self).outbound_map(),
            final(self).active() == old(self).active(),
            final(self).auto_peers() == old(self).auto_peers(),
            final(self).generation() == old(self).generation(),
    {
        self.resume_inflight.remove(file_id);
    }

    /// A resume wait of generation `generation` ran out: it counts only when
    /// it is still the current wait for the file and no data flows; then the
    /// wait ends and `true` is returned. Older timers change nothing.
    pub fn resume_timed_out(&mut self, file_id: &str, generation: u64) -> (r: bool)
        requires
            old(self).wf(),
        ensures
            final(self).wf(),
            r == (old(self).inflight_map().contains_key(file_id@) && old(self).inflight_map()[file_id@].generation
                == generation && !old(self).active().contains(file_id@)),
            r ==> final(self).inflight_map() == old(self).inflight_map().remove(file_id@),
            !r ==> final(self).inflight_map() == old(self).inflight_map(),
            final(self).inbound_map() == old(self).inbound_map(),
            final(self).outbound_map() == old(self).outbound_map(),
            final(self).active() == old(self).active(),
            final(self).auto_peers() == old(self).auto_peers(),
            final(self).generation() == old(self).generation(),
    {
        let current = match self.resume_inflight.get(file_id) {
            Some(w) => w.generation == generation,
            None => false,
        };
        if !current || self.active_files.contains(file_id) {
            return false;
        }
        self.resume_inflight.remove(file_id);
        true
    }

    /// The first-data timer after an Accept acts only while no data flows
    /// and the entry still waits.
    pub fn first_data_wait_applies(&self, file_id: &str) -> (r: bool)
        requires
            self.wf(),
        ensures
            r == (!self.active().contains(file_id@) && self.inbound_map().contains_key(file_id@)),
    {
        !self.active_files.contains(file_id) && self.inbound.contains(file_id)
    }

    /// No resume waits for the file and no data flows for it.
    pub fn resume_settled(&self, file_id: &str) -> (r: bool)
        requires
            self.wf(),
        ensures
            r == (!self.inflight_map().contains_key(file_id@) && !self.active().contains(file_id@)),
    {
        !self.resume_inflight.contains(file_id) && !self.active_files.contains(file_id)
    }
}

/// `s` contains `t` as a contiguous part.
pub open spec fn contains_text(s: Seq<char>, t: Seq<char>) -> bool {
    exists|i: int| 0 <= i && i + t.len() <= s.len() && #[trigger] s.subrange(i, i + t.len()) == t
}

fn has_text(s: &str, t: &str) -> (r: bool)
    ensures
        r == contains_text(s@, t@),
{
    let sv = chars_of(s);
    let tv = chars_of(t);
    let n = sv.len();
    let k = tv.len();
    if k > n {
        proof {
            assert forall|i: int| 0 <= i && i + t@.len() <= s@.len() implies #[trigger] s@.subrange(
                i,
                i + t@.len(),
            ) != t@ by {}
        }
        return false;
    }
    let mut i: usize = 0;
    while i <= n - k
        invariant
            sv@ == s@,
            tv@ == t@,
            n == sv@.len(),
            k == tv@.len(),
            k <= n,
            i <= n - k + 1,
            forall|j: int| 0 <= j < i ==> #[trigger] s@.subrange(j, j + t@.len()) != t@,
        decreases n - k + 1 - i,
    {
        let mut same = true;
        let mut q: usize = 0;
        while q < k
            invariant
                sv@ == s@,
                tv@ == t@,
                n == sv@.len(),
                k == tv@.len(),
                i + k <= n,
                q <= k,
                same == forall|x: int| 0 <= x < q ==> sv@[i + x] == tv@[x],
            decreases k - q,
        {
            if sv[i + q] != tv[q] {
                same = false;
            }
            q = q + 1;
        }
        if same {
            proof {
                assert(s@.subrange(i as int, i + t@.len()) =~= t@);
            }
            return true;
        }
        proof {
            let x = choose|x: int| 0 <= x < k && sv@[i + x] != tv@[x];
            assert(s@.subrange(i as int, i + t@.len())[x] != t@[x]);
        }
        i = i + 1;
    }
    proof {
        assert forall|j: int| 0 <= j && j + t@.len() <= s@.len() implies #[trigger] s@.subrange(
            j,
            j + t@.len(),
        ) != t@ by {
            assert(j < i);
        }
    }
    false
}

/// An automatic resume that failed this way is tried once more shortly.
pub fn auto_resume_retryable(err: &str) -> (r: bool)
    ensures
        r == (contains_text(err@, "busy"@) || contains_text(err@, "Not connected"@)),
{
    has_text(err, "busy") || has_text(err, "Not connected")
}

/// An inbound entry an automatic resume for `peer_id` may pick: accepted,
/// with a partial file, not flowing, not already waiting for a resume.
pub open spec fn auto_eligible(reg: TransferRegistry, k: Seq<char>, peer_id: Seq<char>) -> bool {
    let p = reg.inbound_map()[k];
    &&& reg.inbound_map().contains_key(k)
    &&& p.peer_id@ == peer_id
    &&& p.accepted
    &&& p.partial_path is Some
    &&& !reg.active().contains(k)
    &&& !reg.inflight_map().contains_key(k)
}

/// Data or a resume for this peer is already under way.
pub open spec fn peer_busy(reg: TransferRegistry, peer_id: Seq<char>) -> bool {
    ||| exists|k: Seq<char>|
        reg.inflight_map().contains_key(k) && (#[trigger] reg.inflight_map()[k]).peer_id@ == peer_id
    ||| exists|k: Seq<char>|
        reg.inbound_map().contains_key(k) && (#[trigger] reg.inbound_map()[k]).peer_id@ == peer_id
            && reg.active().contains(k)
}

/// What history deletion does with a file message's transfer, by the card state.
#[derive(PartialEq, Eq, Structural, Clone, Copy, Debug)]
pub enum HistoryAction {
    /// An offer nobody accepted: forget it.
    DropOffer,
    /// Accepted or under way: cancel it fully.
    Cancel,
    /// Finished one way or another: only the durable row goes.
    DeleteRow,
}

pub open spec fn history_action_spec(state: Seq<char>) -> HistoryAction {
    if state == "offered"@ {
        HistoryAction::DropOffer
    } else if state == "accepted"@ || state == "transferring"@ || state == "interrupted"@ {
        HistoryAction::Cancel
    } else {
        HistoryAction::DeleteRow
    }
}

/// Law: deleting the message of a transfer that was accepted and has not
/// finished (it could still resume, or data flows) cancels it; deleting an
/// offer nobody accepted forgets it; anything else only loses its row.
pub proof fn lemma_history_deletion(state: Seq<char>)
    ensures
        (history_action_spec(state) == HistoryAction::Cancel) <==> (resumable_state(state) || state
            == "transferring"@),
        (history_action_spec(state) == HistoryAction::DropOffer) <==> state == "offered"@,
{
    reveal_strlit("offered");
    reveal_strlit("accepted");
    reveal_strlit("interrupted");
    reveal_strlit("transferring");
    assert("offered"@.len() == 7 && "accepted"@.len() == 8);
    assert("interrupted"@.len() == 11 && "transferring"@.len() == 12);
}

pub fn history_action(card_state: &str) -> (r: HistoryAction)
    ensures
        r == history_action_spec(card_state@),
{
    if str_eq(card_state, "offered") {
        HistoryAction::DropOffer
    } else if str_eq(card_state, "accepted") || str_eq(card_state, "transferring") || str_eq(
        card_state,
        "interrupted",
    ) {
        HistoryAction::Cancel
    } else {
        HistoryAction::DeleteRow
    }
}

/// What a cancel leaves for the caller to clean up.
#[derive(Debug)]
pub struct CancelInfo {
    /// The file message to mark cancelled, if the file was known.
    pub message_id: Option<String>,
    /// The receiver's reserved final path, if any.
    pub dest: Option<String>,
    /// The receiver's partial file, if any.
    pub partial: Option<String>,
}

/// `s` with `suffix` removed from its end as many times as it occurs there
/// (`str::trim_end_matches`).
pub open spec fn trim_end_all(s: Seq<char>, suffix: Seq<char>) -> Seq<char>
    decreases s.len(),
{
    if suffix.len() > 0 && s.len() >= suffix.len() && s.skip(s.len() - suffix.len()) == suffix {
        trim_end_all(s.take(s.len() - suffix.len()), suffix)
    } else {
        s
    }
}

pub open spec fn ends_with(s: Seq<char>, suffix: Seq<char>) -> bool {
    s.len() >= suffix.len() && s.skip(s.len() - suffix.len()) == suffix
}

fn ends_with_at(v: &Vec<char>, end: usize, suffix: &Vec<char>) -> (r: bool)
    requires
        end <= v@.len(),
    ensures
        r == ends_with(v@.take(end as int), suffix@),
{
    let k = suffix.len();
    if end < k {
        return false;
    }
    let mut i: usize = 0;
    while i < k
        invariant
            k == suffix@.len(),
            k <= end <= v@.len(),
            i <= k,
            forall|j: int| 0 <= j < i ==> v@[end - k + j] == suffix@[j],
        decreases k - i,
    {
        if v[end - k + i] != suffix[i] {
            proof {
                assert(v@.take(end as int).skip(end - k)[i as int] == v@[end - k + i]);
            }
            return false;
        }
        i = i + 1;
    }
    proof {
        assert(v@.take(end as int).skip(end - k) =~= suffix@);
    }
    true
}

/// For a card whose local path is a `.partial` file, the final path it
/// was reserved for.
pub fn dest_from_partial(local_path: &str) -> (r: Option<String>)
    ensures
        ends_with(local_path@, ".partial"@) ==> (r matches Some(d) && d@ == trim_end_all(
            local_path@,
            ".partial"@,
        )),
        !ends_with(local_path@, ".partial"@) ==> r is None,
{
    let v = chars_of(local_path);
    let suffix = chars_of(".partial");
    proof {
        reveal_strlit(".partial");
        assert(v@.take(v@.len() as int) =~= v@);
    }
    if !ends_with_at(&v, v.len(), &suffix) {
        return None;
    }
    let mut e = v.len();
    while ends_with_at(&v, e, &suffix)
        invariant
            e <= v@.len(),
            suffix@ == ".partial"@,
            suffix@.len() == 8,
            trim_end_all(v@.take(e as int), suffix@) == trim_end_all(v@, suffix@),
        decreases e,
    {
        proof {
            assert(v@.take(e as int).take(e - 8) =~= v@.take(e - 8));
        }
        e = e - 8;
    }
    proof {
        assert(trim_end_all(v@.take(e as int), suffix@) == v@.take(e as int));
    }
    Some(crate::text::string_of(&v, 0, e))
}

/// What to do with a durable transfer row at startup.
#[derive(Debug)]
pub enum HydrateAction {
    /// Finished one way or another: delete the row.
    Delete,
    /// Neither a send nor a receive: leave it.
    Skip,
    /// A receive that cannot go on: delete the row and fail the card with this text.
    DropReceive(String),
    /// Load the receive; recreate its empty partial file first when asked.
    LoadReceive { accepted: bool, recreate_partial: bool },
    /// A send whose source is gone: delete the row and fail the card with this text.
    DropSend(String),
    /// Load the send.
    LoadSend,
}

#[derive(Debug)]
pub struct HydratePlan {
    /// The state the transfer continues in.
    pub state: String,
    /// It was under way when the app stopped and now counts as interrupted.
    pub demoted: bool,
    pub action: HydrateAction,
}

pub open spec fn terminal_state(s: Seq<char>) -> bool {
    s == "completed"@ || s == "cancelled"@ || s == "rejected"@ || s == "failed"@
}

pub open spec fn demoted_state(s: Seq<char>) -> bool {
    s == "transferring"@ || s == "accepted"@
}

/// The startup decision for a durable row, from its state, role, paths, and
/// whether its files exist.
pub fn hydrate_plan(
    row_state: &str,
    role: &str,
    path: &str,
    partial_path: &Option<String>,
    partial_exists: bool,
    dest_exists: bool,
    source_exists: bool,
) -> (r: HydratePlan)
    ensures
        terminal_state(row_state@) ==> r.action is Delete && r.state@ == row_state@ && !r.demoted,
        !terminal_state(row_state@) ==> ({
            let st = if demoted_state(row_state@) { "interrupted"@ } else { row_state@ };
            let offered = st == "offered"@;
            let has_dest = path@.len() > 0;
            &&& r.state@ == st
            &&& r.demoted == demoted_state(row_state@)
            &&& role@ == "recv"@ ==> {
                &&& !offered && (!has_dest || partial_path is None) ==> (r.action matches HydrateAction::DropReceive(
                    e,
                ) && e@ == "state lost after restart; re-send required"@)
                &&& !(!offered && (!has_dest || partial_path is None)) && has_dest && partial_path is Some
                    && !partial_exists && !dest_exists ==> (r.action matches HydrateAction::DropReceive(
                    e,
                ) && e@ == "partial missing after restart"@)
                &&& !(!offered && (!has_dest || partial_path is None)) && !(has_dest && partial_path is Some
                    && !partial_exists && !dest_exists) ==> (r.action matches HydrateAction::LoadReceive {
                    accepted,
                    recreate_partial,
                } && accepted == !offered && recreate_partial == (has_dest && partial_path is Some
                    && !partial_exists))
            }
            &&& role@ != "recv"@ && role@ == "send"@ ==> {
                &&& (!has_dest || !source_exists) ==> (r.action matches HydrateAction::DropSend(e)
                    && e@ == "source missing after restart"@)
                &&& (has_dest && source_exists) ==> r.action is LoadSend
            }
            &&& role@ != "recv"@ && role@ != "send"@ ==> r.action is Skip
        }),
{
    if str_eq(row_state, "completed") || str_eq(row_state, "cancelled") || str_eq(row_state, "rejected")
        || str_eq(row_state, "failed") {
        return HydratePlan { state: row_state.to_owned(), demoted: false, action: HydrateAction::Delete };
    }
    let demoted = str_eq(row_state, "transferring") || str_eq(row_state, "accepted");
    let st = if demoted {
        String::from_str("interrupted")
    } else {
        row_state.to_owned()
    };
    let offered = str_eq(st.as_str(), "offered");
    let has_dest = path.unicode_len() > 0;
    let action = if str_eq(role, "recv") {
        if !offered && (!has_dest || partial_path.is_none()) {
            HydrateAction::DropReceive(String::from_str("state lost after restart; re-send required"))
        } else if has_dest && partial_path.is_some() && !partial_exists && !dest_exists {
            HydrateAction::DropReceive(String::from_str("partial missing after restart"))
        } else {
            HydrateAction::LoadReceive {
                accepted: !offered,
                recreate_partial: has_dest && partial_path.is_some() && !partial_exists,
            }
        }
    } else if str_eq(role, "send") {
        if !has_dest || !source_exists {
            HydrateAction::DropSend(String::from_str("source missing after restart"))
        } else {
            HydrateAction::LoadSend
        }
    } else {
        HydrateAction::Skip
    };
    HydratePlan { state: st, demoted, action }
}

/// The error shown on a card loaded at startup: the stored one, else `app_restart`.
pub fn restart_error(error: &Option<String>) -> (r: String)
    ensures
        r@ == (match error {
            Some(e) => e@,
            None => "app_restart"@,
        }),
{
    match error {
        Some(e) => e.clone(),
        None => String::from_str("app_restart"),
    }
}

impl TransferRegistry {
    proof fn lemma_tables(&self)
        requires
            self.wf(),
        ensures
            forall|i: int|
                0 <= i < self.inbound.rows().len() ==> self.inbound_map().contains_key(
                    #[trigger] self.inbound.rows()[i].key(),
                ) && self.inbound_map()[self.inbound.rows()[i].key()] == self.inbound.rows()[i],
            forall|k: Seq<char>| #[trigger]
                self.inbound_map().contains_key(k) ==> exists|i: int|
                    0 <= i < self.inbound.rows().len() && (#[trigger] self.inbound.rows()[i]).key()
                        == k,
            forall|k: Seq<char>| #[trigger]
                self.inbound_map().contains_key(k) ==> self.inbound_map()[k].key() == k,
            forall|i: int|
                0 <= i < self.outbound.rows().len() ==> self.outbound_map().contains_key(
                    #[trigger] self.outbound.rows()[i].key(),
                ) && self.outbound_map()[self.outbound.rows()[i].key()] == self.outbound.rows()[i],
            forall|k: Seq<char>| #[trigger]
                self.outbound_map().contains_key(k) ==> exists|i: int|
                    0 <= i < self.outbound.rows().len() && (#[trigger] self.outbound.rows()[i]).key()
                        == k,
            forall|i: int|
                0 <= i < self.resume_inflight.rows().len() ==> self.inflight_map().contains_key(
                    #[trigger] self.resume_inflight.rows()[i].key(),
                ) && self.inflight_map()[self.resume_inflight.rows()[i].key()]
                    == self.resume_inflight.rows()[i],
            forall|k: Seq<char>| #[trigger]
                self.inflight_map().contains_key(k) ==> exists|i: int|
                    0 <= i < self.resume_inflight.rows().len() && (
                    #[trigger] self.resume_inflight.rows()[i]).key() == k,
    {
        self.inbound.lemma_rows();
        self.outbound.lemma_rows();
        self.resume_inflight.lemma_rows();
    }

    /// The incoming transfer kept under `file_id`, if any.
    pub fn inbound_entry(&self, file_id: &str) -> (r: Option<PendingInbound>)
        requires
            self.wf(),
        ensures
            r == (if self.inbound_map().contains_key(file_id@) {
                Some(self.inbound_map()[file_id@])
            } else {
                None::<PendingInbound>
            }),
    {
        match self.inbound.get(file_id) {
            Some(p) => Some(p.duplicate()),
            None => None,
        }
    }

    /// Every entry is kept under its own file id: inbound, outbound and
    /// resume waits alike.
    pub proof fn lemma_keys_are_file_ids(&self)
        requires
            self.wf(),
        ensures
            forall|k: Seq<char>| #[trigger]
                self.inbound_map().contains_key(k) ==> self.inbound_map()[k].file_id@ == k,
            forall|k: Seq<char>| #[trigger]
                self.outbound_map().contains_key(k) ==> self.outbound_map()[k].file_id@ == k,
            forall|k: Seq<char>| #[trigger]
                self.inflight_map().contains_key(k) ==> self.inflight_map()[k].file_id@ == k,
    {
        self.inbound.lemma_rows();
        self.outbound.lemma_rows();
        self.resume_inflight.lemma_rows();
    }

    /// Starts an automatic resume round for `peer_id` unless one is already
    /// on for that peer or data or a resume for it is under way.
    pub fn try_begin_auto_resume(&mut self, peer_id: &str) -> (r: bool)
        requires
            old(self).wf(),
        ensures
            final(self).wf(),
            r == (!old(self).auto_peers().contains(peer_id@) && !peer_busy(*old(self), peer_id@)),
            r ==> final(self).auto_peers() == old(self).auto_peers().insert(peer_id@),
            !r ==> final(self).auto_peers() == old(self).auto_peers(),
            final(self).inbound_map() == old(self).inbound_map(),
            final(self).outbound_map() == old(self).outbound_map(),
            final(self).inflight_map() == old(self).inflight_map(),
            final(self).active() == old(self).active(),
            final(self).generation() == old(self).generation(),
    {
        if self.auto_resume_peers.contains(peer_id) {
            return false;
        }
        if self.peer_is_busy(peer_id) {
            return false;
        }
        self.auto_resume_peers.upsert(peer_id.to_owned());
        assert(self.auto_peers() =~= old(self).auto_peers().insert(peer_id@));
        true
    }

    fn peer_is_busy(&self, peer_id: &str) -> (r: bool)
        requires
            self.wf(),
        ensures
            r == peer_busy(*self, peer_id@),
    {
        proof {
            self.lemma_tables();
        }
        let n = self.resume_inflight.len();
        let mut i: usize = 0;
        while i < n
            invariant
                self.wf(),
                n == self.resume_inflight.rows().len(),
                i <= n,
                forall|j: int| 0 <= j < i ==> (#[trigger] self.resume_inflight.rows()[j]).peer_id@ != peer_id@,
            decreases n - i,
        {
            let w = self.resume_inflight.at(i);
            if str_eq(w.peer_id.as_str(), peer_id) {
                proof {
                    self.lemma_tables();
                    assert(self.inflight_map()[w.key()] == *w);
                }
                return true;
            }
            i = i + 1;
        }
        let m = self.inbound.len();
        let mut j: usize = 0;
        while j < m
            invariant
                self.wf(),
                m == self.inbound.rows().len(),
                j <= m,
                forall|x: int|
                    0 <= x < j ==> !((#[trigger] self.inbound.rows()[x]).peer_id@ == peer_id@
                        && self.active().contains(self.inbound.rows()[x].key())),
            decreases m - j,
        {
            let p = self.inbound.at(j);
            if str_eq(p.peer_id.as_str(), peer_id) && self.active_files.contains(p.file_id.as_str()) {
                proof {
                    self.lemma_tables();
                    assert(self.inbound_map()[p.key()] == *p);
                }
                return true;
            }
            j = j + 1;
        }
        proof {
            self.lemma_tables();
            assert forall|k: Seq<char>| self.inflight_map().contains_key(k) implies (
            #[trigger] self.inflight_map()[k]).peer_id@ != peer_id@ by {
                let x = choose|x: int| 0 <= x < self.resume_inflight.rows().len() && (#[trigger] self.resume_inflight.rows()[x]).key() == k;
                assert(self.inflight_map()[self.resume_inflight.rows()[x].key()] == self.resume_inflight.rows()[x]);
            }
            assert forall|k: Seq<char>| self.inbound_map().contains_key(k) implies !((
            #[trigger] self.inbound_map()[k]).peer_id@ == peer_id@ && self.active().contains(k)) by {
                let x = choose|x: int| 0 <= x < self.inbound.rows().len() && (#[trigger] self.inbound.rows()[x]).key() == k;
                assert(self.inbound_map()[self.inbound.rows()[x].key()] == self.inbound.rows()[x]);
            }
        }
        false
    }

    /// Ends the automatic resume round for `peer_id`.
    pub fn clear_auto_peer(&mut self, peer_id: &str)
        requires
            old(self).wf(),
        ensures
            final(self).wf(),
            final(self).auto_peers() == old(self).auto_peers().remove(peer_id@),
            final(self).inbound_map() == old(self).inbound_map(),
            final(self).outbound_map() == old(self).outbound_map(),
            final(self).inflight_map() == old(self).inflight_map(),
            final(self).active() == old(self).active(),
            final(self).generation() == old(self).generation(),
    {
        self.auto_resume_peers.remove(peer_id);
        assert(self.auto_peers() =~= old(self).auto_peers().remove(peer_id@));
    }

    /// The receive an automatic resume for `peer_id` takes first: among the
    /// eligible ones, one with the fewest bytes received. Gives its message
    /// id and file id.
    pub fn auto_resume_candidate(&self, peer_id: &str) -> (r: Option<(String, String)>)
        requires
            self.wf(),
        ensures
            match r {
                Some((mid, fid)) => {
                    &&& auto_eligible(*self, fid@, peer_id@)
                    &&& mid@ == self.inbound_map()[fid@].message_id@
                    &&& forall|k: Seq<char>|
                        auto_eligible(*self, k, peer_id@) ==> self.inbound_map()[fid@].bytes_done
                            <= #[trigger] self.inbound_map()[k].bytes_done
                },
                None => forall|k: Seq<char>| !auto_eligible(*self, k, peer_id@),
            },
    {
        proof {
            self.lemma_tables();
        }
        let n = self.inbound.len();
        let mut best: Option<usize> = None;
        let mut i: usize = 0;
        while i < n
            invariant
                self.wf(),
                n == self.inbound.rows().len(),
                i <= n,
                match best {
                    Some(b) => b < i && auto_eligible(*self, self.inbound.rows()[b as int].key(), peer_id@)
                        && forall|j: int|
                        0 <= j < i && auto_eligible(*self, self.inbound.rows()[j].key(), peer_id@)
                            ==> self.inbound.rows()[b as int].bytes_done
                            <= #[trigger] self.inbound.rows()[j].bytes_done,
                    None => forall|j: int|
                        0 <= j < i ==> !auto_eligible(*self, #[trigger] self.inbound.rows()[j].key(), peer_id@),
                },
            decreases n - i,
        {
            let p = self.inbound.at(i);
            proof {
                self.lemma_tables();
                assert(self.inbound_map()[p.key()] == *p);
            }
            let eligible = str_eq(p.peer_id.as_str(), peer_id) && p.accepted && p.partial_path.is_some()
                && !self.active_files.contains(p.file_id.as_str())
                && !self.resume_inflight.contains(p.file_id.as_str());
            if eligible {
                match best {
                    None => {
                        best = Some(i);
                    },
                    Some(b) => {
                        if p.bytes_done < self.inbound.at(b).bytes_done {
                            best = Some(i);
                        }
                    },
                }
            }
            i = i + 1;
        }
        proof {
            self.lemma_tables();
        }
        match best {
            None => {
                proof {
                    assert forall|k: Seq<char>| !auto_eligible(*self, k, peer_id@) by {
                        if auto_eligible(*self, k, peer_id@) {
                            let x = choose|x: int| 0 <= x < self.inbound.rows().len() && (#[trigger] self.inbound.rows()[x]).key() == k;
                            assert(!auto_eligible(*self, self.inbound.rows()[x].key(), peer_id@));
                        }
                    }
                }
                None
            },
            Some(b) => {
                let p = self.inbound.at(b);
                proof {
                    assert(self.inbound_map()[p.key()] == *p);
                    assert forall|k: Seq<char>| auto_eligible(*self, k, peer_id@) implies self.inbound_map()[p.key()].bytes_done
                        <= #[trigger] self.inbound_map()[k].bytes_done by {
                        let x = choose|x: int| 0 <= x < self.inbound.rows().len() && (#[trigger] self.inbound.rows()[x]).key() == k;
                        assert(self.inbound_map()[self.inbound.rows()[x].key()] == self.inbound.rows()[x]);
                    }
                }
                Some((p.message_id.clone(), p.file_id.clone()))
            },
        }
    }

    /// Cancel of `file_id` in the registry: the waiting entries and any
    /// resume wait go, and the timer generation moves on so pending timers do
    /// nothing. Gives what the caller still has to clean up.
    pub fn cancel_entries(&mut self, file_id: &str) -> (r: CancelInfo)
        requires
            old(self).wf(),
        ensures
            final(self).wf(),
            ({
                let i = old(self).inbound_map();
                let o = old(self).outbound_map();
                let fid = file_id@;
                &&& r.message_id == (if i.contains_key(fid) {
                    Some(i[fid].message_id)
                } else if o.contains_key(fid) {
                    Some(o[fid].message_id)
                } else {
                    None::<String>
                })
                &&& r.dest == (if i.contains_key(fid) { i[fid].dest_path } else { None::<String> })
                &&& r.partial == (if i.contains_key(fid) {
                    i[fid].partial_path
                } else {
                    None::<String>
                })
            }),
            final(self).inbound_map() == old(self).inbound_map().remove(file_id@),
            final(self).outbound_map() == old(self).outbound_map().remove(file_id@),
            final(self).inflight_map() == old(self).inflight_map().remove(file_id@),
            final(self).active() == old(self).active(),
            final(self).auto_peers() == old(self).auto_peers(),
            final(self).generation() == (if old(self).generation() == u64::MAX {
                0
            } else {
                (old(self).generation() + 1) as u64
            }),
    {
        let (mid, dest, partial) = match self.inbound.get(file_id) {
            Some(p) => (Some(p.message_id.clone()), copy_opt(&p.dest_path), copy_opt(&p.partial_path)),
            None => match self.outbound.get(file_id) {
                Some(o) => (Some(o.message_id.clone()), None, None),
                None => (None, None, None),
            },
        };
        self.inbound.remove(file_id);
        self.outbound.remove(file_id);
        self.resume_inflight.remove(file_id);
        self.next_generation();
        CancelInfo { message_id: mid, dest, partial }
    }

    /// The transfer behind a chat message being deleted: an inbound entry
    /// with its accepted flag, else an outgoing one (not accepted).
    pub fn history_lookup(&self, message_id: &str, peer_id: &str) -> (r: Option<(String, bool)>)
        requires
            self.wf(),
        ensures
            match r {
                Some((fid, accepted)) => (self.inbound_map().contains_key(fid@) && for_message(
                    self.inbound_map()[fid@],
                    message_id@,
                    peer_id@,
                ) && accepted == self.inbound_map()[fid@].accepted) || (!some_inbound_for(
                    self.inbound_map(),
                    message_id@,
                    peer_id@,
                ) && self.outbound_map().contains_key(fid@) && self.outbound_map()[fid@].message_id@
                    == message_id@ && self.outbound_map()[fid@].peer_id@ == peer_id@ && !accepted),
                None => !some_inbound_for(self.inbound_map(), message_id@, peer_id@) && !exists|
                    k: Seq<char>,
                |
                    self.outbound_map().contains_key(k) && (#[trigger] self.outbound_map()[k]).message_id@
                        == message_id@ && self.outbound_map()[k].peer_id@ == peer_id@,
            },
    {
        proof {
            self.lemma_tables();
        }
        let n = self.inbound.len();
        let mut i: usize = 0;
        while i < n
            invariant
                self.wf(),
                n == self.inbound.rows().len(),
                i <= n,
                forall|j: int| 0 <= j < i ==> !for_message(#[trigger] self.inbound.rows()[j], message_id@, peer_id@),
            decreases n - i,
        {
            let p = self.inbound.at(i);
            if str_eq(p.message_id.as_str(), message_id) && str_eq(p.peer_id.as_str(), peer_id) {
                proof {
                    self.lemma_tables();
                    assert(self.inbound_map()[p.key()] == *p);
                }
                return Some((p.file_id.clone(), p.accepted));
            }
            i = i + 1;
        }
        proof {
            self.lemma_tables();
            assert forall|k: Seq<char>| self.inbound_map().contains_key(k) implies !for_message(
                #[trigger] self.inbound_map()[k],
                message_id@,
                peer_id@,
            ) by {
                let x = choose|x: int| 0 <= x < self.inbound.rows().len() && (#[trigger] self.inbound.rows()[x]).key() == k;
                assert(self.inbound_map()[self.inbound.rows()[x].key()] == self.inbound.rows()[x]);
            }
        }
        assert(!some_inbound_for(self.inbound_map(), message_id@, peer_id@));
        let m = self.outbound.len();
        let mut j: usize = 0;
        while j < m
            invariant
                self.wf(),
                !some_inbound_for(self.inbound_map(), message_id@, peer_id@),
                m == self.outbound.rows().len(),
                j <= m,
                forall|x: int|
                    0 <= x < j ==> !((#[trigger] self.outbound.rows()[x]).message_id@ == message_id@
                        && self.outbound.rows()[x].peer_id@ == peer_id@),
            decreases m - j,
        {
            let o = self.outbound.at(j);
            if str_eq(o.message_id.as_str(), message_id) && str_eq(o.peer_id.as_str(), peer_id) {
                proof {
                    self.lemma_tables();
                    assert(self.outbound_map()[o.key()] == *o);
                }
                return Some((o.file_id.clone(), false));
            }
            j = j + 1;
        }
        proof {
            self.lemma_tables();
            assert forall|k: Seq<char>| self.outbound_map().contains_key(k) implies !((
            #[trigger] self.outbound_map()[k]).message_id@ == message_id@
                && self.outbound_map()[k].peer_id@ == peer_id@) by {
                let x = choose|x: int| 0 <= x < self.outbound.rows().len() && (#[trigger] self.outbound.rows()[x]).key() == k;
                assert(self.outbound_map()[self.outbound.rows()[x].key()] == self.outbound.rows()[x]);
            }
        }
        None
    }

    /// Forgets an offer in both directions (history deletion of an offer
    /// nobody accepted).
    pub fn drop_offer(&mut self, file_id: &str)
        requires
            old(self).wf(),
        ensures
            final(self).wf(),
            final(self).inbound_map() == old(self).inbound_map().remove(file_id@),
            final(self).outbound_map() == old(self).outbound_map().remove(file_id@),
            final(self).inflight_map() == old(self).inflight_map(),
            final(self).active() == old(self).active(),
            final(self).auto_peers() == old(self).auto_peers(),
            final(self).generation() == old(self).generation(),
    {
        self.inbound.remove(file_id);
        self.outbound.remove(file_id);
    }

    /// Forgets an outgoing transfer (the peer rejected it, or the offer
    /// could not be sent).
    pub fn forget_outbound(&mut self, file_id: &str)
        requires
            old(self).wf(),
        ensures
            final(self).wf(),
            final(self).outbound_map() == old(self).outbound_map().remove(file_id@),
            final(self).inbound_map() == old(self).inbound_map(),
            final(self).inflight_map() == old(self).inflight_map(),
            final(self).active() == old(self).active(),
            final(self).auto_peers() == old(self).auto_peers(),
            final(self).generation() == old(self).generation(),
    {
        self.outbound.remove(file_id);
    }

    /// A new outgoing offer was sent to the history and waits for the peer.
    pub fn offer_sent(&mut self, out: PendingOutbound)
        requires
            old(self).wf(),
        ensures
            final(self).wf(),
            final(self).outbound_map() == old(self).outbound_map().insert(out.file_id@, out),
            final(self).inbound_map() == old(self).inbound_map(),
            final(self).inflight_map() == old(self).inflight_map(),
            final(self).active() == old(self).active(),
            final(self).auto_peers() == old(self).auto_peers(),
            final(self).generation() == old(self).generation(),
    {
        self.outbound.upsert(out);
    }

    /// Loads a receive from its durable row at startup.
    pub fn hydrate_inbound(&mut self, row: &TransferRow, accepted: bool, expected_sha256: Option<String>)
        requires
            old(self).wf(),
        ensures
            final(self).wf(),
            final(self).inbound_map() == old(self).inbound_map().insert(
                row.file_id@,
                PendingInbound {
                    file_id: row.file_id,
                    message_id: row.message_id,
                    peer_id: row.peer_id,
                    name: row.name,
                    size: row.size,
                    mime: row.mime,
                    token: row.token,
                    accepted,
                    dest_path: if row.path@.len() == 0 { None } else { Some(row.path) },
                    partial_path: row.partial_path,
                    bytes_done: row.bytes_done,
                    expected_sha256,
                },
            ),
            final(self).outbound_map() == old(self).outbound_map(),
            final(self).inflight_map() == old(self).inflight_map(),
            final(self).active() == old(self).active(),
            final(self).auto_peers() == old(self).auto_peers(),
            final(self).generation() == old(self).generation(),
    {
        let dest = if row.path.unicode_len() == 0 {
            None
        } else {
            Some(row.path.clone())
        };
        self.inbound.upsert(
            PendingInbound {
                file_id: row.file_id.clone(),
                message_id: row.message_id.clone(),
                peer_id: row.peer_id.clone(),
                name: row.name.clone(),
                size: row.size,
                mime: row.mime.clone(),
                token: row.token.clone(),
                accepted,
                dest_path: dest,
                partial_path: copy_opt(&row.partial_path),
                bytes_done: row.bytes_done,
                expected_sha256,
            },
        );
    }

    /// Loads a send from its durable row at startup; the peer's address is
    /// found again when it connects.
    pub fn hydrate_outbound(&mut self, row: &TransferRow, cached_sha256: Option<String>)
        requires
            old(self).wf(),
        ensures
            final(self).wf(),
            final(self).outbound_map().contains_key(row.file_id@),
            ({
                let o = final(self).outbound_map()[row.file_id@];
                &&& final(self).outbound_map() == old(self).outbound_map().insert(row.file_id@, o)
                &&& o == PendingOutbound {
                    file_id: row.file_id,
                    message_id: row.message_id,
                    peer_id: row.peer_id,
                    path: row.path,
                    name: row.name,
                    size: row.size,
                    mime: row.mime,
                    token: row.token,
                    peer_address: o.peer_address,
                    source_mtime_ms: match row.source_mtime {
                        Some(m) => Some(m as u128),
                        None => None,
                    },
                    cached_sha256,
                }
                &&& o.peer_address@ == Seq::<char>::empty()
            }),
            final(self).inbound_map() == old(self).inbound_map(),
            final(self).inflight_map() == old(self).inflight_map(),
            final(self).active() == old(self).active(),
            final(self).auto_peers() == old(self).auto_peers(),
            final(self).generation() == old(self).generation(),
    {
        let mtime = match row.source_mtime {
            Some(m) => Some(m as u128),
            None => None,
        };
        self.outbound.upsert(
            PendingOutbound {
                file_id: row.file_id.clone(),
                message_id: row.message_id.clone(),
                peer_id: row.peer_id.clone(),
                path: row.path.clone(),
                name: row.name.clone(),
                size: row.size,
                mime: row.mime.clone(),
                token: row.token.clone(),
                peer_address: String::new(),
                source_mtime_ms: mtime,
                cached_sha256,
            },
        );
    }
}

/// The file id and accepted flag of each transfer with `peer_id`: the
/// incoming ones, then the outgoing ones (which count as accepted).
pub open spec fn peer_items(
    ins: Seq<PendingInbound>,
    outs: Seq<PendingOutbound>,
    peer_id: Seq<char>,
) -> Seq<(Seq<char>, bool)> {
    ins.filter(|p: PendingInbound| p.peer_id@ == peer_id).map_values(
        |p: PendingInbound| (p.file_id@, p.accepted),
    ) + outs.filter(|o: PendingOutbound| o.peer_id@ == peer_id).map_values(
        |o: PendingOutbound| (o.file_id@, true),
    )
}

/// The file id, peer and accepted flag of every transfer: the incoming
/// ones, then the outgoing ones (which count as accepted).
pub open spec fn all_items(ins: Seq<PendingInbound>, outs: Seq<PendingOutbound>) -> Seq<
    (Seq<char>, Seq<char>, bool),
> {
    ins.map_values(|p: PendingInbound| (p.file_id@, p.peer_id@, p.accepted)) + outs.map_values(
        |o: PendingOutbound| (o.file_id@, o.peer_id@, true),
    )
}

impl TransferRegistry {
    /// The incoming entries in storage order.
    pub closed spec fn inbound_rows(&self) -> Seq<PendingInbound> {
        self.inbound.rows()
    }

    /// The outgoing entries in storage order.
    pub closed spec fn outbound_rows(&self) -> Seq<PendingOutbound> {
        self.outbound.rows()
    }

    /// The rows are the tables' entries, each once.
    pub proof fn lemma_rows(&self)
        requires
            self.wf(),
        ensures
            forall|i: int|
                0 <= i < self.inbound_rows().len() ==> self.inbound_map().contains_key(
                    #[trigger] self.inbound_rows()[i].file_id@,
                ) && self.inbound_map()[self.inbound_rows()[i].file_id@] == self.inbound_rows()[i],
            forall|k: Seq<char>| #[trigger]
                self.inbound_map().contains_key(k) ==> exists|i: int|
                    0 <= i < self.inbound_rows().len() && (#[trigger] self.inbound_rows()[i]).file_id@
                        == k,
            forall|i: int|
                0 <= i < self.outbound_rows().len() ==> self.outbound_map().contains_key(
                    #[trigger] self.outbound_rows()[i].file_id@,
                ) && self.outbound_map()[self.outbound_rows()[i].file_id@] == self.outbound_rows()[i],
            forall|k: Seq<char>| #[trigger]
                self.outbound_map().contains_key(k) ==> exists|i: int|
                    0 <= i < self.outbound_rows().len() && (#[trigger] self.outbound_rows()[i]).file_id@
                        == k,
    {
        self.lemma_tables();
        assert forall|i: int| 0 <= i < self.inbound_rows().len() implies self.inbound_map().contains_key(
            #[trigger] self.inbound_rows()[i].file_id@,
        ) && self.inbound_map()[self.inbound_rows()[i].file_id@] == self.inbound_rows()[i] by {
            assert(self.inbound.rows()[i].key() == self.inbound_rows()[i].file_id@);
        }
        assert forall|i: int| 0 <= i < self.outbound_rows().len() implies self.outbound_map().contains_key(
            #[trigger] self.outbound_rows()[i].file_id@,
        ) && self.outbound_map()[self.outbound_rows()[i].file_id@] == self.outbound_rows()[i] by {
            assert(self.outbound.rows()[i].key() == self.outbound_rows()[i].file_id@);
        }
        assert forall|k: Seq<char>| #[trigger] self.inbound_map().contains_key(k) implies exists|i: int|
            0 <= i < self.inbound_rows().len() && (#[trigger] self.inbound_rows()[i]).file_id@ == k by {
            let x = choose|x: int| 0 <= x < self.inbound.rows().len() && (#[trigger] self.inbound.rows()[x]).key() == k;
            assert(self.inbound_rows()[x].file_id@ == k);
        }
        assert forall|k: Seq<char>| #[trigger] self.outbound_map().contains_key(k) implies exists|i: int|
            0 <= i < self.outbound_rows().len() && (#[trigger] self.outbound_rows()[i]).file_id@ == k by {
            let x = choose|x: int| 0 <= x < self.outbound.rows().len() && (#[trigger] self.outbound.rows()[x]).key() == k;
            assert(self.outbound_rows()[x].file_id@ == k);
        }
    }

    /// The transfers with `peer_id`, for clearing that chat.
    pub fn transfers_for_peer(&self, peer_id: &str) -> (r: Vec<(String, bool)>)
        requires
            self.wf(),
        ensures
            r@.map_values(|x: (String, bool)| (x.0@, x.1)) == peer_items(
                self.inbound_rows(),
                self.outbound_rows(),
                peer_id@,
            ),
    {
        let mut r: Vec<(String, bool)> = Vec::new();
        let n = self.inbound.len();
        let mut i: usize = 0;
        while i < n
            invariant
                n == self.inbound_rows().len(),
                i <= n,
                r@.map_values(|x: (String, bool)| (x.0@, x.1)) == self.inbound_rows().take(i as int).filter(
                    |p: PendingInbound| p.peer_id@ == peer_id@,
                ).map_values(|p: PendingInbound| (p.file_id@, p.accepted)),
            decreases n - i,
        {
            let p = self.inbound.at(i);
            let ghost before = r@;
            proof {
                assert(self.inbound_rows().take(i + 1) =~= self.inbound_rows().take(i as int).push(*p));
                self.inbound_rows().take(i as int).lemma_filter_push(*p, |p: PendingInbound| p.peer_id@ == peer_id@);
            }
            if str_eq(p.peer_id.as_str(), peer_id) {
                let f = p.file_id.clone();
                r.push((f, p.accepted));
                proof {
                    assert(r@.map_values(|x: (String, bool)| (x.0@, x.1)) =~= before.map_values(
                        |x: (String, bool)| (x.0@, x.1),
                    ).push((f@, p.accepted)));
                }
            }
            i = i + 1;
        }
        proof {
            assert(self.inbound_rows().take(n as int) =~= self.inbound_rows());
        }
        let ghost first = r@.map_values(|x: (String, bool)| (x.0@, x.1));
        let m = self.outbound.len();
        let mut j: usize = 0;
        while j < m
            invariant
                m == self.outbound_rows().len(),
                j <= m,
                r@.map_values(|x: (String, bool)| (x.0@, x.1)) == first + self.outbound_rows().take(j as int).filter(
                    |o: PendingOutbound| o.peer_id@ == peer_id@,
                ).map_values(|o: PendingOutbound| (o.file_id@, true)),
            decreases m - j,
        {
            let o = self.outbound.at(j);
            let ghost before = r@;
            proof {
                assert(self.outbound_rows().take(j + 1) =~= self.outbound_rows().take(j as int).push(*o));
                self.outbound_rows().take(j as int).lemma_filter_push(*o, |o: PendingOutbound| o.peer_id@ == peer_id@);
            }
            if str_eq(o.peer_id.as_str(), peer_id) {
                let f = o.file_id.clone();
                r.push((f, true));
                proof {
                    assert(r@.map_values(|x: (String, bool)| (x.0@, x.1)) =~= before.map_values(
                        |x: (String, bool)| (x.0@, x.1),
                    ).push((f@, true)));
                }
            }
            j = j + 1;
        }
        proof {
            assert(self.outbound_rows().take(m as int) =~= self.outbound_rows());
        }
        r
    }

    /// Every transfer, for clearing all history.
    pub fn all_transfers(&self) -> (r: Vec<(String, String, bool)>)
        requires
            self.wf(),
        ensures
            r@.map_values(|x: (String, String, bool)| (x.0@, x.1@, x.2)) == all_items(
                self.inbound_rows(),
                self.outbound_rows(),
            ),
    {
        let mut r: Vec<(String, String, bool)> = Vec::new();
        let n = self.inbound.len();
        let mut i: usize = 0;
        while i < n
            invariant
                n == self.inbound_rows().len(),
                i <= n,
                r@.map_values(|x: (String, String, bool)| (x.0@, x.1@, x.2)) == self.inbound_rows().take(
                    i as int,
                ).map_values(|p: PendingInbound| (p.file_id@, p.peer_id@, p.accepted)),
            decreases n - i,
        {
            let p = self.inbound.at(i);
            let ghost before = r@;
            let f = p.file_id.clone();
            let q = p.peer_id.clone();
            r.push((f, q, p.accepted));
            proof {
                assert(self.inbound_rows().take(i + 1) =~= self.inbound_rows().take(i as int).push(*p));
                assert(r@.map_values(|x: (String, String, bool)| (x.0@, x.1@, x.2)) =~= before.map_values(
                    |x: (String, String, bool)| (x.0@, x.1@, x.2),
                ).push((f@, q@, p.accepted)));
            }
            i = i + 1;
        }
        proof {
            assert(self.inbound_rows().take(n as int) =~= self.inbound_rows());
        }
        let ghost first = r@.map_values(|x: (String, String, bool)| (x.0@, x.1@, x.2));
        let m = self.outbound.len();
        let mut j: usize = 0;
        while j < m
            invariant
                m == self.outbound_rows().len(),
                j <= m,
                r@.map_values(|x: (String, String, bool)| (x.0@, x.1@, x.2)) == first
                    + self.outbound_rows().take(j as int).map_values(
                    |o: PendingOutbound| (o.file_id@, o.peer_id@, true),
                ),
            decreases m - j,
        {
            let o = self.outbound.at(j);
            let ghost before = r@;
            let f = o.file_id.clone();
            let q = o.peer_id.clone();
            r.push((f, q, true));
            proof {
                assert(self.outbound_rows().take(j + 1) =~= self.outbound_rows().take(j as int).push(*o));
                assert(r@.map_values(|x: (String, String, bool)| (x.0@, x.1@, x.2)) =~= before.map_values(
                    |x: (String, String, bool)| (x.0@, x.1@, x.2),
                ).push((f@, q@, true)));
            }
            j = j + 1;
        }
        proof {
            assert(self.outbound_rows().take(m as int) =~= self.outbound_rows());
        }
        r
    }
}

/// The durable row for a transfer at time `now`: created now unless a
/// creation time is given, updated now, no source time.
pub fn make_transfer_row(
    file_id: &str,
    role: &str,
    peer_id: &str,
    message_id: &str,
    path: &str,
    partial_path: Option<String>,
    name: &str,
    size: u64,
    mime: &str,
    token: &str,
    bytes_done: u64,
    state: &str,
    error: Option<String>,
    created_at: Option<i64>,
    now: i64,
) -> (r: TransferRow)
    ensures
        r.file_id@ == file_id@,
        r.role@ == role@,
        r.peer_id@ == peer_id@,
        r.message_id@ == message_id@,
        r.path@ == path@,
        r.partial_path == partial_path,
        r.name@ == name@,
        r.size == size,
        r.mime@ == mime@,
        r.token@ == token@,
        r.bytes_done == bytes_done,
        r.state@ == state@,
        r.source_mtime is None,
        r.error == error,
        r.created_at == (match created_at {
            Some(c) => c,
            None => now,
        }),
        r.updated_at == now,
{
    TransferRow {
        file_id: file_id.to_owned(),
        role: role.to_owned(),
        peer_id: peer_id.to_owned(),
        message_id: message_id.to_owned(),
        path: path.to_owned(),
        partial_path,
        name: name.to_owned(),
        size,
        mime: mime.to_owned(),
        token: token.to_owned(),
        bytes_done,
        state: state.to_owned(),
        source_mtime: None,
        error,
        created_at: match created_at {
            Some(c) => c,
            None => now,
        },
        updated_at: now,
    }
}

/// `host:port`, with an IPv6 host in brackets.
pub open spec fn socket_addr_spec(host: Seq<char>, port: u16) -> Seq<char> {
    if host.contains(':') && !(host.len() > 0 && host[0] == '[') {
        "["@ + host + "]:"@ + decimal_spec(port as nat)
    } else {
        host + ":"@ + decimal_spec(port as nat)
    }
}

/// Format host:port correctly for IPv4 and IPv6.
pub fn socket_addr_str(host: &str, port: u16) -> (r: String)
    ensures
        r@ == socket_addr_spec(host@, port),
{
    let v = chars_of(host);
    let mut has_colon = false;
    let mut i: usize = 0;
    while i < v.len()
        invariant
            i <= v@.len(),
            has_colon == exists|j: int| 0 <= j < i && v@[j] == ':',
        decreases v@.len() - i,
    {
        if v[i] == ':' {
            has_colon = true;
        }
        i = i + 1;
    }
    proof {
        if has_colon {
            let j = choose|j: int| 0 <= j < v@.len() && v@[j] == ':';
            assert(host@.contains(':'));
        } else {
            assert(!host@.contains(':'));
        }
    }
    let bracketed = v.len() > 0 && v[0] == '[';
    let p = decimal(port as u64);
    let mut r = String::new();
    if has_colon && !bracketed {
        append_str(&mut r, "[");
        append_str(&mut r, host);
        append_str(&mut r, "]:");
    } else {
        append_str(&mut r, host);
        append_str(&mut r, ":");
    }
    append_str(&mut r, p.as_str());
    r
}

/// The media type for a lower-case file extension.
pub open spec fn mime_for(ext: Seq<char>) -> Seq<char> {
    if ext == "png"@ {
        "image/png"@
    } else if ext == "jpg"@ || ext == "jpeg"@ {
        "image/jpeg"@
    } else if ext == "gif"@ {
        "image/gif"@
    } else if ext == "webp"@ {
        "image/webp"@
    } else if ext == "pdf"@ {
        "application/pdf"@
    } else if ext == "txt"@ || ext == "md"@ {
        "text/plain"@
    } else if ext == "zip"@ {
        "application/zip"@
    } else if ext == "mp4"@ {
        "video/mp4"@
    } else if ext == "mov"@ {
        "video/quicktime"@
    } else {
        "application/octet-stream"@
    }
}

/// Law: the media type of each known extension, as a table.
pub proof fn lemma_mime_table(ext: Seq<char>)
    ensures
        ext == "png"@ ==> mime_for(ext) == "image/png"@,
        ext == "jpg"@ || ext == "jpeg"@ ==> mime_for(ext) == "image/jpeg"@,
        ext == "gif"@ ==> mime_for(ext) == "image/gif"@,
        ext == "webp"@ ==> mime_for(ext) == "image/webp"@,
        ext == "pdf"@ ==> mime_for(ext) == "application/pdf"@,
        ext == "txt"@ || ext == "md"@ ==> mime_for(ext) == "text/plain"@,
        ext == "zip"@ ==> mime_for(ext) == "application/zip"@,
        ext == "mp4"@ ==> mime_for(ext) == "video/mp4"@,
        ext == "mov"@ ==> mime_for(ext) == "video/quicktime"@,
        !(ext == "png"@ || ext == "jpg"@ || ext == "jpeg"@ || ext == "gif"@ || ext == "webp"@ || ext
            == "pdf"@ || ext == "txt"@ || ext == "md"@ || ext == "zip"@ || ext == "mp4"@ || ext
            == "mov"@) ==> mime_for(ext) == "application/octet-stream"@,
{
    reveal_strlit("png");
    reveal_strlit("jpg");
    reveal_strlit("jpeg");
    reveal_strlit("gif");
    reveal_strlit("webp");
    reveal_strlit("pdf");
    reveal_strlit("txt");
    reveal_strlit("md");
    reveal_strlit("zip");
    reveal_strlit("mp4");
    reveal_strlit("mov");
    assert("png"@[0] == 'p' && "png"@[1] == 'n');
    assert("jpg"@[0] == 'j' && "jpg"@[1] == 'p');
    assert("jpeg"@[0] == 'j' && "jpeg"@[1] == 'p');
    assert("gif"@[0] == 'g' && "gif"@[1] == 'i');
    assert("webp"@[0] == 'w' && "webp"@[1] == 'e');
    assert("pdf"@[0] == 'p' && "pdf"@[1] == 'd');
    assert("txt"@[0] == 't' && "txt"@[1] == 'x');
    assert("md"@[0] == 'm' && "md"@[1] == 'd');
    assert("zip"@[0] == 'z' && "zip"@[1] == 'i');
    assert("mp4"@[0] == 'm' && "mp4"@[1] == 'p');
    assert("mov"@[0] == 'm' && "mov"@[1] == 'o');
}

/// The media type for a lower-case extension.
pub fn mime_for_extension(ext: &str) -> (r: String)
    ensures
        r@ == mime_for(ext@),
{
    let m = if str_eq(ext, "png") {
        "image/png"
    } else if str_eq(ext, "jpg") || str_eq(ext, "jpeg") {
        "image/jpeg"
    } else if str_eq(ext, "gif") {
        "image/gif"
    } else if str_eq(ext, "webp") {
        "image/webp"
    } else if str_eq(ext, "pdf") {
        "application/pdf"
    } else if str_eq(ext, "txt") || str_eq(ext, "md") {
        "text/plain"
    } else if str_eq(ext, "zip") {
        "application/zip"
    } else if str_eq(ext, "mp4") {
        "video/mp4"
    } else if str_eq(ext, "mov") {
        "video/quicktime"
    } else {
        "application/octet-stream"
    };
    m.to_owned()
}

/// The media type guessed from a file name's extension, in any case.
pub fn mime_guess(name: &str) -> (r: String)
    ensures
        r@ == mime_for(
            lowercase(
                match extension_spec(name@) {
                    Some(e) => e,
                    None => Seq::<char>::empty(),
                },
            ),
        ),
{
    let ext = match path_extension(name) {
        Some(e) => e,
        None => String::new(),
    };
    let lower = to_lower(ext.as_str());
    mime_for_extension(lower.as_str())
}

/// A file picked for sending must be a non-empty regular file within the size cap.
pub fn check_outgoing_file(is_file: bool, size: u64) -> (r: Result<(), String>)
    ensures
        !is_file ==> (r matches Err(e) && e@ == "Not a regular file."@),
        is_file && size == 0 ==> (r matches Err(e) && e@ == "Cannot send empty file."@),
        is_file && size > MAX_FILE_SIZE ==> (r matches Err(e) && e@
            == "File too large (max 53687091200 bytes)."@),
        r is Ok <==> (is_file && 0 < size <= MAX_FILE_SIZE),
{
    if !is_file {
        return Err(String::from_str("Not a regular file."));
    }
    if size == 0 {
        return Err(String::from_str("Cannot send empty file."));
    }
    if size > MAX_FILE_SIZE {
        return Err(String::from_str("File too large (max 53687091200 bytes)."));
    }
    Ok(())
}

/// The name a picked file is offered under: its file name, sanitized.
pub fn outgoing_name(path: &str) -> (r: Result<String, String>)
    ensures
        match file_name(path@) {
            None => r matches Err(e) && e@ == "bad file name"@,
            Some(n) => match r {
                Ok(b) => basename_of(n) == Ok::<Seq<char>, Seq<char>>(b@),
                Err(e) => basename_of(n) == Err::<Seq<char>, Seq<char>>(e@),
            },
        },
{
    match path_file_name(path) {
        None => Err(String::from_str("bad file name")),
        Some(n) => safe_basename(n.as_str()),
    }
}

/// Law: a fresh offer is not accepted, so no data is taken for it until the
/// user accepts (confirm by default).
pub proof fn lemma_new_offer_not_admitted(
    m: Map<Seq<char>, PendingInbound>,
    file_id: String,
    message_id: String,
    peer_id: String,
    name: String,
    size: u64,
    mime: String,
    token: String,
    sha256: Option<String>,
)
    ensures
        !is_accepted(
            m.insert(file_id@, new_offer(file_id, message_id, peer_id, name, size, mime, token, sha256)),
            file_id@,
        ),
{
}

/// Law: undoing an Accept of a fresh offer gives back the offer as it came.
pub proof fn lemma_undo_accept_restores_offer(
    file_id: String,
    message_id: String,
    peer_id: String,
    name: String,
    size: u64,
    mime: String,
    token: String,
    sha256: Option<String>,
    dest: String,
    partial: String,
)
    ensures
        ({
            let offer = new_offer(file_id, message_id, peer_id, name, size, mime, token, sha256);
            PendingInbound {
                accepted: false,
                dest_path: None,
                partial_path: None,
                ..accepted_entry(offer, dest, partial)
            } == offer
        }),
{
}

} // verus!
