//! Structured diagnostics: stable codes for each logic node and an in-memory
//! ring buffer of recent entries.

use vstd::prelude::*;
use vstd::string::*;


verus! {

/// Number of entries the ring buffer keeps.
pub const MAX_ENTRIES: usize = 200;

/// Stable logic-node identifiers.
#[derive(Clone, Copy, PartialEq, Eq, Structural, Debug)]
pub enum LogicPoint {
    AppStart,
    AppStateReady,
    CfgLoad,
    CfgLoadCorrupt,
    CfgLoadRepair,
    CfgSave,
    CfgSaveFail,
    CfgSetName,
    CfgSetNameFail,
    DiscBind,
    DiscBindFail,
    DiscAnnounce,
    DiscAnnounceFail,
    DiscRecvFail,
    DiscPeerSeen,
    DiscPeerExpire,
    DiscStop,
    TcpListen,
    TcpListenFail,
    TcpAccept,
    TcpAcceptFail,
    TcpDialStart,
    TcpDialFail,
    TcpDialSpawnFail,
    TcpHelloFail,
    TcpHelloOk,
    TcpArbDrop,
    TcpArbReplace,
    TcpSessionUp,
    TcpSessionDown,
    TcpPingFail,
    TcpReconcileDrop,
    TcpReadFail,
    TcpFrameBad,
    MsgSend,
    MsgSendFail,
    MsgRecv,
    MsgRecvDup,
    MsgRecvReject,
    MsgPersistFail,
    HistDelete,
    HistClearPeer,
    HistClearAll,
    HistDeleteFail,
    DbOpen,
    DbOpenFail,
    DbQueryFail,
    XferListen,
    XferListenFail,
    XferOfferOut,
    XferOfferIn,
    XferOfferReject,
    XferAccept,
    XferAcceptFail,
    XferReject,
    XferCancel,
    XferDataFail,
    XferComplete,
    XferInterrupt,
    XferAlign,
    XferReserve,
    XferFirstDataTimeout,
    XferResume,
    XferResumeFail,
    XferHydrate,
}

/// The stable code of each logic node.
pub open spec fn code_of(p: LogicPoint) -> Seq<char> {
    match p {
        LogicPoint::AppStart => "APP-START"@,
        LogicPoint::AppStateReady => "APP-STATE-READY"@,
        LogicPoint::CfgLoad => "CFG-LOAD"@,
        LogicPoint::CfgLoadCorrupt => "CFG-LOAD-CORRUPT"@,
        LogicPoint::CfgLoadRepair => "CFG-LOAD-REPAIR"@,
        LogicPoint::CfgSave => "CFG-SAVE"@,
        LogicPoint::CfgSaveFail => "CFG-SAVE-FAIL"@,
        LogicPoint::CfgSetName => "CFG-SET-NAME"@,
        LogicPoint::CfgSetNameFail => "CFG-SET-NAME-FAIL"@,
        LogicPoint::DiscBind => "DISC-BIND"@,
        LogicPoint::DiscBindFail => "DISC-BIND-FAIL"@,
        LogicPoint::DiscAnnounce => "DISC-ANNOUNCE"@,
        LogicPoint::DiscAnnounceFail => "DISC-ANNOUNCE-FAIL"@,
        LogicPoint::DiscRecvFail => "DISC-RECV-FAIL"@,
        LogicPoint::DiscPeerSeen => "DISC-PEER-SEEN"@,
        LogicPoint::DiscPeerExpire => "DISC-PEER-EXPIRE"@,
        LogicPoint::DiscStop => "DISC-STOP"@,
        LogicPoint::TcpListen => "TCP-LISTEN"@,
        LogicPoint::TcpListenFail => "TCP-LISTEN-FAIL"@,
        LogicPoint::TcpAccept => "TCP-ACCEPT"@,
        LogicPoint::TcpAcceptFail => "TCP-ACCEPT-FAIL"@,
        LogicPoint::TcpDialStart => "TCP-DIAL-START"@,
        LogicPoint::TcpDialFail => "TCP-DIAL-FAIL"@,
        LogicPoint::TcpDialSpawnFail => "TCP-DIAL-SPAWN-FAIL"@,
        LogicPoint::TcpHelloFail => "TCP-HELLO-FAIL"@,
        LogicPoint::TcpHelloOk => "TCP-HELLO-OK"@,
        LogicPoint::TcpArbDrop => "TCP-ARB-DROP"@,
        LogicPoint::TcpArbReplace => "TCP-ARB-REPLACE"@,
        LogicPoint::TcpSessionUp => "TCP-SESSION-UP"@,
        LogicPoint::TcpSessionDown => "TCP-SESSION-DOWN"@,
        LogicPoint::TcpPingFail => "TCP-PING-FAIL"@,
        LogicPoint::TcpReconcileDrop => "TCP-RECONCILE-DROP"@,
        LogicPoint::TcpReadFail => "TCP-READ-FAIL"@,
        LogicPoint::TcpFrameBad => "TCP-FRAME-BAD"@,
        LogicPoint::MsgSend => "MSG-SEND"@,
        LogicPoint::MsgSendFail => "MSG-SEND-FAIL"@,
        LogicPoint::MsgRecv => "MSG-RECV"@,
        LogicPoint::MsgRecvDup => "MSG-RECV-DUP"@,
        LogicPoint::MsgRecvReject => "MSG-RECV-REJECT"@,
        LogicPoint::MsgPersistFail => "MSG-PERSIST-FAIL"@,
        LogicPoint::HistDelete => "HIST-DELETE"@,
        LogicPoint::HistClearPeer => "HIST-CLEAR-PEER"@,
        LogicPoint::HistClearAll => "HIST-CLEAR-ALL"@,
        LogicPoint::HistDeleteFail => "HIST-DELETE-FAIL"@,
        LogicPoint::DbOpen => "DB-OPEN"@,
        LogicPoint::DbOpenFail => "DB-OPEN-FAIL"@,
        LogicPoint::DbQueryFail => "DB-QUERY-FAIL"@,
        LogicPoint::XferListen => "XFER-LISTEN"@,
        LogicPoint::XferListenFail => "XFER-LISTEN-FAIL"@,
        LogicPoint::XferOfferOut => "XFER-OFFER-OUT"@,
        LogicPoint::XferOfferIn => "XFER-OFFER-IN"@,
        LogicPoint::XferOfferReject => "XFER-OFFER-REJECT"@,
        LogicPoint::XferAccept => "XFER-ACCEPT"@,
        LogicPoint::XferAcceptFail => "XFER-ACCEPT-FAIL"@,
        LogicPoint::XferReject => "XFER-REJECT"@,
        LogicPoint::XferCancel => "XFER-CANCEL"@,
        LogicPoint::XferDataFail => "XFER-DATA-FAIL"@,
        LogicPoint::XferComplete => "XFER-COMPLETE"@,
        LogicPoint::XferInterrupt => "XFER-INTERRUPT"@,
        LogicPoint::XferAlign => "XFER-ALIGN"@,
        LogicPoint::XferReserve => "XFER-RESERVE"@,
        LogicPoint::XferFirstDataTimeout => "XFER-FIRST-DATA-TIMEOUT"@,
        LogicPoint::XferResume => "XFER-RESUME"@,
        LogicPoint::XferResumeFail => "XFER-RESUME-FAIL"@,
        LogicPoint::XferHydrate => "XFER-HYDRATE"@,
    }
}

/// The area each logic node belongs to.
pub open spec fn area_of(p: LogicPoint) -> Seq<char> {
    match p {
        LogicPoint::AppStart => "lifecycle"@,
        LogicPoint::AppStateReady => "lifecycle"@,
        LogicPoint::CfgLoad => "config"@,
        LogicPoint::CfgLoadCorrupt => "config"@,
        LogicPoint::CfgLoadRepair => "config"@,
        LogicPoint::CfgSave => "config"@,
        LogicPoint::CfgSaveFail => "config"@,
        LogicPoint::CfgSetName => "config"@,
        LogicPoint::CfgSetNameFail => "config"@,
        LogicPoint::DiscBind => "discovery"@,
        LogicPoint::DiscBindFail => "discovery"@,
        LogicPoint::DiscAnnounce => "discovery"@,
        LogicPoint::DiscAnnounceFail => "discovery"@,
        LogicPoint::DiscRecvFail => "discovery"@,
        LogicPoint::DiscPeerSeen => "discovery"@,
        LogicPoint::DiscPeerExpire => "discovery"@,
        LogicPoint::DiscStop => "discovery"@,
        LogicPoint::TcpListen => "session"@,
        LogicPoint::TcpListenFail => "session"@,
        LogicPoint::TcpAccept => "session"@,
        LogicPoint::TcpAcceptFail => "session"@,
        LogicPoint::TcpDialStart => "session"@,
        LogicPoint::TcpDialFail => "session"@,
        LogicPoint::TcpDialSpawnFail => "session"@,
        LogicPoint::TcpHelloFail => "session"@,
        LogicPoint::TcpHelloOk => "session"@,
        LogicPoint::TcpArbDrop => "session"@,
        LogicPoint::TcpArbReplace => "session"@,
        LogicPoint::TcpSessionUp => "session"@,
        LogicPoint::TcpSessionDown => "session"@,
        LogicPoint::TcpPingFail => "session"@,
        LogicPoint::TcpReconcileDrop => "session"@,
        LogicPoint::TcpReadFail => "session"@,
        LogicPoint::TcpFrameBad => "session"@,
        LogicPoint::MsgSend => "messaging"@,
        LogicPoint::MsgSendFail => "messaging"@,
        LogicPoint::MsgRecv => "messaging"@,
        LogicPoint::MsgRecvDup => "messaging"@,
        LogicPoint::MsgRecvReject => "messaging"@,
        LogicPoint::MsgPersistFail => "messaging"@,
        LogicPoint::HistDelete => "history"@,
        LogicPoint::HistClearPeer => "history"@,
        LogicPoint::HistClearAll => "history"@,
        LogicPoint::HistDeleteFail => "history"@,
        LogicPoint::DbOpen => "database"@,
        LogicPoint::DbOpenFail => "database"@,
        LogicPoint::DbQueryFail => "database"@,
        LogicPoint::XferListen => "transfer"@,
        LogicPoint::XferListenFail => "transfer"@,
        LogicPoint::XferOfferOut => "transfer"@,
        LogicPoint::XferOfferIn => "transfer"@,
        LogicPoint::XferOfferReject => "transfer"@,
        LogicPoint::XferAccept => "transfer"@,
        LogicPoint::XferAcceptFail => "transfer"@,
        LogicPoint::XferReject => "transfer"@,
        LogicPoint::XferCancel => "transfer"@,
        LogicPoint::XferDataFail => "transfer"@,
        LogicPoint::XferComplete => "transfer"@,
        LogicPoint::XferInterrupt => "transfer"@,
        LogicPoint::XferAlign => "transfer"@,
        LogicPoint::XferReserve => "transfer"@,
        LogicPoint::XferFirstDataTimeout => "transfer"@,
        LogicPoint::XferResume => "transfer"@,
        LogicPoint::XferResumeFail => "transfer"@,
        LogicPoint::XferHydrate => "transfer"@,
    }
}

impl LogicPoint {
    pub fn code(self) -> (r: &'static str)
        ensures
            r@ == code_of(self),
    {
        match self {
            LogicPoint::AppStart => "APP-START",
            LogicPoint::AppStateReady => "APP-STATE-READY",
            LogicPoint::CfgLoad => "CFG-LOAD",
            LogicPoint::CfgLoadCorrupt => "CFG-LOAD-CORRUPT",
            LogicPoint::CfgLoadRepair => "CFG-LOAD-REPAIR",
            LogicPoint::CfgSave => "CFG-SAVE",
            LogicPoint::CfgSaveFail => "CFG-SAVE-FAIL",
            LogicPoint::CfgSetName => "CFG-SET-NAME",
            LogicPoint::CfgSetNameFail => "CFG-SET-NAME-FAIL",
            LogicPoint::DiscBind => "DISC-BIND",
            LogicPoint::DiscBindFail => "DISC-BIND-FAIL",
            LogicPoint::DiscAnnounce => "DISC-ANNOUNCE",
            LogicPoint::DiscAnnounceFail => "DISC-ANNOUNCE-FAIL",
            LogicPoint::DiscRecvFail => "DISC-RECV-FAIL",
            LogicPoint::DiscPeerSeen => "DISC-PEER-SEEN",
            LogicPoint::DiscPeerExpire => "DISC-PEER-EXPIRE",
            LogicPoint::DiscStop => "DISC-STOP",
            LogicPoint::TcpListen => "TCP-LISTEN",
            LogicPoint::TcpListenFail => "TCP-LISTEN-FAIL",
            LogicPoint::TcpAccept => "TCP-ACCEPT",
            LogicPoint::TcpAcceptFail => "TCP-ACCEPT-FAIL",
            LogicPoint::TcpDialStart => "TCP-DIAL-START",
            LogicPoint::TcpDialFail => "TCP-DIAL-FAIL",
            LogicPoint::TcpDialSpawnFail => "TCP-DIAL-SPAWN-FAIL",
            LogicPoint::TcpHelloFail => "TCP-HELLO-FAIL",
            LogicPoint::TcpHelloOk => "TCP-HELLO-OK",
            LogicPoint::TcpArbDrop => "TCP-ARB-DROP",
            LogicPoint::TcpArbReplace => "TCP-ARB-REPLACE",
            LogicPoint::TcpSessionUp => "TCP-SESSION-UP",
            LogicPoint::TcpSessionDown => "TCP-SESSION-DOWN",
            LogicPoint::TcpPingFail => "TCP-PING-FAIL",
            LogicPoint::TcpReconcileDrop => "TCP-RECONCILE-DROP",
            LogicPoint::TcpReadFail => "TCP-READ-FAIL",
            LogicPoint::TcpFrameBad => "TCP-FRAME-BAD",
            LogicPoint::MsgSend => "MSG-SEND",
            LogicPoint::MsgSendFail => "MSG-SEND-FAIL",
            LogicPoint::MsgRecv => "MSG-RECV",
            LogicPoint::MsgRecvDup => "MSG-RECV-DUP",
            LogicPoint::MsgRecvReject => "MSG-RECV-REJECT",
            LogicPoint::MsgPersistFail => "MSG-PERSIST-FAIL",
            LogicPoint::HistDelete => "HIST-DELETE",
            LogicPoint::HistClearPeer => "HIST-CLEAR-PEER",
            LogicPoint::HistClearAll => "HIST-CLEAR-ALL",
            LogicPoint::HistDeleteFail => "HIST-DELETE-FAIL",
            LogicPoint::DbOpen => "DB-OPEN",
            LogicPoint::DbOpenFail => "DB-OPEN-FAIL",
            LogicPoint::DbQueryFail => "DB-QUERY-FAIL",
            LogicPoint::XferListen => "XFER-LISTEN",
            LogicPoint::XferListenFail => "XFER-LISTEN-FAIL",
            LogicPoint::XferOfferOut => "XFER-OFFER-OUT",
            LogicPoint::XferOfferIn => "XFER-OFFER-IN",
            LogicPoint::XferOfferReject => "XFER-OFFER-REJECT",
            LogicPoint::XferAccept => "XFER-ACCEPT",
            LogicPoint::XferAcceptFail => "XFER-ACCEPT-FAIL",
            LogicPoint::XferReject => "XFER-REJECT",
            LogicPoint::XferCancel => "XFER-CANCEL",
            LogicPoint::XferDataFail => "XFER-DATA-FAIL",
            LogicPoint::XferComplete => "XFER-COMPLETE",
            LogicPoint::XferInterrupt => "XFER-INTERRUPT",
            LogicPoint::XferAlign => "XFER-ALIGN",
            LogicPoint::XferReserve => "XFER-RESERVE",
            LogicPoint::XferFirstDataTimeout => "XFER-FIRST-DATA-TIMEOUT",
            LogicPoint::XferResume => "XFER-RESUME",
            LogicPoint::XferResumeFail => "XFER-RESUME-FAIL",
            LogicPoint::XferHydrate => "XFER-HYDRATE",
        }
    }

    pub fn area(self) -> (r: &'static str)
        ensures
            r@ == area_of(self),
    {
        match self {
            LogicPoint::AppStart => "lifecycle",
            LogicPoint::AppStateReady => "lifecycle",
            LogicPoint::CfgLoad => "config",
            LogicPoint::CfgLoadCorrupt => "config",
            LogicPoint::CfgLoadRepair => "config",
            LogicPoint::CfgSave => "config",
            LogicPoint::CfgSaveFail => "config",
            LogicPoint::CfgSetName => "config",
            LogicPoint::CfgSetNameFail => "config",
            LogicPoint::DiscBind => "discovery",
            LogicPoint::DiscBindFail => "discovery",
            LogicPoint::DiscAnnounce => "discovery",
            LogicPoint::DiscAnnounceFail => "discovery",
            LogicPoint::DiscRecvFail => "discovery",
            LogicPoint::DiscPeerSeen => "discovery",
            LogicPoint::DiscPeerExpire => "discovery",
            LogicPoint::DiscStop => "discovery",
            LogicPoint::TcpListen => "session",
            LogicPoint::TcpListenFail => "session",
            LogicPoint::TcpAccept => "session",
            LogicPoint::TcpAcceptFail => "session",
            LogicPoint::TcpDialStart => "session",
            LogicPoint::TcpDialFail => "session",
            LogicPoint::TcpDialSpawnFail => "session",
            LogicPoint::TcpHelloFail => "session",
            LogicPoint::TcpHelloOk => "session",
            LogicPoint::TcpArbDrop => "session",
            LogicPoint::TcpArbReplace => "session",
            LogicPoint::TcpSessionUp => "session",
            LogicPoint::TcpSessionDown => "session",
            LogicPoint::TcpPingFail => "session",
            LogicPoint::TcpReconcileDrop => "session",
            LogicPoint::TcpReadFail => "session",
            LogicPoint::TcpFrameBad => "session",
            LogicPoint::MsgSend => "messaging",
            LogicPoint::MsgSendFail => "messaging",
            LogicPoint::MsgRecv => "messaging",
            LogicPoint::MsgRecvDup => "messaging",
            LogicPoint::MsgRecvReject => "messaging",
            LogicPoint::MsgPersistFail => "messaging",
            LogicPoint::HistDelete => "history",
            LogicPoint::HistClearPeer => "history",
            LogicPoint::HistClearAll => "history",
            LogicPoint::HistDeleteFail => "history",
            LogicPoint::DbOpen => "database",
            LogicPoint::DbOpenFail => "database",
            LogicPoint::DbQueryFail => "database",
            LogicPoint::XferListen => "transfer",
            LogicPoint::XferListenFail => "transfer",
            LogicPoint::XferOfferOut => "transfer",
            LogicPoint::XferOfferIn => "transfer",
            LogicPoint::XferOfferReject => "transfer",
            LogicPoint::XferAccept => "transfer",
            LogicPoint::XferAcceptFail => "transfer",
            LogicPoint::XferReject => "transfer",
            LogicPoint::XferCancel => "transfer",
            LogicPoint::XferDataFail => "transfer",
            LogicPoint::XferComplete => "transfer",
            LogicPoint::XferInterrupt => "transfer",
            LogicPoint::XferAlign => "transfer",
            LogicPoint::XferReserve => "transfer",
            LogicPoint::XferFirstDataTimeout => "transfer",
            LogicPoint::XferResume => "transfer",
            LogicPoint::XferResumeFail => "transfer",
            LogicPoint::XferHydrate => "transfer",
        }
    }
}



/// Severity of a diagnostics entry.
#[derive(Clone, Copy, PartialEq, Eq, Structural, Debug)]
pub enum DiagLevel {
    Info,
    Warn,
    Error,
}

pub open spec fn level_str(l: DiagLevel) -> Seq<char> {
    match l {
        DiagLevel::Info => "INFO"@,
        DiagLevel::Warn => "WARN"@,
        DiagLevel::Error => "ERROR"@,
    }
}

impl DiagLevel {
    pub fn as_str(self) -> (r: &'static str)
        ensures
            r@ == level_str(self),
    {
        match self {
            DiagLevel::Info => "INFO",
            DiagLevel::Warn => "WARN",
            DiagLevel::Error => "ERROR",
        }
    }

    /// Warn and Error entries are also pushed to the UI as live events.
    pub fn is_live(self) -> (r: bool)
        ensures
            r == (self == DiagLevel::Warn || self == DiagLevel::Error),
    {
        match self {
            DiagLevel::Info => false,
            _ => true,
        }
    }
}

/// One recorded diagnostics entry.
#[derive(Debug)]
pub struct DiagEntry {
    pub ts_ms: u64,
    pub code: String,
    pub area: String,
    pub level: DiagLevel,
    pub message: String,
}

impl DiagEntry {
    /// The entry recorded for `point` at `ts_ms`.
    pub fn new(ts_ms: u64, point: LogicPoint, level: DiagLevel, message: String) -> (e: Self)
        ensures
            e.ts_ms == ts_ms,
            e.code@ == code_of(point),
            e.area@ == area_of(point),
            e.level == level,
            e.message == message,
    {
        DiagEntry {
            ts_ms,
            code: String::from_str(point.code()),
            area: String::from_str(point.area()),
            level,
            message,
        }
    }

    /// A field-by-field copy.
    pub fn duplicate(&self) -> (e: Self)
        ensures
            e == *self,
    {
        DiagEntry {
            ts_ms: self.ts_ms,
            code: self.code.clone(),
            area: self.area.clone(),
            level: self.level,
            message: self.message.clone(),
        }
    }
}

/// The console line for an entry: `[JC][<CODE>][<LEVEL>] <message>`.
pub open spec fn console_line_spec(p: LogicPoint, l: DiagLevel, msg: Seq<char>) -> Seq<char> {
    "[JC]["@ + code_of(p) + "]["@ + level_str(l) + "] "@ + msg
}

pub fn console_line(point: LogicPoint, level: DiagLevel, message: &str) -> (r: String)
    ensures
        r@ == console_line_spec(point, level, message@),
{
    let mut s = String::from_str("[JC][");
    s.append(point.code());
    s.append("][");
    s.append(level.as_str());
    s.append("] ");
    s.append(message);
    s
}

/// The log after `e` is pushed onto `s`: the oldest entry is dropped when full.
pub open spec fn pushed(s: Seq<DiagEntry>, e: DiagEntry) -> Seq<DiagEntry> {
    if s.len() >= MAX_ENTRIES {
        s.drop_first().push(e)
    } else {
        s.push(e)
    }
}

/// The newest `max(limit, 1)` entries of `s`, newest first.
pub open spec fn newest_first(s: Seq<DiagEntry>, limit: nat) -> Seq<DiagEntry> {
    let k = if limit == 0 { 1nat } else { limit };
    let n = if k < s.len() { k } else { s.len() };
    Seq::new(n, |i: int| s[s.len() - 1 - i])
}

/// In-memory ring buffer of the most recent entries, oldest first.
pub struct DiagnosticsLog {
    entries: Vec<DiagEntry>,
}

impl View for DiagnosticsLog {
    type V = Seq<DiagEntry>;

    closed spec fn view(&self) -> Seq<DiagEntry> {
        self.entries@
    }
}

impl DiagnosticsLog {
    /// Never more than `MAX_ENTRIES` entries.
    pub closed spec fn wf(&self) -> bool {
        self.entries@.len() <= MAX_ENTRIES
    }

    pub fn new() -> (log: Self)
        ensures
            log.wf(),
            log@ == Seq::<DiagEntry>::empty(),
    {
        DiagnosticsLog { entries: Vec::new() }
    }

    pub fn push(&mut self, entry: DiagEntry)
        requires
            old(self).wf(),
        ensures
            final(self).wf(),
            final(self)@ == pushed(old(self)@, entry),
    {
        if self.entries.len() >= MAX_ENTRIES {
            self.entries.remove(0);
        }
        self.entries.push(entry);
        proof {
            if old(self)@.len() >= MAX_ENTRIES {
                assert(self@ =~= old(self)@.drop_first().push(entry));
            }
        }
    }

    pub fn list_newest_first(&self, limit: usize) -> (r: Vec<DiagEntry>)
        requires
            self.wf(),
        ensures
            r@ == newest_first(self@, limit as nat),
    {
        let k = if limit == 0 { 1 } else { limit };
        let n = self.entries.len();
        let m = if k < n { k } else { n };
        let mut r: Vec<DiagEntry> = Vec::new();
        let mut i: usize = 0;
        while i < m
            invariant
                m <= n,
                n == self.entries@.len(),
                i <= m,
                r@.len() == i,
                forall|j: int| 0 <= j < i ==> r@[j] == self.entries@[n - 1 - j],
            decreases m - i,
        {
            r.push(self.entries[n - 1 - i].duplicate());
            i = i + 1;
        }
        assert(r@ =~= newest_first(self@, limit as nat));
        r
    }

    pub fn len(&self) -> (n: usize)
        ensures
            n == self@.len(),
    {
        self.entries.len()
    }

    pub fn clear(&mut self)
        ensures
            final(self).wf(),
            final(self)@ == Seq::<DiagEntry>::empty(),
    {
        self.entries.clear();
    }
}

/// Law: whatever the log held, the entry just pushed is the first that
/// `list_newest_first` returns, and the log stays within its cap.
pub proof fn lemma_push_newest(s: Seq<DiagEntry>, e: DiagEntry, limit: nat)
    requires
        s.len() <= MAX_ENTRIES,
    ensures
        pushed(s, e).len() <= MAX_ENTRIES,
        newest_first(pushed(s, e), limit).len() >= 1,
        newest_first(pushed(s, e), limit)[0] == e,
{
}

/// Law: once the log is full, pushing keeps it exactly full, dropping the oldest.
pub proof fn lemma_full_log_stays_full(s: Seq<DiagEntry>, e: DiagEntry)
    requires
        s.len() == MAX_ENTRIES,
    ensures
        pushed(s, e).len() == MAX_ENTRIES,
        pushed(s, e) == s.subrange(1, s.len() as int).push(e),
{
    assert(s.drop_first() =~= s.subrange(1, s.len() as int));
}

/// A short fingerprint of a code: its length and its seventh and eighth
/// characters (a space where the code is shorter). The catalogue is laid
/// out so that no two codes share a fingerprint.
spec fn code_fingerprint(s: Seq<char>) -> (nat, char, char) {
    (s.len(), if s.len() > 6 { s[6] } else { ' ' }, if s.len() > 7 { s[7] } else { ' ' })
}

/// The logic node that a fingerprint belongs to, if any.
spec fn point_of_fingerprint(k: (nat, char, char)) -> Option<LogicPoint> {
    if k == (9nat, 'A', 'R') {
        Some(LogicPoint::AppStart)
    } else if k == (15nat, 'A', 'T') {
        Some(LogicPoint::AppStateReady)
    } else if k == (8nat, 'A', 'D') {
        Some(LogicPoint::CfgLoad)
    } else if k == (16nat, 'A', 'D') {
        Some(LogicPoint::CfgLoadCorrupt)
    } else if k == (15nat, 'A', 'D') {
        Some(LogicPoint::CfgLoadRepair)
    } else if k == (8nat, 'V', 'E') {
        Some(LogicPoint::CfgSave)
    } else if k == (13nat, 'V', 'E') {
        Some(LogicPoint::CfgSaveFail)
    } else if k == (12nat, 'T', '-') {
        Some(LogicPoint::CfgSetName)
    } else if k == (17nat, 'T', '-') {
        Some(LogicPoint::CfgSetNameFail)
    } else if k == (9nat, 'I', 'N') {
        Some(LogicPoint::DiscBind)
    } else if k == (14nat, 'I', 'N') {
        Some(LogicPoint::DiscBindFail)
    } else if k == (13nat, 'N', 'N') {
        Some(LogicPoint::DiscAnnounce)
    } else if k == (18nat, 'N', 'N') {
        Some(LogicPoint::DiscAnnounceFail)
    } else if k == (14nat, 'E', 'C') {
        Some(LogicPoint::DiscRecvFail)
    } else if k == (14nat, 'E', 'E') {
        Some(LogicPoint::DiscPeerSeen)
    } else if k == (16nat, 'E', 'E') {
        Some(LogicPoint::DiscPeerExpire)
    } else if k == (9nat, 'T', 'O') {
        Some(LogicPoint::DiscStop)
    } else if k == (10nat, 'S', 'T') {
        Some(LogicPoint::TcpListen)
    } else if k == (15nat, 'S', 'T') {
        Some(LogicPoint::TcpListenFail)
    } else if k == (10nat, 'C', 'E') {
        Some(LogicPoint::TcpAccept)
    } else if k == (15nat, 'C', 'E') {
        Some(LogicPoint::TcpAcceptFail)
    } else if k == (14nat, 'A', 'L') {
        Some(LogicPoint::TcpDialStart)
    } else if k == (13nat, 'A', 'L') {
        Some(LogicPoint::TcpDialFail)
    } else if k == (19nat, 'A', 'L') {
        Some(LogicPoint::TcpDialSpawnFail)
    } else if k == (14nat, 'L', 'L') {
        Some(LogicPoint::TcpHelloFail)
    } else if k == (12nat, 'L', 'L') {
        Some(LogicPoint::TcpHelloOk)
    } else if k == (12nat, 'B', '-') {
        Some(LogicPoint::TcpArbDrop)
    } else if k == (15nat, 'B', '-') {
        Some(LogicPoint::TcpArbReplace)
    } else if k == (14nat, 'S', 'S') {
        Some(LogicPoint::TcpSessionUp)
    } else if k == (16nat, 'S', 'S') {
        Some(LogicPoint::TcpSessionDown)
    } else if k == (13nat, 'N', 'G') {
        Some(LogicPoint::TcpPingFail)
    } else if k == (18nat, 'C', 'O') {
        Some(LogicPoint::TcpReconcileDrop)
    } else if k == (13nat, 'A', 'D') {
        Some(LogicPoint::TcpReadFail)
    } else if k == (13nat, 'A', 'M') {
        Some(LogicPoint::TcpFrameBad)
    } else if k == (8nat, 'N', 'D') {
        Some(LogicPoint::MsgSend)
    } else if k == (13nat, 'N', 'D') {
        Some(LogicPoint::MsgSendFail)
    } else if k == (8nat, 'C', 'V') {
        Some(LogicPoint::MsgRecv)
    } else if k == (12nat, 'C', 'V') {
        Some(LogicPoint::MsgRecvDup)
    } else if k == (15nat, 'C', 'V') {
        Some(LogicPoint::MsgRecvReject)
    } else if k == (16nat, 'R', 'S') {
        Some(LogicPoint::MsgPersistFail)
    } else if k == (11nat, 'E', 'L') {
        Some(LogicPoint::HistDelete)
    } else if k == (15nat, 'L', 'E') {
        Some(LogicPoint::HistClearPeer)
    } else if k == (14nat, 'L', 'E') {
        Some(LogicPoint::HistClearAll)
    } else if k == (16nat, 'E', 'L') {
        Some(LogicPoint::HistDeleteFail)
    } else if k == (7nat, 'N', ' ') {
        Some(LogicPoint::DbOpen)
    } else if k == (12nat, 'N', '-') {
        Some(LogicPoint::DbOpenFail)
    } else if k == (13nat, 'R', 'Y') {
        Some(LogicPoint::DbQueryFail)
    } else if k == (11nat, 'I', 'S') {
        Some(LogicPoint::XferListen)
    } else if k == (16nat, 'I', 'S') {
        Some(LogicPoint::XferListenFail)
    } else if k == (14nat, 'F', 'F') {
        Some(LogicPoint::XferOfferOut)
    } else if k == (13nat, 'F', 'F') {
        Some(LogicPoint::XferOfferIn)
    } else if k == (17nat, 'F', 'F') {
        Some(LogicPoint::XferOfferReject)
    } else if k == (11nat, 'C', 'C') {
        Some(LogicPoint::XferAccept)
    } else if k == (16nat, 'C', 'C') {
        Some(LogicPoint::XferAcceptFail)
    } else if k == (11nat, 'E', 'J') {
        Some(LogicPoint::XferReject)
    } else if k == (11nat, 'A', 'N') {
        Some(LogicPoint::XferCancel)
    } else if k == (14nat, 'A', 'T') {
        Some(LogicPoint::XferDataFail)
    } else if k == (13nat, 'O', 'M') {
        Some(LogicPoint::XferComplete)
    } else if k == (14nat, 'N', 'T') {
        Some(LogicPoint::XferInterrupt)
    } else if k == (10nat, 'L', 'I') {
        Some(LogicPoint::XferAlign)
    } else if k == (12nat, 'E', 'S') {
        Some(LogicPoint::XferReserve)
    } else if k == (23nat, 'I', 'R') {
        Some(LogicPoint::XferFirstDataTimeout)
    } else if k == (11nat, 'E', 'S') {
        Some(LogicPoint::XferResume)
    } else if k == (16nat, 'E', 'S') {
        Some(LogicPoint::XferResumeFail)
    } else if k == (12nat, 'Y', 'D') {
        Some(LogicPoint::XferHydrate)
    } else {
        None
    }
}

/// Reading the fingerprint of a node's code gives the node back.
proof fn lemma_fingerprint_names_point(p: LogicPoint)
    ensures
        point_of_fingerprint(code_fingerprint(code_of(p))) == Some(p),
{
    match p {
        LogicPoint::AppStart => reveal_strlit("APP-START"),
        LogicPoint::AppStateReady => reveal_strlit("APP-STATE-READY"),
        LogicPoint::CfgLoad => reveal_strlit("CFG-LOAD"),
        LogicPoint::CfgLoadCorrupt => reveal_strlit("CFG-LOAD-CORRUPT"),
        LogicPoint::CfgLoadRepair => reveal_strlit("CFG-LOAD-REPAIR"),
        LogicPoint::CfgSave => reveal_strlit("CFG-SAVE"),
        LogicPoint::CfgSaveFail => reveal_strlit("CFG-SAVE-FAIL"),
        LogicPoint::CfgSetName => reveal_strlit("CFG-SET-NAME"),
        LogicPoint::CfgSetNameFail => reveal_strlit("CFG-SET-NAME-FAIL"),
        LogicPoint::DiscBind => reveal_strlit("DISC-BIND"),
        LogicPoint::DiscBindFail => reveal_strlit("DISC-BIND-FAIL"),
        LogicPoint::DiscAnnounce => reveal_strlit("DISC-ANNOUNCE"),
        LogicPoint::DiscAnnounceFail => reveal_strlit("DISC-ANNOUNCE-FAIL"),
        LogicPoint::DiscRecvFail => reveal_strlit("DISC-RECV-FAIL"),
        LogicPoint::DiscPeerSeen => reveal_strlit("DISC-PEER-SEEN"),
        LogicPoint::DiscPeerExpire => reveal_strlit("DISC-PEER-EXPIRE"),
        LogicPoint::DiscStop => reveal_strlit("DISC-STOP"),
        LogicPoint::TcpListen => reveal_strlit("TCP-LISTEN"),
        LogicPoint::TcpListenFail => reveal_strlit("TCP-LISTEN-FAIL"),
        LogicPoint::TcpAccept => reveal_strlit("TCP-ACCEPT"),
        LogicPoint::TcpAcceptFail => reveal_strlit("TCP-ACCEPT-FAIL"),
        LogicPoint::TcpDialStart => reveal_strlit("TCP-DIAL-START"),
        LogicPoint::TcpDialFail => reveal_strlit("TCP-DIAL-FAIL"),
        LogicPoint::TcpDialSpawnFail => reveal_strlit("TCP-DIAL-SPAWN-FAIL"),
        LogicPoint::TcpHelloFail => reveal_strlit("TCP-HELLO-FAIL"),
        LogicPoint::TcpHelloOk => reveal_strlit("TCP-HELLO-OK"),
        LogicPoint::TcpArbDrop => reveal_strlit("TCP-ARB-DROP"),
        LogicPoint::TcpArbReplace => reveal_strlit("TCP-ARB-REPLACE"),
        LogicPoint::TcpSessionUp => reveal_strlit("TCP-SESSION-UP"),
        LogicPoint::TcpSessionDown => reveal_strlit("TCP-SESSION-DOWN"),
        LogicPoint::TcpPingFail => reveal_strlit("TCP-PING-FAIL"),
        LogicPoint::TcpReconcileDrop => reveal_strlit("TCP-RECONCILE-DROP"),
        LogicPoint::TcpReadFail => reveal_strlit("TCP-READ-FAIL"),
        LogicPoint::TcpFrameBad => reveal_strlit("TCP-FRAME-BAD"),
        LogicPoint::MsgSend => reveal_strlit("MSG-SEND"),
        LogicPoint::MsgSendFail => reveal_strlit("MSG-SEND-FAIL"),
        LogicPoint::MsgRecv => reveal_strlit("MSG-RECV"),
        LogicPoint::MsgRecvDup => reveal_strlit("MSG-RECV-DUP"),
        LogicPoint::MsgRecvReject => reveal_strlit("MSG-RECV-REJECT"),
        LogicPoint::MsgPersistFail => reveal_strlit("MSG-PERSIST-FAIL"),
        LogicPoint::HistDelete => reveal_strlit("HIST-DELETE"),
        LogicPoint::HistClearPeer => reveal_strlit("HIST-CLEAR-PEER"),
        LogicPoint::HistClearAll => reveal_strlit("HIST-CLEAR-ALL"),
        LogicPoint::HistDeleteFail => reveal_strlit("HIST-DELETE-FAIL"),
        LogicPoint::DbOpen => reveal_strlit("DB-OPEN"),
        LogicPoint::DbOpenFail => reveal_strlit("DB-OPEN-FAIL"),
        LogicPoint::DbQueryFail => reveal_strlit("DB-QUERY-FAIL"),
        LogicPoint::XferListen => reveal_strlit("XFER-LISTEN"),
        LogicPoint::XferListenFail => reveal_strlit("XFER-LISTEN-FAIL"),
        LogicPoint::XferOfferOut => reveal_strlit("XFER-OFFER-OUT"),
        LogicPoint::XferOfferIn => reveal_strlit("XFER-OFFER-IN"),
        LogicPoint::XferOfferReject => reveal_strlit("XFER-OFFER-REJECT"),
        LogicPoint::XferAccept => reveal_strlit("XFER-ACCEPT"),
        LogicPoint::XferAcceptFail => reveal_strlit("XFER-ACCEPT-FAIL"),
        LogicPoint::XferReject => reveal_strlit("XFER-REJECT"),
        LogicPoint::XferCancel => reveal_strlit("XFER-CANCEL"),
        LogicPoint::XferDataFail => reveal_strlit("XFER-DATA-FAIL"),
        LogicPoint::XferComplete => reveal_strlit("XFER-COMPLETE"),
        LogicPoint::XferInterrupt => reveal_strlit("XFER-INTERRUPT"),
        LogicPoint::XferAlign => reveal_strlit("XFER-ALIGN"),
        LogicPoint::XferReserve => reveal_strlit("XFER-RESERVE"),
        LogicPoint::XferFirstDataTimeout => reveal_strlit("XFER-FIRST-DATA-TIMEOUT"),
        LogicPoint::XferResume => reveal_strlit("XFER-RESUME"),
        LogicPoint::XferResumeFail => reveal_strlit("XFER-RESUME-FAIL"),
        LogicPoint::XferHydrate => reveal_strlit("XFER-HYDRATE"),
    }
}

/// A code's character: an upper-case ASCII letter.
pub open spec fn is_code_letter(c: char) -> bool {
    'A' <= c && c <= 'Z'
}

/// The shape of a code: upper-case words joined by single hyphens.
pub open spec fn code_shaped(s: Seq<char>) -> bool {
    &&& s.len() > 0
    &&& is_code_letter(s[0])
    &&& is_code_letter(s[s.len() - 1])
    &&& forall|i: int| 0 <= i < s.len() ==> is_code_letter(#[trigger] s[i]) || s[i] == '-'
    &&& forall|i: int| 0 <= i < s.len() - 1 && #[trigger] s[i] == '-' ==> s[i + 1] != '-'
}

/// `s` begins with `p`.
pub open spec fn starts_with(s: Seq<char>, p: Seq<char>) -> bool {
    p.len() <= s.len() && s.take(p.len() as int) == p
}

/// The area a code's prefix names, as the code catalogue groups them.
pub open spec fn area_for_code(c: Seq<char>) -> Seq<char> {
    if starts_with(c, "APP-"@) {
        "lifecycle"@
    } else if starts_with(c, "CFG-"@) {
        "config"@
    } else if starts_with(c, "DISC-"@) {
        "discovery"@
    } else if starts_with(c, "TCP-"@) {
        "session"@
    } else if starts_with(c, "MSG-"@) {
        "messaging"@
    } else if starts_with(c, "HIST-"@) {
        "history"@
    } else if starts_with(c, "DB-"@) {
        "database"@
    } else if starts_with(c, "XFER-"@) {
        "transfer"@
    } else {
        "unknown"@
    }
}

/// Law: every code is upper-case words joined by single hyphens.
pub proof fn lemma_code_shape(p: LogicPoint)
    ensures
        code_shaped(code_of(p)),
{
    match p {
        LogicPoint::AppStart => reveal_strlit("APP-START"),
        LogicPoint::AppStateReady => reveal_strlit("APP-STATE-READY"),
        LogicPoint::CfgLoad => reveal_strlit("CFG-LOAD"),
        LogicPoint::CfgLoadCorrupt => reveal_strlit("CFG-LOAD-CORRUPT"),
        LogicPoint::CfgLoadRepair => reveal_strlit("CFG-LOAD-REPAIR"),
        LogicPoint::CfgSave => reveal_strlit("CFG-SAVE"),
        LogicPoint::CfgSaveFail => reveal_strlit("CFG-SAVE-FAIL"),
        LogicPoint::CfgSetName => reveal_strlit("CFG-SET-NAME"),
        LogicPoint::CfgSetNameFail => reveal_strlit("CFG-SET-NAME-FAIL"),
        LogicPoint::DiscBind => reveal_strlit("DISC-BIND"),
        LogicPoint::DiscBindFail => reveal_strlit("DISC-BIND-FAIL"),
        LogicPoint::DiscAnnounce => reveal_strlit("DISC-ANNOUNCE"),
        LogicPoint::DiscAnnounceFail => reveal_strlit("DISC-ANNOUNCE-FAIL"),
        LogicPoint::DiscRecvFail => reveal_strlit("DISC-RECV-FAIL"),
        LogicPoint::DiscPeerSeen => reveal_strlit("DISC-PEER-SEEN"),
        LogicPoint::DiscPeerExpire => reveal_strlit("DISC-PEER-EXPIRE"),
        LogicPoint::DiscStop => reveal_strlit("DISC-STOP"),
        LogicPoint::TcpListen => reveal_strlit("TCP-LISTEN"),
        LogicPoint::TcpListenFail => reveal_strlit("TCP-LISTEN-FAIL"),
        LogicPoint::TcpAccept => reveal_strlit("TCP-ACCEPT"),
        LogicPoint::TcpAcceptFail => reveal_strlit("TCP-ACCEPT-FAIL"),
        LogicPoint::TcpDialStart => reveal_strlit("TCP-DIAL-START"),
        LogicPoint::TcpDialFail => reveal_strlit("TCP-DIAL-FAIL"),
        LogicPoint::TcpDialSpawnFail => reveal_strlit("TCP-DIAL-SPAWN-FAIL"),
        LogicPoint::TcpHelloFail => reveal_strlit("TCP-HELLO-FAIL"),
        LogicPoint::TcpHelloOk => reveal_strlit("TCP-HELLO-OK"),
        LogicPoint::TcpArbDrop => reveal_strlit("TCP-ARB-DROP"),
        LogicPoint::TcpArbReplace => reveal_strlit("TCP-ARB-REPLACE"),
        LogicPoint::TcpSessionUp => reveal_strlit("TCP-SESSION-UP"),
        LogicPoint::TcpSessionDown => reveal_strlit("TCP-SESSION-DOWN"),
        LogicPoint::TcpPingFail => reveal_strlit("TCP-PING-FAIL"),
        LogicPoint::TcpReconcileDrop => reveal_strlit("TCP-RECONCILE-DROP"),
        LogicPoint::TcpReadFail => reveal_strlit("TCP-READ-FAIL"),
        LogicPoint::TcpFrameBad => reveal_strlit("TCP-FRAME-BAD"),
        LogicPoint::MsgSend => reveal_strlit("MSG-SEND"),
        LogicPoint::MsgSendFail => reveal_strlit("MSG-SEND-FAIL"),
        LogicPoint::MsgRecv => reveal_strlit("MSG-RECV"),
        LogicPoint::MsgRecvDup => reveal_strlit("MSG-RECV-DUP"),
        LogicPoint::MsgRecvReject => reveal_strlit("MSG-RECV-REJECT"),
        LogicPoint::MsgPersistFail => reveal_strlit("MSG-PERSIST-FAIL"),
        LogicPoint::HistDelete => reveal_strlit("HIST-DELETE"),
        LogicPoint::HistClearPeer => reveal_strlit("HIST-CLEAR-PEER"),
        LogicPoint::HistClearAll => reveal_strlit("HIST-CLEAR-ALL"),
        LogicPoint::HistDeleteFail => reveal_strlit("HIST-DELETE-FAIL"),
        LogicPoint::DbOpen => reveal_strlit("DB-OPEN"),
        LogicPoint::DbOpenFail => reveal_strlit("DB-OPEN-FAIL"),
        LogicPoint::DbQueryFail => reveal_strlit("DB-QUERY-FAIL"),
        LogicPoint::XferListen => reveal_strlit("XFER-LISTEN"),
        LogicPoint::XferListenFail => reveal_strlit("XFER-LISTEN-FAIL"),
        LogicPoint::XferOfferOut => reveal_strlit("XFER-OFFER-OUT"),
        LogicPoint::XferOfferIn => reveal_strlit("XFER-OFFER-IN"),
        LogicPoint::XferOfferReject => reveal_strlit("XFER-OFFER-REJECT"),
        LogicPoint::XferAccept => reveal_strlit("XFER-ACCEPT"),
        LogicPoint::XferAcceptFail => reveal_strlit("XFER-ACCEPT-FAIL"),
        LogicPoint::XferReject => reveal_strlit("XFER-REJECT"),
        LogicPoint::XferCancel => reveal_strlit("XFER-CANCEL"),
        LogicPoint::XferDataFail => reveal_strlit("XFER-DATA-FAIL"),
        LogicPoint::XferComplete => reveal_strlit("XFER-COMPLETE"),
        LogicPoint::XferInterrupt => reveal_strlit("XFER-INTERRUPT"),
        LogicPoint::XferAlign => reveal_strlit("XFER-ALIGN"),
        LogicPoint::XferReserve => reveal_strlit("XFER-RESERVE"),
        LogicPoint::XferFirstDataTimeout => reveal_strlit("XFER-FIRST-DATA-TIMEOUT"),
        LogicPoint::XferResume => reveal_strlit("XFER-RESUME"),
        LogicPoint::XferResumeFail => reveal_strlit("XFER-RESUME-FAIL"),
        LogicPoint::XferHydrate => reveal_strlit("XFER-HYDRATE"),
    }
}

/// Law: a node's area is the one its code's prefix names.
pub proof fn lemma_area_follows_code(p: LogicPoint)
    ensures
        area_of(p) == area_for_code(code_of(p)),
{
    reveal_strlit("APP-");
    reveal_strlit("CFG-");
    reveal_strlit("DISC-");
    reveal_strlit("TCP-");
    reveal_strlit("MSG-");
    reveal_strlit("HIST-");
    reveal_strlit("DB-");
    reveal_strlit("XFER-");
    let c = code_of(p);
    match p {
        LogicPoint::AppStart => {
            reveal_strlit("APP-START");
            assert(c.take(4) =~= "APP-"@);
        },
        LogicPoint::AppStateReady => {
            reveal_strlit("APP-STATE-READY");
            assert(c.take(4) =~= "APP-"@);
        },
        LogicPoint::CfgLoad => {
            reveal_strlit("CFG-LOAD");
            assert(!starts_with(c, "APP-"@)) by {
                if starts_with(c, "APP-"@) {
                    assert(c.take(4)[0] == c[0]);
                }
            }
            assert(c.take(4) =~= "CFG-"@);
        },
        LogicPoint::CfgLoadCorrupt => {
            reveal_strlit("CFG-LOAD-CORRUPT");
            assert(!starts_with(c, "APP-"@)) by {
                if starts_with(c, "APP-"@) {
                    assert(c.take(4)[0] == c[0]);
                }
            }
            assert(c.take(4) =~= "CFG-"@);
        },
        LogicPoint::CfgLoadRepair => {
            reveal_strlit("CFG-LOAD-REPAIR");
            assert(!starts_with(c, "APP-"@)) by {
                if starts_with(c, "APP-"@) {
                    assert(c.take(4)[0] == c[0]);
                }
            }
            assert(c.take(4) =~= "CFG-"@);
        },
        LogicPoint::CfgSave => {
            reveal_strlit("CFG-SAVE");
            assert(!starts_with(c, "APP-"@)) by {
                if starts_with(c, "APP-"@) {
                    assert(c.take(4)[0] == c[0]);
                }
            }
            assert(c.take(4) =~= "CFG-"@);
        },
        LogicPoint::CfgSaveFail => {
            reveal_strlit("CFG-SAVE-FAIL");
            assert(!starts_with(c, "APP-"@)) by {
                if starts_with(c, "APP-"@) {
                    assert(c.take(4)[0] == c[0]);
                }
            }
            assert(c.take(4) =~= "CFG-"@);
        },
        LogicPoint::CfgSetName => {
            reveal_strlit("CFG-SET-NAME");
            assert(!starts_with(c, "APP-"@)) by {
                if starts_with(c, "APP-"@) {
                    assert(c.take(4)[0] == c[0]);
                }
            }
            assert(c.take(4) =~= "CFG-"@);
        },
        LogicPoint::CfgSetNameFail => {
            reveal_strlit("CFG-SET-NAME-FAIL");
            assert(!starts_with(c, "APP-"@)) by {
                if starts_with(c, "APP-"@) {
                    assert(c.take(4)[0] == c[0]);
                }
            }
            assert(c.take(4) =~= "CFG-"@);
        },
        LogicPoint::DiscBind => {
            reveal_strlit("DISC-BIND");
            assert(!starts_with(c, "APP-"@)) by {
                if starts_with(c, "APP-"@) {
                    assert(c.take(4)[0] == c[0]);
                }
            }
            assert(!starts_with(c, "CFG-"@)) by {
                if starts_with(c, "CFG-"@) {
                    assert(c.take(4)[0] == c[0]);
                }
            }
            assert(c.take(5) =~= "DISC-"@);
        },
        LogicPoint::DiscBindFail => {
            reveal_strlit("DISC-BIND-FAIL");
            assert(!starts_with(c, "APP-"@)) by {
                if starts_with(c, "APP-"@) {
                    assert(c.take(4)[0] == c[0]);
                }
            }
            assert(!starts_with(c, "CFG-"@)) by {
                if starts_with(c, "CFG-"@) {
                    assert(c.take(4)[0] == c[0]);
                }
            }
            assert(c.take(5) =~= "DISC-"@);
        },
        LogicPoint::DiscAnnounce => {
            reveal_strlit("DISC-ANNOUNCE");
            assert(!starts_with(c, "APP-"@)) by {
                if starts_with(c, "APP-"@) {
                    assert(c.take(4)[0] == c[0]);
                }
            }
            assert(!starts_with(c, "CFG-"@)) by {
                if starts_with(c, "CFG-"@) {
                    assert(c.take(4)[0] == c[0]);
                }
            }
            assert(c.take(5) =~= "DISC-"@);
        },
        LogicPoint::DiscAnnounceFail => {
            reveal_strlit("DISC-ANNOUNCE-FAIL");
            assert(!starts_with(c, "APP-"@)) by {
                if starts_with(c, "APP-"@) {
                    assert(c.take(4)[0] == c[0]);
                }
            }
            assert(!starts_with(c, "CFG-"@)) by {
                if starts_with(c, "CFG-"@) {
                    assert(c.take(4)[0] == c[0]);
                }
            }
            assert(c.take(5) =~= "DISC-"@);
        },
        LogicPoint::DiscRecvFail => {
            reveal_strlit("DISC-RECV-FAIL");
            assert(!starts_with(c, "APP-"@)) by {
                if starts_with(c, "APP-"@) {
                    assert(c.take(4)[0] == c[0]);
                }
            }
            assert(!starts_with(c, "CFG-"@)) by {
                if starts_with(c, "CFG-"@) {
                    assert(c.take(4)[0] == c[0]);
                }
            }
            assert(c.take(5) =~= "DISC-"@);
        },
        LogicPoint::DiscPeerSeen => {
            reveal_strlit("DISC-PEER-SEEN");
            assert(!starts_with(c, "APP-"@)) by {
                if starts_with(c, "APP-"@) {
                    assert(c.take(4)[0] == c[0]);
                }
            }
            assert(!starts_with(c, "CFG-"@)) by {
                if starts_with(c, "CFG-"@) {
                    assert(c.take(4)[0] == c[0]);
                }
            }
            assert(c.take(5) =~= "DISC-"@);
        },
        LogicPoint::DiscPeerExpire => {
            reveal_strlit("DISC-PEER-EXPIRE");
            assert(!starts_with(c, "APP-"@)) by {
                if starts_with(c, "APP-"@) {
                    assert(c.take(4)[0] == c[0]);
                }
            }
            assert(!starts_with(c, "CFG-"@)) by {
                if starts_with(c, "CFG-"@) {
                    assert(c.take(4)[0] == c[0]);
                }
            }
            assert(c.take(5) =~= "DISC-"@);
        },
        LogicPoint::DiscStop => {
            reveal_strlit("DISC-STOP");
            assert(!starts_with(c, "APP-"@)) by {
                if starts_with(c, "APP-"@) {
                    assert(c.take(4)[0] == c[0]);
                }
            }
            assert(!starts_with(c, "CFG-"@)) by {
                if starts_with(c, "CFG-"@) {
                    assert(c.take(4)[0] == c[0]);
                }
            }
            assert(c.take(5) =~= "DISC-"@);
        },
        LogicPoint::TcpListen => {
            reveal_strlit("TCP-LISTEN");
            assert(!starts_with(c, "APP-"@)) by {
                if starts_with(c, "APP-"@) {
                    assert(c.take(4)[0] == c[0]);
                }
            }
            assert(!starts_with(c, "CFG-"@)) by {
                if starts_with(c, "CFG-"@) {
                    assert(c.take(4)[0] == c[0]);
                }
            }
            assert(!starts_with(c, "DISC-"@)) by {
                if starts_with(c, "DISC-"@) {
                    assert(c.take(5)[0] == c[0]);
                }
            }
            assert(c.take(4) =~= "TCP-"@);
        },
        LogicPoint::TcpListenFail => {
            reveal_strlit("TCP-LISTEN-FAIL");
            assert(!starts_with(c, "APP-"@)) by {
                if starts_with(c, "APP-"@) {
                    assert(c.take(4)[0] == c[0]);
                }
            }
            assert(!starts_with(c, "CFG-"@)) by {
                if starts_with(c, "CFG-"@) {
                    assert(c.take(4)[0] == c[0]);
                }
            }
            assert(!starts_with(c, "DISC-"@)) by {
                if starts_with(c, "DISC-"@) {
                    assert(c.take(5)[0] == c[0]);
                }
            }
            assert(c.take(4) =~= "TCP-"@);
        },
        LogicPoint::TcpAccept => {
            reveal_strlit("TCP-ACCEPT");
            assert(!starts_with(c, "APP-"@)) by {
                if starts_with(c, "APP-"@) {
                    assert(c.take(4)[0] == c[0]);
                }
            }
            assert(!starts_with(c, "CFG-"@)) by {
                if starts_with(c, "CFG-"@) {
                    assert(c.take(4)[0] == c[0]);
                }
            }
            assert(!starts_with(c, "DISC-"@)) by {
                if starts_with(c, "DISC-"@) {
                    assert(c.take(5)[0] == c[0]);
                }
            }
            assert(c.take(4) =~= "TCP-"@);
        },
        LogicPoint::TcpAcceptFail => {
            reveal_strlit("TCP-ACCEPT-FAIL");
            assert(!starts_with(c, "APP-"@)) by {
                if starts_with(c, "APP-"@) {
                    assert(c.take(4)[0] == c[0]);
                }
            }
            assert(!starts_with(c, "CFG-"@)) by {
                if starts_with(c, "CFG-"@) {
                    assert(c.take(4)[0] == c[0]);
                }
            }
            assert(!starts_with(c, "DISC-"@)) by {
                if starts_with(c, "DISC-"@) {
                    assert(c.take(5)[0] == c[0]);
                }
            }
            assert(c.take(4) =~= "TCP-"@);
        },
        LogicPoint::TcpDialStart => {
            reveal_strlit("TCP-DIAL-START");
            assert(!starts_with(c, "APP-"@)) by {
                if starts_with(c, "APP-"@) {
                    assert(c.take(4)[0] == c[0]);
                }
            }
            assert(!starts_with(c, "CFG-"@)) by {
                if starts_with(c, "CFG-"@) {
                    assert(c.take(4)[0] == c[0]);
                }
            }
            assert(!starts_with(c, "DISC-"@)) by {
                if starts_with(c, "DISC-"@) {
                    assert(c.take(5)[0] == c[0]);
                }
            }
            assert(c.take(4) =~= "TCP-"@);
        },
        LogicPoint::TcpDialFail => {
            reveal_strlit("TCP-DIAL-FAIL");
            assert(!starts_with(c, "APP-"@)) by {
                if starts_with(c, "APP-"@) {
                    assert(c.take(4)[0] == c[0]);
                }
            }
            assert(!starts_with(c, "CFG-"@)) by {
                if starts_with(c, "CFG-"@) {
                    assert(c.take(4)[0] == c[0]);
                }
            }
            assert(!starts_with(c, "DISC-"@)) by {
                if starts_with(c, "DISC-"@) {
                    assert(c.take(5)[0] == c[0]);
                }
            }
            assert(c.take(4) =~= "TCP-"@);
        },
        LogicPoint::TcpDialSpawnFail => {
            reveal_strlit("TCP-DIAL-SPAWN-FAIL");
            assert(!starts_with(c, "APP-"@)) by {
                if starts_with(c, "APP-"@) {
                    assert(c.take(4)[0] == c[0]);
                }
            }
            assert(!starts_with(c, "CFG-"@)) by {
                if starts_with(c, "CFG-"@) {
                    assert(c.take(4)[0] == c[0]);
                }
            }
            assert(!starts_with(c, "DISC-"@)) by {
                if starts_with(c, "DISC-"@) {
                    assert(c.take(5)[0] == c[0]);
                }
            }
            assert(c.take(4) =~= "TCP-"@);
        },
        LogicPoint::TcpHelloFail => {
            reveal_strlit("TCP-HELLO-FAIL");
            assert(!starts_with(c, "APP-"@)) by {
                if starts_with(c, "APP-"@) {
                    assert(c.take(4)[0] == c[0]);
                }
            }
            assert(!starts_with(c, "CFG-"@)) by {
                if starts_with(c, "CFG-"@) {
                    assert(c.take(4)[0] == c[0]);
                }
            }
            assert(!starts_with(c, "DISC-"@)) by {
                if starts_with(c, "DISC-"@) {
                    assert(c.take(5)[0] == c[0]);
                }
            }
            assert(c.take(4) =~= "TCP-"@);
        },
        LogicPoint::TcpHelloOk => {
            reveal_strlit("TCP-HELLO-OK");
            assert(!starts_with(c, "APP-"@)) by {
                if starts_with(c, "APP-"@) {
                    assert(c.take(4)[0] == c[0]);
                }
            }
            assert(!starts_with(c, "CFG-"@)) by {
                if starts_with(c, "CFG-"@) {
                    assert(c.take(4)[0] == c[0]);
                }
            }
            assert(!starts_with(c, "DISC-"@)) by {
                if starts_with(c, "DISC-"@) {
                    assert(c.take(5)[0] == c[0]);
                }
            }
            assert(c.take(4) =~= "TCP-"@);
        },
        LogicPoint::TcpArbDrop => {
            reveal_strlit("TCP-ARB-DROP");
            assert(!starts_with(c, "APP-"@)) by {
                if starts_with(c, "APP-"@) {
                    assert(c.take(4)[0] == c[0]);
                }
            }
            assert(!starts_with(c, "CFG-"@)) by {
                if starts_with(c, "CFG-"@) {
                    assert(c.take(4)[0] == c[0]);
                }
            }
            assert(!starts_with(c, "DISC-"@)) by {
                if starts_with(c, "DISC-"@) {
                    assert(c.take(5)[0] == c[0]);
                }
            }
            assert(c.take(4) =~= "TCP-"@);
        },
        LogicPoint::TcpArbReplace => {
            reveal_strlit("TCP-ARB-REPLACE");
            assert(!starts_with(c, "APP-"@)) by {
                if starts_with(c, "APP-"@) {
                    assert(c.take(4)[0] == c[0]);
                }
            }
            assert(!starts_with(c, "CFG-"@)) by {
                if starts_with(c, "CFG-"@) {
                    assert(c.take(4)[0] == c[0]);
                }
            }
            assert(!starts_with(c, "DISC-"@)) by {
                if starts_with(c, "DISC-"@) {
                    assert(c.take(5)[0] == c[0]);
                }
            }
            assert(c.take(4) =~= "TCP-"@);
        },
        LogicPoint::TcpSessionUp => {
            reveal_strlit("TCP-SESSION-UP");
            assert(!starts_with(c, "APP-"@)) by {
                if starts_with(c, "APP-"@) {
                    assert(c.take(4)[0] == c[0]);
                }
            }
            assert(!starts_with(c, "CFG-"@)) by {
                if starts_with(c, "CFG-"@) {
                    assert(c.take(4)[0] == c[0]);
                }
            }
            assert(!starts_with(c, "DISC-"@)) by {
                if starts_with(c, "DISC-"@) {
                    assert(c.take(5)[0] == c[0]);
                }
            }
            assert(c.take(4) =~= "TCP-"@);
        },
        LogicPoint::TcpSessionDown => {
            reveal_strlit("TCP-SESSION-DOWN");
            assert(!starts_with(c, "APP-"@)) by {
                if starts_with(c, "APP-"@) {
                    assert(c.take(4)[0] == c[0]);
                }
            }
            assert(!starts_with(c, "CFG-"@)) by {
                if starts_with(c, "CFG-"@) {
                    assert(c.take(4)[0] == c[0]);
                }
            }
            assert(!starts_with(c, "DISC-"@)) by {
                if starts_with(c, "DISC-"@) {
                    assert(c.take(5)[0] == c[0]);
                }
            }
            assert(c.take(4) =~= "TCP-"@);
        },
        LogicPoint::TcpPingFail => {
            reveal_strlit("TCP-PING-FAIL");
            assert(!starts_with(c, "APP-"@)) by {
                if starts_with(c, "APP-"@) {
                    assert(c.take(4)[0] == c[0]);
                }
            }
            assert(!starts_with(c, "CFG-"@)) by {
                if starts_with(c, "CFG-"@) {
                    assert(c.take(4)[0] == c[0]);
                }
            }
            assert(!starts_with(c, "DISC-"@)) by {
                if starts_with(c, "DISC-"@) {
                    assert(c.take(5)[0] == c[0]);
                }
            }
            assert(c.take(4) =~= "TCP-"@);
        },
        LogicPoint::TcpReconcileDrop => {
            reveal_strlit("TCP-RECONCILE-DROP");
            assert(!starts_with(c, "APP-"@)) by {
                if starts_with(c, "APP-"@) {
                    assert(c.take(4)[0] == c[0]);
                }
            }
            assert(!starts_with(c, "CFG-"@)) by {
                if starts_with(c, "CFG-"@) {
                    assert(c.take(4)[0] == c[0]);
                }
            }
            assert(!starts_with(c, "DISC-"@)) by {
                if starts_with(c, "DISC-"@) {
                    assert(c.take(5)[0] == c[0]);
                }
            }
            assert(c.take(4) =~= "TCP-"@);
        },
        LogicPoint::TcpReadFail => {
            reveal_strlit("TCP-READ-FAIL");
            assert(!starts_with(c, "APP-"@)) by {
                if starts_with(c, "APP-"@) {
                    assert(c.take(4)[0] == c[0]);
                }
            }
            assert(!starts_with(c, "CFG-"@)) by {
                if starts_with(c, "CFG-"@) {
                    assert(c.take(4)[0] == c[0]);
                }
            }
            assert(!starts_with(c, "DISC-"@)) by {
                if starts_with(c, "DISC-"@) {
                    assert(c.take(5)[0] == c[0]);
                }
            }
            assert(c.take(4) =~= "TCP-"@);
        },
        LogicPoint::TcpFrameBad => {
            reveal_strlit("TCP-FRAME-BAD");
            assert(!starts_with(c, "APP-"@)) by {
                if starts_with(c, "APP-"@) {
                    assert(c.take(4)[0] == c[0]);
                }
            }
            assert(!starts_with(c, "CFG-"@)) by {
                if starts_with(c, "CFG-"@) {
                    assert(c.take(4)[0] == c[0]);
                }
            }
            assert(!starts_with(c, "DISC-"@)) by {
                if starts_with(c, "DISC-"@) {
                    assert(c.take(5)[0] == c[0]);
                }
            }
            assert(c.take(4) =~= "TCP-"@);
        },
        LogicPoint::MsgSend => {
            reveal_strlit("MSG-SEND");
            assert(!starts_with(c, "APP-"@)) by {
                if starts_with(c, "APP-"@) {
                    assert(c.take(4)[0] == c[0]);
                }
            }
            assert(!starts_with(c, "CFG-"@)) by {
                if starts_with(c, "CFG-"@) {
                    assert(c.take(4)[0] == c[0]);
                }
            }
            assert(!starts_with(c, "DISC-"@)) by {
                if starts_with(c, "DISC-"@) {
                    assert(c.take(5)[0] == c[0]);
                }
            }
            assert(!starts_with(c, "TCP-"@)) by {
                if starts_with(c, "TCP-"@) {
                    assert(c.take(4)[0] == c[0]);
                }
            }
            assert(c.take(4) =~= "MSG-"@);
        },
        LogicPoint::MsgSendFail => {
            reveal_strlit("MSG-SEND-FAIL");
            assert(!starts_with(c, "APP-"@)) by {
                if starts_with(c, "APP-"@) {
                    assert(c.take(4)[0] == c[0]);
                }
            }
            assert(!starts_with(c, "CFG-"@)) by {
                if starts_with(c, "CFG-"@) {
                    assert(c.take(4)[0] == c[0]);
                }
            }
            assert(!starts_with(c, "DISC-"@)) by {
                if starts_with(c, "DISC-"@) {
                    assert(c.take(5)[0] == c[0]);
                }
            }
            assert(!starts_with(c, "TCP-"@)) by {
                if starts_with(c, "TCP-"@) {
                    assert(c.take(4)[0] == c[0]);
                }
            }
            assert(c.take(4) =~= "MSG-"@);
        },
        LogicPoint::MsgRecv => {
            reveal_strlit("MSG-RECV");
            assert(!starts_with(c, "APP-"@)) by {
                if starts_with(c, "APP-"@) {
                    assert(c.take(4)[0] == c[0]);
                }
            }
            assert(!starts_with(c, "CFG-"@)) by {
                if starts_with(c, "CFG-"@) {
                    assert(c.take(4)[0] == c[0]);
                }
            }
            assert(!starts_with(c, "DISC-"@)) by {
                if starts_with(c, "DISC-"@) {
                    assert(c.take(5)[0] == c[0]);
                }
            }
            assert(!starts_with(c, "TCP-"@)) by {
                if starts_with(c, "TCP-"@) {
                    assert(c.take(4)[0] == c[0]);
                }
            }
            assert(c.take(4) =~= "MSG-"@);
        },
        LogicPoint::MsgRecvDup => {
            reveal_strlit("MSG-RECV-DUP");
            assert(!starts_with(c, "APP-"@)) by {
                if starts_with(c, "APP-"@) {
                    assert(c.take(4)[0] == c[0]);
                }
            }
            assert(!starts_with(c, "CFG-"@)) by {
                if starts_with(c, "CFG-"@) {
                    assert(c.take(4)[0] == c[0]);
                }
            }
            assert(!starts_with(c, "DISC-"@)) by {
                if starts_with(c, "DISC-"@) {
                    assert(c.take(5)[0] == c[0]);
                }
            }
            assert(!starts_with(c, "TCP-"@)) by {
                if starts_with(c, "TCP-"@) {
                    assert(c.take(4)[0] == c[0]);
                }
            }
            assert(c.take(4) =~= "MSG-"@);
        },
        LogicPoint::MsgRecvReject => {
            reveal_strlit("MSG-RECV-REJECT");
            assert(!starts_with(c, "APP-"@)) by {
                if starts_with(c, "APP-"@) {
                    assert(c.take(4)[0] == c[0]);
                }
            }
            assert(!starts_with(c, "CFG-"@)) by {
                if starts_with(c, "CFG-"@) {
                    assert(c.take(4)[0] == c[0]);
                }
            }
            assert(!starts_with(c, "DISC-"@)) by {
                if starts_with(c, "DISC-"@) {
                    assert(c.take(5)[0] == c[0]);
                }
            }
            assert(!starts_with(c, "TCP-"@)) by {
                if starts_with(c, "TCP-"@) {
                    assert(c.take(4)[0] == c[0]);
                }
            }
            assert(c.take(4) =~= "MSG-"@);
        },
        LogicPoint::MsgPersistFail => {
            reveal_strlit("MSG-PERSIST-FAIL");
            assert(!starts_with(c, "APP-"@)) by {
                if starts_with(c, "APP-"@) {
                    assert(c.take(4)[0] == c[0]);
                }
            }
            assert(!starts_with(c, "CFG-"@)) by {
                if starts_with(c, "CFG-"@) {
                    assert(c.take(4)[0] == c[0]);
                }
            }
            assert(!starts_with(c, "DISC-"@)) by {
                if starts_with(c, "DISC-"@) {
                    assert(c.take(5)[0] == c[0]);
                }
            }
            assert(!starts_with(c, "TCP-"@)) by {
                if starts_with(c, "TCP-"@) {
                    assert(c.take(4)[0] == c[0]);
                }
            }
            assert(c.take(4) =~= "MSG-"@);
        },
        LogicPoint::HistDelete => {
            reveal_strlit("HIST-DELETE");
            assert(!starts_with(c, "APP-"@)) by {
                if starts_with(c, "APP-"@) {
                    assert(c.take(4)[0] == c[0]);
                }
            }
            assert(!starts_with(c, "CFG-"@)) by {
                if starts_with(c, "CFG-"@) {
                    assert(c.take(4)[0] == c[0]);
                }
            }
            assert(!starts_with(c, "DISC-"@)) by {
                if starts_with(c, "DISC-"@) {
                    assert(c.take(5)[0] == c[0]);
                }
            }
            assert(!starts_with(c, "TCP-"@)) by {
                if starts_with(c, "TCP-"@) {
                    assert(c.take(4)[0] == c[0]);
                }
            }
            assert(!starts_with(c, "MSG-"@)) by {
                if starts_with(c, "MSG-"@) {
                    assert(c.take(4)[0] == c[0]);
                }
            }
            assert(c.take(5) =~= "HIST-"@);
        },
        LogicPoint::HistClearPeer => {
            reveal_strlit("HIST-CLEAR-PEER");
            assert(!starts_with(c, "APP-"@)) by {
                if starts_with(c, "APP-"@) {
                    assert(c.take(4)[0] == c[0]);
                }
            }
            assert(!starts_with(c, "CFG-"@)) by {
                if starts_with(c, "CFG-"@) {
                    assert(c.take(4)[0] == c[0]);
                }
            }
            assert(!starts_with(c, "DISC-"@)) by {
                if starts_with(c, "DISC-"@) {
                    assert(c.take(5)[0] == c[0]);
                }
            }
            assert(!starts_with(c, "TCP-"@)) by {
                if starts_with(c, "TCP-"@) {
                    assert(c.take(4)[0] == c[0]);
                }
            }
            assert(!starts_with(c, "MSG-"@)) by {
                if starts_with(c, "MSG-"@) {
                    assert(c.take(4)[0] == c[0]);
                }
            }
            assert(c.take(5) =~= "HIST-"@);
        },
        LogicPoint::HistClearAll => {
            reveal_strlit("HIST-CLEAR-ALL");
            assert(!starts_with(c, "APP-"@)) by {
                if starts_with(c, "APP-"@) {
                    assert(c.take(4)[0] == c[0]);
                }
            }
            assert(!starts_with(c, "CFG-"@)) by {
                if starts_with(c, "CFG-"@) {
                    assert(c.take(4)[0] == c[0]);
                }
            }
            assert(!starts_with(c, "DISC-"@)) by {
                if starts_with(c, "DISC-"@) {
                    assert(c.take(5)[0] == c[0]);
                }
            }
            assert(!starts_with(c, "TCP-"@)) by {
                if starts_with(c, "TCP-"@) {
                    assert(c.take(4)[0] == c[0]);
                }
            }
            assert(!starts_with(c, "MSG-"@)) by {
                if starts_with(c, "MSG-"@) {
                    assert(c.take(4)[0] == c[0]);
                }
            }
            assert(c.take(5) =~= "HIST-"@);
        },
        LogicPoint::HistDeleteFail => {
            reveal_strlit("HIST-DELETE-FAIL");
            assert(!starts_with(c, "APP-"@)) by {
                if starts_with(c, "APP-"@) {
                    assert(c.take(4)[0] == c[0]);
                }
            }
            assert(!starts_with(c, "CFG-"@)) by {
                if starts_with(c, "CFG-"@) {
                    assert(c.take(4)[0] == c[0]);
                }
            }
            assert(!starts_with(c, "DISC-"@)) by {
                if starts_with(c, "DISC-"@) {
                    assert(c.take(5)[0] == c[0]);
                }
            }
            assert(!starts_with(c, "TCP-"@)) by {
                if starts_with(c, "TCP-"@) {
                    assert(c.take(4)[0] == c[0]);
                }
            }
            assert(!starts_with(c, "MSG-"@)) by {
                if starts_with(c, "MSG-"@) {
                    assert(c.take(4)[0] == c[0]);
                }
            }
            assert(c.take(5) =~= "HIST-"@);
        },
        LogicPoint::DbOpen => {
            reveal_strlit("DB-OPEN");
            assert(!starts_with(c, "APP-"@)) by {
                if starts_with(c, "APP-"@) {
                    assert(c.take(4)[0] == c[0]);
                }
            }
            assert(!starts_with(c, "CFG-"@)) by {
                if starts_with(c, "CFG-"@) {
                    assert(c.take(4)[0] == c[0]);
                }
            }
            assert(!starts_with(c, "DISC-"@)) by {
                if starts_with(c, "DISC-"@) {
                    assert(c.take(5)[1] == c[1]);
                }
            }
            assert(!starts_with(c, "TCP-"@)) by {
                if starts_with(c, "TCP-"@) {
                    assert(c.take(4)[0] == c[0]);
                }
            }
            assert(!starts_with(c, "MSG-"@)) by {
                if starts_with(c, "MSG-"@) {
                    assert(c.take(4)[0] == c[0]);
                }
            }
            assert(!starts_with(c, "HIST-"@)) by {
                if starts_with(c, "HIST-"@) {
                    assert(c.take(5)[0] == c[0]);
                }
            }
            assert(c.take(3) =~= "DB-"@);
        },
        LogicPoint::DbOpenFail => {
            reveal_strlit("DB-OPEN-FAIL");
            assert(!starts_with(c, "APP-"@)) by {
                if starts_with(c, "APP-"@) {
                    assert(c.take(4)[0] == c[0]);
                }
            }
            assert(!starts_with(c, "CFG-"@)) by {
                if starts_with(c, "CFG-"@) {
                    assert(c.take(4)[0] == c[0]);
                }
            }
            assert(!starts_with(c, "DISC-"@)) by {
                if starts_with(c, "DISC-"@) {
                    assert(c.take(5)[1] == c[1]);
                }
            }
            assert(!starts_with(c, "TCP-"@)) by {
                if starts_with(c, "TCP-"@) {
                    assert(c.take(4)[0] == c[0]);
                }
            }
            assert(!starts_with(c, "MSG-"@)) by {
                if starts_with(c, "MSG-"@) {
                    assert(c.take(4)[0] == c[0]);
                }
            }
            assert(!starts_with(c, "HIST-"@)) by {
                if starts_with(c, "HIST-"@) {
                    assert(c.take(5)[0] == c[0]);
                }
            }
            assert(c.take(3) =~= "DB-"@);
        },
        LogicPoint::DbQueryFail => {
            reveal_strlit("DB-QUERY-FAIL");
            assert(!starts_with(c, "APP-"@)) by {
                if starts_with(c, "APP-"@) {
                    assert(c.take(4)[0] == c[0]);
                }
            }
            assert(!starts_with(c, "CFG-"@)) by {
                if starts_with(c, "CFG-"@) {
                    assert(c.take(4)[0] == c[0]);
                }
            }
            assert(!starts_with(c, "DISC-"@)) by {
                if starts_with(c, "DISC-"@) {
                    assert(c.take(5)[1] == c[1]);
                }
            }
            assert(!starts_with(c, "TCP-"@)) by {
                if starts_with(c, "TCP-"@) {
                    assert(c.take(4)[0] == c[0]);
                }
            }
            assert(!starts_with(c, "MSG-"@)) by {
                if starts_with(c, "MSG-"@) {
                    assert(c.take(4)[0] == c[0]);
                }
            }
            assert(!starts_with(c, "HIST-"@)) by {
                if starts_with(c, "HIST-"@) {
                    assert(c.take(5)[0] == c[0]);
                }
            }
            assert(c.take(3) =~= "DB-"@);
        },
        LogicPoint::XferListen => {
            reveal_strlit("XFER-LISTEN");
            assert(!starts_with(c, "APP-"@)) by {
                if starts_with(c, "APP-"@) {
                    assert(c.take(4)[0] == c[0]);
                }
            }
            assert(!starts_with(c, "CFG-"@)) by {
                if starts_with(c, "CFG-"@) {
                    assert(c.take(4)[0] == c[0]);
                }
            }
            assert(!starts_with(c, "DISC-"@)) by {
                if starts_with(c, "DISC-"@) {
                    assert(c.take(5)[0] == c[0]);
                }
            }
            assert(!starts_with(c, "TCP-"@)) by {
                if starts_with(c, "TCP-"@) {
                    assert(c.take(4)[0] == c[0]);
                }
            }
            assert(!starts_with(c, "MSG-"@)) by {
                if starts_with(c, "MSG-"@) {
                    assert(c.take(4)[0] == c[0]);
                }
            }
            assert(!starts_with(c, "HIST-"@)) by {
                if starts_with(c, "HIST-"@) {
                    assert(c.take(5)[0] == c[0]);
                }
            }
            assert(!starts_with(c, "DB-"@)) by {
                if starts_with(c, "DB-"@) {
                    assert(c.take(3)[0] == c[0]);
                }
            }
            assert(c.take(5) =~= "XFER-"@);
        },
        LogicPoint::XferListenFail => {
            reveal_strlit("XFER-LISTEN-FAIL");
            assert(!starts_with(c, "APP-"@)) by {
                if starts_with(c, "APP-"@) {
                    assert(c.take(4)[0] == c[0]);
                }
            }
            assert(!starts_with(c, "CFG-"@)) by {
                if starts_with(c, "CFG-"@) {
                    assert(c.take(4)[0] == c[0]);
                }
            }
            assert(!starts_with(c, "DISC-"@)) by {
                if starts_with(c, "DISC-"@) {
                    assert(c.take(5)[0] == c[0]);
                }
            }
            assert(!starts_with(c, "TCP-"@)) by {
                if starts_with(c, "TCP-"@) {
                    assert(c.take(4)[0] == c[0]);
                }
            }
            assert(!starts_with(c, "MSG-"@)) by {
                if starts_with(c, "MSG-"@) {
                    assert(c.take(4)[0] == c[0]);
                }
            }
            assert(!starts_with(c, "HIST-"@)) by {
                if starts_with(c, "HIST-"@) {
                    assert(c.take(5)[0] == c[0]);
                }
            }
            assert(!starts_with(c, "DB-"@)) by {
                if starts_with(c, "DB-"@) {
                    assert(c.take(3)[0] == c[0]);
                }
            }
            assert(c.take(5) =~= "XFER-"@);
        },
        LogicPoint::XferOfferOut => {
            reveal_strlit("XFER-OFFER-OUT");
            assert(!starts_with(c, "APP-"@)) by {
                if starts_with(c, "APP-"@) {
                    assert(c.take(4)[0] == c[0]);
                }
            }
            assert(!starts_with(c, "CFG-"@)) by {
                if starts_with(c, "CFG-"@) {
                    assert(c.take(4)[0] == c[0]);
                }
            }
            assert(!starts_with(c, "DISC-"@)) by {
                if starts_with(c, "DISC-"@) {
                    assert(c.take(5)[0] == c[0]);
                }
            }
            assert(!starts_with(c, "TCP-"@)) by {
                if starts_with(c, "TCP-"@) {
                    assert(c.take(4)[0] == c[0]);
                }
            }
            assert(!starts_with(c, "MSG-"@)) by {
                if starts_with(c, "MSG-"@) {
                    assert(c.take(4)[0] == c[0]);
                }
            }
            assert(!starts_with(c, "HIST-"@)) by {
                if starts_with(c, "HIST-"@) {
                    assert(c.take(5)[0] == c[0]);
                }
            }
            assert(!starts_with(c, "DB-"@)) by {
                if starts_with(c, "DB-"@) {
                    assert(c.take(3)[0] == c[0]);
                }
            }
            assert(c.take(5) =~= "XFER-"@);
        },
        LogicPoint::XferOfferIn => {
            reveal_strlit("XFER-OFFER-IN");
            assert(!starts_with(c, "APP-"@)) by {
                if starts_with(c, "APP-"@) {
                    assert(c.take(4)[0] == c[0]);
                }
            }
            assert(!starts_with(c, "CFG-"@)) by {
                if starts_with(c, "CFG-"@) {
                    assert(c.take(4)[0] == c[0]);
                }
            }
            assert(!starts_with(c, "DISC-"@)) by {
                if starts_with(c, "DISC-"@) {
                    assert(c.take(5)[0] == c[0]);
                }
            }
            assert(!starts_with(c, "TCP-"@)) by {
                if starts_with(c, "TCP-"@) {
                    assert(c.take(4)[0] == c[0]);
                }
            }
            assert(!starts_with(c, "MSG-"@)) by {
                if starts_with(c, "MSG-"@) {
                    assert(c.take(4)[0] == c[0]);
                }
            }
            assert(!starts_with(c, "HIST-"@)) by {
                if starts_with(c, "HIST-"@) {
                    assert(c.take(5)[0] == c[0]);
                }
            }
            assert(!starts_with(c, "DB-"@)) by {
                if starts_with(c, "DB-"@) {
                    assert(c.take(3)[0] == c[0]);
                }
            }
            assert(c.take(5) =~= "XFER-"@);
        },
        LogicPoint::XferOfferReject => {
            reveal_strlit("XFER-OFFER-REJECT");
            assert(!starts_with(c, "APP-"@)) by {
                if starts_with(c, "APP-"@) {
                    assert(c.take(4)[0] == c[0]);
                }
            }
            assert(!starts_with(c, "CFG-"@)) by {
                if starts_with(c, "CFG-"@) {
                    assert(c.take(4)[0] == c[0]);
                }
            }
            assert(!starts_with(c, "DISC-"@)) by {
                if starts_with(c, "DISC-"@) {
                    assert(c.take(5)[0] == c[0]);
                }
            }
            assert(!starts_with(c, "TCP-"@)) by {
                if starts_with(c, "TCP-"@) {
                    assert(c.take(4)[0] == c[0]);
                }
            }
            assert(!starts_with(c, "MSG-"@)) by {
                if starts_with(c, "MSG-"@) {
                    assert(c.take(4)[0] == c[0]);
                }
            }
            assert(!starts_with(c, "HIST-"@)) by {
                if starts_with(c, "HIST-"@) {
                    assert(c.take(5)[0] == c[0]);
                }
            }
            assert(!starts_with(c, "DB-"@)) by {
                if starts_with(c, "DB-"@) {
                    assert(c.take(3)[0] == c[0]);
                }
            }
            assert(c.take(5) =~= "XFER-"@);
        },
        LogicPoint::XferAccept => {
            reveal_strlit("XFER-ACCEPT");
            assert(!starts_with(c, "APP-"@)) by {
                if starts_with(c, "APP-"@) {
                    assert(c.take(4)[0] == c[0]);
                }
            }
            assert(!starts_with(c, "CFG-"@)) by {
                if starts_with(c, "CFG-"@) {
                    assert(c.take(4)[0] == c[0]);
                }
            }
            assert(!starts_with(c, "DISC-"@)) by {
                if starts_with(c, "DISC-"@) {
                    assert(c.take(5)[0] == c[0]);
                }
            }
            assert(!starts_with(c, "TCP-"@)) by {
                if starts_with(c, "TCP-"@) {
                    assert(c.take(4)[0] == c[0]);
                }
            }
            assert(!starts_with(c, "MSG-"@)) by {
                if starts_with(c, "MSG-"@) {
                    assert(c.take(4)[0] == c[0]);
                }
            }
            assert(!starts_with(c, "HIST-"@)) by {
                if starts_with(c, "HIST-"@) {
                    assert(c.take(5)[0] == c[0]);
                }
            }
            assert(!starts_with(c, "DB-"@)) by {
                if starts_with(c, "DB-"@) {
                    assert(c.take(3)[0] == c[0]);
                }
            }
            assert(c.take(5) =~= "XFER-"@);
        },
        LogicPoint::XferAcceptFail => {
            reveal_strlit("XFER-ACCEPT-FAIL");
            assert(!starts_with(c, "APP-"@)) by {
                if starts_with(c, "APP-"@) {
                    assert(c.take(4)[0] == c[0]);
                }
            }
            assert(!starts_with(c, "CFG-"@)) by {
                if starts_with(c, "CFG-"@) {
                    assert(c.take(4)[0] == c[0]);
                }
            }
            assert(!starts_with(c, "DISC-"@)) by {
                if starts_with(c, "DISC-"@) {
                    assert(c.take(5)[0] == c[0]);
                }
            }
            assert(!starts_with(c, "TCP-"@)) by {
                if starts_with(c, "TCP-"@) {
                    assert(c.take(4)[0] == c[0]);
                }
            }
            assert(!starts_with(c, "MSG-"@)) by {
                if starts_with(c, "MSG-"@) {
                    assert(c.take(4)[0] == c[0]);
                }
            }
            assert(!starts_with(c, "HIST-"@)) by {
                if starts_with(c, "HIST-"@) {
                    assert(c.take(5)[0] == c[0]);
                }
            }
            assert(!starts_with(c, "DB-"@)) by {
                if starts_with(c, "DB-"@) {
                    assert(c.take(3)[0] == c[0]);
                }
            }
            assert(c.take(5) =~= "XFER-"@);
        },
        LogicPoint::XferReject => {
            reveal_strlit("XFER-REJECT");
            assert(!starts_with(c, "APP-"@)) by {
                if starts_with(c, "APP-"@) {
                    assert(c.take(4)[0] == c[0]);
                }
            }
            assert(!starts_with(c, "CFG-"@)) by {
                if starts_with(c, "CFG-"@) {
                    assert(c.take(4)[0] == c[0]);
                }
            }
            assert(!starts_with(c, "DISC-"@)) by {
                if starts_with(c, "DISC-"@) {
                    assert(c.take(5)[0] == c[0]);
                }
            }
            assert(!starts_with(c, "TCP-"@)) by {
                if starts_with(c, "TCP-"@) {
                    assert(c.take(4)[0] == c[0]);
                }
            }
            assert(!starts_with(c, "MSG-"@)) by {
                if starts_with(c, "MSG-"@) {
                    assert(c.take(4)[0] == c[0]);
                }
            }
            assert(!starts_with(c, "HIST-"@)) by {
                if starts_with(c, "HIST-"@) {
                    assert(c.take(5)[0] == c[0]);
                }
            }
            assert(!starts_with(c, "DB-"@)) by {
                if starts_with(c, "DB-"@) {
                    assert(c.take(3)[0] == c[0]);
                }
            }
            assert(c.take(5) =~= "XFER-"@);
        },
        LogicPoint::XferCancel => {
            reveal_strlit("XFER-CANCEL");
            assert(!starts_with(c, "APP-"@)) by {
                if starts_with(c, "APP-"@) {
                    assert(c.take(4)[0] == c[0]);
                }
            }
            assert(!starts_with(c, "CFG-"@)) by {
                if starts_with(c, "CFG-"@) {
                    assert(c.take(4)[0] == c[0]);
                }
            }
            assert(!starts_with(c, "DISC-"@)) by {
                if starts_with(c, "DISC-"@) {
                    assert(c.take(5)[0] == c[0]);
                }
            }
            assert(!starts_with(c, "TCP-"@)) by {
                if starts_with(c, "TCP-"@) {
                    assert(c.take(4)[0] == c[0]);
                }
            }
            assert(!starts_with(c, "MSG-"@)) by {
                if starts_with(c, "MSG-"@) {
                    assert(c.take(4)[0] == c[0]);
                }
            }
            assert(!starts_with(c, "HIST-"@)) by {
                if starts_with(c, "HIST-"@) {
                    assert(c.take(5)[0] == c[0]);
                }
            }
            assert(!starts_with(c, "DB-"@)) by {
                if starts_with(c, "DB-"@) {
                    assert(c.take(3)[0] == c[0]);
                }
            }
            assert(c.take(5) =~= "XFER-"@);
        },
        LogicPoint::XferDataFail => {
            reveal_strlit("XFER-DATA-FAIL");
            assert(!starts_with(c, "APP-"@)) by {
                if starts_with(c, "APP-"@) {
                    assert(c.take(4)[0] == c[0]);
                }
            }
            assert(!starts_with(c, "CFG-"@)) by {
                if starts_with(c, "CFG-"@) {
                    assert(c.take(4)[0] == c[0]);
                }
            }
            assert(!starts_with(c, "DISC-"@)) by {
                if starts_with(c, "DISC-"@) {
                    assert(c.take(5)[0] == c[0]);
                }
            }
            assert(!starts_with(c, "TCP-"@)) by {
                if starts_with(c, "TCP-"@) {
                    assert(c.take(4)[0] == c[0]);
                }
            }
            assert(!starts_with(c, "MSG-"@)) by {
                if starts_with(c, "MSG-"@) {
                    assert(c.take(4)[0] == c[0]);
                }
            }
            assert(!starts_with(c, "HIST-"@)) by {
                if starts_with(c, "HIST-"@) {
                    assert(c.take(5)[0] == c[0]);
                }
            }
            assert(!starts_with(c, "DB-"@)) by {
                if starts_with(c, "DB-"@) {
                    assert(c.take(3)[0] == c[0]);
                }
            }
            assert(c.take(5) =~= "XFER-"@);
        },
        LogicPoint::XferComplete => {
            reveal_strlit("XFER-COMPLETE");
            assert(!starts_with(c, "APP-"@)) by {
                if starts_with(c, "APP-"@) {
                    assert(c.take(4)[0] == c[0]);
                }
            }
            assert(!starts_with(c, "CFG-"@)) by {
                if starts_with(c, "CFG-"@) {
                    assert(c.take(4)[0] == c[0]);
                }
            }
            assert(!starts_with(c, "DISC-"@)) by {
                if starts_with(c, "DISC-"@) {
                    assert(c.take(5)[0] == c[0]);
                }
            }
            assert(!starts_with(c, "TCP-"@)) by {
                if starts_with(c, "TCP-"@) {
                    assert(c.take(4)[0] == c[0]);
                }
            }
            assert(!starts_with(c, "MSG-"@)) by {
                if starts_with(c, "MSG-"@) {
                    assert(c.take(4)[0] == c[0]);
                }
            }
            assert(!starts_with(c, "HIST-"@)) by {
                if starts_with(c, "HIST-"@) {
                    assert(c.take(5)[0] == c[0]);
                }
            }
            assert(!starts_with(c, "DB-"@)) by {
                if starts_with(c, "DB-"@) {
                    assert(c.take(3)[0] == c[0]);
                }
            }
            assert(c.take(5) =~= "XFER-"@);
        },
        LogicPoint::XferInterrupt => {
            reveal_strlit("XFER-INTERRUPT");
            assert(!starts_with(c, "APP-"@)) by {
                if starts_with(c, "APP-"@) {
                    assert(c.take(4)[0] == c[0]);
                }
            }
            assert(!starts_with(c, "CFG-"@)) by {
                if starts_with(c, "CFG-"@) {
                    assert(c.take(4)[0] == c[0]);
                }
            }
            assert(!starts_with(c, "DISC-"@)) by {
                if starts_with(c, "DISC-"@) {
                    assert(c.take(5)[0] == c[0]);
                }
            }
            assert(!starts_with(c, "TCP-"@)) by {
                if starts_with(c, "TCP-"@) {
                    assert(c.take(4)[0] == c[0]);
                }
            }
            assert(!starts_with(c, "MSG-"@)) by {
                if starts_with(c, "MSG-"@) {
                    assert(c.take(4)[0] == c[0]);
                }
            }
            assert(!starts_with(c, "HIST-"@)) by {
                if starts_with(c, "HIST-"@) {
                    assert(c.take(5)[0] == c[0]);
                }
            }
            assert(!starts_with(c, "DB-"@)) by {
                if starts_with(c, "DB-"@) {
                    assert(c.take(3)[0] == c[0]);
                }
            }
            assert(c.take(5) =~= "XFER-"@);
        },
        LogicPoint::XferAlign => {
            reveal_strlit("XFER-ALIGN");
            assert(!starts_with(c, "APP-"@)) by {
                if starts_with(c, "APP-"@) {
                    assert(c.take(4)[0] == c[0]);
                }
            }
            assert(!starts_with(c, "CFG-"@)) by {
                if starts_with(c, "CFG-"@) {
                    assert(c.take(4)[0] == c[0]);
                }
            }
            assert(!starts_with(c, "DISC-"@)) by {
                if starts_with(c, "DISC-"@) {
                    assert(c.take(5)[0] == c[0]);
                }
            }
            assert(!starts_with(c, "TCP-"@)) by {
                if starts_with(c, "TCP-"@) {
                    assert(c.take(4)[0] == c[0]);
                }
            }
            assert(!starts_with(c, "MSG-"@)) by {
                if starts_with(c, "MSG-"@) {
                    assert(c.take(4)[0] == c[0]);
                }
            }
            assert(!starts_with(c, "HIST-"@)) by {
                if starts_with(c, "HIST-"@) {
                    assert(c.take(5)[0] == c[0]);
                }
            }
            assert(!starts_with(c, "DB-"@)) by {
                if starts_with(c, "DB-"@) {
                    assert(c.take(3)[0] == c[0]);
                }
            }
            assert(c.take(5) =~= "XFER-"@);
        },
        LogicPoint::XferReserve => {
            reveal_strlit("XFER-RESERVE");
            assert(!starts_with(c, "APP-"@)) by {
                if starts_with(c, "APP-"@) {
                    assert(c.take(4)[0] == c[0]);
                }
            }
            assert(!starts_with(c, "CFG-"@)) by {
                if starts_with(c, "CFG-"@) {
                    assert(c.take(4)[0] == c[0]);
                }
            }
            assert(!starts_with(c, "DISC-"@)) by {
                if starts_with(c, "DISC-"@) {
                    assert(c.take(5)[0] == c[0]);
                }
            }
            assert(!starts_with(c, "TCP-"@)) by {
                if starts_with(c, "TCP-"@) {
                    assert(c.take(4)[0] == c[0]);
                }
            }
            assert(!starts_with(c, "MSG-"@)) by {
                if starts_with(c, "MSG-"@) {
                    assert(c.take(4)[0] == c[0]);
                }
            }
            assert(!starts_with(c, "HIST-"@)) by {
                if starts_with(c, "HIST-"@) {
                    assert(c.take(5)[0] == c[0]);
                }
            }
            assert(!starts_with(c, "DB-"@)) by {
                if starts_with(c, "DB-"@) {
                    assert(c.take(3)[0] == c[0]);
                }
            }
            assert(c.take(5) =~= "XFER-"@);
        },
        LogicPoint::XferFirstDataTimeout => {
            reveal_strlit("XFER-FIRST-DATA-TIMEOUT");
            assert(!starts_with(c, "APP-"@)) by {
                if starts_with(c, "APP-"@) {
                    assert(c.take(4)[0] == c[0]);
                }
            }
            assert(!starts_with(c, "CFG-"@)) by {
                if starts_with(c, "CFG-"@) {
                    assert(c.take(4)[0] == c[0]);
                }
            }
            assert(!starts_with(c, "DISC-"@)) by {
                if starts_with(c, "DISC-"@) {
                    assert(c.take(5)[0] == c[0]);
                }
            }
            assert(!starts_with(c, "TCP-"@)) by {
                if starts_with(c, "TCP-"@) {
                    assert(c.take(4)[0] == c[0]);
                }
            }
            assert(!starts_with(c, "MSG-"@)) by {
                if starts_with(c, "MSG-"@) {
                    assert(c.take(4)[0] == c[0]);
                }
            }
            assert(!starts_with(c, "HIST-"@)) by {
                if starts_with(c, "HIST-"@) {
                    assert(c.take(5)[0] == c[0]);
                }
            }
            assert(!starts_with(c, "DB-"@)) by {
                if starts_with(c, "DB-"@) {
                    assert(c.take(3)[0] == c[0]);
                }
            }
            assert(c.take(5) =~= "XFER-"@);
        },
        LogicPoint::XferResume => {
            reveal_strlit("XFER-RESUME");
            assert(!starts_with(c, "APP-"@)) by {
                if starts_with(c, "APP-"@) {
                    assert(c.take(4)[0] == c[0]);
                }
            }
            assert(!starts_with(c, "CFG-"@)) by {
                if starts_with(c, "CFG-"@) {
                    assert(c.take(4)[0] == c[0]);
                }
            }
            assert(!starts_with(c, "DISC-"@)) by {
                if starts_with(c, "DISC-"@) {
                    assert(c.take(5)[0] == c[0]);
                }
            }
            assert(!starts_with(c, "TCP-"@)) by {
                if starts_with(c, "TCP-"@) {
                    assert(c.take(4)[0] == c[0]);
                }
            }
            assert(!starts_with(c, "MSG-"@)) by {
                if starts_with(c, "MSG-"@) {
                    assert(c.take(4)[0] == c[0]);
                }
            }
            assert(!starts_with(c, "HIST-"@)) by {
                if starts_with(c, "HIST-"@) {
                    assert(c.take(5)[0] == c[0]);
                }
            }
            assert(!starts_with(c, "DB-"@)) by {
                if starts_with(c, "DB-"@) {
                    assert(c.take(3)[0] == c[0]);
                }
            }
            assert(c.take(5) =~= "XFER-"@);
        },
        LogicPoint::XferResumeFail => {
            reveal_strlit("XFER-RESUME-FAIL");
            assert(!starts_with(c, "APP-"@)) by {
                if starts_with(c, "APP-"@) {
                    assert(c.take(4)[0] == c[0]);
                }
            }
            assert(!starts_with(c, "CFG-"@)) by {
                if starts_with(c, "CFG-"@) {
                    assert(c.take(4)[0] == c[0]);
                }
            }
            assert(!starts_with(c, "DISC-"@)) by {
                if starts_with(c, "DISC-"@) {
                    assert(c.take(5)[0] == c[0]);
                }
            }
            assert(!starts_with(c, "TCP-"@)) by {
                if starts_with(c, "TCP-"@) {
                    assert(c.take(4)[0] == c[0]);
                }
            }
            assert(!starts_with(c, "MSG-"@)) by {
                if starts_with(c, "MSG-"@) {
                    assert(c.take(4)[0] == c[0]);
                }
            }
            assert(!starts_with(c, "HIST-"@)) by {
                if starts_with(c, "HIST-"@) {
                    assert(c.take(5)[0] == c[0]);
                }
            }
            assert(!starts_with(c, "DB-"@)) by {
                if starts_with(c, "DB-"@) {
                    assert(c.take(3)[0] == c[0]);
                }
            }
            assert(c.take(5) =~= "XFER-"@);
        },
        LogicPoint::XferHydrate => {
            reveal_strlit("XFER-HYDRATE");
            assert(!starts_with(c, "APP-"@)) by {
                if starts_with(c, "APP-"@) {
                    assert(c.take(4)[0] == c[0]);
                }
            }
            assert(!starts_with(c, "CFG-"@)) by {
                if starts_with(c, "CFG-"@) {
                    assert(c.take(4)[0] == c[0]);
                }
            }
            assert(!starts_with(c, "DISC-"@)) by {
                if starts_with(c, "DISC-"@) {
                    assert(c.take(5)[0] == c[0]);
                }
            }
            assert(!starts_with(c, "TCP-"@)) by {
                if starts_with(c, "TCP-"@) {
                    assert(c.take(4)[0] == c[0]);
                }
            }
            assert(!starts_with(c, "MSG-"@)) by {
                if starts_with(c, "MSG-"@) {
                    assert(c.take(4)[0] == c[0]);
                }
            }
            assert(!starts_with(c, "HIST-"@)) by {
                if starts_with(c, "HIST-"@) {
                    assert(c.take(5)[0] == c[0]);
                }
            }
            assert(!starts_with(c, "DB-"@)) by {
                if starts_with(c, "DB-"@) {
                    assert(c.take(3)[0] == c[0]);
                }
            }
            assert(c.take(5) =~= "XFER-"@);
        },
    }
}

/// Law: the level names shown in console lines and in Settings.
pub proof fn lemma_level_names(l: DiagLevel)
    ensures
        l == DiagLevel::Info ==> level_str(l) == "INFO"@,
        l == DiagLevel::Warn ==> level_str(l) == "WARN"@,
        l == DiagLevel::Error ==> level_str(l) == "ERROR"@,
{
}

/// Law: no two logic nodes share a code, so a code names exactly one node.
pub proof fn lemma_codes_unique(p: LogicPoint, q: LogicPoint)
    requires
        p != q,
    ensures
        code_of(p) != code_of(q),
{
    lemma_fingerprint_names_point(p);
    lemma_fingerprint_names_point(q);
}
} // verus!
