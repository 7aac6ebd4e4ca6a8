//! LAN peer discovery bookkeeping: announce packets, the peer table with its
//! online / retain time-outs, and the discovery status shown to the user.

use vstd::prelude::*;
use vstd::string::*;
use crate::order::{seq_lt, seq_le, str_lt, str_eq, lemma_lt_total, lemma_lt_transitive};
use crate::sort::{Ordered, sorted, sort_by_order};
use crate::text::{lowercase, to_lower, trim, trimmed_chars};

verus! {

/// UDP discovery port.
pub const DISCOVERY_PORT: u16 = 48765;
/// TCP control plane (chat + file signaling).
pub const CONTROL_PORT: u16 = 48766;
/// TCP data plane (file bytes).
pub const DATA_PORT: u16 = 48767;
pub const PROTOCOL_VERSION: u32 = 1;
/// Interval between announce beacons.
pub const ANNOUNCE_INTERVAL_MS: u64 = 1500;
/// A peer heard within this many milliseconds is online.
pub const PEER_ONLINE_TTL_MS: u64 = 6000;
/// A peer not heard for longer than this is forgotten.
pub const PEER_RETAIN_TTL_MS: u64 = 30000;

/// UDP announce beacon.
#[derive(Debug)]
pub struct AnnouncePacket {
    pub v: u32,
    pub kind: String,
    pub device_id: String,
    pub display_name: String,
    pub os: String,
    pub control_port: u16,
}

impl AnnouncePacket {
    /// The beacon this device sends, for the operating system named `os`.
    pub fn new(device_id: String, display_name: String, os: String) -> (p: Self)
        ensures
            p.v == PROTOCOL_VERSION,
            p.kind@ == "announce"@,
            p.device_id == device_id,
            p.display_name == display_name,
            p.os == os,
            p.control_port == CONTROL_PORT,
    {
        AnnouncePacket {
            v: PROTOCOL_VERSION,
            kind: String::from_str("announce"),
            device_id,
            display_name,
            os,
            control_port: CONTROL_PORT,
        }
    }
}

/// A decoded beacon is accepted when it is an announce of our protocol
/// version from another device with a non-blank id.
pub open spec fn announce_ok(p: AnnouncePacket, self_id: Seq<char>) -> bool {
    &&& p.kind@ == "announce"@
    &&& p.v == PROTOCOL_VERSION
    &&& trim(p.device_id@).len() > 0
    &&& p.device_id@ != self_id
}

/// Keeps a decoded beacon only if it should be acted on (self-filter included).
pub fn validate_announce(packet: AnnouncePacket, self_id: &str) -> (r: Option<AnnouncePacket>)
    ensures
        announce_ok(packet, self_id@) ==> r == Some(packet),
        !announce_ok(packet, self_id@) ==> r is None,
{
    if !str_eq(packet.kind.as_str(), "announce") {
        return None;
    }
    if packet.v != PROTOCOL_VERSION {
        return None;
    }
    let t = trimmed_chars(packet.device_id.as_str());
    if t.len() == 0 {
        return None;
    }
    if str_eq(packet.device_id.as_str(), self_id) {
        return None;
    }
    Some(packet)
}

/// A peer as shown to the user.
#[derive(Debug)]
pub struct PeerInfo {
    pub device_id: String,
    pub display_name: String,
    pub os: String,
    pub control_port: u16,
    pub address: String,
    pub online: bool,
    /// Wall-clock milliseconds of the last announce heard.
    pub last_seen_ms: u64,
}

impl PeerInfo {
    pub fn duplicate(&self) -> (r: Self)
        ensures
            r == *self,
    {
        PeerInfo {
            device_id: self.device_id.clone(),
            display_name: self.display_name.clone(),
            os: self.os.clone(),
            control_port: self.control_port,
            address: self.address.clone(),
            online: self.online,
            last_seen_ms: self.last_seen_ms,
        }
    }
}

/// Peer-list order: online peers first, then by lower-cased name, then by id.
pub open spec fn peer_le(a: PeerInfo, b: PeerInfo) -> bool {
    ||| a.online && !b.online
    ||| a.online == b.online && seq_lt(lowercase(a.display_name@), lowercase(b.display_name@))
    ||| a.online == b.online && lowercase(a.display_name@) == lowercase(b.display_name@)
        && seq_le(a.device_id@, b.device_id@)
}

/// Law: in a peer list in list order, every online peer comes before every
/// offline one, and peers of the same status come by lower-cased name.
pub proof fn lemma_peer_list_order(s: Seq<PeerInfo>)
    requires
        sorted(s),
    ensures
        forall|i: int, j: int|
            0 <= i < j < s.len() && (#[trigger] s[j]).online ==> (#[trigger] s[i]).online,
        forall|i: int, j: int|
            0 <= i < j < s.len() && (#[trigger] s[i]).online == (#[trigger] s[j]).online ==> seq_le(
                lowercase(s[i].display_name@),
                lowercase(s[j].display_name@),
            ),
{
    assert forall|i: int, j: int| 0 <= i < j < s.len() && (#[trigger] s[j]).online implies (
    #[trigger] s[i]).online by {
        assert(s[i].le(s[j]));
    }
    assert forall|i: int, j: int|
        0 <= i < j < s.len() && (#[trigger] s[i]).online == (#[trigger] s[j]).online implies seq_le(
        lowercase(s[i].display_name@),
        lowercase(s[j].display_name@),
    ) by {
        assert(s[i].le(s[j]));
    }
}

impl Ordered for PeerInfo {
    open spec fn le(self, other: Self) -> bool {
        peer_le(self, other)
    }

    fn le_exec(&self, other: &Self) -> (r: bool) {
        if self.online != other.online {
            return self.online;
        }
        let la = to_lower(self.display_name.as_str());
        let lb = to_lower(other.display_name.as_str());
        if str_lt(la.as_str(), lb.as_str()) {
            return true;
        }
        if !str_eq(la.as_str(), lb.as_str()) {
            return false;
        }
        str_eq(self.device_id.as_str(), other.device_id.as_str()) || str_lt(
            self.device_id.as_str(),
            other.device_id.as_str(),
        )
    }

    proof fn lemma_total(a: Self, b: Self) {
        lemma_lt_total(lowercase(a.display_name@), lowercase(b.display_name@));
        lemma_lt_total(a.device_id@, b.device_id@);
    }

    proof fn lemma_trans(a: Self, b: Self, c: Self) {
        let (la, lb, lc) = (
            lowercase(a.display_name@),
            lowercase(b.display_name@),
            lowercase(c.display_name@),
        );
        if a.online == b.online && b.online == c.online {
            if seq_lt(la, lb) && seq_lt(lb, lc) {
                lemma_lt_transitive(la, lb, lc);
            }
            if seq_lt(a.device_id@, b.device_id@) && seq_lt(b.device_id@, c.device_id@) {
                lemma_lt_transitive(a.device_id@, b.device_id@, c.device_id@);
            }
        }
    }
}

struct PeerEntry {
    info: PeerInfo,
    /// Monotonic milliseconds of the last announce heard.
    last_seen: u64,
}

/// Peers heard on the LAN, one entry per device id.
pub struct PeerTable {
    peers: Vec<PeerEntry>,
}

/// A peer as the table tracks it.
pub struct TrackedPeer {
    pub info: PeerInfo,
    pub last_seen: u64,
}

/// Milliseconds between `then` and `now` (zero if `now` is earlier).
pub open spec fn age(now: u64, then: u64) -> int {
    if now >= then { now - then } else { 0 }
}

pub open spec fn unique_ids(s: Seq<TrackedPeer>) -> bool {
    forall|i: int, j: int|
        0 <= i < j < s.len() ==> (#[trigger] s[i]).info.device_id@ != (#[trigger] s[j]).info.device_id@
}

pub open spec fn has_id(s: Seq<TrackedPeer>, id: Seq<char>) -> bool {
    exists|i: int| 0 <= i < s.len() && (#[trigger] s[i]).info.device_id@ == id
}

/// `e` with its online flag recomputed for time `now`.
pub open spec fn aged(e: TrackedPeer, now: u64) -> TrackedPeer {
    TrackedPeer {
        info: PeerInfo { online: age(now, e.last_seen) <= PEER_ONLINE_TTL_MS, ..e.info },
        last_seen: e.last_seen,
    }
}

/// The table after `refresh(now)`: entries past the retain time-out are
/// dropped, the rest are online exactly when heard within the online time-out.
pub open spec fn refreshed(s: Seq<TrackedPeer>, now: u64) -> Seq<TrackedPeer>
    decreases s.len(),
{
    if s.len() == 0 {
        Seq::empty()
    } else {
        let rest = refreshed(s.drop_last(), now);
        if age(now, s.last().last_seen) <= PEER_RETAIN_TTL_MS {
            rest.push(aged(s.last(), now))
        } else {
            rest
        }
    }
}

/// Whether `refresh(now)` changes anything: a flag flips or an entry goes.
pub open spec fn refresh_changes(s: Seq<TrackedPeer>, now: u64) -> bool {
    exists|i: int|
        0 <= i < s.len() && (age(now, (#[trigger] s[i]).last_seen) > PEER_RETAIN_TTL_MS || (age(
            now,
            s[i].last_seen,
        ) <= PEER_ONLINE_TTL_MS) != s[i].info.online)
}

/// `id@address` of each entry that goes from online to offline at `now`.
pub open spec fn expired_log(s: Seq<TrackedPeer>, now: u64) -> Seq<Seq<char>>
    decreases s.len(),
{
    if s.len() == 0 {
        Seq::empty()
    } else {
        let rest = expired_log(s.drop_last(), now);
        let e = s.last();
        if e.info.online && age(now, e.last_seen) > PEER_ONLINE_TTL_MS {
            rest.push(e.info.device_id@ + "@"@ + e.info.address@)
        } else {
            rest
        }
    }
}

proof fn lemma_refreshed_ids(s: Seq<TrackedPeer>, now: u64)
    requires
        unique_ids(s),
    ensures
        unique_ids(refreshed(s, now)),
        forall|j: int|
            0 <= j < refreshed(s, now).len() ==> has_id(s, (#[trigger] refreshed(s, now)[j]).info.device_id@),
    decreases s.len(),
{
    if s.len() > 0 {
        let d = s.drop_last();
        assert(unique_ids(d)) by {
            assert forall|i: int, j: int| 0 <= i < j < d.len() implies (#[trigger] d[i]).info.device_id@ != (#[trigger] d[j]).info.device_id@ by {
                assert(d[i] == s[i] && d[j] == s[j]);
            }
        }
        lemma_refreshed_ids(d, now);
        let r = refreshed(d, now);
        assert forall|j: int| 0 <= j < r.len() implies has_id(s, (#[trigger] r[j]).info.device_id@) by {
            let i = choose|i: int| 0 <= i < d.len() && (#[trigger] d[i]).info.device_id@ == r[j].info.device_id@;
            assert(s[i] == d[i]);
        }
        assert forall|j: int| 0 <= j < r.len() implies (#[trigger] r[j]).info.device_id@ != s.last().info.device_id@ by {
            let i = choose|i: int| 0 <= i < d.len() && (#[trigger] d[i]).info.device_id@ == r[j].info.device_id@;
            assert(s[i] == d[i]);
        }
        if age(now, s.last().last_seen) <= PEER_RETAIN_TTL_MS {
            let t = r.push(aged(s.last(), now));
            assert(t == refreshed(s, now));
            assert forall|j: int| 0 <= j < t.len() implies has_id(s, (#[trigger] t[j]).info.device_id@) by {
                if j < r.len() {
                    assert(t[j] == r[j]);
                } else {
                    assert(s[s.len() - 1].info.device_id@ == t[j].info.device_id@);
                }
            }
            assert forall|i: int, j: int| 0 <= i < j < t.len() implies (#[trigger] t[i]).info.device_id@ != (#[trigger] t[j]).info.device_id@ by {
                assert(t[i] == r[i]);
                if j < r.len() {
                    assert(t[j] == r[j]);
                }
            }
        }
    }
}

impl PeerTable {
    pub closed spec fn entries(&self) -> Seq<TrackedPeer> {
        self.peers@.map_values(|e: PeerEntry| TrackedPeer { info: e.info, last_seen: e.last_seen })
    }

    pub closed spec fn wf(&self) -> bool {
        unique_ids(self.entries())
    }

    pub fn new() -> (t: Self)
        ensures
            t.wf(),
            t.entries() == Seq::<TrackedPeer>::empty(),
    {
        let t = PeerTable { peers: Vec::new() };
        assert(t.entries() =~= Seq::<TrackedPeer>::empty());
        t
    }

    /// Number of peers currently online.
    pub fn online_count(&self) -> (n: usize)
        ensures
            n == self.entries().filter(|e: TrackedPeer| e.info.online).len(),
    {
        let mut n: usize = 0;
        let mut i: usize = 0;
        while i < self.peers.len()
            invariant
                i <= self.peers@.len(),
                n <= i,
                n == self.entries().take(i as int).filter(|e: TrackedPeer| e.info.online).len(),
            decreases self.peers@.len() - i,
        {
            proof {
                let s = self.entries();
                assert(s.take(i + 1).drop_last() =~= s.take(i as int));
                reveal_with_fuel(Seq::filter, 1);
            }
            if self.peers[i].info.online {
                n = n + 1;
            }
            i = i + 1;
        }
        assert(self.entries().take(i as int) =~= self.entries());
        n
    }

    /// Whether a peer with this device id is in the table.
    pub fn contains(&self, device_id: &str) -> (r: bool)
        ensures
            r == has_id(self.entries(), device_id@),
    {
        let mut i: usize = 0;
        while i < self.peers.len()
            invariant
                i <= self.peers@.len(),
                forall|k: int| 0 <= k < i ==> (#[trigger] self.entries()[k]).info.device_id@ != device_id@,
            decreases self.peers@.len() - i,
        {
            if str_eq(self.peers[i].info.device_id.as_str(), device_id) {
                assert(self.entries()[i as int].info.device_id@ == device_id@);
                return true;
            }
            i = i + 1;
        }
        false
    }

    /// Records an announce from `address`, heard at monotonic time `now` and
    /// wall-clock time `wall_ms`; the entry for that device is replaced.
    pub fn upsert_from_announce(&mut self, packet: &AnnouncePacket, address: String, now: u64, wall_ms: u64)
        requires
            old(self).wf(),
        ensures
            final(self).wf(),
            ({
                let e = TrackedPeer {
                    info: PeerInfo {
                        device_id: packet.device_id,
                        display_name: packet.display_name,
                        os: packet.os,
                        control_port: packet.control_port,
                        address,
                        online: true,
                        last_seen_ms: wall_ms,
                    },
                    last_seen: now,
                };
                &&& has_id(old(self).entries(), packet.device_id@) ==> exists|i: int|
                    0 <= i < old(self).entries().len()
                        && (#[trigger] old(self).entries()[i]).info.device_id@ == packet.device_id@
                        && final(self).entries() == old(self).entries().update(i, e)
                &&& !has_id(old(self).entries(), packet.device_id@) ==> final(self).entries()
                    == old(self).entries().push(e)
            }),
    {
        let entry = PeerEntry {
            info: PeerInfo {
                device_id: packet.device_id.clone(),
                display_name: packet.display_name.clone(),
                os: packet.os.clone(),
                control_port: packet.control_port,
                address,
                online: true,
                last_seen_ms: wall_ms,
            },
            last_seen: now,
        };
        let ghost s = self.entries();
        let mut i: usize = 0;
        while i < self.peers.len()
            invariant
                i <= self.peers@.len(),
                s == self.entries(),
                s == old(self).entries(),
                unique_ids(s),
                entry.info == (PeerInfo {
                    device_id: packet.device_id,
                    display_name: packet.display_name,
                    os: packet.os,
                    control_port: packet.control_port,
                    address,
                    online: true,
                    last_seen_ms: wall_ms,
                }),
                entry.last_seen == now,
                forall|k: int| 0 <= k < i ==> (#[trigger] s[k]).info.device_id@ != packet.device_id@,
            decreases self.peers@.len() - i,
        {
            if str_eq(self.peers[i].info.device_id.as_str(), packet.device_id.as_str()) {
                assert(s[i as int].info.device_id@ == packet.device_id@);
                let ghost before = self.peers@;
                let ghost te = TrackedPeer { info: entry.info, last_seen: entry.last_seen };
                self.peers.set(i, entry);
                proof {
                    assert(self.peers@ == before.update(i as int, entry));
                    assert(self.entries().len() == s.len());
                    assert(forall|k: int| 0 <= k < s.len() && k != i ==> self.entries()[k] == s[k]);
                    assert(self.entries()[i as int] == te);
                    assert(te.info.device_id@ == packet.device_id@);
                    assert(te.info.device_id@ == s[i as int].info.device_id@);
                    assert(self.entries() =~= s.update(i as int, te));
                    assert forall|a: int, b: int| 0 <= a < b < self.entries().len() implies (#[trigger] self.entries()[a]).info.device_id@ != (#[trigger] self.entries()[b]).info.device_id@ by {
                        if a != i && b != i {
                            assert(self.entries()[a] == s[a] && self.entries()[b] == s[b]);
                        } else if a == i {
                            assert(self.entries()[b] == s[b]);
                            assert(s[a].info.device_id@ != s[b].info.device_id@);
                        } else {
                            assert(self.entries()[a] == s[a]);
                            assert(s[a].info.device_id@ != s[b].info.device_id@);
                        }
                    }
                }
                assert(old(self).entries()[i as int].info.device_id@ == packet.device_id@);
                assert(self.entries() == old(self).entries().update(i as int, te));
                return;
            }
            i = i + 1;
        }
        self.peers.push(entry);
        proof {
            assert(self.entries() =~= s.push(TrackedPeer { info: entry.info, last_seen: now }));
            assert forall|a: int, b: int| 0 <= a < b < self.entries().len() implies (#[trigger] self.entries()[a]).info.device_id@ != (#[trigger] self.entries()[b]).info.device_id@ by {
                assert(self.entries()[a] == s[a]);
                if b < s.len() {
                    assert(self.entries()[b] == s[b]);
                }
            }
        }
    }

    /// Recomputes online flags for time `now` and drops long-silent peers.
    /// Returns whether anything changed, and `id@address` for each peer that
    /// just went offline.
    pub fn refresh(&mut self, now: u64) -> (r: (bool, Vec<String>))
        requires
            old(self).wf(),
        ensures
            final(self).wf(),
            final(self).entries() == refreshed(old(self).entries(), now),
            r.0 == refresh_changes(old(self).entries(), now),
            r.1@.map_values(|x: String| x@) == expired_log(old(self).entries(), now),
    {
        let ghost s = self.entries();
        let mut kept: Vec<PeerEntry> = Vec::new();
        let mut log: Vec<String> = Vec::new();
        let mut changed = false;
        let mut i: usize = 0;
        while i < self.peers.len()
            invariant
                i <= self.peers@.len(),
                s == self.entries(),
                kept@.map_values(|e: PeerEntry| TrackedPeer { info: e.info, last_seen: e.last_seen }) == refreshed(s.take(i as int), now),
                log@.map_values(|x: String| x@) == expired_log(s.take(i as int), now),
                changed == refresh_changes(s.take(i as int), now),
            decreases self.peers@.len() - i,
        {
            let ghost t = s.take(i + 1);
            proof {
                assert(t.drop_last() =~= s.take(i as int));
                assert(t.last() == s[i as int]);
            }
            let p = &self.peers[i];
            let a: u64 = if now >= p.last_seen { now - p.last_seen } else { 0 };
            let should_online = a <= PEER_ONLINE_TTL_MS;
            let flips = p.info.online != should_online;
            if flips && !should_online {
                let mut m = p.info.device_id.clone();
                m.append("@");
                m.append(p.info.address.as_str());
                log.push(m);
            }
            let drops = a > PEER_RETAIN_TTL_MS;
            if !drops {
                let mut info = p.info.duplicate();
                info.online = should_online;
                kept.push(PeerEntry { info, last_seen: p.last_seen });
            }
            proof {
                let k = kept@.map_values(|e: PeerEntry| TrackedPeer { info: e.info, last_seen: e.last_seen });
                assert(k =~= refreshed(t, now));
                let l = log@.map_values(|x: String| x@);
                assert(l =~= expired_log(t, now));
                if flips || drops {
                    assert(t[i as int] == s[i as int]);
                }
                assert(refresh_changes(t, now) == (changed || flips || drops)) by {
                    if refresh_changes(t, now) && !(flips || drops) {
                        let j = choose|j: int| 0 <= j < t.len() && (age(now, (#[trigger] t[j]).last_seen) > PEER_RETAIN_TTL_MS || (age(now, t[j].last_seen) <= PEER_ONLINE_TTL_MS) != t[j].info.online);
                        assert(s.take(i as int)[j] == t[j]);
                    }
                    if changed {
                        let j = choose|j: int| 0 <= j < s.take(i as int).len() && (age(now, (#[trigger] s.take(i as int)[j]).last_seen) > PEER_RETAIN_TTL_MS || (age(now, s.take(i as int)[j].last_seen) <= PEER_ONLINE_TTL_MS) != s.take(i as int)[j].info.online);
                        assert(t[j] == s.take(i as int)[j]);
                    }
                }
            }
            changed = changed || flips || drops;
            i = i + 1;
        }
        proof {
            assert(s.take(i as int) =~= s);
            lemma_refreshed_ids(s, now);
        }
        self.peers = kept;
        (changed, log)
    }

    /// The peers, online first, then by lower-cased name, then by id.
    pub fn list(&self) -> (r: Vec<PeerInfo>)
        ensures
            sorted(r@),
            r@.to_multiset() == self.entries().map_values(|e: TrackedPeer| e.info).to_multiset(),
            forall|i: int, j: int|
                0 <= i < j < r@.len() && (#[trigger] r@[j]).online ==> (#[trigger] r@[i]).online,
            forall|i: int, j: int|
                0 <= i < j < r@.len() && (#[trigger] r@[i]).online == (#[trigger] r@[j]).online
                    ==> seq_le(lowercase(r@[i].display_name@), lowercase(r@[j].display_name@)),
    {
        let mut v: Vec<PeerInfo> = Vec::new();
        let mut i: usize = 0;
        while i < self.peers.len()
            invariant
                i <= self.peers@.len(),
                v@ == self.entries().map_values(|e: TrackedPeer| e.info).take(i as int),
            decreases self.peers@.len() - i,
        {
            v.push(self.peers[i].info.duplicate());
            proof {
                assert(v@ =~= self.entries().map_values(|e: TrackedPeer| e.info).take(i + 1));
            }
            i = i + 1;
        }
        assert(v@ =~= self.entries().map_values(|e: TrackedPeer| e.info));
        let r = sort_by_order(v);
        proof {
            lemma_peer_list_order(r@);
        }
        r
    }
}

/// Discovery status shown in Settings.
#[derive(Debug)]
pub struct DiscoveryStatus {
    pub running: bool,
    pub port: u16,
    pub control_port: u16,
    pub protocol_version: u32,
    pub last_error: Option<String>,
    pub peer_count: usize,
    pub hint: String,
}

pub open spec fn default_hint_text() -> Seq<char> {
    "Peers appear when another device runs jotainchatttttttt on the same Wi\u{2011}Fi (Mac or Windows). On macOS allow Local Network if prompted; on Windows allow Private network / firewall for this app. Ports: UDP 48765, TCP 48766/48767."@
}

pub open spec fn error_hint_text(msg: Seq<char>) -> Seq<char> {
    msg + ". If the list stays empty: same Wi\u{2011}Fi, disable AP/client isolation, allow Local Network for jotainchatttttttt."@
}

/// The help text shown while discovery works.
pub fn default_hint() -> (r: String)
    ensures
        r@ == default_hint_text(),
{
    String::from_str("Peers appear when another device runs jotainchatttttttt on the same Wi\u{2011}Fi (Mac or Windows). On macOS allow Local Network if prompted; on Windows allow Private network / firewall for this app. Ports: UDP 48765, TCP 48766/48767.")
}

impl DiscoveryStatus {
    /// Status before the socket is bound.
    pub fn initial() -> (st: Self)
        ensures
            !st.running,
            st.port == DISCOVERY_PORT,
            st.control_port == CONTROL_PORT,
            st.protocol_version == PROTOCOL_VERSION,
            st.last_error is None,
            st.peer_count == 0,
            st.hint@ == default_hint_text(),
    {
        DiscoveryStatus {
            running: false,
            port: DISCOVERY_PORT,
            control_port: CONTROL_PORT,
            protocol_version: PROTOCOL_VERSION,
            last_error: None,
            peer_count: 0,
            hint: default_hint(),
        }
    }

    /// Records a discovery failure and the troubleshooting hint for it.
    pub fn record_error(&mut self, msg: String)
        ensures
            final(self).last_error == Some(msg),
            final(self).hint@ == error_hint_text(msg@),
            final(self).running == old(self).running,
            final(self).peer_count == old(self).peer_count,
            final(self).port == old(self).port,
            final(self).control_port == old(self).control_port,
            final(self).protocol_version == old(self).protocol_version,
    {
        let mut h = msg.clone();
        h.append(". If the list stays empty: same Wi\u{2011}Fi, disable AP/client isolation, allow Local Network for jotainchatttttttt.");
        self.hint = h;
        self.last_error = Some(msg);
    }

    /// After a successful announce a sticky error is cleared and the default hint restored.
    pub fn clear_error_after_announce(&mut self)
        ensures
            final(self).last_error is None,
            old(self).last_error is Some ==> final(self).hint@ == default_hint_text(),
            old(self).last_error is None ==> final(self).hint == old(self).hint,
            final(self).running == old(self).running,
            final(self).peer_count == old(self).peer_count,
            final(self).port == old(self).port,
            final(self).control_port == old(self).control_port,
            final(self).protocol_version == old(self).protocol_version,
    {
        if self.last_error.is_some() {
            self.last_error = None;
            self.hint = default_hint();
        }
    }
}

/// Shared discovery state: the status and the stop request.
pub struct DiscoveryState {
    pub status: DiscoveryStatus,
    pub stop: bool,
}

impl DiscoveryState {
    pub fn new() -> (st: Self)
        ensures
            !st.stop,
            !st.status.running,
            st.status.port == DISCOVERY_PORT,
            st.status.control_port == CONTROL_PORT,
            st.status.protocol_version == PROTOCOL_VERSION,
            st.status.last_error is None,
            st.status.peer_count == 0,
            st.status.hint@ == default_hint_text(),
    {
        DiscoveryState { status: DiscoveryStatus::initial(), stop: false }
    }
}

} // verus!
