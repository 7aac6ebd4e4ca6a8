//! Control-session rules: who dials whom, dual-connect arbitration, the
//! session map with its dial guard, and reconciliation with discovery.

use vstd::prelude::*;
use vstd::string::*;
use crate::discovery::{PeerInfo, CONTROL_PORT};
use crate::order::{seq_lt, seq_le, str_lt, str_eq, lemma_lt_irreflexive, lemma_lt_asymmetric, lemma_lt_total, lemma_lt_transitive};
use crate::sort::{Ordered, sorted, sort_by_order};
use crate::text::{decimal, decimal_spec};
use crate::protocol::WireMessage;
use crate::discovery::PROTOCOL_VERSION;
use crate::frame::FrameError;
use crate::diagnostics::{LogicPoint, DiagLevel};

verus! {

/// The lower device id dials; the higher one only accepts.
pub open spec fn preferred_dialer(self_id: Seq<char>, peer_id: Seq<char>) -> bool {
    seq_lt(self_id, peer_id)
}

/// A connection is on the correct side when "we dialed" matches our role.
pub open spec fn correct_side(we_dialed: bool, self_id: Seq<char>, peer_id: Seq<char>) -> bool {
    we_dialed == preferred_dialer(self_id, peer_id)
}

pub fn is_preferred_dialer(self_id: &str, peer_id: &str) -> (r: bool)
    ensures
        r == preferred_dialer(self_id@, peer_id@),
{
    str_lt(self_id, peer_id)
}

pub fn is_correct_connection_side(we_dialed: bool, self_id: &str, peer_id: &str) -> (r: bool)
    ensures
        r == correct_side(we_dialed, self_id@, peer_id@),
{
    we_dialed == is_preferred_dialer(self_id, peer_id)
}

/// Law: of two distinct devices exactly one is the preferred dialer.
pub proof fn lemma_exactly_one_dialer(a: Seq<char>, b: Seq<char>)
    requires
        a != b,
    ensures
        preferred_dialer(a, b) != preferred_dialer(b, a),
{
    lemma_lt_total(a, b);
    lemma_lt_asymmetric(a, b);
}

/// Law: both ends of one TCP connection (one dialed, the other accepted)
/// reach the same verdict on whether it is on the correct side.
pub proof fn lemma_both_ends_agree(we_dialed: bool, a: Seq<char>, b: Seq<char>)
    requires
        a != b,
    ensures
        correct_side(we_dialed, a, b) == correct_side(!we_dialed, b, a),
{
    lemma_exactly_one_dialer(a, b);
}

/// Law: a device never prefers to dial itself.
pub proof fn lemma_no_self_dial(a: Seq<char>)
    ensures
        !preferred_dialer(a, a),
{
    lemma_lt_irreflexive(a);
}

/// A live session as the UI lists it.
#[derive(Debug)]
pub struct SessionInfo {
    pub peer_id: String,
    pub display_name: String,
    pub address: String,
    pub connected: bool,
}

/// Law: a session list in list order runs by display name, ascending.
pub proof fn lemma_session_list_order(s: Seq<SessionInfo>)
    requires
        sorted(s),
    ensures
        forall|i: int, j: int|
            0 <= i < j < s.len() ==> seq_le((#[trigger] s[i]).display_name@, (#[trigger] s[j]).display_name@),
{
    assert forall|i: int, j: int| 0 <= i < j < s.len() implies seq_le(
        (#[trigger] s[i]).display_name@,
        (#[trigger] s[j]).display_name@,
    ) by {
        assert(s[i].le(s[j]));
    }
}

impl Ordered for SessionInfo {
    open spec fn le(self, other: Self) -> bool {
        seq_le(self.display_name@, other.display_name@)
    }

    fn le_exec(&self, other: &Self) -> (r: bool) {
        str_eq(self.display_name.as_str(), other.display_name.as_str()) || str_lt(
            self.display_name.as_str(),
            other.display_name.as_str(),
        )
    }

    proof fn lemma_total(a: Self, b: Self) {
        lemma_lt_total(a.display_name@, b.display_name@);
    }

    proof fn lemma_trans(a: Self, b: Self, c: Self) {
        if seq_lt(a.display_name@, b.display_name@) && seq_lt(b.display_name@, c.display_name@) {
            lemma_lt_transitive(a.display_name@, b.display_name@, c.display_name@);
        }
    }
}

/// One registered session; `conn` identifies the live connection.
#[derive(Debug)]
pub struct SessionEntry {
    pub peer_id: String,
    pub display_name: String,
    pub address: String,
    /// True if this side initiated the TCP connection.
    pub we_dialed: bool,
    pub conn: u64,
}

impl SessionEntry {
    pub fn duplicate(&self) -> (r: Self)
        ensures
            r == *self,
    {
        SessionEntry {
            peer_id: self.peer_id.clone(),
            display_name: self.display_name.clone(),
            address: self.address.clone(),
            we_dialed: self.we_dialed,
            conn: self.conn,
        }
    }
}

/// What to do with a connection whose hello just succeeded.
#[derive(PartialEq, Eq, Structural)]
pub enum Arbitration {
    /// An existing correct-side session stays; the new wrong-side one is closed.
    KeepExisting,
    /// Both are on the correct side (a race): the first one stays.
    KeepFirst,
    /// The existing session is on the wrong side: it is closed and replaced.
    ReplaceExisting,
    /// No session yet, but the new connection is on the wrong side: closed.
    DropWrongSide,
    /// No session yet and the new connection is on the correct side: registered.
    Register,
}

/// The arbitration rule for a new connection, given the side of the session
/// already registered for that peer (if any).
pub open spec fn arbitration(existing: Option<bool>, we_dialed: bool, self_id: Seq<char>, peer_id: Seq<char>) -> Arbitration {
    let new_ok = correct_side(we_dialed, self_id, peer_id);
    match existing {
        Some(e) => if correct_side(e, self_id, peer_id) {
            if new_ok { Arbitration::KeepFirst } else { Arbitration::KeepExisting }
        } else {
            Arbitration::ReplaceExisting
        },
        None => if new_ok { Arbitration::Register } else { Arbitration::DropWrongSide },
    }
}

pub fn arbitrate(existing_we_dialed: Option<bool>, we_dialed: bool, self_id: &str, peer_id: &str) -> (r: Arbitration)
    ensures
        r == arbitration(existing_we_dialed, we_dialed, self_id@, peer_id@),
{
    let new_ok = is_correct_connection_side(we_dialed, self_id, peer_id);
    match existing_we_dialed {
        Some(e) => {
            if is_correct_connection_side(e, self_id, peer_id) {
                if new_ok { Arbitration::KeepFirst } else { Arbitration::KeepExisting }
            } else {
                Arbitration::ReplaceExisting
            }
        },
        None => if new_ok { Arbitration::Register } else { Arbitration::DropWrongSide },
    }
}

/// Law: after arbitration the peer's registered session (if any) is on the
/// correct side whenever the old or the new connection was.
pub proof fn lemma_arbitration_keeps_correct_side(existing: Option<bool>, we_dialed: bool, self_id: Seq<char>, peer_id: Seq<char>)
    ensures
        ({
            let r = arbitration(existing, we_dialed, self_id, peer_id);
            let survivor: Option<bool> = match r {
                Arbitration::KeepExisting | Arbitration::KeepFirst => existing,
                Arbitration::ReplaceExisting | Arbitration::Register => Some(we_dialed),
                Arbitration::DropWrongSide => None,
            };
            (correct_side(we_dialed, self_id, peer_id) || (existing matches Some(e) && correct_side(e, self_id, peer_id)))
                ==> (survivor matches Some(s) && correct_side(s, self_id, peer_id))
        }),
{
}

/// How a registered session is listed.
pub open spec fn info_of(e: SessionEntry) -> SessionInfo {
    SessionInfo { peer_id: e.peer_id, display_name: e.display_name, address: e.address, connected: true }
}

pub open spec fn unique_peers(s: Seq<SessionEntry>) -> bool {
    forall|i: int, j: int|
        0 <= i < j < s.len() ==> (#[trigger] s[i]).peer_id@ != (#[trigger] s[j]).peer_id@
}

pub open spec fn index_of_peer(s: Seq<SessionEntry>, peer: Seq<char>) -> int {
    choose|i: int| 0 <= i < s.len() && (#[trigger] s[i]).peer_id@ == peer
}

pub open spec fn has_peer(s: Seq<SessionEntry>, peer: Seq<char>) -> bool {
    exists|i: int| 0 <= i < s.len() && (#[trigger] s[i]).peer_id@ == peer
}

/// Sessions by peer (one each) plus the peers with a dial in flight.
pub struct SessionMap {
    entries: Vec<SessionEntry>,
    dialing: Vec<String>,
}

impl SessionMap {
    pub closed spec fn sessions(&self) -> Seq<SessionEntry> {
        self.entries@
    }

    pub closed spec fn dialing(&self) -> Set<Seq<char>> {
        names(self.dialing@)
    }

    pub closed spec fn wf(&self) -> bool {
        unique_peers(self.entries@)
    }

    pub fn new() -> (m: Self)
        ensures
            m.wf(),
            m.sessions() == Seq::<SessionEntry>::empty(),
            m.dialing() == Set::<Seq<char>>::empty(),
    {
        let m = SessionMap { entries: Vec::new(), dialing: Vec::new() };
        assert(m.dialing() =~= Set::<Seq<char>>::empty());
        m
    }

    fn find(&self, peer_id: &str) -> (r: Option<usize>)
        ensures
            r matches Some(i) ==> i < self.sessions().len() && self.sessions()[i as int].peer_id@ == peer_id@,
            r is None ==> !has_peer(self.sessions(), peer_id@),
    {
        let mut i: usize = 0;
        while i < self.entries.len()
            invariant
                i <= self.entries@.len(),
                forall|k: int| 0 <= k < i ==> (#[trigger] self.entries@[k]).peer_id@ != peer_id@,
            decreases self.entries@.len() - i,
        {
            if str_eq(self.entries[i].peer_id.as_str(), peer_id) {
                return Some(i);
            }
            i = i + 1;
        }
        None
    }

    /// The session registered for `peer_id`.
    pub fn get(&self, peer_id: &str) -> (r: Option<SessionEntry>)
        requires
            self.wf(),
        ensures
            r matches Some(e) ==> has_peer(self.sessions(), peer_id@) && e == self.sessions()[index_of_peer(self.sessions(), peer_id@)],
            r is None ==> !has_peer(self.sessions(), peer_id@),
    {
        match self.find(peer_id) {
            Some(i) => {
                proof {
                    let j = index_of_peer(self.sessions(), peer_id@);
                    assert(self.sessions()[i as int].peer_id@ == peer_id@);
                    if j != i {
                        if j < i {
                            assert(self.sessions()[j].peer_id@ != self.sessions()[i as int].peer_id@);
                        } else {
                            assert(self.sessions()[i as int].peer_id@ != self.sessions()[j].peer_id@);
                        }
                    }
                }
                Some(self.entries[i].duplicate())
            },
            None => None,
        }
    }

    /// The sessions as listed for the UI, by display name.
    pub fn list(&self) -> (r: Vec<SessionInfo>)
        ensures
            sorted(r@),
            forall|i: int, j: int|
                0 <= i < j < r@.len() ==> seq_le(
                    (#[trigger] r@[i]).display_name@,
                    (#[trigger] r@[j]).display_name@,
                ),
            r@.len() == self.sessions().len(),
            r@.to_multiset() == self.sessions().map_values(|e: SessionEntry| info_of(e)).to_multiset(),
    {
        let mut v: Vec<SessionInfo> = Vec::new();
        let mut i: usize = 0;
        while i < self.entries.len()
            invariant
                i <= self.entries@.len(),
                v@ == self.entries@.map_values(|e: SessionEntry| info_of(e)).take(i as int),
            decreases self.entries@.len() - i,
        {
            let e = &self.entries[i];
            v.push(SessionInfo {
                peer_id: e.peer_id.clone(),
                display_name: e.display_name.clone(),
                address: e.address.clone(),
                connected: true,
            });
            proof {
                assert(v@ =~= self.entries@.map_values(|e: SessionEntry| info_of(e)).take(i + 1));
            }
            i = i + 1;
        }
        assert(v@ =~= self.entries@.map_values(|e: SessionEntry| info_of(e)));
        let r = sort_by_order(v);
        proof {
            lemma_session_list_order(r@);
        }
        r
    }

    fn dialing_index(&self, peer_id: &str) -> (r: Option<usize>)
        ensures
            r matches Some(i) ==> i < self.dialing@.len() && self.dialing@[i as int]@ == peer_id@,
            r is None ==> !self.dialing().contains(peer_id@),
    {
        let mut i: usize = 0;
        while i < self.dialing.len()
            invariant
                i <= self.dialing@.len(),
                forall|k: int| 0 <= k < i ==> (#[trigger] self.dialing@[k])@ != peer_id@,
            decreases self.dialing@.len() - i,
        {
            if str_eq(self.dialing[i].as_str(), peer_id) {
                return Some(i);
            }
            i = i + 1;
        }
        None
    }

    /// Marks a dial to `peer_id` as in flight, unless a session or a dial
    /// already exists; returns whether the dial may proceed.
    pub fn try_begin_dial(&mut self, peer_id: &str) -> (r: bool)
        requires
            old(self).wf(),
        ensures
            final(self).wf(),
            final(self).sessions() == old(self).sessions(),
            r == (!has_peer(old(self).sessions(), peer_id@) && !old(self).dialing().contains(peer_id@)),
            r ==> final(self).dialing() == old(self).dialing().insert(peer_id@),
            !r ==> final(self).dialing() == old(self).dialing(),
    {
        if self.find(peer_id).is_some() {
            return false;
        }
        if self.dialing_index(peer_id).is_some() {
            return false;
        }
        let ghost before = self.dialing@;
        self.dialing.push(String::from_str(peer_id));
        proof {
            lemma_names_push(before, self.dialing@[before.len() as int]);
            assert(self.dialing@ == before.push(self.dialing@[before.len() as int]));
        }
        proof {
            assert(self.dialing() =~= old(self).dialing().insert(peer_id@));
        }
        true
    }

    /// Registers a connection whose hello succeeded, by the arbitration rule.
    /// The dial guard for that peer is released first. Returns the verdict and,
    /// on replacement, the session that must be closed.
    pub fn register_connection(&mut self, entry: SessionEntry, self_id: &str) -> (r: (Arbitration, Option<SessionEntry>))
        requires
            old(self).wf(),
        ensures
            final(self).wf(),
            final(self).dialing() == old(self).dialing().remove(entry.peer_id@),
            ({
                let s = old(self).sessions();
                let p = entry.peer_id@;
                let existing: Option<bool> = if has_peer(s, p) { Some(s[index_of_peer(s, p)].we_dialed) } else { None };
                &&& r.0 == arbitration(existing, entry.we_dialed, self_id@, p)
                &&& r.0 == Arbitration::ReplaceExisting ==> r.1 == Some(s[index_of_peer(s, p)])
                    && final(self).sessions() == s.update(index_of_peer(s, p), entry)
                &&& r.0 == Arbitration::Register ==> r.1 is None && final(self).sessions() == s.push(entry)
                &&& (r.0 == Arbitration::KeepExisting || r.0 == Arbitration::KeepFirst
                    || r.0 == Arbitration::DropWrongSide) ==> r.1 is None && final(self).sessions() == s
            }),
    {
        self.end_dial(entry.peer_id.as_str());
        let ghost s = self.entries@;
        let found = self.find(entry.peer_id.as_str());
        proof {
            if let Some(i) = found {
                let j = index_of_peer(s, entry.peer_id@);
                if j != i {
                    if j < i {
                        assert(s[j].peer_id@ != s[i as int].peer_id@);
                    } else {
                        assert(s[i as int].peer_id@ != s[j].peer_id@);
                    }
                }
            }
        }
        let existing = match found {
            Some(i) => Some(self.entries[i].we_dialed),
            None => None,
        };
        let verdict = arbitrate(existing, entry.we_dialed, self_id, entry.peer_id.as_str());
        match verdict {
            Arbitration::ReplaceExisting => {
                let i = found.unwrap();
                let old_entry = self.entries[i].duplicate();
                self.entries.set(i, entry);
                proof {
                    assert forall|a: int, b: int| 0 <= a < b < self.entries@.len() implies (#[trigger] self.entries@[a]).peer_id@ != (#[trigger] self.entries@[b]).peer_id@ by {
                        assert(s[a].peer_id@ != s[b].peer_id@);
                    }
                }
                (verdict, Some(old_entry))
            },
            Arbitration::Register => {
                self.entries.push(entry);
                proof {
                    assert forall|a: int, b: int| 0 <= a < b < self.entries@.len() implies (#[trigger] self.entries@[a]).peer_id@ != (#[trigger] self.entries@[b]).peer_id@ by {
                        assert(self.entries@[a] == s[a]);
                        if b < s.len() {
                            assert(self.entries@[b] == s[b]);
                        }
                    }
                }
                (verdict, None)
            },
            _ => (verdict, None),
        }
    }

    /// Removes the session of `peer_id` only if it is still the connection
    /// `conn` (a replacement must not be removed by the connection it replaced).
    pub fn remove_if_current(&mut self, peer_id: &str, conn: u64) -> (r: bool)
        requires
            old(self).wf(),
        ensures
            final(self).wf(),
            final(self).dialing() == old(self).dialing(),
            ({
                let s = old(self).sessions();
                let i = index_of_peer(s, peer_id@);
                &&& r == (has_peer(s, peer_id@) && s[i].conn == conn)
                &&& r ==> final(self).sessions() == s.remove(i)
                &&& !r ==> final(self).sessions() == s
            }),
    {
        let ghost s = self.entries@;
        match self.find(peer_id) {
            Some(i) => {
                proof {
                    let j = index_of_peer(s, peer_id@);
                    if j != i {
                        if j < i {
                            assert(s[j].peer_id@ != s[i as int].peer_id@);
                        } else {
                            assert(s[i as int].peer_id@ != s[j].peer_id@);
                        }
                    }
                }
                if self.entries[i].conn == conn {
                    self.entries.remove(i);
                    proof {
                        assert forall|a: int, b: int| 0 <= a < b < self.entries@.len() implies (#[trigger] self.entries@[a]).peer_id@ != (#[trigger] self.entries@[b]).peer_id@ by {
                            let a0 = if a < i { a } else { a + 1 };
                            let b0 = if b < i { b } else { b + 1 };
                            assert(self.entries@[a] == s[a0] && self.entries@[b] == s[b0]);
                        }
                    }
                    true
                } else {
                    false
                }
            },
            None => false,
        }
    }

    /// Sessions that no longer match discovery: the peer is gone, offline,
    /// or now announces from another address.
    pub fn stale_sessions(&self, peers: &Vec<PeerInfo>) -> (r: Vec<SessionEntry>)
        ensures
            r@ == self.sessions().filter(|e: SessionEntry| !still_valid(e, peers@)),
    {
        let mut r: Vec<SessionEntry> = Vec::new();
        let mut i: usize = 0;
        while i < self.entries.len()
            invariant
                i <= self.entries@.len(),
                r@ == self.entries@.take(i as int).filter(|e: SessionEntry| !still_valid(e, peers@)),
            decreases self.entries@.len() - i,
        {
            proof {
                assert(self.entries@.take(i + 1).drop_last() =~= self.entries@.take(i as int));
                reveal_with_fuel(Seq::filter, 1);
            }
            let e = &self.entries[i];
            let mut keep = false;
            let mut j: usize = 0;
            while j < peers.len()
                invariant
                    j <= peers@.len(),
                    keep == exists|k: int| 0 <= k < j && peer_matches(#[trigger] peers@[k], *e),
                decreases peers@.len() - j,
            {
                let p = &peers[j];
                if p.online && str_eq(p.device_id.as_str(), e.peer_id.as_str()) && str_eq(p.address.as_str(), e.address.as_str()) {
                    keep = true;
                }
                proof {
                    if keep && !peer_matches(peers@[j as int], *e) {
                        let k = choose|k: int| 0 <= k < j && peer_matches(#[trigger] peers@[k], *e);
                        assert(k < j + 1);
                    }
                }
                j = j + 1;
            }
            if !keep {
                r.push(e.duplicate());
            }
            i = i + 1;
        }
        assert(self.entries@.take(i as int) =~= self.entries@);
        r
    }

    /// Removes each given session that is still current, and releases the
    /// dial guard of each of their peers.
    pub fn drop_sessions(&mut self, drops: &Vec<SessionEntry>)
        requires
            old(self).wf(),
        ensures
            final(self).wf(),
            final(self).sessions() == old(self).sessions().filter(|e: SessionEntry| !dropped_by(e, drops@)),
            final(self).dialing() == old(self).dialing().difference(peer_ids(drops@)),
    {
        let ghost s = self.entries@;
        let mut kept: Vec<SessionEntry> = Vec::new();
        let mut i: usize = 0;
        while i < self.entries.len()
            invariant
                i <= self.entries@.len(),
                s == self.entries@,
                kept@ == s.take(i as int).filter(|e: SessionEntry| !dropped_by(e, drops@)),
            decreases self.entries@.len() - i,
        {
            proof {
                assert(s.take(i + 1).drop_last() =~= s.take(i as int));
                reveal_with_fuel(Seq::filter, 1);
            }
            let e = &self.entries[i];
            let mut hit = false;
            let mut j: usize = 0;
            while j < drops.len()
                invariant
                    j <= drops@.len(),
                    hit == exists|k: int| 0 <= k < j && same_conn(#[trigger] drops@[k], *e),
                decreases drops@.len() - j,
            {
                if drops[j].conn == e.conn && str_eq(drops[j].peer_id.as_str(), e.peer_id.as_str()) {
                    hit = true;
                }
                proof {
                    if hit && !same_conn(drops@[j as int], *e) {
                        let k = choose|k: int| 0 <= k < j && same_conn(#[trigger] drops@[k], *e);
                        assert(k < j + 1);
                    }
                }
                j = j + 1;
            }
            if !hit {
                kept.push(e.duplicate());
            }
            i = i + 1;
        }
        proof {
            assert(s.take(i as int) =~= s);
            lemma_filter_unique(s, drops@);
        }
        self.entries = kept;
        let ghost dorig = self.dialing@;
        let mut dk: Vec<String> = Vec::new();
        let ghost gone = peer_ids(drops@);
        let mut a: usize = 0;
        proof {
            assert(names(dk@) =~= names(dorig.take(0)).difference(gone));
        }
        while a < self.dialing.len()
            invariant
                a <= self.dialing@.len(),
                self.dialing@ == dorig,
                gone == peer_ids(drops@),
                names(dk@) == names(dorig.take(a as int)).difference(gone),
            decreases self.dialing@.len() - a,
        {
            let ghost old_dk = dk@;
            proof {
                assert(dorig.take(a + 1) =~= dorig.take(a as int).push(dorig[a as int]));
                lemma_names_push(dorig.take(a as int), dorig[a as int]);
            }
            let mut in_drops = false;
            let mut j: usize = 0;
            while j < drops.len()
                invariant
                    j <= drops@.len(),
                    a < self.dialing@.len(),
                    in_drops == exists|k: int| 0 <= k < j && (#[trigger] drops@[k]).peer_id@ == self.dialing@[a as int]@,
                decreases drops@.len() - j,
            {
                if str_eq(drops[j].peer_id.as_str(), self.dialing[a].as_str()) {
                    in_drops = true;
                }
                proof {
                    if in_drops && drops@[j as int].peer_id@ != self.dialing@[a as int]@ {
                        let k = choose|k: int| 0 <= k < j && (#[trigger] drops@[k]).peer_id@ == self.dialing@[a as int]@;
                        assert(k < j + 1);
                    }
                }
                j = j + 1;
            }
            proof {
                let x = dorig[a as int]@;
                assert(gone.contains(x) == in_drops);
            }
            if !in_drops {
                dk.push(self.dialing[a].clone());
                proof {
                    lemma_names_push(old_dk, dorig[a as int]);
                }
            }
            proof {
                assert(names(dk@) =~= names(dorig.take(a + 1)).difference(gone));
            }
            a = a + 1;
        }
        self.dialing = dk;
        proof {
            assert(dorig.take(a as int) =~= dorig);
        }
    }

    /// The dial to `peer_id` is over (connected or failed).
    pub fn end_dial(&mut self, peer_id: &str)
        requires
            old(self).wf(),
        ensures
            final(self).wf(),
            final(self).sessions() == old(self).sessions(),
            final(self).dialing() == old(self).dialing().remove(peer_id@),
    {
        let ghost orig = self.dialing@;
        let mut kept: Vec<String> = Vec::new();
        let mut i: usize = 0;
        proof {
            assert(names(orig.take(0)) =~= Set::<Seq<char>>::empty());
            assert(names(kept@) =~= Set::<Seq<char>>::empty());
        }
        while i < self.dialing.len()
            invariant
                i <= self.dialing@.len(),
                self.dialing@ == orig,
                names(kept@) == names(orig.take(i as int)).remove(peer_id@),
            decreases self.dialing@.len() - i,
        {
            let ghost old_kept = kept@;
            proof {
                assert(orig.take(i + 1) =~= orig.take(i as int).push(orig[i as int]));
                lemma_names_push(orig.take(i as int), orig[i as int]);
            }
            if !str_eq(self.dialing[i].as_str(), peer_id) {
                kept.push(self.dialing[i].clone());
                proof {
                    lemma_names_push(old_kept, orig[i as int]);
                    assert(names(kept@) =~= names(orig.take(i + 1)).remove(peer_id@));
                }
            } else {
                assert(names(kept@) =~= names(orig.take(i + 1)).remove(peer_id@));
            }
            i = i + 1;
        }
        self.dialing = kept;
        proof {
            assert(orig.take(i as int) =~= orig);
        }
    }
}

/// `p` still vouches for session `e`: same device, online, same address.
pub open spec fn peer_matches(p: PeerInfo, e: SessionEntry) -> bool {
    p.online && p.device_id@ == e.peer_id@ && p.address@ == e.address@
}

pub open spec fn still_valid(e: SessionEntry, peers: Seq<PeerInfo>) -> bool {
    exists|k: int| 0 <= k < peers.len() && peer_matches(#[trigger] peers[k], e)
}

pub open spec fn same_conn(d: SessionEntry, e: SessionEntry) -> bool {
    d.conn == e.conn && d.peer_id@ == e.peer_id@
}

pub open spec fn peer_ids(drops: Seq<SessionEntry>) -> Set<Seq<char>> {
    Set::new(|p: Seq<char>| exists|k: int| 0 <= k < drops.len() && (#[trigger] drops[k]).peer_id@ == p)
}

pub open spec fn dropped_by(e: SessionEntry, drops: Seq<SessionEntry>) -> bool {
    exists|k: int| 0 <= k < drops.len() && same_conn(#[trigger] drops[k], e)
}

proof fn lemma_filter_unique(s: Seq<SessionEntry>, drops: Seq<SessionEntry>)
    requires
        unique_peers(s),
    ensures
        unique_peers(s.filter(|e: SessionEntry| !dropped_by(e, drops))),
{
    let f = s.filter(|e: SessionEntry| !dropped_by(e, drops));
    assert forall|i: int, j: int| 0 <= i < j < f.len() implies (#[trigger] f[i]).peer_id@ != (#[trigger] f[j]).peer_id@ by {
        lemma_filter_subseq(s, drops, i, j);
    }
}

proof fn lemma_filter_subseq(s: Seq<SessionEntry>, drops: Seq<SessionEntry>, i: int, j: int)
    requires
        unique_peers(s),
        0 <= i < j < s.filter(|e: SessionEntry| !dropped_by(e, drops)).len(),
    ensures
        s.filter(|e: SessionEntry| !dropped_by(e, drops))[i].peer_id@ != s.filter(|e: SessionEntry| !dropped_by(e, drops))[j].peer_id@,
    decreases s.len(),
{
    reveal_with_fuel(Seq::filter, 1);
    let d = s.drop_last();
    assert(unique_peers(d)) by {
        assert forall|a: int, b: int| 0 <= a < b < d.len() implies (#[trigger] d[a]).peer_id@ != (#[trigger] d[b]).peer_id@ by {
            assert(d[a] == s[a] && d[b] == s[b]);
        }
    }
    let fd = d.filter(|e: SessionEntry| !dropped_by(e, drops));
    let f = s.filter(|e: SessionEntry| !dropped_by(e, drops));
    assert(s == d.push(s.last()));
    if j < fd.len() {
        assert(f[i] == fd[i] && f[j] == fd[j]);
        lemma_filter_subseq(d, drops, i, j);
    } else {
        assert(f[i] == fd[i]);
        assert(f[j] == s.last());
        assert(fd.contains(fd[i]));
        d.lemma_filter_contains_rev(|e: SessionEntry| !dropped_by(e, drops), fd[i]);
        let k = choose|k: int| 0 <= k < d.len() && d[k] == fd[i];
        assert(s[k] == d[k]);
        assert(s[k].peer_id@ != s[s.len() - 1].peer_id@);
    }
}

/// The names held in a list of strings.
pub open spec fn names(s: Seq<String>) -> Set<Seq<char>> {
    Set::new(|p: Seq<char>| exists|i: int| 0 <= i < s.len() && (#[trigger] s[i])@ == p)
}

proof fn lemma_names_push(s: Seq<String>, x: String)
    ensures
        names(s.push(x)) == names(s).insert(x@),
{
    let t = s.push(x);
    assert forall|p: Seq<char>| names(t).contains(p) == names(s).insert(x@).contains(p) by {
        if names(t).contains(p) {
            let i = choose|i: int| 0 <= i < t.len() && (#[trigger] t[i])@ == p;
            if i < s.len() {
                assert(s[i] == t[i]);
            }
        }
        if names(s).contains(p) {
            let i = choose|i: int| 0 <= i < s.len() && (#[trigger] s[i])@ == p;
            assert(t[i] == s[i]);
        }
        if p == x@ {
            assert(t[s.len() as int] == x);
        }
    }
    assert(names(t) =~= names(s).insert(x@));
}

/// Whether this device should dial `peer` now: the peer is online and we
/// are the preferred dialer.
pub fn should_dial(self_id: &str, peer: &PeerInfo) -> (r: bool)
    ensures
        r == (peer.online && preferred_dialer(self_id@, peer.device_id@)),
{
    peer.online && is_preferred_dialer(self_id, peer.device_id.as_str())
}

/// The control port to dial: the advertised one, or the default if none.
pub fn dial_port(advertised: u16) -> (p: u16)
    ensures
        p == (if advertised == 0 { CONTROL_PORT } else { advertised }),
{
    if advertised == 0 { CONTROL_PORT } else { advertised }
}

/// `host:port` for the control connection to `peer`.
pub fn control_address(peer: &PeerInfo) -> (r: String)
    ensures
        r@ == peer.address@ + ":"@ + decimal_spec(
            (if peer.control_port == 0 { CONTROL_PORT } else { peer.control_port }) as nat,
        ),
{
    let mut s = peer.address.clone();
    s.append(":");
    let d = decimal(dial_port(peer.control_port) as u64);
    s.append(d.as_str());
    s
}

/// The name this device sends in its hello: its display name, or "Mac" if unset.
pub fn hello_name(display_name: &str) -> (r: String)
    ensures
        display_name@.len() == 0 ==> r@ == "Mac"@,
        display_name@.len() > 0 ==> r@ == display_name@,
{
    if display_name.unicode_len() == 0 {
        String::from_str("Mac")
    } else {
        String::from_str(display_name)
    }
}

/// Checks the peer's first frame: it must be a hello of our protocol version
/// from another device. On success yields the peer's id and name.
pub fn check_hello(msg: WireMessage, self_id: &str, from_addr: &str) -> (r: Result<(String, String), String>)
    ensures
        match msg {
            WireMessage::Hello { v, device_id, display_name } => {
                &&& v != PROTOCOL_VERSION ==> (r matches Err(m) && m@ == "incompatible protocol version "@
                    + decimal_spec(v as nat) + " (ours 1) from "@ + from_addr@)
                &&& v == PROTOCOL_VERSION && device_id@ == self_id@ ==> (r matches Err(m) && m@
                    == "peer is self"@)
                &&& v == PROTOCOL_VERSION && device_id@ != self_id@ ==> r == Ok::<(String, String), String>((device_id, display_name))
            },
            _ => r matches Err(m) && m@ == "expected hello"@,
        },
{
    match msg {
        WireMessage::Hello { v, device_id, display_name } => {
            if v != PROTOCOL_VERSION {
                let mut m = String::from_str("incompatible protocol version ");
                let d = decimal(v as u64);
                m.append(d.as_str());
                m.append(" (ours 1) from ");
                m.append(from_addr);
                return Err(m);
            }
            if str_eq(device_id.as_str(), self_id) {
                return Err(String::from_str("peer is self"));
            }
            Ok((device_id, display_name))
        },
        _ => Err(String::from_str("expected hello")),
    }
}


/// What a session's reader does with the outcome of one frame read.
pub enum ReaderStep {
    /// Nothing arrived before the idle timeout: read again.
    Wait,
    /// A frame arrived: decode and handle it.
    Handle(Vec<u8>),
    /// The session ends; the diagnostic to record says why.
    Close(LogicPoint, DiagLevel, String),
}

/// The reader's next step after reading a frame from `peer_id`: a timeout
/// keeps the session, a frame is handed on, an oversized frame or an I/O
/// failure closes the session with its diagnostic.
pub fn reader_step(frame: Result<Vec<u8>, FrameError>, peer_id: &str) -> (r: ReaderStep)
    ensures
        match frame {
            Ok(b) => r == ReaderStep::Handle(b),
            Err(FrameError::Timeout) => r is Wait,
            Err(FrameError::TooLarge(n)) => r matches ReaderStep::Close(p, l, m) && p
                == LogicPoint::TcpFrameBad && l == DiagLevel::Error && m@ == "oversized frame from "@
                + peer_id@ + ": "@ + decimal_spec(n as nat),
            Err(FrameError::Io(e)) => r matches ReaderStep::Close(p, l, m) && p
                == LogicPoint::TcpReadFail && l == DiagLevel::Warn && m@ == "read fail peer="@
                + peer_id@ + ": "@ + e@,
        },
{
    match frame {
        Ok(b) => ReaderStep::Handle(b),
        Err(FrameError::Timeout) => ReaderStep::Wait,
        Err(FrameError::TooLarge(n)) => {
            let mut m = String::from_str("oversized frame from ");
            m.append(peer_id);
            m.append(": ");
            let d = decimal(n as u64);
            m.append(d.as_str());
            ReaderStep::Close(LogicPoint::TcpFrameBad, DiagLevel::Error, m)
        },
        Err(FrameError::Io(e)) => {
            let mut m = String::from_str("read fail peer=");
            m.append(peer_id);
            m.append(": ");
            m.append(e.as_str());
            ReaderStep::Close(LogicPoint::TcpReadFail, DiagLevel::Warn, m)
        },
    }
}

} // verus!
