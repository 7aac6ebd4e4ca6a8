//! LAN group chat (text only): the group registry, join codes, the peer key
//! under which a group's history is kept, and the membership rules applied
//! when requests arrive from the wire. Sending and persisting is the
//! caller's business.

use vstd::prelude::*;
use vstd::string::*;
use crate::text::{trim, trimmed_chars, string_of, append_str, push_char, chars_of, to_upper, uppercase};
use crate::order::{str_eq, str_lt, seq_lt, seq_le, lemma_lt_total, lemma_lt_transitive};
use crate::protocol::{GroupMemberWire, validate_text_body, has_bad_text_char, MAX_TEXT_CHARS};
use crate::sort::{Ordered, sorted, sort_by_order};
use crate::ids::{new_uuid_string, uuid_v4_text, random_index};

verus! {

broadcast use vstd::seq_lib::group_seq_properties;

pub const GROUP_PEER_PREFIX: &'static str = "g:";

/// Join-code alphabet, without the look-alikes 0/O and 1/I/L.
pub const JOIN_CODE_ALPHABET: &'static str = "ABCDEFGHJKMNPQRSTUVWXYZ23456789";

/// Longest group name, in characters.
pub const MAX_GROUP_NAME_CHARS: usize = 40;

#[derive(Debug)]
pub struct GroupInfo {
    pub id: String,
    pub name: String,
    pub join_code: String,
    pub creator_id: String,
    pub members: Vec<GroupMemberWire>,
    /// Still a member (false after leave; history may remain).
    pub active: bool,
}

#[derive(Debug)]
pub struct GroupTextBody {
    pub from_device_id: String,
    pub from_name: String,
    pub text: String,
}

/// What a `GroupInfo` holds.
pub struct GroupModel {
    pub id: Seq<char>,
    pub name: Seq<char>,
    pub join_code: Seq<char>,
    pub creator_id: Seq<char>,
    pub members: Seq<GroupMemberWire>,
    pub active: bool,
}

impl View for GroupInfo {
    type V = GroupModel;

    open spec fn view(&self) -> GroupModel {
        GroupModel {
            id: self.id@,
            name: self.name@,
            join_code: self.join_code@,
            creator_id: self.creator_id@,
            members: self.members@,
            active: self.active,
        }
    }
}

fn copy_members(ms: &Vec<GroupMemberWire>) -> (r: Vec<GroupMemberWire>)
    ensures
        r@ == ms@,
{
    let mut r: Vec<GroupMemberWire> = Vec::new();
    let mut i: usize = 0;
    while i < ms.len()
        invariant
            i <= ms@.len(),
            r@ == ms@.take(i as int),
        decreases ms@.len() - i,
    {
        r.push(ms[i].duplicate());
        i = i + 1;
    }
    r
}

impl GroupInfo {
    pub fn duplicate(&self) -> (r: Self)
        ensures
            r@ == self@,
    {
        GroupInfo {
            id: self.id.clone(),
            name: self.name.clone(),
            join_code: self.join_code.clone(),
            creator_id: self.creator_id.clone(),
            members: copy_members(&self.members),
            active: self.active,
        }
    }
}

/// Law: a group list in list order runs by name, ascending.
pub proof fn lemma_group_list_order(s: Seq<GroupInfo>)
    requires
        sorted(s),
    ensures
        forall|i: int, j: int|
            0 <= i < j < s.len() ==> seq_le((#[trigger] s[i]).name@, (#[trigger] s[j]).name@),
{
    assert forall|i: int, j: int| 0 <= i < j < s.len() implies seq_le(
        (#[trigger] s[i]).name@,
        (#[trigger] s[j]).name@,
    ) by {
        assert(s[i].le(s[j]));
        lemma_lt_total(s[i].name@, s[j].name@);
    }
}

/// Groups are listed by name.
impl Ordered for GroupInfo {
    open spec fn le(self, other: Self) -> bool {
        !seq_lt(other.name@, self.name@)
    }

    fn le_exec(&self, other: &Self) -> (r: bool) {
        !str_lt(other.name.as_str(), self.name.as_str())
    }

    proof fn lemma_total(a: Self, b: Self) {
        lemma_lt_total(a.name@, b.name@);
        if seq_lt(a.name@, b.name@) {
            crate::order::lemma_lt_asymmetric(a.name@, b.name@);
        }
    }

    proof fn lemma_trans(a: Self, b: Self, c: Self) {
        lemma_lt_total(a.name@, b.name@);
        lemma_lt_total(b.name@, c.name@);
        if seq_lt(c.name@, a.name@) {
            if a.name@ == b.name@ {
            } else if seq_lt(a.name@, b.name@) {
                if b.name@ == c.name@ {
                } else {
                    lemma_lt_transitive(a.name@, b.name@, c.name@);
                    crate::order::lemma_lt_asymmetric(a.name@, c.name@);
                }
            } else {
                lemma_lt_transitive(c.name@, a.name@, b.name@);
            }
        }
    }
}

/// The history key of a group: `g:` and its id.
pub open spec fn peer_key_spec(group_id: Seq<char>) -> Seq<char> {
    GROUP_PEER_PREFIX@ + group_id
}

pub open spec fn is_group_key(peer_id: Seq<char>) -> bool {
    peer_id.len() >= 2 && peer_id[0] == 'g' && peer_id[1] == ':'
}

pub fn peer_key(group_id: &str) -> (r: String)
    ensures
        r@ == peer_key_spec(group_id@),
{
    let mut r = String::from_str(GROUP_PEER_PREFIX);
    append_str(&mut r, group_id);
    r
}

/// The group id in a group history key, when `peer_id` is one.
pub fn parse_group_peer_id(peer_id: &str) -> (r: Option<String>)
    ensures
        match r {
            Some(id) => is_group_key(peer_id@) && id@ == peer_id@.skip(2),
            None => !is_group_key(peer_id@),
        },
{
    if !is_group_peer_id(peer_id) {
        return None;
    }
    let v = chars_of(peer_id);
    let r = string_of(&v, 2, v.len());
    Some(r)
}

pub fn is_group_peer_id(peer_id: &str) -> (r: bool)
    ensures
        r == is_group_key(peer_id@),
{
    let n = peer_id.unicode_len();
    n >= 2 && peer_id.get_char(0) == 'g' && peer_id.get_char(1) == ':'
}

/// Law: a group's history key is recognised as one and gives back the group id.
pub proof fn lemma_peer_key_roundtrip(group_id: Seq<char>)
    ensures
        is_group_key(peer_key_spec(group_id)),
        peer_key_spec(group_id).skip(2) == group_id,
{
    reveal_strlit("g:");
    assert(peer_key_spec(group_id).skip(2) =~= group_id);
}

/// Law: every group history key is the key of the id it holds.
pub proof fn lemma_group_key_is_peer_key(peer_id: Seq<char>)
    requires
        is_group_key(peer_id),
    ensures
        peer_key_spec(peer_id.skip(2)) == peer_id,
{
    reveal_strlit("g:");
    assert(peer_key_spec(peer_id.skip(2)) =~= peer_id);
}

/// `s` without any `' '` or `'-'`.
pub open spec fn strip_separators(s: Seq<char>) -> Seq<char> {
    s.filter(|c: char| c != ' ' && c != '-')
}

/// `code.trim().to_uppercase()` without spaces and hyphens.
pub open spec fn normalize_code_spec(code: Seq<char>) -> Seq<char> {
    strip_separators(uppercase(trim(code)))
}

/// The upper-cased code without its spaces and hyphens.
pub fn strip_code_separators(upper: &str) -> (r: String)
    ensures
        r@ == strip_separators(upper@),
{
    let v = chars_of(upper);
    let mut r = String::new();
    let mut i: usize = 0;
    while i < v.len()
        invariant
            i <= v@.len(),
            r@ == strip_separators(v@.take(i as int)),
        decreases v@.len() - i,
    {
        let c = v[i];
        proof {
            assert(v@.take(i + 1) =~= v@.take(i as int).push(c));
            v@.take(i as int).lemma_filter_push(c, |c: char| c != ' ' && c != '-');
        }
        if c != ' ' && c != '-' {
            push_char(&mut r, c);
        }
        i = i + 1;
    }
    proof {
        assert(v@.take(v@.len() as int) =~= v@);
    }
    r
}

pub fn normalize_code(code: &str) -> (r: String)
    ensures
        r@ == normalize_code_spec(code@),
{
    let t = trimmed_chars(code);
    let ts = string_of(&t, 0, t.len());
    proof {
        assert(t@.subrange(0, t@.len() as int) =~= t@);
    }
    let up = to_upper(ts.as_str());
    strip_code_separators(up.as_str())
}

pub open spec fn in_alphabet(c: char) -> bool {
    JOIN_CODE_ALPHABET@.contains(c)
}

/// A fresh join code: six characters drawn at random from the alphabet.
pub fn generate_join_code() -> (r: String)
    ensures
        r@.len() == 6,
        forall|i: int| 0 <= i < 6 ==> in_alphabet(#[trigger] r@[i]),
{
    let alphabet = chars_of(JOIN_CODE_ALPHABET);
    proof {
        reveal_strlit("ABCDEFGHJKMNPQRSTUVWXYZ23456789");
    }
    let mut r = String::new();
    let mut i: usize = 0;
    while i < 6
        invariant
            alphabet@ == JOIN_CODE_ALPHABET@,
            alphabet@.len() == 31,
            i <= 6,
            r@.len() == i,
            forall|k: int| 0 <= k < i ==> in_alphabet(#[trigger] r@[k]),
        decreases 6 - i,
    {
        let k = random_index(alphabet.len());
        let c = alphabet[k];
        let ghost before = r@;
        push_char(&mut r, c);
        proof {
            assert(alphabet@[k as int] == c);
            assert forall|j: int| 0 <= j < i + 1 implies in_alphabet(#[trigger] r@[j]) by {
                if j < i {
                    assert(r@[j] == before[j]);
                }
            }
        }
        i = i + 1;
    }
    r
}

/// UTF-8 length of one character.
pub open spec fn utf8_width(c: char) -> nat {
    if (c as u32) < 0x80 {
        1
    } else if (c as u32) < 0x800 {
        2
    } else if (c as u32) < 0x10000 {
        3
    } else {
        4
    }
}

/// UTF-8 length of a string (what `str::len` gives).
pub open spec fn utf8_len(s: Seq<char>) -> nat
    decreases s.len(),
{
    if s.len() == 0 {
        0
    } else {
        utf8_len(s.drop_last()) + utf8_width(s.last())
    }
}

/// `str::len`, saturated at `usize::MAX`.
pub fn byte_len(s: &str) -> (r: usize)
    ensures
        r == (if utf8_len(s@) <= usize::MAX { utf8_len(s@) } else { usize::MAX as nat }),
{
    let v = chars_of(s);
    let mut n: usize = 0;
    let mut i: usize = 0;
    while i < v.len()
        invariant
            v@ == s@,
            i <= v@.len(),
            n == (if utf8_len(v@.take(i as int)) <= usize::MAX {
                utf8_len(v@.take(i as int))
            } else {
                usize::MAX as nat
            }),
        decreases v@.len() - i,
    {
        proof {
            assert(v@.take(i + 1).drop_last() =~= v@.take(i as int));
        }
        let c = v[i] as u32;
        let w: usize = if c < 0x80 {
            1
        } else if c < 0x800 {
            2
        } else if c < 0x10000 {
            3
        } else {
            4
        };
        n = n.saturating_add(w);
        i = i + 1;
    }
    proof {
        assert(v@.take(v@.len() as int) =~= v@);
    }
    n
}

proof fn lemma_utf8_len_prefix(s: Seq<char>, k: int)
    requires
        0 <= k <= s.len(),
    ensures
        utf8_len(s.take(k)) <= utf8_len(s),
    decreases s.len() - k,
{
    if k < s.len() {
        lemma_utf8_len_prefix(s, k + 1);
        assert(s.take(k + 1).drop_last() =~= s.take(k));
    }
}

/// A join code as the joiner types it: normalized, between 4 and 12 bytes.
pub fn check_join_code(join_code: &str) -> (r: Result<String, String>)
    ensures
        match r {
            Ok(c) => c@ == normalize_code_spec(join_code@) && 4 <= utf8_len(c@) <= 12,
            Err(e) => e@ == "Join code should be 6 characters (letters/numbers)."@ && !(4
                <= utf8_len(normalize_code_spec(join_code@)) <= 12),
        },
{
    let code = normalize_code(join_code);
    let n = byte_len(code.as_str());
    if n < 4 || n > 12 {
        return Err(String::from_str("Join code should be 6 characters (letters/numbers)."));
    }
    Ok(code)
}

/// Why a new group name is refused, if it is.
pub open spec fn group_name_error(name: Seq<char>) -> Option<Seq<char>> {
    if trim(name).len() == 0 {
        Some("Group name cannot be empty."@)
    } else if trim(name).len() > MAX_GROUP_NAME_CHARS {
        Some("Group name too long (max 40 characters)."@)
    } else {
        None
    }
}

/// The group a device creates: trimmed name, fresh id and join code, the
/// creator as its only member.
pub fn create_group(name: &str, self_id: String, self_name: String) -> (r: Result<
    GroupInfo,
    String,
>)
    ensures
        match r {
            Ok(g) => {
                &&& group_name_error(name@) is None
                &&& g.name@ == trim(name@)
                &&& uuid_v4_text(g.id@)
                &&& g.join_code@.len() == 6
                &&& forall|i: int| 0 <= i < 6 ==> in_alphabet(#[trigger] g.join_code@[i])
                &&& g.creator_id@ == self_id@
                &&& g.members@.len() == 1
                &&& g.members@[0].device_id@ == self_id@
                &&& g.members@[0].display_name@ == self_name@
                &&& g.active
            },
            Err(e) => group_name_error(name@) == Some(e@),
        },
{
    let t = trimmed_chars(name);
    if t.len() == 0 {
        return Err(String::from_str("Group name cannot be empty."));
    }
    if t.len() > MAX_GROUP_NAME_CHARS {
        return Err(String::from_str("Group name too long (max 40 characters)."));
    }
    let id = new_uuid_string();
    let join_code = generate_join_code();
    let mut members: Vec<GroupMemberWire> = Vec::new();
    members.push(GroupMemberWire { device_id: self_id.clone(), display_name: self_name });
    Ok(GroupInfo {
        id,
        name: string_of(&t, 0, t.len()),
        join_code,
        creator_id: self_id,
        members,
        active: true,
    })
}

/// The name a device goes by in groups: its display name, or the
/// suggestion when that is blank.
pub fn self_display_name(display_name: &str, suggested: String) -> (r: String)
    ensures
        r@ == (if trim(display_name@).len() == 0 {
            suggested@
        } else {
            display_name@
        }),
{
    if crate::text::is_blank(display_name) {
        suggested
    } else {
        display_name.to_owned()
    }
}

pub open spec fn has_member(ms: Seq<GroupMemberWire>, device_id: Seq<char>) -> bool {
    exists|i: int| 0 <= i < ms.len() && (#[trigger] ms[i]).device_id@ == device_id
}

pub fn is_member(ms: &Vec<GroupMemberWire>, device_id: &str) -> (r: bool)
    ensures
        r == has_member(ms@, device_id@),
{
    let mut i: usize = 0;
    while i < ms.len()
        invariant
            i <= ms@.len(),
            forall|k: int| 0 <= k < i ==> (#[trigger] ms@[k]).device_id@ != device_id@,
        decreases ms@.len() - i,
    {
        if str_eq(ms[i].device_id.as_str(), device_id) {
            assert(ms@[i as int].device_id@ == device_id@);
            return true;
        }
        i = i + 1;
    }
    false
}

/// The members other than `device_id`, in order.
pub open spec fn without_member(ms: Seq<GroupMemberWire>, device_id: Seq<char>) -> Seq<
    GroupMemberWire,
> {
    ms.filter(other_than(device_id))
}

/// The members that are not `device_id`.
pub open spec fn other_than(device_id: Seq<char>) -> spec_fn(GroupMemberWire) -> bool {
    |m: GroupMemberWire| m.device_id@ != device_id
}

pub fn remove_member_from(ms: &Vec<GroupMemberWire>, device_id: &str) -> (r: Vec<GroupMemberWire>)
    ensures
        r@ == without_member(ms@, device_id@),
{
    let mut r: Vec<GroupMemberWire> = Vec::new();
    let mut i: usize = 0;
    while i < ms.len()
        invariant
            i <= ms@.len(),
            r@ == without_member(ms@.take(i as int), device_id@),
        decreases ms@.len() - i,
    {
        let m = &ms[i];
        proof {
            assert(ms@.take(i + 1) =~= ms@.take(i as int).push(*m));
            ms@.take(i as int).lemma_filter_push(*m, other_than(device_id@));
        }
        if !str_eq(m.device_id.as_str(), device_id) {
            r.push(m.duplicate());
        }
        i = i + 1;
    }
    proof {
        assert(ms@.take(ms@.len() as int) =~= ms@);
    }
    r
}

/// The device ids of the members other than `device_id`.
pub open spec fn other_ids(ms: Seq<GroupMemberWire>, device_id: Seq<char>) -> Seq<Seq<char>> {
    without_member(ms, device_id).map_values(|m: GroupMemberWire| m.device_id@)
}

pub fn other_member_ids(ms: &Vec<GroupMemberWire>, device_id: &str) -> (r: Vec<String>)
    ensures
        r@.map_values(|s: String| s@) == other_ids(ms@, device_id@),
{
    let others = remove_member_from(ms, device_id);
    let mut r: Vec<String> = Vec::new();
    let mut i: usize = 0;
    while i < others.len()
        invariant
            i <= others@.len(),
            r@.map_values(|s: String| s@) == others@.take(i as int).map_values(
                |m: GroupMemberWire| m.device_id@,
            ),
        decreases others@.len() - i,
    {
        let ghost prev = r@;
        let id = others[i].device_id.clone();
        r.push(id);
        proof {
            assert(others@.take(i + 1) =~= others@.take(i as int).push(others@[i as int]));
            assert(r@ == prev.push(id));
            assert(r@.map_values(|s: String| s@) =~= prev.map_values(|s: String| s@).push(id@));
        }
        i = i + 1;
        proof {
            assert(r@.map_values(|s: String| s@) =~= others@.take(i as int).map_values(
                |m: GroupMemberWire| m.device_id@,
            ));
        }
    }
    proof {
        assert(others@.take(others@.len() as int) =~= others@);
    }
    r
}

/// A roster after `device_id` asked to join as `display_name`: a new member
/// is added at the end; a known one takes the new name.
pub open spec fn admitted(
    ms: Seq<GroupMemberWire>,
    device_id: Seq<char>,
    display_name: Seq<char>,
) -> Seq<(Seq<char>, Seq<char>)> {
    let pairs = ms.map_values(|m: GroupMemberWire| (m.device_id@, m.display_name@));
    if has_member(ms, device_id) {
        pairs.map_values(
            |p: (Seq<char>, Seq<char>)|
                if p.0 == device_id {
                    (p.0, display_name)
                } else {
                    p
                },
        )
    } else {
        pairs.push((device_id, display_name))
    }
}

pub open spec fn roster(ms: Seq<GroupMemberWire>) -> Seq<(Seq<char>, Seq<char>)> {
    ms.map_values(|m: GroupMemberWire| (m.device_id@, m.display_name@))
}

fn admit_member(ms: &mut Vec<GroupMemberWire>, device_id: &str, display_name: &str)
    ensures
        roster(final(ms)@) == admitted(old(ms)@, device_id@, display_name@),
{
    if !is_member(ms, device_id) {
        ms.push(GroupMemberWire {
            device_id: device_id.to_owned(),
            display_name: display_name.to_owned(),
        });
        proof {
            assert(roster(ms@) =~= admitted(old(ms)@, device_id@, display_name@));
        }
        return;
    }
    let ghost s = ms@;
    let mut i: usize = 0;
    while i < ms.len()
        invariant
            i <= ms@.len(),
            ms@.len() == s.len(),
            has_member(s, device_id@),
            s == old(ms)@,
            forall|k: int|
                0 <= k < i ==> (#[trigger] ms@[k]).device_id@ == s[k].device_id@
                    && ms@[k].display_name@ == (if s[k].device_id@ == device_id@ {
                    display_name@
                } else {
                    s[k].display_name@
                }),
            forall|k: int| i <= k < ms@.len() ==> #[trigger] ms@[k] == s[k],
        decreases ms@.len() - i,
    {
        if str_eq(ms[i].device_id.as_str(), device_id) {
            let id = ms[i].device_id.clone();
            ms.set(i, GroupMemberWire { device_id: id, display_name: display_name.to_owned() });
        }
        i = i + 1;
    }
    proof {
        assert(roster(ms@) =~= admitted(s, device_id@, display_name@));
    }
}

/// The groups a device knows, one entry per group id.
pub struct GroupRegistry {
    groups: Vec<GroupInfo>,
}

pub open spec fn unique_group_ids(s: Seq<GroupModel>) -> bool {
    forall|a: int, b: int| 0 <= a < b < s.len() ==> (#[trigger] s[a]).id != (#[trigger] s[b]).id
}

pub open spec fn code_matches(g: GroupModel, code: Seq<char>) -> bool {
    g.active && normalize_code_spec(g.join_code) == normalize_code_spec(code)
}

pub open spec fn index_of_id(s: Seq<GroupModel>, id: Seq<char>) -> int {
    if exists|i: int| 0 <= i < s.len() && (#[trigger] s[i]).id == id {
        choose|i: int| 0 <= i < s.len() && (#[trigger] s[i]).id == id
    } else {
        -1
    }
}

impl View for GroupRegistry {
    type V = Seq<GroupModel>;

    closed spec fn view(&self) -> Seq<GroupModel> {
        self.groups@.map_values(|g: GroupInfo| g@)
    }
}

impl GroupRegistry {
    pub closed spec fn wf(&self) -> bool {
        unique_group_ids(self@)
    }

    pub fn new() -> (r: Self)
        ensures
            r.wf(),
            r@ == Seq::<GroupModel>::empty(),
    {
        let r = GroupRegistry { groups: Vec::new() };
        assert(r@ =~= Seq::<GroupModel>::empty());
        r
    }

    /// All groups, ordered by name.
    pub fn list(&self) -> (r: Vec<GroupInfo>)
        ensures
            sorted(r@),
            forall|i: int, j: int|
                0 <= i < j < r@.len() ==> seq_le((#[trigger] r@[i]).name@, (#[trigger] r@[j]).name@),
            r@.map_values(|g: GroupInfo| g@).to_multiset() == self@.to_multiset(),
    {
        let mut v: Vec<GroupInfo> = Vec::new();
        let mut i: usize = 0;
        while i < self.groups.len()
            invariant
                i <= self.groups@.len(),
                v@.map_values(|g: GroupInfo| g@) == self@.take(i as int),
                self@ == self.groups@.map_values(|g: GroupInfo| g@),
            decreases self.groups@.len() - i,
        {
            let ghost prev = v@;
            let d = self.groups[i].duplicate();
            v.push(d);
            proof {
                assert(self@[i as int] == self.groups@[i as int]@);
                assert(v@ == prev.push(d));
                assert(v@.map_values(|g: GroupInfo| g@) =~= prev.map_values(|g: GroupInfo| g@).push(
                    d@,
                ));
                assert(self@.take(i + 1) =~= self@.take(i as int).push(self@[i as int]));
            }
            i = i + 1;
        }
        assert(self@.take(i as int) =~= self@);
        let r = sort_by_order(v);
        proof {
            lemma_map_multiset(r@, v@);
            lemma_group_list_order(r@);
        }
        r
    }

    /// The groups this device is still a member of, ordered by name.
    pub fn list_active(&self) -> (r: Vec<GroupInfo>)
        ensures
            sorted(r@),
            forall|i: int, j: int|
                0 <= i < j < r@.len() ==> seq_le((#[trigger] r@[i]).name@, (#[trigger] r@[j]).name@),
            r@.map_values(|g: GroupInfo| g@).to_multiset() == self@.filter(
                |g: GroupModel| g.active,
            ).to_multiset(),
    {
        let mut v: Vec<GroupInfo> = Vec::new();
        let mut i: usize = 0;
        while i < self.groups.len()
            invariant
                i <= self.groups@.len(),
                v@.map_values(|g: GroupInfo| g@) == self@.take(i as int).filter(
                    |g: GroupModel| g.active,
                ),
                self@ == self.groups@.map_values(|g: GroupInfo| g@),
            decreases self.groups@.len() - i,
        {
            proof {
                assert(self@.take(i + 1) =~= self@.take(i as int).push(self@[i as int]));
                self@.take(i as int).lemma_filter_push(self@[i as int], |g: GroupModel| g.active);
            }
            if self.groups[i].active {
                let ghost prev = v@;
                let d = self.groups[i].duplicate();
                v.push(d);
                proof {
                    assert(self@[i as int] == self.groups@[i as int]@);
                    assert(v@ == prev.push(d));
                    assert(v@.map_values(|g: GroupInfo| g@) =~= prev.map_values(|g: GroupInfo| g@).push(
                        d@,
                    ));
                }
            } else {
                assert(self@[i as int] == self.groups@[i as int]@);
            }
            i = i + 1;
            assert(v@.map_values(|g: GroupInfo| g@) =~= self@.take(i as int).filter(
                |g: GroupModel| g.active,
            ));
        }
        assert(self@.take(i as int) =~= self@);
        let r = sort_by_order(v);
        proof {
            lemma_map_multiset(r@, v@);
            lemma_group_list_order(r@);
        }
        r
    }

    fn position(&self, id: &str) -> (r: Option<usize>)
        requires
            self.wf(),
        ensures
            match r {
                Some(i) => i < self@.len() && self@[i as int].id == id@ && index_of_id(self@, id@)
                    == i,
                None => index_of_id(self@, id@) == -1 && forall|k: int|
                    0 <= k < self@.len() ==> (#[trigger] self@[k]).id != id@,
            },
    {
        let mut i: usize = 0;
        while i < self.groups.len()
            invariant
                i <= self.groups@.len(),
                self.wf(),
                self@ == self.groups@.map_values(|g: GroupInfo| g@),
                forall|k: int| 0 <= k < i ==> (#[trigger] self@[k]).id != id@,
            decreases self.groups@.len() - i,
        {
            if str_eq(self.groups[i].id.as_str(), id) {
                assert(self@[i as int] == self.groups@[i as int]@);
                assert(self@[i as int].id == id@);
                proof {
                    let k = index_of_id(self@, id@);
                    assert(0 <= k < self@.len() && self@[k].id == id@);
                    if k != i {
                        if k < i {
                            assert(self@[k].id != self@[i as int].id);
                        } else {
                            assert(self@[i as int].id != self@[k].id);
                        }
                    }
                }
                return Some(i);
            }
            assert(self@[i as int] == self.groups@[i as int]@);
            i = i + 1;
        }
        None
    }

    pub fn get(&self, id: &str) -> (r: Option<GroupInfo>)
        requires
            self.wf(),
        ensures
            match r {
                Some(g) => 0 <= index_of_id(self@, id@) && g@ == self@[index_of_id(self@, id@)],
                None => index_of_id(self@, id@) == -1,
            },
    {
        match self.position(id) {
            Some(i) => Some(self.groups[i].duplicate()),
            None => None,
        }
    }

    /// Stores `g`, replacing the group with the same id if there is one.
    pub fn upsert(&mut self, g: GroupInfo)
        requires
            old(self).wf(),
        ensures
            final(self).wf(),
            index_of_id(old(self)@, g@.id) >= 0 ==> final(self)@ == old(self)@.update(
                index_of_id(old(self)@, g@.id),
                g@,
            ),
            index_of_id(old(self)@, g@.id) == -1 ==> final(self)@ == old(self)@.push(g@),
    {
        let ghost s = self@;
        let ghost gv = g@;
        match self.position(g.id.as_str()) {
            Some(i) => {
                self.groups.set(i, g);
                proof {
                    assert(self@ =~= s.update(i as int, gv));
                    assert forall|a: int, b: int| 0 <= a < b < self@.len() implies (
                    #[trigger] self@[a]).id != (#[trigger] self@[b]).id by {
                        if a != i && b != i {
                            assert(self@[a] == s[a] && self@[b] == s[b]);
                        } else if a == i {
                            assert(self@[b] == s[b]);
                        } else {
                            assert(self@[a] == s[a]);
                        }
                    }
                }
            },
            None => {
                self.groups.push(g);
                proof {
                    assert(self@ =~= s.push(gv));
                    assert forall|a: int, b: int| 0 <= a < b < self@.len() implies (
                    #[trigger] self@[a]).id != (#[trigger] self@[b]).id by {
                        assert(self@[a] == s[a]);
                        if b < s.len() {
                            assert(self@[b] == s[b]);
                        }
                    }
                }
            },
        }
    }

    /// Marks the group as left; its entry (and history) stays.
    pub fn remove_active(&mut self, id: &str)
        requires
            old(self).wf(),
        ensures
            final(self).wf(),
            index_of_id(old(self)@, id@) >= 0 ==> final(self)@ == old(self)@.update(
                index_of_id(old(self)@, id@),
                GroupModel { active: false, ..old(self)@[index_of_id(old(self)@, id@)] },
            ),
            index_of_id(old(self)@, id@) == -1 ==> final(self)@ == old(self)@,
    {
        match self.position(id) {
            Some(i) => {
                let mut g = self.groups[i].duplicate();
                g.active = false;
                self.upsert(g);
            },
            None => {},
        }
    }

    /// The first active group whose join code matches `code` once both are
    /// normalized.
    pub fn find_by_join_code(&self, code: &str) -> (r: Option<GroupInfo>)
        ensures
            match r {
                Some(g) => exists|i: int|
                    0 <= i < self@.len() && code_matches(#[trigger] self@[i], code@) && g@
                        == self@[i] && forall|j: int|
                        0 <= j < i ==> !code_matches(#[trigger] self@[j], code@),
                None => forall|i: int|
                    0 <= i < self@.len() ==> !code_matches(#[trigger] self@[i], code@),
            },
    {
        let want = normalize_code(code);
        let mut i: usize = 0;
        while i < self.groups.len()
            invariant
                i <= self.groups@.len(),
                self@ == self.groups@.map_values(|g: GroupInfo| g@),
                want@ == normalize_code_spec(code@),
                forall|j: int| 0 <= j < i ==> !code_matches(#[trigger] self@[j], code@),
            decreases self.groups@.len() - i,
        {
            if self.groups[i].active {
                let have = normalize_code(self.groups[i].join_code.as_str());
                if str_eq(have.as_str(), want.as_str()) {
                    assert(code_matches(self@[i as int], code@));
                    return Some(self.groups[i].duplicate());
                }
            }
            assert(!code_matches(self@[i as int], code@));
            i = i + 1;
        }
        None
    }
}

proof fn lemma_map_multiset(r: Seq<GroupInfo>, v: Seq<GroupInfo>)
    requires
        r.to_multiset() == v.to_multiset(),
    ensures
        r.map_values(|g: GroupInfo| g@).to_multiset() == v.map_values(|g: GroupInfo| g@).to_multiset(),
{
    crate::sort::lemma_map_to_multiset(r, v, |g: GroupInfo| g@);
}

pub open spec fn first_match(s: Seq<GroupModel>, code: Seq<char>) -> int {
    if exists|i: int| 0 <= i < s.len() && code_matches(#[trigger] s[i], code) {
        choose|i: int|
            0 <= i < s.len() && code_matches(#[trigger] s[i], code) && forall|j: int|
                0 <= j < i ==> !code_matches(#[trigger] s[j], code)
    } else {
        -1
    }
}

/// The ids a roster update goes to after `joiner` joined: every member but
/// the joiner and this device.
pub open spec fn fan_out_ids(ms: Seq<GroupMemberWire>, joiner: Seq<char>, self_id: Seq<char>) -> Seq<
    Seq<char>,
> {
    other_ids(without_member(ms, joiner), self_id)
}

pub open spec fn same_group_but_members(a: GroupModel, b: GroupModel) -> bool {
    &&& a.id == b.id
    &&& a.name == b.name
    &&& a.join_code == b.join_code
    &&& a.creator_id == b.creator_id
    &&& a.active == b.active
}

pub open spec fn with_members(g: GroupModel, ms: Seq<GroupMemberWire>) -> GroupModel {
    GroupModel { members: ms, ..g }
}

impl GroupRegistry {
    proof fn lemma_index_of_id(&self, i: int)
        requires
            self.wf(),
            0 <= i < self@.len(),
        ensures
            index_of_id(self@, self@[i].id) == i,
    {
        let k = index_of_id(self@, self@[i].id);
        assert(0 <= k < self@.len() && self@[k].id == self@[i].id);
        if k != i {
            if k < i {
                assert(self@[k].id != self@[i].id);
            } else {
                assert(self@[i].id != self@[k].id);
            }
        }
    }

    /// A join request that reached this device: when an active group has the
    /// code, the requester joins it (or, already a member, takes the new
    /// name), the group is stored, and the updated group is returned with the
    /// ids the new roster goes to. Unknown codes are ignored: another device
    /// may own the group.
    pub fn admit_join_request(
        &mut self,
        join_code: &str,
        device_id: &str,
        display_name: &str,
        self_id: &str,
    ) -> (r: Option<(GroupInfo, Vec<String>)>)
        requires
            old(self).wf(),
        ensures
            final(self).wf(),
            first_match(old(self)@, join_code@) == -1 ==> r is None && final(self)@ == old(self)@,
            first_match(old(self)@, join_code@) >= 0 ==> (r matches Some(p) && {
                let i = first_match(old(self)@, join_code@);
                let g = old(self)@[i];
                &&& same_group_but_members(p.0@, g)
                &&& roster(p.0@.members) == admitted(g.members, device_id@, display_name@)
                &&& final(self)@ == old(self)@.update(i, p.0@)
                &&& p.1@.map_values(|s: String| s@) == fan_out_ids(p.0@.members, device_id@, self_id@)
            }),
    {
        let ghost s = self@;
        let found = self.find_by_join_code(join_code);
        let mut g = match found {
            None => {
                proof {
                    if exists|i: int| 0 <= i < s.len() && code_matches(#[trigger] s[i], join_code@) {
                        let i = choose|i: int| 0 <= i < s.len() && code_matches(#[trigger] s[i], join_code@);
                        assert(code_matches(s[i], join_code@));
                    }
                }
                return None;
            },
            Some(g) => g,
        };
        let ghost i = choose|i: int|
            0 <= i < s.len() && code_matches(#[trigger] s[i], join_code@) && g@ == s[i] && forall|j: int|
                0 <= j < i ==> !code_matches(#[trigger] s[j], join_code@);
        proof {
            let k = first_match(s, join_code@);
            assert(0 <= k < s.len());
            if k < i {
                assert(!code_matches(s[k], join_code@));
            }
            if i < k {
                assert(!code_matches(s[i], join_code@));
            }
            assert(k == i);
            self.lemma_index_of_id(i);
        }
        let ghost before = g@;
        admit_member(&mut g.members, device_id, display_name);
        let without_joiner = remove_member_from(&g.members, device_id);
        let notify = other_member_ids(&without_joiner, self_id);
        let stored = g.duplicate();
        self.upsert(stored);
        Some((g, notify))
    }

    /// Leaving a group: the group must be known. An active one is marked
    /// left without this device in its roster, and the ids of the other
    /// members, to be told, are returned; leaving a group already left
    /// changes nothing.
    pub fn leave_group(&mut self, group_id: &str, self_id: &str) -> (r: Result<Vec<String>, String>)
        requires
            old(self).wf(),
        ensures
            final(self).wf(),
            index_of_id(old(self)@, group_id@) == -1 ==> (r matches Err(e) && e@
                == "Group not found."@ && final(self)@ == old(self)@),
            index_of_id(old(self)@, group_id@) >= 0 ==> ({
                let i = index_of_id(old(self)@, group_id@);
                let g = old(self)@[i];
                &&& !g.active ==> (r matches Ok(v) && v@.len() == 0 && final(self)@ == old(self)@)
                &&& g.active ==> (r matches Ok(v) && v@.map_values(|s: String| s@) == other_ids(
                    g.members,
                    self_id@,
                ) && final(self)@ == old(self)@.update(
                    i,
                    GroupModel { members: without_member(g.members, self_id@), active: false, ..g },
                ))
            }),
    {
        let mut g = match self.get(group_id) {
            None => return Err(String::from_str("Group not found.")),
            Some(g) => g,
        };
        if !g.active {
            return Ok(Vec::new());
        }
        let notify = other_member_ids(&g.members, self_id);
        g.members = remove_member_from(&g.members, self_id);
        g.active = false;
        proof {
            let i = index_of_id(self@, group_id@);
            assert(self@[i].id == group_id@);
        }
        self.upsert(g);
        Ok(notify)
    }

    /// A roster update from the wire: the group is stored as sent, active
    /// exactly when this device is still in its roster. Returns whether it is.
    pub fn apply_member_update(&mut self, g: GroupInfo, self_id: &str) -> (still_in: bool)
        requires
            old(self).wf(),
        ensures
            final(self).wf(),
            still_in == has_member(g@.members, self_id@),
            ({
                let stored = GroupModel { active: still_in, ..g@ };
                &&& index_of_id(old(self)@, g@.id) >= 0 ==> final(self)@ == old(self)@.update(
                    index_of_id(old(self)@, g@.id),
                    stored,
                )
                &&& index_of_id(old(self)@, g@.id) == -1 ==> final(self)@ == old(self)@.push(stored)
            }),
    {
        let mut g = g;
        let still_in = is_member(&g.members, self_id);
        g.active = still_in;
        self.upsert(g);
        still_in
    }

    /// A member left a group: it is taken out of the stored roster. Returns
    /// the updated group, or none for an unknown group.
    pub fn remove_member(&mut self, group_id: &str, device_id: &str) -> (r: Option<GroupInfo>)
        requires
            old(self).wf(),
        ensures
            final(self).wf(),
            index_of_id(old(self)@, group_id@) == -1 ==> r is None && final(self)@ == old(self)@,
            index_of_id(old(self)@, group_id@) >= 0 ==> (r matches Some(g) && {
                let i = index_of_id(old(self)@, group_id@);
                &&& g@ == with_members(old(self)@[i], without_member(old(self)@[i].members, device_id@))
                &&& final(self)@ == old(self)@.update(i, g@)
            }),
    {
        let mut g = match self.get(group_id) {
            None => return None,
            Some(g) => g,
        };
        g.members = remove_member_from(&g.members, device_id);
        proof {
            let i = index_of_id(self@, group_id@);
            assert(self@[i].id == group_id@);
        }
        let stored = g.duplicate();
        self.upsert(stored);
        Some(g)
    }

    /// Whether a group text from `from_device_id` is taken in: the group is
    /// known and active, the text is not this device's own, and this device
    /// is a member.
    pub fn accepts_group_text(&self, group_id: &str, from_device_id: &str, self_id: &str) -> (r:
        bool)
        requires
            self.wf(),
        ensures
            r == (index_of_id(self@, group_id@) >= 0 && {
                let g = self@[index_of_id(self@, group_id@)];
                g.active && from_device_id@ != self_id@ && has_member(g.members, self_id@)
            }),
    {
        let g = match self.get(group_id) {
            None => return false,
            Some(g) => g,
        };
        if !g.active {
            return false;
        }
        if str_eq(from_device_id, self_id) {
            return false;
        }
        is_member(&g.members, self_id)
    }

    /// Checks a group text before it is sent: a valid body, a group this
    /// device is in and a member of. Returns the ids to send it to.
    pub fn check_group_send(&self, group_id: &str, body: &str, self_id: &str) -> (r: Result<
        Vec<String>,
        String,
    >)
        requires
            self.wf(),
        ensures
            !(0 < body@.len() <= MAX_TEXT_CHARS && !has_bad_text_char(body@)) ==> r is Err,
            r matches Ok(v) ==> {
                &&& 0 < body@.len() <= MAX_TEXT_CHARS && !has_bad_text_char(body@)
                &&& index_of_id(self@, group_id@) >= 0
                &&& self@[index_of_id(self@, group_id@)].active
                &&& has_member(self@[index_of_id(self@, group_id@)].members, self_id@)
                &&& v@.map_values(|s: String| s@) == other_ids(
                    self@[index_of_id(self@, group_id@)].members,
                    self_id@,
                )
            },
            (0 < body@.len() <= MAX_TEXT_CHARS && !has_bad_text_char(body@)) ==> ({
                let i = index_of_id(self@, group_id@);
                &&& (i == -1 || !self@[i].active) ==> (r matches Err(e) && e@
                    == "You are not in this group."@)
                &&& (i >= 0 && self@[i].active && !has_member(self@[i].members, self_id@)) ==> (
                r matches Err(e) && e@ == "You are not a member of this group."@)
                &&& (i >= 0 && self@[i].active && has_member(self@[i].members, self_id@)) ==> r is Ok
            }),
    {
        match validate_text_body(body) {
            Err(e) => return Err(e),
            Ok(()) => {},
        }
        let g = match self.get(group_id) {
            None => return Err(String::from_str("You are not in this group.")),
            Some(g) => g,
        };
        if !g.active {
            return Err(String::from_str("You are not in this group."));
        }
        if !is_member(&g.members, self_id) {
            return Err(String::from_str("You are not a member of this group."));
        }
        Ok(other_member_ids(&g.members, self_id))
    }
}

/// How a sent group text ends: sent when some member got it or the group
/// has no one else, failed otherwise.
pub fn group_send_status(delivered_any: bool, member_count: usize) -> (r: Result<(), String>)
    ensures
        r is Ok <==> (delivered_any || member_count <= 1),
        r matches Err(e) ==> e@ == "No group members reachable. They must be connected (green) on the LAN."@,
{
    if delivered_any || member_count <= 1 {
        Ok(())
    } else {
        Err(String::from_str("No group members reachable. They must be connected (green) on the LAN."))
    }
}

/// The time stored for an incoming group text: the sender's stamp when
/// positive, else the local time.
pub fn created_at_or_now(ts: i64, now: i64) -> (r: i64)
    ensures
        r == (if ts > 0 { ts } else { now }),
{
    if ts > 0 { ts } else { now }
}

/// Law: an admitted join request leaves the requester in the roster under
/// the name it sent, keeps every member in its place, and adds one entry only
/// for a newcomer.
pub proof fn lemma_admitted_contains(ms: Seq<GroupMemberWire>, device_id: Seq<char>, display_name: Seq<char>)
    ensures
        admitted(ms, device_id, display_name).contains((device_id, display_name)),
        admitted(ms, device_id, display_name).len() == ms.len() + (if has_member(ms, device_id) {
            0int
        } else {
            1int
        }),
        forall|i: int|
            0 <= i < ms.len() ==> (#[trigger] admitted(ms, device_id, display_name)[i]).0
                == ms[i].device_id@,
{
    let a = admitted(ms, device_id, display_name);
    if has_member(ms, device_id) {
        let j = choose|j: int| 0 <= j < ms.len() && (#[trigger] ms[j]).device_id@ == device_id;
        assert(a[j] == (device_id, display_name));
    } else {
        assert(a[ms.len() as int] == (device_id, display_name));
    }
}

/// Law: after leaving, or after a member left, that device is in no entry
/// of the roster, and every other member stays.
pub proof fn lemma_without_member(ms: Seq<GroupMemberWire>, device_id: Seq<char>)
    ensures
        !has_member(without_member(ms, device_id), device_id),
        forall|i: int|
            0 <= i < ms.len() && ms[i].device_id@ != device_id ==> without_member(
                ms,
                device_id,
            ).contains(#[trigger] ms[i]),
{
    let f = other_than(device_id);
    let w = without_member(ms, device_id);
    ms.lemma_filter_len(f);
    assert forall|k: int| 0 <= k < w.len() implies (#[trigger] w[k]).device_id@ != device_id by {
        ms.lemma_filter_pred(f, k);
    }
    assert forall|i: int| 0 <= i < ms.len() && ms[i].device_id@ != device_id implies w.contains(
        #[trigger] ms[i],
    ) by {
        ms.lemma_filter_contains(f, i);
    }
}

} // verus!
