//! Character-level text helpers with exact specifications.

use vstd::prelude::*;
use vstd::string::*;

verus! {

/// Unicode `White_Space` property, the set `char::is_whitespace` and `str::trim` use.
pub open spec fn is_ws(c: char) -> bool {
    let u = c as u32;
    ||| 0x09 <= u <= 0x0D
    ||| u == 0x20
    ||| u == 0x85
    ||| u == 0xA0
    ||| u == 0x1680
    ||| 0x2000 <= u <= 0x200A
    ||| u == 0x2028
    ||| u == 0x2029
    ||| u == 0x202F
    ||| u == 0x205F
    ||| u == 0x3000
}

/// Unicode general category `Cc`, the set `char::is_control` accepts.
pub open spec fn is_ctrl(c: char) -> bool {
    let u = c as u32;
    u <= 0x1F || (0x7F <= u <= 0x9F)
}

pub fn is_whitespace_char(c: char) -> (r: bool)
    ensures
        r == is_ws(c),
{
    let u = c as u32;
    (0x09 <= u && u <= 0x0D) || u == 0x20 || u == 0x85 || u == 0xA0 || u == 0x1680 || (0x2000
        <= u && u <= 0x200A) || u == 0x2028 || u == 0x2029 || u == 0x202F || u == 0x205F || u
        == 0x3000
}

pub fn is_control_char(c: char) -> (r: bool)
    ensures
        r == is_ctrl(c),
{
    let u = c as u32;
    u <= 0x1F || (0x7F <= u && u <= 0x9F)
}

/// Number of leading white-space characters.
pub open spec fn lead_ws(s: Seq<char>) -> nat
    decreases s.len(),
{
    if s.len() == 0 {
        0
    } else if is_ws(s[0]) {
        1 + lead_ws(s.drop_first())
    } else {
        0
    }
}

/// Length of `s` once trailing white space is removed.
pub open spec fn end_no_ws(s: Seq<char>) -> nat
    decreases s.len(),
{
    if s.len() == 0 {
        0
    } else if is_ws(s.last()) {
        end_no_ws(s.drop_last())
    } else {
        s.len()
    }
}

/// `str::trim`: white space removed from both ends.
pub open spec fn trim(s: Seq<char>) -> Seq<char> {
    let t = s.subrange(0, end_no_ws(s) as int);
    t.subrange(lead_ws(t) as int, t.len() as int)
}

pub proof fn lemma_end_no_ws_bound(s: Seq<char>)
    ensures
        end_no_ws(s) <= s.len(),
    decreases s.len(),
{
    if s.len() > 0 && is_ws(s.last()) {
        lemma_end_no_ws_bound(s.drop_last());
    }
}

pub proof fn lemma_lead_ws_bound(s: Seq<char>)
    ensures
        lead_ws(s) <= s.len(),
    decreases s.len(),
{
    if s.len() > 0 && is_ws(s[0]) {
        lemma_lead_ws_bound(s.drop_first());
    }
}

pub proof fn lemma_end_no_ws_is(s: Seq<char>, e: int)
    requires
        0 <= e <= s.len(),
        forall|k: int| e <= k < s.len() ==> is_ws(#[trigger] s[k]),
        e == 0 || !is_ws(s[e - 1]),
    ensures
        end_no_ws(s) == e,
    decreases s.len(),
{
    if s.len() > 0 && e < s.len() {
        assert(is_ws(s[s.len() - 1]));
        let d = s.drop_last();
        assert forall|k: int| e <= k < d.len() implies is_ws(#[trigger] d[k]) by {
            assert(d[k] == s[k]);
        }
        if e > 0 {
            assert(d[e - 1] == s[e - 1]);
        }
        lemma_end_no_ws_is(d, e);
    }
}

pub proof fn lemma_lead_ws_is(s: Seq<char>, b: int)
    requires
        0 <= b <= s.len(),
        forall|k: int| 0 <= k < b ==> is_ws(#[trigger] s[k]),
        b == s.len() || !is_ws(s[b]),
    ensures
        lead_ws(s) == b,
    decreases s.len(),
{
    if b > 0 {
        assert(is_ws(s[0]));
        let d = s.drop_first();
        assert forall|k: int| 0 <= k < b - 1 implies is_ws(#[trigger] d[k]) by {
            assert(d[k] == s[k + 1]);
        }
        if b < s.len() {
            assert(d[b - 1] == s[b]);
        }
        lemma_lead_ws_is(d, b - 1);
    }
}

pub proof fn lemma_end_no_ws_last(s: Seq<char>)
    ensures
        end_no_ws(s) <= s.len(),
        end_no_ws(s) > 0 ==> !is_ws(s[end_no_ws(s) - 1]),
        forall|k: int| end_no_ws(s) <= k < s.len() ==> is_ws(#[trigger] s[k]),
    decreases s.len(),
{
    if s.len() > 0 && is_ws(s.last()) {
        let d = s.drop_last();
        lemma_end_no_ws_last(d);
        assert forall|k: int| end_no_ws(s) <= k < s.len() implies is_ws(#[trigger] s[k]) by {
            if k < d.len() {
                assert(d[k] == s[k]);
            }
        }
        if end_no_ws(s) > 0 {
            assert(d[end_no_ws(s) - 1] == s[end_no_ws(s) - 1]);
        }
    }
}

pub proof fn lemma_lead_ws_first(s: Seq<char>)
    ensures
        lead_ws(s) <= s.len(),
        lead_ws(s) < s.len() ==> !is_ws(s[lead_ws(s) as int]),
        forall|k: int| 0 <= k < lead_ws(s) ==> is_ws(#[trigger] s[k]),
    decreases s.len(),
{
    if s.len() > 0 && is_ws(s[0]) {
        let d = s.drop_first();
        lemma_lead_ws_first(d);
        assert forall|k: int| 0 <= k < lead_ws(s) implies is_ws(#[trigger] s[k]) by {
            if k > 0 {
                assert(d[k - 1] == s[k]);
            }
        }
        if lead_ws(s) < s.len() {
            assert(d[lead_ws(d) as int] == s[lead_ws(s) as int]);
        }
    }
}

/// A trimmed sequence has no white space at either end.
pub proof fn lemma_trim_ends(s: Seq<char>)
    ensures
        trim(s).len() <= s.len(),
        trim(s).len() > 0 ==> !is_ws(trim(s)[0]) && !is_ws(trim(s).last()),
{
    lemma_end_no_ws_last(s);
    let t = s.subrange(0, end_no_ws(s) as int);
    lemma_lead_ws_first(t);
    let r = trim(s);
    if r.len() > 0 {
        assert(r[0] == t[lead_ws(t) as int]);
        assert(r.last() == s[end_no_ws(s) - 1]);
    }
}

/// Law: trimming twice is trimming once.
pub proof fn lemma_trim_idempotent(s: Seq<char>)
    ensures
        trim(trim(s)) == trim(s),
{
    let r = trim(s);
    lemma_trim_ends(s);
    if r.len() > 0 {
        lemma_end_no_ws_is(r, r.len() as int);
        assert(r.subrange(0, r.len() as int) =~= r);
        lemma_lead_ws_is(r, 0);
        assert(r.subrange(0, r.len() as int) =~= r);
    } else {
        lemma_end_no_ws_bound(r);
        assert(trim(r) =~= r);
    }
}

/// A sequence without white space is its own trim.
pub proof fn lemma_trim_no_ws(s: Seq<char>)
    requires
        forall|k: int| 0 <= k < s.len() ==> !is_ws(#[trigger] s[k]),
    ensures
        trim(s) == s,
{
    if s.len() > 0 {
        lemma_end_no_ws_is(s, s.len() as int);
    } else {
        lemma_end_no_ws_bound(s);
    }
    let t = s.subrange(0, end_no_ws(s) as int);
    assert(t =~= s);
    lemma_lead_ws_is(t, 0);
    assert(t.subrange(0, t.len() as int) =~= t);
}

/// `s.trim().is_empty()`.
pub fn is_blank(s: &str) -> (r: bool)
    ensures
        r == (trim(s@).len() == 0),
{
    let t = trimmed_chars(s);
    t.len() == 0
}

/// `String::push`: appends one character.
#[verifier::external_body]
pub(crate) fn push_char(s: &mut String, c: char)
    ensures
        final(s)@ == old(s)@.push(c),
{
    s.push(c);
}

/// Appends the characters of `t` to `s`.
pub fn append_str(s: &mut String, t: &str)
    ensures
        final(s)@ == old(s)@ + t@,
{
    let n = t.unicode_len();
    let mut i: usize = 0;
    while i < n
        invariant
            n == t@.len(),
            i <= n,
            s@ == old(s)@ + t@.subrange(0, i as int),
        decreases n - i,
    {
        push_char(s, t.get_char(i));
        i = i + 1;
        assert(t@.subrange(0, i as int) =~= t@.subrange(0, i - 1 as int).push(t@[i - 1]));
    }
    assert(t@.subrange(0, n as int) =~= t@);
}

/// The view of an optional string.
pub open spec fn opt_view(o: Option<String>) -> Option<Seq<char>> {
    match o {
        Some(s) => Some(s@),
        None => None,
    }
}

/// A copy of an optional string.
pub fn copy_opt(o: &Option<String>) -> (r: Option<String>)
    ensures
        r == *o,
        opt_view(r) == opt_view(*o),
{
    match o {
        Some(s) => Some(s.clone()),
        None => None,
    }
}

/// The characters of `s`, in order.
pub fn chars_of(s: &str) -> (v: Vec<char>)
    ensures
        v@ == s@,
{
    let n = s.unicode_len();
    let mut v: Vec<char> = Vec::new();
    let mut i: usize = 0;
    while i < n
        invariant
            n == s@.len(),
            i <= n,
            v@ == s@.subrange(0, i as int),
        decreases n - i,
    {
        let c = s.get_char(i);
        v.push(c);
        i = i + 1;
    }
    v
}

/// A `String` holding `v[from..to]`.
pub fn string_of(v: &Vec<char>, from: usize, to: usize) -> (s: String)
    requires
        from <= to <= v@.len(),
    ensures
        s@ == v@.subrange(from as int, to as int),
{
    let mut s = String::new();
    let mut i = from;
    while i < to
        invariant
            from <= i <= to,
            to <= v@.len(),
            s@ == v@.subrange(from as int, i as int),
        decreases to - i,
    {
        push_char(&mut s, v[i]);
        i = i + 1;
    }
    s
}

/// Bounds `[b, e)` of the trimmed part of `v`.
pub fn trim_bounds(v: &Vec<char>) -> (r: (usize, usize))
    ensures
        r.0 <= r.1 <= v@.len(),
        v@.subrange(r.0 as int, r.1 as int) == trim(v@),
{
    let mut e = v.len();
    while e > 0 && is_whitespace_char(v[e - 1])
        invariant
            e <= v@.len(),
            forall|k: int| e <= k < v@.len() ==> is_ws(#[trigger] v@[k]),
        decreases e,
    {
        e = e - 1;
    }
    proof {
        lemma_end_no_ws_is(v@, e as int);
    }
    let mut b: usize = 0;
    while b < e && is_whitespace_char(v[b])
        invariant
            b <= e <= v@.len(),
            forall|k: int| 0 <= k < b ==> is_ws(#[trigger] v@[k]),
        decreases e - b,
    {
        b = b + 1;
    }
    proof {
        let t = v@.subrange(0, e as int);
        assert forall|k: int| 0 <= k < b implies is_ws(#[trigger] t[k]) by {
            assert(t[k] == v@[k]);
        }
        if b < e {
            assert(t[b as int] == v@[b as int]);
        }
        lemma_lead_ws_is(t, b as int);
        assert(v@.subrange(b as int, e as int) =~= t.subrange(b as int, e as int));
    }
    (b, e)
}

/// `str::trim` as characters.
pub fn trimmed_chars(s: &str) -> (v: Vec<char>)
    ensures
        v@ == trim(s@),
{
    let all = chars_of(s);
    let (b, e) = trim_bounds(&all);
    let mut v: Vec<char> = Vec::new();
    let mut i = b;
    while i < e
        invariant
            b <= i <= e <= all@.len(),
            v@ == all@.subrange(b as int, i as int),
        decreases e - i,
    {
        v.push(all[i]);
        i = i + 1;
    }
    v
}

/// Decimal digits of `n`, the way `Display` prints an unsigned integer.
pub open spec fn decimal_spec(n: nat) -> Seq<char>
    decreases n,
{
    if n < 10 {
        seq![(48 + n) as char]
    } else {
        decimal_spec(n / 10).push((48 + n % 10) as char)
    }
}

/// Decimal text is one or more digits, two or more from ten on.
pub proof fn lemma_decimal_digits(n: nat)
    ensures
        decimal_spec(n).len() >= 1,
        n >= 10 ==> decimal_spec(n).len() >= 2,
        forall|k: int| 0 <= k < decimal_spec(n).len() ==> '0' <= #[trigger] decimal_spec(n)[k] <= '9',
    decreases n,
{
    if n >= 10 {
        lemma_decimal_digits(n / 10);
        let p = decimal_spec(n / 10);
        assert forall|k: int| 0 <= k < decimal_spec(n).len() implies '0' <= #[trigger] decimal_spec(n)[k]
            <= '9' by {
            if k < p.len() {
                assert(decimal_spec(n)[k] == p[k]);
            }
        }
    }
}

/// Different numbers print differently.
pub proof fn lemma_decimal_injective(a: nat, b: nat)
    requires
        decimal_spec(a) == decimal_spec(b),
    ensures
        a == b,
    decreases a,
{
    lemma_decimal_digits(a);
    lemma_decimal_digits(b);
    let da = decimal_spec(a);
    let db = decimal_spec(b);
    assert(da.last() == db.last());
    if a >= 10 && b >= 10 {
        assert(da.drop_last() =~= decimal_spec(a / 10));
        assert(db.drop_last() =~= decimal_spec(b / 10));
        lemma_decimal_injective(a / 10, b / 10);
        assert(da.last() == (48 + a % 10) as char);
        assert(db.last() == (48 + b % 10) as char);
        assert(((48 + a % 10) as char) as int == 48 + a % 10);
        assert(((48 + b % 10) as char) as int == 48 + b % 10);
        assert(a % 10 == b % 10);
        assert(a == (a / 10) * 10 + a % 10);
        assert(b == (b / 10) * 10 + b % 10);
    } else if a < 10 && b < 10 {
        assert(da[0] == (48 + a) as char);
        assert(db[0] == (48 + b) as char);
        assert(((48 + a) as char) as int == 48 + a);
        assert(((48 + b) as char) as int == 48 + b);
    }
}

pub fn decimal(n: u64) -> (s: String)
    ensures
        s@ == decimal_spec(n as nat),
    decreases n,
{
    if n < 10 {
        let mut s = String::new();
        push_char(&mut s, ((48 + n) as u8) as char);
        s
    } else {
        let mut s = decimal(n / 10);
        push_char(&mut s, ((48 + n % 10) as u8) as char);
        s
    }
}

/// What `str::to_lowercase` returns for `s` (full Unicode case mapping).
pub uninterp spec fn lowercase(s: Seq<char>) -> Seq<char>;

/// What `str::to_uppercase` returns for `s` (full Unicode case mapping).
pub uninterp spec fn uppercase(s: Seq<char>) -> Seq<char>;

/// `str::to_lowercase`: the result is a function of `s` alone.
#[verifier::external_body]
pub(crate) fn to_lower(s: &str) -> (r: String)
    ensures
        r@ == lowercase(s@),
{
    s.to_lowercase()
}

/// `str::to_uppercase`: the result is a function of `s` alone.
#[verifier::external_body]
pub(crate) fn to_upper(s: &str) -> (r: String)
    ensures
        r@ == uppercase(s@),
{
    s.to_uppercase()
}

} // verus!
