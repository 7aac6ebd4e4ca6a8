//! File-name sanitization, save-path naming and resume alignment for
//! received files. Creating, renaming and truncating files is the caller's
//! business; this module decides the names and offsets.

use vstd::prelude::*;
use vstd::string::*;
use crate::text::{trim, trimmed_chars, string_of, append_str, push_char, chars_of, decimal, decimal_spec, lemma_decimal_digits, lemma_decimal_injective};
use crate::config::{join_path, path_join, DEFAULT_SAVE_SUBDIR};

verus! {

/// Chunk size used by the data plane; resume dirty-tail alignment uses the same value.
pub const CHUNK: u64 = 262144;

/// Index of the last `c` in `s`, or -1.
pub open spec fn last_index(s: Seq<char>, c: char) -> int
    decreases s.len(),
{
    if s.len() == 0 {
        -1
    } else if s.last() == c {
        s.len() - 1
    } else {
        last_index(s.drop_last(), c)
    }
}

pub proof fn lemma_last_index(s: Seq<char>, c: char)
    ensures
        -1 <= last_index(s, c) < s.len(),
        last_index(s, c) >= 0 ==> s[last_index(s, c)] == c,
        forall|k: int| last_index(s, c) < k < s.len() ==> #[trigger] s[k] != c,
    decreases s.len(),
{
    if s.len() > 0 && s.last() != c {
        lemma_last_index(s.drop_last(), c);
        assert forall|k: int| last_index(s, c) < k < s.len() implies #[trigger] s[k] != c by {
            if k < s.len() - 1 {
                assert(s.drop_last()[k] == s[k]);
            }
        }
    }
}

pub proof fn lemma_last_index_absent(s: Seq<char>, c: char)
    requires
        !s.contains(c),
    ensures
        last_index(s, c) == -1,
    decreases s.len(),
{
    if s.len() > 0 {
        assert(s[s.len() - 1] == s.last());
        assert(s.drop_last().len() < s.len());
        if s.drop_last().contains(c) {
            let k = choose|k: int| 0 <= k < s.drop_last().len() && s.drop_last()[k] == c;
            assert(s[k] == c);
        }
        lemma_last_index_absent(s.drop_last(), c);
    }
}

/// `Path::file_name` on a Unix path: the last component, where trailing
/// separators and `.` components do not count; none for a path that ends in
/// `..` or has no normal component.
pub open spec fn file_name(p: Seq<char>) -> Option<Seq<char>>
    decreases p.len(),
{
    if p.len() == 0 {
        None
    } else if p.last() == '/' {
        file_name(p.drop_last())
    } else {
        let k = last_index(p, '/');
        let seg = p.subrange(k + 1, p.len() as int);
        if seg == seq!['.'] {
            if k < 0 {
                None
            } else {
                proof {
                    lemma_last_index(p, '/');
                }
                file_name(p.subrange(0, k))
            }
        } else if seg == seq!['.', '.'] {
            None
        } else {
            Some(seg)
        }
    }
}

/// Position of the last `c` in `v[..end]`.
fn find_last(v: &Vec<char>, end: usize, c: char) -> (r: Option<usize>)
    requires
        end <= v@.len(),
    ensures
        match r {
            Some(k) => k == last_index(v@.take(end as int), c),
            None => last_index(v@.take(end as int), c) == -1,
        },
{
    let mut e = end;
    while e > 0
        invariant
            e <= end <= v@.len(),
            last_index(v@.take(end as int), c) == last_index(v@.take(e as int), c),
        decreases e,
    {
        if v[e - 1] == c {
            return Some(e - 1);
        }
        assert(v@.take(e as int).drop_last() =~= v@.take(e - 1));
        e = e - 1;
    }
    None
}

fn is_dot(v: &Vec<char>, from: usize, to: usize) -> (r: bool)
    requires
        from <= to <= v@.len(),
    ensures
        r == (v@.subrange(from as int, to as int) == seq!['.']),
{
    let r = to - from == 1 && v[from] == '.';
    proof {
        let s = v@.subrange(from as int, to as int);
        let d = seq!['.'];
        assert(d.len() == 1 && d[0] == '.');
        if to - from == 1 {
            assert(s[0] == v[from as int]);
            if v[from as int] == '.' {
                assert(s =~= d);
            }
        }
    }
    r
}

fn is_dot_dot(v: &Vec<char>, from: usize, to: usize) -> (r: bool)
    requires
        from <= to <= v@.len(),
    ensures
        r == (v@.subrange(from as int, to as int) == seq!['.', '.']),
{
    let r = to - from == 2 && v[from] == '.' && v[from + 1] == '.';
    proof {
        let s = v@.subrange(from as int, to as int);
        let d = seq!['.', '.'];
        assert(d.len() == 2 && d[0] == '.' && d[1] == '.');
        if to - from == 2 {
            assert(s[0] == v[from as int] && s[1] == v[from + 1]);
            if v[from as int] == '.' && v[from + 1] == '.' {
                assert(s =~= d);
            }
        }
    }
    r
}

/// The file-name component of the path held in `v`.
fn file_name_of(v: &Vec<char>) -> (r: Option<String>)
    ensures
        opt_seq(r) == file_name(v@),
{
    let mut e = v.len();
    assert(v@.take(e as int) =~= v@);
    loop
        invariant
            e <= v@.len(),
            file_name(v@.take(e as int)) == file_name(v@),
        decreases e,
    {
        let ghost p = v@.take(e as int);
        if e == 0 {
            return None;
        }
        if v[e - 1] == '/' {
            assert(p.drop_last() =~= v@.take(e - 1));
            e = e - 1;
            continue;
        }
        let k = find_last(v, e, '/');
        proof {
            lemma_last_index(p, '/');
        }
        let start = match k {
            Some(k) => k + 1,
            None => 0,
        };
        proof {
            lemma_last_index(p, '/');
            assert(p.subrange(start as int, e as int) =~= v@.subrange(start as int, e as int));
        }
        if is_dot(v, start, e) {
            match k {
                None => {
                    return None;
                },
                Some(k) => {
                    assert(p.subrange(0, k as int) =~= v@.take(k as int));
                    e = k;
                    continue;
                },
            }
        }
        if is_dot_dot(v, start, e) {
            return None;
        }
        return Some(string_of(v, start, e));
    }
}

pub open spec fn opt_seq(o: Option<String>) -> Option<Seq<char>> {
    crate::text::opt_view(o)
}

pub open spec fn has_char(s: Seq<char>, c: char) -> bool {
    s.contains(c)
}

/// What `safe_basename` gives for a raw name.
pub open spec fn basename_of(name: Seq<char>) -> Result<Seq<char>, Seq<char>> {
    let t = trim(name);
    if t.len() == 0 {
        Err("empty file name"@)
    } else {
        let base = trim(
            match file_name(t) {
                Some(b) => b,
                None => Seq::empty(),
            },
        );
        if base.len() == 0 || base == seq!['.'] || base == seq!['.', '.'] {
            Err("invalid file name"@)
        } else if has_char(base, '/') || has_char(base, '\\') || has_char(base, '\0') {
            Err("invalid file name characters"@)
        } else {
            Ok(base)
        }
    }
}

fn contains_char(v: &Vec<char>, c: char) -> (r: bool)
    ensures
        r == v@.contains(c),
{
    let mut i: usize = 0;
    while i < v.len()
        invariant
            i <= v@.len(),
            forall|k: int| 0 <= k < i ==> v@[k] != c,
        decreases v@.len() - i,
    {
        if v[i] == c {
            return true;
        }
        i = i + 1;
    }
    false
}

/// Keep only the final path component; reject empty / dangerous names.
pub fn safe_basename(name: &str) -> (r: Result<String, String>)
    ensures
        match r {
            Ok(b) => basename_of(name@) == Ok::<Seq<char>, Seq<char>>(b@),
            Err(e) => basename_of(name@) == Err::<Seq<char>, Seq<char>>(e@),
        },
{
    let t = trimmed_chars(name);
    if t.len() == 0 {
        return Err(String::from_str("empty file name"));
    }
    let fname = match file_name_of(&t) {
        Some(f) => f,
        None => String::new(),
    };
    let base = trimmed_chars(fname.as_str());
    let n = base.len();
    if n == 0 || is_dot(&base, 0, n) || is_dot_dot(&base, 0, n) {
        proof {
            assert(base@.subrange(0, n as int) =~= base@);
        }
        return Err(String::from_str("invalid file name"));
    }
    proof {
        assert(base@.subrange(0, n as int) =~= base@);
    }
    if contains_char(&base, '/') || contains_char(&base, '\\') || contains_char(&base, '\0') {
        return Err(String::from_str("invalid file name characters"));
    }
    let r = string_of(&base, 0, n);
    Ok(r)
}

/// Law: a sanitized name passes through `safe_basename` unchanged.
pub proof fn lemma_safe_basename_idempotent(name: Seq<char>)
    requires
        basename_of(name) is Ok,
    ensures
        basename_of(basename_of(name)->Ok_0) == basename_of(name),
{
    let b = basename_of(name)->Ok_0;
    let t = trim(name);
    let f = match file_name(t) {
        Some(x) => x,
        None => Seq::empty(),
    };
    crate::text::lemma_trim_idempotent(f);
    assert(trim(b) == b);
    lemma_last_index_absent(b, '/');
    assert(b.last() == b[b.len() - 1]);
    assert(b.subrange(0, b.len() as int) =~= b);
    assert(file_name(b) == Some(b));
}

/// Align resume offset down to CHUNK boundary (dirty-tail truncate target).
pub fn align_resume_offset(partial_len: u64) -> (r: u64)
    ensures
        r == (partial_len / CHUNK) * CHUNK,
        r <= partial_len,
        r % CHUNK == 0,
        partial_len - r < CHUNK,
{
    let q = partial_len / CHUNK;
    assert(q * CHUNK <= partial_len) by (nonlinear_arith)
        requires
            q == partial_len / CHUNK,
    ;
    assert(partial_len - q * CHUNK < CHUNK) by (nonlinear_arith)
        requires
            q == partial_len / CHUNK,
    ;
    assert((q * CHUNK) % (CHUNK as int) == 0) by (nonlinear_arith);
    q * CHUNK
}

/// Law: aligning an aligned offset changes nothing.
pub proof fn lemma_align_idempotent(n: u64)
    ensures
        ((n / CHUNK) * CHUNK) / (CHUNK as int) * CHUNK == (n / CHUNK) * CHUNK,
{
    let q = n / CHUNK;
    assert((q * CHUNK) / (CHUNK as int) == q) by (nonlinear_arith);
}

/// The `.partial` sibling a file is received into.
pub fn partial_path(final_path: &str) -> (r: String)
    ensures
        r@ == final_path@ + ".partial"@,
{
    let mut s = final_path.to_owned();
    append_str(&mut s, ".partial");
    s
}

/// The `(before, after)` split of a file name at its last dot, as
/// `Path::file_stem` and `Path::extension` use it.
pub open spec fn split_at_dot(f: Seq<char>) -> (Option<Seq<char>>, Option<Seq<char>>) {
    let k = last_index(f, '.');
    if f == seq!['.', '.'] {
        (Some(f), None)
    } else if k < 0 {
        (None, Some(f))
    } else if k == 0 {
        (Some(f), None)
    } else {
        (Some(f.take(k)), Some(f.skip(k + 1)))
    }
}

/// `Path::file_stem`, with `file` for a name without a file name.
pub open spec fn stem_or_file(name: Seq<char>) -> Seq<char> {
    match file_name(name) {
        None => "file"@,
        Some(f) => match split_at_dot(f) {
            (Some(b), _) => b,
            (None, Some(a)) => a,
            (None, None) => "file"@,
        },
    }
}

/// `Path::extension` with a leading dot, or nothing.
pub open spec fn dot_extension(name: Seq<char>) -> Seq<char> {
    match file_name(name) {
        None => Seq::empty(),
        Some(f) => match split_at_dot(f) {
            (Some(_), Some(a)) => seq!['.'] + a,
            _ => Seq::empty(),
        },
    }
}

/// The `i`-th name tried for a received file: the name itself, then
/// `stem (i).ext`.
pub open spec fn candidate_name_spec(basename: Seq<char>, i: nat) -> Seq<char> {
    if i == 0 {
        basename
    } else {
        stem_or_file(basename) + " ("@ + decimal_spec(i) + ")"@ + dot_extension(basename)
    }
}

fn split_name(f: &String) -> (r: (Option<String>, Option<String>))
    ensures
        opt_seq(r.0) == split_at_dot(f@).0,
        opt_seq(r.1) == split_at_dot(f@).1,
{
    let v = chars_of(f.as_str());
    let n = v.len();
    let k = find_last(&v, n, '.');
    proof {
        assert(v@.take(n as int) =~= v@);
        lemma_last_index(v@, '.');
    }
    if is_dot_dot(&v, 0, n) {
        proof {
            assert(v@.subrange(0, n as int) =~= v@);
        }
        return (Some(f.clone()), None);
    }
    proof {
        assert(v@.subrange(0, n as int) =~= v@);
    }
    match k {
        None => (None, Some(f.clone())),
        Some(k) => {
            if k == 0 {
                (Some(f.clone()), None)
            } else {
                let before = string_of(&v, 0, k);
                let after = string_of(&v, k + 1, n);
                proof {
                    assert(v@.subrange(0, k as int) =~= v@.take(k as int));
                    assert(v@.subrange(k + 1, n as int) =~= v@.skip(k + 1));
                }
                (Some(before), Some(after))
            }
        },
    }
}

/// A file name is never empty and holds no separator.
proof fn lemma_file_name_shape(p: Seq<char>)
    ensures
        file_name(p) matches Some(f) ==> f.len() > 0 && !f.contains('/'),
    decreases p.len(),
{
    if p.len() > 0 {
        if p.last() == '/' {
            lemma_file_name_shape(p.drop_last());
        } else {
            let k = last_index(p, '/');
            lemma_last_index(p, '/');
            let seg = p.subrange(k + 1, p.len() as int);
            if seg == seq!['.'] {
                if k >= 0 {
                    lemma_file_name_shape(p.subrange(0, k));
                }
            } else if seg != seq!['.', '.'] {
                assert(k < p.len() - 1) by {
                    if k == p.len() - 1 {
                        assert(p[k] == p.last());
                    }
                }
                if seg.contains('/') {
                    let t = choose|t: int| 0 <= t < seg.len() && seg[t] == '/';
                    assert(p[k + 1 + t] == '/');
                }
            }
        }
    }
}

/// Without a separator, a name is its own file name, unless it is empty,
/// `.` or `..`.
proof fn lemma_file_name_plain(p: Seq<char>)
    requires
        !p.contains('/'),
    ensures
        file_name(p) == (if p.len() == 0 || p == seq!['.'] || p == seq!['.', '.'] {
            None
        } else {
            Some(p)
        }),
{
    if p.len() > 0 {
        lemma_last_index_absent(p, '/');
        assert(p.last() != '/') by {
            if p.last() == '/' {
                assert(p[p.len() - 1] == '/');
            }
        }
        assert(p.subrange(0, p.len() as int) =~= p);
    }
}

/// Stem and extension put back together give the file name.
proof fn lemma_stem_ext(b: Seq<char>)
    ensures
        file_name(b) matches Some(f) ==> stem_or_file(b) + dot_extension(b) == f,
        file_name(b) is None ==> stem_or_file(b) == "file"@ && dot_extension(b) == Seq::<char>::empty(),
{
    match file_name(b) {
        None => {},
        Some(f) => {
            let k = last_index(f, '.');
            lemma_last_index(f, '.');
            if f != seq!['.', '.'] && k > 0 {
                assert(f.take(k) + (seq!['.'] + f.skip(k + 1)) =~= f);
            } else {
                assert(f + Seq::<char>::empty() =~= f);
            }
        },
    }
}

/// A numbered candidate holds no separator; its length is the stem's, the
/// extension's and the number's, plus three for ` (` and `)`.
proof fn lemma_candidate_shape(b: Seq<char>, j: nat)
    requires
        j >= 1,
    ensures
        !candidate_name_spec(b, j).contains('/'),
        candidate_name_spec(b, j).len() == stem_or_file(b).len() + dot_extension(b).len()
            + decimal_spec(j).len() + 3,
{
    reveal_strlit(" (");
    reveal_strlit(")");
    reveal_strlit("file");
    lemma_decimal_digits(j);
    lemma_file_name_shape(b);
    lemma_stem_ext(b);
    let p = stem_or_file(b);
    let e = dot_extension(b);
    let d = decimal_spec(j);
    let c = candidate_name_spec(b, j);
    assert(forall|t: int| 0 <= t < p.len() ==> p[t] != '/') by {
        if let Some(f) = file_name(b) {
            assert forall|t: int| 0 <= t < p.len() implies p[t] != '/' by {
                assert((p + e)[t] == p[t]);
                if p[t] == '/' {
                    assert(f[t] == '/');
                }
            }
        }
    }
    assert(forall|t: int| 0 <= t < e.len() ==> e[t] != '/') by {
        if let Some(f) = file_name(b) {
            assert forall|t: int| 0 <= t < e.len() implies e[t] != '/' by {
                assert((p + e)[p.len() + t] == e[t]);
                if e[t] == '/' {
                    assert(f[p.len() + t] == '/');
                }
            }
        }
    }
    assert forall|t: int| 0 <= t < c.len() implies c[t] != '/' by {
        if t < p.len() {
            assert(c[t] == p[t]);
        } else if t < p.len() + 2 {
        } else if t < p.len() + 2 + d.len() {
            assert(c[t] == d[t - p.len() - 2]);
        } else if t == p.len() + 2 + d.len() {
        } else {
            assert(c[t] == e[t - p.len() - 3 - d.len()]);
        }
    }
}

/// A numbered candidate is never the name itself.
proof fn lemma_candidate_not_name(b: Seq<char>, j: nat)
    requires
        j >= 1,
    ensures
        candidate_name_spec(b, j) != b,
{
    reveal_strlit("file");
    lemma_candidate_shape(b, j);
    lemma_decimal_digits(j);
    if !b.contains('/') {
        lemma_file_name_plain(b);
        lemma_stem_ext(b);
    }
}

/// Law: the names tried in turn for a received file never repeat, so files
/// arriving under one name are given different places.
pub proof fn lemma_candidates_distinct(basename: Seq<char>, i: nat, j: nat)
    requires
        i != j,
    ensures
        candidate_name_spec(basename, i) != candidate_name_spec(basename, j),
{
    reveal_strlit(" (");
    reveal_strlit(")");
    if i > 0 && j > 0 {
        let p = stem_or_file(basename);
        let ci = candidate_name_spec(basename, i);
        let cj = candidate_name_spec(basename, j);
        let di = decimal_spec(i);
        let dj = decimal_spec(j);
        lemma_candidate_shape(basename, i);
        lemma_candidate_shape(basename, j);
        if ci == cj {
            assert forall|t: int| 0 <= t < di.len() implies di[t] == dj[t] by {
                assert(ci[p.len() + 2 + t] == di[t]);
                assert(cj[p.len() + 2 + t] == dj[t]);
            }
            assert(di =~= dj);
            lemma_decimal_injective(i, j);
        }
    } else if i == 0 {
        lemma_candidate_not_name(basename, j);
    } else {
        lemma_candidate_not_name(basename, i);
    }
}

/// The `i`-th candidate name for a received file called `basename`.
pub fn candidate_name(basename: &str, i: u64) -> (r: String)
    ensures
        r@ == candidate_name_spec(basename@, i as nat),
{
    if i == 0 {
        return basename.to_owned();
    }
    let v = chars_of(basename);
    let fname = file_name_of(&v);
    let (stem, ext) = match fname {
        None => (String::from_str("file"), String::new()),
        Some(f) => {
            let (before, after) = split_name(&f);
            match before {
                Some(b) => {
                    let mut e = String::new();
                    match after {
                        Some(a) => {
                            push_char(&mut e, '.');
                            append_str(&mut e, a.as_str());
                        },
                        None => {},
                    }
                    (b, e)
                },
                None => match after {
                    Some(a) => (a, String::new()),
                    None => (String::from_str("file"), String::new()),
                },
            }
        },
    };
    let mut r = stem;
    append_str(&mut r, " (");
    let d = decimal(i);
    append_str(&mut r, d.as_str());
    append_str(&mut r, ")");
    append_str(&mut r, ext.as_str());
    proof {
        reveal_strlit("file");
    }
    r
}

/// Where the `i`-th candidate for `basename` lies in `dir`.
pub fn candidate_path(dir: &str, basename: &str, i: u64) -> (r: String)
    ensures
        r@ == path_join(dir@, candidate_name_spec(basename@, i as nat)),
{
    let name = candidate_name(basename, i);
    join_path(dir, name.as_str())
}

/// `$HOME/Downloads/<DEFAULT_SAVE_SUBDIR>`, from `HOME` or else `USERPROFILE`.
pub fn default_save_dir(home: Option<String>) -> (r: Result<String, String>)
    ensures
        match home {
            None => r matches Err(e) && e@ == "home directory not set (HOME / USERPROFILE)"@,
            Some(h) => r matches Ok(p) && p@ == path_join(
                path_join(h@, "Downloads"@),
                DEFAULT_SAVE_SUBDIR@,
            ),
        },
{
    match home {
        None => Err(String::from_str("home directory not set (HOME / USERPROFILE)")),
        Some(h) => {
            let d = join_path(h.as_str(), "Downloads");
            Ok(join_path(d.as_str(), DEFAULT_SAVE_SUBDIR))
        },
    }
}

/// `Path::file_name` of a path.
pub fn path_file_name(path: &str) -> (r: Option<String>)
    ensures
        opt_seq(r) == file_name(path@),
{
    let v = chars_of(path);
    file_name_of(&v)
}

/// `Path::extension`: the part after the last dot of the file name, when
/// the name has a dot that does not start it.
pub open spec fn extension_spec(path: Seq<char>) -> Option<Seq<char>> {
    match file_name(path) {
        None => None,
        Some(f) => match split_at_dot(f) {
            (Some(_), Some(a)) => Some(a),
            _ => None,
        },
    }
}

pub fn path_extension(path: &str) -> (r: Option<String>)
    ensures
        opt_seq(r) == extension_spec(path@),
{
    let v = chars_of(path);
    match file_name_of(&v) {
        None => None,
        Some(f) => {
            let (before, after) = split_name(&f);
            match before {
                Some(_) => after,
                None => None,
            }
        },
    }
}

} // verus!
