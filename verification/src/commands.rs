//! Inputs of the UI commands: page sizes and clipboard payloads.

use vstd::prelude::*;
use vstd::string::*;
use crate::text::{trim, trimmed_chars, string_of, chars_of, append_str};
use crate::ids::{decode_base64_standard, decode_base64_no_pad, base64_standard, base64_no_pad};

verus! {

/// How many messages a chat page shows: 500 unless asked, between 1 and 2000.
pub fn message_list_limit(limit: Option<i64>) -> (r: i64)
    ensures
        r == (match limit {
            None => 500,
            Some(l) => if l < 1 { 1 } else if l > 2000 { 2000 } else { l },
        }),
{
    match limit {
        None => 500,
        Some(l) => if l < 1 {
            1
        } else if l > 2000 {
            2000
        } else {
            l
        },
    }
}

/// How many diagnostics entries are listed: 100 unless asked, between 1 and 200.
pub fn diagnostics_list_limit(limit: Option<usize>) -> (r: usize)
    ensures
        r == (match limit {
            None => 100usize,
            Some(l) => if l < 1 { 1 } else if l > 200 { 200 } else { l },
        }),
{
    match limit {
        None => 100,
        Some(l) => if l < 1 {
            1
        } else if l > 200 {
            200
        } else {
            l
        },
    }
}

/// Index of the first `c` in `s`, or -1.
pub open spec fn first_index(s: Seq<char>, c: char) -> int
    decreases s.len(),
{
    if s.len() == 0 {
        -1
    } else if s[0] == c {
        0
    } else if first_index(s.drop_first(), c) < 0 {
        -1
    } else {
        first_index(s.drop_first(), c) + 1
    }
}

/// The base64 text in a clipboard payload: what follows the first comma of a
/// data URL (the whole payload when there is none), trimmed.
pub open spec fn payload_text(data: Seq<char>) -> Seq<char> {
    let k = first_index(data, ',');
    if k < 0 {
        trim(data)
    } else {
        trim(data.skip(k + 1))
    }
}

proof fn lemma_first_index(s: Seq<char>, c: char)
    ensures
        -1 <= first_index(s, c) < s.len(),
        first_index(s, c) >= 0 ==> s[first_index(s, c)] == c,
        forall|j: int| 0 <= j < s.len() && (first_index(s, c) < 0 || j < first_index(s, c)) ==> #[trigger] s[j] != c,
    decreases s.len(),
{
    if s.len() > 0 && s[0] != c {
        lemma_first_index(s.drop_first(), c);
        assert forall|j: int| 0 <= j < s.len() && (first_index(s, c) < 0 || j < first_index(s, c)) implies #[trigger] s[j] != c by {
            if j > 0 {
                assert(s.drop_first()[j - 1] == s[j]);
            }
        }
    }
}

proof fn lemma_first_index_is(s: Seq<char>, c: char, k: int)
    requires
        -1 <= k < s.len(),
        k >= 0 ==> s[k] == c,
        forall|j: int| 0 <= j < s.len() && (k < 0 || j < k) ==> #[trigger] s[j] != c,
    ensures
        first_index(s, c) == k,
    decreases s.len(),
{
    lemma_first_index(s, c);
    let f = first_index(s, c);
    if f >= 0 && (k < 0 || f < k) {
        assert(s[f] != c);
    }
    if k >= 0 && (f < 0 || k < f) {
        assert(s[k] != c);
    }
}

/// The base64 text of a clipboard payload.
pub fn payload_base64(data: &str) -> (r: String)
    ensures
        r@ == payload_text(data@),
{
    let v = chars_of(data);
    let mut i: usize = 0;
    while i < v.len() && v[i] != ','
        invariant
            v@ == data@,
            i <= v@.len(),
            forall|j: int| 0 <= j < i ==> #[trigger] v@[j] != ',',
        decreases v@.len() - i,
    {
        i = i + 1;
    }
    let rest = if i < v.len() {
        proof {
            lemma_first_index_is(data@, ',', i as int);
        }
        string_of(&v, i + 1, v.len())
    } else {
        proof {
            lemma_first_index_is(data@, ',', -1);
            assert(v@.subrange(0, v@.len() as int) =~= v@);
        }
        string_of(&v, 0, v.len())
    };
    proof {
        if i < v.len() {
            assert(v@.subrange(i + 1, v@.len() as int) =~= data@.skip(i + 1));
        }
    }
    let t = trimmed_chars(rest.as_str());
    string_of(&t, 0, t.len())
}

/// What a clipboard payload decodes to, given the two decoders' results
/// for its base64 text: the padded decoding, else the unpadded one, else an
/// error quoting the unpadded decoder.
pub fn clipboard_decode_result(
    standard: Result<Vec<u8>, String>,
    no_pad: Result<Vec<u8>, String>,
) -> (r: Result<Vec<u8>, String>)
    ensures
        match standard {
            Ok(b) => r == Ok::<Vec<u8>, String>(b),
            Err(_) => match no_pad {
                Ok(b) => r == Ok::<Vec<u8>, String>(b),
                Err(e) => r matches Err(m) && m@ == "Invalid base64 in clipboard payload: "@ + e@,
            },
        },
{
    match standard {
        Ok(b) => Ok(b),
        Err(_) => match no_pad {
            Ok(b) => Ok(b),
            Err(e) => {
                let mut m = String::from_str("Invalid base64 in clipboard payload: ");
                append_str(&mut m, e.as_str());
                Err(m)
            },
        },
    }
}

/// Decodes a pasted screenshot: raw base64 or a data URL, padded or not.
pub fn decode_clipboard_payload(base64_data: &str) -> (r: Result<Vec<u8>, String>)
    ensures
        ({
            let t = payload_text(base64_data@);
            match base64_standard(t) {
                Ok(b) => r matches Ok(v) && v@ == b,
                Err(_) => match base64_no_pad(t) {
                    Ok(b) => r matches Ok(v) && v@ == b,
                    Err(e) => r matches Err(m) && m@ == "Invalid base64 in clipboard payload: "@ + e,
                },
            }
        }),
{
    let b64 = payload_base64(base64_data);
    let standard = decode_base64_standard(b64.as_str());
    if standard.is_ok() {
        return clipboard_decode_result(standard, Err(String::new()));
    }
    let no_pad = decode_base64_no_pad(b64.as_str());
    clipboard_decode_result(standard, no_pad)
}

} // verus!
