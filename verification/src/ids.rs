//! Identifiers, tokens and encodings, through the uuid, rand, hex and base64 crates.

use vstd::prelude::*;
use vstd::string::*;
use rand::Rng;
use rand::RngCore;
use base64::Engine;

verus! {

/// A lower-case hexadecimal digit.
pub open spec fn is_lower_hex(c: char) -> bool {
    ('0' <= c && c <= '9') || ('a' <= c && c <= 'f')
}

/// Positions of the hyphens in a hyphenated UUID.
pub open spec fn uuid_hyphen_at(i: int) -> bool {
    i == 8 || i == 13 || i == 18 || i == 23
}

/// The hyphenated lower-case form of a UUID: 36 characters, hyphens after
/// the 8th, 12th, 16th and 20th hex digit, lower-case hex digits elsewhere.
pub open spec fn uuid_text(s: Seq<char>) -> bool {
    &&& s.len() == 36
    &&& forall|i: int|
        0 <= i < 36 ==> if uuid_hyphen_at(i) {
            #[trigger] s[i] == '-'
        } else {
            is_lower_hex(s[i])
        }
}

/// A random (version 4, RFC 4122 variant) UUID in hyphenated form.
pub open spec fn uuid_v4_text(s: Seq<char>) -> bool {
    &&& uuid_text(s)
    &&& s[14] == '4'
    &&& (s[19] == '8' || s[19] == '9' || s[19] == 'a' || s[19] == 'b')
}

/// `Uuid::new_v4().to_string()`: a fresh random UUID, shown hyphenated in
/// lower case, with the version digit 4 and the RFC 4122 variant digit set.
/// Only the form is stated; the value is random.
#[verifier::external_body]
pub(crate) fn new_uuid_string() -> (s: String)
    ensures
        uuid_v4_text(s@),
{
    uuid::Uuid::new_v4().to_string()
}

/// `rand::thread_rng().gen_range(0..n)`: a random index below `n`
/// (`gen_range` panics on an empty range, hence `n > 0`).
#[verifier::external_body]
pub(crate) fn random_index(n: usize) -> (r: usize)
    requires
        n > 0,
    ensures
        r < n,
{
    rand::thread_rng().gen_range(0..n)
}

/// `rand::thread_rng().fill_bytes` on 16 bytes: random content.
#[verifier::external_body]
pub(crate) fn random_bytes16() -> (r: [u8; 16]) {
    let mut b = [0u8; 16];
    rand::thread_rng().fill_bytes(&mut b);
    b
}

/// A lower-case hex digit for `n < 16`.
pub open spec fn hex_digit(n: int) -> char {
    if n < 10 { (48 + n) as char } else { (87 + n) as char }
}

/// Lower-case hex encoding: two digits per byte, high nibble first.
pub open spec fn hex_lower(b: Seq<u8>) -> Seq<char>
    decreases b.len(),
{
    if b.len() == 0 {
        Seq::empty()
    } else {
        hex_lower(b.drop_last()).push(hex_digit(b.last() as int / 16)).push(hex_digit(b.last() as int % 16))
    }
}

/// `hex::encode`: lower-case hex of the bytes.
#[verifier::external_body]
pub(crate) fn hex_encode(data: &[u8]) -> (r: String)
    ensures
        r@ == hex_lower(data@),
{
    hex::encode(data)
}

/// Hex text is two lower-case digits per byte.
pub proof fn lemma_hex_lower_shape(b: Seq<u8>)
    ensures
        hex_lower(b).len() == 2 * b.len(),
        forall|i: int| 0 <= i < hex_lower(b).len() ==> is_lower_hex(#[trigger] hex_lower(b)[i]),
    decreases b.len(),
{
    if b.len() > 0 {
        lemma_hex_lower_shape(b.drop_last());
        let h = hex_lower(b);
        let p = hex_lower(b.drop_last());
        assert forall|i: int| 0 <= i < h.len() implies is_lower_hex(#[trigger] h[i]) by {
            if i < p.len() {
                assert(h[i] == p[i]);
            }
        }
    }
}

/// A fresh transfer token: 16 random bytes as 32 lower-case hex digits.
pub fn random_token() -> (t: String)
    ensures
        t@.len() == 32,
        forall|i: int| 0 <= i < 32 ==> is_lower_hex(#[trigger] t@[i]),
{
    let b = random_bytes16();
    let t = hex_encode(&b);
    proof {
        lemma_hex_lower_shape(b@);
    }
    t
}

/// What `base64::engine::general_purpose::STANDARD.decode` gives for the
/// text's bytes: the decoded bytes, or the decode error's display text.
pub uninterp spec fn base64_standard(input: Seq<char>) -> Result<Seq<u8>, Seq<char>>;

/// What `base64::engine::general_purpose::STANDARD_NO_PAD.decode` gives.
pub uninterp spec fn base64_no_pad(input: Seq<char>) -> Result<Seq<u8>, Seq<char>>;

/// `STANDARD.decode`, the error turned into its display text.
#[verifier::external_body]
pub(crate) fn decode_base64_standard(input: &str) -> (r: Result<Vec<u8>, String>)
    ensures
        match (r, base64_standard(input@)) {
            (Ok(v), Ok(w)) => v@ == w,
            (Err(m), Err(n)) => m@ == n,
            _ => false,
        },
{
    base64::engine::general_purpose::STANDARD.decode(input).map_err(|e| e.to_string())
}

/// `STANDARD_NO_PAD.decode`, the error turned into its display text.
#[verifier::external_body]
pub(crate) fn decode_base64_no_pad(input: &str) -> (r: Result<Vec<u8>, String>)
    ensures
        match (r, base64_no_pad(input@)) {
            (Ok(v), Ok(w)) => v@ == w,
            (Err(m), Err(n)) => m@ == n,
            _ => false,
        },
{
    base64::engine::general_purpose::STANDARD_NO_PAD.decode(input).map_err(|e| e.to_string())
}

} // verus!
