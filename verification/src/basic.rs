//! The `Authorization` header of HTTP basic authentication.

use vstd::prelude::*;
use vstd::slice::{slice_subrange, slice_to_vec};
use vstd::utf8::{decode_utf8, valid_utf8};

verus! {

/// The value of a character of the base64 alphabet.
pub open spec fn sextet(c: u8) -> Option<int> {
    if 0x41 <= c <= 0x5a {
        Some(c - 0x41)
    } else if 0x61 <= c <= 0x7a {
        Some(c - 0x61 + 26)
    } else if 0x30 <= c <= 0x39 {
        Some(c - 0x30 + 52)
    } else if c == 0x2b {
        Some(62)
    } else if c == 0x2f {
        Some(63)
    } else {
        None
    }
}

/// The three bytes written by four characters of the base64 alphabet.
pub open spec fn decode_full_group(group: Seq<u8>) -> Option<Seq<u8>> {
    match (sextet(group[0]), sextet(group[1]), sextet(group[2]), sextet(group[3])) {
        (Some(a), Some(b), Some(c), Some(d)) => Some(
            seq![(a * 4 + b / 16) as u8, ((b % 16) * 16 + c / 4) as u8, ((c % 4) * 64 + d) as u8],
        ),
        _ => None,
    }
}

/// The bytes written by the last group of a base64 text, which may end
/// in one or two padding characters. Bits that do not make up a whole
/// byte are ignored.
pub open spec fn decode_last_group(group: Seq<u8>) -> Option<Seq<u8>> {
    if group[3] != 0x3d {
        decode_full_group(group)
    } else if group[2] != 0x3d {
        match (sextet(group[0]), sextet(group[1]), sextet(group[2])) {
            (Some(a), Some(b), Some(c)) => Some(
                seq![(a * 4 + b / 16) as u8, ((b % 16) * 16 + c / 4) as u8],
            ),
            _ => None,
        }
    } else {
        match (sextet(group[0]), sextet(group[1])) {
            (Some(a), Some(b)) => Some(seq![(a * 4 + b / 16) as u8]),
            _ => None,
        }
    }
}

/// The bytes written by a base64 text in the standard alphabet with
/// padding, or `None` where the text is not such a text.
pub open spec fn base64_decode(text: Seq<u8>) -> Option<Seq<u8>>
    decreases text.len(),
{
    if text.len() == 0 {
        Some(Seq::empty())
    } else if text.len() < 4 {
        None
    } else if text.len() == 4 {
        decode_last_group(text)
    } else {
        match (decode_full_group(text.take(4)), base64_decode(text.skip(4))) {
            (Some(head), Some(tail)) => Some(head + tail),
            _ => None,
        }
    }
}

/// The value of a character of the base64 alphabet.
fn sextet_of(c: u8) -> (value: Option<u8>)
    ensures
        match value {
            Some(v) => sextet(c) == Some(v as int) && v < 64,
            None => sextet(c) is None,
        },
{
    if 0x41 <= c && c <= 0x5a {
        Some(c - 0x41)
    } else if 0x61 <= c && c <= 0x7a {
        Some(c - 0x61 + 26)
    } else if 0x30 <= c && c <= 0x39 {
        Some(c - 0x30 + 52)
    } else if c == 0x2b {
        Some(62)
    } else if c == 0x2f {
        Some(63)
    } else {
        None
    }
}

/// Decodes base64 in the standard alphabet with padding.
pub fn decode_base64(text: &[u8]) -> (decoded: Option<Vec<u8>>)
    ensures
        match decoded {
            Some(bytes) => base64_decode(text@) == Some(bytes@),
            None => base64_decode(text@) is None,
        },
{
    let n = text.len();
    let mut out: Vec<u8> = Vec::new();
    if n == 0 {
        return Some(out);
    }
    if n % 4 != 0 {
        proof {
            lemma_ragged_length(text@);
        }
        return None;
    }
    let mut i: usize = 0;
    assert(text@.skip(0) =~= text@);
    while i + 4 < n
        invariant
            0 <= i < n,
            n == text.len(),
            (n - i) % 4 == 0,
            base64_decode(text@) == match base64_decode(text@.skip(i as int)) {
                Some(tail) => Some(out@ + tail),
                None => None,
            },
        decreases n - i,
    {
        let ghost rest = text@.skip(i as int);
        proof {
            assert(rest.len() > 4);
            assert(rest.skip(4) =~= text@.skip(i + 4));
            assert(rest.take(4)[0] == text@[i as int]);
            assert(rest.take(4)[1] == text@[i + 1]);
            assert(rest.take(4)[2] == text@[i + 2]);
            assert(rest.take(4)[3] == text@[i + 3]);
        }
        let a = sextet_of(text[i]);
        let b = sextet_of(text[i + 1]);
        let c = sextet_of(text[i + 2]);
        let d = sextet_of(text[i + 3]);
        match (a, b, c, d) {
            (Some(a), Some(b), Some(c), Some(d)) => {
                let ghost before = out@;
                out.push(a * 4 + b / 16);
                out.push((b % 16) * 16 + c / 4);
                out.push((c % 4) * 64 + d);
                proof {
                    let head = decode_full_group(rest.take(4))->0;
                    assert(out@ =~= before + head);
                    if base64_decode(text@.skip(i + 4)) is Some {
                        let tail = base64_decode(text@.skip(i + 4))->0;
                        assert(before + (head + tail) =~= out@ + tail);
                    }
                }
            },
            _ => {
                return None;
            },
        }
        i += 4;
    }
    let ghost rest = text@.skip(i as int);
    proof {
        assert(rest.len() == 4);
        assert(rest[0] == text@[i as int]);
        assert(rest[1] == text@[i + 1]);
        assert(rest[2] == text@[i + 2]);
        assert(rest[3] == text@[i + 3]);
    }
    let a = sextet_of(text[i]);
    let b = sextet_of(text[i + 1]);
    let ghost before = out@;
    if text[i + 3] != 0x3d {
        let c = sextet_of(text[i + 2]);
        let d = sextet_of(text[i + 3]);
        match (a, b, c, d) {
            (Some(a), Some(b), Some(c), Some(d)) => {
                out.push(a * 4 + b / 16);
                out.push((b % 16) * 16 + c / 4);
                out.push((c % 4) * 64 + d);
                assert(out@ =~= before + decode_last_group(rest)->0);
                Some(out)
            },
            _ => None,
        }
    } else if text[i + 2] != 0x3d {
        let c = sextet_of(text[i + 2]);
        match (a, b, c) {
            (Some(a), Some(b), Some(c)) => {
                out.push(a * 4 + b / 16);
                out.push((b % 16) * 16 + c / 4);
                assert(out@ =~= before + decode_last_group(rest)->0);
                Some(out)
            },
            _ => None,
        }
    } else {
        match (a, b) {
            (Some(a), Some(b)) => {
                out.push(a * 4 + b / 16);
                assert(out@ =~= before + decode_last_group(rest)->0);
                Some(out)
            },
            _ => None,
        }
    }
}

/// A text whose length is not a multiple of four is not base64.
proof fn lemma_ragged_length(text: Seq<u8>)
    requires
        text.len() % 4 != 0,
    ensures
        base64_decode(text) is None,
    decreases text.len(),
{
    if text.len() > 4 {
        lemma_ragged_length(text.skip(4));
    }
}

/// A username and a password, as bytes.
pub struct BasicCredentials {
    /// The bytes before the first colon.
    pub username: Vec<u8>,
    /// The bytes after the first colon.
    pub password: Vec<u8>,
}

/// Whether `i` is where the credentials start in the header `value`: the
/// header begins with `basic` in any case, and then come one or more
/// spaces up to `i`.
pub open spec fn credentials_start(value: Seq<u8>, i: int) -> bool {
    &&& 6 <= i <= value.len()
    &&& fold_byte(value[0]) == 0x62
    &&& fold_byte(value[1]) == 0x61
    &&& fold_byte(value[2]) == 0x73
    &&& fold_byte(value[3]) == 0x69
    &&& fold_byte(value[4]) == 0x63
    &&& forall|j: int| 5 <= j < i ==> value[j] == 0x20
    &&& (i < value.len() ==> value[i] != 0x20)
}

/// `b`, with the code of an ASCII capital letter replaced by that of its
/// small letter.
pub open spec fn fold_byte(b: u8) -> int {
    if 0x41 <= b <= 0x5a {
        b + 32
    } else {
        b as int
    }
}

/// Whether `i` is the position of the first colon in `bytes`.
pub open spec fn first_colon(bytes: Seq<u8>, i: int) -> bool {
    &&& 0 <= i < bytes.len()
    &&& bytes[i] == 0x3a
    &&& forall|j: int| 0 <= j < i ==> bytes[j] != 0x3a
}

/// Where the credentials start in the header `value`, if it is a basic
/// `Authorization` header.
pub open spec fn credentials_offset_of(value: Seq<u8>) -> Option<int> {
    if exists|i: int| credentials_start(value, i) {
        Some(choose|i: int| credentials_start(value, i))
    } else {
        None
    }
}

/// The bytes before and after the first colon of `bytes`.
pub open spec fn split_at_colon(bytes: Seq<u8>) -> Option<(Seq<u8>, Seq<u8>)> {
    if exists|k: int| first_colon(bytes, k) {
        let k = choose|k: int| first_colon(bytes, k);
        Some((bytes.take(k), bytes.skip(k + 1)))
    } else {
        None
    }
}

/// What a basic `Authorization` header says: `(username, password)`, the
/// bytes before and after the first colon of the decoded credentials.
pub open spec fn basic_auth(value: Seq<u8>) -> Option<(Seq<u8>, Seq<u8>)> {
    match credentials_offset_of(value) {
        Some(i) => match base64_decode(value.skip(i)) {
            Some(decoded) => split_at_colon(decoded),
            None => None,
        },
        None => None,
    }
}

proof fn lemma_credentials_offset(value: Seq<u8>, i: int)
    requires
        credentials_start(value, i),
    ensures
        credentials_offset_of(value) == Some(i),
{
    let j = choose|j: int| credentials_start(value, j);
    assert(credentials_start(value, j));
    if i < j {
        assert(value[i] == 0x20);
    }
    if j < i {
        assert(value[j] == 0x20);
    }
}

proof fn lemma_split_at_colon(bytes: Seq<u8>, k: int)
    requires
        first_colon(bytes, k),
    ensures
        split_at_colon(bytes) == Some((bytes.take(k), bytes.skip(k + 1))),
{
    let j = choose|j: int| first_colon(bytes, j);
    assert(first_colon(bytes, j));
    if k < j {
        assert(bytes[k] != 0x3a);
    }
    if j < k {
        assert(bytes[j] != 0x3a);
    }
}

fn folded_byte(b: u8) -> (code: u8)
    ensures
        code == fold_byte(b),
{
    if 0x41 <= b && b <= 0x5a {
        b + 32
    } else {
        b
    }
}

/// Finds where the credentials start in a basic `Authorization` header.
fn credentials_offset(value: &[u8]) -> (start: Option<usize>)
    ensures
        match start {
            Some(i) => credentials_start(value@, i as int),
            None => forall|i: int| !credentials_start(value@, i),
        },
{
    let n = value.len();
    if n < 6 {
        return None;
    }
    if !(folded_byte(value[0]) == 0x62 && folded_byte(value[1]) == 0x61 && folded_byte(value[2])
        == 0x73 && folded_byte(value[3]) == 0x69 && folded_byte(value[4]) == 0x63 && value[5]
        == 0x20) {
        assert forall|i: int| !credentials_start(value@, i) by {
            if credentials_start(value@, i) {
                assert(value@[5] == 0x20);
            }
        }
        return None;
    }
    let mut i: usize = 6;
    while i < n && value[i] == 0x20
        invariant
            6 <= i <= n,
            n == value.len(),
            forall|j: int| 5 <= j < i ==> value@[j] == 0x20,
        decreases n - i,
    {
        i += 1;
    }
    Some(i)
}

/// Finds the first colon in `bytes`.
fn first_colon_of(bytes: &[u8]) -> (found: Option<usize>)
    ensures
        match found {
            Some(k) => first_colon(bytes@, k as int),
            None => forall|k: int| !first_colon(bytes@, k),
        },
{
    let mut k: usize = 0;
    while k < bytes.len()
        invariant
            0 <= k <= bytes.len(),
            forall|j: int| 0 <= j < k ==> bytes@[j] != 0x3a,
        decreases bytes.len() - k,
    {
        if bytes[k] == 0x3a {
            return Some(k);
        }
        k += 1;
    }
    None
}

/// Parses the value of a basic `Authorization` header.
pub fn basic_auth_response(value: &[u8]) -> (parsed: Option<BasicCredentials>)
    ensures
        match parsed {
            Some(basic) => basic_auth(value@) == Some((basic.username@, basic.password@)),
            None => basic_auth(value@) is None,
        },
{
    let start = match credentials_offset(value) {
        Some(i) => i,
        None => { return None; },
    };
    proof {
        lemma_credentials_offset(value@, start as int);
    }
    let encoded = slice_subrange(value, start, value.len());
    assert(encoded@ =~= value@.skip(start as int));
    let decoded = match decode_base64(encoded) {
        Some(bytes) => bytes,
        None => { return None; },
    };
    let k = match first_colon_of(decoded.as_slice()) {
        Some(k) => k,
        None => { return None; },
    };
    proof {
        assert(first_colon(decoded@, k as int));
        lemma_split_at_colon(decoded@, k as int);
    }
    assert(k < decoded.len());
    let username = slice_to_vec(slice_subrange(decoded.as_slice(), 0, k));
    let password = slice_to_vec(slice_subrange(decoded.as_slice(), k + 1, decoded.len()));
    assert(username@ =~= decoded@.take(k as int));
    assert(password@ =~= decoded@.skip(k + 1));
    Some(BasicCredentials { username, password })
}

/// Reads bytes as UTF-8 text.
///
/// Wraps `String::from_utf8`, which succeeds exactly on valid UTF-8 and
/// then holds the characters that the bytes encode.
#[verifier::external_body]
pub(crate) fn utf8_text(bytes: Vec<u8>) -> (text: Option<String>)
    ensures
        match text {
            Some(s) => valid_utf8(bytes@) && s@ == decode_utf8(bytes@),
            None => !valid_utf8(bytes@),
        },
{
    match String::from_utf8(bytes) {
        Ok(s) => Some(s),
        Err(_) => None,
    }
}

} // verus!
