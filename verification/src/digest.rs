//! SHA-256 content addresses and their textual form.

use vstd::prelude::*;
use vstd::slice::slice_subrange;
use vstd::string::{StringExecFns, StringSliceAdditionalSpecFns};
use vstd::utf8::encode_utf8;

verus! {

/// Number of bytes in a SHA-256 digest.
pub const SHA256_LEN: usize = 32;

/// Number of bytes in the `sha256:` prefix of a written digest.
pub const PREFIX_LEN: usize = 7;

/// Number of hexadecimal digits in a written digest.
pub const DIGEST_HEX_LEN: usize = 64;

/// The SHA-256 hash of `data`, as computed by the `sha2` crate.
pub uninterp spec fn sha256(data: Seq<u8>) -> Seq<u8>;

/// Hashes `data` with SHA-256.
///
/// Wraps `sha2::Sha256::digest`; the 32 bytes returned are taken to be the
/// SHA-256 hash of `data`, which is all this crate knows about them.
#[verifier::external_body]
fn sha256_of(data: &[u8]) -> (hash: [u8; 32])
    ensures
        hash@ == sha256(data@),
{
    <sha2::Sha256 as sha2::Digest>::digest(data).into()
}

/// The sixteen lowercase hexadecimal digits, indexed by their value.
pub open spec fn hex_alphabet() -> Seq<char> {
    seq!['0', '1', '2', '3', '4', '5', '6', '7', '8', '9', 'a', 'b', 'c', 'd', 'e', 'f']
}

/// Lowercase hexadecimal text of `bytes`: two digits per byte, high nibble first.
pub open spec fn hex_encode(bytes: Seq<u8>) -> Seq<char> {
    Seq::new(
        2 * bytes.len(),
        |i: int|
            if i % 2 == 0 {
                hex_alphabet()[bytes[i / 2] as int / 16]
            } else {
                hex_alphabet()[bytes[i / 2] as int % 16]
            },
    )
}

/// Whether `b` is the ASCII code of `0`-`9` or `a`-`f`.
pub open spec fn is_lower_hex_digit(b: u8) -> bool {
    (0x30 <= b <= 0x39) || (0x61 <= b <= 0x66)
}

/// Whether `b` is the ASCII code of a hexadecimal digit of either case.
pub open spec fn is_hex_digit(b: u8) -> bool {
    is_lower_hex_digit(b) || (0x41 <= b <= 0x46)
}

/// The value of the hexadecimal digit with ASCII code `b`.
pub open spec fn hex_digit_value(b: u8) -> int {
    if 0x30 <= b <= 0x39 {
        b - 0x30
    } else if 0x61 <= b <= 0x66 {
        b - 0x61 + 10
    } else {
        b - 0x41 + 10
    }
}

/// Whether every byte of `text` is a hexadecimal digit of either case.
pub open spec fn all_hex_digits(text: Seq<u8>) -> bool {
    forall|i: int| 0 <= i < text.len() ==> is_hex_digit(#[trigger] text[i])
}

/// Whether every byte of `text` is a lowercase hexadecimal digit.
pub open spec fn all_lower_hex_digits(text: Seq<u8>) -> bool {
    forall|i: int| 0 <= i < text.len() ==> is_lower_hex_digit(#[trigger] text[i])
}

/// The bytes written by the hexadecimal digits `text`, two digits per byte.
pub open spec fn hex_decode(text: Seq<u8>) -> Seq<u8> {
    Seq::new(
        text.len() / 2,
        |i: int| (16 * hex_digit_value(text[2 * i]) + hex_digit_value(text[2 * i + 1])) as u8,
    )
}

/// Writes `bytes` as lowercase hexadecimal text.
///
/// Wraps `hex::encode`, which emits for each byte the digit of its high
/// nibble and then that of its low nibble, from the table `0123456789abcdef`.
#[verifier::external_body]
fn encode_hex(bytes: &[u8]) -> (text: String)
    ensures
        text@ == hex_encode(bytes@),
{
    hex::encode(bytes)
}

/// `hex::FromHexError`, the reason why text was not decoded. It is passed
/// on unread.
#[verifier::external_type_specification]
#[verifier::external_body]
pub struct ExFromHexError(hex::FromHexError);

/// Reads 64 hexadecimal digits as 32 bytes.
///
/// Wraps `hex::FromHex::from_hex` for `[u8; 32]`. It succeeds exactly on 64
/// bytes that are all hexadecimal digits, upper or lower case, and then each
/// output byte is sixteen times the value of one digit plus the value of the
/// next.
#[verifier::external_body]
fn decode_hex_32(text: &[u8]) -> (decoded: Result<[u8; 32], hex::FromHexError>)
    ensures
        match decoded {
            Ok(bytes) => text@.len() == 64 && all_hex_digits(text@) && bytes@ == hex_decode(text@),
            Err(_) => !(text@.len() == 64 && all_hex_digits(text@)),
        },
{
    hex::FromHex::from_hex(text)
}

/// A SHA-256 digest: the address of a blob or manifest.
#[derive(Clone, Copy, Debug, PartialEq, Eq, Hash)]
pub struct Digest {
    bytes: [u8; 32],
}

impl View for Digest {
    type V = Seq<u8>;

    closed spec fn view(&self) -> Seq<u8> {
        self.bytes@
    }
}

impl Digest {
    /// Every digest is 32 bytes long.
    pub broadcast proof fn lemma_len(self)
        ensures
            #[trigger] self@.len() == 32,
    {
        broadcast use vstd::array::array_len_matches_n;

    }

    /// Wraps 32 raw bytes as a digest.
    pub fn new(bytes: [u8; 32]) -> (digest: Digest)
        ensures
            digest@ == bytes@,
    {
        Digest { bytes }
    }

    /// The digest of `data`.
    pub fn of(data: &[u8]) -> (digest: Digest)
        ensures
            digest@ == sha256(data@),
    {
        Digest { bytes: sha256_of(data) }
    }

    /// The raw bytes of the digest.
    pub fn as_bytes(&self) -> (bytes: &[u8; 32])
        ensures
            bytes@ == self@,
    {
        &self.bytes
    }

    /// Whether two digests are equal.
    pub fn same_as(&self, other: &Digest) -> (same: bool)
        ensures
            same == (self@ == other@),
    {
        let mut i: usize = 0;
        while i < 32
            invariant
                0 <= i <= 32,
                forall|j: int| 0 <= j < i ==> self.bytes@[j] == other.bytes@[j],
            decreases 32 - i,
        {
            if self.bytes[i] != other.bytes[i] {
                return false;
            }
            i += 1;
        }
        assert(self.bytes@ =~= other.bytes@);
        true
    }

    /// Reads a digest written as exactly 64 lowercase hexadecimal digits.
    pub fn from_hex(text: &[u8]) -> (digest: Option<Digest>)
        ensures
            match digest {
                Some(found) => text@.len() == 64 && all_lower_hex_digits(text@) && found@
                    == hex_decode(text@),
                None => !(text@.len() == 64 && all_lower_hex_digits(text@)),
            },
    {
        if text.len() != DIGEST_HEX_LEN {
            return None;
        }
        let mut i: usize = 0;
        while i < DIGEST_HEX_LEN
            invariant
                0 <= i <= 64,
                text@.len() == 64,
                forall|j: int| 0 <= j < i ==> is_lower_hex_digit(#[trigger] text@[j]),
            decreases 64 - i,
        {
            let b = text[i];
            if !((0x30 <= b && b <= 0x39) || (0x61 <= b && b <= 0x66)) {
                return None;
            }
            i += 1;
        }
        match decode_hex_32(text) {
            Ok(decoded) => Some(Digest { bytes: decoded }),
            Err(_) => None,
        }
    }

    /// The digest as 64 lowercase hexadecimal digits.
    pub fn to_hex(&self) -> (text: String)
        ensures
            text@ == hex_encode(self@),
    {
        encode_hex(self.bytes.as_slice())
    }
}

/// Why a written digest was not accepted.
#[derive(Clone, Copy, Debug, PartialEq, Eq, Structural)]
pub enum ImageDigestParseError {
    /// The text is not exactly 71 bytes long.
    WrongLength,
    /// The text does not start with `sha256:`.
    WrongPrefix,
    /// What follows the prefix is not made of lowercase hexadecimal digits.
    HexDecodeError,
}

impl ImageDigestParseError {
    /// A short description of the error.
    pub fn message(&self) -> (text: &'static str)
        ensures
            text@ == match *self {
                ImageDigestParseError::WrongLength => "wrong length"@,
                ImageDigestParseError::WrongPrefix => "wrong prefix"@,
                ImageDigestParseError::HexDecodeError => "hex decoding error"@,
            },
    {
        match self {
            ImageDigestParseError::WrongLength => "wrong length",
            ImageDigestParseError::WrongPrefix => "wrong prefix",
            ImageDigestParseError::HexDecodeError => "hex decoding error",
        }
    }
}

/// The ASCII bytes of `sha256:`.
pub open spec fn digest_prefix() -> Seq<u8> {
    seq![0x73u8, 0x68u8, 0x61u8, 0x32u8, 0x35u8, 0x36u8, 0x3au8]
}

/// What a written digest stands for: the 32 bytes it names, or the reason
/// it is refused. `raw` is the UTF-8 encoding of the text.
pub open spec fn parse_image_digest(raw: Seq<u8>) -> Result<Seq<u8>, ImageDigestParseError> {
    if raw.len() != 71 {
        Err(ImageDigestParseError::WrongLength)
    } else if raw.subrange(0, 7) != digest_prefix() {
        Err(ImageDigestParseError::WrongPrefix)
    } else if !all_lower_hex_digits(raw.subrange(7, 71)) {
        Err(ImageDigestParseError::HexDecodeError)
    } else {
        Ok(hex_decode(raw.subrange(7, 71)))
    }
}

/// The written form of the digest `bytes`: `sha256:` and 64 lowercase
/// hexadecimal digits.
pub open spec fn image_digest_text(bytes: Seq<u8>) -> Seq<char> {
    "sha256:"@ + hex_encode(bytes)
}

/// A digest as it appears in URLs and headers, written `sha256:<hex>`.
#[derive(Clone, Copy, Debug, PartialEq, Eq, Hash)]
pub struct ImageDigest {
    digest: Digest,
}

impl View for ImageDigest {
    type V = Seq<u8>;

    closed spec fn view(&self) -> Seq<u8> {
        self.digest@
    }
}

/// The outcome of parsing, with the digest replaced by its bytes.
pub open spec fn parsed_bytes(parsed: Result<ImageDigest, ImageDigestParseError>) -> Result<
    Seq<u8>,
    ImageDigestParseError,
> {
    match parsed {
        Ok(image_digest) => Ok(image_digest@),
        Err(e) => Err(e),
    }
}

impl ImageDigest {
    /// Wraps a digest.
    pub fn new(digest: Digest) -> (image_digest: ImageDigest)
        ensures
            image_digest@ == digest@,
            image_digest.digest() == digest,
    {
        ImageDigest { digest }
    }

    /// The digest itself.
    pub closed spec fn digest(&self) -> Digest {
        self.digest
    }

    /// The digest itself.
    pub fn into_digest(self) -> (digest: Digest)
        ensures
            digest == self.digest(),
            digest@ == self@,
    {
        self.digest
    }

    /// Parses `sha256:` followed by exactly 64 lowercase hexadecimal digits.
    pub fn from_str(raw: &str) -> (parsed: Result<ImageDigest, ImageDigestParseError>)
        ensures
            parsed_bytes(parsed) == parse_image_digest(raw.spec_bytes()),
    {
        if raw.len() != PREFIX_LEN + DIGEST_HEX_LEN {
            return Err(ImageDigestParseError::WrongLength);
        }
        let bytes = raw.as_bytes();
        if !(bytes[0] == 0x73 && bytes[1] == 0x68 && bytes[2] == 0x61 && bytes[3] == 0x32
            && bytes[4] == 0x35 && bytes[5] == 0x36 && bytes[6] == 0x3a) {
            assert(bytes@.subrange(0, 7)[0] == bytes@[0]);
            assert(bytes@.subrange(0, 7)[1] == bytes@[1]);
            assert(bytes@.subrange(0, 7)[2] == bytes@[2]);
            assert(bytes@.subrange(0, 7)[3] == bytes@[3]);
            assert(bytes@.subrange(0, 7)[4] == bytes@[4]);
            assert(bytes@.subrange(0, 7)[5] == bytes@[5]);
            assert(bytes@.subrange(0, 7)[6] == bytes@[6]);
            return Err(ImageDigestParseError::WrongPrefix);
        }
        assert(bytes@.subrange(0, 7) =~= digest_prefix());
        let hex_encoded = slice_subrange(bytes, PREFIX_LEN, PREFIX_LEN + DIGEST_HEX_LEN);
        match Digest::from_hex(hex_encoded) {
            Some(digest) => Ok(ImageDigest { digest }),
            None => Err(ImageDigestParseError::HexDecodeError),
        }
    }

    /// The written form, `sha256:<hex>`.
    pub fn to_string(&self) -> (text: String)
        ensures
            text@ == image_digest_text(self@),
    {
        let mut text = "sha256:".to_owned();
        let hex = self.digest.to_hex();
        text.append(hex.as_str());
        text
    }
}

/// Hexadecimal text reads back as the bytes it was written from: the text
/// is ASCII, its encoding is made of lowercase hexadecimal digits, two for
/// each byte, and decoding them gives the bytes.
pub proof fn lemma_hex_round_trip(bytes: Seq<u8>)
    ensures
        vstd::utf8::is_ascii_chars(hex_encode(bytes)),
        encode_utf8(hex_encode(bytes)).len() == 2 * bytes.len(),
        all_lower_hex_digits(encode_utf8(hex_encode(bytes))),
        hex_decode(encode_utf8(hex_encode(bytes))) == bytes,
{
    let hex = hex_encode(bytes);
    assert forall|i: int| 0 <= i < hex.len() implies {
        &&& is_lower_hex_digit(#[trigger] hex[i] as u8)
        &&& '\0' <= hex[i] <= '\u{7f}'
        &&& hex_digit_value(hex[i] as u8) == (if i % 2 == 0 {
            bytes[i / 2] as int / 16
        } else {
            bytes[i / 2] as int % 16
        })
    } by {
        let nibble: int = if i % 2 == 0 {
            bytes[i / 2] as int / 16
        } else {
            bytes[i / 2] as int % 16
        };
        assert(0 <= nibble < 16);
        assert(hex[i] == hex_alphabet()[nibble]);
    }
    assert(vstd::utf8::is_ascii_chars(hex));
    vstd::utf8::is_ascii_chars_encode_utf8(hex);
    let digits = encode_utf8(hex);
    assert forall|i: int| 0 <= i < digits.len() implies is_lower_hex_digit(#[trigger] digits[i]) by {
        assert(digits[i] == hex[i] as u8);
    }
    assert(hex_decode(digits) =~= bytes) by {
        assert forall|k: int| 0 <= k < bytes.len() implies #[trigger] hex_decode(digits)[k]
            == bytes[k] by {
            assert(digits[2 * k] == hex[2 * k] as u8);
            assert(digits[2 * k + 1] == hex[2 * k + 1] as u8);
            assert((2 * k) % 2 == 0);
            assert((2 * k + 1) % 2 == 1);
            assert((2 * k) / 2 == k);
            assert((2 * k + 1) / 2 == k);
        }
    }
}

/// Different bytes are written differently in hexadecimal.
pub proof fn lemma_hex_encode_injective(a: Seq<u8>, b: Seq<u8>)
    requires
        hex_encode(a) == hex_encode(b),
    ensures
        a == b,
{
    lemma_hex_round_trip(a);
    lemma_hex_round_trip(b);
}

/// Parsing the written form of a digest gives back that digest: for any
/// 32 bytes, the text that reads `sha256:` followed by their lowercase
/// hexadecimal digits is accepted, and read as those bytes.
pub proof fn lemma_parse_inverts_format(bytes: Seq<u8>)
    requires
        bytes.len() == 32,
    ensures
        parse_image_digest(encode_utf8(image_digest_text(bytes))) == Ok::<
            Seq<u8>,
            ImageDigestParseError,
        >(bytes),
{
    reveal_strlit("sha256:");
    let prefix = "sha256:"@;
    let hex = hex_encode(bytes);
    let text = image_digest_text(bytes);
    lemma_hex_round_trip(bytes);
    assert(vstd::utf8::is_ascii_chars(prefix));
    vstd::utf8::is_ascii_chars_concat(text, prefix, hex);
    vstd::utf8::is_ascii_chars_encode_utf8(text);
    vstd::utf8::is_ascii_chars_encode_utf8(hex);
    let encoded = encode_utf8(text);
    assert(encoded.len() == 71);
    assert forall|i: int| 0 <= i < 71 implies #[trigger] encoded[i] == text[i] as u8 by {}
    assert(encoded.subrange(0, 7) =~= digest_prefix());
    assert(encoded.subrange(7, 71) =~= encode_utf8(hex)) by {
        assert forall|i: int| 0 <= i < 64 implies #[trigger] encoded.subrange(7, 71)[i]
            == encode_utf8(hex)[i] by {
            assert(encoded[i + 7] == text[i + 7] as u8);
            assert(text[i + 7] == hex[i]);
            assert(encode_utf8(hex)[i] == hex[i] as u8);
        }
    }
}

} // verus!
