//! Byte encodings used by the OAuth flow: percent-encoding (`urlencoding`),
//! unpadded URL-safe base64 (`base64`) and SHA-256 (`sha2`). The first two
//! are specified exactly; the digest is named.
use vstd::prelude::*;
use vstd::utf8::{decode_utf8, valid_utf8};
use vstd::string::StringSliceAdditionalSpecFns;
use base64::Engine;
use sha2::Digest;

verus! {

// ---------------------------------------------------------------------
// Percent-encoding
// ---------------------------------------------------------------------

/// Bytes that percent-encoding leaves alone: ASCII letters, digits and
/// `-` `.` `_` `~`.
pub open spec fn unreserved(b: u8) -> bool {
    (48 <= b <= 57) || (65 <= b <= 90) || (97 <= b <= 122) || b == 45 || b == 46 || b == 95 || b
        == 126
}

/// The upper-case hexadecimal digit of `d` (`d < 16`).
pub open spec fn hex_upper(d: int) -> char {
    if d < 10 {
        (48 + d) as char
    } else {
        (55 + d) as char
    }
}

/// The percent-encoding of some bytes: unreserved bytes as themselves,
/// every other byte as `%XX` with upper-case hex digits.
pub open spec fn percent_encoded(bytes: Seq<u8>) -> Seq<char>
    decreases bytes.len(),
{
    if bytes.len() == 0 {
        Seq::empty()
    } else {
        let b = bytes.last();
        percent_encoded(bytes.drop_last()) + if unreserved(b) {
            seq![b as char]
        } else {
            seq!['%', hex_upper(b as int / 16), hex_upper(b as int % 16)]
        }
    }
}

/// The value of a hexadecimal digit byte (either case).
pub open spec fn hex_value(b: u8) -> Option<int> {
    if 48 <= b <= 57 {
        Some(b - 48)
    } else if 65 <= b <= 70 {
        Some(b - 55)
    } else if 97 <= b <= 102 {
        Some(b - 87)
    } else {
        None
    }
}

/// Percent-decoding of bytes: each `%` followed by two hex digits becomes
/// the byte they spell; any other `%`, and every other byte, stays as is.
/// `+` is not turned into a space.
pub open spec fn percent_decoded(d: Seq<u8>) -> Seq<u8>
    decreases d.len(),
{
    if d.len() == 0 {
        d
    } else if d[0] == 37 && d.len() >= 3 && hex_value(d[1]) is Some && hex_value(d[2]) is Some {
        seq![(hex_value(d[1])->0 * 16 + hex_value(d[2])->0) as u8] + percent_decoded(d.skip(3))
    } else {
        seq![d[0]] + percent_decoded(d.drop_first())
    }
}

/// `urlencoding::encode`: the percent-encoding of the UTF-8 bytes of `s`.
#[verifier::external_body]
pub(crate) fn url_encode(s: &str) -> (r: String)
    ensures
        r@ == percent_encoded(s.spec_bytes()),
{
    urlencoding::encode(s).into_owned()
}

/// `urlencoding::decode`: the percent-decoded bytes of `s` as UTF-8, or
/// `None` when they are not valid UTF-8.
#[verifier::external_body]
pub(crate) fn url_decode(s: &str) -> (r: Option<String>)
    ensures
        match r {
            Some(t) => valid_utf8(percent_decoded(s.spec_bytes())) && t@ == decode_utf8(
                percent_decoded(s.spec_bytes()),
            ),
            None => !valid_utf8(percent_decoded(s.spec_bytes())),
        },
{
    urlencoding::decode(s).ok().map(|c| c.into_owned())
}

// ---------------------------------------------------------------------
// Base64, URL-safe alphabet, no padding
// ---------------------------------------------------------------------

/// The URL-safe base64 symbol of a 6-bit value.
pub open spec fn b64url_symbol(v: int) -> char {
    if v < 26 {
        (65 + v) as char
    } else if v < 52 {
        (71 + v) as char
    } else if v < 62 {
        (v - 4) as char
    } else if v == 62 {
        '-'
    } else {
        '_'
    }
}

/// RFC 4648 §5 base64 (`-` and `_` for 62 and 63) without `=` padding.
pub open spec fn base64url(bytes: Seq<u8>) -> Seq<char>
    decreases bytes.len(),
{
    if bytes.len() == 0 {
        Seq::empty()
    } else if bytes.len() == 1 {
        let b0 = bytes[0] as int;
        seq![b64url_symbol(b0 / 4), b64url_symbol((b0 % 4) * 16)]
    } else if bytes.len() == 2 {
        let b0 = bytes[0] as int;
        let b1 = bytes[1] as int;
        seq![
            b64url_symbol(b0 / 4),
            b64url_symbol((b0 % 4) * 16 + b1 / 16),
            b64url_symbol((b1 % 16) * 4),
        ]
    } else {
        let b0 = bytes[0] as int;
        let b1 = bytes[1] as int;
        let b2 = bytes[2] as int;
        seq![
            b64url_symbol(b0 / 4),
            b64url_symbol((b0 % 4) * 16 + b1 / 16),
            b64url_symbol((b1 % 16) * 4 + b2 / 64),
            b64url_symbol(b2 % 64),
        ] + base64url(bytes.skip(3))
    }
}

/// `base64::engine::general_purpose::URL_SAFE_NO_PAD.encode`.
#[verifier::external_body]
pub(crate) fn base64url_encode(bytes: &[u8]) -> (r: String)
    ensures
        r@ == base64url(bytes@),
{
    base64::engine::general_purpose::URL_SAFE_NO_PAD.encode(bytes)
}

// ---------------------------------------------------------------------
// SHA-256
// ---------------------------------------------------------------------

/// The SHA-256 digest of some bytes.
pub uninterp spec fn sha256(data: Seq<u8>) -> Seq<u8>;

/// `sha2::Sha256::digest`: the 32-byte SHA-256 digest.
#[verifier::external_body]
pub(crate) fn sha256_digest(data: &[u8]) -> (r: Vec<u8>)
    ensures
        r@ == sha256(data@),
        r@.len() == 32,
{
    sha2::Sha256::digest(data).to_vec()
}

} // verus!
