//! Text encodings: Base64 (from the `base64` crate), UTF-8 decoding (from
//! std), IPv4 notation and the hyphenated UUID notation.
use vstd::prelude::*;
use vstd::utf8::{decode_utf8, valid_utf8};

use base64::engine::general_purpose::{STANDARD, STANDARD_NO_PAD};
use base64::Engine;

use crate::text::{decimal, decimal_text, hex_digit, hex_lower, hex_text, string_of};

verus! {

/// Standard Base64 (RFC 4648 alphabet, with `=` padding) of `data`.
pub uninterp spec fn base64_standard(data: Seq<u8>) -> Seq<char>;

/// Standard Base64 of `data` without the `=` padding.
pub uninterp spec fn base64_standard_unpadded(data: Seq<u8>) -> Seq<char>;

/// The bytes whose standard, padded Base64 is `text`, or `None` when `text` is
/// not such a Base64 text.
pub uninterp spec fn base64_standard_decoded(text: Seq<char>) -> Option<Seq<u8>>;

/// `String::from_utf8_lossy`: `bytes` decoded as UTF-8 with every invalid
/// sequence replaced by U+FFFD.
pub uninterp spec fn utf8_lossy(bytes: Seq<u8>) -> Seq<char>;

#[verifier::external_type_specification]
#[verifier::external_body]
pub struct ExDecodeError(base64::DecodeError);

/// `STANDARD.encode` of the `base64` crate. The crate panics only when the
/// encoded length overflows `usize`, which the bound on the input rules out.
#[verifier::external_body]
pub(crate) fn base64_encode(data: &[u8]) -> (t: String)
    requires
        data@.len() <= isize::MAX,
    ensures
        t@ == base64_standard(data@),
{
    STANDARD.encode(data)
}

/// `STANDARD_NO_PAD.encode` of the `base64` crate.
#[verifier::external_body]
pub(crate) fn base64_encode_unpadded(data: &[u8]) -> (t: String)
    requires
        data@.len() <= isize::MAX,
    ensures
        t@ == base64_standard_unpadded(data@),
{
    STANDARD_NO_PAD.encode(data)
}

/// `STANDARD.decode` of the `base64` crate: the decoded bytes, or an error
/// when `text` is not padded standard Base64.
#[verifier::external_body]
pub(crate) fn base64_decode(text: &str) -> (r: Result<Vec<u8>, base64::DecodeError>)
    ensures
        match r {
            Ok(b) => base64_standard_decoded(text@) == Some(b@),
            Err(_) => base64_standard_decoded(text@) is None,
        },
{
    STANDARD.decode(text)
}

/// The text of a `base64::DecodeError` (its `Display`). Nothing is promised
/// of it.
#[verifier::external_body]
pub(crate) fn base64_error_text(e: &base64::DecodeError) -> String {
    e.to_string()
}

/// `String::from_utf8`: the text when `bytes` are valid UTF-8.
#[verifier::external_body]
pub(crate) fn utf8_text(bytes: Vec<u8>) -> (r: Option<String>)
    ensures
        r is Some <==> valid_utf8(bytes@),
        r matches Some(s) ==> s@ == decode_utf8(bytes@),
{
    String::from_utf8(bytes).ok()
}

/// `String::from_utf8_lossy`, owned.
#[verifier::external_body]
pub(crate) fn utf8_lossy_text(bytes: &[u8]) -> (s: String)
    ensures
        s@ == utf8_lossy(bytes@),
{
    String::from_utf8_lossy(bytes).into_owned()
}

/// Dotted-decimal notation of an IPv4 address (`Ipv4Addr`'s `Display`).
pub open spec fn ipv4_notation(o: Seq<u8>) -> Seq<char> {
    decimal(o[0] as nat) + "."@ + decimal(o[1] as nat) + "."@ + decimal(o[2] as nat) + "."@
        + decimal(o[3] as nat)
}

/// The dotted-decimal notation of the address with these 4 bytes.
pub fn ipv4_text(o: [u8; 4]) -> (s: String)
    ensures
        s@ == ipv4_notation(o@),
{
    let mut s = decimal_text(o[0] as u64);
    s.append(".");
    s.append(decimal_text(o[1] as u64).as_str());
    s.append(".");
    s.append(decimal_text(o[2] as u64).as_str());
    s.append(".");
    s.append(decimal_text(o[3] as u64).as_str());
    proof {
        reveal_strlit(".");
    }
    s
}

/// The hyphenated lower-case notation of a UUID (`Uuid`'s `Display`): its 32
/// hexadecimal digits in groups of 8, 4, 4, 4 and 12 joined by `-`.
pub open spec fn uuid_notation(b: Seq<u8>) -> Seq<char> {
    let h = hex_lower(b);
    h.subrange(0, 8) + seq!['-'] + h.subrange(8, 12) + seq!['-'] + h.subrange(12, 16) + seq!['-']
        + h.subrange(16, 20) + seq!['-'] + h.subrange(20, 32)
}

/// Two hex digits per byte.
pub proof fn lemma_hex_len(b: Seq<u8>)
    ensures
        hex_lower(b).len() == 2 * b.len(),
    decreases b.len(),
{
    if b.len() > 0 {
        lemma_hex_len(b.drop_last());
    }
}

/// The hyphenated notation of a UUID.
pub fn uuid_text(b: &[u8; 16]) -> (s: String)
    ensures
        s@ == uuid_notation(b@),
        s@.len() == 36,
{
    let h = hex_text(b);
    proof {
        lemma_hex_len(b@);
    }
    let mut v: Vec<char> = Vec::new();
    let mut i: usize = 0;
    while i < 32
        invariant
            h@ == hex_lower(b@),
            h@.len() == 32,
            i <= 32,
            v@ == uuid_notation(b@).take(
                if i <= 8 {
                    i as int
                } else if i <= 12 {
                    i + 1
                } else if i <= 16 {
                    i + 2
                } else if i <= 20 {
                    i + 3
                } else {
                    i + 4
                },
            ),
        decreases 32 - i,
    {
        if i == 8 || i == 12 || i == 16 || i == 20 {
            v.push('-');
        }
        v.push(h[i]);
        i = i + 1;
        assert(v@ =~= uuid_notation(b@).take(
            if i <= 8 {
                i as int
            } else if i <= 12 {
                i + 1
            } else if i <= 16 {
                i + 2
            } else if i <= 20 {
                i + 3
            } else {
                i + 4
            },
        ));
    }
    assert(uuid_notation(b@).take(36) =~= uuid_notation(b@));
    string_of(&v)
}

/// Where the hexadecimal digits of each byte stand.
pub proof fn lemma_hex_digits(b: Seq<u8>, i: int)
    requires
        0 <= i < b.len(),
    ensures
        hex_lower(b).len() == 2 * b.len(),
        hex_lower(b)[2 * i] == hex_digit(b[i] / 16),
        hex_lower(b)[2 * i + 1] == hex_digit(b[i] % 16),
    decreases b.len(),
{
    lemma_hex_len(b);
    lemma_hex_len(b.drop_last());
    if i < b.len() - 1 {
        lemma_hex_digits(b.drop_last(), i);
    }
}

/// The marks of a random (version 4, RFC variant) UUID: its 15th character
/// is `4` and its 20th one of `8`, `9`, `a`, `b`.
pub open spec fn random_uuid_marks(s: Seq<char>) -> bool {
    s[14] == '4' && (s[19] == '8' || s[19] == '9' || s[19] == 'a' || s[19] == 'b')
}

/// A fresh random identifier in hyphenated UUID notation: the notation of
/// 16 random bytes that carry the version-4 and variant marks.
pub fn new_id() -> (s: String)
    ensures
        s@.len() == 36,
        exists|b: Seq<u8>|
            #![trigger uuid_notation(b)]
            b.len() == 16 && b[6] / 16 == 4 && b[8] / 64 == 2 && s@ == uuid_notation(b),
        random_uuid_marks(s@),
{
    let b = crate::crypto::random_uuid_bytes();
    let s = uuid_text(&b);
    proof {
        let bs = b@;
        lemma_hex_digits(bs, 6);
        lemma_hex_digits(bs, 8);
        let h = hex_lower(bs);
        assert(s@[14] == h[12]);
        assert(s@[19] == h[16]);
        assert(hex_digit(4) == '4');
        assert(8 <= bs[8] / 16 <= 11);
        assert(hex_digit(8) == '8' && hex_digit(9) == '9' && hex_digit(10) == 'a' && hex_digit(11)
            == 'b');
        assert(bs.len() == 16 && bs[6] / 16 == 4 && bs[8] / 64 == 2 && s@ == uuid_notation(bs));
    }
    s
}

} // verus!
