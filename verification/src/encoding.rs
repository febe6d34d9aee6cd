//! Byte encodings used by the login flow, and the outside functions that
//! compute them: lower-case hex (`hex`), URL-safe base64 without padding
//! (`base64`), percent-encoding (`urlencoding`), SHA-256 (`sha2`), and the
//! operating system's random bytes (`rand`).

use vstd::prelude::*;
use vstd::utf8::{decode_utf8, encode_utf8, is_ascii_chars, valid_utf8};
use base64::Engine;
use rand::Rng;
use sha2::Digest;

verus! {

/// The lower-case hexadecimal digit of `v` (`0 <= v < 16`).
pub open spec fn hex_digit_lower(v: int) -> char {
    if v < 10 {
        (v + 48) as char
    } else {
        (v + 87) as char
    }
}

/// The upper-case hexadecimal digit of `v` (`0 <= v < 16`).
pub open spec fn hex_digit_upper(v: int) -> char {
    if v < 10 {
        (v + 48) as char
    } else {
        (v + 55) as char
    }
}

/// Lower-case hexadecimal text of `bytes`: two digits per byte, high
/// nibble first.
pub open spec fn hex_lower(bytes: Seq<u8>) -> Seq<char>
    decreases bytes.len(),
{
    if bytes.len() == 0 {
        Seq::empty()
    } else {
        seq![hex_digit_lower(bytes[0] as int / 16), hex_digit_lower(bytes[0] as int % 16)] + hex_lower(
            bytes.skip(1),
        )
    }
}

/// Whether `c` is a lower-case hexadecimal digit.
pub open spec fn is_lower_hex_char(c: char) -> bool {
    ('0' <= c && c <= '9') || ('a' <= c && c <= 'f')
}

/// The symbol of the six-bit value `v` in the URL-safe base64 alphabet
/// (`A`-`Z`, `a`-`z`, `0`-`9`, `-`, `_`).
pub open spec fn b64_symbol(v: int) -> char {
    if v < 26 {
        (v + 65) as char
    } else if v < 52 {
        (v + 71) as char
    } else if v < 62 {
        (v - 4) as char
    } else if v == 62 {
        '-'
    } else {
        '_'
    }
}

/// URL-safe base64 of `bytes` without padding: each group of three bytes
/// gives four symbols, a last group of two bytes three, of one byte two.
pub open spec fn b64url(bytes: Seq<u8>) -> Seq<char>
    decreases bytes.len(),
{
    if bytes.len() == 0 {
        Seq::empty()
    } else if bytes.len() == 1 {
        seq![b64_symbol(bytes[0] as int / 4), b64_symbol((bytes[0] as int % 4) * 16)]
    } else if bytes.len() == 2 {
        seq![
            b64_symbol(bytes[0] as int / 4),
            b64_symbol((bytes[0] as int % 4) * 16 + bytes[1] as int / 16),
            b64_symbol((bytes[1] as int % 16) * 4),
        ]
    } else {
        seq![
            b64_symbol(bytes[0] as int / 4),
            b64_symbol((bytes[0] as int % 4) * 16 + bytes[1] as int / 16),
            b64_symbol((bytes[1] as int % 16) * 4 + bytes[2] as int / 64),
            b64_symbol(bytes[2] as int % 64),
        ] + b64url(bytes.skip(3))
    }
}

/// Bytes that percent-encoding leaves as they are: ASCII letters and
/// digits, `-`, `.`, `_` and `~`.
pub open spec fn is_unreserved(b: u8) -> bool {
    (48 <= b <= 57) || (65 <= b <= 90) || (97 <= b <= 122) || b == 45 || b == 46 || b == 95
        || b == 126
}

/// Percent-encoding of `bytes`: an unreserved byte stands for itself, any
/// other byte becomes `%` and two upper-case hexadecimal digits.
pub open spec fn percent_encode(bytes: Seq<u8>) -> Seq<char>
    decreases bytes.len(),
{
    if bytes.len() == 0 {
        Seq::empty()
    } else {
        let b = bytes[0];
        let head = if is_unreserved(b) {
            seq![b as char]
        } else {
            seq!['%', hex_digit_upper(b as int / 16), hex_digit_upper(b as int % 16)]
        };
        head + percent_encode(bytes.skip(1))
    }
}

/// The value of a hexadecimal digit byte, of either case.
pub open spec fn hex_value(b: u8) -> Option<int> {
    if 48 <= b <= 57 {
        Some(b - 48)
    } else if 65 <= b <= 70 {
        Some(b - 55)
    } else if 97 <= b <= 102 {
        Some(b - 87)
    } else {
        None
    }
}

/// Percent-decoding of `bytes`: `%` followed by two hexadecimal digits
/// stands for the byte they write; every other byte, a `%` without two
/// digits after it included, stands for itself. `+` is not changed.
pub open spec fn percent_decode(bytes: Seq<u8>) -> Seq<u8>
    decreases bytes.len(),
{
    if bytes.len() == 0 {
        Seq::empty()
    } else if bytes[0] == 37 && bytes.len() >= 3 && hex_value(bytes[1]) is Some && hex_value(
        bytes[2],
    ) is Some {
        seq![(hex_value(bytes[1])->0 * 16 + hex_value(bytes[2])->0) as u8] + percent_decode(
            bytes.skip(3),
        )
    } else {
        seq![bytes[0]] + percent_decode(bytes.skip(1))
    }
}

/// The text that percent-decoding `s` gives, or `None` when the decoded
/// bytes are not UTF-8.
pub open spec fn url_decode_spec(s: Seq<char>) -> Option<Seq<char>> {
    let d = percent_decode(encode_utf8(s));
    if valid_utf8(d) {
        Some(decode_utf8(d))
    } else {
        None
    }
}

/// The SHA-256 digest of `data`, as `sha2::Sha256` computes it.
pub uninterp spec fn sha256(data: Seq<u8>) -> Seq<u8>;

/// `hex::encode`: the lower-case hexadecimal text of `bytes`, two
/// characters per byte, high nibble first.
#[verifier::external_body]
pub(crate) fn hex_encode(bytes: &[u8]) -> (r: String)
    ensures
        r@ == hex_lower(bytes@),
{
    hex::encode(bytes)
}

/// `Engine::encode` of `base64::engine::general_purpose::URL_SAFE_NO_PAD`:
/// URL-safe base64 without `=` padding.
#[verifier::external_body]
pub(crate) fn base64url_encode(bytes: &[u8]) -> (r: String)
    ensures
        r@ == b64url(bytes@),
{
    base64::engine::general_purpose::URL_SAFE_NO_PAD.encode(bytes)
}

/// `Engine::decode` of `URL_SAFE_NO_PAD`. That engine refuses padding and
/// non-zero trailing bits, so it accepts exactly the texts that its encoder
/// writes, and gives back the bytes that were encoded.
#[verifier::external_body]
pub(crate) fn base64url_decode(s: &str) -> (r: Option<Vec<u8>>)
    ensures
        match r {
            Some(v) => b64url(v@) == s@,
            None => forall|v: Seq<u8>| #[trigger] b64url(v) != s@,
        },
{
    base64::engine::general_purpose::URL_SAFE_NO_PAD.decode(s).ok()
}

/// `sha2::Sha256::digest`: the 32-byte SHA-256 digest of `data`.
#[verifier::external_body]
pub(crate) fn sha256_digest(data: &[u8]) -> (r: Vec<u8>)
    ensures
        r@ == sha256(data@),
        r@.len() == 32,
{
    sha2::Sha256::digest(data).to_vec()
}

/// `urlencoding::encode`: the percent-encoding of the UTF-8 bytes of `s`.
#[verifier::external_body]
pub(crate) fn url_encode(s: &str) -> (r: String)
    ensures
        r@ == percent_encode(encode_utf8(s@)),
{
    urlencoding::encode(s).into_owned()
}

/// `urlencoding::decode`: percent-decodes `s`, and fails when the bytes it
/// gets are not UTF-8.
#[verifier::external_body]
pub(crate) fn url_decode(s: &str) -> (r: Option<String>)
    ensures
        match r {
            Some(v) => url_decode_spec(s@) == Some(v@),
            None => url_decode_spec(s@) is None,
        },
{
    match urlencoding::decode(s) {
        Ok(text) => Some(text.into_owned()),
        Err(_) => None,
    }
}

/// `rand::rng().fill_bytes`: `n` bytes from the thread's random number
/// generator. Nothing is said of their values. `rand::rng` panics when the
/// operating system's source of randomness fails at first use; no argument
/// decides that.
#[verifier::external_body]
pub(crate) fn random_bytes(n: usize) -> (r: Vec<u8>)
    ensures
        r@.len() == n,
{
    let mut bytes = vec![0u8; n];
    rand::rng().fill_bytes(&mut bytes);
    bytes
}

/// The number of symbols that `b64url` writes for `n` bytes.
pub open spec fn b64url_len(n: nat) -> nat {
    (n / 3) * 4 + if n % 3 == 0 {
        0nat
    } else if n % 3 == 1 {
        2nat
    } else {
        3nat
    }
}

proof fn lemma_b64_symbol_injective(v: int, w: int)
    requires
        0 <= v < 64,
        0 <= w < 64,
        b64_symbol(v) == b64_symbol(w),
    ensures
        v == w,
{
}

/// The length of the URL-safe base64 text of `bytes`.
pub proof fn lemma_b64url_len(bytes: Seq<u8>)
    ensures
        b64url(bytes).len() == b64url_len(bytes.len()),
    decreases bytes.len(),
{
    if bytes.len() >= 3 {
        lemma_b64url_len(bytes.skip(3));
    }
}

/// Two byte strings with the same URL-safe base64 text are equal: the
/// encoding loses nothing.
pub proof fn lemma_b64url_injective(a: Seq<u8>, b: Seq<u8>)
    requires
        b64url(a) == b64url(b),
    ensures
        a == b,
    decreases a.len(),
{
    lemma_b64url_len(a);
    lemma_b64url_len(b);
    assert(a.len() == b.len());
    let ea = b64url(a);
    let eb = b64url(b);
    if a.len() == 0 {
        assert(a =~= b);
    } else {
        assert(ea[0] == eb[0]);
        assert(ea[1] == eb[1]);
        lemma_b64_symbol_injective(a[0] as int / 4, b[0] as int / 4);
        if a.len() == 1 {
            lemma_b64_symbol_injective((a[0] as int % 4) * 16, (b[0] as int % 4) * 16);
            assert(a =~= b);
        } else {
            lemma_b64_symbol_injective(
                (a[0] as int % 4) * 16 + a[1] as int / 16,
                (b[0] as int % 4) * 16 + b[1] as int / 16,
            );
            assert(ea[2] == eb[2]);
            if a.len() == 2 {
                lemma_b64_symbol_injective((a[1] as int % 16) * 4, (b[1] as int % 16) * 4);
                assert(a =~= b);
            } else {
                lemma_b64_symbol_injective(
                    (a[1] as int % 16) * 4 + a[2] as int / 64,
                    (b[1] as int % 16) * 4 + b[2] as int / 64,
                );
                assert(ea[3] == eb[3]);
                lemma_b64_symbol_injective(a[2] as int % 64, b[2] as int % 64);
                assert(ea.skip(4) =~= b64url(a.skip(3)));
                assert(eb.skip(4) =~= b64url(b.skip(3)));
                lemma_b64url_injective(a.skip(3), b.skip(3));
                assert(a =~= a.take(3) + a.skip(3));
                assert(b =~= b.take(3) + b.skip(3));
                assert(a.take(3) =~= b.take(3));
            }
        }
    }
}

/// The byte values of a sequence of ASCII characters.
pub open spec fn ascii_bytes(cs: Seq<char>) -> Seq<u8> {
    cs.map_values(|c: char| c as u8)
}

proof fn lemma_percent_encode_then_decode(b: Seq<u8>)
    ensures
        is_ascii_chars(percent_encode(b)),
        percent_decode(ascii_bytes(percent_encode(b))) == b,
    decreases b.len(),
{
    if b.len() > 0 {
        let x = b[0];
        let rest = b.skip(1);
        lemma_percent_encode_then_decode(rest);
        let tail = percent_encode(rest);
        let head = if is_unreserved(x) {
            seq![x as char]
        } else {
            seq!['%', hex_digit_upper(x as int / 16), hex_digit_upper(x as int % 16)]
        };
        assert(percent_encode(b) == head + tail);
        assert(ascii_bytes(head + tail) =~= ascii_bytes(head) + ascii_bytes(tail));
        let bytes = ascii_bytes(head) + ascii_bytes(tail);
        if is_unreserved(x) {
            assert(bytes[0] == x);
            assert(bytes.skip(1) =~= ascii_bytes(tail));
        } else {
            assert(bytes[0] == 37);
            assert(hex_value(bytes[1]) == Some(x as int / 16));
            assert(hex_value(bytes[2]) == Some(x as int % 16));
            assert(bytes.skip(3) =~= ascii_bytes(tail));
        }
        assert(b =~= seq![x] + rest);
        assert forall|i: int| 0 <= i < (head + tail).len() implies '\0' <= #[trigger] (head
            + tail)[i] <= '\u{7f}' by {
            if i >= head.len() {
                assert((head + tail)[i] == tail[i - head.len()]);
            }
        }
    }
}

/// URL decoding undoes URL encoding: decoding what `urlencoding::encode`
/// writes for any text gives that text back.
pub proof fn lemma_url_decode_undoes_encode(s: Seq<char>)
    ensures
        url_decode_spec(percent_encode(encode_utf8(s))) == Some(s),
{
    broadcast use vstd::utf8::encode_utf8_valid_utf8, vstd::utf8::encode_utf8_decode_utf8;

    let e = percent_encode(encode_utf8(s));
    lemma_percent_encode_then_decode(encode_utf8(s));
    vstd::utf8::is_ascii_chars_encode_utf8(e);
    assert(encode_utf8(e) =~= ascii_bytes(e));
}

/// Lower-case hex writes two digits per byte, each one of `0`-`9`, `a`-`f`.
pub proof fn lemma_hex_lower_shape(bytes: Seq<u8>)
    ensures
        hex_lower(bytes).len() == 2 * bytes.len(),
        forall|i: int| 0 <= i < hex_lower(bytes).len() ==> is_lower_hex_char(#[trigger] hex_lower(bytes)[i]),
    decreases bytes.len(),
{
    if bytes.len() > 0 {
        lemma_hex_lower_shape(bytes.skip(1));
        let h = seq![hex_digit_lower(bytes[0] as int / 16), hex_digit_lower(bytes[0] as int % 16)];
        let t = hex_lower(bytes.skip(1));
        assert forall|i: int| 0 <= i < (h + t).len() implies is_lower_hex_char(#[trigger] (h + t)[i]) by {
            if i >= 2 {
                assert((h + t)[i] == t[i - 2]);
            }
        }
    }
}

} // verus!
