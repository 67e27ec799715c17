//! Encodings and digests of file contents, random identifiers and octal modes.
//!
//! The outside computations (digests, base64, random numbers) are reached through the
//! trusted functions of this module; the rest is verified.

use vstd::prelude::*;

use crypto::digest::Digest;

verus! {

/// MD5 digest of `b` (16 bytes)
pub uninterp spec fn md5_digest(b: Seq<u8>) -> Seq<u8>;

/// SHA-1 digest of `b` (20 bytes)
pub uninterp spec fn sha1_digest(b: Seq<u8>) -> Seq<u8>;

/// SHA-256 digest of `b` (32 bytes)
pub uninterp spec fn sha256_digest(b: Seq<u8>) -> Seq<u8>;

/// SHA-512 digest of `b` (64 bytes)
pub uninterp spec fn sha512_digest(b: Seq<u8>) -> Seq<u8>;

/// The character of the standard base64 alphabet for the value `v` (`0 <= v < 64`):
/// `A`-`Z`, `a`-`z`, `0`-`9`, `+`, `/`
pub open spec fn base64_char(v: int) -> char {
    if v < 26 {
        (('A' as int) + v) as char
    } else if v < 52 {
        (('a' as int) + v - 26) as char
    } else if v < 62 {
        (('0' as int) + v - 52) as char
    } else if v == 62 {
        '+'
    } else {
        '/'
    }
}

/// Standard base64 encoding of `b`, with padding: each group of three bytes gives four
/// characters of six bits each; a last group of one or two bytes gives two or three
/// characters, completed by `=` up to four
pub open spec fn base64_encoded(b: Seq<u8>) -> Seq<char>
    decreases b.len(),
{
    if b.len() == 0 {
        Seq::empty()
    } else if b.len() == 1 {
        seq![base64_char((b[0] as int) / 4), base64_char(((b[0] as int) % 4) * 16), '=', '=']
    } else if b.len() == 2 {
        seq![
            base64_char((b[0] as int) / 4),
            base64_char(((b[0] as int) % 4) * 16 + (b[1] as int) / 16),
            base64_char(((b[1] as int) % 16) * 4),
            '=',
        ]
    } else {
        seq![
            base64_char((b[0] as int) / 4),
            base64_char(((b[0] as int) % 4) * 16 + (b[1] as int) / 16),
            base64_char(((b[1] as int) % 16) * 4 + (b[2] as int) / 64),
            base64_char((b[2] as int) % 64),
        ] + base64_encoded(b.subrange(3, b.len() as int))
    }
}

/// Standard base64 decoding of `b`: the bytes, or the text of the decoding error
pub uninterp spec fn base64_decoded(b: Seq<u8>) -> Result<Seq<u8>, Seq<char>>;

/// Text of bytes read as UTF-8, each invalid sequence replaced by U+FFFD
pub uninterp spec fn utf8_lossy(b: Seq<u8>) -> Seq<char>;

/// `isize::from_str_radix(s, 8)`: the value, or the text of the parse error
pub uninterp spec fn octal_isize(s: Seq<char>) -> Result<isize, Seq<char>>;

/// `u32::from_str_radix(s, 8)`, when it succeeds
pub uninterp spec fn octal_u32(s: Seq<char>) -> Option<u32>;

/// MD5 digest (`crypto::md5::Md5`: `input` then `result`).
///
/// Trusted: the result is named [`md5_digest`] of the bytes; rust-crypto gives it
/// `output_bits` 128, hence 16 bytes.
#[verifier::external_body]
pub(crate) fn md5(bytes: &[u8]) -> (r: Vec<u8>)
    ensures
        r@ == md5_digest(bytes@),
        r@.len() == 16,
{
    let mut hasher = crypto::md5::Md5::new();
    hasher.input(bytes);
    let mut out = vec![0u8; 16];
    hasher.result(&mut out);
    out
}

/// SHA-1 digest (`crypto::sha1::Sha1`: `input` then `result`).
///
/// Trusted: the result is named [`sha1_digest`] of the bytes; rust-crypto gives it
/// `output_bits` 160, hence 20 bytes.
#[verifier::external_body]
pub(crate) fn sha1(bytes: &[u8]) -> (r: Vec<u8>)
    ensures
        r@ == sha1_digest(bytes@),
        r@.len() == 20,
{
    let mut hasher = crypto::sha1::Sha1::new();
    hasher.input(bytes);
    let mut out = vec![0u8; 20];
    hasher.result(&mut out);
    out
}

/// SHA-256 digest (`crypto::sha2::Sha256`: `input` then `result`).
///
/// Trusted: the result is named [`sha256_digest`] of the bytes; 32 bytes.
#[verifier::external_body]
pub(crate) fn sha256(bytes: &[u8]) -> (r: Vec<u8>)
    ensures
        r@ == sha256_digest(bytes@),
        r@.len() == 32,
{
    let mut hasher = crypto::sha2::Sha256::new();
    hasher.input(bytes);
    let mut out = vec![0u8; 32];
    hasher.result(&mut out);
    out
}

/// SHA-512 digest (`crypto::sha2::Sha512`: `input` then `result`).
///
/// Trusted: the result is named [`sha512_digest`] of the bytes; 64 bytes.
#[verifier::external_body]
pub(crate) fn sha512(bytes: &[u8]) -> (r: Vec<u8>)
    ensures
        r@ == sha512_digest(bytes@),
        r@.len() == 64,
{
    let mut hasher = crypto::sha2::Sha512::new();
    hasher.input(bytes);
    let mut out = vec![0u8; 64];
    hasher.result(&mut out);
    out
}

/// Standard base64 encoding (`base64::engine::general_purpose::STANDARD.encode`).
///
/// Trusted: the result is [`base64_encoded`] of the bytes, the standard alphabet with
/// padding that base64's `STANDARD` engine uses.
#[verifier::external_body]
pub(crate) fn base64_encode(bytes: &[u8]) -> (r: String)
    ensures
        r@ == base64_encoded(bytes@),
{
    base64::Engine::encode(&base64::engine::general_purpose::STANDARD, bytes)
}

/// Standard base64 decoding (`base64::engine::general_purpose::STANDARD.decode`), the error
/// given by its text (`to_string`).
///
/// Trusted: the result is named [`base64_decoded`] of the bytes.
#[verifier::external_body]
pub(crate) fn base64_decode(bytes: &[u8]) -> (r: Result<Vec<u8>, String>)
    ensures
        match (r, base64_decoded(bytes@)) {
            (Ok(v), Ok(w)) => v@ == w,
            (Err(e), Err(f)) => e@ == f,
            _ => false,
        },
{
    match base64::Engine::decode(&base64::engine::general_purpose::STANDARD, bytes) {
        Ok(decoded) => Ok(decoded),
        Err(err) => Err(err.to_string()),
    }
}

/// Bytes read as UTF-8 with replacements (`String::from_utf8_lossy`).
///
/// Trusted: the result is named [`utf8_lossy`] of the bytes; std documents that valid UTF-8
/// comes back unchanged, which is stated too.
#[verifier::external_body]
pub(crate) fn from_utf8_lossy(bytes: &[u8]) -> (r: String)
    ensures
        r@ == utf8_lossy(bytes@),
        forall|s: Seq<char>| bytes@ == vstd::utf8::encode_utf8(s) ==> r@ == s,
{
    String::from_utf8_lossy(bytes).to_string()
}

/// Parse an octal number into an `isize` (`isize::from_str_radix(s, 8)`), the error given by
/// its text (`to_string`).
///
/// Trusted: the result is named [`octal_isize`] of the characters. What std documents for
/// up to four octal digits (no sign) is stated: their value.
#[verifier::external_body]
pub(crate) fn parse_octal_isize(s: &str) -> (r: Result<isize, String>)
    ensures
        match (r, octal_isize(s@)) {
            (Ok(v), Ok(w)) => v == w,
            (Err(e), Err(f)) => e@ == f,
            _ => false,
        },
        octal_digits(s@) && s@.len() <= 4 ==> r is Ok && r->Ok_0 == octal_value(s@),
{
    match isize::from_str_radix(s, 8) {
        Ok(value) => Ok(value),
        Err(err) => Err(err.to_string()),
    }
}

/// Parse an octal number into a `u32` (`u32::from_str_radix(s, 8)`), `None` when it fails.
///
/// Trusted: the result is named [`octal_u32`] of the characters. What std documents for up
/// to four octal digits (no sign) is stated: their value.
#[verifier::external_body]
pub(crate) fn parse_octal_u32(s: &str) -> (r: Option<u32>)
    ensures
        r == octal_u32(s@),
        octal_digits(s@) && s@.len() <= 4 ==> r == Some(octal_value(s@) as u32),
{
    u32::from_str_radix(s, 8).ok()
}

/// `n` random ASCII letters and digits (`rand::thread_rng` sampling `Alphanumeric`).
///
/// Trusted: rand documents that `Alphanumeric` samples ASCII letters and digits
/// (`a-z`, `A-Z`, `0-9`), and `take(n)` keeps `n` of the endless samples; that is stated,
/// nothing else (the characters are random).
#[verifier::external_body]
pub(crate) fn random_alphanumeric(n: usize) -> (r: String)
    ensures
        r@.len() == n,
        forall|i: int| 0 <= i < n ==> is_alphanumeric(#[trigger] r@[i]),
{
    rand::Rng::sample_iter(rand::thread_rng(), &rand::distributions::Alphanumeric)
        .take(n)
        .map(char::from)
        .collect()
}

/// An ASCII letter or digit
pub open spec fn is_alphanumeric(c: char) -> bool {
    ('a' <= c && c <= 'z') || ('A' <= c && c <= 'Z') || ('0' <= c && c <= '9')
}

/// Non empty, and made only of the digits `0` to `7`
pub open spec fn octal_digits(s: Seq<char>) -> bool {
    s.len() > 0 && forall|i: int| 0 <= i < s.len() ==> '0' <= #[trigger] s[i] && s[i] <= '7'
}

/// The value of octal digits
pub open spec fn octal_value(s: Seq<char>) -> int
    decreases s.len(),
{
    if s.len() == 0 {
        0
    } else {
        8 * octal_value(s.drop_last()) + (s.last() as int - '0' as int)
    }
}

/// Lower case hexadecimal digit of `d` (`0 <= d < 16`)
pub open spec fn hex_digit(d: int) -> char {
    if d < 10 {
        (('0' as int) + d) as char
    } else {
        (('a' as int) + d - 10) as char
    }
}

/// Lower case hexadecimal text of bytes, two digits per byte
pub open spec fn hex(b: Seq<u8>) -> Seq<char>
    decreases b.len(),
{
    if b.len() == 0 {
        Seq::empty()
    } else {
        hex(b.drop_last()) + seq![hex_digit((b.last() / 16) as int), hex_digit((b.last() % 16) as int)]
    }
}

/// The hexadecimal text of bytes has two characters per byte, each a lower case
/// hexadecimal digit, the high half of each byte first
pub proof fn law_hex(b: Seq<u8>)
    ensures
        hex(b).len() == 2 * b.len(),
        forall|i: int|
            0 <= i < b.len() ==> hex(b)[2 * i] == hex_digit((b[i] / 16) as int) && hex(b)[2 * i
                + 1] == hex_digit((b[i] % 16) as int),
    decreases b.len(),
{
    if b.len() > 0 {
        law_hex(b.drop_last());
        assert forall|i: int| 0 <= i < b.len() implies hex(b)[2 * i] == hex_digit(
            (b[i] / 16) as int,
        ) && hex(b)[2 * i + 1] == hex_digit((b[i] % 16) as int) by {
            if i < b.len() - 1 {
                assert(b.drop_last()[i] == b[i]);
            }
        }
    }
}

fn hex_digit_str(d: u8) -> (r: &'static str)
    requires
        d < 16,
    ensures
        r@ == seq![hex_digit(d as int)],
{
    proof {
        reveal_strlit("0");
        reveal_strlit("1");
        reveal_strlit("2");
        reveal_strlit("3");
        reveal_strlit("4");
        reveal_strlit("5");
        reveal_strlit("6");
        reveal_strlit("7");
        reveal_strlit("8");
        reveal_strlit("9");
        reveal_strlit("a");
        reveal_strlit("b");
        reveal_strlit("c");
        reveal_strlit("d");
        reveal_strlit("e");
        reveal_strlit("f");
    }
    match d {
        0 => "0",
        1 => "1",
        2 => "2",
        3 => "3",
        4 => "4",
        5 => "5",
        6 => "6",
        7 => "7",
        8 => "8",
        9 => "9",
        10 => "a",
        11 => "b",
        12 => "c",
        13 => "d",
        14 => "e",
        _ => "f",
    }
}

/// Lower case hexadecimal text of bytes (what rust-crypto's `result_str` gives of a digest)
pub fn to_hex(bytes: &[u8]) -> (r: String)
    ensures
        r@ == hex(bytes@),
{
    let mut out = String::new();
    let n = bytes.len();
    for i in 0..n
        invariant
            n == bytes@.len(),
            out@ == hex(bytes@.take(i as int)),
    {
        let b = bytes[i];
        proof {
            let t = bytes@.take(i as int + 1);
            assert(t.drop_last() =~= bytes@.take(i as int));
        }
        out = out.concat(hex_digit_str(b / 16)).concat(hex_digit_str(b % 16));
    }
    assert(bytes@.take(n as int) =~= bytes@);
    out
}

} // verus!
