//! Little-endian integers and the Borsh encoding of the values that a candy machine account
//! holds.
use anchor_lang::{AnchorDeserialize, AnchorSerialize};
use vstd::prelude::*;
use vstd::utf8::*;

verus! {

/// The two bytes of `n`, the low byte first.
pub open spec fn u16_le(n: int) -> Seq<u8> {
    seq![(n % 256) as u8, (n / 256 % 256) as u8]
}

/// The four bytes of `n`, the low byte first.
pub open spec fn u32_le(n: int) -> Seq<u8> {
    seq![
        (n % 256) as u8,
        (n / 256 % 256) as u8,
        (n / 65536 % 256) as u8,
        (n / 16777216 % 256) as u8,
    ]
}

/// The eight bytes of `n`, the low byte first.
pub open spec fn u64_le(n: int) -> Seq<u8> {
    u32_le(n % 4294967296) + u32_le(n / 4294967296)
}

/// The number that the four bytes of `s` from `at` on stand for, the low byte first.
pub open spec fn u32_at(s: Seq<u8>, at: int) -> int {
    s[at] + 256 * s[at + 1] + 65536 * s[at + 2] + 16777216 * s[at + 3]
}

/// The number that the eight bytes of `s` from `at` on stand for, the low byte first.
pub open spec fn u64_at(s: Seq<u8>, at: int) -> int {
    u32_at(s, at) + 4294967296 * u32_at(s, at + 4)
}

/// The unsigned number with the same 64 bits as `n`.
pub open spec fn i64_bits(n: i64) -> int {
    if n < 0 {
        n + 18446744073709551616
    } else {
        n as int
    }
}

/// Reading back four bytes gives the number that they were made from.
pub proof fn lemma_u32_round_trip(n: int, s: Seq<u8>, at: int)
    requires
        0 <= n < 4294967296,
        0 <= at,
        at + 4 <= s.len(),
        s.subrange(at, at + 4) == u32_le(n),
    ensures
        u32_at(s, at) == n,
{
    let b = s.subrange(at, at + 4);
    assert(b[0] == s[at] && b[1] == s[at + 1] && b[2] == s[at + 2] && b[3] == s[at + 3]);
}

/// Reading back eight bytes gives the number that they were made from.
pub proof fn lemma_u64_round_trip(n: int, s: Seq<u8>, at: int)
    requires
        0 <= n < 18446744073709551616,
        0 <= at,
        at + 8 <= s.len(),
        s.subrange(at, at + 8) == u64_le(n),
    ensures
        u64_at(s, at) == n,
{
    assert(s.subrange(at, at + 4) =~= s.subrange(at, at + 8).subrange(0, 4));
    assert(s.subrange(at + 4, at + 8) =~= s.subrange(at, at + 8).subrange(4, 8));
    assert(u64_le(n).subrange(0, 4) =~= u32_le(n % 4294967296));
    assert(u64_le(n).subrange(4, 8) =~= u32_le(n / 4294967296));
    lemma_u32_round_trip(n % 4294967296, s, at);
    lemma_u32_round_trip(n / 4294967296, s, at + 4);
}

/// The bytes of `x`, the low byte first.
pub fn u16_bytes(x: u16) -> (r: Vec<u8>)
    ensures
        r@ == u16_le(x as int),
{
    vec![(x % 256) as u8, (x / 256 % 256) as u8]
}

/// The bytes of `x`, the low byte first.
pub fn u32_bytes(x: u32) -> (r: Vec<u8>)
    ensures
        r@ == u32_le(x as int),
{
    vec![
        (x % 256) as u8,
        (x / 256 % 256) as u8,
        (x / 65536 % 256) as u8,
        (x / 16777216 % 256) as u8,
    ]
}

/// The bytes of `x`, the low byte first.
pub fn u64_bytes(x: u64) -> (r: Vec<u8>)
    ensures
        r@ == u64_le(x as int),
{
    let mut r = u32_bytes((x % 4294967296) as u32);
    let mut high = u32_bytes((x / 4294967296) as u32);
    r.append(&mut high);
    r
}

/// The bytes of `x`, the low byte first; a negative number is held in two's complement.
pub fn i64_bytes(x: i64) -> (r: Vec<u8>)
    ensures
        r@ == u64_le(i64_bits(x)),
{
    let bits: i128 = if x < 0 {
        x as i128 + 18446744073709551616
    } else {
        x as i128
    };
    u64_bytes(bits as u64)
}

/// The number that the four bytes of `s` from `at` on stand for.
pub fn read_u32(s: &[u8], at: usize) -> (r: u32)
    requires
        at + 4 <= s@.len(),
    ensures
        r == u32_at(s@, at as int),
{
    let len: usize = s.len();
    s[at] as u32 + 256 * (s[at + 1] as u32) + 65536 * (s[at + 2] as u32) + 16777216 * (
    s[at + 3] as u32)
}

/// The number that the eight bytes of `s` from `at` on stand for.
pub fn read_u64(s: &[u8], at: usize) -> (r: u64)
    requires
        at + 8 <= s@.len(),
    ensures
        r == u64_at(s@, at as int),
{
    let len: usize = s.len();
    read_u32(s, at) as u64 + 4294967296 * (read_u32(s, at + 4) as u64)
}

/// The Borsh encoding of a string: the length of its UTF-8 bytes, then those bytes.
pub open spec fn borsh_str(s: Seq<char>) -> Seq<u8> {
    u32_le(encode_utf8(s).len() as int) + encode_utf8(s)
}

/// Whether a string is short enough to have a Borsh encoding.
pub open spec fn fits_borsh(s: Seq<char>) -> bool {
    encode_utf8(s).len() <= u32::MAX
}

/// Tests whether a string is short enough to have a Borsh encoding.
pub(crate) fn is_encodable(s: &String) -> (r: bool)
    ensures
        r == fits_borsh(s@),
{
    s.as_str().as_bytes().len() as u64 <= u32::MAX as u64
}

/// The string that `b` starts with, and the number of bytes that it takes up.
pub open spec fn parse_str(b: Seq<u8>) -> Option<(Seq<char>, int)> {
    if b.len() < 4 || b.len() < 4 + u32_at(b, 0) {
        None
    } else {
        let body = b.subrange(4, 4 + u32_at(b, 0));
        if valid_utf8(body) {
            Some((decode_utf8(body), 4 + u32_at(b, 0)))
        } else {
            None
        }
    }
}

/// The two strings that `b` consists of, one behind the other with nothing left over.
pub open spec fn parse_str_pair(b: Seq<u8>) -> Option<(Seq<char>, Seq<char>)> {
    match parse_str(b) {
        None => None,
        Some((first, used)) => match parse_str(b.skip(used)) {
            None => None,
            Some((second, rest)) => if used + rest == b.len() {
                Some((first, second))
            } else {
                None
            },
        },
    }
}

/// Borsh's error type, which is that of `std::io`.
#[verifier::external_type_specification]
#[verifier::external_body]
pub struct ExIoError(std::io::Error);

/// Calls Borsh's `try_to_vec` on a string. Its result is claimed to be the length of the
/// string's UTF-8 bytes as a little-endian `u32`, followed by those bytes. Borsh refuses a
/// string whose length does not fit in a `u32`.
#[verifier::external_body]
pub(crate) fn borsh_string(s: &String) -> (r: Vec<u8>)
    requires
        fits_borsh(s@),
    ensures
        r@ == borsh_str(s@),
{
    AnchorSerialize::try_to_vec(s).unwrap()
}

/// Calls Borsh's `try_from_slice` on the type of pairs of strings. It is claimed to succeed
/// exactly on the bytes that consist of two encoded strings with nothing behind them, and to
/// return those strings.
#[verifier::external_body]
pub(crate) fn borsh_string_pair(b: &[u8]) -> (r: Result<(String, String), std::io::Error>)
    ensures
        match r {
            Ok(pair) => parse_str_pair(b@) == Some((pair.0@, pair.1@)),
            Err(_) => parse_str_pair(b@) is None,
        },
{
    <(String, String)>::try_from_slice(b)
}

/// The encoding of two texts one behind the other is their encodings one behind the other.
pub proof fn lemma_encode_concat(a: Seq<char>, b: Seq<char>)
    ensures
        encode_utf8(a + b) == encode_utf8(a) + encode_utf8(b),
    decreases a.len(),
{
    if a.len() == 0 {
        assert(a + b =~= b);
        assert(encode_utf8(a) + encode_utf8(b) =~= encode_utf8(b));
    } else {
        assert((a + b).drop_first() =~= a.drop_first() + b);
        lemma_encode_concat(a.drop_first(), b);
        assert((a + b)[0] == a[0]);
        assert(encode_utf8(a + b) =~= encode_utf8(a) + encode_utf8(b));
    }
}

/// A string is read back from its own encoding, whatever stands behind it.
pub proof fn lemma_parse_borsh_str(s: Seq<char>, tail: Seq<u8>)
    requires
        fits_borsh(s),
    ensures
        parse_str(borsh_str(s) + tail) == Some((s, 4 + encode_utf8(s).len() as int)),
{
    let b = borsh_str(s) + tail;
    let n = encode_utf8(s).len() as int;
    assert(b.subrange(0, 4) =~= u32_le(n));
    lemma_u32_round_trip(n, b, 0);
    assert(b.subrange(4, 4 + n) =~= encode_utf8(s));
    encode_utf8_valid_utf8(s);
    encode_utf8_decode_utf8(s);
}

/// Two strings are read back from their encodings.
pub proof fn lemma_parse_borsh_pair(s: Seq<char>, t: Seq<char>)
    requires
        fits_borsh(s),
        fits_borsh(t),
    ensures
        parse_str_pair(borsh_str(s) + borsh_str(t)) == Some((s, t)),
{
    let b = borsh_str(s) + borsh_str(t);
    lemma_parse_borsh_str(s, borsh_str(t));
    assert(b.skip(4 + encode_utf8(s).len() as int) =~= borsh_str(t) + Seq::<u8>::empty());
    lemma_parse_borsh_str(t, Seq::empty());
}

} // verus!
