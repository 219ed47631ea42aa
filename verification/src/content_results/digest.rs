//! SHA-256 digests and the identity of a piece of evidence.

use vstd::prelude::*;
use crate::text::{chars_of, is_digit, digit};

verus! {

/// The 32 bytes that `ring::digest::digest` gives for SHA-256.
pub uninterp spec fn sha256(bytes: Seq<u8>) -> Seq<u8>;

/// `ring::digest::digest` with the algorithm `SHA256`: the digest is 32 bytes long and a
/// function of the bytes alone.
#[verifier::external_body]
fn sha256_bytes(bytes: &[u8]) -> (r: Vec<u8>)
    ensures
        r@ == sha256(bytes@),
        r@.len() == 32,
{
    ring::digest::digest(&ring::digest::SHA256, bytes).as_ref().to_vec()
}

/// A hexadecimal digit in lower case.
pub open spec fn hex_digit(c: char) -> bool {
    digit(c) || 'a' as int <= c as int <= 'f' as int
}

fn is_hex_digit(c: char) -> (b: bool)
    ensures
        b == hex_digit(c),
{
    let n: u32 = c as u32;
    is_digit(c) || (0x61 <= n && n <= 0x66)
}

/// The hexadecimal digit worth `n`.
pub open spec fn hex_char(n: int) -> char {
    if n < 10 {
        ('0' as int + n) as char
    } else {
        ('a' as int + n - 10) as char
    }
}

/// Two digits for each byte, the high half first.
pub open spec fn hex(bytes: Seq<u8>) -> Seq<char> {
    Seq::new(
        bytes.len() * 2,
        |i: int| hex_char(if i % 2 == 0 { bytes[i / 2] as int / 16 } else { bytes[i / 2] as int % 16 }),
    )
}

/// The hexadecimal digit worth `n`.
pub fn hex_char_of(n: u8) -> (c: char)
    requires
        n < 16,
    ensures
        c == hex_char(n as int),
{
    if n < 10 {
        (48u8 + n) as char
    } else {
        (87u8 + n) as char
    }
}

/// The lower-case hexadecimal SHA-256 digest of `bytes`.
pub fn sha256_hex(bytes: &[u8]) -> (r: String)
    ensures
        r@ == hex(sha256(bytes@)),
        hex64(r@),
{
    let digest: Vec<u8> = sha256_bytes(bytes);
    let mut out = String::new();
    let mut i: usize = 0;
    while i < digest.len()
        invariant
            i <= digest@.len(),
            digest@ == sha256(bytes@),
            out@ =~= hex(digest@).take(2 * i),
        decreases digest@.len() - i,
    {
        let b: u8 = digest[i];
        out.push(hex_char_of(b / 16));
        out.push(hex_char_of(b % 16));
        proof {
            assert(hex(digest@)[2 * i] == hex_char(b as int / 16));
            assert(hex(digest@)[2 * i + 1] == hex_char(b as int % 16));
        }
        i += 1;
    }
    assert(out@ =~= hex(digest@));
    out
}

/// Sixty-four lower-case hexadecimal digits.
pub open spec fn hex64(s: Seq<char>) -> bool {
    s.len() == 64 && forall|i: int| 0 <= i < s.len() ==> hex_digit(#[trigger] s[i])
}

/// Whether a text is a digest in its only accepted spelling.
pub fn is_hex64(s: &str) -> (b: bool)
    ensures
        b == hex64(s@),
{
    let v: Vec<char> = chars_of(s);
    if v.len() != 64 {
        return false;
    }
    let mut i: usize = 0;
    while i < v.len()
        invariant
            i <= v@.len(),
            v@ == s@,
            forall|j: int| 0 <= j < i ==> hex_digit(#[trigger] s@[j]),
        decreases v@.len() - i,
    {
        if !is_hex_digit(v[i]) {
            assert(!hex_digit(s@[i as int]));
            return false;
        }
        i += 1;
    }
    true
}

/// The two digits of a byte are its upper and its lower half: read as a number to the base of
/// sixteen they give the byte back.
pub proof fn hexadecimal_reads_back(bytes: Seq<u8>, i: int)
    requires
        0 <= i < bytes.len(),
    ensures
        hex(bytes).len() == 2 * bytes.len(),
        hex_worth(hex(bytes)[2 * i]) * 16 + hex_worth(hex(bytes)[2 * i + 1]) == bytes[i],
{
    assert((2 * i) / 2 == i && (2 * i) % 2 == 0);
    assert((2 * i + 1) / 2 == i && (2 * i + 1) % 2 == 1);
}

/// What a hexadecimal digit is worth.
pub open spec fn hex_worth(c: char) -> int {
    if 0x30 <= c as int <= 0x39 {
        c as int - 0x30
    } else {
        c as int - 0x61 + 10
    }
}

/// A digest is spelled in 64 of the digits and small letters up to `f`.
pub proof fn a_digest_is_spelled_in_small_hexadecimal(s: Seq<char>)
    ensures
        hex64(s) <==> s.len() == 64 && forall|i: int|
            0 <= i < 64 ==> 0x30 <= (#[trigger] s[i]) as int <= 0x39 || 0x61 <= s[i] as int <= 0x66,
{
    if s.len() == 64 && forall|i: int|
        0 <= i < 64 ==> 0x30 <= (#[trigger] s[i]) as int <= 0x39 || 0x61 <= s[i] as int <= 0x66 {
        assert forall|i: int| 0 <= i < s.len() implies hex_digit(#[trigger] s[i]) by {
            assert(0x30 <= s[i] as int <= 0x39 || 0x61 <= s[i] as int <= 0x66);
        }
    }
}

} // verus!
