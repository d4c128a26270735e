//! The content hasher: SHA-256 over a byte buffer, fed in bounded chunks, and
//! rendered as upper-case hexadecimal.

use vstd::prelude::*;
use vstd::slice::slice_subrange;

verus! {

/// How many bytes are fed to the hash state at a time.
pub const CHUNK_SIZE: usize = 1024;

/// The SHA-256 digest of `b`.
pub uninterp spec fn sha256_of(b: Seq<u8>) -> Seq<u8>;

/// The bytes that a hash state has been fed so far.
pub uninterp spec fn fed_bytes(c: ring::digest::Context) -> Seq<u8>;

/// Whether a hash state computes SHA-256.
pub uninterp spec fn is_sha256(c: ring::digest::Context) -> bool;

#[verifier::external_type_specification]
#[verifier::external_body]
pub struct ExContext(ring::digest::Context);

/// The upper-case hexadecimal digit of `n`, for `n < 16`.
pub open spec fn hex_digit(n: int) -> char {
    if n == 0 {
        '0'
    } else if n == 1 {
        '1'
    } else if n == 2 {
        '2'
    } else if n == 3 {
        '3'
    } else if n == 4 {
        '4'
    } else if n == 5 {
        '5'
    } else if n == 6 {
        '6'
    } else if n == 7 {
        '7'
    } else if n == 8 {
        '8'
    } else if n == 9 {
        '9'
    } else if n == 10 {
        'A'
    } else if n == 11 {
        'B'
    } else if n == 12 {
        'C'
    } else if n == 13 {
        'D'
    } else if n == 14 {
        'E'
    } else {
        'F'
    }
}

/// Two upper-case hexadecimal digits for each byte, the high half first.
pub open spec fn hex_upper(b: Seq<u8>) -> Seq<char> {
    Seq::new(
        2 * b.len(),
        |i: int|
            if i % 2 == 0 {
                hex_digit(b[i / 2] as int / 16)
            } else {
                hex_digit(b[i / 2] as int % 16)
            },
    )
}

/// Whether every character of `s` is an upper-case hexadecimal digit.
pub open spec fn is_upper_hex(s: Seq<char>) -> bool {
    forall|i: int| 0 <= i < s.len() ==> ('0' <= #[trigger] s[i] <= '9' || 'A' <= s[i] <= 'F')
}

/// Relies on ring::digest::Context::new with SHA256: a fresh state that has
/// been fed nothing.
#[verifier::external_body]
fn sha256_context() -> (c: ring::digest::Context)
    ensures
        is_sha256(c),
        fed_bytes(c) == Seq::<u8>::empty(),
{
    ring::digest::Context::new(&ring::digest::SHA256)
}

/// Relies on ring::digest::Context::update: the state has then been fed
/// `data` after what it had before, and keeps its algorithm.
#[verifier::external_body]
fn feed(c: &mut ring::digest::Context, data: &[u8])
    ensures
        is_sha256(*final(c)) == is_sha256(*old(c)),
        fed_bytes(*final(c)) == fed_bytes(*old(c)) + data@,
{
    c.update(data)
}

/// Relies on ring::digest::Context::finish: a SHA-256 state yields the
/// 32-byte SHA-256 digest of all it was fed.
#[verifier::external_body]
fn finish_sha256(c: ring::digest::Context) -> (r: Vec<u8>)
    requires
        is_sha256(c),
    ensures
        r@ == sha256_of(fed_bytes(c)),
        r@.len() == 32,
{
    c.finish().as_ref().to_vec()
}

/// Relies on data_encoding::HEXUPPER's encode: two upper-case hexadecimal
/// digits for each byte, the high half first, with no separator.
#[verifier::external_body]
fn encode_hex_upper(b: &[u8]) -> (r: String)
    ensures
        r@ == hex_upper(b@),
{
    data_encoding::HEXUPPER.encode(b)
}

/// The SHA-256 digest of `data`, fed to the hash state in chunks of at most
/// `CHUNK_SIZE` bytes, in order.
pub fn sha256_digest(data: &[u8]) -> (r: Vec<u8>)
    ensures
        r@ == sha256_of(data@),
        r@.len() == 32,
{
    let mut ctx = sha256_context();
    let mut pos: usize = 0;
    while pos < data.len()
        invariant
            pos <= data@.len(),
            is_sha256(ctx),
            fed_bytes(ctx) == data@.subrange(0, pos as int),
        decreases data@.len() - pos,
    {
        let end: usize = if data.len() - pos > CHUNK_SIZE {
            pos + CHUNK_SIZE
        } else {
            data.len()
        };
        let chunk = slice_subrange(data, pos, end);
        feed(&mut ctx, chunk);
        assert(data@.subrange(0, pos as int) + data@.subrange(pos as int, end as int)
            =~= data@.subrange(0, end as int));
        pos = end;
    }
    assert(data@.subrange(0, data@.len() as int) =~= data@);
    finish_sha256(ctx)
}

/// Upper-case hexadecimal rendering of `b`.
pub fn encode_hex(b: &[u8]) -> (r: String)
    ensures
        r@ == hex_upper(b@),
        r@.len() == 2 * b@.len(),
        is_upper_hex(r@),
{
    let r = encode_hex_upper(b);
    assert forall|i: int| 0 <= i < r@.len() implies ('0' <= #[trigger] r@[i] <= '9' || 'A' <= r@[i]
        <= 'F') by {
        let d = if i % 2 == 0 { b@[i / 2] / 16 } else { b@[i / 2] % 16 };
        assert(0 <= d < 16);
    }
    r
}

/// The SHA-256 digest of `data` in upper-case hexadecimal: 64 characters.
pub fn hash_hex(data: &[u8]) -> (r: String)
    ensures
        r@ == hex_upper(sha256_of(data@)),
        r@.len() == 64,
        is_upper_hex(r@),
{
    let digest = sha256_digest(data);
    encode_hex(digest.as_slice())
}

} // verus!
