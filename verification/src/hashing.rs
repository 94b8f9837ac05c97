//! Byte-level hashing with SeaHash, and the little-endian encodings that
//! feed it.
use vstd::prelude::*;
use vstd::utf8::encode_utf8;

verus! {

/// Name for the 64-bit digest that SeaHash (default seeds) computes over a
/// byte string.
pub uninterp spec fn sea_hash_of(bytes: Seq<u8>) -> u64;

/// Calls `seahash::hash`, SeaHash with its default seeds over `bytes`.
/// Trusted: the result is the digest that `sea_hash_of` names for exactly
/// these bytes (the function reads nothing else).
#[verifier::external_body]
pub(crate) fn sea_hash(bytes: &[u8]) -> (r: u64)
    ensures
        r == sea_hash_of(bytes@),
{
    seahash::hash(bytes)
}

/// The eight little-endian bytes of a `u64`.
pub open spec fn le_u64(x: u64) -> Seq<u8> {
    seq![
        (x & 0xff) as u8,
        ((x >> 8u64) & 0xff) as u8,
        ((x >> 16u64) & 0xff) as u8,
        ((x >> 24u64) & 0xff) as u8,
        ((x >> 32u64) & 0xff) as u8,
        ((x >> 40u64) & 0xff) as u8,
        ((x >> 48u64) & 0xff) as u8,
        ((x >> 56u64) & 0xff) as u8,
    ]
}

/// The four little-endian bytes of a `u32`.
pub open spec fn le_u32(x: u32) -> Seq<u8> {
    seq![
        (x & 0xff) as u8,
        ((x >> 8u32) & 0xff) as u8,
        ((x >> 16u32) & 0xff) as u8,
        ((x >> 24u32) & 0xff) as u8,
    ]
}

/// Appends the little-endian bytes of `x`.
pub fn push_u64(out: &mut Vec<u8>, x: u64)
    ensures
        final(out)@ == old(out)@ + le_u64(x),
{
    out.push((x & 0xff) as u8);
    out.push(((x >> 8u64) & 0xff) as u8);
    out.push(((x >> 16u64) & 0xff) as u8);
    out.push(((x >> 24u64) & 0xff) as u8);
    out.push(((x >> 32u64) & 0xff) as u8);
    out.push(((x >> 40u64) & 0xff) as u8);
    out.push(((x >> 48u64) & 0xff) as u8);
    out.push(((x >> 56u64) & 0xff) as u8);
    assert(final(out)@ =~= old(out)@ + le_u64(x));
}

/// Appends the little-endian bytes of `x`.
pub fn push_u32(out: &mut Vec<u8>, x: u32)
    ensures
        final(out)@ == old(out)@ + le_u32(x),
{
    out.push((x & 0xff) as u8);
    out.push(((x >> 8u32) & 0xff) as u8);
    out.push(((x >> 16u32) & 0xff) as u8);
    out.push(((x >> 24u32) & 0xff) as u8);
    assert(final(out)@ =~= old(out)@ + le_u32(x));
}

/// Appends a whole byte string.
pub fn push_bytes(out: &mut Vec<u8>, bytes: &[u8])
    ensures
        final(out)@ == old(out)@ + bytes@,
{
    let n = bytes.len();
    let mut i: usize = 0;
    while i < n
        invariant
            n == bytes@.len(),
            i <= n,
            out@ == old(out)@ + bytes@.subrange(0, i as int),
        decreases n - i,
    {
        out.push(bytes[i]);
        i = i + 1;
        assert(out@ =~= old(out)@ + bytes@.subrange(0, i as int));
    }
    assert(bytes@.subrange(0, n as int) =~= bytes@);
}

/// The bytes that hashing a string writes: its UTF-8 encoding followed by
/// the `0xff` terminator.
pub open spec fn str_stream(s: Seq<char>) -> Seq<u8> {
    encode_utf8(s).push(0xffu8)
}

/// Appends the UTF-8 bytes of `s` and the `0xff` terminator.
pub fn push_str(out: &mut Vec<u8>, s: &str)
    ensures
        final(out)@ == old(out)@ + str_stream(s@),
{
    let b = s.as_bytes();
    push_bytes(out, b);
    out.push(0xffu8);
    assert(final(out)@ =~= old(out)@ + str_stream(s@));
}

/// SeaHash of a string, as a `Hasher` fed with that string computes it.
pub open spec fn str_hash(s: Seq<char>) -> u64 {
    sea_hash_of(str_stream(s))
}

/// Hashes a string the way it is hashed as a key.
pub fn hash_str(s: &str) -> (r: u64)
    ensures
        r == str_hash(s@),
{
    let mut v: Vec<u8> = Vec::new();
    push_str(&mut v, s);
    assert(v@ =~= str_stream(s@));
    sea_hash(v.as_slice())
}

} // verus!
