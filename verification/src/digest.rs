//! The fixed-seed 64-bit hash obtained by truncating a 128-bit MurmurHash3
//! digest, and the accumulating hasher built on it.

use vstd::prelude::*;
use vstd::slice::slice_subrange;
use byteorder::ByteOrder;

verus! {

/// The 16 digest bytes that MurmurHash3 (x64, 128-bit) produces for `bytes`
/// under `seed`.
pub uninterp spec fn murmur3_x64_128_digest(bytes: Seq<u8>, seed: u32) -> Seq<u8>;

/// The number that the first eight bytes of `s` spell in little-endian order.
pub open spec fn le_u64(s: Seq<u8>) -> nat
    recommends
        s.len() >= 8,
{
    (s[0] as nat) + (s[1] as nat) * 0x100 + (s[2] as nat) * 0x1_0000 + (s[3] as nat) * 0x100_0000
        + (s[4] as nat) * 0x1_0000_0000 + (s[5] as nat) * 0x100_0000_0000 + (s[6] as nat)
        * 0x1_0000_0000_0000 + (s[7] as nat) * 0x100_0000_0000_0000
}

/// What `hash64` returns for `bytes`: the low eight bytes of the seed-0
/// digest, read little-endian.
pub open spec fn spec_hash64(bytes: Seq<u8>) -> nat {
    le_u64(murmur3_x64_128_digest(bytes, 0).subrange(0, 8))
}

/// Calls `murmur3::murmur3_x64_128` on an in-memory reader over `bytes`.
///
/// Trusted: the 16 bytes written to the output buffer are a function of the
/// input bytes and the seed alone. The outside function counts the bytes it
/// has consumed in a `u32`, so inputs longer than `u32::MAX` are left out.
#[verifier::external_body]
fn murmur3_x64_128_bytes(bytes: &[u8], seed: u32) -> (out: [u8; 16])
    requires
        bytes@.len() <= u32::MAX,
    ensures
        out@ == murmur3_x64_128_digest(bytes@, seed),
{
    let mut source = bytes;
    let mut out = [0u8; 16];
    murmur3::murmur3_x64_128(&mut source, seed, &mut out);
    out
}

/// Calls `byteorder::LittleEndian::read_u64`.
///
/// Trusted: the result is the little-endian value of the first eight bytes
/// of `buf`. The outside function panics on a shorter buffer.
#[verifier::external_body]
fn read_u64_le(buf: &[u8]) -> (value: u64)
    requires
        buf@.len() >= 8,
    ensures
        value == le_u64(buf@),
{
    byteorder::LittleEndian::read_u64(buf)
}

/// Truncates a 128-bit digest to 64 bits: its low eight bytes, little-endian.
pub fn digest_low_u64(digest: &[u8; 16]) -> (value: u64)
    ensures
        value == le_u64(digest@.subrange(0, 8)),
{
    let low = slice_subrange(digest.as_slice(), 0, 8);
    read_u64_le(low)
}

/// Hashes `bytes` to 64 bits with MurmurHash3 (x64, 128-bit, seed 0),
/// keeping the low eight digest bytes in little-endian order. The value
/// depends on the bytes alone, so it is the same in every process.
pub fn hash64(bytes: &[u8]) -> (value: u64)
    requires
        bytes@.len() <= u32::MAX,
    ensures
        value == spec_hash64(bytes@),
{
    let out = murmur3_x64_128_bytes(bytes, 0);
    digest_low_u64(&out)
}

/// A hasher that folds every chunk written to it into one 64-bit state by
/// xor-ing in the chunk's `hash64`.
#[derive(Debug)]
pub struct MurmurHasher(pub u64);

impl MurmurHasher {
    /// A hasher whose state is zero.
    pub fn new() -> (hasher: MurmurHasher)
        ensures
            hasher.0 == 0,
    {
        MurmurHasher(0)
    }

    /// The state accumulated so far.
    pub fn finish(&self) -> (value: u64)
        ensures
            value == self.0,
    {
        self.0
    }

    /// Folds `bytes` into the state.
    pub fn write(&mut self, bytes: &[u8])
        requires
            bytes@.len() <= u32::MAX,
        ensures
            final(self).0 == old(self).0 ^ (spec_hash64(bytes@) as u64),
    {
        self.0 ^= hash64(bytes);
    }
}

impl Default for MurmurHasher {
    fn default() -> (hasher: MurmurHasher)
        ensures
            hasher.0 == 0,
    {
        MurmurHasher(0)
    }
}

} // verus!
