//! The candidate hash functions, each behind the same contract: bytes in,
//! 64 bits out.

use vstd::prelude::*;
use vstd::std_specs::hash::DefaultHasherAdditionalSpecFns;
use std::collections::hash_map::DefaultHasher;
use std::hash::Hasher;
use crate::digest::{spec_hash64, MurmurHasher};

verus! {

/// Declares `ahash::AHasher` as an opaque type.
#[verifier::external_type_specification]
#[verifier::external_body]
pub struct ExAHasher(ahash::AHasher);

/// Declares `seahash::SeaHasher` as an opaque type.
#[verifier::external_type_specification]
#[verifier::external_body]
pub struct ExSeaHasher(seahash::SeaHasher);

/// The chunks written so far to a streaming SeaHash hasher, in order.
pub uninterp spec fn sea_hasher_written(hasher: seahash::SeaHasher) -> Seq<Seq<u8>>;

/// The value a default-seeded streaming SeaHash hasher finishes with after
/// the chunks `written`.
pub uninterp spec fn sea_hasher_digest(written: Seq<Seq<u8>>) -> u64;

/// The value of the one-shot SeaHash function, with its prechosen seed, on
/// `bytes`.
pub uninterp spec fn seahash_digest(bytes: Seq<u8>) -> u64;

/// Calls `ahash::AHasher::default`.
///
/// Trusted: nothing is claimed of the hasher. Its keys are drawn once per
/// process, so what it computes differs from one process to the next.
#[verifier::external_body]
fn ahasher_new() -> (hasher: ahash::AHasher) {
    ahash::AHasher::default()
}

/// Calls `write` of `ahash::AHasher`. Trusted: nothing is claimed.
#[verifier::external_body]
fn ahasher_write(hasher: &mut ahash::AHasher, bytes: &[u8]) {
    hasher.write(bytes)
}

/// Calls `finish` of `ahash::AHasher`. Trusted: nothing is claimed.
#[verifier::external_body]
fn ahasher_finish(hasher: &ahash::AHasher) -> (value: u64) {
    hasher.finish()
}

/// Calls `seahash::SeaHasher::default`.
///
/// Trusted: the new hasher starts from fixed seeds with nothing written.
#[verifier::external_body]
fn sea_hasher_new() -> (hasher: seahash::SeaHasher)
    ensures
        sea_hasher_written(hasher) == Seq::<Seq<u8>>::empty(),
{
    seahash::SeaHasher::default()
}

/// Calls `write` of `seahash::SeaHasher`.
///
/// Trusted: the hasher's state afterwards is determined by its state before
/// and the chunk, which is recorded as one more chunk written.
#[verifier::external_body]
fn sea_hasher_write(hasher: &mut seahash::SeaHasher, bytes: &[u8])
    ensures
        sea_hasher_written(*final(hasher)) == sea_hasher_written(*old(hasher)).push(bytes@),
{
    hasher.write(bytes)
}

/// Calls `finish` of `seahash::SeaHasher`.
///
/// Trusted: the result is a function of the chunks written alone.
#[verifier::external_body]
fn sea_hasher_finish(hasher: &seahash::SeaHasher) -> (value: u64)
    ensures
        value == sea_hasher_digest(sea_hasher_written(*hasher)),
{
    hasher.finish()
}

/// Calls `seahash::hash`.
///
/// Trusted: the result is a function of the bytes alone.
#[verifier::external_body]
fn seahash_bytes(bytes: &[u8]) -> (value: u64)
    ensures
        value == seahash_digest(bytes@),
{
    seahash::hash(bytes)
}

/// A candidate hash algorithm.
#[derive(Clone, Copy, Debug, PartialEq, Eq, Structural)]
pub enum HashAlgorithm {
    /// The standard library's default hasher: the baseline.
    Default,
    /// aHash with per-process keys. Fast, and meant for in-memory tables
    /// only: its values must not be stored or compared across processes.
    AHash,
    /// MurmurHash3 with seed 0, truncated to its low 64 bits.
    Murmur,
    /// SeaHash, fed through its streaming hasher.
    SeaHash,
    /// SeaHash, computed by its one-shot function on the whole buffer.
    SeaHashOneShot,
}

impl HashAlgorithm {
    /// Whether the value this algorithm gives to a byte string is fixed by
    /// the bytes alone. Only the per-process keyed algorithm is not.
    pub open spec fn is_stable(self) -> bool {
        self != HashAlgorithm::AHash
    }

    /// Whether `value` is a value that this algorithm may give to `bytes`.
    /// For a stable algorithm exactly one value is.
    pub open spec fn hashes_to(self, bytes: Seq<u8>, value: u64) -> bool {
        match self {
            HashAlgorithm::Default => value == DefaultHasher::spec_finish(seq![bytes]),
            HashAlgorithm::AHash => true,
            HashAlgorithm::Murmur => value == spec_hash64(bytes),
            HashAlgorithm::SeaHash => value == sea_hasher_digest(seq![bytes]),
            HashAlgorithm::SeaHashOneShot => value == seahash_digest(bytes),
        }
    }

    /// The name under which results for this algorithm are reported.
    pub fn name(&self) -> (name: &'static str)
        ensures
            name@ == self.spec_name(),
    {
        match self {
            HashAlgorithm::Default => "default",
            HashAlgorithm::AHash => "ahash",
            HashAlgorithm::Murmur => "murmur",
            HashAlgorithm::SeaHash => "seahash",
            HashAlgorithm::SeaHashOneShot => "seahash2",
        }
    }

    /// The reporting name as a sequence of characters.
    pub open spec fn spec_name(self) -> Seq<char> {
        match self {
            HashAlgorithm::Default => "default"@,
            HashAlgorithm::AHash => "ahash"@,
            HashAlgorithm::Murmur => "murmur"@,
            HashAlgorithm::SeaHash => "seahash"@,
            HashAlgorithm::SeaHashOneShot => "seahash2"@,
        }
    }

    /// Hashes `bytes` with this algorithm, starting from a fresh hasher.
    pub fn hash(&self, bytes: &[u8]) -> (value: u64)
        requires
            bytes@.len() <= u32::MAX,
        ensures
            self.hashes_to(bytes@, value),
    {
        match self {
            HashAlgorithm::Default => {
                let mut hasher = DefaultHasher::new();
                hasher.write(bytes);
                assert(hasher@ =~= seq![bytes@]);
                hasher.finish()
            },
            HashAlgorithm::AHash => {
                let mut hasher = ahasher_new();
                ahasher_write(&mut hasher, bytes);
                ahasher_finish(&hasher)
            },
            HashAlgorithm::Murmur => {
                let mut hasher = MurmurHasher::new();
                hasher.write(bytes);
                assert(0u64 ^ (spec_hash64(bytes@) as u64) == spec_hash64(bytes@) as u64) by {
                    let x = spec_hash64(bytes@) as u64;
                    assert(0u64 ^ x == x) by (bit_vector);
                }
                hasher.finish()
            },
            HashAlgorithm::SeaHash => {
                let mut hasher = sea_hasher_new();
                sea_hasher_write(&mut hasher, bytes);
                assert(sea_hasher_written(hasher) =~= seq![bytes@]);
                sea_hasher_finish(&hasher)
            },
            HashAlgorithm::SeaHashOneShot => seahash_bytes(bytes),
        }
    }

    /// Every algorithm, in reporting order.
    pub open spec fn spec_all() -> Seq<HashAlgorithm> {
        seq![
            HashAlgorithm::Default,
            HashAlgorithm::AHash,
            HashAlgorithm::Murmur,
            HashAlgorithm::SeaHash,
            HashAlgorithm::SeaHashOneShot,
        ]
    }

    /// Every algorithm, in reporting order.
    pub fn all() -> (algorithms: Vec<HashAlgorithm>)
        ensures
            algorithms@ == Self::spec_all(),
    {
        let algorithms = vec![
            HashAlgorithm::Default,
            HashAlgorithm::AHash,
            HashAlgorithm::Murmur,
            HashAlgorithm::SeaHash,
            HashAlgorithm::SeaHashOneShot,
        ];
        assert(algorithms@ =~= Self::spec_all());
        algorithms
    }
}

/// A stable algorithm is a function of its input: any two values it may give
/// to the same bytes are equal.
pub proof fn lemma_stable_hash_is_deterministic(
    algorithm: HashAlgorithm,
    bytes: Seq<u8>,
    first: u64,
    second: u64,
)
    requires
        algorithm.is_stable(),
        algorithm.hashes_to(bytes, first),
        algorithm.hashes_to(bytes, second),
    ensures
        first == second,
{
}

} // verus!
