//! The two measurements: how long an algorithm takes to hash a corpus, and
//! how it spreads the corpus over buckets.

use vstd::prelude::*;
use vstd::utf8::encode_utf8;
use vstd::string::StringSliceAdditionalSpecFns;
use std::time::{Duration, Instant};
use crate::adapter::{lemma_stable_hash_is_deterministic, HashAlgorithm};
use crate::histogram::{histogram, total, BucketHistogram};

verus! {

/// Declares `std::time::Instant` as an opaque type.
#[verifier::external_type_specification]
#[verifier::external_body]
pub struct ExInstant(std::time::Instant);

/// Calls `Instant::now`. Trusted: nothing is claimed of the reading.
#[verifier::external_body]
fn clock_start() -> (start: Instant) {
    Instant::now()
}

/// Calls `Instant::elapsed`. Trusted: nothing is claimed of the duration.
#[verifier::external_body]
fn clock_elapsed(start: &Instant) -> (elapsed: Duration) {
    start.elapsed()
}

/// The bytes of a key that are handed to a hash algorithm: its UTF-8
/// encoding.
pub open spec fn key_bytes(key: String) -> Seq<u8> {
    encode_utf8(key@)
}

/// Whether every key is short enough for every algorithm: at most
/// `u32::MAX` bytes.
pub open spec fn hashable(keys: Seq<String>) -> bool {
    forall|i: int| 0 <= i < keys.len() ==> (#[trigger] key_bytes(keys[i])).len() <= u32::MAX
}

/// Whether `hashes` holds, key by key and in corpus order, a value that
/// `algorithm` may give to that key.
pub open spec fn corpus_hashes(algorithm: HashAlgorithm, keys: Seq<String>, hashes: Seq<u64>) -> bool {
    &&& hashes.len() == keys.len()
    &&& forall|i: int|
        0 <= i < keys.len() ==> algorithm.hashes_to(key_bytes(keys[i]), #[trigger] hashes[i])
}

/// Hashes every key once, in corpus order.
pub fn hash_keys(algorithm: HashAlgorithm, keys: &[String]) -> (hashes: Vec<u64>)
    requires
        hashable(keys@),
    ensures
        corpus_hashes(algorithm, keys@, hashes@),
{
    let mut hashes: Vec<u64> = Vec::new();
    let mut i: usize = 0;
    while i < keys.len()
        invariant
            hashable(keys@),
            i <= keys@.len(),
            hashes@.len() == i,
            forall|k: int|
                0 <= k < i ==> algorithm.hashes_to(key_bytes(keys@[k]), #[trigger] hashes@[k]),
        decreases keys@.len() - i,
    {
        let key = keys[i].as_str();
        assert(key.spec_bytes() == key_bytes(keys@[i as int]));
        hashes.push(algorithm.hash(key.as_bytes()));
        i += 1;
    }
    hashes
}

/// Times one sequential pass of `algorithm` over the corpus: every key is
/// hashed once, in corpus order, and the values are discarded. The clock is
/// read just before the first key and just after the last.
pub fn test_hash_speed(algorithm: HashAlgorithm, keys: &[String]) -> (elapsed: Duration)
    requires
        hashable(keys@),
{
    let start = clock_start();
    let mut i: usize = 0;
    while i < keys.len()
        invariant
            hashable(keys@),
            i <= keys@.len(),
        decreases keys@.len() - i,
    {
        let key = keys[i].as_str();
        assert(key.spec_bytes() == key_bytes(keys@[i as int]));
        let _ = algorithm.hash(key.as_bytes());
        i += 1;
    }
    clock_elapsed(&start)
}

/// Whether `result` is a histogram over `buckets` buckets of values that
/// `algorithm` may give to the keys, one value per key.
pub open spec fn measures(
    result: BucketHistogram,
    algorithm: HashAlgorithm,
    keys: Seq<String>,
    buckets: nat,
) -> bool {
    &&& result.wf()
    &&& result.keys == keys.len()
    &&& exists|hashes: Seq<u64>| #[trigger]
        corpus_hashes(algorithm, keys, hashes) && result@ == histogram(hashes, buckets)
}

/// A stable algorithm spreads a given corpus in one way only: any two
/// histograms it may produce for the same keys and bucket count are equal.
pub proof fn lemma_stable_distribution_is_unique(
    algorithm: HashAlgorithm,
    keys: Seq<String>,
    buckets: nat,
    first: BucketHistogram,
    second: BucketHistogram,
)
    requires
        algorithm.is_stable(),
        measures(first, algorithm, keys, buckets),
        measures(second, algorithm, keys, buckets),
    ensures
        first@ == second@,
{
    let a = choose|hashes: Seq<u64>| #[trigger]
        corpus_hashes(algorithm, keys, hashes) && first@ == histogram(hashes, buckets);
    let b = choose|hashes: Seq<u64>| #[trigger]
        corpus_hashes(algorithm, keys, hashes) && second@ == histogram(hashes, buckets);
    assert forall|i: int| 0 <= i < a.len() implies a[i] == b[i] by {
        lemma_stable_hash_is_deterministic(algorithm, key_bytes(keys[i]), a[i], b[i]);
    }
    assert(a =~= b);
}

/// Hashes every key with `algorithm` and counts how many keys fall into each
/// of `bucket_count` buckets. The counters add up to the number of keys.
pub fn test_hash_dist(algorithm: HashAlgorithm, keys: &[String], bucket_count: usize) -> (result:
    BucketHistogram)
    requires
        bucket_count > 0,
        hashable(keys@),
    ensures
        measures(result, algorithm, keys@, bucket_count as nat),
        result@.len() == bucket_count,
        total(result@) == keys@.len(),
{
    let hashes = hash_keys(algorithm, keys);
    let result = BucketHistogram::from_hashes(hashes.as_slice(), bucket_count);
    assert(corpus_hashes(algorithm, keys@, hashes@));
    result
}

/// Whether every key is at most `u32::MAX` bytes long, so that the corpus
/// can be handed to the measurements.
pub fn is_hashable(keys: &[String]) -> (ok: bool)
    ensures
        ok == hashable(keys@),
{
    let mut i: usize = 0;
    while i < keys.len()
        invariant
            i <= keys@.len(),
            forall|k: int| 0 <= k < i ==> (#[trigger] key_bytes(keys@[k])).len() <= u32::MAX,
        decreases keys@.len() - i,
    {
        let key = keys[i].as_str();
        assert(key.spec_bytes() == key_bytes(keys@[i as int]));
        if key.as_bytes().len() > 0xffff_ffff {
            return false;
        }
        i += 1;
    }
    true
}

/// What one algorithm scored on the corpus.
#[derive(Debug)]
pub struct BenchReport {
    /// The algorithm measured.
    pub algorithm: HashAlgorithm,
    /// The time one pass over the corpus took.
    pub elapsed: Duration,
    /// How the algorithm spread the corpus over the buckets.
    pub histogram: BucketHistogram,
}

/// Runs both measurements for every algorithm, in reporting order, on the
/// same corpus: first the timed pass, then the distribution.
pub fn run_benchmarks(keys: &[String], bucket_count: usize) -> (reports: Vec<BenchReport>)
    requires
        bucket_count > 0,
        hashable(keys@),
    ensures
        reports@.len() == HashAlgorithm::spec_all().len(),
        forall|i: int|
            0 <= i < reports@.len() ==> {
                &&& (#[trigger] reports@[i]).algorithm == HashAlgorithm::spec_all()[i]
                &&& measures(
                    reports@[i].histogram,
                    reports@[i].algorithm,
                    keys@,
                    bucket_count as nat,
                )
                &&& reports@[i].histogram@.len() == bucket_count
                &&& total(reports@[i].histogram@) == keys@.len()
            },
{
    let algorithms = HashAlgorithm::all();
    let mut reports: Vec<BenchReport> = Vec::new();
    let mut i: usize = 0;
    while i < algorithms.len()
        invariant
            bucket_count > 0,
            hashable(keys@),
            algorithms@ == HashAlgorithm::spec_all(),
            i <= algorithms@.len(),
            reports@.len() == i,
            forall|k: int|
                0 <= k < i ==> {
                    &&& (#[trigger] reports@[k]).algorithm == HashAlgorithm::spec_all()[k]
                    &&& measures(
                        reports@[k].histogram,
                        reports@[k].algorithm,
                        keys@,
                        bucket_count as nat,
                    )
                    &&& reports@[k].histogram@.len() == bucket_count
                    &&& total(reports@[k].histogram@) == keys@.len()
                },
        decreases algorithms@.len() - i,
    {
        let algorithm = algorithms[i];
        let elapsed = test_hash_speed(algorithm, keys);
        let histogram = test_hash_dist(algorithm, keys, bucket_count);
        reports.push(BenchReport { algorithm, elapsed, histogram });
        i += 1;
    }
    reports
}

} // verus!
