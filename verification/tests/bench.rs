use hash_bench::adapter::HashAlgorithm;
use hash_bench::bench::{hash_keys, is_hashable, run_benchmarks, test_hash_dist, test_hash_speed};
use hash_bench::config::{
    BenchConfig, ConfigError, DEFAULT_BUCKET_COUNT, DEFAULT_KEY_COUNT, DEFAULT_KEY_LEN,
};
use hash_bench::digest::hash64;
use hash_bench::histogram::BucketHistogram;
use hash_bench::keygen::generate_corpus;
use std::time::Duration;

fn std_dev(histogram: &BucketHistogram) -> f64 {
    let sum = histogram.deviation_square_sum().unwrap();
    let buckets = histogram.bucket_count() as f64;
    (sum as f64 / (buckets * buckets * buckets)).sqrt()
}

#[test]
fn histogram_counts_by_remainder() {
    let hashes = [0u64, 16, 1, 2, 18, 35, u64::MAX];
    let histogram = BucketHistogram::from_hashes(&hashes, 16);
    let mut expected = vec![0usize; 16];
    expected[0] = 2;
    expected[1] = 1;
    expected[2] = 2;
    expected[3] = 1;
    expected[15] = 1;
    assert_eq!(histogram.counts, expected);
    assert_eq!(histogram.keys, 7);
    assert_eq!(histogram.key_count(), 7);
    assert_eq!(histogram.bucket_count(), 16);
}

#[test]
fn histogram_of_nothing_is_all_zero() {
    let histogram = BucketHistogram::from_hashes(&[], 4);
    assert_eq!(histogram.counts, vec![0usize; 4]);
    assert_eq!(histogram.key_count(), 0);
    assert_eq!(histogram.deviation_square_sum(), Some(0));
}

#[test]
fn deviation_square_sum_exact_value() {
    let histogram = BucketHistogram::from_hashes(&[0, 2, 4, 1], 2);
    assert_eq!(histogram.counts, vec![3usize, 1]);
    assert_eq!(histogram.deviation_square_sum(), Some(8));
    assert_eq!(std_dev(&histogram), 1.0);
}

#[test]
fn deviation_square_sum_with_counter_below_mean() {
    let histogram = BucketHistogram::from_hashes(&[0, 3, 6, 9, 12, 1], 3);
    assert_eq!(histogram.counts, vec![5usize, 1, 0]);
    assert_eq!(histogram.deviation_square_sum(), Some(81 + 9 + 36));
}

#[test]
fn deviation_square_sum_reports_overflow() {
    let histogram = BucketHistogram { counts: vec![usize::MAX, 0], keys: usize::MAX };
    if usize::BITS == 64 {
        assert_eq!(histogram.deviation_square_sum(), None);
    } else {
        let d = usize::MAX as u128;
        assert_eq!(histogram.deviation_square_sum(), Some(2 * d * d));
    }
}

#[test]
fn single_bucket_has_zero_deviation() {
    let keys = generate_corpus(200, 10);
    for algorithm in HashAlgorithm::all() {
        let histogram = test_hash_dist(algorithm, &keys, 1);
        assert_eq!(histogram.counts, vec![200usize]);
        assert_eq!(histogram.deviation_square_sum(), Some(0));
        assert_eq!(std_dev(&histogram), 0.0);
    }
}

#[test]
fn perfect_permutation_has_zero_deviation() {
    let hashes = [7u64, 3, 0, 5, 1, 6, 2, 4, 8 + 8];
    let hashes = &hashes[0..8];
    let histogram = BucketHistogram::from_hashes(hashes, 8);
    assert_eq!(histogram.counts, vec![1usize; 8]);
    assert_eq!(histogram.deviation_square_sum(), Some(0));
    assert_eq!(std_dev(&histogram), 0.0);
}

#[test]
fn counters_sum_to_key_count_for_every_algorithm() {
    let keys = generate_corpus(500, 12);
    for buckets in [1usize, 2, 16, 128, 500, 1000] {
        for algorithm in HashAlgorithm::all() {
            let histogram = test_hash_dist(algorithm, &keys, buckets);
            assert_eq!(histogram.counts.len(), buckets);
            assert_eq!(histogram.counts.iter().sum::<usize>(), 500);
            assert_eq!(histogram.key_count(), 500);
        }
    }
}

#[test]
fn distribution_follows_the_hashes() {
    let keys = vec!["abc".to_string(), "abd".to_string(), "abc".to_string()];
    let histogram = test_hash_dist(HashAlgorithm::Murmur, &keys, 16);
    let mut expected = vec![0usize; 16];
    expected[(hash64(b"abc") % 16) as usize] += 2;
    expected[(hash64(b"abd") % 16) as usize] += 1;
    assert_eq!(histogram.counts, expected);
    let hashes = hash_keys(HashAlgorithm::Murmur, &keys);
    assert_eq!(hashes, vec![hash64(b"abc"), hash64(b"abd"), hash64(b"abc")]);
    assert_eq!(BucketHistogram::from_hashes(&hashes, 16).counts, expected);
}

#[test]
fn empty_corpus_measures_to_nothing() {
    let keys: Vec<String> = Vec::new();
    for algorithm in HashAlgorithm::all() {
        let elapsed = test_hash_speed(algorithm, &keys);
        assert!(elapsed >= Duration::ZERO);
        assert!(elapsed < Duration::from_secs(1));
        let histogram = test_hash_dist(algorithm, &keys, 16);
        assert_eq!(histogram.counts, vec![0usize; 16]);
        assert_eq!(std_dev(&histogram), 0.0);
    }
}

#[test]
fn speed_is_measured_for_every_algorithm() {
    let keys = generate_corpus(100, 10);
    for algorithm in HashAlgorithm::all() {
        let elapsed = test_hash_speed(algorithm, &keys);
        assert!(elapsed >= Duration::ZERO);
        assert!(elapsed < Duration::from_secs(10));
    }
}

#[test]
fn end_to_end_murmur_sixteen_buckets() {
    let keys = generate_corpus(1000, 10);
    assert!(is_hashable(&keys));
    let elapsed = test_hash_speed(HashAlgorithm::Murmur, &keys);
    assert!(elapsed >= Duration::ZERO);
    let histogram = test_hash_dist(HashAlgorithm::Murmur, &keys, 16);
    assert_eq!(histogram.counts.iter().sum::<usize>(), 1000);
    let spread = std_dev(&histogram);
    assert!(spread.is_finite());
    assert!(spread >= 0.0);
    assert!(spread < 1000.0);
    let again = test_hash_dist(HashAlgorithm::Murmur, &keys, 16);
    assert_eq!(again.counts, histogram.counts);
}

#[test]
fn run_reports_every_algorithm_on_the_same_corpus() {
    let keys = generate_corpus(300, 10);
    let reports = run_benchmarks(&keys, 16);
    assert_eq!(reports.len(), 5);
    let all = HashAlgorithm::all();
    for (report, algorithm) in reports.iter().zip(all.iter()) {
        assert_eq!(report.algorithm, *algorithm);
        assert_eq!(report.histogram.counts.len(), 16);
        assert_eq!(report.histogram.counts.iter().sum::<usize>(), 300);
    }
    let murmur = test_hash_dist(HashAlgorithm::Murmur, &keys, 16);
    assert_eq!(reports[2].histogram.counts, murmur.counts);
}

#[test]
fn zero_buckets_is_a_configuration_error() {
    assert_eq!(BenchConfig::new(1000, 10, 0), Err(ConfigError::ZeroBuckets));
    assert_eq!(
        ConfigError::ZeroBuckets.message(),
        "bucket count must be greater than zero"
    );
}

#[test]
fn valid_configuration_is_kept() {
    let config = BenchConfig::new(1000, 10, 16).unwrap();
    assert_eq!(config.key_count, 1000);
    assert_eq!(config.key_len, 10);
    assert_eq!(config.bucket_count, 16);
    assert!(BenchConfig::new(0, 0, 1).is_ok());
}

#[test]
fn standard_configuration() {
    let config = BenchConfig::standard();
    assert_eq!(config.key_count, 10000);
    assert_eq!(config.key_len, 100);
    assert_eq!(config.bucket_count, 16);
    assert_eq!(DEFAULT_KEY_COUNT, 10000);
    assert_eq!(DEFAULT_KEY_LEN, 100);
    assert_eq!(DEFAULT_BUCKET_COUNT, 16);
}

#[test]
fn ordinary_corpus_is_hashable() {
    assert!(is_hashable(&generate_corpus(10, 10)));
    assert!(is_hashable(&[]));
}
