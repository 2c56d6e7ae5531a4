use hash_bench::adapter::HashAlgorithm;
use hash_bench::digest::{digest_low_u64, hash64, MurmurHasher};
use std::collections::hash_map::DefaultHasher;
use std::hash::Hasher;

#[test]
fn digest_low_u64_reads_low_bytes_little_endian() {
    let digest = [1u8, 2, 3, 4, 5, 6, 7, 8, 9, 10, 11, 12, 13, 14, 15, 16];
    assert_eq!(digest_low_u64(&digest), 0x0807_0605_0403_0201);
}

#[test]
fn digest_low_u64_ignores_high_bytes() {
    let mut digest = [0u8; 16];
    digest[0] = 0x2a;
    digest[8] = 0xff;
    digest[15] = 0xff;
    assert_eq!(digest_low_u64(&digest), 0x2a);
}

#[test]
fn hash64_of_abc_is_fixed() {
    assert_eq!(hash64(b"abc"), 0xb496_3f3f_3fad_7867);
    assert_eq!(hash64(b"abc"), 13012657714217449575);
}

#[test]
fn hash64_of_empty_input() {
    assert_eq!(hash64(b""), 0);
}

#[test]
fn hash64_matches_truncated_murmur3_digest() {
    let inputs: [&[u8]; 4] = [b"a", b"hello world", b"0123456789abcdef", b"0123456789abcdefXYZ"];
    for input in inputs {
        let mut source: &[u8] = input;
        let mut out = [0u8; 16];
        murmur3::murmur3_x64_128(&mut source, 0, &mut out);
        let mut low = [0u8; 8];
        low.copy_from_slice(&out[0..8]);
        assert_eq!(hash64(input), u64::from_le_bytes(low));
    }
}

#[test]
fn hash64_distinguishes_inputs() {
    assert_ne!(hash64(b"abc"), hash64(b"abd"));
    assert_ne!(hash64(b"abc"), hash64(b"abc "));
}

#[test]
fn murmur_hasher_starts_at_zero() {
    assert_eq!(MurmurHasher::new().finish(), 0);
    assert_eq!(MurmurHasher::default().finish(), 0);
}

#[test]
fn murmur_hasher_xors_chunks() {
    let mut hasher = MurmurHasher::new();
    hasher.write(b"abc");
    assert_eq!(hasher.finish(), hash64(b"abc"));
    hasher.write(b"xyz");
    assert_eq!(hasher.finish(), hash64(b"abc") ^ hash64(b"xyz"));
    hasher.write(b"abc");
    assert_eq!(hasher.finish(), hash64(b"xyz"));
}

#[test]
fn murmur_algorithm_is_hash64() {
    assert_eq!(HashAlgorithm::Murmur.hash(b"abc"), 0xb496_3f3f_3fad_7867);
    assert_eq!(HashAlgorithm::Murmur.hash(b"key-17"), hash64(b"key-17"));
}

#[test]
fn seahash_one_shot_known_value() {
    assert_eq!(
        HashAlgorithm::SeaHashOneShot.hash(b"to be or not to be"),
        1988685042348123509
    );
    assert_eq!(HashAlgorithm::SeaHashOneShot.hash(b"abc"), seahash::hash(b"abc"));
}

#[test]
fn seahash_streaming_matches_hasher() {
    let mut hasher = seahash::SeaHasher::default();
    hasher.write(b"to be or not to be");
    assert_eq!(HashAlgorithm::SeaHash.hash(b"to be or not to be"), hasher.finish());
    assert_ne!(
        HashAlgorithm::SeaHash.hash(b"to be or not to be"),
        HashAlgorithm::SeaHash.hash(b"to be or not to bf")
    );
}

#[test]
fn default_algorithm_matches_default_hasher() {
    let mut hasher = DefaultHasher::new();
    hasher.write(b"abc");
    assert_eq!(HashAlgorithm::Default.hash(b"abc"), hasher.finish());
}

#[test]
fn every_algorithm_is_deterministic_within_a_process() {
    let inputs: [&[u8]; 3] = [b"", b"abc", b"the quick brown fox jumps over the lazy dog"];
    for algorithm in HashAlgorithm::all() {
        for input in inputs {
            assert_eq!(algorithm.hash(input), algorithm.hash(input));
        }
    }
}

#[test]
fn ahash_depends_on_input() {
    assert_ne!(HashAlgorithm::AHash.hash(b"abc"), HashAlgorithm::AHash.hash(b"abd"));
}

#[test]
fn algorithms_hash_the_empty_slice() {
    for algorithm in HashAlgorithm::all() {
        let first = algorithm.hash(b"");
        assert_eq!(first, algorithm.hash(&[]));
    }
}

#[test]
fn algorithm_names_in_reporting_order() {
    let names: Vec<&str> = HashAlgorithm::all().iter().map(|a| a.name()).collect();
    assert_eq!(names, vec!["default", "ahash", "murmur", "seahash", "seahash2"]);
}
