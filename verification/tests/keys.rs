use hash_bench::keygen::{generate_corpus, generate_random_string, symbol, ALPHABET_SIZE};

#[test]
fn symbol_maps_letters_then_digits() {
    assert_eq!(symbol(0), 'a');
    assert_eq!(symbol(1), 'b');
    assert_eq!(symbol(25), 'z');
    assert_eq!(symbol(26), '0');
    assert_eq!(symbol(27), '1');
    assert_eq!(symbol(35), '9');
}

#[test]
fn symbols_are_pairwise_distinct() {
    let symbols: Vec<char> = (0..ALPHABET_SIZE).map(symbol).collect();
    assert_eq!(symbols.len(), 36);
    for i in 0..symbols.len() {
        assert!(symbols[i].is_ascii_lowercase() || symbols[i].is_ascii_digit());
        for j in (i + 1)..symbols.len() {
            assert_ne!(symbols[i], symbols[j]);
        }
    }
}

#[test]
fn generated_key_has_requested_length_and_alphabet() {
    for length in [0usize, 1, 2, 10, 100, 1000] {
        let key = generate_random_string(length);
        assert_eq!(key.chars().count(), length);
        assert_eq!(key.len(), length);
        assert!(key.chars().all(|c| c.is_ascii_lowercase() || c.is_ascii_digit()));
    }
}

#[test]
fn zero_length_key_is_empty() {
    assert_eq!(generate_random_string(0), "");
}

#[test]
fn long_key_uses_more_than_one_symbol() {
    let key = generate_random_string(2000);
    let first = key.chars().next();
    assert!(key.chars().any(|c| Some(c) != first));
}

#[test]
fn corpus_has_requested_shape() {
    let keys = generate_corpus(50, 10);
    assert_eq!(keys.len(), 50);
    for key in &keys {
        assert_eq!(key.len(), 10);
        assert!(key.chars().all(|c| c.is_ascii_lowercase() || c.is_ascii_digit()));
    }
    assert!(generate_corpus(0, 10).is_empty());
}
