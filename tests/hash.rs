use monero_rust::hash::blake2b;

const EMPTY_DIGEST: &str = "786a02f742015903c6c6fd852552d272912f4740e15847618a86e217f71f5419d25e1031afee585313896444934eb04b903a685b1448b755d56f701afe9be2ce";
const ABC_DIGEST: &str = "ba80a53f981c4d0d6a2797b69f12f6e94c212f14685ac4b74b12bb6fdbffa2d17d87c5392aab792dc252d5de4533cc9518d38aa8dbf1925ab92386edd4009923";

#[test]
fn test_blake2b_known_value() {
    let hash = blake2b(b"Hello Monero!");
    println!("Hash of 'Hello Monero!': {}", hash.to_hex());
    assert_eq!(hash.0.len(), 64);
}

#[test]
fn test_hash_determinism() {
    let h1 = blake2b(b"test");
    let h2 = blake2b(b"test");
    assert_eq!(h1, h2);
}

#[test]
fn empty_input_hash_is_64_bytes_and_repeatable() {
    let h1 = blake2b(b"");
    let h2 = blake2b(b"");
    assert_eq!(h1.0.len(), 64);
    assert_eq!(h1.0, h2.0);
}

#[test]
fn empty_input_hash_matches_reference_vector() {
    assert_eq!(blake2b(b"").to_hex(), EMPTY_DIGEST);
}

#[test]
fn abc_hash_matches_reference_vector() {
    assert_eq!(blake2b(b"abc").to_hex(), ABC_DIGEST);
}

#[test]
fn distinct_inputs_give_distinct_digests() {
    assert_ne!(blake2b(b"transfer 10"), blake2b(b"transfer 11"));
}

#[test]
fn long_input_digest_has_fixed_length() {
    let data = vec![7u8; 10_000];
    let h = blake2b(&data);
    assert_eq!(h.0.len(), 64);
    assert_eq!(h.to_hex().len(), 128);
}

#[test]
fn hex_rendering_is_lowercase_two_digits_per_byte() {
    let h = monero_rust::hash::Hash(vec![0xab, 0x05, 0x00, 0xff]);
    assert_eq!(h.to_hex(), "ab0500ff");
}

#[test]
fn hex_rendering_of_digest_is_lowercase() {
    let text = blake2b(b"Hello Monero!").to_hex();
    assert_eq!(text.len(), 128);
    assert!(text.chars().all(|c| c.is_ascii_digit() || ('a'..='f').contains(&c)));
}

#[test]
fn digests_compare_by_bytes() {
    let a = monero_rust::hash::Hash(vec![1, 2, 3]);
    let b = monero_rust::hash::Hash(vec![1, 2, 3]);
    let c = monero_rust::hash::Hash(vec![1, 2, 4]);
    let d = monero_rust::hash::Hash(vec![1, 2]);
    assert_eq!(a, b);
    assert_ne!(a, c);
    assert_ne!(a, d);
}

#[test]
fn digest_can_key_a_map() {
    let mut m = std::collections::HashMap::new();
    m.insert(blake2b(b"a"), 1);
    m.insert(blake2b(b"b"), 2);
    assert_eq!(m.get(&blake2b(b"a")), Some(&1));
    assert_eq!(m.get(&blake2b(b"b")), Some(&2));
}
