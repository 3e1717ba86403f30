use font_cache::key::CacheKey;
use font_cache::key::KeyGenerator;

#[test]
fn keys_are_unique_and_strictly_increasing() {
    let mut generator = KeyGenerator::new();
    let mut issued: Vec<usize> = Vec::new();
    for _ in 0..100 {
        let key = CacheKey::new(&mut generator);
        issued.push(key.value());
    }
    for i in 0..issued.len() {
        for j in (i + 1)..issued.len() {
            assert!(issued[i] < issued[j]);
            assert_ne!(issued[i], issued[j]);
        }
    }
}

#[test]
fn keys_start_at_one_and_never_issue_zero() {
    let mut generator = KeyGenerator::new();
    let first = CacheKey::new(&mut generator);
    assert_eq!(first.value(), 1);
    for _ in 0..50 {
        let key = CacheKey::new(&mut generator);
        assert!(key.value() >= 1);
    }
}

#[test]
fn key_value_is_stable_and_keys_compare_by_value() {
    let mut generator = KeyGenerator::new();
    let key = CacheKey::new(&mut generator);
    let copy = key;
    assert_eq!(key.value(), copy.value());
    assert_eq!(key, copy);
    let other = CacheKey::new(&mut generator);
    assert_ne!(key, other);
    assert!(key < other);
}

#[test]
fn generator_reports_next_value() {
    let mut generator = KeyGenerator::new();
    assert_eq!(generator.next_value(), 1);
    let key = CacheKey::new(&mut generator);
    assert_eq!(key.value(), 1);
    assert_eq!(generator.next_value(), 2);
}
