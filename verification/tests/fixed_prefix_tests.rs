use slice_transform::{FixedPrefix, SliceTransformFns};

#[test]
fn fixed_prefix_of_user_key() {
    let mut fixed = FixedPrefix::new(5);
    let key = b"user:1234:profile";
    assert!(fixed.in_domain(key));
    assert_eq!(fixed.transform(key), b"user:");
}

#[test]
fn fixed_prefix_domain_is_keys_of_at_least_len() {
    let mut fixed = FixedPrefix::new(5);
    assert!(fixed.in_domain(b"user:"));
    assert!(fixed.in_domain(b"user:1"));
    assert!(fixed.in_domain(b"user:1234:profile"));
    assert!(!fixed.in_domain(b"user"));
    assert!(!fixed.in_domain(b"u"));
    assert!(!fixed.in_domain(b""));
}

#[test]
fn fixed_prefix_of_key_of_exact_length_is_the_key() {
    let mut fixed = FixedPrefix::new(5);
    assert_eq!(fixed.transform(b"abcde"), b"abcde");
}

#[test]
fn fixed_prefix_hands_short_key_back_whole() {
    let mut fixed = FixedPrefix::new(5);
    assert_eq!(fixed.transform(b"abc"), b"abc");
    assert_eq!(fixed.transform(b""), b"");
}

#[test]
fn fixed_prefix_of_length_zero_applies_to_every_key() {
    let mut fixed = FixedPrefix::new(0);
    assert!(fixed.in_domain(b""));
    assert!(fixed.in_domain(b"anything"));
    assert_eq!(fixed.transform(b"anything"), b"");
}

#[test]
fn fixed_prefix_borrows_from_the_key() {
    let mut fixed = FixedPrefix::new(3);
    let key: Vec<u8> = vec![10, 20, 30, 40, 50];
    let prefix = fixed.transform(&key);
    assert_eq!(prefix.as_ptr(), key.as_ptr());
    assert_eq!(prefix, &key[..prefix.len()]);
}

#[test]
fn in_range_defaults_to_true() {
    let mut fixed = FixedPrefix::new(5);
    assert!(fixed.in_range(b""));
    assert!(fixed.in_range(b"ab"));
    assert!(fixed.in_range(b"user:"));
    assert!(fixed.in_range(b"user:1234:profile"));
    assert!(fixed.in_range(&[0u8, 255, 0, 7]));
}

#[test]
fn fixed_prefix_keeps_its_length() {
    let mut fixed = FixedPrefix::new(4);
    assert_eq!(fixed.len, 4);
    let _ = fixed.transform(b"abcdefgh");
    let _ = fixed.in_domain(b"ab");
    let _ = fixed.in_range(b"ab");
    assert_eq!(fixed.len, 4);
}
