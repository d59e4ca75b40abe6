use slice_transform::{
    extract_prefix, flag_of, flag_or_outside, get_name, in_domain, in_range, prefix_or_empty,
    transform, FixedPrefix, SliceTransformState,
};

fn user_state() -> SliceTransformState<FixedPrefix> {
    SliceTransformState::new("user-prefix", FixedPrefix::new(5))
}

#[test]
fn flag_of_true_is_one_and_false_is_zero() {
    assert_eq!(flag_of(true), 1);
    assert_eq!(flag_of(false), 0);
}

#[test]
fn get_name_gives_the_name_and_a_closing_nul() {
    let state = user_state();
    assert_eq!(get_name(&state), b"user-prefix\0");
}

#[test]
fn get_name_of_empty_name_is_a_single_nul() {
    let state = SliceTransformState::new("", FixedPrefix::new(1));
    assert_eq!(get_name(&state), b"\0");
}

#[test]
fn get_name_keeps_utf8_bytes() {
    let state = SliceTransformState::new("pr\u{e9}fixe", FixedPrefix::new(1));
    assert_eq!(get_name(&state), &[b'p', b'r', 0xc3, 0xa9, b'f', b'i', b'x', b'e', 0][..]);
}

#[test]
fn name_survives_every_entry_point() {
    let mut state = user_state();
    let key = b"user:1234:profile";
    let _ = in_domain(&mut state, key);
    assert_eq!(get_name(&state), b"user-prefix\0");
    let _ = transform(&mut state, key);
    assert_eq!(get_name(&state), b"user-prefix\0");
    let _ = in_range(&mut state, key);
    assert_eq!(get_name(&state), b"user-prefix\0");
    let _ = extract_prefix(&mut state, b"abc");
    assert_eq!(get_name(&state), b"user-prefix\0");
}

#[test]
fn name_address_is_stable_while_the_state_lives() {
    let mut state = Box::new(user_state());
    let before = get_name(&state).as_ptr();
    let _ = extract_prefix(&mut state, b"user:1234:profile");
    let _ = in_range(&mut state, b"x");
    assert_eq!(get_name(&state).as_ptr(), before);
}

#[test]
fn transform_entry_point_gives_user_prefix() {
    let mut state = user_state();
    assert_eq!(transform(&mut state, b"user:1234:profile"), b"user:");
}

#[test]
fn transform_entry_point_copies_nothing() {
    let mut state = user_state();
    let key: Vec<u8> = b"user:1234:profile".to_vec();
    let prefix = transform(&mut state, &key);
    assert_eq!(prefix.len(), 5);
    assert_eq!(prefix.as_ptr(), key.as_ptr());
    assert_eq!(prefix, &key[0..5]);
}

#[test]
fn in_domain_entry_point_gives_one_byte_flags() {
    let mut state = user_state();
    assert_eq!(in_domain(&mut state, b"user:1234:profile"), 1);
    assert_eq!(in_domain(&mut state, b"user:"), 1);
    assert_eq!(in_domain(&mut state, b"user"), 0);
    assert_eq!(in_domain(&mut state, b""), 0);
}

#[test]
fn in_range_entry_point_defaults_to_one() {
    let mut state = user_state();
    assert_eq!(in_range(&mut state, b"user:1234:profile"), 1);
    assert_eq!(in_range(&mut state, b"u"), 1);
    assert_eq!(in_range(&mut state, b""), 1);
}

#[test]
fn extract_prefix_skips_keys_outside_the_domain() {
    let mut state = user_state();
    assert_eq!(extract_prefix(&mut state, b"user"), None);
    assert_eq!(extract_prefix(&mut state, b""), None);
}

#[test]
fn extract_prefix_transforms_keys_of_the_domain() {
    let mut state = user_state();
    assert_eq!(extract_prefix(&mut state, b"user:1234:profile"), Some(&b"user:"[..]));
    assert_eq!(extract_prefix(&mut state, b"order:77"), Some(&b"order"[..]));
    assert_eq!(extract_prefix(&mut state, b"12345"), Some(&b"12345"[..]));
}

#[test]
fn extract_prefix_is_a_run_of_the_key() {
    let mut state = SliceTransformState::new("three", FixedPrefix::new(3));
    let keys: Vec<Vec<u8>> = vec![vec![1, 2, 3], vec![9, 8, 7, 6], vec![0, 0, 0, 0, 0], vec![4, 5]];
    for key in &keys {
        match extract_prefix(&mut state, key) {
            Some(prefix) => {
                assert!(key.len() >= 3);
                assert_eq!(prefix, &key[..prefix.len()]);
                assert_eq!(prefix.as_ptr(), key.as_ptr());
            }
            None => assert!(key.len() < 3),
        }
    }
}

#[test]
fn flag_or_outside_keeps_an_answer_and_defaults_to_zero() {
    assert_eq!(flag_or_outside(Some(1)), 1);
    assert_eq!(flag_or_outside(Some(0)), 0);
    assert_eq!(flag_or_outside(None), 0);
}

#[test]
fn prefix_or_empty_keeps_a_prefix_and_defaults_to_empty() {
    let key = b"user:1234:profile";
    assert_eq!(prefix_or_empty(key, Some(&key[..5])), b"user:");
    let empty = prefix_or_empty(key, None);
    assert_eq!(empty, b"");
    assert_eq!(empty.as_ptr(), key.as_ptr());
}

#[test]
fn in_range_is_one_where_in_domain_is_zero() {
    let mut state = user_state();
    assert_eq!(in_domain(&mut state, b"usr"), 0);
    assert_eq!(in_range(&mut state, b"usr"), 1);
}

#[test]
fn transform_entry_point_forwards_outside_the_domain() {
    let mut state = user_state();
    let key: Vec<u8> = b"usr".to_vec();
    let prefix = transform(&mut state, &key);
    assert_eq!(prefix, b"usr");
    assert_eq!(prefix.as_ptr(), key.as_ptr());
    assert_eq!(transform(&mut state, b""), b"");
}

#[test]
fn entry_points_answer_the_same_at_every_call() {
    let mut state = user_state();
    let key = b"user:1234:profile";
    for _ in 0..3 {
        assert_eq!(in_domain(&mut state, key), 1);
        assert_eq!(transform(&mut state, key), b"user:");
        assert_eq!(in_range(&mut state, key), 1);
        assert_eq!(extract_prefix(&mut state, key), Some(&b"user:"[..]));
        assert_eq!(extract_prefix(&mut state, b"usr"), None);
    }
}
