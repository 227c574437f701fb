use firefly_runtime::valid_full_id;

#[test]
fn test_valid_full_id() {
    assert!(valid_full_id("user.app"));
    assert!(valid_full_id("User.App"));
    assert!(valid_full_id("some-user.some-app"));
    assert!(valid_full_id("Some-User.Some-App"));
    assert!(valid_full_id("user-name.APP"));
    assert!(valid_full_id("a.b"));
    assert!(valid_full_id("A.B"));

    assert!(!valid_full_id("user.name.app")); // too many dots
    assert!(!valid_full_id("user_name.app")); // underscore is not allowed
    assert!(!valid_full_id("user name.app")); // whitespace is not allowed
    assert!(!valid_full_id("user.app_name")); // underscore is not allowed
    assert!(!valid_full_id("a")); // too short
    assert!(!valid_full_id("a.")); // too short
    assert!(!valid_full_id(".a")); // too short
    assert!(!valid_full_id(".gamename")); // starts with dot
}

#[test]
fn full_ids_need_both_parts() {
    assert!(!valid_full_id("abc"));
    assert!(!valid_full_id("ab."));
    assert!(!valid_full_id("author-only"));
    assert!(valid_full_id("ab.c"));
    assert!(valid_full_id("a-b.c-d"));
}
