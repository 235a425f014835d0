use ryu_healing::auth::{bearer_token, ct_eq, require_healing_token, resolve_token};
use ryu_healing::bearer_ok;

#[test]
fn bearer_ok_matches_only_exact_nonempty_token() {
    assert!(bearer_ok(Some("secret"), Some("secret")));
    assert!(!bearer_ok(Some("secret"), Some("other")));
    assert!(!bearer_ok(Some("secre"), Some("secret")));
    assert!(!bearer_ok(None, Some("secret")));
}

#[test]
fn bearer_ok_is_fail_closed_without_expected() {
    assert!(!bearer_ok(Some("secret"), None));
    assert!(!bearer_ok(Some(""), Some("")));
    assert!(!bearer_ok(None, None));
}

#[test]
fn byte_strings_are_compared_whole() {
    assert!(ct_eq(b"", b""));
    assert!(ct_eq(b"abc", b"abc"));
    assert!(!ct_eq(b"abc", b"abd"));
    assert!(!ct_eq(b"xbc", b"abc"));
    assert!(!ct_eq(b"abc", b"abcd"));
    assert!(!ct_eq(b"abcd", b"abc"));
    assert!(!ct_eq(b"abc\0", b"abc"));
    assert!(!ct_eq(b"", b"\0"));
    assert!(!ct_eq(b"\0", b""));
    assert!(!ct_eq(&[0x0f], &[0xf0]));
    assert!(!ct_eq(&[1, 2], &[2, 1]));
}

#[test]
fn the_token_stands_behind_the_prefix() {
    assert_eq!(bearer_token("Bearer abc"), Some("abc"));
    assert_eq!(bearer_token("Bearer "), Some(""));
    assert_eq!(bearer_token("bearer abc"), None);
    assert_eq!(bearer_token("Basic abc"), None);
    assert_eq!(bearer_token("Bearer  abc"), Some(" abc"));
}

#[test]
fn the_guard_opens_for_the_token_alone() {
    assert!(require_healing_token(Some("Bearer tök"), Some("tök")));
    assert!(!require_healing_token(Some("tök"), Some("tök")));
    assert!(!require_healing_token(Some("Bearer tok"), Some("tök")));
    assert!(!require_healing_token(None, Some("tök")));
    assert!(!require_healing_token(Some("Bearer "), None));
    assert!(!require_healing_token(Some("Bearer "), Some("")));
}

#[test]
fn a_blank_setting_sets_no_token() {
    assert_eq!(resolve_token(None), None);
    assert_eq!(resolve_token(Some("")), None);
    assert_eq!(resolve_token(Some(" \n\t")), None);
    assert_eq!(resolve_token(Some(" s e ")), Some("s e".to_string()));
}
