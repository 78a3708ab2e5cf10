use oakis::auth::{
    after_login, normalize_login_path, safe_next, validate_password_len, LoginLimiter,
    LOGIN_LOCKOUT_MS, LOGIN_WINDOW_MS,
};

#[test]
fn next_must_be_a_local_path() {
    assert_eq!(safe_next(Some(" /admin/posts ")), "/admin/posts");
    assert_eq!(safe_next(Some("//evil.example")), "");
    assert_eq!(safe_next(Some("https://evil.example")), "");
    assert_eq!(safe_next(Some("/a\\b")), "");
    assert_eq!(safe_next(None), "");
    assert_eq!(after_login(""), "/admin");
    assert_eq!(after_login("/admin/media"), "/admin/media");
}

#[test]
fn short_passwords_are_refused() {
    assert!(validate_password_len("12345").is_err());
    assert!(validate_password_len("123456").is_ok());
}

#[test]
fn login_path_rules() {
    assert_eq!(normalize_login_path("/secret-door").unwrap(), "/secret-door");
    assert_eq!(normalize_login_path("").unwrap_err(), "OAKIS_LOGIN_PATH 不能为空");
    assert_eq!(normalize_login_path("/a/").unwrap_err(), "OAKIS_LOGIN_PATH 不要以 / 结尾");
    assert_eq!(normalize_login_path("/admin").unwrap_err(), "OAKIS_LOGIN_PATH 不能占用保留路径: /admin");
}

#[test]
fn eight_failures_block_a_key() {
    let mut l = LoginLimiter::new();
    let key = LoginLimiter::key("1.2.3.4", "  Admin ");
    assert_eq!(key, "1.2.3.4\0admin");
    for t in 0..7u64 {
        l.record_failure(&key, 1000 + t);
        assert!(!l.is_blocked(&key, 1000 + t));
    }
    l.record_failure(&key, 1007);
    assert!(l.is_blocked(&key, 1008));
    assert!(l.is_blocked(&key, 1007 + LOGIN_LOCKOUT_MS - 1));
    assert!(!l.is_blocked(&key, 1007 + LOGIN_LOCKOUT_MS));
}

#[test]
fn clearing_a_key_unblocks_it_and_leaves_others() {
    let mut l = LoginLimiter::new();
    let a = LoginLimiter::key("c", "a");
    let b = LoginLimiter::key("c", "b");
    for t in 0..8u64 {
        l.record_failure(&a, t);
        l.record_failure(&b, t);
    }
    assert!(l.is_blocked(&a, 10));
    l.clear(&a);
    assert!(!l.is_blocked(&a, 10));
    assert!(l.is_blocked(&b, 10));
}

#[test]
fn old_failures_are_forgotten() {
    let mut l = LoginLimiter::new();
    let k = LoginLimiter::key("c", "u");
    for t in 0..7u64 {
        l.record_failure(&k, t);
    }
    l.record_failure(&k, 7 + LOGIN_WINDOW_MS);
    assert!(!l.is_blocked(&k, 8 + LOGIN_WINDOW_MS));
}
