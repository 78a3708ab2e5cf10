use oakis::account::{check_install_form, check_password_change, hash_password, login_attempt, LoginOutcome};
use oakis::auth::LoginLimiter;
use oakis::forms::{InstallForm, PasswordForm};

fn install(title: &str, author: &str, user: &str, pw: &str, confirm: &str) -> InstallForm {
    InstallForm {
        site_title: title.into(),
        site_tagline: String::new(),
        author_name: author.into(),
        username: user.into(),
        password: pw.into(),
        password_confirm: confirm.into(),
    }
}

#[test]
fn install_form_complaints_come_in_order() {
    assert_eq!(check_install_form(&install(" ", "", "a", "1", "2")), Some("请填写站点名称"));
    assert_eq!(check_install_form(&install("S", "  ", "a", "1", "2")), Some("请填写作者名称"));
    assert_eq!(check_install_form(&install("S", "A", " ab ", "1", "2")), Some("用户名至少 3 个字符"));
    assert_eq!(check_install_form(&install("S", "A", "abc", "12345", "12345")), Some("密码至少 6 位"));
    assert_eq!(check_install_form(&install("S", "A", "abc", "123456", "1234567")), Some("两次输入的密码不一致"));
    assert_eq!(check_install_form(&install("S", "A", "abc", "123456", "123456")), None);
}

#[test]
fn sign_in_attempts_are_decided_and_counted() {
    let hash = hash_password("secret1").unwrap();
    let mut limiter = LoginLimiter::new();
    let key = LoginLimiter::key("1.2.3.4", " Admin ");
    assert_eq!(key, "1.2.3.4\0admin");
    let now = 1_000_000u64;
    assert_eq!(login_attempt(&mut limiter, &key, now, Some(&hash), "wrong"), LoginOutcome::Rejected);
    assert_eq!(login_attempt(&mut limiter, &key, now, None, "secret1"), LoginOutcome::Rejected);
    assert_eq!(login_attempt(&mut limiter, &key, now, Some(&hash), "secret1"), LoginOutcome::Accepted);
    for _ in 0..8 {
        assert_eq!(login_attempt(&mut limiter, &key, now, Some(&hash), "bad"), LoginOutcome::Rejected);
    }
    assert_eq!(login_attempt(&mut limiter, &key, now + 1, Some(&hash), "secret1"), LoginOutcome::Blocked);
    let other = LoginLimiter::key("5.6.7.8", "admin");
    assert_eq!(login_attempt(&mut limiter, &other, now + 1, Some(&hash), "secret1"), LoginOutcome::Accepted);
    assert_eq!(LoginOutcome::Blocked.message(), "尝试过多，请稍后再试");
    assert_eq!(LoginOutcome::Rejected.message(), "用户名或密码错误");
}

#[test]
fn password_changes_are_checked() {
    let hash = hash_password("oldpass").unwrap();
    let form = |cur: &str, new: &str, confirm: &str| PasswordForm {
        current_password: cur.into(),
        new_password: new.into(),
        confirm_password: confirm.into(),
    };
    assert_eq!(check_password_change(&form("x", "short", "short"), &hash), Some("密码至少 6 位"));
    assert_eq!(check_password_change(&form("x", "longer1", "longer2"), &hash), Some("两次输入的新密码不一致"));
    assert_eq!(check_password_change(&form("x", "longer1", "longer1"), &hash), Some("当前密码错误"));
    assert_eq!(check_password_change(&form("oldpass", "longer1", "longer1"), &hash), None);
}
