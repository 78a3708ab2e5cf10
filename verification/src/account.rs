//! The administrator's account: password hashes, the checks of the install
//! form and of a password change, and the decision on a sign-in attempt.
use argon2::password_hash::PasswordHasher;
use argon2::password_hash::PasswordVerifier;
use vstd::prelude::*;

use crate::auth::{blocked_in, entry_of, failed, LoginLimiter};
use crate::text::{starts, chars_of, str_eq, string_of, trim, trim_string, utf8_len, utf8_len_of};

verus! {

// ---------------------------------------------------------------------------
// Password hashes
// ---------------------------------------------------------------------------

/// Whether `hash` reads as a PHC password-hash string
/// (`password_hash::PasswordHash::new`).
pub uninterp spec fn phc_parses(hash: Seq<char>) -> bool;

/// Whether Argon2 with the parameters and salt stored in `hash` computes
/// the hash stored there from `password`
/// (`PasswordVerifier::verify_password` of `argon2::Argon2`).
pub uninterp spec fn argon2_accepts(password: Seq<char>, hash: Seq<char>) -> bool;

/// `PasswordHash::new` on the stored hash, then `Argon2::default()
/// .verify_password`: none where the hash does not parse, else whether the
/// password is accepted.
#[verifier::external_body]
fn argon2_verify(password: &str, hash: &str) -> (r: Option<bool>)
    ensures
        match r {
            None => !phc_parses(hash@),
            Some(ok) => phc_parses(hash@) && ok == argon2_accepts(password@, hash@),
        },
{
    match argon2::password_hash::PasswordHash::new(hash) {
        Err(_) => None,
        Ok(parsed) => Some(argon2::Argon2::default().verify_password(password.as_bytes(), &parsed).is_ok()),
    }
}

/// `Argon2::default().hash_password` with a salt from the operating
/// system's generator (`SaltString::generate(&mut OsRng)`), as a PHC
/// string; the error's text where hashing fails. The salt is random, so
/// the hash is not stated; what the crate's verifier does with it is:
/// it parses, and Argon2 accepts the same password against it (verifying
/// recomputes the hash with the stored parameters and salt). It fails only
/// for a password longer than `MAX_PWD_LEN` (2^32 - 1) bytes
/// (`Argon2::verify_inputs`): the generated salt and the default parameters
/// are always accepted.
#[verifier::external_body]
fn argon2_hash(password: &str) -> (r: Result<String, String>)
    ensures
        utf8_len(password@) <= 0xFFFF_FFFF ==> r is Ok,
        match r {
            Ok(h) => phc_parses(h@) && argon2_accepts(password@, h@),
            Err(_) => true,
        },
{
    let salt = argon2::password_hash::SaltString::generate(&mut rand_core::OsRng);
    argon2::Argon2::default().hash_password(password.as_bytes(), &salt).map(|h| h.to_string()).map_err(
        |e| e.to_string(),
    )
}

/// Whether `password` matches the stored hash; a stored hash that does not
/// parse matches nothing.
pub open spec fn password_matches(password: Seq<char>, hash: Seq<char>) -> bool {
    phc_parses(hash) && argon2_accepts(password, hash)
}

pub fn verify_password(password: &str, password_hash: &str) -> (r: bool)
    ensures
        r == password_matches(password@, password_hash@),
{
    match argon2_verify(password, password_hash) {
        None => false,
        Some(ok) => ok,
    }
}

/// A new hash of a password, or the message shown where hashing fails,
/// which it does only for a password longer than 2^32 - 1 bytes.
pub fn hash_password(password: &str) -> (r: Result<String, String>)
    ensures
        utf8_len(password@) <= 0xFFFF_FFFF ==> r is Ok,
        match r {
            Ok(h) => password_matches(password@, h@),
            Err(m) => starts(m@, "密码加密失败: "@),
        },
{
    match argon2_hash(password) {
        Ok(h) => Ok(h),
        Err(e) => {
            let mut m = string_of("密码加密失败: ");
            let ghost head = m@;
            crate::text::push_str(&mut m, e.as_str());
            assert(m@.subrange(0, head.len() as int) =~= head);
            Err(m)
        },
    }
}

// ---------------------------------------------------------------------------
// Forms
// ---------------------------------------------------------------------------

/// The first complaint about an install form (its title, author and user
/// name trimmed), or none.
pub open spec fn install_refusal(
    site_title: Seq<char>,
    author_name: Seq<char>,
    username: Seq<char>,
    password: Seq<char>,
    password_confirm: Seq<char>,
) -> Option<Seq<char>> {
    if trim(site_title).len() == 0 {
        Some("请填写站点名称"@)
    } else if trim(author_name).len() == 0 {
        Some("请填写作者名称"@)
    } else if utf8_len(trim(username)) < 3 {
        Some("用户名至少 3 个字符"@)
    } else if utf8_len(password) < 6 {
        Some("密码至少 6 位"@)
    } else if password != password_confirm {
        Some("两次输入的密码不一致"@)
    } else {
        None
    }
}

pub fn check_install_form(form: &crate::forms::InstallForm) -> (r: Option<&'static str>)
    ensures
        match r {
            Some(m) => install_refusal(
                form.site_title@,
                form.author_name@,
                form.username@,
                form.password@,
                form.password_confirm@,
            ) == Some(m@),
            None => install_refusal(
                form.site_title@,
                form.author_name@,
                form.username@,
                form.password@,
                form.password_confirm@,
            ) is None,
        },
{
    if chars_of(trim_string(form.site_title.as_str()).as_str()).len() == 0 {
        return Some("请填写站点名称");
    }
    if chars_of(trim_string(form.author_name.as_str()).as_str()).len() == 0 {
        return Some("请填写作者名称");
    }
    if utf8_len_of(&chars_of(trim_string(form.username.as_str()).as_str())) < 3 {
        return Some("用户名至少 3 个字符");
    }
    if let Err(m) = crate::auth::validate_password_len(form.password.as_str()) {
        return Some(m);
    }
    if !str_eq(form.password.as_str(), form.password_confirm.as_str()) {
        return Some("两次输入的密码不一致");
    }
    None
}

/// The first complaint about a password change that does not depend on the
/// current password: too short, or not confirmed.
pub open spec fn password_change_refusal(new_password: Seq<char>, confirm: Seq<char>) -> Option<
    Seq<char>,
> {
    if utf8_len(new_password) < 6 {
        Some("密码至少 6 位"@)
    } else if new_password != confirm {
        Some("两次输入的新密码不一致"@)
    } else {
        None
    }
}

/// Checks a password change: the new password's length and confirmation,
/// then the current password against the stored hash.
pub fn check_password_change(form: &crate::forms::PasswordForm, stored_hash: &str) -> (r: Option<
    &'static str,
>)
    ensures
        match password_change_refusal(form.new_password@, form.confirm_password@) {
            Some(m) => r is Some && r->0@ == m,
            None => match r {
                Some(m) => !password_matches(form.current_password@, stored_hash@) && m@
                    == "当前密码错误"@,
                None => password_matches(form.current_password@, stored_hash@),
            },
        },
{
    if let Err(m) = crate::auth::validate_password_len(form.new_password.as_str()) {
        return Some(m);
    }
    if !str_eq(form.new_password.as_str(), form.confirm_password.as_str()) {
        return Some("两次输入的新密码不一致");
    }
    if !verify_password(form.current_password.as_str(), stored_hash) {
        return Some("当前密码错误");
    }
    None
}

// ---------------------------------------------------------------------------
// A sign-in attempt
// ---------------------------------------------------------------------------

/// How a sign-in attempt ends.
#[derive(Debug, Clone, Copy, PartialEq, Eq, Structural)]
pub enum LoginOutcome {
    /// Too many failures: refused without looking at the password.
    Blocked,
    /// Unknown user or wrong password: counted as a failure.
    Rejected,
    /// Signed in: the failures counted against the key are forgotten.
    Accepted,
}

impl LoginOutcome {
    /// The message shown on the sign-in page where the attempt fails.
    pub fn message(&self) -> (r: &'static str)
        ensures
            *self == LoginOutcome::Blocked ==> r@ == "尝试过多，请稍后再试"@,
            *self == LoginOutcome::Rejected ==> r@ == "用户名或密码错误"@,
            *self == LoginOutcome::Accepted ==> r@.len() == 0,
    {
        match self {
            LoginOutcome::Blocked => "尝试过多，请稍后再试",
            LoginOutcome::Rejected => "用户名或密码错误",
            LoginOutcome::Accepted => {
                proof {
                    reveal_strlit("");
                }
                ""
            },
        }
    }
}

/// Decides a sign-in attempt against `key` at `now`, given the stored hash
/// of the user named (none for an unknown user), and records it.
pub fn login_attempt(
    limiter: &mut LoginLimiter,
    key: &str,
    now: u64,
    stored_hash: Option<&str>,
    password: &str,
) -> (r: LoginOutcome)
    requires
        old(limiter).wf(),
        now <= u64::MAX - crate::auth::LOGIN_LOCKOUT_MS,
    ensures
        final(limiter).wf(),
        ({
            let m = old(limiter).view();
            let e = entry_of(m, key@);
            let cleaned = m.insert(key@, crate::auth::cleaned(e, now));
            if blocked_in(e, now) {
                r == LoginOutcome::Blocked && final(limiter).view() == cleaned
            } else {
                let ok = match stored_hash {
                    Some(h) => password_matches(password@, h@),
                    None => false,
                };
                if ok {
                    r == LoginOutcome::Accepted && final(limiter).view() == cleaned.remove(key@)
                } else {
                    r == LoginOutcome::Rejected && final(limiter).view() == cleaned.insert(
                        key@,
                        failed(crate::auth::cleaned(e, now), now),
                    )
                }
            }
        }),
{
    if limiter.is_blocked(key, now) {
        return LoginOutcome::Blocked;
    }
    let ok = match stored_hash {
        Some(h) => verify_password(password, h),
        None => false,
    };
    if ok {
        limiter.clear(key);
        LoginOutcome::Accepted
    } else {
        limiter.record_failure(key, now);
        LoginOutcome::Rejected
    }
}

} // verus!
