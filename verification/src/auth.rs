//! Signing in: where to go after it, whom a request is counted against,
//! the limit on failed attempts, the login path the site is configured
//! with, and the rule on password length.
use vstd::prelude::*;
use vstd::map::*;

use crate::text::{
    ascii_lower, chars_of, char_ascii_lower, has_char, has_infix, lower_seq, lower_vec, new_string,
    push_char, push_str, starts, str_eq, string_from_chars, string_of, trim, trimmed, utf8_len,
    utf8_len_of, is_ascii_alnum,
};

verus! {

// ---------------------------------------------------------------------------
// Redirects and keys
// ---------------------------------------------------------------------------

/// The page a sign-in may send to: a trimmed local path (starting with one
/// `/`, with no backslash, NUL or line break); anything else is dropped.
pub open spec fn safe_next_of(next: Option<Seq<char>>) -> Seq<char> {
    match next {
        None => Seq::empty(),
        Some(raw) => {
            let n = trim(raw);
            if n.len() > 0 && starts(n, "/"@) && !starts(n, "//"@) && !has_char(n, '\\')
                && !has_char(n, '\0') && !has_char(n, '\n') && !has_char(n, '\r') {
                n
            } else {
                Seq::empty()
            }
        },
    }
}

pub fn safe_next(next: Option<&str>) -> (r: String)
    ensures
        r@ == safe_next_of(
            match next {
                Some(n) => Some(n@),
                None => None,
            },
        ),
{
    let raw = match next {
        None => {
            return new_string();
        },
        Some(raw) => raw,
    };
    let n = trimmed(raw);
    if n.len() > 0 && crate::text::starts_with(&n, "/") && !crate::text::starts_with(&n, "//")
        && !crate::text::contains_char(&n, '\\') && !crate::text::contains_char(&n, '\0')
        && !crate::text::contains_char(&n, '\n') && !crate::text::contains_char(&n, '\r') {
        string_from_chars(&n)
    } else {
        new_string()
    }
}

/// Where a signed-in user goes: the page asked for, or the dashboard.
pub fn after_login(next: &str) -> (r: String)
    ensures
        r@ == (if next@.len() == 0 {
            "/admin"@
        } else {
            next@
        }),
{
    if chars_of(next).len() == 0 {
        string_of("/admin")
    } else {
        string_of(next)
    }
}

/// The text before the first comma.
pub open spec fn first_field(s: Seq<char>) -> Seq<char> {
    if s.contains(',') {
        s.take(choose|k: int| 0 <= k < s.len() && s[k] == ',' && forall|j: int| 0 <= j < k ==> s[j] != ',')
    } else {
        s
    }
}

/// Whom a sign-in attempt is counted against: behind a trusted proxy, the
/// first address of `X-Forwarded-For`, else `X-Real-IP`; otherwise the
/// peer's address.
pub open spec fn client_key_of(
    forwarded_for: Option<Seq<char>>,
    real_ip: Option<Seq<char>>,
    peer_ip: Seq<char>,
    trust_proxy: bool,
) -> Seq<char> {
    let xff = match forwarded_for {
        Some(x) => trim(first_field(x)),
        None => Seq::empty(),
    };
    let real_addr = match real_ip {
        Some(x) => trim(x),
        None => Seq::empty(),
    };
    if trust_proxy && xff.len() > 0 {
        xff
    } else if trust_proxy && real_addr.len() > 0 {
        real_addr
    } else {
        peer_ip
    }
}

fn first_field_vec(v: &Vec<char>) -> (r: Vec<char>)
    ensures
        r@ == first_field(v@),
{
    let mut k: usize = 0;
    while k < v.len()
        invariant
            0 <= k <= v.len(),
            forall|j: int| 0 <= j < k ==> v@[j] != ',',
        decreases v.len() - k,
    {
        if v[k] == ',' {
            proof {
                let c = choose|c: int|
                    0 <= c < v@.len() && v@[c] == ',' && forall|j: int| 0 <= j < c ==> v@[j] != ',';
                assert(v@[k as int] == ',');
                if c < k {
                    assert(v@[c] != ',');
                }
                if k < c {
                    assert(v@[k as int] != ',');
                }
            }
            return crate::text::subvec(v, 0, k);
        }
        k = k + 1;
    }
    assert(!v@.contains(','));
    v.clone()
}

pub fn client_key(
    forwarded_for: Option<&str>,
    real_ip: Option<&str>,
    peer_ip: &str,
    trust_proxy: bool,
) -> (r: String)
    ensures
        r@ == client_key_of(
            match forwarded_for {
                Some(x) => Some(x@),
                None => None,
            },
            match real_ip {
                Some(x) => Some(x@),
                None => None,
            },
            peer_ip@,
            trust_proxy,
        ),
{
    if trust_proxy {
        if let Some(x) = forwarded_for {
            let first = first_field_vec(&chars_of(x));
            let t = crate::text::trim_vec(&first);
            if t.len() > 0 {
                return string_from_chars(&t);
            }
        }
        if let Some(x) = real_ip {
            let t = trimmed(x);
            if t.len() > 0 {
                return string_from_chars(&t);
            }
        }
    }
    string_of(peer_ip)
}

// ---------------------------------------------------------------------------
// Passwords and the login path
// ---------------------------------------------------------------------------

pub const MIN_PASSWORD_LEN: usize = 6;

/// A password needs at least six bytes.
pub fn validate_password_len(password: &str) -> (r: Result<(), &'static str>)
    ensures
        match r {
            Ok(()) => utf8_len(password@) >= 6,
            Err(m) => utf8_len(password@) < 6 && m@ == "密码至少 6 位"@,
        },
{
    if utf8_len_of(&chars_of(password)) < MIN_PASSWORD_LEN {
        Err("密码至少 6 位")
    } else {
        Ok(())
    }
}

/// The paths the site itself serves, which the login page may not take.
pub open spec fn reserved_path(i: int) -> Seq<char> {
    if i == 0 {
        "/install"@
    } else if i == 1 {
        "/static"@
    } else if i == 2 {
        "/uploads"@
    } else if i == 3 {
        "/posts"@
    } else if i == 4 {
        "/admin"@
    } else if i == 5 {
        "/logout"@
    } else if i == 6 {
        "/search"@
    } else if i == 7 {
        "/categories"@
    } else if i == 8 {
        "/tags"@
    } else if i == 9 {
        "/sparks"@
    } else if i == 10 {
        "/spark"@
    } else {
        "/p"@
    }
}

pub const RESERVED_PATHS: usize = 12;

pub open spec fn path_char_ok(c: char) -> bool {
    is_ascii_alnum(c) || c == '/' || c == '-' || c == '_'
}

/// Whether `path` is a reserved path or lies under one.
pub open spec fn takes_reserved(path: Seq<char>) -> bool {
    exists|i: int|
        0 <= i < 12 && (path == reserved_path(i) || starts(path, reserved_path(i) + "/"@))
}

/// Why a configured login path is refused, or the path (trimmed).
pub open spec fn login_path_of(raw: Seq<char>) -> Result<Seq<char>, Seq<char>> {
    let p = trim(raw);
    if p.len() == 0 {
        Err("OAKIS_LOGIN_PATH 不能为空"@)
    } else if !starts(p, "/"@) {
        Err("OAKIS_LOGIN_PATH 必须以 / 开头，例如 /login"@)
    } else if p == "/"@ {
        Err("OAKIS_LOGIN_PATH 不能是 /"@)
    } else if p.last() == '/' {
        Err("OAKIS_LOGIN_PATH 不要以 / 结尾"@)
    } else if has_infix(p, "//"@) || has_char(p, '?') || has_char(p, '#') {
        Err("OAKIS_LOGIN_PATH 格式无效"@)
    } else if !(forall|k: int| 0 <= k < p.len() ==> path_char_ok(#[trigger] p[k])) {
        Err("OAKIS_LOGIN_PATH 仅允许字母、数字、/、-、_"@)
    } else if takes_reserved(p) {
        Err("OAKIS_LOGIN_PATH 不能占用保留路径: "@ + p)
    } else {
        Ok(p)
    }
}

fn reserved_path_str(i: usize) -> (r: &'static str)
    requires
        i < 12,
    ensures
        r@ == reserved_path(i as int),
{
    if i == 0 {
        "/install"
    } else if i == 1 {
        "/static"
    } else if i == 2 {
        "/uploads"
    } else if i == 3 {
        "/posts"
    } else if i == 4 {
        "/admin"
    } else if i == 5 {
        "/logout"
    } else if i == 6 {
        "/search"
    } else if i == 7 {
        "/categories"
    } else if i == 8 {
        "/tags"
    } else if i == 9 {
        "/sparks"
    } else if i == 10 {
        "/spark"
    } else {
        "/p"
    }
}

/// Checks the configured login path (see `login_path_of`).
pub fn normalize_login_path(raw: &str) -> (r: Result<String, String>)
    ensures
        match r {
            Ok(p) => login_path_of(raw@) == Ok::<Seq<char>, Seq<char>>(p@),
            Err(m) => login_path_of(raw@) == Err::<Seq<char>, Seq<char>>(m@),
        },
{
    let p = trimmed(raw);
    proof {
        reveal_strlit("/");
    }
    if p.len() == 0 {
        return Err(string_of("OAKIS_LOGIN_PATH 不能为空"));
    }
    if !crate::text::starts_with(&p, "/") {
        return Err(string_of("OAKIS_LOGIN_PATH 必须以 / 开头，例如 /login"));
    }
    if p.len() == 1 {
        assert(p@ =~= "/"@);
        return Err(string_of("OAKIS_LOGIN_PATH 不能是 /"));
    }
    assert(p@ != "/"@);
    if p[p.len() - 1] == '/' {
        return Err(string_of("OAKIS_LOGIN_PATH 不要以 / 结尾"));
    }
    if crate::text::contains_str(&p, "//") || crate::text::contains_char(&p, '?')
        || crate::text::contains_char(&p, '#') {
        return Err(string_of("OAKIS_LOGIN_PATH 格式无效"));
    }
    let mut k: usize = 0;
    while k < p.len()
        invariant
            0 <= k <= p.len(),
            p@ == trim(raw@),
            p@.len() > 1,
            starts(p@, "/"@),
            p@ != "/"@,
            p@.last() != '/',
            !has_infix(p@, "//"@),
            !has_char(p@, '?'),
            !has_char(p@, '#'),
            forall|j: int| 0 <= j < k ==> path_char_ok(#[trigger] p@[j]),
        decreases p.len() - k,
    {
        let c = p[k];
        if !(crate::text::char_is_ascii_alnum(c) || c == '/' || c == '-' || c == '_') {
            assert(!path_char_ok(p@[k as int]));
            return Err(string_of("OAKIS_LOGIN_PATH 仅允许字母、数字、/、-、_"));
        }
        k = k + 1;
    }
    let ps = string_from_chars(&p);
    let mut i: usize = 0;
    while i < RESERVED_PATHS
        invariant
            0 <= i <= 12,
            RESERVED_PATHS == 12,
            ps@ == p@,
            p@ == trim(raw@),
            p@.len() > 1,
            starts(p@, "/"@),
            p@ != "/"@,
            p@.last() != '/',
            !has_infix(p@, "//"@),
            !has_char(p@, '?'),
            !has_char(p@, '#'),
            forall|j: int| 0 <= j < p@.len() ==> path_char_ok(#[trigger] p@[j]),
            forall|j: int|
                0 <= j < i ==> !(p@ == reserved_path(j) || starts(p@, #[trigger] reserved_path(j) + "/"@)),
        decreases 12 - i,
    {
        let r = reserved_path_str(i);
        let mut under = string_of(r);
        push_str(&mut under, "/");
        if str_eq(ps.as_str(), r) || crate::text::starts_with(&p, under.as_str()) {
            let mut m = string_of("OAKIS_LOGIN_PATH 不能占用保留路径: ");
            push_str(&mut m, ps.as_str());
            return Err(m);
        }
        i = i + 1;
    }
    Ok(ps)
}


// ---------------------------------------------------------------------------
// The limit on failed sign-ins
// ---------------------------------------------------------------------------

/// Failures older than this (in milliseconds) no longer count.
pub const LOGIN_WINDOW_MS: u64 = 900000;

/// How long a key stays blocked (in milliseconds).
pub const LOGIN_LOCKOUT_MS: u64 = 900000;

/// Failures within the window that block a key.
pub const LOGIN_MAX_FAILS: usize = 8;

/// The failures counted against one key, and until when it is blocked.
/// Times are milliseconds on a clock that does not go back.
#[derive(Debug, Clone)]
pub struct LoginEntry {
    pub fails: Vec<u64>,
    pub locked_until: Option<u64>,
}

pub struct EntryModel {
    pub fails: Seq<u64>,
    pub locked_until: Option<u64>,
}

pub open spec fn entry_model(e: LoginEntry) -> EntryModel {
    EntryModel { fails: e.fails@, locked_until: e.locked_until }
}

pub open spec fn empty_entry() -> EntryModel {
    EntryModel { fails: Seq::empty(), locked_until: None }
}

/// The failures of `fails` still within the window at `now`.
pub open spec fn recent(fails: Seq<u64>, now: u64) -> Seq<u64>
    decreases fails.len(),
{
    if fails.len() == 0 {
        fails
    } else if (if now >= fails.last() {
        now - fails.last()
    } else {
        0
    }) < LOGIN_WINDOW_MS {
        recent(fails.drop_last(), now).push(fails.last())
    } else {
        recent(fails.drop_last(), now)
    }
}

/// An entry with an expired block lifted and old failures forgotten.
pub open spec fn cleaned(e: EntryModel, now: u64) -> EntryModel {
    EntryModel {
        fails: recent(e.fails, now),
        locked_until: match e.locked_until {
            Some(u) => if u <= now {
                None
            } else {
                Some(u)
            },
            None => None,
        },
    }
}

/// An entry after a failure at `now`: with the failure counted, a key that
/// reaches `LOGIN_MAX_FAILS` is blocked for the lockout and its count
/// starts again.
pub open spec fn failed(e: EntryModel, now: u64) -> EntryModel {
    let c = cleaned(e, now);
    let fails = c.fails.push(now);
    if fails.len() >= LOGIN_MAX_FAILS {
        EntryModel { fails: Seq::empty(), locked_until: Some((now + LOGIN_LOCKOUT_MS) as u64) }
    } else {
        EntryModel { fails, locked_until: c.locked_until }
    }
}

pub open spec fn blocked_in(e: EntryModel, now: u64) -> bool {
    match cleaned(e, now).locked_until {
        Some(u) => u > now,
        None => false,
    }
}

/// The limiter's entries by key.
pub open spec fn entries_map(s: Seq<(String, LoginEntry)>) -> Map<Seq<char>, EntryModel>
    decreases s.len(),
{
    if s.len() == 0 {
        Map::empty()
    } else {
        entries_map(s.drop_last()).insert(s.last().0@, entry_model(s.last().1))
    }
}

pub open spec fn keys_distinct(s: Seq<(String, LoginEntry)>) -> bool {
    forall|i: int, j: int| 0 <= i < j < s.len() ==> s[i].0@ != s[j].0@
}

pub open spec fn entry_of(m: Map<Seq<char>, EntryModel>, k: Seq<char>) -> EntryModel {
    if m.contains_key(k) {
        m[k]
    } else {
        empty_entry()
    }
}

/// Failed sign-ins per key (see `LoginLimiter::key`), and the keys blocked
/// for too many of them.
pub struct LoginLimiter {
    entries: Vec<(String, LoginEntry)>,
}

proof fn lemma_entries_map_has(s: Seq<(String, LoginEntry)>, i: int)
    requires
        keys_distinct(s),
        0 <= i < s.len(),
    ensures
        entries_map(s).contains_key(s[i].0@),
        entries_map(s)[s[i].0@] == entry_model(s[i].1),
    decreases s.len(),
{
    if i < s.len() - 1 {
        lemma_entries_map_has(s.drop_last(), i);
    }
}

proof fn lemma_entries_map_lacks(s: Seq<(String, LoginEntry)>, k: Seq<char>)
    requires
        forall|i: int| 0 <= i < s.len() ==> s[i].0@ != k,
    ensures
        !entries_map(s).contains_key(k),
    decreases s.len(),
{
    if s.len() > 0 {
        lemma_entries_map_lacks(s.drop_last(), k);
    }
}

proof fn lemma_entries_map_update(s: Seq<(String, LoginEntry)>, i: int, x: (String, LoginEntry))
    requires
        keys_distinct(s),
        0 <= i < s.len(),
        x.0@ == s[i].0@,
    ensures
        entries_map(s.update(i, x)) == entries_map(s).insert(x.0@, entry_model(x.1)),
        keys_distinct(s.update(i, x)),
    decreases s.len(),
{
    let t = s.update(i, x);
    if i == s.len() - 1 {
        assert(t.drop_last() =~= s.drop_last());
        assert(entries_map(t) =~= entries_map(s).insert(x.0@, entry_model(x.1)));
    } else {
        assert(t.drop_last() =~= s.drop_last().update(i, x));
        lemma_entries_map_update(s.drop_last(), i, x);
        assert(s.last().0@ != x.0@);
        assert(entries_map(t) =~= entries_map(s).insert(x.0@, entry_model(x.1)));
    }
}

proof fn lemma_entries_map_remove(s: Seq<(String, LoginEntry)>, i: int)
    requires
        keys_distinct(s),
        0 <= i < s.len(),
    ensures
        entries_map(s.remove(i)) == entries_map(s).remove(s[i].0@),
        keys_distinct(s.remove(i)),
    decreases s.len(),
{
    let k = s[i].0@;
    let t = s.remove(i);
    if i == s.len() - 1 {
        assert(t =~= s.drop_last());
        assert forall|j: int| 0 <= j < s.drop_last().len() implies s.drop_last()[j].0@ != k by {
            assert(s[j].0@ != s[i].0@);
        }
        lemma_entries_map_lacks(s.drop_last(), k);
        assert(entries_map(t) =~= entries_map(s).remove(k));
    } else {
        assert(t.drop_last() =~= s.drop_last().remove(i));
        assert(t.last() == s.last());
        lemma_entries_map_remove(s.drop_last(), i);
        assert(s.last().0@ != k);
        assert(entries_map(t) =~= entries_map(s).remove(k));
    }
}

fn recent_exec(fails: &Vec<u64>, now: u64) -> (r: Vec<u64>)
    ensures
        r@ == recent(fails@, now),
{
    let mut r: Vec<u64> = Vec::new();
    let mut i: usize = 0;
    assert(fails@.take(0) =~= Seq::<u64>::empty());
    while i < fails.len()
        invariant
            0 <= i <= fails.len(),
            r@ == recent(fails@.take(i as int), now),
        decreases fails.len() - i,
    {
        assert(fails@.take(i + 1).drop_last() =~= fails@.take(i as int));
        let t = fails[i];
        let age = if now >= t {
            now - t
        } else {
            0
        };
        if age < LOGIN_WINDOW_MS {
            r.push(t);
        }
        i = i + 1;
    }
    assert(fails@.take(fails@.len() as int) =~= fails@);
    r
}

fn clean_entry(e: &LoginEntry, now: u64) -> (r: LoginEntry)
    ensures
        entry_model(r) == cleaned(entry_model(*e), now),
{
    let locked_until = match e.locked_until {
        Some(u) => if u <= now {
            None
        } else {
            Some(u)
        },
        None => None,
    };
    LoginEntry { fails: recent_exec(&e.fails, now), locked_until }
}

impl LoginLimiter {
    pub closed spec fn view(&self) -> Map<Seq<char>, EntryModel> {
        entries_map(self.entries@)
    }

    pub closed spec fn wf(&self) -> bool {
        keys_distinct(self.entries@)
    }

    pub fn new() -> (r: Self)
        ensures
            r.wf(),
            r.view() == Map::<Seq<char>, EntryModel>::empty(),
    {
        LoginLimiter { entries: Vec::new() }
    }

    /// The key a sign-in is counted against: the client, a NUL, and the
    /// user name trimmed and in ASCII lower case.
    pub fn key(client: &str, username: &str) -> (r: String)
        ensures
            r@ == client@ + seq!['\0'] + lower_seq(trim(username@)),
    {
        let user = lower_vec(&trimmed(username));
        let mut out = string_of(client);
        push_char(&mut out, '\0');
        push_str(&mut out, string_from_chars(&user).as_str());
        out
    }

    fn find(&self, key: &str) -> (r: Option<usize>)
        requires
            self.wf(),
        ensures
            match r {
                Some(i) => i < self.entries@.len() && self.entries@[i as int].0@ == key@
                    && self.view().contains_key(key@) && self.view()[key@] == entry_model(
                    self.entries@[i as int].1,
                ),
                None => !self.view().contains_key(key@),
            },
    {
        let mut i: usize = 0;
        while i < self.entries.len()
            invariant
                0 <= i <= self.entries@.len(),
                self.wf(),
                forall|j: int| 0 <= j < i ==> self.entries@[j].0@ != key@,
            decreases self.entries.len() - i,
        {
            if str_eq(self.entries[i].0.as_str(), key) {
                proof {
                    lemma_entries_map_has(self.entries@, i as int);
                }
                return Some(i);
            }
            i = i + 1;
        }
        proof {
            lemma_entries_map_lacks(self.entries@, key@);
        }
        None
    }

    fn store(&mut self, key: &str, e: LoginEntry)
        requires
            old(self).wf(),
        ensures
            final(self).wf(),
            final(self).view() == old(self).view().insert(key@, entry_model(e)),
    {
        match self.find(key) {
            Some(i) => {
                let ghost s = self.entries@;
                let x = (string_of(key), e);
                proof {
                    lemma_entries_map_update(s, i as int, x);
                }
                self.entries.set(i, x);
            },
            None => {
                let ghost s = self.entries@;
                let x = (string_of(key), e);
                self.entries.push(x);
                proof {
                    assert(self.entries@.drop_last() =~= s);
                    assert forall|a: int, b: int|
                        0 <= a < b < self.entries@.len() implies self.entries@[a].0@
                        != self.entries@[b].0@ by {
                        if b == s.len() {
                            lemma_entries_map_has(s, a);
                        }
                    }
                }
            },
        }
    }

    fn entry(&self, key: &str) -> (r: LoginEntry)
        requires
            self.wf(),
        ensures
            entry_model(r) == entry_of(self.view(), key@),
    {
        match self.find(key) {
            Some(i) => {
                let src = &self.entries[i].1;
                let mut fails: Vec<u64> = Vec::new();
                let mut j: usize = 0;
                while j < src.fails.len()
                    invariant
                        0 <= j <= src.fails@.len(),
                        fails@ == src.fails@.take(j as int),
                    decreases src.fails.len() - j,
                {
                    fails.push(src.fails[j]);
                    j = j + 1;
                    assert(fails@ =~= src.fails@.take(j as int));
                }
                assert(src.fails@.take(src.fails@.len() as int) =~= src.fails@);
                LoginEntry { fails, locked_until: src.locked_until }
            },
            None => {
                let e = LoginEntry { fails: Vec::new(), locked_until: None };
                assert(entry_model(e) =~= empty_entry());
                e
            },
        }
    }

    /// Whether `key` is blocked at `now`. The key's entry is cleaned (an
    /// expired block lifted, old failures forgotten) and kept.
    pub fn is_blocked(&mut self, key: &str, now: u64) -> (r: bool)
        requires
            old(self).wf(),
        ensures
            final(self).wf(),
            r == blocked_in(entry_of(old(self).view(), key@), now),
            final(self).view() == old(self).view().insert(
                key@,
                cleaned(entry_of(old(self).view(), key@), now),
            ),
    {
        let e = clean_entry(&self.entry(key), now);
        let r = match e.locked_until {
            Some(u) => u > now,
            None => false,
        };
        self.store(key, e);
        r
    }

    /// Counts a failed sign-in for `key` at `now` (see `failed`).
    pub fn record_failure(&mut self, key: &str, now: u64)
        requires
            old(self).wf(),
            now <= u64::MAX - LOGIN_LOCKOUT_MS,
        ensures
            final(self).wf(),
            final(self).view() == old(self).view().insert(
                key@,
                failed(entry_of(old(self).view(), key@), now),
            ),
    {
        let mut e = clean_entry(&self.entry(key), now);
        e.fails.push(now);
        if e.fails.len() >= LOGIN_MAX_FAILS {
            e.locked_until = Some(now + LOGIN_LOCKOUT_MS);
            e.fails.clear();
        }
        assert(entry_model(e) =~= failed(entry_of(self.view(), key@), now));
        self.store(key, e);
    }

    /// Forgets everything counted against `key`.
    pub fn clear(&mut self, key: &str)
        requires
            old(self).wf(),
        ensures
            final(self).wf(),
            final(self).view() == old(self).view().remove(key@),
    {
        match self.find(key) {
            Some(i) => {
                let ghost s = self.entries@;
                proof {
                    lemma_entries_map_remove(s, i as int);
                }
                self.entries.remove(i);
            },
            None => {
                assert(self.view() =~= self.view().remove(key@));
            },
        }
    }
}


/// A key's entry after failures at each of `times`, in order.
pub open spec fn after_failures(e: EntryModel, times: Seq<u64>) -> EntryModel
    decreases times.len(),
{
    if times.len() == 0 {
        e
    } else {
        failed(after_failures(e, times.drop_last()), times.last())
    }
}

proof fn lemma_recent_keeps_all(fails: Seq<u64>, now: u64)
    requires
        forall|i: int| 0 <= i < fails.len() ==> fails[i] <= now && now - fails[i] < LOGIN_WINDOW_MS,
    ensures
        recent(fails, now) == fails,
    decreases fails.len(),
{
    if fails.len() > 0 {
        lemma_recent_keeps_all(fails.drop_last(), now);
        assert(fails.drop_last().push(fails.last()) =~= fails);
    }
}

/// Eight failed sign-ins for a key that had none, each at or after the one
/// before and all within the window, block it from the eighth on for the
/// whole lockout.
pub proof fn law_eight_failures_block(times: Seq<u64>, later: u64)
    requires
        times.len() == LOGIN_MAX_FAILS,
        forall|i: int, j: int| 0 <= i <= j < times.len() ==> times[i] <= times[j],
        times[7] - times[0] < LOGIN_WINDOW_MS,
        times[7] <= u64::MAX - LOGIN_LOCKOUT_MS,
        times[7] <= later < times[7] + LOGIN_LOCKOUT_MS,
    ensures
        blocked_in(after_failures(empty_entry(), times), later),
{
    lemma_first_failures_count(times, 7);
    let e7 = after_failures(empty_entry(), times.take(7));
    assert(times.take(8).drop_last() =~= times.take(7));
    assert(times.take(8) =~= times);
    assert forall|i: int| 0 <= i < e7.fails.len() implies e7.fails[i] <= times[7] && times[7]
        - e7.fails[i] < LOGIN_WINDOW_MS by {
        assert(e7.fails[i] == times[i]);
    }
    lemma_recent_keeps_all(e7.fails, times[7]);
}

proof fn lemma_first_failures_count(times: Seq<u64>, n: int)
    requires
        times.len() == LOGIN_MAX_FAILS,
        forall|i: int, j: int| 0 <= i <= j < times.len() ==> times[i] <= times[j],
        times[7] - times[0] < LOGIN_WINDOW_MS,
        0 <= n < 8,
    ensures
        ({
            let e = after_failures(empty_entry(), times.take(n));
            e.fails == times.take(n) && e.locked_until is None
        }),
    decreases n,
{
    if n == 0 {
        assert(times.take(0) =~= Seq::<u64>::empty());
    } else {
        lemma_first_failures_count(times, n - 1);
        let prev = after_failures(empty_entry(), times.take(n - 1));
        assert(times.take(n).drop_last() =~= times.take(n - 1));
        assert(times.take(n).last() == times[n - 1]);
        assert forall|i: int| 0 <= i < prev.fails.len() implies prev.fails[i] <= times[n - 1]
            && times[n - 1] - prev.fails[i] < LOGIN_WINDOW_MS by {
            assert(prev.fails[i] == times[i]);
        }
        lemma_recent_keeps_all(prev.fails, times[n - 1]);
        assert(prev.fails.push(times[n - 1]) =~= times.take(n));
    }
}

/// A cleared key is not blocked, whatever the time.
pub proof fn law_clear_unblocks(m: Map<Seq<char>, EntryModel>, key: Seq<char>, now: u64)
    ensures
        !blocked_in(entry_of(m.remove(key), key), now),
{
}

/// What one key's sign-ins do leaves every other key's entry as it was.
pub proof fn law_keys_independent(
    m: Map<Seq<char>, EntryModel>,
    key: Seq<char>,
    other: Seq<char>,
    e: EntryModel,
)
    requires
        key != other,
    ensures
        entry_of(m.insert(key, e), other) == entry_of(m, other),
        entry_of(m.remove(key), other) == entry_of(m, other),
{
}

proof fn lemma_recent_len(fails: Seq<u64>, now: u64)
    ensures
        recent(fails, now).len() <= fails.len(),
    decreases fails.len(),
{
    if fails.len() > 0 {
        lemma_recent_len(fails.drop_last(), now);
    }
}

proof fn lemma_few_failures(times: Seq<u64>)
    requires
        times.len() < LOGIN_MAX_FAILS,
    ensures
        after_failures(empty_entry(), times).locked_until is None,
        after_failures(empty_entry(), times).fails.len() <= times.len(),
    decreases times.len(),
{
    if times.len() > 0 {
        lemma_few_failures(times.drop_last());
        let prev = after_failures(empty_entry(), times.drop_last());
        lemma_recent_len(prev.fails, times.last());
    }
}

/// Fewer than eight failed sign-ins for a key that had none never block
/// it, whenever they came and whenever it is asked.
pub proof fn law_seven_failures_do_not_block(times: Seq<u64>, later: u64)
    requires
        times.len() < LOGIN_MAX_FAILS,
    ensures
        !blocked_in(after_failures(empty_entry(), times), later),
{
    lemma_few_failures(times);
}

/// A failure at `now` counts with those of the key in the last window: where
/// they reach eight, the key is blocked until the lockout has passed and its
/// count starts again; else the failure is added to them and a block that
/// has not yet run out stays.
pub proof fn law_failure_outcome(e: EntryModel, now: u64, later: u64)
    requires
        now <= u64::MAX - LOGIN_LOCKOUT_MS,
    ensures
        ({
            let counted = recent(e.fails, now).push(now);
            let r = failed(e, now);
            &&& counted.len() >= LOGIN_MAX_FAILS ==> {
                &&& r.fails.len() == 0
                &&& r.locked_until == Some((now + LOGIN_LOCKOUT_MS) as u64)
                &&& (now <= later < now + LOGIN_LOCKOUT_MS ==> blocked_in(r, later))
                &&& (later >= now + LOGIN_LOCKOUT_MS ==> !blocked_in(r, later))
            }
            &&& counted.len() < LOGIN_MAX_FAILS ==> {
                &&& r.fails == counted
                &&& r.locked_until == cleaned(e, now).locked_until
                &&& (blocked_in(r, now) <==> blocked_in(e, now))
            }
        }),
{
}

/// The limiter's entries after `record_failure(key, t)` for each `t` of
/// `times` in turn (each call's contract gives one step).
pub open spec fn record_all(m: Map<Seq<char>, EntryModel>, key: Seq<char>, times: Seq<u64>) -> Map<
    Seq<char>,
    EntryModel,
>
    decreases times.len(),
{
    if times.len() == 0 {
        m
    } else {
        let prev = record_all(m, key, times.drop_last());
        prev.insert(key, failed(entry_of(prev, key), times.last()))
    }
}

proof fn lemma_record_all(m: Map<Seq<char>, EntryModel>, key: Seq<char>, times: Seq<u64>, other: Seq<char>)
    requires
        other != key,
    ensures
        entry_of(record_all(m, key, times), key) == after_failures(entry_of(m, key), times),
        entry_of(record_all(m, key, times), other) == entry_of(m, other),
    decreases times.len(),
{
    if times.len() > 0 {
        lemma_record_all(m, key, times.drop_last(), other);
    }
}

/// Eight failed sign-ins for a key with nothing counted against it (a new
/// limiter, or right after `clear`), each at or after the one before and
/// all within the window, block it from the eighth until the lockout has
/// passed; seven never do; and no other key's entry changes.
pub proof fn law_limiter_calls(
    m: Map<Seq<char>, EntryModel>,
    key: Seq<char>,
    times: Seq<u64>,
    later: u64,
    other: Seq<char>,
)
    requires
        entry_of(m, key) == empty_entry(),
        other != key,
    ensures
        times.len() < LOGIN_MAX_FAILS ==> !blocked_in(entry_of(record_all(m, key, times), key), later),
        times.len() == LOGIN_MAX_FAILS && (forall|i: int, j: int|
            0 <= i <= j < times.len() ==> times[i] <= times[j]) && times[7] - times[0] < LOGIN_WINDOW_MS
            && times[7] <= u64::MAX - LOGIN_LOCKOUT_MS && times[7] <= later < times[7] + LOGIN_LOCKOUT_MS
            ==> blocked_in(entry_of(record_all(m, key, times), key), later),
        entry_of(record_all(m, key, times), other) == entry_of(m, other),
{
    lemma_record_all(m, key, times, other);
    if times.len() < LOGIN_MAX_FAILS {
        law_seven_failures_do_not_block(times, later);
    }
    if times.len() == LOGIN_MAX_FAILS && (forall|i: int, j: int|
        0 <= i <= j < times.len() ==> times[i] <= times[j]) && times[7] - times[0] < LOGIN_WINDOW_MS
        && times[7] <= u64::MAX - LOGIN_LOCKOUT_MS && times[7] <= later < times[7] + LOGIN_LOCKOUT_MS {
        law_eight_failures_block(times, later);
    }
}

} // verus!
