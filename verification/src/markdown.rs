//! The parts of Markdown rendering that are this site's own rules: which
//! relative links survive cleaning, how a title becomes a slug, how
//! heading anchors are kept unique, the plain text of a heading, and where
//! tables get their scrolling wrapper.
use vstd::prelude::*;

use crate::text::{
    ascii_lower, char_ascii_lower, char_is_alphanumeric, char_is_ascii_alnum, chars_of,
    has_char, is_ascii_alnum, nat_dec, new_string, push_char, push_str, push_usize, squash,
    squash_vec, starts, starts_with, str_eq, string_from_chars, string_of, trim, trimmed,
    unicode_alphanumeric,
};
use crate::timefmt::trim_end_char;
use crate::upload::{
    sanitize_asset_url, sanitize_asset_url_spec, MEDIA_URL_PREFIX, POSTS_URL_PREFIX,
    SITE_URL_PREFIX,
};

verus! {

/// A heading listed in a post's table of contents: its level (2 or 3), its
/// anchor and its text.
#[derive(Debug, Clone)]
pub struct TocItem {
    pub level: u8,
    pub id: String,
    pub text: String,
}

// ---------------------------------------------------------------------------
// Relative links
// ---------------------------------------------------------------------------

/// What becomes of a relative link in rendered content: fragments and
/// site-absolute paths stay; links into the upload folders stay only when
/// they name a safe file; protocol-relative links, links with a NUL or a
/// backslash, and everything else relative are dropped.
pub open spec fn content_relative(url: Seq<char>) -> Option<Seq<char>> {
    let u = trim(url);
    if u.len() == 0 || has_char(u, '\0') || has_char(u, '\\') {
        None
    } else if starts(u, "#"@) {
        Some(u)
    } else if starts(u, "//"@) {
        None
    } else if starts(u, "/"@) {
        if starts(u, MEDIA_URL_PREFIX@) {
            upload_link(u, MEDIA_URL_PREFIX@)
        } else if starts(u, POSTS_URL_PREFIX@) {
            upload_link(u, POSTS_URL_PREFIX@)
        } else if starts(u, SITE_URL_PREFIX@) {
            upload_link(u, SITE_URL_PREFIX@)
        } else {
            Some(u)
        }
    } else {
        None
    }
}

pub open spec fn upload_link(u: Seq<char>, prefix: Seq<char>) -> Option<Seq<char>> {
    let safe = sanitize_asset_url_spec(u, prefix);
    if safe.len() == 0 {
        None
    } else {
        Some(safe)
    }
}

fn upload_link_exec(u: &str, prefix: &str) -> (r: Option<String>)
    ensures
        match r {
            Some(s) => upload_link(u@, prefix@) == Some(s@),
            None => upload_link(u@, prefix@) is None,
        },
{
    let safe = sanitize_asset_url(u, prefix);
    if chars_of(safe.as_str()).len() == 0 {
        None
    } else {
        Some(safe)
    }
}

/// The relative-link rule the HTML cleaner applies to rendered content.
pub fn allow_content_relative(url: &str) -> (r: Option<String>)
    ensures
        match r {
            Some(s) => content_relative(url@) == Some(s@),
            None => content_relative(url@) is None,
        },
{
    let v = trimmed(url);
    let u = string_from_chars(&v);
    if v.len() == 0 || crate::text::contains_char(&v, '\0') || crate::text::contains_char(&v, '\\') {
        return None;
    }
    proof {
        reveal_strlit("#");
        reveal_strlit("//");
        reveal_strlit("/");
    }
    if starts_with(&v, "#") {
        return Some(u);
    }
    if starts_with(&v, "//") {
        return None;
    }
    if starts_with(&v, "/") {
        if starts_with(&v, MEDIA_URL_PREFIX) {
            return upload_link_exec(u.as_str(), MEDIA_URL_PREFIX);
        }
        if starts_with(&v, POSTS_URL_PREFIX) {
            return upload_link_exec(u.as_str(), POSTS_URL_PREFIX);
        }
        if starts_with(&v, SITE_URL_PREFIX) {
            return upload_link_exec(u.as_str(), SITE_URL_PREFIX);
        }
        return Some(u);
    }
    None
}


// ---------------------------------------------------------------------------
// Slugs
// ---------------------------------------------------------------------------

pub open spec fn is_lower_hex(c: char) -> bool {
    ('0' <= c && c <= '9') || ('a' <= c && c <= 'f')
}

/// The text form of a UUID: 36 characters, hyphens at 8, 13, 18 and 23,
/// lower-case hexadecimal digits elsewhere.
pub open spec fn uuid_shape(s: Seq<char>) -> bool {
    &&& s.len() == 36
    &&& forall|i: int|
        0 <= i < 36 ==> if i == 8 || i == 13 || i == 18 || i == 23 {
            s[i] == '-'
        } else {
            is_lower_hex(#[trigger] s[i])
        }
}

/// `uuid::Uuid::new_v4()` in its `Display` form. The value is random; what
/// holds of every outcome is the hyphenated lower-case shape that the
/// crate's `Display` writes.
#[verifier::external_body]
pub(crate) fn new_uuid_text() -> (r: String)
    ensures
        uuid_shape(r@),
{
    uuid::Uuid::new_v4().to_string()
}

/// The slug built so far from the characters of `s`, and whether the last
/// thing written was a dash: ASCII letters and digits go in lower case,
/// other letters and digits as they are, and a run of anything else becomes
/// one dash (never at the start).
pub open spec fn slug_scan(s: Seq<char>) -> (Seq<char>, bool)
    decreases s.len(),
{
    if s.len() == 0 {
        (Seq::empty(), false)
    } else {
        let (o, dash) = slug_scan(s.drop_last());
        let c = s.last();
        if is_ascii_alnum(c) {
            (o.push(ascii_lower(c)), false)
        } else if unicode_alphanumeric(c) {
            (o.push(c), false)
        } else if !dash && o.len() > 0 {
            (o.push('-'), true)
        } else {
            (o, dash)
        }
    }
}

/// The slug of a text, trailing dashes removed; it may be empty.
pub open spec fn slug_core(s: Seq<char>) -> Seq<char> {
    trim_end_char(slug_scan(s).0, '-')
}

/// A URL slug for a title. Where the title leaves nothing, the slug is
/// `post-` and eight random hexadecimal digits.
pub fn slugify(input: &str) -> (r: String)
    ensures
        slug_core(input@).len() > 0 ==> r@ == slug_core(input@),
        slug_core(input@).len() == 0 ==> r@.len() == 13 && r@.take(5) == "post-"@ && forall|i: int|
            5 <= i < 13 ==> is_lower_hex(#[trigger] r@[i]),
{
    let v = chars_of(input);
    let mut out: Vec<char> = Vec::new();
    let mut dash = false;
    let mut i: usize = 0;
    assert(v@.take(0) =~= Seq::<char>::empty());
    while i < v.len()
        invariant
            0 <= i <= v.len(),
            v@ == input@,
            slug_scan(v@.take(i as int)) == (out@, dash),
        decreases v.len() - i,
    {
        let c = v[i];
        assert(v@.take(i + 1).drop_last() =~= v@.take(i as int));
        assert(v@.take(i + 1).last() == c);
        if char_is_ascii_alnum(c) {
            out.push(char_ascii_lower(c));
            dash = false;
        } else if char_is_alphanumeric(c) {
            out.push(c);
            dash = false;
        } else if !dash && out.len() > 0 {
            out.push('-');
            dash = true;
        }
        i = i + 1;
    }
    assert(v@.take(v@.len() as int) =~= v@);
    let core = crate::timefmt::trim_end_char_vec(&out, '-');
    if core.len() > 0 {
        return string_from_chars(&core);
    }
    let id = new_uuid_text();
    let idv = chars_of(id.as_str());
    let mut r = string_of("post-");
    let mut k: usize = 0;
    proof {
        reveal_strlit("post-");
    }
    while k < 8
        invariant
            0 <= k <= 8,
            uuid_shape(idv@),
            r@.len() == 5 + k,
            r@.take(5) == "post-"@,
            forall|m: int| 5 <= m < 5 + k ==> is_lower_hex(#[trigger] r@[m]),
        decreases 8 - k,
    {
        assert(is_lower_hex(idv@[k as int]));
        let ghost before = r@;
        push_char(&mut r, idv[k]);
        assert(r@.take(5) =~= before.take(5));
        assert(forall|m: int| 5 <= m < 5 + k ==> r@[m] == before[m]);
        k = k + 1;
    }
    r
}


/// The characters a slug is made of: the hyphen, lower-case ASCII letters
/// and digits, and other letters and digits that are not ASCII.
pub open spec fn slug_char(c: char) -> bool {
    c == '-' || (is_ascii_alnum(c) && !crate::text::is_ascii_upper(c)) || (!is_ascii_alnum(c)
        && unicode_alphanumeric(c))
}

/// A slug as the site makes them: slug characters, not ending in a hyphen,
/// and (the hyphen being punctuation) no hyphen first or twice in a row.
pub open spec fn slug_shaped(t: Seq<char>) -> bool {
    &&& forall|k: int| 0 <= k < t.len() ==> slug_char(#[trigger] t[k])
    &&& (t.len() > 0 ==> t.last() != '-')
    &&& forall|k: int|
        0 <= k < t.len() && #[trigger] t[k] == '-' && !unicode_alphanumeric('-') ==> k > 0 && t[k
            - 1] != '-'
}

proof fn lemma_ascii_lower_not_dash(c: char)
    requires
        is_ascii_alnum(c),
    ensures
        ascii_lower(c) != '-',
        is_ascii_alnum(ascii_lower(c)),
        !crate::text::is_ascii_upper(ascii_lower(c)),
{
    if crate::text::is_ascii_upper(c) {
        assert(65 <= c as u32 <= 90);
        let x = ((c as u32) + 32) as char;
        assert(x as u32 == (c as u32) + 32);
        assert('a' <= x <= 'z');
    }
}

proof fn lemma_scan_shape(s: Seq<char>)
    ensures
        forall|k: int| 0 <= k < slug_scan(s).0.len() ==> slug_char(#[trigger] slug_scan(s).0[k]),
        forall|k: int|
            0 <= k < slug_scan(s).0.len() && #[trigger] slug_scan(s).0[k] == '-'
                && !unicode_alphanumeric('-') ==> k > 0 && slug_scan(s).0[k - 1] != '-',
        slug_scan(s).1 ==> slug_scan(s).0.len() > 0 && slug_scan(s).0.last() == '-',
        slug_scan(s).0.len() > 0 && slug_scan(s).0.last() == '-' && !unicode_alphanumeric('-')
            ==> slug_scan(s).1,
    decreases s.len(),
{
    if s.len() > 0 {
        lemma_scan_shape(s.drop_last());
        let (o, dash) = slug_scan(s.drop_last());
        let c = s.last();
        let r = slug_scan(s).0;
        if is_ascii_alnum(c) {
            lemma_ascii_lower_not_dash(c);
            assert(r == o.push(ascii_lower(c)));
        } else if unicode_alphanumeric(c) {
            assert(r == o.push(c));
        } else if !dash && o.len() > 0 {
            assert(r == o.push('-'));
        }
        assert forall|k: int| 0 <= k < r.len() implies slug_char(#[trigger] r[k]) by {
            if k < o.len() {
                assert(r[k] == o[k]);
            }
        }
        assert forall|k: int|
            0 <= k < r.len() && #[trigger] r[k] == '-' && !unicode_alphanumeric('-') implies k > 0
                && r[k - 1] != '-' by {
            if k < o.len() {
                assert(r[k] == o[k]);
                if k > 0 {
                    assert(r[k - 1] == o[k - 1]);
                }
            } else if k > 0 {
                assert(r[k - 1] == o[k - 1]);
            }
        }
    }
}

proof fn lemma_trim_dash_shape(o: Seq<char>)
    requires
        forall|k: int| 0 <= k < o.len() ==> slug_char(#[trigger] o[k]),
        forall|k: int|
            0 <= k < o.len() && #[trigger] o[k] == '-' && !unicode_alphanumeric('-') ==> k > 0 && o[k
                - 1] != '-',
    ensures
        slug_shaped(trim_end_char(o, '-')),
    decreases o.len(),
{
    if o.len() > 0 && o.last() == '-' {
        let d = o.drop_last();
        assert forall|k: int| 0 <= k < d.len() implies slug_char(#[trigger] d[k]) by {
            assert(d[k] == o[k]);
        }
        assert forall|k: int|
            0 <= k < d.len() && #[trigger] d[k] == '-' && !unicode_alphanumeric('-') implies k > 0
                && d[k - 1] != '-' by {
            assert(d[k] == o[k]);
            if k > 0 {
                assert(d[k - 1] == o[k - 1]);
            }
        }
        lemma_trim_dash_shape(d);
    }
}

proof fn lemma_scan_shaped_prefix(t: Seq<char>, k: int)
    requires
        slug_shaped(t),
        0 <= k <= t.len(),
    ensures
        slug_scan(t.take(k)).0 == t.take(k),
        slug_scan(t.take(k)).1 ==> t[k - 1] == '-',
        k > 0 && t[k - 1] == '-' && !unicode_alphanumeric('-') ==> slug_scan(t.take(k)).1,
    decreases k,
{
    if k > 0 {
        lemma_scan_shaped_prefix(t, k - 1);
        assert(t.take(k).drop_last() =~= t.take(k - 1));
        let c = t[k - 1];
        assert(t.take(k).last() == c);
        assert(slug_char(c));
        if is_ascii_alnum(c) {
            assert(ascii_lower(c) == c);
            assert(t.take(k - 1).push(c) =~= t.take(k));
        } else if unicode_alphanumeric(c) {
            assert(t.take(k - 1).push(c) =~= t.take(k));
        } else {
            assert(c == '-');
            assert(k - 1 > 0);
            assert(t[k - 2] != '-');
            assert(t.take(k - 1).push('-') =~= t.take(k));
        }
    }
}

/// The slug a text gets is the slug of that slug: slugifying a slug the
/// site made gives it back.
pub proof fn law_slug_stable(s: Seq<char>)
    ensures
        slug_core(slug_core(s)) == slug_core(s),
{
    lemma_scan_shape(s);
    lemma_trim_dash_shape(slug_scan(s).0);
    let t = slug_core(s);
    lemma_scan_shaped_prefix(t, t.len() as int);
    assert(t.take(t.len() as int) =~= t);
    assert(slug_scan(t).0 == t);
}

// ---------------------------------------------------------------------------
// Heading anchors
// ---------------------------------------------------------------------------

pub open spec fn anchor_base(base: Seq<char>) -> Seq<char> {
    if base.len() == 0 {
        "section"@
    } else {
        base
    }
}

/// The `n`-th alternative to an anchor already taken.
pub open spec fn anchor_candidate(id: Seq<char>, n: nat) -> Seq<char> {
    id + "-"@ + nat_dec(n)
}

pub open spec fn names_of(v: Seq<String>) -> Seq<Seq<char>> {
    v.map_values(|s: String| s@)
}

/// The anchor `unique_id` gives `base` when `used` are taken: the base
/// itself where it is free, else the first free alternative from 2 on.
pub open spec fn anchor_choice(base: Seq<char>, used: Seq<Seq<char>>, r: Seq<char>) -> bool {
    let id = anchor_base(base);
    if !used.contains(id) {
        r == id
    } else {
        exists|n: nat|
            #![trigger anchor_candidate(id, n)]
            n >= 2 && r == anchor_candidate(id, n) && !used.contains(r) && forall|m: nat|
                2 <= m < n ==> used.contains(#[trigger] anchor_candidate(id, m))
    }
}

proof fn lemma_candidates_differ(id: Seq<char>, a: nat, b: nat)
    requires
        anchor_candidate(id, a) == anchor_candidate(id, b),
    ensures
        a == b,
{
    reveal_strlit("-");
    let k = id.len() as int + 1;
    assert(anchor_candidate(id, a).skip(k) =~= nat_dec(a));
    assert(anchor_candidate(id, b).skip(k) =~= nat_dec(b));
    crate::text::lemma_nat_dec_injective(a, b);
}

/// With every alternative from 2 to `used.len() + 2` taken, `used` would
/// hold more distinct names than it has entries.
proof fn lemma_some_candidate_free(id: Seq<char>, used: Seq<Seq<char>>)
    ensures
        exists|m: nat|
            2 <= m <= used.len() + 2 && !used.contains(#[trigger] anchor_candidate(id, m)),
{
    if forall|m: nat| 2 <= m <= used.len() + 2 ==> used.contains(#[trigger] anchor_candidate(id, m)) {
        lemma_all_candidates_taken(id, used);
    }
}

proof fn lemma_all_candidates_taken(id: Seq<char>, used: Seq<Seq<char>>)
    requires
        forall|m: nat| 2 <= m <= used.len() + 2 ==> used.contains(#[trigger] anchor_candidate(id, m)),
    ensures
        used.len() + 1 <= used.len(),
{
    let l = used.len();
    let p = Seq::new(
        (l + 1) as nat,
        |k: int| choose|j: int| 0 <= j < l && used[j] == anchor_candidate(id, (k + 2) as nat),
    );
    assert forall|k: int| 0 <= k < p.len() implies 0 <= #[trigger] p[k] < l && used[p[k]]
        == anchor_candidate(id, (k + 2) as nat) by {
        assert(used.contains(anchor_candidate(id, (k + 2) as nat)));
    }
    assert(p.no_duplicates()) by {
        assert forall|a: int, b: int| 0 <= a < p.len() && 0 <= b < p.len() && a != b implies p[a]
            != p[b] by {
            if p[a] == p[b] {
                assert(used[p[a]] == anchor_candidate(id, (a + 2) as nat));
                assert(used[p[b]] == anchor_candidate(id, (b + 2) as nat));
                lemma_candidates_differ(id, (a + 2) as nat, (b + 2) as nat);
            }
        }
    }
    crate::kb_tree::lemma_distinct_bound(p, l as int);
}

fn names_contain(used: &Vec<String>, name: &str) -> (r: bool)
    ensures
        r == names_of(used@).contains(name@),
{
    let mut i: usize = 0;
    while i < used.len()
        invariant
            0 <= i <= used.len(),
            forall|k: int| 0 <= k < i ==> used@[k]@ != name@,
        decreases used.len() - i,
    {
        if str_eq(used[i].as_str(), name) {
            assert(names_of(used@)[i as int] == name@);
            return true;
        }
        i = i + 1;
    }
    proof {
        if names_of(used@).contains(name@) {
            let k = choose|k: int| 0 <= k < names_of(used@).len() && names_of(used@)[k] == name@;
            assert(used@[k]@ == name@);
        }
    }
    false
}

/// A heading anchor not in `used`, which then records it.
pub fn unique_id(base: &str, used: &mut Vec<String>) -> (r: String)
    ensures
        anchor_choice(base@, names_of(old(used)@), r@),
        names_of(final(used)@) == names_of(old(used)@).push(r@),
{
    let ghost u = names_of(used@);
    let id = if chars_of(base).len() == 0 {
        string_of("section")
    } else {
        string_of(base)
    };
    if !names_contain(used, id.as_str()) {
        used.push(string_of(id.as_str()));
        assert(names_of(used@) =~= u.push(id@));
        return id;
    }
    let mut n: u128 = 2;
    loop
        invariant
            2 <= n <= used.len() + 2,
            u == names_of(used@),
            u == names_of(old(used)@),
            u.contains(id@),
            id@ == anchor_base(base@),
            forall|m: nat| 2 <= m < n ==> u.contains(#[trigger] anchor_candidate(id@, m)),
        decreases used.len() + 2 - n,
    {
        let mut cand = string_of(id.as_str());
        push_str(&mut cand, "-");
        crate::text::push_u128(&mut cand, n);
        assert(cand@ == anchor_candidate(id@, n as nat));
        if !names_contain(used, cand.as_str()) {
            used.push(string_of(cand.as_str()));
            assert(names_of(used@) =~= u.push(cand@));
            assert(anchor_choice(base@, u, cand@)) by {
                assert(anchor_candidate(id@, n as nat) == cand@);
            }
            return cand;
        }
        if n - 2 == used.len() as u128 {
            proof {
                lemma_some_candidate_free(id@, u);
                let m = choose|m: nat|
                    2 <= m <= u.len() + 2 && !u.contains(#[trigger] anchor_candidate(id@, m));
                assert(m < n || m == n);
            }
        }
        n = n + 1;
    }
}

} // verus!
