//! The public pages' own text rules: the RSS feed (XML escaping, RFC 822
//! dates, the items and the channel), the site's public origin, query
//! encoding, and how the post index reads its category filter.
use vstd::prelude::*;

use crate::models::post::{listed_date, Post};
use crate::text::{
    byte_prefix, chars_for_bytes, chars_of, digit_char, is_byte_prefix, lemma_byte_prefix_unique, new_string,
    push_char, push_str, string_of, subvec, string_from_chars, take_n, trim, url_encode,
    url_encode_str, utf8_len, utf8_len_of,
};

verus! {

// ---------------------------------------------------------------------------
// XML
// ---------------------------------------------------------------------------

pub open spec fn xml_char(c: char) -> Seq<char> {
    if c == '&' {
        "&amp;"@
    } else if c == '<' {
        "&lt;"@
    } else if c == '>' {
        "&gt;"@
    } else if c == '"' {
        "&quot;"@
    } else if c == '\'' {
        "&apos;"@
    } else {
        seq![c]
    }
}

/// Text made safe for XML content and attributes.
pub open spec fn xml_escaped(s: Seq<char>) -> Seq<char>
    decreases s.len(),
{
    if s.len() == 0 {
        Seq::empty()
    } else {
        xml_escaped(s.drop_last()) + xml_char(s.last())
    }
}

pub fn xml_escape(s: &str) -> (r: String)
    ensures
        r@ == xml_escaped(s@),
{
    let v = chars_of(s);
    let mut out = new_string();
    let mut i: usize = 0;
    assert(v@.take(0) =~= Seq::<char>::empty());
    while i < v.len()
        invariant
            0 <= i <= v.len(),
            v@ == s@,
            out@ == xml_escaped(v@.take(i as int)),
        decreases v.len() - i,
    {
        let c = v[i];
        assert(v@.take(i + 1).drop_last() =~= v@.take(i as int));
        if c == '&' {
            push_str(&mut out, "&amp;");
        } else if c == '<' {
            push_str(&mut out, "&lt;");
        } else if c == '>' {
            push_str(&mut out, "&gt;");
        } else if c == '"' {
            push_str(&mut out, "&quot;");
        } else if c == '\'' {
            push_str(&mut out, "&apos;");
        } else {
            let ghost before = out@;
            push_char(&mut out, c);
            assert(out@ =~= before + seq![c]);
        }
        i = i + 1;
    }
    assert(v@.take(v@.len() as int) =~= v@);
    out
}

// ---------------------------------------------------------------------------
// Dates
// ---------------------------------------------------------------------------

pub open spec fn month_name(m: Seq<char>) -> Seq<char> {
    if m == "01"@ {
        "Jan"@
    } else if m == "02"@ {
        "Feb"@
    } else if m == "03"@ {
        "Mar"@
    } else if m == "04"@ {
        "Apr"@
    } else if m == "05"@ {
        "May"@
    } else if m == "06"@ {
        "Jun"@
    } else if m == "07"@ {
        "Jul"@
    } else if m == "08"@ {
        "Aug"@
    } else if m == "09"@ {
        "Sep"@
    } else if m == "10"@ {
        "Oct"@
    } else if m == "11"@ {
        "Nov"@
    } else if m == "12"@ {
        "Dec"@
    } else {
        "Jan"@
    }
}

/// The month `k` written with two digits, as a stored date holds it.
pub open spec fn month_digits(k: int) -> Seq<char> {
    seq![digit_char((k / 10) as nat), digit_char((k % 10) as nat)]
}

/// The English abbreviations of the months, January first.
pub open spec fn english_months() -> Seq<Seq<char>> {
    seq![
        "Jan"@, "Feb"@, "Mar"@, "Apr"@, "May"@, "Jun"@,
        "Jul"@, "Aug"@, "Sep"@, "Oct"@, "Nov"@, "Dec"@,
    ]
}

/// The month of an RFC 822 date is the English abbreviation of the stored
/// month: month `k` of the year, written with two digits, is the `k`-th of
/// Jan, Feb, Mar, Apr, May, Jun, Jul, Aug, Sep, Oct, Nov, Dec.
pub proof fn law_month_abbreviation(k: int)
    requires
        1 <= k <= 12,
    ensures
        month_name(month_digits(k)) == english_months()[k - 1],
{
    reveal_strlit("Jan");
    reveal_strlit("Feb");
    reveal_strlit("Mar");
    reveal_strlit("Apr");
    reveal_strlit("May");
    reveal_strlit("Jun");
    reveal_strlit("Jul");
    reveal_strlit("Aug");
    reveal_strlit("Sep");
    reveal_strlit("Oct");
    reveal_strlit("Nov");
    reveal_strlit("Dec");
    reveal_strlit("01");
    reveal_strlit("02");
    reveal_strlit("03");
    reveal_strlit("04");
    reveal_strlit("05");
    reveal_strlit("06");
    reveal_strlit("07");
    reveal_strlit("08");
    reveal_strlit("09");
    reveal_strlit("10");
    reveal_strlit("11");
    reveal_strlit("12");
    let m = month_digits(k);
    if k == 1 {
        assert(m =~= "01"@);
    } else if k == 2 {
        assert(m =~= "02"@);
    } else if k == 3 {
        assert(m =~= "03"@);
    } else if k == 4 {
        assert(m =~= "04"@);
    } else if k == 5 {
        assert(m =~= "05"@);
    } else if k == 6 {
        assert(m =~= "06"@);
    } else if k == 7 {
        assert(m =~= "07"@);
    } else if k == 8 {
        assert(m =~= "08"@);
    } else if k == 9 {
        assert(m =~= "09"@);
    } else if k == 10 {
        assert(m =~= "10"@);
    } else if k == 11 {
        assert(m =~= "11"@);
    } else {
        assert(m =~= "12"@);
    }
}

/// Which month an abbreviation names, counting from one; zero for none.
spec fn month_rank(n: Seq<char>) -> int {
    if n[0] == 'J' && n[1] == 'a' && n[2] == 'n' {
        1
    } else if n[0] == 'F' && n[1] == 'e' && n[2] == 'b' {
        2
    } else if n[0] == 'M' && n[1] == 'a' && n[2] == 'r' {
        3
    } else if n[0] == 'A' && n[1] == 'p' && n[2] == 'r' {
        4
    } else if n[0] == 'M' && n[1] == 'a' && n[2] == 'y' {
        5
    } else if n[0] == 'J' && n[1] == 'u' && n[2] == 'n' {
        6
    } else if n[0] == 'J' && n[1] == 'u' && n[2] == 'l' {
        7
    } else if n[0] == 'A' && n[1] == 'u' && n[2] == 'g' {
        8
    } else if n[0] == 'S' && n[1] == 'e' && n[2] == 'p' {
        9
    } else if n[0] == 'O' && n[1] == 'c' && n[2] == 't' {
        10
    } else if n[0] == 'N' && n[1] == 'o' && n[2] == 'v' {
        11
    } else if n[0] == 'D' && n[1] == 'e' && n[2] == 'c' {
        12
    } else {
        0
    }
}

proof fn lemma_month_rank(k: int)
    requires
        1 <= k <= 12,
    ensures
        month_rank(english_months()[k - 1]) == k,
{
    reveal_strlit("Jan");
    reveal_strlit("Feb");
    reveal_strlit("Mar");
    reveal_strlit("Apr");
    reveal_strlit("May");
    reveal_strlit("Jun");
    reveal_strlit("Jul");
    reveal_strlit("Aug");
    reveal_strlit("Sep");
    reveal_strlit("Oct");
    reveal_strlit("Nov");
    reveal_strlit("Dec");
    if k == 1 {
        assert(english_months()[k - 1] == "Jan"@);
    } else if k == 2 {
        assert(english_months()[k - 1] == "Feb"@);
    } else if k == 3 {
        assert(english_months()[k - 1] == "Mar"@);
    } else if k == 4 {
        assert(english_months()[k - 1] == "Apr"@);
    } else if k == 5 {
        assert(english_months()[k - 1] == "May"@);
    } else if k == 6 {
        assert(english_months()[k - 1] == "Jun"@);
    } else if k == 7 {
        assert(english_months()[k - 1] == "Jul"@);
    } else if k == 8 {
        assert(english_months()[k - 1] == "Aug"@);
    } else if k == 9 {
        assert(english_months()[k - 1] == "Sep"@);
    } else if k == 10 {
        assert(english_months()[k - 1] == "Oct"@);
    } else if k == 11 {
        assert(english_months()[k - 1] == "Nov"@);
    } else {
        assert(english_months()[k - 1] == "Dec"@);
    }
}

/// Two different months never get the same abbreviation.
pub proof fn law_month_abbreviations_distinct(i: int, j: int)
    requires
        1 <= i < j <= 12,
    ensures
        month_name(month_digits(i)) != month_name(month_digits(j)),
{
    law_month_abbreviation(i);
    law_month_abbreviation(j);
    lemma_month_rank(i);
    lemma_month_rank(j);
}

/// The English abbreviation of a two-digit month; January for anything
/// else.
pub fn month_abbr(m: &str) -> (r: &'static str)
    ensures
        r@ == month_name(m@),
{
    if crate::text::str_eq(m, "01") {
        "Jan"
    } else if crate::text::str_eq(m, "02") {
        "Feb"
    } else if crate::text::str_eq(m, "03") {
        "Mar"
    } else if crate::text::str_eq(m, "04") {
        "Apr"
    } else if crate::text::str_eq(m, "05") {
        "May"
    } else if crate::text::str_eq(m, "06") {
        "Jun"
    } else if crate::text::str_eq(m, "07") {
        "Jul"
    } else if crate::text::str_eq(m, "08") {
        "Aug"
    } else if crate::text::str_eq(m, "09") {
        "Sep"
    } else if crate::text::str_eq(m, "10") {
        "Oct"
    } else if crate::text::str_eq(m, "11") {
        "Nov"
    } else if crate::text::str_eq(m, "12") {
        "Dec"
    } else {
        "Jan"
    }
}

pub open spec fn is_cut(s: Seq<char>, n: nat) -> bool {
    exists|k: int| is_byte_prefix(s, k, n)
}

/// The number of characters that take the first `n` bytes.
pub open spec fn byte_cut(s: Seq<char>, n: nat) -> int {
    choose|k: int| is_byte_prefix(s, k, n)
}

/// The date can be cut where the feed cuts it: shorter than ten bytes, or
/// with character boundaries at bytes 4, 5, 7, 8 and 10.
pub open spec fn rfc822_cuttable(raw: Seq<char>) -> bool {
    utf8_len(raw) >= 10 ==> is_cut(raw, 4) && is_cut(raw, 5) && is_cut(raw, 7) && is_cut(raw, 8)
        && is_cut(raw, 10)
}

/// A stored date as RFC 822: `DD Mon YYYY 00:00:00 +0000` from its bytes
/// 8–10, 5–7 and 0–4; shorter text as it is.
pub open spec fn rfc822_of(raw: Seq<char>) -> Seq<char> {
    if utf8_len(raw) >= 10 {
        let y = raw.subrange(0, byte_cut(raw, 4));
        let m = raw.subrange(byte_cut(raw, 5), byte_cut(raw, 7));
        let d = raw.subrange(byte_cut(raw, 8), byte_cut(raw, 10));
        d + " "@ + month_name(m) + " "@ + y + " 00:00:00 +0000"@
    } else {
        raw
    }
}

fn cut_at(v: &Vec<char>, n: usize) -> (k: usize)
    requires
        is_cut(v@, n as nat),
    ensures
        k as int == byte_cut(v@, n as nat),
        0 <= k <= v.len(),
{
    match chars_for_bytes(v, n) {
        Some(k) => {
            proof {
                let c = choose|j: int| is_byte_prefix(v@, j, n as nat);
                lemma_byte_prefix_unique(v@, c, k as int, n as nat);
            }
            k
        },
        None => {
            proof {
                let c = choose|j: int| is_byte_prefix(v@, j, n as nat);
                assert(is_byte_prefix(v@, c, n as nat));
            }
            0
        },
    }
}

fn cut_ok(v: &Vec<char>, n: usize) -> (r: bool)
    ensures
        r == is_cut(v@, n as nat),
{
    match chars_for_bytes(v, n) {
        Some(k) => {
            assert(is_byte_prefix(v@, k as int, n as nat));
            true
        },
        None => false,
    }
}

/// Whether `rfc822_date` can cut `raw`: shorter than ten bytes, or its
/// fourth, fifth, seventh, eighth and tenth bytes end characters.
pub fn rfc822_ok(raw: &str) -> (r: bool)
    ensures
        r == rfc822_cuttable(raw@),
{
    let v = chars_of(raw);
    if utf8_len_of(&v) < 10 {
        return true;
    }
    cut_ok(&v, 4) && cut_ok(&v, 5) && cut_ok(&v, 7) && cut_ok(&v, 8) && cut_ok(&v, 10)
}

pub fn rfc822_date(raw: &str) -> (r: String)
    requires
        rfc822_cuttable(raw@),
    ensures
        r@ == rfc822_of(raw@),
{
    let v = chars_of(raw);
    if utf8_len_of(&v) >= 10 {
        let k4 = cut_at(&v, 4);
        let k5 = cut_at(&v, 5);
        let k7 = cut_at(&v, 7);
        let k8 = cut_at(&v, 8);
        let k10 = cut_at(&v, 10);
        proof {
            if k5 > k7 {
                crate::text::lemma_utf8_len_take_mono(v@, k7 as int, k5 as int);
            }
            if k8 > k10 {
                crate::text::lemma_utf8_len_take_mono(v@, k10 as int, k8 as int);
            }
        }
        let y = string_from_chars(&subvec(&v, 0, k4));
        let m = string_from_chars(&subvec(&v, k5, k7));
        let d = string_from_chars(&subvec(&v, k8, k10));
        let mut out = string_of(d.as_str());
        push_str(&mut out, " ");
        push_str(&mut out, month_abbr(m.as_str()));
        push_str(&mut out, " ");
        push_str(&mut out, y.as_str());
        push_str(&mut out, " 00:00:00 +0000");
        out
    } else {
        string_of(raw)
    }
}

// ---------------------------------------------------------------------------
// Origin and query encoding
// ---------------------------------------------------------------------------

/// The origin links in the feed start with: the configured one; else the
/// request's host (`localhost` without one) over `http`, or over the
/// forwarded protocol where proxies are trusted.
pub open spec fn origin_of(
    configured: Option<Seq<char>>,
    host: Option<Seq<char>>,
    forwarded_proto: Option<Seq<char>>,
    trust_proxy: bool,
) -> Seq<char> {
    match configured {
        Some(o) => o,
        None => {
            let h = match host {
                Some(h) => h,
                None => "localhost"@,
            };
            let p = if trust_proxy {
                match forwarded_proto {
                    Some(p) => p,
                    None => "http"@,
                }
            } else {
                "http"@
            };
            p + "://"@ + h
        },
    }
}

pub fn public_origin(
    configured: Option<&str>,
    host: Option<&str>,
    forwarded_proto: Option<&str>,
    trust_proxy: bool,
) -> (r: String)
    ensures
        r@ == origin_of(
            match configured {
                Some(o) => Some(o@),
                None => None,
            },
            match host {
                Some(h) => Some(h@),
                None => None,
            },
            match forwarded_proto {
                Some(p) => Some(p@),
                None => None,
            },
            trust_proxy,
        ),
{
    if let Some(o) = configured {
        return string_of(o);
    }
    let h = match host {
        Some(h) => h,
        None => "localhost",
    };
    let p = if trust_proxy {
        match forwarded_proto {
            Some(p) => p,
            None => "http",
        }
    } else {
        "http"
    };
    let mut out = string_of(p);
    push_str(&mut out, "://");
    push_str(&mut out, h);
    out
}

/// A query value percent-encoded, spaces as `+`.
pub fn urlencoding_minimal(s: &str) -> (r: String)
    ensures
        r@ == url_encode(s@, true),
{
    url_encode_str(s, true)
}

// ---------------------------------------------------------------------------
// The feed
// ---------------------------------------------------------------------------

/// A post's item in the feed: its link, escaped title, summary (the title
/// where it has none) and RFC 822 date.
pub open spec fn rss_item_of(origin: Seq<char>, p: Post) -> Seq<char> {
    let link = origin + "/posts/"@ + p.slug@;
    let desc = if p.summary@.len() == 0 {
        p.title@
    } else {
        p.summary@
    };
    "<item><title>"@ + xml_escaped(p.title@) + "</title><link>"@ + link + "</link><guid>"@ + link
        + "</guid><description>"@ + xml_escaped(desc) + "</description><pubDate>"@ + rfc822_of(
        listed_date(p.published_at, p.created_at),
    ) + "</pubDate></item>"@
}

pub fn rss_item(origin: &str, p: &Post) -> (r: String)
    requires
        rfc822_cuttable(listed_date(p.published_at, p.created_at)),
    ensures
        r@ == rss_item_of(origin@, *p),
{
    let mut link = string_of(origin);
    push_str(&mut link, "/posts/");
    push_str(&mut link, p.slug.as_str());
    let desc = if chars_of(p.summary.as_str()).len() == 0 {
        p.title.as_str()
    } else {
        p.summary.as_str()
    };
    let date = match &p.published_at {
        Some(d) => d.as_str(),
        None => p.created_at.as_str(),
    };
    let mut out = string_of("<item><title>");
    push_str(&mut out, xml_escape(p.title.as_str()).as_str());
    push_str(&mut out, "</title><link>");
    push_str(&mut out, link.as_str());
    push_str(&mut out, "</link><guid>");
    push_str(&mut out, link.as_str());
    push_str(&mut out, "</guid><description>");
    push_str(&mut out, xml_escape(desc).as_str());
    push_str(&mut out, "</description><pubDate>");
    push_str(&mut out, rfc822_date(date).as_str());
    push_str(&mut out, "</pubDate></item>");
    out
}

pub open spec fn rss_items_of(origin: Seq<char>, posts: Seq<Post>) -> Seq<char>
    decreases posts.len(),
{
    if posts.len() == 0 {
        Seq::empty()
    } else {
        rss_items_of(origin, posts.drop_last()) + rss_item_of(origin, posts.last())
    }
}

/// The feed document: the channel's escaped title, its link, its escaped
/// description (the tagline, or the SEO description where there is none),
/// and the items of the posts in order.
pub open spec fn rss_of(
    site_title: Seq<char>,
    tagline: Seq<char>,
    seo_description: Seq<char>,
    origin: Seq<char>,
    posts: Seq<Post>,
) -> Seq<char> {
    let desc = if tagline.len() == 0 {
        seo_description
    } else {
        tagline
    };
    "<?xml version=\"1.0\" encoding=\"UTF-8\"?><rss version=\"2.0\"><channel><title>"@
        + xml_escaped(site_title) + "</title><link>"@ + origin + "/</link><description>"@
        + xml_escaped(desc) + "</description>"@ + rss_items_of(origin, posts)
        + "</channel></rss>"@
}

pub fn rss_document(
    site_title: &str,
    tagline: &str,
    seo_description: &str,
    origin: &str,
    posts: &Vec<Post>,
) -> (r: String)
    requires
        forall|i: int|
            0 <= i < posts.len() ==> rfc822_cuttable(
                listed_date(#[trigger] posts@[i].published_at, posts@[i].created_at),
            ),
    ensures
        r@ == rss_of(site_title@, tagline@, seo_description@, origin@, posts@),
{
    let mut items = new_string();
    let mut i: usize = 0;
    assert(posts@.take(0) =~= Seq::<Post>::empty());
    while i < posts.len()
        invariant
            0 <= i <= posts.len(),
            forall|k: int|
                0 <= k < posts.len() ==> rfc822_cuttable(
                    listed_date(#[trigger] posts@[k].published_at, posts@[k].created_at),
                ),
            items@ == rss_items_of(origin@, posts@.take(i as int)),
        decreases posts.len() - i,
    {
        assert(posts@.take(i + 1).drop_last() =~= posts@.take(i as int));
        let item = rss_item(origin, &posts[i]);
        push_str(&mut items, item.as_str());
        i = i + 1;
    }
    assert(posts@.take(posts@.len() as int) =~= posts@);
    let desc = if chars_of(tagline).len() == 0 {
        seo_description
    } else {
        tagline
    };
    let mut out = string_of(
        "<?xml version=\"1.0\" encoding=\"UTF-8\"?><rss version=\"2.0\"><channel><title>",
    );
    push_str(&mut out, xml_escape(site_title).as_str());
    push_str(&mut out, "</title><link>");
    push_str(&mut out, origin);
    push_str(&mut out, "/</link><description>");
    push_str(&mut out, xml_escape(desc).as_str());
    push_str(&mut out, "</description>");
    push_str(&mut out, items.as_str());
    push_str(&mut out, "</channel></rss>");
    out
}

// ---------------------------------------------------------------------------
// The post index
// ---------------------------------------------------------------------------

/// Which posts the index lists.
#[derive(Debug, Clone, PartialEq, Eq)]
pub enum PostsFilter {
    All,
    Uncategorized,
    Category(String),
}

/// The category filter of the post index: the `c` parameter trimmed and
/// cut to 80 characters.
pub open spec fn index_filter_text(c: Option<Seq<char>>) -> Seq<char> {
    match c {
        Some(t) => take_n(trim(t), 80),
        None => Seq::empty(),
    }
}

/// The index's base URL for a filter: `/posts`, or `/posts?c=` and the
/// encoded filter.
pub open spec fn index_base_url(f: Seq<char>) -> Seq<char> {
    if f.len() == 0 {
        "/posts"@
    } else {
        "/posts?c="@ + url_encode(f, true)
    }
}

/// Reads the index's `c` parameter: the filter text, the base URL of its
/// pages, and which posts it lists (`-` means those without a category).
pub fn posts_index_filter(c: Option<&str>) -> (r: (String, String, PostsFilter))
    ensures
        r.0@ == index_filter_text(match c {
            Some(t) => Some(t@),
            None => None,
        }),
        r.1@ == index_base_url(r.0@),
        r.0@.len() == 0 ==> r.2 == PostsFilter::All,
        r.0@ == "-"@ ==> r.2 == PostsFilter::Uncategorized,
        r.0@.len() > 0 && r.0@ != "-"@ ==> (r.2 matches PostsFilter::Category(s) && s@ == r.0@),
{
    let f = match c {
        Some(t) => crate::text::clamp_text(t, 80),
        None => new_string(),
    };
    let fv = chars_of(f.as_str());
    proof {
        reveal_strlit("-");
    }
    if fv.len() == 0 {
        return (f, string_of("/posts"), PostsFilter::All);
    }
    let mut base = string_of("/posts?c=");
    push_str(&mut base, urlencoding_minimal(f.as_str()).as_str());
    if crate::text::str_eq(f.as_str(), "-") {
        (f, base, PostsFilter::Uncategorized)
    } else {
        let s = string_of(f.as_str());
        (f, base, PostsFilter::Category(s))
    }
}

} // verus!
