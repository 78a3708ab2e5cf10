//! Site settings and the social links shown with the author's profile.
use vstd::prelude::*;

use crate::models::nav::NavItemConfig;
use crate::text::{
    chars_of, contains_char, contains_ws, is_ws, lower_seq, lower_vec, new_string, push_range,
    push_str, starts, starts_with, str_eq, string_from_chars, string_of, take_n, take_vec, trim,
    trim_vec, trimmed, utf8_len, utf8_len_of, vec_eq,
};
use crate::upload::{sanitize_brand_url, sanitize_brand_url_spec};

verus! {

#[derive(Debug, Clone)]
pub struct SocialLink {
    pub kind: String,
    pub label: String,
    pub url: String,
}

/// A social link as plain text.
pub struct SocialModel {
    pub kind: Seq<char>,
    pub label: Seq<char>,
    pub url: Seq<char>,
}

impl View for SocialLink {
    type V = SocialModel;

    open spec fn view(&self) -> SocialModel {
        SocialModel { kind: self.kind@, label: self.label@, url: self.url@ }
    }
}

pub open spec fn social_models(v: Seq<SocialLink>) -> Seq<SocialModel> {
    v.map_values(|x: SocialLink| x@)
}

/// How many kinds of social link there are.
pub const SOCIAL_KIND_COUNT: usize = 8;

/// How many social links a profile keeps.
pub const SOCIAL_MAX: usize = 12;

pub open spec fn social_kind(i: int) -> Seq<char> {
    if i == 0 {
        "github"@
    } else if i == 1 {
        "gitee"@
    } else if i == 2 {
        "site"@
    } else if i == 3 {
        "email"@
    } else if i == 4 {
        "twitter"@
    } else if i == 5 {
        "bilibili"@
    } else if i == 6 {
        "rss"@
    } else {
        "custom"@
    }
}

pub open spec fn social_kind_label(i: int) -> Seq<char> {
    if i == 0 {
        "GitHub"@
    } else if i == 1 {
        "Gitee"@
    } else if i == 2 {
        "个人站"@
    } else if i == 3 {
        "邮箱"@
    } else if i == 4 {
        "X / Twitter"@
    } else if i == 5 {
        "Bilibili"@
    } else if i == 6 {
        "RSS"@
    } else {
        "自定义"@
    }
}

fn social_kind_at(i: usize) -> (r: (&'static str, &'static str))
    requires
        i < SOCIAL_KIND_COUNT,
    ensures
        r.0@ == social_kind(i as int),
        r.1@ == social_kind_label(i as int),
{
    if i == 0 {
        ("github", "GitHub")
    } else if i == 1 {
        ("gitee", "Gitee")
    } else if i == 2 {
        ("site", "个人站")
    } else if i == 3 {
        ("email", "邮箱")
    } else if i == 4 {
        ("twitter", "X / Twitter")
    } else if i == 5 {
        ("bilibili", "Bilibili")
    } else if i == 6 {
        ("rss", "RSS")
    } else {
        ("custom", "自定义")
    }
}

pub open spec fn is_social_kind(kind: Seq<char>) -> bool {
    exists|i: int| 0 <= i < SOCIAL_KIND_COUNT && social_kind(i) == kind
}

/// The label of the first kind named `kind`, or `链接`.
pub open spec fn default_label_of(kind: Seq<char>) -> Seq<char> {
    if is_social_kind(kind) {
        social_kind_label(
            choose|i: int|
                0 <= i < SOCIAL_KIND_COUNT && social_kind(i) == kind && forall|j: int|
                    0 <= j < i ==> social_kind(j) != kind,
        )
    } else {
        "链接"@
    }
}

pub open spec fn normalize_kind_of(kind: Seq<char>) -> Seq<char> {
    let k = lower_seq(trim(kind));
    if is_social_kind(k) {
        k
    } else {
        "custom"@
    }
}

pub open spec fn no_ws(s: Seq<char>) -> bool {
    forall|k: int| 0 <= k < s.len() ==> !is_ws(#[trigger] s[k])
}

/// The link a social entry keeps, if any: scripts and data URLs are
/// refused; e-mail addresses get `mailto:`; bare host names get `https://`.
pub open spec fn social_url_of(raw: Seq<char>, kind: Seq<char>) -> Option<Seq<char>> {
    let url = trim(raw);
    let lower = lower_seq(url);
    if url.len() == 0 || utf8_len(url) > 500 {
        None
    } else if starts(lower, "javascript:"@) || starts(lower, "data:"@) || starts(
        lower,
        "vbscript:"@,
    ) {
        None
    } else if kind == "email"@ || starts(lower, "mailto:"@) {
        if starts(lower, "mailto:"@) {
            Some(url)
        } else if url.contains('@') && no_ws(url) {
            Some("mailto:"@ + url)
        } else {
            Some(url)
        }
    } else if starts(lower, "https://"@) || starts(lower, "http://"@) {
        Some(url)
    } else if starts(url, "/"@) && !starts(url, "//"@) {
        Some(url)
    } else if url.contains('.') && no_ws(url) {
        Some("https://"@ + url)
    } else {
        Some(url)
    }
}

/// A social entry as it is kept, if it is kept at all.
pub open spec fn social_entry(kind: Seq<char>, label: Seq<char>, url: Seq<char>) -> Option<
    SocialModel,
> {
    let k = normalize_kind_of(kind);
    match social_url_of(url, k) {
        Some(u) => {
            let l = take_n(trim(label), 40);
            Some(
                SocialModel {
                    kind: k,
                    label: if l.len() == 0 {
                        default_label_of(k)
                    } else {
                        l
                    },
                    url: u,
                },
            )
        },
        None => None,
    }
}

pub open spec fn icon_of(kind: Seq<char>) -> Seq<char> {
    if kind == "github"@ {
        "/static/icons/github.svg"@
    } else if kind == "gitee"@ {
        "/static/icons/gitee.svg"@
    } else if kind == "site"@ {
        "/static/icons/site.svg"@
    } else if kind == "email"@ {
        "/static/icons/email.svg"@
    } else if kind == "bilibili"@ {
        "/static/icons/bilibili.svg"@
    } else if kind == "rss"@ {
        "/static/icons/rss.svg"@
    } else {
        "/static/icons/web.svg"@
    }
}

impl SocialLink {
    pub fn default_label(kind: &str) -> (r: &'static str)
        ensures
            r@ == default_label_of(kind@),
    {
        let mut i: usize = 0;
        while i < SOCIAL_KIND_COUNT
            invariant
                0 <= i <= SOCIAL_KIND_COUNT,
                forall|j: int| 0 <= j < i ==> social_kind(j) != kind@,
            decreases SOCIAL_KIND_COUNT - i,
        {
            let (k, label) = social_kind_at(i);
            if str_eq(k, kind) {
                proof {
                    let c = choose|m: int|
                        0 <= m < SOCIAL_KIND_COUNT && social_kind(m) == kind@ && forall|j: int|
                            0 <= j < m ==> social_kind(j) != kind@;
                    assert(social_kind(i as int) == kind@);
                    if c < i {
                        assert(social_kind(c) != kind@);
                    }
                    if i < c {
                        assert(social_kind(i as int) != kind@);
                    }
                }
                return label;
            }
            i = i + 1;
        }
        "链接"
    }

    fn kind_known(k: &Vec<char>) -> (r: bool)
        ensures
            r == is_social_kind(k@),
    {
        let mut i: usize = 0;
        while i < SOCIAL_KIND_COUNT
            invariant
                0 <= i <= SOCIAL_KIND_COUNT,
                forall|j: int| 0 <= j < i ==> social_kind(j) != k@,
            decreases SOCIAL_KIND_COUNT - i,
        {
            let (name, _) = social_kind_at(i);
            if vec_eq(&chars_of(name), k) {
                return true;
            }
            i = i + 1;
        }
        false
    }

    pub fn normalize_kind(kind: &str) -> (r: String)
        ensures
            r@ == normalize_kind_of(kind@),
    {
        let k = lower_vec(&trimmed(kind));
        if Self::kind_known(&k) {
            string_from_chars(&k)
        } else {
            string_of("custom")
        }
    }

    pub fn sanitize_url(raw: &str, kind: &str) -> (r: Option<String>)
        ensures
            match r {
                Some(u) => social_url_of(raw@, kind@) == Some(u@),
                None => social_url_of(raw@, kind@) is None,
            },
    {
        let url = trimmed(raw);
        if url.len() == 0 || utf8_len_of(&url) > 500 {
            return None;
        }
        let lower = lower_vec(&url);
        if starts_with(&lower, "javascript:") || starts_with(&lower, "data:") || starts_with(
            &lower,
            "vbscript:",
        ) {
            return None;
        }
        let url_s = string_from_chars(&url);
        if str_eq(kind, "email") || starts_with(&lower, "mailto:") {
            if starts_with(&lower, "mailto:") {
                return Some(url_s);
            }
            if contains_char(&url, '@') && !contains_ws(&url) {
                let mut s = string_of("mailto:");
                push_str(&mut s, url_s.as_str());
                return Some(s);
            }
            return Some(url_s);
        }
        if starts_with(&lower, "https://") || starts_with(&lower, "http://") {
            return Some(url_s);
        }
        if starts_with(&url, "/") && !starts_with(&url, "//") {
            return Some(url_s);
        }
        if contains_char(&url, '.') && !contains_ws(&url) {
            let mut s = string_of("https://");
            push_str(&mut s, url_s.as_str());
            return Some(s);
        }
        Some(url_s)
    }

    /// A social entry as it is kept: kind normalised, URL sanitised (or the
    /// entry dropped), label trimmed to 40 characters or the kind's label.
    pub fn entry(kind: &str, label: &str, url: &str) -> (r: Option<SocialLink>)
        ensures
            match r {
                Some(x) => social_entry(kind@, label@, url@) == Some(x@),
                None => social_entry(kind@, label@, url@) is None,
            },
    {
        let k = Self::normalize_kind(kind);
        let u = match Self::sanitize_url(url, k.as_str()) {
            Some(u) => u,
            None => {
                return None;
            },
        };
        let l = take_vec(&trimmed(label), 40);
        let label = if l.len() == 0 {
            string_of(Self::default_label(k.as_str()))
        } else {
            string_from_chars(&l)
        };
        Some(SocialLink { kind: k, label, url: u })
    }

    /// Stored links cleaned: each kept as `entry` keeps it, at most twelve.
    pub fn clean_list(raw: &Vec<SocialLink>) -> (r: Vec<SocialLink>)
        ensures
            social_models(r@) == clean_fold(social_models(raw@), raw@.len() as int),
    {
        let mut out: Vec<SocialLink> = Vec::new();
        let mut i: usize = 0;
        while i < raw.len()
            invariant
                0 <= i <= raw.len(),
                social_models(out@) == clean_fold(social_models(raw@), i as int),
            decreases raw.len() - i,
        {
            assert(social_models(raw@)[i as int] == raw@[i as int]@);
            if out.len() < SOCIAL_MAX {
                match Self::entry(raw[i].kind.as_str(), raw[i].label.as_str(), raw[i].url.as_str()) {
                    Some(x) => {
                        let ghost prev = out@;
                        out.push(x);
                        assert(social_models(out@) =~= social_models(prev).push(x@));
                    },
                    None => {},
                }
            }
            i = i + 1;
        }
        out
    }

    pub fn is_github(&self) -> (r: bool)
        ensures
            r == (self.kind@ == "github"@),
    {
        str_eq(self.kind.as_str(), "github")
    }

    pub fn is_gitee(&self) -> (r: bool)
        ensures
            r == (self.kind@ == "gitee"@),
    {
        str_eq(self.kind.as_str(), "gitee")
    }

    pub fn is_site(&self) -> (r: bool)
        ensures
            r == (self.kind@ == "site"@),
    {
        str_eq(self.kind.as_str(), "site")
    }

    pub fn is_email(&self) -> (r: bool)
        ensures
            r == (self.kind@ == "email"@),
    {
        str_eq(self.kind.as_str(), "email")
    }

    pub fn is_twitter(&self) -> (r: bool)
        ensures
            r == (self.kind@ == "twitter"@),
    {
        str_eq(self.kind.as_str(), "twitter")
    }

    pub fn is_bilibili(&self) -> (r: bool)
        ensures
            r == (self.kind@ == "bilibili"@),
    {
        str_eq(self.kind.as_str(), "bilibili")
    }

    pub fn is_rss(&self) -> (r: bool)
        ensures
            r == (self.kind@ == "rss"@),
    {
        str_eq(self.kind.as_str(), "rss")
    }

    pub fn icon_src(&self) -> (r: &'static str)
        ensures
            r@ == icon_of(self.kind@),
    {
        let k = self.kind.as_str();
        if str_eq(k, "github") {
            "/static/icons/github.svg"
        } else if str_eq(k, "gitee") {
            "/static/icons/gitee.svg"
        } else if str_eq(k, "site") {
            "/static/icons/site.svg"
        } else if str_eq(k, "email") {
            "/static/icons/email.svg"
        } else if str_eq(k, "bilibili") {
            "/static/icons/bilibili.svg"
        } else if str_eq(k, "rss") {
            "/static/icons/rss.svg"
        } else {
            "/static/icons/web.svg"
        }
    }
}

/// Stored links cleaned one by one, keeping at most twelve.
pub open spec fn clean_fold(raw: Seq<SocialModel>, n: int) -> Seq<SocialModel>
    decreases n,
{
    if n <= 0 {
        Seq::empty()
    } else {
        let acc = clean_fold(raw, n - 1);
        if acc.len() >= SOCIAL_MAX {
            acc
        } else {
            match social_entry(raw[n - 1].kind, raw[n - 1].label, raw[n - 1].url) {
                Some(x) => acc.push(x),
                None => acc,
            }
        }
    }
}

/// The form's parallel lists, read at position `i`.
pub open spec fn nth_or(v: Seq<Seq<char>>, i: int, d: Seq<char>) -> Seq<char> {
    if 0 <= i < v.len() {
        v[i]
    } else {
        d
    }
}

pub open spec fn max3(a: int, b: int, c: int) -> int {
    let m = if a < b {
        b
    } else {
        a
    };
    if m < c {
        c
    } else {
        m
    }
}

/// The entries of the settings form's social rows `0..n`: rows with a blank
/// URL are skipped, the others kept as `social_entry` keeps them.
pub open spec fn assemble_fold(
    kinds: Seq<Seq<char>>,
    labels: Seq<Seq<char>>,
    urls: Seq<Seq<char>>,
    n: int,
) -> Seq<SocialModel>
    decreases n,
{
    if n <= 0 {
        Seq::empty()
    } else {
        let acc = assemble_fold(kinds, labels, urls, n - 1);
        let i = n - 1;
        let url = nth_or(urls, i, Seq::empty());
        if trim(url).len() == 0 {
            acc
        } else {
            match social_entry(nth_or(kinds, i, "custom"@), nth_or(labels, i, Seq::empty()), url) {
                Some(x) => acc.push(x),
                None => acc,
            }
        }
    }
}

/// The social links of the settings form, read from its parallel lists of
/// kinds, labels and URLs; more than twelve rows are refused.
pub fn assemble_social_links(kinds: &Vec<String>, labels: &Vec<String>, urls: &Vec<String>) -> (r:
    Result<Vec<SocialLink>, String>)
    ensures
        ({
            let n = max3(kinds@.len() as int, labels@.len() as int, urls@.len() as int);
            match r {
                Err(msg) => n > SOCIAL_MAX && msg@ == "社交链接最多 12 条"@,
                Ok(v) => n <= SOCIAL_MAX && social_models(v@) == assemble_fold(
                    kinds@.map_values(|s: String| s@),
                    labels@.map_values(|s: String| s@),
                    urls@.map_values(|s: String| s@),
                    n,
                ),
            }
        }),
{
    let mut n = kinds.len();
    if labels.len() > n {
        n = labels.len();
    }
    if urls.len() > n {
        n = urls.len();
    }
    if n > SOCIAL_MAX {
        return Err(string_of("社交链接最多 12 条"));
    }
    let mut out: Vec<SocialLink> = Vec::new();
    let mut i: usize = 0;
    while i < n
        invariant
            0 <= i <= n,
            n == max3(kinds@.len() as int, labels@.len() as int, urls@.len() as int),
            social_models(out@) == assemble_fold(
                kinds@.map_values(|s: String| s@),
                labels@.map_values(|s: String| s@),
                urls@.map_values(|s: String| s@),
                i as int,
            ),
        decreases n - i,
    {
        let kind: &str = if i < kinds.len() {
            kinds[i].as_str()
        } else {
            "custom"
        };
        let label: &str = if i < labels.len() {
            labels[i].as_str()
        } else {
            proof {
                reveal_strlit("");
            }
            ""
        };
        let url: &str = if i < urls.len() {
            urls[i].as_str()
        } else {
            proof {
                reveal_strlit("");
            }
            ""
        };
        if trimmed(url).len() > 0 {
            match SocialLink::entry(kind, label, url) {
                Some(x) => {
                    let ghost prev = out@;
                    out.push(x);
                    assert(social_models(out@) =~= social_models(prev).push(x@));
                },
                None => {},
            }
        }
        i = i + 1;
    }
    Ok(out)
}

#[derive(Debug, Clone)]
pub struct SiteSettings {
    pub site_title: String,
    pub site_tagline: String,
    pub author_name: String,
    pub avatar_url: String,
    pub logo_url: String,
    pub favicon_url: String,
    pub seo_keywords: String,
    pub seo_description: String,
    pub social_links: Vec<SocialLink>,
    pub nav_items: Vec<NavItemConfig>,
    pub icp_beian: String,
    pub gongan_beian: String,
    pub gongan_beian_url: String,
    pub footer_copyright: String,
    pub footer_text: String,
    pub site_access: String,
}

pub const ACCESS_PUBLIC: &'static str = "public";

pub const ACCESS_MAINTENANCE: &'static str = "maintenance";

pub const ACCESS_PRIVATE: &'static str = "private";

pub open spec fn access_norm(raw: Seq<char>) -> Seq<char> {
    let t = trim(raw);
    if t == "maintenance"@ {
        "maintenance"@
    } else if t == "private"@ {
        "private"@
    } else {
        "public"@
    }
}

/// A link to a filing record: kept only when it is an `http(s)` URL of at
/// most 500 bytes.
pub open spec fn beian_url_of(raw: Seq<char>) -> Seq<char> {
    let url = trim(raw);
    let lower = lower_seq(url);
    if url.len() == 0 || utf8_len(url) > 500 {
        Seq::empty()
    } else if starts(lower, "https://"@) || starts(lower, "http://"@) {
        url
    } else {
        Seq::empty()
    }
}

impl Default for SiteSettings {
    fn default() -> (r: Self)
        ensures
            r.site_title@ == "oakis"@,
            r.site_tagline@.len() == 0,
            r.author_name@.len() == 0,
            r.avatar_url@.len() == 0,
            r.logo_url@.len() == 0,
            r.favicon_url@.len() == 0,
            r.seo_keywords@.len() == 0,
            r.seo_description@.len() == 0,
            r.social_links@.len() == 0,
            crate::models::nav::nav_models(r.nav_items@) == crate::models::nav::default_items(),
            r.icp_beian@.len() == 0,
            r.gongan_beian@.len() == 0,
            r.gongan_beian_url@.len() == 0,
            r.footer_copyright@.len() == 0,
            r.footer_text@.len() == 0,
            r.site_access@ == "public"@,
    {
        SiteSettings {
            site_title: string_of("oakis"),
            site_tagline: new_string(),
            author_name: new_string(),
            avatar_url: new_string(),
            logo_url: new_string(),
            favicon_url: new_string(),
            seo_keywords: new_string(),
            seo_description: new_string(),
            social_links: Vec::new(),
            nav_items: NavItemConfig::system_defaults(),
            icp_beian: new_string(),
            gongan_beian: new_string(),
            gongan_beian_url: new_string(),
            footer_copyright: new_string(),
            footer_text: new_string(),
            site_access: string_of(ACCESS_PUBLIC),
        }
    }
}

impl SiteSettings {
    pub fn normalize_site_access(raw: &str) -> (r: String)
        ensures
            r@ == access_norm(raw@),
    {
        let t = trimmed(raw);
        if vec_eq(&t, &chars_of(ACCESS_MAINTENANCE)) {
            string_of(ACCESS_MAINTENANCE)
        } else if vec_eq(&t, &chars_of(ACCESS_PRIVATE)) {
            string_of(ACCESS_PRIVATE)
        } else {
            string_of(ACCESS_PUBLIC)
        }
    }

    pub fn is_access_public(&self) -> (r: bool)
        ensures
            r == (self.site_access@ == "public"@),
    {
        str_eq(self.site_access.as_str(), ACCESS_PUBLIC)
    }

    pub fn is_access_maintenance(&self) -> (r: bool)
        ensures
            r == (self.site_access@ == "maintenance"@),
    {
        str_eq(self.site_access.as_str(), ACCESS_MAINTENANCE)
    }

    pub fn is_access_private(&self) -> (r: bool)
        ensures
            r == (self.site_access@ == "private"@),
    {
        str_eq(self.site_access.as_str(), ACCESS_PRIVATE)
    }

    /// A logo, avatar or favicon URL as it is kept.
    pub fn sanitize_asset_url(url: &str) -> (r: String)
        ensures
            r@ == sanitize_brand_url_spec(url@),
    {
        sanitize_brand_url(url)
    }

    pub fn has_social_links(&self) -> (r: bool)
        ensures
            r == (self.social_links@.len() > 0),
    {
        self.social_links.len() > 0
    }

    /// The avatar, else the logo, else nothing.
    pub fn profile_avatar_url(&self) -> (r: &str)
        ensures
            r@ == if self.avatar_url@.len() > 0 {
                self.avatar_url@
            } else if self.logo_url@.len() > 0 {
                self.logo_url@
            } else {
                Seq::empty()
            },
    {
        if chars_of(self.avatar_url.as_str()).len() > 0 {
            self.avatar_url.as_str()
        } else if chars_of(self.logo_url.as_str()).len() > 0 {
            self.logo_url.as_str()
        } else {
            proof {
                reveal_strlit("");
            }
            ""
        }
    }

    pub fn has_profile_avatar(&self) -> (r: bool)
        ensures
            r == (self.avatar_url@.len() > 0 || self.logo_url@.len() > 0),
    {
        chars_of(self.profile_avatar_url()).len() > 0
    }

    pub fn has_icp_beian(&self) -> (r: bool)
        ensures
            r == (trim(self.icp_beian@).len() > 0),
    {
        trimmed(self.icp_beian.as_str()).len() > 0
    }

    pub fn has_gongan_beian(&self) -> (r: bool)
        ensures
            r == (trim(self.gongan_beian@).len() > 0),
    {
        trimmed(self.gongan_beian.as_str()).len() > 0
    }

    pub fn has_footer_copyright(&self) -> (r: bool)
        ensures
            r == (trim(self.footer_copyright@).len() > 0),
    {
        trimmed(self.footer_copyright.as_str()).len() > 0
    }

    pub fn has_footer_text(&self) -> (r: bool)
        ensures
            r == (trim(self.footer_text@).len() > 0),
    {
        trimmed(self.footer_text.as_str()).len() > 0
    }

    pub fn sanitize_beian_url(raw: &str) -> (r: String)
        ensures
            r@ == beian_url_of(raw@),
    {
        let url = trimmed(raw);
        if url.len() == 0 || utf8_len_of(&url) > 500 {
            return new_string();
        }
        let lower = lower_vec(&url);
        if starts_with(&lower, "https://") || starts_with(&lower, "http://") {
            string_from_chars(&url)
        } else {
            new_string()
        }
    }
}

impl SiteSettings {
    /// Reads one stored setting: text settings as they are, the logo,
    /// avatar and favicon made safe, the police-record link checked, the
    /// access mode normalized. The social links and the menu are stored as
    /// JSON and read by the caller; they and unknown keys change nothing
    /// here.
    pub fn apply_row(&mut self, key: &str, value: &str)
        ensures
            final(self).site_title@ == (if key@ == "site_title"@ { value@ } else { old(self).site_title@ }),
            final(self).site_tagline@ == (if key@ == "site_tagline"@ { value@ } else { old(self).site_tagline@ }),
            final(self).author_name@ == (if key@ == "author_name"@ { value@ } else { old(self).author_name@ }),
            final(self).avatar_url@ == (if key@ == "avatar_url"@ { sanitize_brand_url_spec(value@) } else { old(self).avatar_url@ }),
            final(self).logo_url@ == (if key@ == "logo_url"@ { sanitize_brand_url_spec(value@) } else { old(self).logo_url@ }),
            final(self).favicon_url@ == (if key@ == "favicon_url"@ { sanitize_brand_url_spec(value@) } else { old(self).favicon_url@ }),
            final(self).seo_keywords@ == (if key@ == "seo_keywords"@ { value@ } else { old(self).seo_keywords@ }),
            final(self).seo_description@ == (if key@ == "seo_description"@ { value@ } else { old(self).seo_description@ }),
            final(self).icp_beian@ == (if key@ == "icp_beian"@ { value@ } else { old(self).icp_beian@ }),
            final(self).gongan_beian@ == (if key@ == "gongan_beian"@ { value@ } else { old(self).gongan_beian@ }),
            final(self).gongan_beian_url@ == (if key@ == "gongan_beian_url"@ { beian_url_of(value@) } else { old(self).gongan_beian_url@ }),
            final(self).footer_copyright@ == (if key@ == "footer_copyright"@ { value@ } else { old(self).footer_copyright@ }),
            final(self).footer_text@ == (if key@ == "footer_text"@ { value@ } else { old(self).footer_text@ }),
            final(self).site_access@ == (if key@ == "site_access"@ { access_norm(value@) } else { old(self).site_access@ }),
            final(self).social_links == old(self).social_links,
            final(self).nav_items == old(self).nav_items,
    {
        proof {
            reveal_strlit("site_title");
            reveal_strlit("site_tagline");
            reveal_strlit("author_name");
            reveal_strlit("avatar_url");
            reveal_strlit("logo_url");
            reveal_strlit("favicon_url");
            reveal_strlit("seo_keywords");
            reveal_strlit("seo_description");
            reveal_strlit("icp_beian");
            reveal_strlit("gongan_beian");
            reveal_strlit("gongan_beian_url");
            reveal_strlit("footer_copyright");
            reveal_strlit("footer_text");
            reveal_strlit("site_access");
            assert("site_title"@.len() == 10 && "site_title"@[0] == 's' && "site_title"@[1] == 'i');
            assert("site_tagline"@.len() == 12 && "site_tagline"@[0] == 's' && "site_tagline"@[1] == 'i');
            assert("author_name"@.len() == 11 && "author_name"@[0] == 'a' && "author_name"@[1] == 'u');
            assert("avatar_url"@.len() == 10 && "avatar_url"@[0] == 'a' && "avatar_url"@[1] == 'v');
            assert("logo_url"@.len() == 8 && "logo_url"@[0] == 'l' && "logo_url"@[1] == 'o');
            assert("favicon_url"@.len() == 11 && "favicon_url"@[0] == 'f' && "favicon_url"@[1] == 'a');
            assert("seo_keywords"@.len() == 12 && "seo_keywords"@[0] == 's' && "seo_keywords"@[1] == 'e');
            assert("seo_description"@.len() == 15 && "seo_description"@[0] == 's' && "seo_description"@[1] == 'e');
            assert("icp_beian"@.len() == 9 && "icp_beian"@[0] == 'i' && "icp_beian"@[1] == 'c');
            assert("gongan_beian"@.len() == 12 && "gongan_beian"@[0] == 'g' && "gongan_beian"@[1] == 'o');
            assert("gongan_beian_url"@.len() == 16 && "gongan_beian_url"@[0] == 'g' && "gongan_beian_url"@[1] == 'o');
            assert("footer_copyright"@.len() == 16 && "footer_copyright"@[0] == 'f' && "footer_copyright"@[1] == 'o');
            assert("footer_text"@.len() == 11 && "footer_text"@[0] == 'f' && "footer_text"@[1] == 'o');
            assert("site_access"@.len() == 11 && "site_access"@[0] == 's' && "site_access"@[1] == 'i');
        }
        if str_eq(key, "site_title") {
            self.site_title = string_of(value);
        } else if str_eq(key, "site_tagline") {
            self.site_tagline = string_of(value);
        } else if str_eq(key, "author_name") {
            self.author_name = string_of(value);
        } else if str_eq(key, "avatar_url") {
            self.avatar_url = SiteSettings::sanitize_asset_url(value);
        } else if str_eq(key, "logo_url") {
            self.logo_url = SiteSettings::sanitize_asset_url(value);
        } else if str_eq(key, "favicon_url") {
            self.favicon_url = SiteSettings::sanitize_asset_url(value);
        } else if str_eq(key, "seo_keywords") {
            self.seo_keywords = string_of(value);
        } else if str_eq(key, "seo_description") {
            self.seo_description = string_of(value);
        } else if str_eq(key, "icp_beian") {
            self.icp_beian = string_of(value);
        } else if str_eq(key, "gongan_beian") {
            self.gongan_beian = string_of(value);
        } else if str_eq(key, "gongan_beian_url") {
            self.gongan_beian_url = SiteSettings::sanitize_beian_url(value);
        } else if str_eq(key, "footer_copyright") {
            self.footer_copyright = string_of(value);
        } else if str_eq(key, "footer_text") {
            self.footer_text = string_of(value);
        } else if str_eq(key, "site_access") {
            self.site_access = SiteSettings::normalize_site_access(value);
        }
    }
}

// ---------------------------------------------------------------------------
// Storing the settings
// ---------------------------------------------------------------------------

/// The text settings as plain text.
pub struct SettingsText {
    pub site_title: Seq<char>,
    pub site_tagline: Seq<char>,
    pub author_name: Seq<char>,
    pub avatar_url: Seq<char>,
    pub logo_url: Seq<char>,
    pub favicon_url: Seq<char>,
    pub seo_keywords: Seq<char>,
    pub seo_description: Seq<char>,
    pub icp_beian: Seq<char>,
    pub gongan_beian: Seq<char>,
    pub gongan_beian_url: Seq<char>,
    pub footer_copyright: Seq<char>,
    pub footer_text: Seq<char>,
    pub site_access: Seq<char>,
}

pub open spec fn settings_text(s: SiteSettings) -> SettingsText {
    SettingsText {
        site_title: s.site_title@,
        site_tagline: s.site_tagline@,
        author_name: s.author_name@,
        avatar_url: s.avatar_url@,
        logo_url: s.logo_url@,
        favicon_url: s.favicon_url@,
        seo_keywords: s.seo_keywords@,
        seo_description: s.seo_description@,
        icp_beian: s.icp_beian@,
        gongan_beian: s.gongan_beian@,
        gongan_beian_url: s.gongan_beian_url@,
        footer_copyright: s.footer_copyright@,
        footer_text: s.footer_text@,
        site_access: s.site_access@,
    }
}

/// The keys the text settings are stored under, in the order they are
/// written.
pub open spec fn text_keys() -> Seq<Seq<char>> {
    seq![
        "site_title"@,
        "site_tagline"@,
        "author_name"@,
        "avatar_url"@,
        "logo_url"@,
        "favicon_url"@,
        "seo_keywords"@,
        "seo_description"@,
        "icp_beian"@,
        "gongan_beian"@,
        "gongan_beian_url"@,
        "footer_copyright"@,
        "footer_text"@,
        "site_access"@,
    ]
}

/// The values written under `text_keys`.
pub open spec fn text_values(t: SettingsText) -> Seq<Seq<char>> {
    seq![
        t.site_title,
        t.site_tagline,
        t.author_name,
        t.avatar_url,
        t.logo_url,
        t.favicon_url,
        t.seo_keywords,
        t.seo_description,
        t.icp_beian,
        t.gongan_beian,
        t.gongan_beian_url,
        t.footer_copyright,
        t.footer_text,
        t.site_access,
    ]
}

/// The store after writing the first `n` keys of `keys` with `values`, each
/// written over what the key held.
pub open spec fn upsert_all(
    db: Map<Seq<char>, Seq<char>>,
    keys: Seq<Seq<char>>,
    values: Seq<Seq<char>>,
    n: nat,
) -> Map<Seq<char>, Seq<char>>
    decreases n,
{
    if n == 0 {
        db
    } else {
        upsert_all(db, keys, values, (n - 1) as nat).insert(keys[n - 1], values[n - 1])
    }
}

/// The store after the text settings `t` are saved into `db`.
pub open spec fn saved_into(db: Map<Seq<char>, Seq<char>>, t: SettingsText) -> Map<Seq<char>, Seq<char>> {
    upsert_all(db, text_keys(), text_values(t), 14)
}

/// The text settings read from a store holding `db`: each key's value, made
/// safe as `apply_row` makes it; the default where the key is not stored.
pub open spec fn loaded_text(db: Map<Seq<char>, Seq<char>>) -> SettingsText {
    SettingsText {
        site_title: if db.contains_key("site_title"@) {
            db["site_title"@]
        } else {
            "oakis"@
        },
        site_tagline: if db.contains_key("site_tagline"@) {
            db["site_tagline"@]
        } else {
            Seq::empty()
        },
        author_name: if db.contains_key("author_name"@) {
            db["author_name"@]
        } else {
            Seq::empty()
        },
        avatar_url: if db.contains_key("avatar_url"@) {
            sanitize_brand_url_spec(db["avatar_url"@])
        } else {
            Seq::empty()
        },
        logo_url: if db.contains_key("logo_url"@) {
            sanitize_brand_url_spec(db["logo_url"@])
        } else {
            Seq::empty()
        },
        favicon_url: if db.contains_key("favicon_url"@) {
            sanitize_brand_url_spec(db["favicon_url"@])
        } else {
            Seq::empty()
        },
        seo_keywords: if db.contains_key("seo_keywords"@) {
            db["seo_keywords"@]
        } else {
            Seq::empty()
        },
        seo_description: if db.contains_key("seo_description"@) {
            db["seo_description"@]
        } else {
            Seq::empty()
        },
        icp_beian: if db.contains_key("icp_beian"@) {
            db["icp_beian"@]
        } else {
            Seq::empty()
        },
        gongan_beian: if db.contains_key("gongan_beian"@) {
            db["gongan_beian"@]
        } else {
            Seq::empty()
        },
        gongan_beian_url: if db.contains_key("gongan_beian_url"@) {
            beian_url_of(db["gongan_beian_url"@])
        } else {
            Seq::empty()
        },
        footer_copyright: if db.contains_key("footer_copyright"@) {
            db["footer_copyright"@]
        } else {
            Seq::empty()
        },
        footer_text: if db.contains_key("footer_text"@) {
            db["footer_text"@]
        } else {
            Seq::empty()
        },
        site_access: if db.contains_key("site_access"@) {
            access_norm(db["site_access"@])
        } else {
            "public"@
        },
    }
}

/// The rows `rows` as the store holds them: a later row for a key replaces
/// an earlier one.
pub open spec fn rows_map(rows: Seq<(String, String)>) -> Map<Seq<char>, Seq<char>>
    decreases rows.len(),
{
    if rows.len() == 0 {
        Map::empty()
    } else {
        rows_map(rows.drop_last()).insert(rows.last().0@, rows.last().1@)
    }
}

/// Text settings that read back as they are written: the brand images are
/// safe upload URLs, the police-record link is checked and the access mode
/// is one of the three.
pub open spec fn stored_stable(t: SettingsText) -> bool {
    &&& sanitize_brand_url_spec(t.avatar_url) == t.avatar_url
    &&& sanitize_brand_url_spec(t.logo_url) == t.logo_url
    &&& sanitize_brand_url_spec(t.favicon_url) == t.favicon_url
    &&& beian_url_of(t.gongan_beian_url) == t.gongan_beian_url
    &&& access_norm(t.site_access) == t.site_access
}

impl SiteSettings {
    /// The text settings as stored: each under its key, in the order of
    /// `text_keys`. The social links and the menu are stored as JSON by the
    /// caller.
    pub fn stored_rows(&self) -> (r: Vec<(&'static str, String)>)
        ensures
            r@.len() == 14,
            forall|i: int| 0 <= i < 14 ==> (#[trigger] r@[i]).0@ == text_keys()[i] && r@[i].1@
                == text_values(settings_text(*self))[i],
    {
        let mut r: Vec<(&'static str, String)> = Vec::new();
        r.push(("site_title", string_of(self.site_title.as_str())));
        r.push(("site_tagline", string_of(self.site_tagline.as_str())));
        r.push(("author_name", string_of(self.author_name.as_str())));
        r.push(("avatar_url", string_of(self.avatar_url.as_str())));
        r.push(("logo_url", string_of(self.logo_url.as_str())));
        r.push(("favicon_url", string_of(self.favicon_url.as_str())));
        r.push(("seo_keywords", string_of(self.seo_keywords.as_str())));
        r.push(("seo_description", string_of(self.seo_description.as_str())));
        r.push(("icp_beian", string_of(self.icp_beian.as_str())));
        r.push(("gongan_beian", string_of(self.gongan_beian.as_str())));
        r.push(("gongan_beian_url", string_of(self.gongan_beian_url.as_str())));
        r.push(("footer_copyright", string_of(self.footer_copyright.as_str())));
        r.push(("footer_text", string_of(self.footer_text.as_str())));
        r.push(("site_access", string_of(self.site_access.as_str())));
        proof {
            reveal_strlit("site_title");
            reveal_strlit("site_tagline");
            reveal_strlit("author_name");
            reveal_strlit("avatar_url");
            reveal_strlit("logo_url");
            reveal_strlit("favicon_url");
            reveal_strlit("seo_keywords");
            reveal_strlit("seo_description");
            reveal_strlit("icp_beian");
            reveal_strlit("gongan_beian");
            reveal_strlit("gongan_beian_url");
            reveal_strlit("footer_copyright");
            reveal_strlit("footer_text");
            reveal_strlit("site_access");
        }
        r
    }

    /// The settings read from stored rows (`load_settings`): the defaults,
    /// then each row applied in turn (`apply_row`). The social links and the
    /// menu are read by the caller.
    pub fn from_rows(rows: &Vec<(String, String)>) -> (r: SiteSettings)
        ensures
            settings_text(r) == loaded_text(rows_map(rows@)),
            r.social_links@.len() == 0,
            crate::models::nav::nav_models(r.nav_items@) == crate::models::nav::default_items(),
    {
        let mut s = SiteSettings::default();
        let mut i: usize = 0;
        assert(rows@.take(0) =~= Seq::<(String, String)>::empty());
        proof {
            let e = Map::<Seq<char>, Seq<char>>::empty();
            assert(rows_map(rows@.take(0)) == e);
            assert(s.site_tagline@ =~= Seq::<char>::empty());
            assert(s.author_name@ =~= Seq::<char>::empty());
            assert(s.avatar_url@ =~= Seq::<char>::empty());
            assert(s.logo_url@ =~= Seq::<char>::empty());
            assert(s.favicon_url@ =~= Seq::<char>::empty());
            assert(s.seo_keywords@ =~= Seq::<char>::empty());
            assert(s.seo_description@ =~= Seq::<char>::empty());
            assert(s.icp_beian@ =~= Seq::<char>::empty());
            assert(s.gongan_beian@ =~= Seq::<char>::empty());
            assert(s.gongan_beian_url@ =~= Seq::<char>::empty());
            assert(s.footer_copyright@ =~= Seq::<char>::empty());
            assert(s.footer_text@ =~= Seq::<char>::empty());
            assert(settings_text(s) == loaded_text(e));
        }
        while i < rows.len()
            invariant
                0 <= i <= rows.len(),
                settings_text(s) == loaded_text(rows_map(rows@.take(i as int))),
                s.social_links@.len() == 0,
                crate::models::nav::nav_models(s.nav_items@) == crate::models::nav::default_items(),
            decreases rows.len() - i,
        {
            assert(rows@.take(i + 1).drop_last() =~= rows@.take(i as int));
            s.apply_row(rows[i].0.as_str(), rows[i].1.as_str());
            i = i + 1;
        }
        assert(rows@.take(rows.len() as int) =~= rows@);
        s
    }
}

/// Settings saved into the store read back as they were, whatever else the
/// store held, where they are stable (`stored_stable`).
pub proof fn law_settings_round_trip(db: Map<Seq<char>, Seq<char>>, t: SettingsText)
    requires
        stored_stable(t),
    ensures
        loaded_text(saved_into(db, t)) == t,
{
    reveal_with_fuel(upsert_all, 15);
    reveal_strlit("site_title");
    reveal_strlit("site_tagline");
    reveal_strlit("author_name");
    reveal_strlit("avatar_url");
    reveal_strlit("logo_url");
    reveal_strlit("favicon_url");
    reveal_strlit("seo_keywords");
    reveal_strlit("seo_description");
    reveal_strlit("icp_beian");
    reveal_strlit("gongan_beian");
    reveal_strlit("gongan_beian_url");
    reveal_strlit("footer_copyright");
    reveal_strlit("footer_text");
    reveal_strlit("site_access");
    assert("site_title"@.len() == 10 && "site_title"@[0] == 's' && "site_title"@[1] == 'i');
    assert("site_tagline"@.len() == 12 && "site_tagline"@[0] == 's' && "site_tagline"@[1] == 'i');
    assert("author_name"@.len() == 11 && "author_name"@[0] == 'a' && "author_name"@[1] == 'u');
    assert("avatar_url"@.len() == 10 && "avatar_url"@[0] == 'a' && "avatar_url"@[1] == 'v');
    assert("logo_url"@.len() == 8 && "logo_url"@[0] == 'l' && "logo_url"@[1] == 'o');
    assert("favicon_url"@.len() == 11 && "favicon_url"@[0] == 'f' && "favicon_url"@[1] == 'a');
    assert("seo_keywords"@.len() == 12 && "seo_keywords"@[0] == 's' && "seo_keywords"@[1] == 'e');
    assert("seo_description"@.len() == 15 && "seo_description"@[0] == 's' && "seo_description"@[1] == 'e');
    assert("icp_beian"@.len() == 9 && "icp_beian"@[0] == 'i' && "icp_beian"@[1] == 'c');
    assert("gongan_beian"@.len() == 12 && "gongan_beian"@[0] == 'g' && "gongan_beian"@[1] == 'o');
    assert("gongan_beian_url"@.len() == 16 && "gongan_beian_url"@[0] == 'g' && "gongan_beian_url"@[1] == 'o');
    assert("footer_copyright"@.len() == 16 && "footer_copyright"@[0] == 'f' && "footer_copyright"@[1] == 'o');
    assert("footer_text"@.len() == 11 && "footer_text"@[0] == 'f' && "footer_text"@[1] == 'o');
    assert("site_access"@.len() == 11 && "site_access"@[0] == 's' && "site_access"@[1] == 'i');
    let m = saved_into(db, t);
    assert(m.contains_key("site_title"@) && m["site_title"@] == t.site_title);
    assert(m.contains_key("site_tagline"@) && m["site_tagline"@] == t.site_tagline);
    assert(m.contains_key("author_name"@) && m["author_name"@] == t.author_name);
    assert(m.contains_key("avatar_url"@) && m["avatar_url"@] == t.avatar_url);
    assert(m.contains_key("logo_url"@) && m["logo_url"@] == t.logo_url);
    assert(m.contains_key("favicon_url"@) && m["favicon_url"@] == t.favicon_url);
    assert(m.contains_key("seo_keywords"@) && m["seo_keywords"@] == t.seo_keywords);
    assert(m.contains_key("seo_description"@) && m["seo_description"@] == t.seo_description);
    assert(m.contains_key("icp_beian"@) && m["icp_beian"@] == t.icp_beian);
    assert(m.contains_key("gongan_beian"@) && m["gongan_beian"@] == t.gongan_beian);
    assert(m.contains_key("gongan_beian_url"@) && m["gongan_beian_url"@] == t.gongan_beian_url);
    assert(m.contains_key("footer_copyright"@) && m["footer_copyright"@] == t.footer_copyright);
    assert(m.contains_key("footer_text"@) && m["footer_text"@] == t.footer_text);
    assert(m.contains_key("site_access"@) && m["site_access"@] == t.site_access);
}

/// A word with no white space at its ends is its own trim.
proof fn lemma_trim_word(w: Seq<char>)
    requires
        w.len() > 0,
        !is_ws(w[0]),
        !is_ws(w.last()),
    ensures
        trim(w) == w,
{
    crate::text::lemma_trim_bounds(w, 0, w.len() as int);
    assert(w.subrange(0, w.len() as int) =~= w);
}

proof fn lemma_trim_empty()
    ensures
        trim(Seq::<char>::empty()) == Seq::<char>::empty(),
{
    let e = Seq::<char>::empty();
    assert(crate::text::trim_start(e) == e);
    assert(crate::text::trim_end(e) == e);
}

proof fn lemma_access_stable(raw: Seq<char>)
    ensures
        access_norm(access_norm(raw)) == access_norm(raw),
{
    reveal_strlit("public");
    reveal_strlit("private");
    reveal_strlit("maintenance");
    lemma_trim_word("public"@);
    lemma_trim_word("private"@);
    lemma_trim_word("maintenance"@);
}

proof fn lemma_beian_stable(raw: Seq<char>)
    ensures
        beian_url_of(beian_url_of(raw)) == beian_url_of(raw),
{
    crate::text::lemma_trim_idempotent(raw);
    lemma_trim_empty();
}

proof fn lemma_brand_stable(raw: Seq<char>)
    ensures
        sanitize_brand_url_spec(sanitize_brand_url_spec(raw)) == sanitize_brand_url_spec(raw),
{
    let site_p = crate::upload::SITE_URL_PREFIX@;
    let media_p = crate::upload::MEDIA_URL_PREFIX@;
    crate::upload::law_asset_url_stable(raw, site_p);
    crate::upload::law_asset_url_stable(raw, media_p);
    crate::text::lemma_trim_idempotent(raw);
    let site = crate::upload::sanitize_asset_url_spec(raw, site_p);
    let media = crate::upload::sanitize_asset_url_spec(raw, media_p);
    if site.len() == 0 && media.len() > 0 {
        reveal_strlit("/uploads/site/");
        reveal_strlit("/uploads/media/");
        assert(media == trim(raw));
        assert(media.subrange(0, media_p.len() as int) == media_p);
        assert(media[9] == media_p[9]);
        assert(!starts(trim(media), site_p)) by {
            if starts(trim(media), site_p) {
                assert(trim(media).subrange(0, site_p.len() as int)[9] == site_p[9]);
            }
        }
    }
}

/// Settings read from the store are stable: saving them and reading them
/// back gives them again (`law_settings_round_trip`).
pub proof fn law_loaded_settings_stable(db: Map<Seq<char>, Seq<char>>)
    ensures
        stored_stable(loaded_text(db)),
{
    lemma_trim_empty();
    lemma_brand_stable(db["avatar_url"@]);
    lemma_brand_stable(db["logo_url"@]);
    lemma_brand_stable(db["favicon_url"@]);
    lemma_beian_stable(db["gongan_beian_url"@]);
    lemma_access_stable(db["site_access"@]);
    lemma_access_stable("public"@);
    let e = Seq::<char>::empty();
    lemma_brand_stable(e);
    lemma_beian_stable(e);
    assert(sanitize_brand_url_spec(e) == e) by {
        reveal_strlit("/uploads/site/");
        reveal_strlit("/uploads/media/");
    }
    assert(beian_url_of(e) == e);
    reveal_strlit("public");
    lemma_trim_word("public"@);
    assert(access_norm("public"@) == "public"@);
}

} // verus!
