//! The admin forms that arrive as raw `application/x-www-form-urlencoded`
//! bodies with repeated fields: the site settings and the navigation.
use vstd::prelude::*;

use crate::models::nav::{
    for_editor_spec, nav_models, normalize_list_spec, sanitize_nav_url, sanitize_nav_url_spec,
    NavItemConfig, NavItemModel, NAV_MAX_ITEMS,
};
use crate::models::settings::{
    access_norm, assemble_fold, beian_url_of, max3, social_models, SiteSettings, SocialLink,
    SOCIAL_MAX,
};
use crate::text::{
    chars_of, i64_value, new_string, parse_i64, starts, str_eq, string_of, take_n, trim,
};
use crate::upload::sanitize_brand_url_spec;

verus! {

// ---------------------------------------------------------------------------
// Form bodies
// ---------------------------------------------------------------------------

/// The name–value pairs of a URL-encoded form body, in order, as
/// `form_urlencoded::parse` decodes them.
pub uninterp spec fn urlencoded_pairs(body: Seq<u8>) -> Seq<(Seq<char>, Seq<char>)>;

pub open spec fn pairs_view(v: Seq<(String, String)>) -> Seq<(Seq<char>, Seq<char>)> {
    v.map_values(|p: (String, String)| (p.0@, p.1@))
}

/// `form_urlencoded::parse`, its names and values made owned strings.
#[verifier::external_body]
fn urlencoded_parse(body: &[u8]) -> (r: Vec<(String, String)>)
    ensures
        pairs_view(r@) == urlencoded_pairs(body@),
{
    form_urlencoded::parse(body).map(|(k, v)| (k.into_owned(), v.into_owned())).collect()
}

/// The values sent for `key`, in order.
pub open spec fn values_for(pairs: Seq<(Seq<char>, Seq<char>)>, key: Seq<char>) -> Seq<Seq<char>>
    decreases pairs.len(),
{
    if pairs.len() == 0 {
        Seq::empty()
    } else if pairs.last().0 == key {
        values_for(pairs.drop_last(), key).push(pairs.last().1)
    } else {
        values_for(pairs.drop_last(), key)
    }
}

/// The last value sent for `key`, or the empty text.
pub open spec fn value_for(pairs: Seq<(Seq<char>, Seq<char>)>, key: Seq<char>) -> Seq<char> {
    let v = values_for(pairs, key);
    if v.len() == 0 {
        Seq::empty()
    } else {
        v.last()
    }
}

/// A decoded form body.
pub struct FormFields {
    pub pairs: Vec<(String, String)>,
}

pub open spec fn strings_view(v: Seq<String>) -> Seq<Seq<char>> {
    v.map_values(|s: String| s@)
}

impl FormFields {
    pub fn parse(body: &[u8]) -> (r: Self)
        ensures
            pairs_view(r.pairs@) == urlencoded_pairs(body@),
    {
        FormFields { pairs: urlencoded_parse(body) }
    }

    /// Every value sent for `key`, in order.
    pub fn form_many(&self, key: &str) -> (r: Vec<String>)
        ensures
            strings_view(r@) == values_for(pairs_view(self.pairs@), key@),
    {
        let ghost pv = pairs_view(self.pairs@);
        let mut out: Vec<String> = Vec::new();
        let mut i: usize = 0;
        assert(pv.take(0) =~= Seq::<(Seq<char>, Seq<char>)>::empty());
        assert(strings_view(out@) =~= Seq::<Seq<char>>::empty());
        while i < self.pairs.len()
            invariant
                0 <= i <= self.pairs.len(),
                pv == pairs_view(self.pairs@),
                strings_view(out@) == values_for(pv.take(i as int), key@),
            decreases self.pairs.len() - i,
        {
            assert(pv.take(i + 1).drop_last() =~= pv.take(i as int));
            assert(pv.take(i + 1).last() == (self.pairs@[i as int].0@, self.pairs@[i as int].1@));
            if str_eq(self.pairs[i].0.as_str(), key) {
                let ghost before = strings_view(out@);
                out.push(string_of(self.pairs[i].1.as_str()));
                assert(strings_view(out@) =~= before.push(self.pairs@[i as int].1@));
            }
            i = i + 1;
        }
        assert(pv.take(pv.len() as int) =~= pv);
        out
    }

    /// The last value sent for `key`, or the empty text.
    pub fn form_one(&self, key: &str) -> (r: String)
        ensures
            r@ == value_for(pairs_view(self.pairs@), key@),
    {
        let all = self.form_many(key);
        if all.len() == 0 {
            new_string()
        } else {
            string_of(all[all.len() - 1].as_str())
        }
    }
}

// ---------------------------------------------------------------------------
// The site settings
// ---------------------------------------------------------------------------

pub const MAX_TITLE: usize = 80;

pub const MAX_TAGLINE: usize = 160;

pub const MAX_AUTHOR: usize = 40;

pub const MAX_KEYWORDS: usize = 200;

pub const MAX_DESCRIPTION: usize = 300;

pub const MAX_BEIAN: usize = 80;

pub const MAX_FOOTER_TEXT: usize = 160;

pub open spec fn clamped(pairs: Seq<(Seq<char>, Seq<char>)>, key: Seq<char>, max: int) -> Seq<char> {
    take_n(trim(value_for(pairs, key)), max)
}

/// A brand image after a save: the new safe URL where it changed, and the
/// old file's URL to delete where it was a site upload.
pub open spec fn brand_change(current: Seq<char>, next_raw: Seq<char>) -> (Seq<char>, Option<Seq<char>>) {
    let next = sanitize_brand_url_spec(next_raw);
    if next == current {
        (current, None)
    } else if starts(current, "/uploads/site/"@) {
        (next, Some(current))
    } else {
        (next, None)
    }
}

fn brand_change_exec(current: &str, next_raw: &str) -> (r: (String, Option<String>))
    ensures
        r.0@ == brand_change(current@, next_raw@).0,
        match r.1 {
            Some(d) => brand_change(current@, next_raw@).1 == Some(d@),
            None => brand_change(current@, next_raw@).1 is None,
        },
{
    let next = SiteSettings::sanitize_asset_url(next_raw);
    if str_eq(next.as_str(), current) {
        return (string_of(current), None);
    }
    if crate::text::starts_with(&chars_of(current), "/uploads/site/") {
        (next, Some(string_of(current)))
    } else {
        (next, None)
    }
}

/// A refused settings form: the settings to show again and why.
pub struct SettingsRejected {
    pub settings: SiteSettings,
    pub message: String,
}

/// A saved settings form: the new settings, and the site uploads that
/// the brand images no longer use.
pub struct SettingsSaved {
    pub settings: SiteSettings,
    pub delete_files: Vec<String>,
}

/// The text fields of the settings form as `settings_save` keeps them.
pub open spec fn text_fields_read(s: SiteSettings, f: Seq<(Seq<char>, Seq<char>)>) -> bool {
    &&& s.site_title@ == clamped(f, "site_title"@, 80)
    &&& s.site_tagline@ == clamped(f, "site_tagline"@, 160)
    &&& s.author_name@ == clamped(f, "author_name"@, 40)
    &&& s.site_access@ == access_norm(value_for(f, "site_access"@))
    &&& s.seo_keywords@ == clamped(f, "seo_keywords"@, 200)
    &&& s.seo_description@ == clamped(f, "seo_description"@, 300)
    &&& s.icp_beian@ == clamped(f, "icp_beian"@, 80)
    &&& s.gongan_beian@ == clamped(f, "gongan_beian"@, 80)
    &&& s.gongan_beian_url@ == beian_url_of(clamped(f, "gongan_beian_url"@, 500))
    &&& s.footer_copyright@ == clamped(f, "footer_copyright"@, 160)
    &&& s.footer_text@ == clamped(f, "footer_text"@, 160)
}

/// The social rows of the form.
pub open spec fn social_rows(f: Seq<(Seq<char>, Seq<char>)>) -> int {
    max3(
        values_for(f, "social_kind"@).len() as int,
        values_for(f, "social_label"@).len() as int,
        values_for(f, "social_url"@).len() as int,
    )
}

fn copy_settings(s: &SiteSettings) -> (r: SiteSettings)
    ensures
        r.site_title@ == s.site_title@,
        r.site_tagline@ == s.site_tagline@,
        r.author_name@ == s.author_name@,
        r.avatar_url@ == s.avatar_url@,
        r.logo_url@ == s.logo_url@,
        r.favicon_url@ == s.favicon_url@,
        r.seo_keywords@ == s.seo_keywords@,
        r.seo_description@ == s.seo_description@,
        social_models(r.social_links@) == social_models(s.social_links@),
        nav_models(r.nav_items@) == nav_models(s.nav_items@),
        r.icp_beian@ == s.icp_beian@,
        r.gongan_beian@ == s.gongan_beian@,
        r.gongan_beian_url@ == s.gongan_beian_url@,
        r.footer_copyright@ == s.footer_copyright@,
        r.footer_text@ == s.footer_text@,
        r.site_access@ == s.site_access@,
{
    let mut social: Vec<SocialLink> = Vec::new();
    let mut i: usize = 0;
    while i < s.social_links.len()
        invariant
            0 <= i <= s.social_links.len(),
            social_models(social@) == social_models(s.social_links@.take(i as int)),
        decreases s.social_links.len() - i,
    {
        let l = &s.social_links[i];
        let x = SocialLink {
            kind: string_of(l.kind.as_str()),
            label: string_of(l.label.as_str()),
            url: string_of(l.url.as_str()),
        };
        let ghost before = social_models(social@);
        social.push(x);
        assert(social_models(social@) =~= before.push(x@));
        assert(social_models(s.social_links@.take(i + 1)) =~= social_models(
            s.social_links@.take(i as int),
        ).push(s.social_links@[i as int]@));
        i = i + 1;
    }
    assert(s.social_links@.take(s.social_links@.len() as int) =~= s.social_links@);
    let mut nav: Vec<NavItemConfig> = Vec::new();
    let mut j: usize = 0;
    while j < s.nav_items.len()
        invariant
            0 <= j <= s.nav_items.len(),
            nav_models(nav@) == nav_models(s.nav_items@.take(j as int)),
        decreases s.nav_items.len() - j,
    {
        let n = &s.nav_items[j];
        let x = NavItemConfig {
            kind: string_of(n.kind.as_str()),
            key: string_of(n.key.as_str()),
            page_id: n.page_id,
            label: string_of(n.label.as_str()),
            url: string_of(n.url.as_str()),
            visibility: string_of(n.visibility.as_str()),
        };
        let ghost before = nav_models(nav@);
        nav.push(x);
        assert(nav_models(nav@) =~= before.push(x@));
        assert(nav_models(s.nav_items@.take(j + 1)) =~= nav_models(s.nav_items@.take(j as int)).push(
            s.nav_items@[j as int]@,
        ));
        j = j + 1;
    }
    assert(s.nav_items@.take(s.nav_items@.len() as int) =~= s.nav_items@);
    SiteSettings {
        site_title: string_of(s.site_title.as_str()),
        site_tagline: string_of(s.site_tagline.as_str()),
        author_name: string_of(s.author_name.as_str()),
        avatar_url: string_of(s.avatar_url.as_str()),
        logo_url: string_of(s.logo_url.as_str()),
        favicon_url: string_of(s.favicon_url.as_str()),
        seo_keywords: string_of(s.seo_keywords.as_str()),
        seo_description: string_of(s.seo_description.as_str()),
        social_links: social,
        nav_items: nav,
        icp_beian: string_of(s.icp_beian.as_str()),
        gongan_beian: string_of(s.gongan_beian.as_str()),
        gongan_beian_url: string_of(s.gongan_beian_url.as_str()),
        footer_copyright: string_of(s.footer_copyright.as_str()),
        footer_text: string_of(s.footer_text.as_str()),
        site_access: string_of(s.site_access.as_str()),
    }
}

/// Applies the settings form to the current settings. Refused, with the
/// settings unchanged, where the title or the author is blank; refused, with
/// the title, tagline, author and access taken, where there are more than
/// twelve social rows; else saved with every field read and the brand
/// images changed as `brand_change` says (avatar, logo, favicon).
#[verifier::rlimit(40)]
pub fn apply_settings_form(current: &SiteSettings, form: &FormFields) -> (r: Result<
    SettingsSaved,
    SettingsRejected,
>)
    ensures
        ({
            let f = pairs_view(form.pairs@);
            match r {
                Err(rej) => {
                    if clamped(f, "site_title"@, 80).len() == 0 {
                        rej.message@ == "站点标题不能为空"@ && rej.settings.site_title@
                            == current.site_title@
                    } else if clamped(f, "author_name"@, 40).len() == 0 {
                        rej.message@ == "作者名不能为空"@ && rej.settings.site_title@
                            == current.site_title@
                    } else {
                        &&& social_rows(f) > SOCIAL_MAX
                        &&& rej.message@ == "社交链接最多 12 条"@
                        &&& rej.settings.site_title@ == clamped(f, "site_title"@, 80)
                        &&& rej.settings.author_name@ == clamped(f, "author_name"@, 40)
                        &&& rej.settings.site_tagline@ == clamped(f, "site_tagline"@, 160)
                        &&& rej.settings.site_access@ == access_norm(value_for(f, "site_access"@))
                        &&& rej.settings.seo_keywords@ == current.seo_keywords@
                    }
                },
                Ok(saved) => {
                    let av = brand_change(current.avatar_url@, value_for(f, "avatar_url"@));
                    let lo = brand_change(current.logo_url@, value_for(f, "logo_url"@));
                    let fa = brand_change(current.favicon_url@, value_for(f, "favicon_url"@));
                    &&& clamped(f, "site_title"@, 80).len() > 0
                    &&& clamped(f, "author_name"@, 40).len() > 0
                    &&& social_rows(f) <= SOCIAL_MAX
                    &&& text_fields_read(saved.settings, f)
                    &&& social_models(saved.settings.social_links@) == assemble_fold(
                        values_for(f, "social_kind"@),
                        values_for(f, "social_label"@),
                        values_for(f, "social_url"@),
                        social_rows(f),
                    )
                    &&& nav_models(saved.settings.nav_items@) == nav_models(current.nav_items@)
                    &&& saved.settings.avatar_url@ == av.0
                    &&& saved.settings.logo_url@ == lo.0
                    &&& saved.settings.favicon_url@ == fa.0
                    &&& strings_view(saved.delete_files@) == deletions(av.1, lo.1, fa.1)
                },
            }
        }),
{
    let site_title = crate::text::clamp_text(form.form_one("site_title").as_str(), MAX_TITLE);
    let site_tagline = crate::text::clamp_text(form.form_one("site_tagline").as_str(), MAX_TAGLINE);
    let author_name = crate::text::clamp_text(form.form_one("author_name").as_str(), MAX_AUTHOR);
    let site_access = SiteSettings::normalize_site_access(form.form_one("site_access").as_str());
    if chars_of(site_title.as_str()).len() == 0 {
        return Err(
            SettingsRejected { settings: copy_settings(current), message: string_of("站点标题不能为空") },
        );
    }
    if chars_of(author_name.as_str()).len() == 0 {
        return Err(
            SettingsRejected { settings: copy_settings(current), message: string_of("作者名不能为空") },
        );
    }
    let kinds = form.form_many("social_kind");
    let labels = form.form_many("social_label");
    let urls = form.form_many("social_url");
    let mut settings = copy_settings(current);
    let social = match crate::models::settings::assemble_social_links(&kinds, &labels, &urls) {
        Ok(v) => v,
        Err(msg) => {
            settings.site_title = site_title;
            settings.site_tagline = site_tagline;
            settings.author_name = author_name;
            settings.site_access = site_access;
            return Err(SettingsRejected { settings, message: msg });
        },
    };
    settings.site_title = site_title;
    settings.site_tagline = site_tagline;
    settings.author_name = author_name;
    settings.site_access = site_access;
    settings.seo_keywords = crate::text::clamp_text(form.form_one("seo_keywords").as_str(), MAX_KEYWORDS);
    settings.seo_description = crate::text::clamp_text(
        form.form_one("seo_description").as_str(),
        MAX_DESCRIPTION,
    );
    settings.icp_beian = crate::text::clamp_text(form.form_one("icp_beian").as_str(), MAX_BEIAN);
    settings.gongan_beian = crate::text::clamp_text(form.form_one("gongan_beian").as_str(), MAX_BEIAN);
    settings.gongan_beian_url = SiteSettings::sanitize_beian_url(
        crate::text::clamp_text(form.form_one("gongan_beian_url").as_str(), 500).as_str(),
    );
    settings.footer_copyright = crate::text::clamp_text(
        form.form_one("footer_copyright").as_str(),
        MAX_FOOTER_TEXT,
    );
    settings.footer_text = crate::text::clamp_text(form.form_one("footer_text").as_str(), MAX_FOOTER_TEXT);
    settings.social_links = social;
    let mut delete_files: Vec<String> = Vec::new();
    let (avatar, d1) = brand_change_exec(current.avatar_url.as_str(), form.form_one("avatar_url").as_str());
    let (logo, d2) = brand_change_exec(current.logo_url.as_str(), form.form_one("logo_url").as_str());
    let (favicon, d3) = brand_change_exec(current.favicon_url.as_str(), form.form_one("favicon_url").as_str());
    settings.avatar_url = avatar;
    settings.logo_url = logo;
    settings.favicon_url = favicon;
    let ghost g1 = match &d1 { Some(d) => Some(d@), None => None::<Seq<char>> };
    let ghost g2 = match &d2 { Some(d) => Some(d@), None => None::<Seq<char>> };
    let ghost g3 = match &d3 { Some(d) => Some(d@), None => None::<Seq<char>> };
    if let Some(d) = d1 {
        delete_files.push(d);
    }
    if let Some(d) = d2 {
        delete_files.push(d);
    }
    if let Some(d) = d3 {
        delete_files.push(d);
    }
    assert(strings_view(delete_files@) =~= deletions(g1, g2, g3));
    Ok(SettingsSaved { settings, delete_files })
}

/// The old site uploads to delete, in the order avatar, logo, favicon.
pub open spec fn deletions(a: Option<Seq<char>>, b: Option<Seq<char>>, c: Option<Seq<char>>) -> Seq<
    Seq<char>,
> {
    let s1 = match a {
        Some(x) => seq![x],
        None => Seq::empty(),
    };
    let s2 = match b {
        Some(x) => seq![x],
        None => Seq::empty(),
    };
    let s3 = match c {
        Some(x) => seq![x],
        None => Seq::empty(),
    };
    s1 + s2 + s3
}


// ---------------------------------------------------------------------------
// The navigation
// ---------------------------------------------------------------------------

pub open spec fn nth_text(v: Seq<Seq<char>>, i: int, d: Seq<char>) -> Seq<char> {
    if 0 <= i < v.len() {
        v[i]
    } else {
        d
    }
}

/// The rows of the navigation form: the longest of its parallel lists.
pub open spec fn nav_rows(f: Seq<(Seq<char>, Seq<char>)>) -> int {
    let a = values_for(f, "nav_type"@).len() as int;
    let b = values_for(f, "nav_key"@).len() as int;
    let c = values_for(f, "nav_page_id"@).len() as int;
    let d = values_for(f, "nav_label"@).len() as int;
    let e = values_for(f, "nav_url"@).len() as int;
    let g = values_for(f, "nav_enabled"@).len() as int;
    max3(max3(a, b, c), max3(d, e, g), 0)
}

/// The page a row names: a positive number, or none.
pub open spec fn row_page_id(raw: Seq<char>) -> Option<i64> {
    match i64_value(raw) {
        Some(v) => if v > 0 {
            Some(v as i64)
        } else {
            None
        },
        None => None,
    }
}

pub open spec fn enabled_flag(v: Seq<char>) -> bool {
    v == "1"@ || v == "on"@ || v == "true"@
}

/// Row `i` of the navigation form as an item: a missing type is a built-in
/// route; a row switched off is hidden, any other public.
pub open spec fn nav_row(f: Seq<(Seq<char>, Seq<char>)>, i: int) -> NavItemModel {
    let flags = values_for(f, "nav_enabled"@);
    NavItemModel {
        kind: nth_text(values_for(f, "nav_type"@), i, "builtin"@),
        key: nth_text(values_for(f, "nav_key"@), i, Seq::empty()),
        page_id: if 0 <= i < values_for(f, "nav_page_id"@).len() {
            row_page_id(values_for(f, "nav_page_id"@)[i])
        } else {
            None
        },
        label: nth_text(values_for(f, "nav_label"@), i, Seq::empty()),
        url: nth_text(values_for(f, "nav_url"@), i, Seq::empty()),
        visibility: if 0 <= i < flags.len() && !enabled_flag(flags[i]) {
            "hidden"@
        } else {
            "public"@
        },
    }
}

pub open spec fn nav_rows_upto(f: Seq<(Seq<char>, Seq<char>)>, n: int) -> Seq<NavItemModel> {
    Seq::new(n as nat, |i: int| nav_row(f, i))
}

/// What is wrong with a row, if anything: a page row without a page, or a
/// custom row without a valid link.
pub open spec fn row_error(item: NavItemModel) -> Option<Seq<char>> {
    if item.kind == "page"@ && item.page_id is None {
        Some("请为页面导航选择页面"@)
    } else if item.kind == "custom"@ && sanitize_nav_url_spec(item.url) is None {
        Some("请填写有效链接（https:// 或 /path）"@)
    } else {
        None
    }
}

/// The first row's complaint among the first `n` rows.
pub open spec fn first_row_error(rows: Seq<NavItemModel>, n: int) -> Option<Seq<char>>
    decreases n,
{
    if n <= 0 {
        None
    } else {
        match first_row_error(rows, n - 1) {
            Some(e) => Some(e),
            None => row_error(rows[n - 1]),
        }
    }
}

fn nth_or_str<'a>(v: &'a Vec<String>, i: usize, d: &'a str) -> (r: &'a str)
    ensures
        r@ == nth_text(strings_view(v@), i as int, d@),
{
    if i < v.len() {
        v[i].as_str()
    } else {
        d
    }
}

/// Reads the navigation form: at most sixteen rows. A refused form gives
/// the message and the rows as the editor shows them; an accepted one the
/// navigation as it is stored.
pub fn assemble_nav_items(form: &FormFields) -> (r: Result<Vec<NavItemConfig>, (String, Vec<NavItemConfig>)>)
    ensures
        ({
            let f = pairs_view(form.pairs@);
            let n = nav_rows(f);
            let rows = nav_rows_upto(f, n);
            if n > NAV_MAX_ITEMS {
                r matches Err((m, items)) && m@ == "导航最多 16 项"@ && nav_models(items@)
                    == crate::models::nav::default_items()
            } else {
                match first_row_error(rows, n) {
                    Some(e) => r matches Err((m, items)) && m@ == e && nav_models(items@)
                        == for_editor_spec(rows),
                    None => r matches Ok(items) && nav_models(items@) == normalize_list_spec(rows),
                }
            }
        }),
{
    let kinds = form.form_many("nav_type");
    let keys = form.form_many("nav_key");
    let page_ids = form.form_many("nav_page_id");
    let labels = form.form_many("nav_label");
    let urls = form.form_many("nav_url");
    let flags = form.form_many("nav_enabled");
    let mut n = kinds.len();
    if keys.len() > n {
        n = keys.len();
    }
    if page_ids.len() > n {
        n = page_ids.len();
    }
    if labels.len() > n {
        n = labels.len();
    }
    if urls.len() > n {
        n = urls.len();
    }
    if flags.len() > n {
        n = flags.len();
    }
    let ghost f = pairs_view(form.pairs@);
    assert(n == nav_rows(f));
    if n > NAV_MAX_ITEMS {
        return Err((string_of("导航最多 16 项"), NavItemConfig::system_defaults()));
    }
    let ghost rows = nav_rows_upto(f, n as int);
    let mut raw: Vec<NavItemConfig> = Vec::new();
    let mut err: Option<&'static str> = None;
    let mut i: usize = 0;
    while i < n
        invariant
            0 <= i <= n,
            n <= NAV_MAX_ITEMS,
            f == pairs_view(form.pairs@),
            rows == nav_rows_upto(f, n as int),
            strings_view(kinds@) == values_for(f, "nav_type"@),
            strings_view(keys@) == values_for(f, "nav_key"@),
            strings_view(page_ids@) == values_for(f, "nav_page_id"@),
            strings_view(labels@) == values_for(f, "nav_label"@),
            strings_view(urls@) == values_for(f, "nav_url"@),
            strings_view(flags@) == values_for(f, "nav_enabled"@),
            nav_models(raw@) == rows.take(i as int),
            match err {
                Some(e) => first_row_error(rows, i as int) == Some(e@),
                None => first_row_error(rows, i as int) is None,
            },
        decreases n - i,
    {
        proof {
            reveal_strlit("");
        }
        let kind = nth_or_str(&kinds, i, "builtin");
        let key = nth_or_str(&keys, i, "");
        let page_id: Option<i64> = if i < page_ids.len() {
            match parse_i64(page_ids[i].as_str()) {
                Some(v) => if v > 0 {
                    Some(v)
                } else {
                    None
                },
                None => None,
            }
        } else {
            None
        };
        let label = nth_or_str(&labels, i, "");
        let url = nth_or_str(&urls, i, "");
        let enabled = if i < flags.len() {
            let v = flags[i].as_str();
            str_eq(v, "1") || str_eq(v, "on") || str_eq(v, "true")
        } else {
            true
        };
        let item = NavItemConfig {
            kind: string_of(kind),
            key: string_of(key),
            page_id,
            label: string_of(label),
            url: string_of(url),
            visibility: string_of(
                if enabled {
                    "public"
                } else {
                    "hidden"
                },
            ),
        };
        assert(rows[i as int] == nav_row(f, i as int));
        assert(item.page_id == rows[i as int].page_id) by {
            if i < page_ids.len() {
                assert(strings_view(page_ids@)[i as int] == page_ids@[i as int]@);
            }
        }
        assert(item.visibility@ == rows[i as int].visibility) by {
            if i < flags.len() {
                assert(strings_view(flags@)[i as int] == flags@[i as int]@);
            }
        }
        assert(item.kind@ == rows[i as int].kind);
        assert(item.key@ == rows[i as int].key);
        assert(item.label@ == rows[i as int].label);
        assert(item.url@ == rows[i as int].url);
        assert(item@ == rows[i as int]);
        if err.is_none() {
            if str_eq(kind, "page") && page_id.is_none() {
                err = Some("请为页面导航选择页面");
            } else if str_eq(kind, "custom") && sanitize_nav_url(url).is_none() {
                err = Some("请填写有效链接（https:// 或 /path）");
            }
        }
        let ghost before = nav_models(raw@);
        raw.push(item);
        assert(nav_models(raw@) =~= before.push(rows[i as int]));
        assert(rows.take(i + 1) =~= rows.take(i as int).push(rows[i as int]));
        i = i + 1;
    }
    assert(rows.take(n as int) =~= rows);
    match err {
        Some(msg) => {
            let echo = NavItemConfig::for_editor(raw);
            Err((string_of(msg), echo))
        },
        None => Ok(NavItemConfig::normalize_list(raw)),
    }
}

} // verus!
