//! What the admin and public forms carry, and the rules that turn what was
//! submitted into what is stored: status and visibility words, slugs, ids,
//! the fields of a post's multipart form, and the checks a save must pass.
use vstd::prelude::*;

use crate::kb_move::{without, without_exec};
use crate::markdown::{slug_core, slugify};
use crate::models::post::RELATED_MANUAL_MAX;
use crate::text::{
    chars_of, clamp_text, i64_value, int_dec, lower_seq, new_string, parse_i64, push_i64,
    push_str, str_eq, string_of, take_n, trim, trim_string, trimmed, string_from_chars,
};
use crate::upload::{sanitize_cover_url, sanitize_cover_url_spec};

verus! {

// ---------------------------------------------------------------------------
// Shared rules
// ---------------------------------------------------------------------------

/// Anything but `published` is saved as a draft.
pub fn status_value(status: &str) -> (r: &'static str)
    ensures
        r@ == (if status@ == "published"@ {
            "published"@
        } else {
            "draft"@
        }),
{
    if str_eq(status, "published") {
        "published"
    } else {
        "draft"
    }
}

/// Anything but `private` is public.
pub fn visibility_value(visibility: &str) -> (r: &'static str)
    ensures
        r@ == (if visibility@ == "private"@ {
            "private"@
        } else {
            "public"@
        }),
{
    if str_eq(visibility, "private") {
        "private"
    } else {
        "public"
    }
}

/// A spark is public only when asked to be; anything else is private.
pub fn spark_visibility_value(visibility: &str) -> (r: &'static str)
    ensures
        r@ == (if visibility@ == "public"@ {
            "public"@
        } else {
            "private"@
        }),
{
    if str_eq(visibility, "public") {
        "public"
    } else {
        "private"
    }
}

/// The text a slug is made from: the submitted slug, or the title where
/// the slug is blank.
pub open spec fn slug_source(title: Seq<char>, slug: Seq<char>) -> Seq<char> {
    if trim(slug).len() == 0 {
        title
    } else {
        trim(slug)
    }
}

/// The slug saved for a title and a submitted slug: `slugify` of the slug,
/// or of the title where the slug is blank.
pub fn normalize_slug(title: &str, slug: &str) -> (r: String)
    ensures
        slug_core(slug_source(title@, slug@)).len() > 0 ==> r@ == slug_core(
            slug_source(title@, slug@),
        ),
        slug_core(slug_source(title@, slug@)).len() == 0 ==> r@.len() == 13 && r@.take(5)
            == "post-"@ && forall|i: int|
            5 <= i < 13 ==> crate::markdown::is_lower_hex(#[trigger] r@[i]),
{
    let s = trimmed(slug);
    if s.len() == 0 {
        slugify(title)
    } else {
        let t = string_from_chars(&s);
        slugify(t.as_str())
    }
}

/// A parent (or sibling) id from a form: a positive integer, or none.
pub open spec fn parent_id_value(raw: Seq<char>) -> Option<int> {
    let s = trim(raw);
    if s.len() == 0 {
        None
    } else {
        match i64_value(s) {
            Some(v) => if v > 0 {
                Some(v)
            } else {
                None
            },
            None => None,
        }
    }
}

pub fn parse_parent_id(raw: &str) -> (r: Option<i64>)
    ensures
        match r {
            Some(v) => parent_id_value(raw@) == Some(v as int),
            None => parent_id_value(raw@) is None,
        },
{
    let s = trim_string(raw);
    if chars_of(s.as_str()).len() == 0 {
        return None;
    }
    match parse_i64(s.as_str()) {
        Some(v) => if v > 0 {
            Some(v)
        } else {
            None
        },
        None => None,
    }
}

/// A taxonomy is a tag only when asked to be; anything else is a category.
pub fn normalize_tax_kind(kind: &str) -> (r: &'static str)
    ensures
        r@ == (if kind@ == "tag"@ {
            "tag"@
        } else {
            "category"@
        }),
{
    if str_eq(kind, "tag") {
        "tag"
    } else {
        "category"
    }
}

/// The name a taxonomy kind is shown by.
pub fn tax_kind_label(kind: &str) -> (r: &'static str)
    ensures
        r@ == (if kind@ == "tag"@ {
            "标签"@
        } else {
            "分类"@
        }),
{
    if str_eq(kind, "tag") {
        "标签"
    } else {
        "分类"
    }
}

/// A new knowledge-base node is a folder only when asked to be.
pub fn node_type_value(node_type: &str) -> (r: &'static str)
    ensures
        r@ == (if node_type@ == "folder"@ {
            "folder"@
        } else {
            "doc"@
        }),
{
    if str_eq(node_type, "folder") {
        "folder"
    } else {
        "doc"
    }
}

/// Why a save is refused.
#[derive(Debug, Clone, Copy, PartialEq, Eq, Structural)]
pub enum SaveError {
    TitleEmpty,
    SlugTaken,
    SaveFailed,
}

impl SaveError {
    pub open spec fn text(self) -> Seq<char> {
        match self {
            SaveError::TitleEmpty => "标题不能为空"@,
            SaveError::SlugTaken => "Slug 已被占用"@,
            SaveError::SaveFailed => "保存失败，请稍后重试"@,
        }
    }

    pub fn message(&self) -> (r: &'static str)
        ensures
            r@ == self.text(),
    {
        match self {
            SaveError::TitleEmpty => "标题不能为空",
            SaveError::SlugTaken => "Slug 已被占用",
            SaveError::SaveFailed => "保存失败，请稍后重试",
        }
    }
}

/// The first check a titled, slugged item fails: an empty title, then a
/// slug another item holds.
pub fn check_title_and_slug(title: &str, slug_taken: bool) -> (r: Option<SaveError>)
    ensures
        r == (if title@.len() == 0 {
            Some(SaveError::TitleEmpty)
        } else if slug_taken {
            Some(SaveError::SlugTaken)
        } else {
            None::<SaveError>
        }),
{
    if chars_of(title).len() == 0 {
        Some(SaveError::TitleEmpty)
    } else if slug_taken {
        Some(SaveError::SlugTaken)
    } else {
        None
    }
}

// ---------------------------------------------------------------------------
// Form payloads
// ---------------------------------------------------------------------------

#[derive(Debug, Clone)]
pub struct LoginForm {
    pub username: String,
    pub password: String,
    pub next: Option<String>,
}

#[derive(Debug, Clone)]
pub struct LoginQuery {
    pub next: Option<String>,
}

#[derive(Debug, Clone)]
pub struct NodeQuery {
    pub id: Option<i64>,
}

#[derive(Debug, Clone)]
pub struct BookForm {
    pub title: String,
    pub slug: String,
    pub summary: String,
    pub cover_url: String,
    pub status: String,
    pub visibility: String,
}

#[derive(Debug, Clone)]
pub struct CreateNodeForm {
    pub parent_id: String,
    pub node_type: String,
    pub title: String,
}

#[derive(Debug, Clone)]
pub struct SaveNodeForm {
    pub title: String,
    pub slug: String,
    pub content_md: String,
    pub status: String,
    pub visibility: String,
    pub published_at: String,
}

#[derive(Debug, Clone)]
pub struct RenameNodeForm {
    pub title: String,
}

#[derive(Debug, Clone)]
pub struct MoveNodeForm {
    pub parent_id: String,
    pub before_id: String,
}

#[derive(Debug, Clone)]
pub struct ExportQuery {
    pub format: String,
}

#[derive(Debug, Clone)]
pub struct FlashPayload {
    pub level: String,
    pub message: String,
}

#[derive(Debug, Clone)]
pub struct InstallForm {
    pub site_title: String,
    pub site_tagline: String,
    pub author_name: String,
    pub username: String,
    pub password: String,
    pub password_confirm: String,
}

#[derive(Debug, Clone)]
pub struct MediaApiQuery {
    pub page: Option<u32>,
    pub kind: Option<String>,
}

#[derive(Debug, Clone)]
pub struct MediaApiItem {
    pub id: i64,
    pub name: String,
    pub url: String,
    pub mime: String,
    pub thumb: String,
}

#[derive(Debug, Clone)]
pub struct MediaApiResponse {
    pub page: u32,
    pub limit: u32,
    pub total: i64,
    pub items: Vec<MediaApiItem>,
}

#[derive(Debug, Clone)]
pub struct PageForm {
    pub title: String,
    pub slug: String,
    pub content_md: String,
    pub status: String,
    pub visibility: String,
}

#[derive(Debug, Clone)]
pub struct RelatedPostsApiQuery {
    pub q: Option<String>,
    pub page: Option<u32>,
    pub exclude: Option<i64>,
}

#[derive(Debug, Clone)]
pub struct RelatedPostsApiItem {
    pub id: i64,
    pub title: String,
    pub slug: String,
    pub status: String,
    pub date: String,
}

#[derive(Debug, Clone)]
pub struct RelatedPostsApiResponse {
    pub page: u32,
    pub limit: u32,
    pub total: i64,
    pub items: Vec<RelatedPostsApiItem>,
}

#[derive(Debug, Clone)]
pub struct SearchQuery {
    pub q: Option<String>,
    pub page: Option<u32>,
}

#[derive(Debug, Clone)]
pub struct PostsIndexQuery {
    pub c: Option<String>,
    pub page: Option<u32>,
}

#[derive(Debug, Clone)]
pub struct PasswordForm {
    pub current_password: String,
    pub new_password: String,
    pub confirm_password: String,
}

#[derive(Debug, Clone)]
pub struct SparkForm {
    pub content_md: String,
    pub visibility: String,
}

#[derive(Debug, Clone)]
pub struct CaptureQuery {
    pub saved: Option<String>,
}

#[derive(Debug, Clone)]
pub struct TaxQuery {
    pub kind: Option<String>,
    pub page: Option<u32>,
}

#[derive(Debug, Clone)]
pub struct CreateTaxForm {
    pub name: String,
    pub slug: String,
    pub kind: String,
}

#[derive(Debug, Clone)]
pub struct UpdateTaxForm {
    pub name: String,
    pub slug: String,
    pub kind: String,
}

/// The export format asked for when none is given.
pub fn default_format() -> (r: String)
    ensures
        r@ == "markdown"@,
{
    string_of("markdown")
}


// ---------------------------------------------------------------------------
// A post's form
// ---------------------------------------------------------------------------

/// The fields of a post's form as read so far. A new form has status
/// `draft` and visibility `public`; ids are read as they come.
#[derive(Debug, Clone)]
pub struct PostFormData {
    pub title: String,
    pub slug: String,
    pub summary: String,
    pub content_md: String,
    pub status: String,
    pub visibility: String,
    pub published_at: String,
    pub remove_cover: bool,
    pub cover_url: String,
    pub taxonomy_ids: Vec<i64>,
    pub related_ids: Vec<i64>,
}

/// The id a form field holds, where its trimmed text is one.
pub open spec fn field_id(text: Seq<char>) -> Option<int> {
    i64_value(trim(text))
}

/// Whether a checkbox's value means "checked": `1`, or `on` in any case.
pub open spec fn checked_value(text: Seq<char>) -> bool {
    text == "1"@ || lower_seq(text) == "on"@
}

/// `b` is `a` after reading the field `name` with the text `text`: titles
/// and slugs are trimmed and cut to 200 characters, summaries to 300; the
/// Markdown, status and visibility are kept as sent; the cover and the
/// publication time are trimmed; a category or tag id is added where it is
/// a number; a related post id is added where it is a number not yet
/// chosen; any other field is ignored.
pub open spec fn post_field_read(
    a: PostFormData,
    b: PostFormData,
    name: Seq<char>,
    text: Seq<char>,
) -> bool {
    &&& b.title@ == (if name == "title"@ {
        take_n(trim(text), 200)
    } else {
        a.title@
    })
    &&& b.slug@ == (if name == "slug"@ {
        take_n(trim(text), 200)
    } else {
        a.slug@
    })
    &&& b.summary@ == (if name == "summary"@ {
        take_n(trim(text), 300)
    } else {
        a.summary@
    })
    &&& b.content_md@ == (if name == "content_md"@ {
        text
    } else {
        a.content_md@
    })
    &&& b.status@ == (if name == "status"@ {
        text
    } else {
        a.status@
    })
    &&& b.visibility@ == (if name == "visibility"@ {
        text
    } else {
        a.visibility@
    })
    &&& b.cover_url@ == (if name == "cover_url"@ {
        trim(text)
    } else {
        a.cover_url@
    })
    &&& b.published_at@ == (if name == "published_at"@ {
        trim(text)
    } else {
        a.published_at@
    })
    &&& b.remove_cover == (if name == "remove_cover"@ {
        checked_value(text)
    } else {
        a.remove_cover
    })
    &&& b.taxonomy_ids@ == (if (name == "category_ids"@ || name == "tag_ids"@) && field_id(text) is Some {
        a.taxonomy_ids@.push(field_id(text)->0 as i64)
    } else {
        a.taxonomy_ids@
    })
    &&& b.related_ids@ == (if name == "related_ids"@ && field_id(text) is Some
        && !a.related_ids@.contains(field_id(text)->0 as i64) {
        a.related_ids@.push(field_id(text)->0 as i64)
    } else {
        a.related_ids@
    })
}

/// Strictly increasing.
pub open spec fn increasing(s: Seq<i64>) -> bool {
    forall|i: int, j: int| 0 <= i < j < s.len() ==> s[i] < s[j]
}

/// The ids of `v` in increasing order, each once.
pub fn sorted_unique(v: &Vec<i64>) -> (r: Vec<i64>)
    ensures
        increasing(r@),
        forall|x: i64| r@.contains(x) <==> v@.contains(x),
{
    let mut r: Vec<i64> = Vec::new();
    let mut i: usize = 0;
    while i < v.len()
        invariant
            0 <= i <= v.len(),
            increasing(r@),
            forall|x: i64| r@.contains(x) <==> v@.take(i as int).contains(x),
        decreases v.len() - i,
    {
        let x = v[i];
        let mut p: usize = 0;
        while p < r.len() && r[p] < x
            invariant
                0 <= p <= r.len(),
                forall|k: int| 0 <= k < p ==> r@[k] < x,
            decreases r.len() - p,
        {
            p = p + 1;
        }
        let ghost old_r = r@;
        let ghost t0 = v@.take(i as int);
        let ghost t1 = v@.take(i + 1);
        assert(t1 =~= t0.push(x));
        if p < r.len() && r[p] == x {
            assert forall|y: i64| r@.contains(y) <==> t1.contains(y) by {
                if t1.contains(y) && y != x {
                    let k = choose|k: int| 0 <= k < i + 1 && t1[k] == y;
                    assert(t0[k] == y);
                }
                if y == x {
                    assert(r@[p as int] == x);
                    assert(t1[i as int] == x);
                }
                if r@.contains(y) {
                    assert(t0.contains(y));
                    let k = choose|k: int| 0 <= k < i && t0[k] == y;
                    assert(t1[k] == y);
                }
            }
        } else {
            r.insert(p, x);
            proof {
                old_r.insert_ensures(p as int, x);
                assert forall|a: int, b: int| 0 <= a < b < r@.len() implies r@[a] < r@[b] by {
                    if b < p {
                        assert(r@[a] == old_r[a] && r@[b] == old_r[b]);
                    } else if b == p {
                        assert(r@[a] == old_r[a]);
                    } else if a == p {
                        assert(r@[b] == old_r[b - 1]);
                        assert(old_r[p as int] >= x);
                        assert(old_r[p as int] != x);
                        if b - 1 > p {
                            assert(old_r[p as int] < old_r[b - 1]);
                        }
                    } else if a < p {
                        assert(r@[a] == old_r[a] && r@[b] == old_r[b - 1]);
                    } else {
                        assert(r@[a] == old_r[a - 1] && r@[b] == old_r[b - 1]);
                    }
                }
                assert forall|y: i64| r@.contains(y) <==> t1.contains(y) by {
                    if t1.contains(y) {
                        if y == x {
                            assert(r@[p as int] == x);
                        } else {
                            let k = choose|k: int| 0 <= k < i + 1 && t1[k] == y;
                            assert(t0[k] == y);
                            assert(old_r.contains(y));
                            let q = choose|q: int| 0 <= q < old_r.len() && old_r[q] == y;
                            if q < p {
                                assert(r@[q] == y);
                            } else {
                                assert(r@[q + 1] == y);
                            }
                        }
                    }
                    if r@.contains(y) {
                        let q = choose|q: int| 0 <= q < r@.len() && r@[q] == y;
                        if q == p {
                            assert(t1[i as int] == x);
                        } else {
                            if q < p {
                                assert(old_r[q] == y);
                            } else {
                                assert(old_r[q - 1] == y);
                            }
                            assert(old_r.contains(y));
                            let k = choose|k: int| 0 <= k < i && t0[k] == y;
                            assert(t1[k] == y);
                        }
                    }
                }
            }
        }
        i = i + 1;
    }
    assert(v@.take(v@.len() as int) =~= v@);
    r
}

fn contains_id(v: &Vec<i64>, x: i64) -> (r: bool)
    ensures
        r == v@.contains(x),
{
    let mut i: usize = 0;
    while i < v.len()
        invariant
            0 <= i <= v.len(),
            forall|k: int| 0 <= k < i ==> v@[k] != x,
        decreases v.len() - i,
    {
        if v[i] == x {
            return true;
        }
        i = i + 1;
    }
    false
}

impl PostFormData {
    /// An empty form: status `draft`, visibility `public`.
    pub fn new() -> (r: Self)
        ensures
            r.title@.len() == 0,
            r.slug@.len() == 0,
            r.summary@.len() == 0,
            r.content_md@.len() == 0,
            r.status@ == "draft"@,
            r.visibility@ == "public"@,
            r.published_at@.len() == 0,
            !r.remove_cover,
            r.cover_url@.len() == 0,
            r.taxonomy_ids@.len() == 0,
            r.related_ids@.len() == 0,
    {
        PostFormData {
            title: new_string(),
            slug: new_string(),
            summary: new_string(),
            content_md: new_string(),
            status: string_of("draft"),
            visibility: string_of("public"),
            published_at: new_string(),
            remove_cover: false,
            cover_url: new_string(),
            taxonomy_ids: Vec::new(),
            related_ids: Vec::new(),
        }
    }

    /// Reads one field of the form (see `post_field_read`).
    #[verifier::rlimit(60)]
    pub fn accept_field(&mut self, name: &str, text: &str)
        ensures
            post_field_read(*old(self), *final(self), name@, text@),
    {
        proof {
            reveal_strlit("1");
            reveal_strlit("on");
            reveal_strlit("title");
            reveal_strlit("slug");
            reveal_strlit("summary");
            reveal_strlit("content_md");
            reveal_strlit("status");
            reveal_strlit("visibility");
            reveal_strlit("cover_url");
            reveal_strlit("published_at");
            reveal_strlit("remove_cover");
            reveal_strlit("category_ids");
            reveal_strlit("tag_ids");
            reveal_strlit("related_ids");
            assert("title"@.len() == 5 && "title"@[0] == 't');
            assert("slug"@.len() == 4 && "slug"@[0] == 's');
            assert("summary"@.len() == 7 && "summary"@[0] == 's');
            assert("content_md"@.len() == 10 && "content_md"@[0] == 'c');
            assert("status"@.len() == 6 && "status"@[0] == 's');
            assert("visibility"@.len() == 10 && "visibility"@[0] == 'v');
            assert("cover_url"@.len() == 9 && "cover_url"@[0] == 'c');
            assert("published_at"@.len() == 12 && "published_at"@[0] == 'p');
            assert("remove_cover"@.len() == 12 && "remove_cover"@[0] == 'r');
            assert("category_ids"@.len() == 12 && "category_ids"@[0] == 'c');
            assert("tag_ids"@.len() == 7 && "tag_ids"@[0] == 't');
            assert("related_ids"@.len() == 11 && "related_ids"@[0] == 'r');
        }
        if str_eq(name, "title") {
            self.title = clamp_text(text, 200);
        } else if str_eq(name, "slug") {
            self.slug = clamp_text(text, 200);
        } else if str_eq(name, "summary") {
            self.summary = clamp_text(text, 300);
        } else if str_eq(name, "content_md") {
            self.content_md = string_of(text);
        } else if str_eq(name, "status") {
            self.status = string_of(text);
        } else if str_eq(name, "visibility") {
            self.visibility = string_of(text);
        } else if str_eq(name, "cover_url") {
            self.cover_url = trim_string(text);
        } else if str_eq(name, "published_at") {
            self.published_at = trim_string(text);
        } else if str_eq(name, "remove_cover") {
            let lower = crate::text::lower_vec(&chars_of(text));
            self.remove_cover = str_eq(text, "1") || (lower.len() == 2 && lower[0] == 'o'
                && lower[1] == 'n');
            proof {
                if lower@.len() == 2 && lower@[0] == 'o' && lower@[1] == 'n' {
                    assert(lower@ =~= "on"@);
                }
            }
        } else if str_eq(name, "category_ids") || str_eq(name, "tag_ids") {
            let t = trim_string(text);
            if let Some(id) = parse_i64(t.as_str()) {
                self.taxonomy_ids.push(id);
            }
        } else if str_eq(name, "related_ids") {
            let t = trim_string(text);
            if let Some(id) = parse_i64(t.as_str()) {
                if !contains_id(&self.related_ids, id) {
                    self.related_ids.push(id);
                }
            }
        }
    }

    /// Closes the form: category and tag ids sorted, each once; at most
    /// `RELATED_MANUAL_MAX` related posts, the first ones chosen.
    pub fn finish(&mut self)
        ensures
            increasing(final(self).taxonomy_ids@),
            forall|x: i64|
                final(self).taxonomy_ids@.contains(x) <==> old(self).taxonomy_ids@.contains(x),
            final(self).related_ids@ == (if old(self).related_ids@.len() > RELATED_MANUAL_MAX {
                old(self).related_ids@.take(RELATED_MANUAL_MAX as int)
            } else {
                old(self).related_ids@
            }),
            final(self).title == old(self).title,
            final(self).slug == old(self).slug,
            final(self).summary == old(self).summary,
            final(self).content_md == old(self).content_md,
            final(self).status == old(self).status,
            final(self).visibility == old(self).visibility,
            final(self).published_at == old(self).published_at,
            final(self).remove_cover == old(self).remove_cover,
            final(self).cover_url == old(self).cover_url,
    {
        self.taxonomy_ids = sorted_unique(&self.taxonomy_ids);
        if self.related_ids.len() > RELATED_MANUAL_MAX {
            self.related_ids.truncate(RELATED_MANUAL_MAX);
        }
    }
}

/// The related posts a post keeps: those chosen other than itself.
pub fn related_without_self(ids: &Vec<i64>, self_id: i64) -> (r: Vec<i64>)
    ensures
        r@ == without(ids@, self_id),
{
    without_exec(ids, self_id)
}

/// The cover a post is saved with, and whether the image it had is to be
/// deleted.
#[derive(Debug, Clone)]
pub struct CoverChange {
    pub cover_url: String,
    pub delete_old: bool,
}

/// The cover after an edit: none where it is removed, the new safe cover
/// where it changed, the old one otherwise; the old image goes where the
/// cover is removed or changed and there was one.
pub fn next_cover(existing: &str, remove: bool, submitted: &str) -> (r: CoverChange)
    ensures
        remove ==> r.cover_url@.len() == 0 && r.delete_old == (existing@.len() > 0),
        !remove && sanitize_cover_url_spec(submitted@) != existing@ ==> r.cover_url@
            == sanitize_cover_url_spec(submitted@) && r.delete_old == (existing@.len() > 0),
        !remove && sanitize_cover_url_spec(submitted@) == existing@ ==> r.cover_url@ == existing@
            && !r.delete_old,
{
    let had = chars_of(existing).len() > 0;
    if remove {
        return CoverChange { cover_url: new_string(), delete_old: had };
    }
    let next = sanitize_cover_url(submitted);
    if str_eq(next.as_str(), existing) {
        CoverChange { cover_url: string_of(existing), delete_old: false }
    } else {
        CoverChange { cover_url: next, delete_old: had }
    }
}

/// The cover of a new post: none where it is removed, else the safe cover.
pub fn new_cover(remove: bool, submitted: &str) -> (r: String)
    ensures
        r@ == (if remove {
            Seq::<char>::empty()
        } else {
            sanitize_cover_url_spec(submitted@)
        }),
{
    if remove {
        new_string()
    } else {
        sanitize_cover_url(submitted)
    }
}

/// Where a post's form is sent: `/admin/posts/new` for a new post, else
/// `/admin/posts/{id}/edit`.
pub open spec fn post_form_action(id: Option<i64>) -> Seq<char> {
    match id {
        None => "/admin/posts/new"@,
        Some(i) => "/admin/posts/"@ + int_dec(i as int) + "/edit"@,
    }
}

pub fn post_form_action_of(id: Option<i64>) -> (r: String)
    ensures
        r@ == post_form_action(id),
{
    match id {
        None => string_of("/admin/posts/new"),
        Some(i) => {
            let mut s = string_of("/admin/posts/");
            push_i64(&mut s, i);
            push_str(&mut s, "/edit");
            s
        },
    }
}

/// What saving a post's form writes: the fields as stored, its cover and
/// the image the cover replaces, its categories, tags and related posts,
/// and where the form is sent again when it is shown with an error.
pub struct PostSave {
    pub title: String,
    pub slug: String,
    pub summary: String,
    pub content_md: String,
    pub status: &'static str,
    pub visibility: &'static str,
    pub published_at: String,
    pub cover_url: String,
    pub delete_cover: Option<String>,
    pub taxonomy_ids: Vec<i64>,
    pub related_ids: Vec<i64>,
    pub form_action: String,
}

/// Turns a post's closed form into what is saved, for a new post
/// (`post_id` none) or an edit of the post `post_id` whose cover is
/// `existing_cover`; `published_at` is the stored publication time that
/// the submitted one resolves to. A post is not related to itself.
pub fn plan_post_save(
    form: PostFormData,
    post_id: Option<i64>,
    existing_cover: &str,
    published_at: String,
) -> (r: PostSave)
    ensures
        r.title@ == form.title@,
        slug_core(slug_source(form.title@, form.slug@)).len() > 0 ==> r.slug@ == slug_core(
            slug_source(form.title@, form.slug@),
        ),
        slug_core(slug_source(form.title@, form.slug@)).len() == 0 ==> r.slug@.len() == 13
            && r.slug@.take(5) == "post-"@ && forall|i: int|
            5 <= i < 13 ==> crate::markdown::is_lower_hex(#[trigger] r.slug@[i]),
        r.summary@ == form.summary@,
        r.content_md@ == form.content_md@,
        r.status@ == (if form.status@ == "published"@ {
            "published"@
        } else {
            "draft"@
        }),
        r.visibility@ == (if form.visibility@ == "private"@ {
            "private"@
        } else {
            "public"@
        }),
        r.published_at@ == published_at@,
        r.taxonomy_ids@ == form.taxonomy_ids@,
        r.form_action@ == post_form_action(post_id),
        post_id is None ==> {
            &&& r.cover_url@ == (if form.remove_cover {
                Seq::<char>::empty()
            } else {
                sanitize_cover_url_spec(form.cover_url@)
            })
            &&& r.delete_cover is None
            &&& r.related_ids@ == form.related_ids@
        },
        post_id matches Some(id) ==> {
            &&& r.related_ids@ == without(form.related_ids@, id)
            &&& (form.remove_cover ==> r.cover_url@.len() == 0)
            &&& (!form.remove_cover && sanitize_cover_url_spec(form.cover_url@)
                != existing_cover@ ==> r.cover_url@ == sanitize_cover_url_spec(form.cover_url@))
            &&& (!form.remove_cover && sanitize_cover_url_spec(form.cover_url@)
                == existing_cover@ ==> r.cover_url@ == existing_cover@)
            &&& (match r.delete_cover {
                Some(old) => old@ == existing_cover@ && existing_cover@.len() > 0 && (
                form.remove_cover || sanitize_cover_url_spec(form.cover_url@)
                    != existing_cover@),
                None => existing_cover@.len() == 0 || (!form.remove_cover
                    && sanitize_cover_url_spec(form.cover_url@) == existing_cover@),
            })
        },
{
    let slug = normalize_slug(form.title.as_str(), form.slug.as_str());
    let status = status_value(form.status.as_str());
    let visibility = visibility_value(form.visibility.as_str());
    let form_action = post_form_action_of(post_id);
    let (cover_url, delete_cover, related_ids) = match post_id {
        None => (new_cover(form.remove_cover, form.cover_url.as_str()), None, form.related_ids),
        Some(id) => {
            let change = next_cover(existing_cover, form.remove_cover, form.cover_url.as_str());
            let delete_cover = if change.delete_old {
                Some(string_of(existing_cover))
            } else {
                None
            };
            (change.cover_url, delete_cover, related_without_self(&form.related_ids, id))
        },
    };
    PostSave {
        title: form.title,
        slug,
        summary: form.summary,
        content_md: form.content_md,
        status,
        visibility,
        published_at,
        cover_url,
        delete_cover,
        taxonomy_ids: form.taxonomy_ids,
        related_ids,
        form_action,
    }
}

/// Where a page's form is sent: `/admin/pages/new` for a new page, else
/// `/admin/pages/{id}/edit`.
pub open spec fn page_form_action(id: Option<i64>) -> Seq<char> {
    match id {
        None => "/admin/pages/new"@,
        Some(i) => "/admin/pages/"@ + int_dec(i as int) + "/edit"@,
    }
}

/// A standalone page as its form saves it: the title trimmed and cut to
/// 120 characters; and where the form is sent again when it is shown with
/// an error.
pub struct PageSave {
    pub title: String,
    pub slug: String,
    pub content_md: String,
    pub status: &'static str,
    pub visibility: &'static str,
    pub form_action: String,
}

pub fn plan_page_save(form: PageForm, page_id: Option<i64>) -> (r: PageSave)
    ensures
        r.title@ == take_n(trim(form.title@), 120),
        slug_core(slug_source(r.title@, form.slug@)).len() > 0 ==> r.slug@ == slug_core(
            slug_source(r.title@, form.slug@),
        ),
        slug_core(slug_source(r.title@, form.slug@)).len() == 0 ==> r.slug@.len() == 13
            && r.slug@.take(5) == "post-"@ && forall|i: int|
            5 <= i < 13 ==> crate::markdown::is_lower_hex(#[trigger] r.slug@[i]),
        r.content_md@ == form.content_md@,
        r.status@ == (if form.status@ == "published"@ {
            "published"@
        } else {
            "draft"@
        }),
        r.visibility@ == (if form.visibility@ == "private"@ {
            "private"@
        } else {
            "public"@
        }),
        r.form_action@ == page_form_action(page_id),
{
    let title = clamp_text(form.title.as_str(), 120);
    let slug = normalize_slug(title.as_str(), form.slug.as_str());
    let form_action = match page_id {
        None => string_of("/admin/pages/new"),
        Some(i) => {
            let mut s = string_of("/admin/pages/");
            push_i64(&mut s, i);
            push_str(&mut s, "/edit");
            s
        },
    };
    PageSave {
        title,
        slug,
        content_md: form.content_md,
        status: status_value(form.status.as_str()),
        visibility: visibility_value(form.visibility.as_str()),
        form_action,
    }
}

/// A category or tag as its form saves it: the kind made one of the two,
/// the name trimmed and cut to 40 characters, the slug from the slug or
/// the name.
pub struct TaxSave {
    pub kind: &'static str,
    pub name: String,
    pub slug: String,
}

pub fn plan_tax_save(kind: &str, name: &str, slug: &str) -> (r: TaxSave)
    ensures
        r.kind@ == (if kind@ == "tag"@ {
            "tag"@
        } else {
            "category"@
        }),
        r.name@ == take_n(trim(name@), 40),
        slug_core(slug_source(r.name@, slug@)).len() > 0 ==> r.slug@ == slug_core(
            slug_source(r.name@, slug@),
        ),
        slug_core(slug_source(r.name@, slug@)).len() == 0 ==> r.slug@.len() == 13
            && r.slug@.take(5) == "post-"@ && forall|i: int|
            5 <= i < 13 ==> crate::markdown::is_lower_hex(#[trigger] r.slug@[i]),
{
    let name = clamp_text(name, 40);
    let slug = normalize_slug(name.as_str(), slug);
    TaxSave { kind: normalize_tax_kind(kind), name, slug }
}

/// The answers of the category and tag forms.
pub const TAX_NAME_EMPTY: &'static str = "名称不能为空";

pub const TAX_CREATE_FAILED: &'static str = "保存失败，名称或 slug 可能重复";

pub const TAX_UPDATE_FAILED: &'static str = "更新失败，名称或 slug 可能重复";

/// The list a category or tag form returns to: `/admin/taxonomies?kind=`
/// and the kind.
pub fn taxonomies_href(kind: &str) -> (r: String)
    ensures
        r@ == "/admin/taxonomies?kind="@ + kind@,
{
    let mut s = string_of("/admin/taxonomies?kind=");
    push_str(&mut s, kind);
    s
}

/// The messages a post form that cannot be read is answered with.
pub const FORM_UNREADABLE: &'static str = "表单数据无效或过大，请减少附件后重试";

pub const FIELD_UNREADABLE: &'static str = "读取表单字段失败，请重试";

} // verus!
