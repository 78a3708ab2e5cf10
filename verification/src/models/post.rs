//! Posts, the short references shown as related posts, and a post with its
//! categories and tags.
use vstd::prelude::*;

use crate::models::taxonomy::Taxonomy;
use crate::text::{
    byte_prefix, chars_for_bytes, chars_of, count_non_ws, count_non_ws_of, is_byte_prefix,
    lemma_byte_prefix_unique, str_eq, utf8_len, utf8_len_of,
};
use crate::upload::{sanitize_cover_url, sanitize_cover_url_spec};

verus! {

#[derive(Debug, Clone)]
pub struct Post {
    pub id: i64,
    pub title: String,
    pub slug: String,
    pub summary: String,
    pub content_md: String,
    pub content_html: String,
    pub status: String,
    pub visibility: String,
    pub cover_url: Option<String>,
    pub published_at: Option<String>,
    pub created_at: String,
    pub updated_at: String,
}

#[derive(Debug, Clone)]
pub struct RelatedPostRef {
    pub id: i64,
    pub title: String,
    pub slug: String,
    pub published_at: Option<String>,
    pub created_at: String,
}

/// How many related posts a post shows.
pub const RELATED_TARGET: usize = 5;

/// How many related posts an author may pick by hand.
pub const RELATED_MANUAL_MAX: usize = 8;

pub const POST_VISIBILITY_PRIVATE: &'static str = "private";

/// The date a post is listed under: when it was published, else when it was
/// created.
pub open spec fn listed_date(published_at: Option<String>, created_at: String) -> Seq<char> {
    match published_at {
        Some(p) => p@,
        None => created_at@,
    }
}

/// Whether `short_date` can cut the date: it is shorter than ten bytes or
/// its tenth byte ends a character.
pub open spec fn short_date_cuttable(d: Seq<char>) -> bool {
    utf8_len(d) >= 10 ==> exists|k: int| is_byte_prefix(d, k, 10)
}

/// The first ten bytes of a date (`YYYY-MM-DD`), or all of it when shorter.
pub open spec fn short_date_of(d: Seq<char>) -> Seq<char> {
    if utf8_len(d) >= 10 {
        d.take(choose|k: int| is_byte_prefix(d, k, 10))
    } else {
        d
    }
}

/// Whether `short_date` can cut `d` (see `short_date_cuttable`).
pub fn short_date_ok(d: &str) -> (r: bool)
    ensures
        r == short_date_cuttable(d@),
{
    let v = chars_of(d);
    if utf8_len_of(&v) < 10 {
        return true;
    }
    match chars_for_bytes(&v, 10) {
        Some(k) => {
            assert(is_byte_prefix(d@, k as int, 10));
            true
        },
        None => false,
    }
}

fn listed_date_str<'a>(published_at: &'a Option<String>, created_at: &'a String) -> (r: &'a str)
    ensures
        r@ == listed_date(*published_at, *created_at),
{
    match published_at {
        Some(p) => p.as_str(),
        None => created_at.as_str(),
    }
}

fn short_date_str<'a>(d: &'a str) -> (r: &'a str)
    requires
        short_date_cuttable(d@),
    ensures
        r@ == short_date_of(d@),
{
    let v = chars_of(d);
    let n = utf8_len_of(&v);
    if n >= 10 {
        match chars_for_bytes(&v, 10) {
            Some(k) => {
                proof {
                    let c = choose|j: int| is_byte_prefix(d@, j, 10);
                    lemma_byte_prefix_unique(d@, c, k as int, 10);
                }
                d.substring_char(0, k)
            },
            None => {
                proof {
                    let c = choose|j: int| is_byte_prefix(d@, j, 10);
                    assert(is_byte_prefix(d@, c, 10));
                }
                d
            },
        }
    } else {
        d
    }
}

impl RelatedPostRef {
    pub fn short_date(&self) -> (r: &str)
        requires
            short_date_cuttable(listed_date(self.published_at, self.created_at)),
        ensures
            r@ == short_date_of(listed_date(self.published_at, self.created_at)),
    {
        short_date_str(listed_date_str(&self.published_at, &self.created_at))
    }

    pub fn display_date(&self) -> (r: &str)
        ensures
            r@ == listed_date(self.published_at, self.created_at),
    {
        listed_date_str(&self.published_at, &self.created_at)
    }

    pub fn from_post(post: &Post) -> (r: Self)
        ensures
            r.id == post.id,
            r.title@ == post.title@,
            r.slug@ == post.slug@,
            r.created_at@ == post.created_at@,
            match (r.published_at, post.published_at) {
                (Some(a), Some(b)) => a@ == b@,
                (None, None) => true,
                _ => false,
            },
    {
        RelatedPostRef {
            id: post.id,
            title: post.title.clone(),
            slug: post.slug.clone(),
            published_at: match &post.published_at {
                Some(p) => Some(p.clone()),
                None => None,
            },
            created_at: post.created_at.clone(),
        }
    }
}

/// Reading time in minutes: one per 400 non-blank characters, rounded up,
/// at least one; the count is taken modulo 2^32, as a `u32`.
pub open spec fn reading_minutes_of(md: Seq<char>) -> nat {
    let c = (count_non_ws(md) % 0x1_0000_0000) as nat;
    let m = (c + 399) / 400;
    if m < 1 {
        1
    } else {
        m
    }
}

impl Post {
    pub open spec fn published(&self) -> bool {
        self.status@ == "published"@
    }

    pub open spec fn private(&self) -> bool {
        self.visibility@ == "private"@
    }

    pub open spec fn cover_present(&self) -> bool {
        match self.cover_url {
            Some(u) => u@.len() > 0,
            None => false,
        }
    }

    pub open spec fn cover_text(&self) -> Seq<char> {
        match self.cover_url {
            Some(u) => u@,
            None => Seq::empty(),
        }
    }

    pub fn is_published(&self) -> (r: bool)
        ensures
            r == self.published(),
    {
        str_eq(self.status.as_str(), "published")
    }

    pub fn is_private(&self) -> (r: bool)
        ensures
            r == self.private(),
    {
        str_eq(self.visibility.as_str(), POST_VISIBILITY_PRIVATE)
    }

    pub fn display_date(&self) -> (r: &str)
        ensures
            r@ == listed_date(self.published_at, self.created_at),
    {
        listed_date_str(&self.published_at, &self.created_at)
    }

    pub fn short_date(&self) -> (r: &str)
        requires
            short_date_cuttable(listed_date(self.published_at, self.created_at)),
        ensures
            r@ == short_date_of(listed_date(self.published_at, self.created_at)),
    {
        short_date_str(listed_date_str(&self.published_at, &self.created_at))
    }

    /// The last update, shown as `format_local` shows it.
    pub fn updated_display(&self) -> (r: String)
        ensures
            crate::timefmt::local_display(self.updated_at@, r@),
    {
        crate::timefmt::format_local(self.updated_at.as_str())
    }

    /// Drops a cover URL that is not a safe upload URL, and stores the
    /// trimmed form of one that is.
    pub fn sanitize_cover(&mut self)
        ensures
            final(self).id == old(self).id,
            final(self).title == old(self).title,
            final(self).slug == old(self).slug,
            final(self).summary == old(self).summary,
            final(self).content_md == old(self).content_md,
            final(self).content_html == old(self).content_html,
            final(self).status == old(self).status,
            final(self).visibility == old(self).visibility,
            final(self).published_at == old(self).published_at,
            final(self).created_at == old(self).created_at,
            final(self).updated_at == old(self).updated_at,
            match old(self).cover_url {
                None => final(self).cover_url is None,
                Some(u) => {
                    let safe = sanitize_cover_url_spec(u@);
                    if safe.len() == 0 {
                        final(self).cover_url is None
                    } else {
                        final(self).cover_url is Some && final(self).cover_url.unwrap()@ == safe
                    }
                },
            },
    {
        let taken = self.cover_url.take();
        match taken {
            Some(url) => {
                let safe = sanitize_cover_url(url.as_str());
                if chars_of(safe.as_str()).len() == 0 {
                    self.cover_url = None;
                } else {
                    self.cover_url = Some(safe);
                }
            },
            None => {},
        }
    }

    pub fn has_cover(&self) -> (r: bool)
        ensures
            r == self.cover_present(),
    {
        match &self.cover_url {
            Some(u) => chars_of(u.as_str()).len() > 0,
            None => false,
        }
    }

    pub fn cover(&self) -> (r: &str)
        ensures
            r@ == self.cover_text(),
    {
        match &self.cover_url {
            Some(u) => u.as_str(),
            None => {
                proof {
                    reveal_strlit("");
                }
                ""
            },
        }
    }

    pub fn reading_minutes(&self) -> (r: u32)
        ensures
            r == reading_minutes_of(self.content_md@),
    {
        let v = chars_of(self.content_md.as_str());
        let n = count_non_ws_of(&v);
        let c: u32 = ((n as u64) % 0x1_0000_0000u64) as u32;
        let m: u32 = c / 400 + if c % 400 == 0 {
            0
        } else {
            1
        };
        assert(m as int == (c as int + 399) / 400);
        if m < 1 {
            1
        } else {
            m
        }
    }
}

#[derive(Debug, Clone)]
pub struct PostView {
    pub post: Post,
    pub categories: Vec<Taxonomy>,
    pub tags: Vec<Taxonomy>,
}

impl PostView {
    pub fn title(&self) -> (r: &str)
        ensures
            r@ == self.post.title@,
    {
        self.post.title.as_str()
    }

    pub fn slug(&self) -> (r: &str)
        ensures
            r@ == self.post.slug@,
    {
        self.post.slug.as_str()
    }

    pub fn summary(&self) -> (r: &str)
        ensures
            r@ == self.post.summary@,
    {
        self.post.summary.as_str()
    }

    pub fn short_date(&self) -> (r: &str)
        requires
            short_date_cuttable(listed_date(self.post.published_at, self.post.created_at)),
        ensures
            r@ == short_date_of(listed_date(self.post.published_at, self.post.created_at)),
    {
        self.post.short_date()
    }

    pub fn display_date(&self) -> (r: &str)
        ensures
            r@ == listed_date(self.post.published_at, self.post.created_at),
    {
        self.post.display_date()
    }

    pub fn has_cover(&self) -> (r: bool)
        ensures
            r == self.post.cover_present(),
    {
        self.post.has_cover()
    }

    pub fn cover(&self) -> (r: &str)
        ensures
            r@ == self.post.cover_text(),
    {
        self.post.cover()
    }

    pub fn reading_minutes(&self) -> (r: u32)
        ensures
            r == reading_minutes_of(self.post.content_md@),
    {
        self.post.reading_minutes()
    }

    pub fn id(&self) -> (r: i64)
        ensures
            r == self.post.id,
    {
        self.post.id
    }

    pub fn content_html(&self) -> (r: &str)
        ensures
            r@ == self.post.content_html@,
    {
        self.post.content_html.as_str()
    }

    pub fn has_categories(&self) -> (r: bool)
        ensures
            r == (self.categories@.len() > 0),
    {
        self.categories.len() > 0
    }

    pub fn has_tags(&self) -> (r: bool)
        ensures
            r == (self.tags@.len() > 0),
    {
        self.tags.len() > 0
    }

    pub fn is_private(&self) -> (r: bool)
        ensures
            r == self.post.private(),
    {
        self.post.is_private()
    }
}

} // verus!
