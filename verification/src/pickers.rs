//! The JSON pickers of the editor: which page of media or posts is asked
//! for, and what each item shows.
use vstd::prelude::*;

use crate::forms::{MediaApiItem, RelatedPostsApiItem};
use crate::models::media::Media;
use crate::models::post::{listed_date, short_date_cuttable, short_date_of, Post};
use crate::text::{starts, str_eq, string_of, trim, trimmed};
use crate::upload::media_thumb_url_spec;

verus! {

/// How many items a picker page holds.
pub const PICKER_LIMIT: i64 = 24;

/// The media picker shows only pictures unless `all` is asked for.
pub fn picker_images_only(kind: Option<&str>) -> (r: bool)
    ensures
        r == !(kind matches Some(k) && trim(k@) == "all"@),
{
    match kind {
        Some(k) => {
            let t = crate::text::string_from_chars(&trimmed(k));
            !str_eq(t.as_str(), "all")
        },
        None => true,
    }
}

/// The page asked for, at least the first.
pub fn picker_page(page: Option<u32>) -> (r: u32)
    ensures
        r == (match page {
            Some(p) => if p >= 1 {
                p
            } else {
                1
            },
            None => 1,
        }),
{
    match page {
        Some(p) => if p >= 1 {
            p
        } else {
            1
        },
        None => 1,
    }
}

/// Where a page starts: `(page - 1) * limit`.
pub fn picker_offset(page: u32, limit: i64) -> (r: i64)
    requires
        page >= 1,
        0 <= limit <= PICKER_LIMIT,
    ensures
        r == (page - 1) * limit,
{
    assert((page - 1) * limit <= u32::MAX * PICKER_LIMIT) by (nonlinear_arith)
        requires
            page >= 1,
            0 <= limit <= PICKER_LIMIT,
    ;
    assert(0 <= (page - 1) * limit) by (nonlinear_arith)
        requires
            page >= 1,
            0 <= limit,
    ;
    ((page as i64) - 1) * limit
}

/// The post to leave out of the related-post picker, where one with a
/// positive id is named.
pub fn picker_exclude(exclude: Option<i64>) -> (r: Option<i64>)
    ensures
        r == (match exclude {
            Some(id) => if id > 0 {
                Some(id)
            } else {
                None
            },
            None => None,
        }),
{
    match exclude {
        Some(id) => if id > 0 {
            Some(id)
        } else {
            None
        },
        None => None,
    }
}

/// A media item in the picker: a picture shows its thumbnail, anything
/// else none.
pub fn media_api_item(m: Media) -> (r: MediaApiItem)
    ensures
        r.id == m.id,
        r.name@ == m.name@,
        r.url@ == m.url@,
        r.mime@ == m.mime@,
        r.thumb@ == (if !starts(m.mime@, "image/"@) {
            Seq::empty()
        } else if media_thumb_url_spec(m.url@).len() == 0 {
            m.url@
        } else {
            media_thumb_url_spec(m.url@)
        }),
{
    let thumb = if m.is_image() {
        m.thumb_url()
    } else {
        crate::text::new_string()
    };
    MediaApiItem { id: m.id, name: m.name, url: m.url, mime: m.mime, thumb }
}

/// A post in the related-post picker, with its date.
pub fn post_api_item(p: Post) -> (r: RelatedPostsApiItem)
    requires
        short_date_cuttable(listed_date(p.published_at, p.created_at)),
    ensures
        r.id == p.id,
        r.title@ == p.title@,
        r.slug@ == p.slug@,
        r.status@ == p.status@,
        r.date@ == short_date_of(listed_date(p.published_at, p.created_at)),
{
    let date = string_of(p.short_date());
    RelatedPostsApiItem { id: p.id, title: p.title, slug: p.slug, status: p.status, date }
}

} // verus!
