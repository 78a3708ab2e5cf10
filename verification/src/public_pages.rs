//! What the public pages decide from the request: the search text and the
//! address its pages link to, and the post the home page features.
use vstd::prelude::*;

use crate::errors::AppError;
use crate::models::page::Page;
use crate::models::post::{Post, PostView};
use crate::text::{clamp_text, push_str, string_of, take_n, trim, url_encode};

verus! {

/// The text searched for: the query trimmed and cut to 80 characters, none
/// where there is no query.
pub fn search_text(q: Option<&str>) -> (r: String)
    ensures
        r@ == (match q {
            Some(s) => take_n(trim(s@), 80),
            None => Seq::empty(),
        }),
{
    match q {
        Some(s) => clamp_text(s, 80),
        None => crate::text::new_string(),
    }
}

/// The address the pages of a search link to: `/search?q=` and the text,
/// percent-encoded with spaces as `+`.
pub fn search_base(q: &str) -> (r: String)
    ensures
        r@ == "/search?q="@ + url_encode(q@, true),
{
    let mut s = string_of("/search?q=");
    let e = crate::feed::urlencoding_minimal(q);
    push_str(&mut s, e.as_str());
    s
}

/// The home page features the newest post on its first page; the list
/// then goes on from the second.
pub fn split_featured(page: u32, posts: Vec<PostView>) -> (r: (Vec<PostView>, Option<PostView>))
    ensures
        page == 1 && posts@.len() > 0 ==> r.1 == Some(posts@[0]) && r.0@ == posts@.drop_first(),
        !(page == 1 && posts@.len() > 0) ==> r.1 is None && r.0@ == posts@,
{
    let mut posts = posts;
    if page == 1 && posts.len() > 0 {
        let first = posts.remove(0);
        (posts, Some(first))
    } else {
        (posts, None)
    }
}

/// A post is shown to a guest only where it is published and public;
/// otherwise, or where there is none, it does not exist.
pub fn post_access(post: Option<&Post>, logged_in: bool) -> (r: Result<(), AppError>)
    ensures
        r is Ok <==> (post matches Some(p) && (logged_in || (p.published() && !p.private()))),
        r matches Err(e) ==> e matches AppError::NotFound(m) && m@ == "文章不存在"@,
{
    match post {
        None => Err(AppError::not_found("文章不存在")),
        Some(p) => if !logged_in && (!p.is_published() || p.is_private()) {
            Err(AppError::not_found("文章不存在"))
        } else {
            Ok(())
        },
    }
}

/// A standalone page is shown to a guest only where it is published and
/// public; otherwise, or where there is none, it does not exist.
pub fn page_access(page: Option<&Page>, logged_in: bool) -> (r: Result<(), AppError>)
    ensures
        r is Ok <==> (page matches Some(p) && (logged_in || (p.published() && !p.private()))),
        r matches Err(e) ==> e matches AppError::NotFound(m) && m@ == "页面不存在"@,
{
    match page {
        None => Err(AppError::not_found("页面不存在")),
        Some(p) => if !logged_in && (!p.is_published() || p.is_private()) {
            Err(AppError::not_found("页面不存在"))
        } else {
            Ok(())
        },
    }
}

/// The addresses of a category's or tag's posts: `/tags` for a tag,
/// `/categories` otherwise.
pub fn taxonomy_path_prefix(kind: &str) -> (r: &'static str)
    ensures
        r@ == (if kind@ == "tag"@ {
            "/tags"@
        } else {
            "/categories"@
        }),
{
    if crate::text::str_eq(kind, "tag") {
        "/tags"
    } else {
        "/categories"
    }
}

/// The page of a category or tag, and the base of its page links:
/// the prefix, a slash and the slug.
pub fn taxonomy_path(kind: &str, slug: &str) -> (r: String)
    ensures
        r@ == (if kind@ == "tag"@ {
            "/tags"@
        } else {
            "/categories"@
        }) + "/"@ + slug@,
{
    let mut s = string_of(taxonomy_path_prefix(kind));
    push_str(&mut s, "/");
    push_str(&mut s, slug);
    s
}

/// A category or tag that does not exist: `{label}不存在`.
pub fn taxonomy_missing(kind_label: &str) -> (r: AppError)
    ensures
        r matches AppError::NotFound(m) && m@ == kind_label@ + "不存在"@,
{
    let mut m = string_of(kind_label);
    push_str(&mut m, "不存在");
    AppError::NotFound(m)
}

} // verus!
