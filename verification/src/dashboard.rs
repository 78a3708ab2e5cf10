//! The admin dashboard: counts, drafts waiting, and recent changes.
use vstd::prelude::*;

use crate::text::{
    ellipsize, ellipsize_vec, first_line, first_line_of, int_dec, push_i64, push_str, str_eq,
    string_of, trim, trim_vec, trimmed,
};
use crate::timefmt::format_local;

verus! {

/// How many characters a dashboard title keeps.
pub const TITLE_MAX: usize = 48;

#[derive(Debug, Clone)]
pub struct DashItem {
    pub kind: String,
    pub id: i64,
    pub book_id: Option<i64>,
    pub title: String,
    pub updated_at: String,
    pub status: String,
}

pub open spec fn dash_href(kind: Seq<char>, id: i64, book_id: Option<i64>) -> Seq<char> {
    if kind == "post"@ {
        "/admin/posts/"@ + int_dec(id as int) + "/edit"@
    } else if kind == "page"@ {
        "/admin/pages/"@ + int_dec(id as int) + "/edit"@
    } else if kind == "doc"@ {
        match book_id {
            Some(bid) => "/admin/docs/"@ + int_dec(bid as int) + "?id="@ + int_dec(id as int),
            None => "/admin/docs"@,
        }
    } else if kind == "spark"@ {
        "/admin/sparks/"@ + int_dec(id as int) + "/edit"@
    } else {
        "/admin"@
    }
}

impl DashItem {
    pub fn kind_label(&self) -> (r: &'static str)
        ensures
            r@ == if self.kind@ == "post"@ {
                "文章"@
            } else if self.kind@ == "page"@ {
                "页面"@
            } else if self.kind@ == "doc"@ {
                "文档"@
            } else if self.kind@ == "spark"@ {
                "灵感"@
            } else {
                "内容"@
            },
    {
        let k = self.kind.as_str();
        if str_eq(k, "post") {
            "文章"
        } else if str_eq(k, "page") {
            "页面"
        } else if str_eq(k, "doc") {
            "文档"
        } else if str_eq(k, "spark") {
            "灵感"
        } else {
            "内容"
        }
    }

    /// Where the item is edited.
    pub fn href(&self) -> (r: String)
        ensures
            r@ == dash_href(self.kind@, self.id, self.book_id),
    {
        let k = self.kind.as_str();
        if str_eq(k, "post") {
            let mut s = string_of("/admin/posts/");
            push_i64(&mut s, self.id);
            push_str(&mut s, "/edit");
            s
        } else if str_eq(k, "page") {
            let mut s = string_of("/admin/pages/");
            push_i64(&mut s, self.id);
            push_str(&mut s, "/edit");
            s
        } else if str_eq(k, "doc") {
            match self.book_id {
                Some(bid) => {
                    let mut s = string_of("/admin/docs/");
                    push_i64(&mut s, bid);
                    push_str(&mut s, "?id=");
                    push_i64(&mut s, self.id);
                    s
                },
                None => string_of("/admin/docs"),
            }
        } else if str_eq(k, "spark") {
            let mut s = string_of("/admin/sparks/");
            push_i64(&mut s, self.id);
            push_str(&mut s, "/edit");
            s
        } else {
            string_of("/admin")
        }
    }

    /// The last change, shown as `format_local` shows it.
    pub fn when(&self) -> (r: String)
        ensures
            crate::timefmt::local_display(self.updated_at@, r@),
    {
        format_local(self.updated_at.as_str())
    }

    pub fn is_draft(&self) -> (r: bool)
        ensures
            r == (self.status@ == "draft"@),
    {
        str_eq(self.status.as_str(), "draft")
    }
}

#[derive(Debug, Clone)]
pub struct DashboardData {
    pub posts_published: i64,
    pub posts_draft: i64,
    pub page_count: i64,
    pub book_count: i64,
    pub spark_count: i64,
    pub media_count: i64,
    pub pending: Vec<DashItem>,
    pub recent: Vec<DashItem>,
}

impl DashboardData {
    pub fn has_pending(&self) -> (r: bool)
        ensures
            r == (self.pending@.len() > 0),
    {
        self.pending.len() > 0
    }

    pub fn has_recent(&self) -> (r: bool)
        ensures
            r == (self.recent@.len() > 0),
    {
        self.recent.len() > 0
    }

    pub fn posts_total(&self) -> (r: i64)
        requires
            i64::MIN <= self.posts_published + self.posts_draft <= i64::MAX,
        ensures
            r == self.posts_published + self.posts_draft,
    {
        self.posts_published + self.posts_draft
    }
}

/// The title a dashboard row shows: the first line of the title, cut to 48
/// characters, or `（无标题）` when blank.
pub open spec fn clip_title_of(raw: Seq<char>) -> Seq<char> {
    let text = trim(raw);
    if text.len() == 0 {
        "（无标题）"@
    } else {
        let out = ellipsize(trim(first_line(text)), TITLE_MAX as nat);
        if out.len() == 0 {
            "（无标题）"@
        } else {
            out
        }
    }
}

pub fn clip_title(raw: &str) -> (r: String)
    ensures
        r@ == clip_title_of(raw@),
{
    let text = trimmed(raw);
    if text.len() == 0 {
        return string_of("（无标题）");
    }
    let line = trim_vec(&first_line_of(&text));
    let out = ellipsize_vec(&line, TITLE_MAX);
    if crate::text::chars_of(out.as_str()).len() == 0 {
        string_of("（无标题）")
    } else {
        out
    }
}

/// A dashboard row read from the database, with its title clipped.
pub fn dash_item_from_row(
    kind: String,
    id: i64,
    book_id: Option<i64>,
    title: &str,
    updated_at: String,
    status: String,
) -> (r: DashItem)
    ensures
        r.kind == kind,
        r.id == id,
        r.book_id == book_id,
        r.title@ == clip_title_of(title@),
        r.updated_at == updated_at,
        r.status == status,
{
    DashItem { kind, id, book_id, title: clip_title(title), updated_at, status }
}

} // verus!
