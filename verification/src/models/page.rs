//! Standalone pages.
use vstd::prelude::*;

use crate::text::str_eq;
use crate::timefmt::format_local;

verus! {

#[derive(Debug, Clone)]
pub struct Page {
    pub id: i64,
    pub title: String,
    pub slug: String,
    pub content_md: String,
    pub status: String,
    pub visibility: String,
    pub show_in_nav: i64,
    pub created_at: String,
    pub updated_at: String,
}

pub const PAGE_VISIBILITY_PRIVATE: &'static str = "private";

impl Page {
    pub open spec fn published(&self) -> bool {
        self.status@ == "published"@
    }

    pub open spec fn private(&self) -> bool {
        self.visibility@ == "private"@
    }

    pub fn is_published(&self) -> (r: bool)
        ensures
            r == self.published(),
    {
        str_eq(self.status.as_str(), "published")
    }

    pub fn is_private(&self) -> (r: bool)
        ensures
            r == self.private(),
    {
        str_eq(self.visibility.as_str(), PAGE_VISIBILITY_PRIVATE)
    }

    /// The last update, shown as `format_local` shows it.
    pub fn updated_display(&self) -> (r: String)
        ensures
            crate::timefmt::local_display(self.updated_at@, r@),
    {
        format_local(self.updated_at.as_str())
    }
}

} // verus!
