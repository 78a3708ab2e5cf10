//! Knowledge-base books, nodes (folders and documents), the tree shown in
//! the sidebar, breadcrumbs and neighbours.
use vstd::prelude::*;

use crate::text::{chars_of, str_eq};

verus! {

#[derive(Debug, Clone)]
pub struct KbBook {
    pub id: i64,
    pub title: String,
    pub slug: String,
    pub summary: String,
    pub cover_url: String,
    pub status: String,
    pub visibility: String,
    pub sort_order: i64,
    pub created_at: String,
    pub updated_at: String,
}

impl KbBook {
    pub open spec fn published(&self) -> bool {
        self.status@ == "published"@
    }

    pub open spec fn private(&self) -> bool {
        self.visibility@ == "private"@
    }

    pub fn is_published(&self) -> (r: bool)
        ensures
            r == self.published(),
    {
        str_eq(self.status.as_str(), "published")
    }

    pub fn is_private(&self) -> (r: bool)
        ensures
            r == self.private(),
    {
        str_eq(self.visibility.as_str(), "private")
    }

    /// A guest may see a book that is published and not private.
    pub fn is_publicly_visible(&self) -> (r: bool)
        ensures
            r == (self.published() && !self.private()),
    {
        self.is_published() && !self.is_private()
    }

    pub fn has_cover(&self) -> (r: bool)
        ensures
            r == (self.cover_url@.len() > 0),
    {
        chars_of(self.cover_url.as_str()).len() > 0
    }
}

pub const KB_TYPE_FOLDER: &'static str = "folder";

pub const KB_TYPE_DOC: &'static str = "doc";

#[derive(Debug, Clone)]
pub struct KbNode {
    pub id: i64,
    pub book_id: i64,
    pub parent_id: Option<i64>,
    pub node_type: String,
    pub title: String,
    pub slug: String,
    pub sort_order: i64,
    pub content_md: String,
    pub content_html: String,
    pub status: String,
    pub visibility: String,
    pub published_at: Option<String>,
    pub created_at: String,
    pub updated_at: String,
}

impl KbNode {
    pub open spec fn folder(&self) -> bool {
        self.node_type@ == "folder"@
    }

    pub open spec fn doc(&self) -> bool {
        self.node_type@ == "doc"@
    }

    pub open spec fn published(&self) -> bool {
        self.status@ == "published"@
    }

    pub open spec fn private(&self) -> bool {
        self.visibility@ == "private"@
    }

    /// A guest may read a document that is published and not private.
    pub open spec fn publicly_visible(&self) -> bool {
        self.doc() && self.published() && !self.private()
    }

    pub fn is_folder(&self) -> (r: bool)
        ensures
            r == self.folder(),
    {
        str_eq(self.node_type.as_str(), KB_TYPE_FOLDER)
    }

    pub fn is_doc(&self) -> (r: bool)
        ensures
            r == self.doc(),
    {
        str_eq(self.node_type.as_str(), KB_TYPE_DOC)
    }

    pub fn is_published(&self) -> (r: bool)
        ensures
            r == self.published(),
    {
        str_eq(self.status.as_str(), "published")
    }

    pub fn is_private(&self) -> (r: bool)
        ensures
            r == self.private(),
    {
        str_eq(self.visibility.as_str(), "private")
    }

    pub fn is_publicly_visible(&self) -> (r: bool)
        ensures
            r == self.publicly_visible(),
    {
        self.is_doc() && self.is_published() && !self.is_private()
    }
}

#[derive(Debug)]
pub struct KbTreeNode {
    pub id: i64,
    pub parent_id: Option<i64>,
    pub node_type: String,
    pub title: String,
    pub slug: String,
    pub status: String,
    pub visibility: String,
    pub updated_at: String,
    pub children: Vec<KbTreeNode>,
}

impl KbTreeNode {
    pub open spec fn folder(&self) -> bool {
        self.node_type@ == "folder"@
    }

    pub open spec fn doc(&self) -> bool {
        self.node_type@ == "doc"@
    }

    pub fn is_folder(&self) -> (r: bool)
        ensures
            r == self.folder(),
    {
        str_eq(self.node_type.as_str(), KB_TYPE_FOLDER)
    }

    pub fn is_doc(&self) -> (r: bool)
        ensures
            r == self.doc(),
    {
        str_eq(self.node_type.as_str(), KB_TYPE_DOC)
    }

    pub fn has_children(&self) -> (r: bool)
        ensures
            r == (self.children@.len() > 0),
    {
        self.children.len() > 0
    }

    pub fn is_draft(&self) -> (r: bool)
        ensures
            r == (self.status@ == "draft"@),
    {
        str_eq(self.status.as_str(), "draft")
    }

    pub fn is_private(&self) -> (r: bool)
        ensures
            r == (self.visibility@ == "private"@),
    {
        str_eq(self.visibility.as_str(), "private")
    }
}

#[derive(Debug, Clone)]
pub struct KbCrumb {
    pub title: String,
    pub href: Option<String>,
}

impl KbCrumb {
    pub fn has_href(&self) -> (r: bool)
        ensures
            r == self.href is Some,
    {
        self.href.is_some()
    }

    /// The link of the crumb, or `#` where it has none.
    pub fn href_value(&self) -> (r: &str)
        ensures
            r@ == match self.href {
                Some(h) => h@,
                None => "#"@,
            },
    {
        match &self.href {
            Some(h) => h.as_str(),
            None => "#",
        }
    }
}

#[derive(Debug, Clone)]
pub struct KbNeighbor {
    pub title: String,
    pub href: String,
}

} // verus!
