//! The pages of the knowledge base: the public books and their pages, and
//! the admin editor.
use vstd::prelude::*;

use crate::models::kb::{KbBook, KbCrumb, KbNeighbor};
use crate::models::nav::NavItemView;
use crate::models::settings::SiteSettings;
use crate::text::{chars_of, push_str, string_of};

verus! {

/// The list of public books.
pub struct DocsHomeTemplate {
    pub settings: SiteSettings,
    pub logged_in: bool,
    pub nav_items: Vec<NavItemView>,
    pub search_query: String,
    pub books: Vec<KbBook>,
    pub can_manage: bool,
}

impl DocsHomeTemplate {
    pub fn is_empty(&self) -> (r: bool)
        ensures
            r == (self.books@.len() == 0),
    {
        self.books.len() == 0
    }
}

/// A book, at its home or at one of its pages.
pub struct DocsBookTemplate {
    pub settings: SiteSettings,
    pub logged_in: bool,
    pub nav_items: Vec<NavItemView>,
    pub search_query: String,
    pub book: KbBook,
    pub tree_html: String,
    pub title: String,
    pub content_html: String,
    pub crumbs: Vec<KbCrumb>,
    pub prev: Option<KbNeighbor>,
    pub next: Option<KbNeighbor>,
    pub empty: bool,
    pub is_home: bool,
    pub catalog_html: String,
    pub doc_count: usize,
    pub word_count: usize,
    pub edit_href: Option<String>,
}

impl DocsBookTemplate {
    pub fn has_crumbs(&self) -> (r: bool)
        ensures
            r == (self.crumbs@.len() > 0),
    {
        self.crumbs.len() > 0
    }

    /// Whether there is a page before or after this one.
    pub fn has_nav(&self) -> (r: bool)
        ensures
            r == (self.prev is Some || self.next is Some),
    {
        self.prev.is_some() || self.next.is_some()
    }

    /// The editor's link, empty where the reader may not edit.
    pub fn edit_url(&self) -> (r: &str)
        ensures
            r@ == (match self.edit_href {
                Some(h) => h@,
                None => ""@,
            }),
    {
        match &self.edit_href {
            Some(h) => h.as_str(),
            None => "",
        }
    }

    pub fn can_edit(&self) -> (r: bool)
        ensures
            r == self.edit_href is Some,
    {
        self.edit_href.is_some()
    }

    pub fn has_catalog(&self) -> (r: bool)
        ensures
            r == (self.catalog_html@.len() > 0),
    {
        chars_of(self.catalog_html.as_str()).len() > 0
    }

    pub fn has_summary(&self) -> (r: bool)
        ensures
            r == (self.content_html@.len() > 0),
    {
        chars_of(self.content_html.as_str()).len() > 0
    }
}

/// The admin list of books.
pub struct AdminDocsListTemplate {
    pub settings: SiteSettings,
    pub username: String,
    pub books: Vec<KbBook>,
    pub error: Option<String>,
}

impl AdminDocsListTemplate {
    pub fn is_empty(&self) -> (r: bool)
        ensures
            r == (self.books@.len() == 0),
    {
        self.books.len() == 0
    }
}

/// The settings form of a book.
pub struct AdminDocsSettingsTemplate {
    pub settings: SiteSettings,
    pub username: String,
    pub book: KbBook,
    pub error: Option<String>,
}

/// The book editor: the tree, and the selected node's form or the book's
/// home.
pub struct AdminDocsBookTemplate {
    pub settings: SiteSettings,
    pub username: String,
    pub book: KbBook,
    pub tree_html: String,
    pub has_nodes: bool,
    pub selected_id: Option<i64>,
    pub is_folder: bool,
    pub title: String,
    pub slug: String,
    pub content_md: String,
    pub status: String,
    pub visibility: String,
    pub published_at_local: String,
    pub form_action: String,
    pub catalog_html: String,
    pub doc_count: usize,
    pub word_count: usize,
    pub error: Option<String>,
}

impl AdminDocsBookTemplate {
    /// The book's home is shown where no node is selected.
    pub fn is_home(&self) -> (r: bool)
        ensures
            r == self.selected_id is None,
    {
        self.selected_id.is_none()
    }

    pub fn has_catalog(&self) -> (r: bool)
        ensures
            r == (self.catalog_html@.len() > 0),
    {
        chars_of(self.catalog_html.as_str()).len() > 0
    }

    /// The selected node's id, 0 where there is none.
    pub fn selected_id_value(&self) -> (r: i64)
        ensures
            r == (match self.selected_id {
                Some(id) => id,
                None => 0,
            }),
    {
        match self.selected_id {
            Some(id) => id,
            None => 0,
        }
    }

    /// The public address of the selected node: `/docs/{book}/{slug}`.
    pub fn preview_href(&self) -> (r: String)
        ensures
            r@ == "/docs/"@ + self.book.slug@ + "/"@ + self.slug@,
    {
        let mut s = string_of("/docs/");
        push_str(&mut s, self.book.slug.as_str());
        push_str(&mut s, "/");
        push_str(&mut s, self.slug.as_str());
        s
    }

    /// A selected page shows the editor.
    pub fn show_doc_editor(&self) -> (r: bool)
        ensures
            r == (self.selected_id is Some && !self.is_folder),
    {
        self.selected_id.is_some() && !self.is_folder
    }

    /// A selected folder shows its panel.
    pub fn show_folder_panel(&self) -> (r: bool)
        ensures
            r == (self.selected_id is Some && self.is_folder),
    {
        self.selected_id.is_some() && self.is_folder
    }
}

} // verus!
