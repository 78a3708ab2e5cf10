//! The public pages of the site.
use vstd::prelude::*;

use crate::markdown::TocItem;
use crate::models::kb::KbBook;
use crate::models::nav::NavItemView;
use crate::models::page::Page;
use crate::models::post::{PostView, RelatedPostRef};
use crate::models::search::SearchHit;
use crate::models::settings::SiteSettings;
use crate::models::taxonomy::{Taxonomy, TaxonomyCount};
use crate::pagination::Pagination;

verus! {

/// The home page.
pub struct HomeTemplate {
    pub settings: SiteSettings,
    pub posts: Vec<PostView>,
    pub featured: Option<PostView>,
    pub categories: Vec<TaxonomyCount>,
    pub categories_more: bool,
    pub tags: Vec<TaxonomyCount>,
    pub tags_more: bool,
    pub books: Vec<KbBook>,
    pub books_more: bool,
    pub pagination: Pagination,
    pub logged_in: bool,
    pub nav_items: Vec<NavItemView>,
    pub search_query: String,
}

/// The list of posts, by category.
pub struct PostsIndexTemplate {
    pub settings: SiteSettings,
    pub posts: Vec<PostView>,
    pub categories: Vec<TaxonomyCount>,
    pub uncategorized_count: i64,
    pub active_filter: String,
    pub pagination: Pagination,
    pub logged_in: bool,
    pub nav_items: Vec<NavItemView>,
    pub search_query: String,
}

/// One post.
pub struct PostTemplate {
    pub settings: SiteSettings,
    pub post: PostView,
    pub related: Vec<RelatedPostRef>,
    pub toc: Vec<TocItem>,
    pub categories: Vec<TaxonomyCount>,
    pub categories_more: bool,
    pub tags: Vec<TaxonomyCount>,
    pub tags_more: bool,
    pub books: Vec<KbBook>,
    pub books_more: bool,
    pub logged_in: bool,
    pub nav_items: Vec<NavItemView>,
    pub search_query: String,
}

/// A standalone page.
pub struct PageTemplate {
    pub settings: SiteSettings,
    pub page: Page,
    pub content_html: String,
    pub logged_in: bool,
    pub nav_items: Vec<NavItemView>,
    pub search_query: String,
}

/// Search results.
pub struct SearchTemplate {
    pub settings: SiteSettings,
    pub query: String,
    pub hits: Vec<SearchHit>,
    pub pagination: Pagination,
    pub logged_in: bool,
    pub nav_items: Vec<NavItemView>,
    pub search_query: String,
}

/// The posts of a category or tag.
pub struct TaxonomyPageTemplate {
    pub settings: SiteSettings,
    pub term: Taxonomy,
    pub kind_label: String,
    pub posts: Vec<PostView>,
    pub pagination: Pagination,
    pub logged_in: bool,
    pub nav_items: Vec<NavItemView>,
    pub search_query: String,
}

/// All tags.
pub struct TagsIndexTemplate {
    pub settings: SiteSettings,
    pub tags: Vec<TaxonomyCount>,
    pub logged_in: bool,
    pub nav_items: Vec<NavItemView>,
    pub search_query: String,
}

} // verus!
