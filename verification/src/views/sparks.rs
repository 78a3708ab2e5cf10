//! The pages of sparks, the short notes.
use vstd::prelude::*;

use crate::models::nav::NavItemView;
use crate::models::settings::SiteSettings;
use crate::models::spark::Spark;
use crate::pagination::Pagination;

verus! {

/// The public list of sparks.
pub struct SparksTemplate {
    pub settings: SiteSettings,
    pub items: Vec<Spark>,
    pub pagination: Pagination,
    pub logged_in: bool,
    pub nav_items: Vec<NavItemView>,
    pub search_query: String,
}

/// The quick capture form.
pub struct SparkCaptureTemplate {
    pub settings: SiteSettings,
    pub error: Option<String>,
    pub content_md: String,
    pub visibility: String,
    pub saved: bool,
}

/// The admin list of sparks.
pub struct AdminSparksTemplate {
    pub settings: SiteSettings,
    pub username: String,
    pub items: Vec<Spark>,
    pub pagination: Pagination,
}

/// The admin form of one spark.
pub struct AdminSparkEditTemplate {
    pub settings: SiteSettings,
    pub username: String,
    pub id: i64,
    pub content_md: String,
    pub visibility: String,
    pub error: Option<String>,
}

} // verus!
