//! The admin pages.
use vstd::prelude::*;

use crate::dashboard::DashboardData;
use crate::models::media::Media;
use crate::models::nav::{NavItemConfig, NavPageRef};
use crate::models::page::Page;
use crate::models::post::{Post, RelatedPostRef};
use crate::models::settings::SiteSettings;
use crate::models::taxonomy::Taxonomy;
use crate::pagination::Pagination;

verus! {

/// A category or tag offered in a post's form, ticked where the post has
/// it.
pub struct TaxOption {
    pub id: i64,
    pub name: String,
    pub checked: bool,
}

impl TaxOption {
    /// The options for `list`, in its order, ticked where their id is in
    /// `selected`.
    pub fn from_list(list: Vec<Taxonomy>, selected: &Vec<i64>) -> (r: Vec<TaxOption>)
        ensures
            r.len() == list.len(),
            forall|i: int|
                0 <= i < list.len() ==> {
                    &&& (#[trigger] r@[i]).id == list@[i].id
                    &&& r@[i].name == list@[i].name
                    &&& r@[i].checked == selected@.contains(list@[i].id)
                },
    {
        let mut out: Vec<TaxOption> = Vec::new();
        let mut list = list;
        let ghost orig = list@;
        let mut rest: Vec<Taxonomy> = Vec::new();
        // Taken from the back, then laid out in order.
        while list.len() > 0
            invariant
                list@ =~= orig.take(list@.len() as int),
                list@.len() + rest@.len() == orig.len(),
                forall|k: int|
                    0 <= k < rest@.len() ==> #[trigger] rest@[k] == orig[orig.len() - 1 - k],
            decreases list.len(),
        {
            let t = list.pop().unwrap();
            rest.push(t);
        }
        while rest.len() > 0
            invariant
                rest@.len() + out@.len() == orig.len(),
                forall|k: int|
                    0 <= k < rest@.len() ==> #[trigger] rest@[k] == orig[orig.len() - 1 - k],
                forall|i: int|
                    0 <= i < out@.len() ==> {
                        &&& (#[trigger] out@[i]).id == orig[i].id
                        &&& out@[i].name == orig[i].name
                        &&& out@[i].checked == selected@.contains(orig[i].id)
                    },
            decreases rest.len(),
        {
            let t = rest.pop().unwrap();
            let checked = contains_id(selected, t.id);
            out.push(TaxOption { id: t.id, name: t.name, checked });
        }
        out
    }
}

fn contains_id(v: &Vec<i64>, id: i64) -> (r: bool)
    ensures
        r == v@.contains(id),
{
    let mut i: usize = 0;
    while i < v.len()
        invariant
            0 <= i <= v.len(),
            forall|k: int| 0 <= k < i ==> v@[k] != id,
        decreases v.len() - i,
    {
        if v[i] == id {
            return true;
        }
        i = i + 1;
    }
    false
}

/// The dashboard.
pub struct AdminDashboardTemplate {
    pub settings: SiteSettings,
    pub username: String,
    pub dash: DashboardData,
}

/// The admin list of posts.
pub struct AdminPostsTemplate {
    pub settings: SiteSettings,
    pub username: String,
    pub posts: Vec<Post>,
    pub pagination: Pagination,
}

/// The form of a post.
pub struct AdminPostEditTemplate {
    pub settings: SiteSettings,
    pub username: String,
    pub is_new: bool,
    pub content_id: i64,
    pub form_action: String,
    pub title: String,
    pub slug: String,
    pub summary: String,
    pub content_md: String,
    pub cover_url: String,
    pub status: String,
    pub visibility: String,
    pub published_at_local: String,
    pub categories: Vec<TaxOption>,
    pub tags: Vec<TaxOption>,
    pub related: Vec<RelatedPostRef>,
    pub related_max: usize,
    pub error: Option<String>,
}

/// The site settings form.
pub struct AdminSettingsTemplate {
    pub settings: SiteSettings,
    pub username: String,
    pub error: Option<String>,
    pub saved: bool,
}

/// The navigation editor.
pub struct AdminNavTemplate {
    pub settings: SiteSettings,
    pub username: String,
    pub items: Vec<NavItemConfig>,
    pub pages: Vec<NavPageRef>,
    pub error: Option<String>,
}

/// The list of categories or tags.
pub struct AdminTaxonomiesTemplate {
    pub settings: SiteSettings,
    pub username: String,
    pub kind: String,
    pub kind_label: String,
    pub items: Vec<Taxonomy>,
    pub pagination: Pagination,
    pub error: Option<String>,
}

/// The form of a category or tag.
pub struct AdminTaxonomyEditTemplate {
    pub settings: SiteSettings,
    pub username: String,
    pub id: i64,
    pub kind: String,
    pub kind_label: String,
    pub name: String,
    pub slug: String,
    pub error: Option<String>,
}

/// The media library.
pub struct AdminMediaTemplate {
    pub settings: SiteSettings,
    pub username: String,
    pub items: Vec<Media>,
    pub pagination: Pagination,
    pub error: Option<String>,
}

/// The admin list of pages.
pub struct AdminPagesTemplate {
    pub settings: SiteSettings,
    pub username: String,
    pub pages: Vec<Page>,
    pub pagination: Pagination,
}

/// The form of a page.
pub struct AdminPageEditTemplate {
    pub settings: SiteSettings,
    pub username: String,
    pub is_new: bool,
    pub content_id: i64,
    pub form_action: String,
    pub title: String,
    pub slug: String,
    pub content_md: String,
    pub status: String,
    pub visibility: String,
    pub error: Option<String>,
}

} // verus!
