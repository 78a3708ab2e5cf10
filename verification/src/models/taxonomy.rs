//! Categories and tags of posts, and the short lists shown beside them.
use vstd::prelude::*;

use crate::text::str_eq;

verus! {

#[derive(Debug, Clone)]
pub struct Taxonomy {
    pub id: i64,
    pub scope: String,
    pub kind: String,
    pub name: String,
    pub slug: String,
    pub created_at: String,
}

#[derive(Debug, Clone)]
pub struct TaxonomyCount {
    pub name: String,
    pub slug: String,
    pub post_count: i64,
}

pub const TAX_SCOPE_POST: &'static str = "post";

pub const TAX_KIND_CATEGORY: &'static str = "category";

pub const TAX_KIND_TAG: &'static str = "tag";

impl Taxonomy {
    pub fn is_category(&self) -> (r: bool)
        ensures
            r == (self.kind@ == "category"@),
    {
        str_eq(self.kind.as_str(), TAX_KIND_CATEGORY)
    }

    pub fn is_tag(&self) -> (r: bool)
        ensures
            r == (self.kind@ == "tag"@),
    {
        str_eq(self.kind.as_str(), TAX_KIND_TAG)
    }
}

/// How many entries a side list shows.
pub const ASIDE_TAX_LIMIT: usize = 100;

/// The first `ASIDE_TAX_LIMIT` counts, and whether there were more.
pub fn take_aside_tax(items: Vec<TaxonomyCount>) -> (r: (Vec<TaxonomyCount>, bool))
    ensures
        r.1 == (items@.len() > ASIDE_TAX_LIMIT),
        r.0@ == if r.1 {
            items@.take(ASIDE_TAX_LIMIT as int)
        } else {
            items@
        },
{
    take_aside_list(items)
}

/// The first `ASIDE_TAX_LIMIT` items, and whether there were more.
pub fn take_aside_list<T>(items: Vec<T>) -> (r: (Vec<T>, bool))
    ensures
        r.1 == (items@.len() > ASIDE_TAX_LIMIT),
        r.0@ == if r.1 {
            items@.take(ASIDE_TAX_LIMIT as int)
        } else {
            items@
        },
{
    let mut items = items;
    let more = items.len() > ASIDE_TAX_LIMIT;
    if more {
        items.truncate(ASIDE_TAX_LIMIT);
    }
    (items, more)
}

} // verus!
