//! The site navigation: the four built-in routes, the configured items
//! (built-in routes, pages and custom links, each public, private or hidden),
//! how a configuration is cleaned, and how it becomes the links a visitor
//! sees.
use vstd::prelude::*;

use crate::text::{
    chars_of, lower_seq, lower_vec, new_string, push_str, starts, starts_with, str_eq,
    string_from_chars, string_of, take_n, take_vec, trim, trimmed, utf8_len, utf8_len_of, vec_eq,
};

verus! {

// ---------------------------------------------------------------------------
// Built-in routes
// ---------------------------------------------------------------------------

#[derive(Debug, Clone, Copy)]
pub struct BuiltinRoute {
    pub key: &'static str,
    pub default_label: &'static str,
    pub href: &'static str,
}

/// How many built-in routes there are.
pub const BUILTIN_COUNT: usize = 4;

pub open spec fn builtin_key(i: int) -> Seq<char> {
    if i == 0 {
        "home"@
    } else if i == 1 {
        "posts"@
    } else if i == 2 {
        "docs"@
    } else {
        "sparks"@
    }
}

pub open spec fn builtin_label(i: int) -> Seq<char> {
    if i == 0 {
        "首页"@
    } else if i == 1 {
        "文章"@
    } else if i == 2 {
        "知识库"@
    } else {
        "灵感"@
    }
}

pub open spec fn builtin_href(i: int) -> Seq<char> {
    if i == 0 {
        "/"@
    } else if i == 1 {
        "/posts"@
    } else if i == 2 {
        "/docs"@
    } else {
        "/sparks"@
    }
}

/// The position of the built-in route with this key.
pub open spec fn builtin_index(key: Seq<char>) -> Option<int> {
    if key == builtin_key(0) {
        Some(0)
    } else if key == builtin_key(1) {
        Some(1)
    } else if key == builtin_key(2) {
        Some(2)
    } else if key == builtin_key(3) {
        Some(3)
    } else {
        None
    }
}

pub proof fn lemma_builtin_keys_distinct()
    ensures
        forall|i: int, j: int|
            0 <= i < 4 && 0 <= j < 4 && i != j ==> builtin_key(i) != builtin_key(j),
        forall|i: int| 0 <= i < 4 ==> builtin_index(#[trigger] builtin_key(i)) == Some(i),
{
    reveal_strlit("home");
    reveal_strlit("posts");
    reveal_strlit("docs");
    reveal_strlit("sparks");
    assert("home"@[0] != "posts"@[0]);
    assert("home"@[0] != "docs"@[0]);
    assert("home"@[0] != "sparks"@[0]);
    assert("posts"@[0] != "docs"@[0]);
    assert("posts"@[0] != "sparks"@[0]);
    assert("docs"@[0] != "sparks"@[0]);
}

/// Whether the route is the section a request path belongs to.
pub open spec fn route_active(i: int, path: Seq<char>) -> bool {
    if i == 0 {
        path == "/"@
    } else if i == 1 {
        path == "/posts"@ || starts(path, "/posts/"@) || starts(path, "/categories/"@) || starts(
            path,
            "/tags/"@,
        )
    } else if i == 2 {
        path == "/docs"@ || starts(path, "/docs/"@)
    } else if i == 3 {
        path == "/sparks"@ || starts(path, "/sparks/"@)
    } else {
        false
    }
}

pub open spec fn is_route(r: BuiltinRoute, i: int) -> bool {
    &&& r.key@ == builtin_key(i)
    &&& r.default_label@ == builtin_label(i)
    &&& r.href@ == builtin_href(i)
}

/// The `i`-th built-in route.
pub fn builtin_route(i: usize) -> (r: BuiltinRoute)
    requires
        i < BUILTIN_COUNT,
    ensures
        is_route(r, i as int),
{
    if i == 0 {
        BuiltinRoute { key: "home", default_label: "首页", href: "/" }
    } else if i == 1 {
        BuiltinRoute { key: "posts", default_label: "文章", href: "/posts" }
    } else if i == 2 {
        BuiltinRoute { key: "docs", default_label: "知识库", href: "/docs" }
    } else {
        BuiltinRoute { key: "sparks", default_label: "灵感", href: "/sparks" }
    }
}

impl BuiltinRoute {
    /// The built-in route with this key.
    pub fn find(key: &str) -> (r: Option<BuiltinRoute>)
        ensures
            match builtin_index(key@) {
                Some(i) => r is Some && is_route(r.unwrap(), i),
                None => r is None,
            },
    {
        let mut i: usize = 0;
        while i < BUILTIN_COUNT
            invariant
                0 <= i <= BUILTIN_COUNT,
                forall|j: int| 0 <= j < i ==> key@ != builtin_key(j),
            decreases BUILTIN_COUNT - i,
        {
            let r = builtin_route(i);
            if str_eq(r.key, key) {
                return Some(r);
            }
            i = i + 1;
        }
        None
    }

    pub fn is_active(&self, path: &str) -> (r: bool)
        ensures
            r == match builtin_index(self.key@) {
                Some(i) => route_active(i, path@),
                None => false,
            },
    {
        let p = chars_of(path);
        if str_eq(self.key, "home") {
            str_eq(path, "/")
        } else if str_eq(self.key, "posts") {
            str_eq(path, "/posts") || starts_with(&p, "/posts/") || starts_with(&p, "/categories/")
                || starts_with(&p, "/tags/")
        } else if str_eq(self.key, "docs") {
            str_eq(path, "/docs") || starts_with(&p, "/docs/")
        } else if str_eq(self.key, "sparks") {
            str_eq(path, "/sparks") || starts_with(&p, "/sparks/")
        } else {
            false
        }
    }
}

// ---------------------------------------------------------------------------
// Configured items
// ---------------------------------------------------------------------------

pub const NAV_KIND_BUILTIN: &'static str = "builtin";

pub const NAV_KIND_PAGE: &'static str = "page";

pub const NAV_KIND_CUSTOM: &'static str = "custom";

/// How many items a navigation keeps.
pub const NAV_MAX_ITEMS: usize = 16;

pub const NAV_VIS_PUBLIC: &'static str = "public";

pub const NAV_VIS_PRIVATE: &'static str = "private";

pub const NAV_VIS_HIDDEN: &'static str = "hidden";

/// How many characters a navigation label keeps.
pub const NAV_LABEL_MAX: usize = 40;

/// How many characters a custom link being edited keeps.
pub const NAV_URL_EDIT_MAX: usize = 500;

#[derive(Debug, Clone)]
pub struct NavItemConfig {
    pub kind: String,
    pub key: String,
    pub page_id: Option<i64>,
    pub label: String,
    pub url: String,
    pub visibility: String,
}

/// A navigation item as plain text.
pub struct NavItemModel {
    pub kind: Seq<char>,
    pub key: Seq<char>,
    pub page_id: Option<i64>,
    pub label: Seq<char>,
    pub url: Seq<char>,
    pub visibility: Seq<char>,
}

impl View for NavItemConfig {
    type V = NavItemModel;

    open spec fn view(&self) -> NavItemModel {
        NavItemModel {
            kind: self.kind@,
            key: self.key@,
            page_id: self.page_id,
            label: self.label@,
            url: self.url@,
            visibility: self.visibility@,
        }
    }
}

pub open spec fn nav_models(v: Seq<NavItemConfig>) -> Seq<NavItemModel> {
    v.map_values(|x: NavItemConfig| x@)
}

pub open spec fn vis_norm(raw: Seq<char>) -> Seq<char> {
    let t = trim(raw);
    if t == "private"@ {
        "private"@
    } else if t == "hidden"@ {
        "hidden"@
    } else {
        "public"@
    }
}

pub open spec fn visible_to(visibility: Seq<char>, logged_in: bool) -> bool {
    if visibility == "hidden"@ {
        false
    } else if visibility == "private"@ {
        logged_in
    } else {
        true
    }
}

/// The item for a built-in route with its default label.
pub open spec fn builtin_item(i: int) -> NavItemModel {
    NavItemModel {
        kind: "builtin"@,
        key: builtin_key(i),
        page_id: None,
        label: Seq::empty(),
        url: Seq::empty(),
        visibility: "public"@,
    }
}

pub open spec fn default_items() -> Seq<NavItemModel> {
    Seq::new(BUILTIN_COUNT as nat, |i: int| builtin_item(i))
}

/// A link a navigation may hold: an `http(s)` URL, or a site path that is
/// not protocol-relative; at most 500 bytes, trimmed.
pub open spec fn sanitize_nav_url_spec(raw: Seq<char>) -> Option<Seq<char>> {
    let url = trim(raw);
    let lower = lower_seq(url);
    if url.len() == 0 || utf8_len(url) > 500 {
        None
    } else if starts(lower, "https://"@) || starts(lower, "http://"@) {
        Some(url)
    } else if starts(url, "/"@) && !starts(url, "//"@) && !starts(lower, "javascript:"@) {
        Some(url)
    } else {
        None
    }
}

pub fn sanitize_nav_url(raw: &str) -> (r: Option<String>)
    ensures
        match r {
            Some(u) => sanitize_nav_url_spec(raw@) == Some(u@),
            None => sanitize_nav_url_spec(raw@) is None,
        },
{
    let url = trimmed(raw);
    if url.len() == 0 || utf8_len_of(&url) > 500 {
        return None;
    }
    let lower = lower_vec(&url);
    if starts_with(&lower, "https://") || starts_with(&lower, "http://") {
        return Some(string_from_chars(&url));
    }
    if starts_with(&url, "/") && !starts_with(&url, "//") && !starts_with(&lower, "javascript:") {
        return Some(string_from_chars(&url));
    }
    None
}

/// Whether `acc` already holds the built-in route `key`.
pub open spec fn has_builtin_key(acc: Seq<NavItemModel>, key: Seq<char>) -> bool {
    exists|j: int| 0 <= j < acc.len() && acc[j].kind == "builtin"@ && acc[j].key == key
}

/// The label of a custom link: trimmed, at most 40 characters, `链接` when
/// blank.
pub open spec fn custom_label(label: Seq<char>) -> Seq<char> {
    let l = take_n(trim(label), NAV_LABEL_MAX as int);
    if l.len() == 0 {
        "链接"@
    } else {
        l
    }
}

/// What a stored item becomes when a navigation is cleaned, given the items
/// kept before it: built-in routes by a known key, once each; pages with a
/// positive id; custom links with an acceptable URL; nothing else.
pub open spec fn norm_one(item: NavItemModel, acc: Seq<NavItemModel>) -> Option<NavItemModel> {
    let vis = vis_norm(item.visibility);
    let label = take_n(trim(item.label), NAV_LABEL_MAX as int);
    if item.kind == "builtin"@ {
        let key = lower_seq(trim(item.key));
        if builtin_index(key) is None || has_builtin_key(acc, key) {
            None
        } else {
            Some(
                NavItemModel {
                    kind: "builtin"@,
                    key,
                    page_id: None,
                    label,
                    url: Seq::empty(),
                    visibility: vis,
                },
            )
        }
    } else if item.kind == "page"@ {
        match item.page_id {
            Some(id) => if id > 0 {
                Some(
                    NavItemModel {
                        kind: "page"@,
                        key: Seq::empty(),
                        page_id: Some(id),
                        label,
                        url: Seq::empty(),
                        visibility: vis,
                    },
                )
            } else {
                None
            },
            None => None,
        }
    } else if item.kind == "custom"@ {
        match sanitize_nav_url_spec(item.url) {
            Some(u) => Some(
                NavItemModel {
                    kind: "custom"@,
                    key: Seq::empty(),
                    page_id: None,
                    label: custom_label(item.label),
                    url: u,
                    visibility: vis,
                },
            ),
            None => None,
        }
    } else {
        None
    }
}

/// What an item being edited becomes: as when cleaning, except that a page
/// without a valid id and a custom link with any URL are kept, so the editor
/// can show them again.
pub open spec fn edit_one(item: NavItemModel, acc: Seq<NavItemModel>) -> Option<NavItemModel> {
    let vis = vis_norm(item.visibility);
    let label = take_n(trim(item.label), NAV_LABEL_MAX as int);
    if item.kind == "builtin"@ {
        norm_one(item, acc)
    } else if item.kind == "page"@ {
        Some(
            NavItemModel {
                kind: "page"@,
                key: Seq::empty(),
                page_id: match item.page_id {
                    Some(id) => if id > 0 {
                        Some(id)
                    } else {
                        None
                    },
                    None => None,
                },
                label,
                url: Seq::empty(),
                visibility: vis,
            },
        )
    } else if item.kind == "custom"@ {
        Some(
            NavItemModel {
                kind: "custom"@,
                key: Seq::empty(),
                page_id: None,
                label: custom_label(item.label),
                url: take_n(trim(item.url), NAV_URL_EDIT_MAX as int),
                visibility: vis,
            },
        )
    } else {
        None
    }
}

pub open spec fn norm_fold(raw: Seq<NavItemModel>, n: int, editing: bool) -> Seq<NavItemModel>
    decreases n,
{
    if n <= 0 {
        Seq::empty()
    } else {
        let acc = norm_fold(raw, n - 1, editing);
        let step = if editing {
            edit_one(raw[n - 1], acc)
        } else {
            norm_one(raw[n - 1], acc)
        };
        match step {
            Some(x) => acc.push(x),
            None => acc,
        }
    }
}

/// The built-in routes, before position `i`, that `items` lacks.
pub open spec fn missing_upto(items: Seq<NavItemModel>, i: int) -> Seq<NavItemModel>
    decreases i,
{
    if i <= 0 {
        Seq::empty()
    } else {
        let m = missing_upto(items, i - 1);
        if has_builtin_key(items, builtin_key(i - 1)) {
            m
        } else {
            m.push(builtin_item(i - 1))
        }
    }
}

/// Every built-in route is present: the missing ones are put first.
pub open spec fn ensure_builtins_spec(items: Seq<NavItemModel>) -> Seq<NavItemModel> {
    let missing = missing_upto(items, BUILTIN_COUNT as int);
    if missing.len() == 0 {
        if items.len() == 0 {
            default_items()
        } else {
            items
        }
    } else {
        missing + items
    }
}

pub open spec fn normalize_list_spec(raw: Seq<NavItemModel>) -> Seq<NavItemModel> {
    ensure_builtins_spec(norm_fold(raw, take_n_len(raw.len(), NAV_MAX_ITEMS as int), false))
}

pub open spec fn for_editor_spec(raw: Seq<NavItemModel>) -> Seq<NavItemModel> {
    ensure_builtins_spec(norm_fold(raw, take_n_len(raw.len(), NAV_MAX_ITEMS as int), true))
}

pub open spec fn take_n_len(len: nat, n: int) -> int {
    if n < len {
        n
    } else {
        len as int
    }
}

fn builtin_config(i: usize, label: String, visibility: String) -> (r: NavItemConfig)
    requires
        i < BUILTIN_COUNT,
    ensures
        r@ == (NavItemModel {
            kind: "builtin"@,
            key: builtin_key(i as int),
            page_id: None,
            label: label@,
            url: Seq::empty(),
            visibility: visibility@,
        }),
{
    let route = builtin_route(i);
    NavItemConfig {
        kind: string_of(NAV_KIND_BUILTIN),
        key: string_of(route.key),
        page_id: None,
        label,
        url: new_string(),
        visibility,
    }
}

fn has_builtin_key_exec(acc: &Vec<NavItemConfig>, key: &str) -> (r: bool)
    ensures
        r == has_builtin_key(nav_models(acc@), key@),
{
    let mut j: usize = 0;
    while j < acc.len()
        invariant
            0 <= j <= acc.len(),
            forall|k: int|
                0 <= k < j ==> !(acc@[k].kind@ == "builtin"@ && acc@[k].key@ == key@),
        decreases acc.len() - j,
    {
        if str_eq(acc[j].kind.as_str(), NAV_KIND_BUILTIN) && str_eq(acc[j].key.as_str(), key) {
            assert(nav_models(acc@)[j as int] == acc@[j as int]@);
            return true;
        }
        j = j + 1;
    }
    proof {
        assert forall|k: int|
            0 <= k < nav_models(acc@).len() implies !(nav_models(acc@)[k].kind == "builtin"@
            && nav_models(acc@)[k].key == key@) by {
            assert(nav_models(acc@)[k] == acc@[k]@);
        }
    }
    false
}

impl NavItemConfig {
    pub fn normalize_visibility(raw: &str) -> (r: String)
        ensures
            r@ == vis_norm(raw@),
    {
        let t = trimmed(raw);
        if vec_eq(&t, &chars_of(NAV_VIS_PRIVATE)) {
            string_of(NAV_VIS_PRIVATE)
        } else if vec_eq(&t, &chars_of(NAV_VIS_HIDDEN)) {
            string_of(NAV_VIS_HIDDEN)
        } else {
            string_of(NAV_VIS_PUBLIC)
        }
    }

    pub fn is_public(&self) -> (r: bool)
        ensures
            r == (self.visibility@ == "public"@),
    {
        str_eq(self.visibility.as_str(), NAV_VIS_PUBLIC)
    }

    pub fn is_private(&self) -> (r: bool)
        ensures
            r == (self.visibility@ == "private"@),
    {
        str_eq(self.visibility.as_str(), NAV_VIS_PRIVATE)
    }

    pub fn is_hidden(&self) -> (r: bool)
        ensures
            r == (self.visibility@ == "hidden"@),
    {
        str_eq(self.visibility.as_str(), NAV_VIS_HIDDEN)
    }

    /// Hidden items show to nobody, private ones to signed-in users only.
    pub fn is_visible_to(&self, logged_in: bool) -> (r: bool)
        ensures
            r == visible_to(self.visibility@, logged_in),
    {
        if str_eq(self.visibility.as_str(), NAV_VIS_HIDDEN) {
            false
        } else if str_eq(self.visibility.as_str(), NAV_VIS_PRIVATE) {
            logged_in
        } else {
            true
        }
    }

    /// The navigation of a new site: the four built-in routes, public.
    pub fn system_defaults() -> (r: Vec<NavItemConfig>)
        ensures
            nav_models(r@) == default_items(),
    {
        let mut out: Vec<NavItemConfig> = Vec::new();
        let mut i: usize = 0;
        while i < BUILTIN_COUNT
            invariant
                0 <= i <= BUILTIN_COUNT,
                nav_models(out@) == default_items().take(i as int),
            decreases BUILTIN_COUNT - i,
        {
            let item = builtin_config(i, new_string(), string_of(NAV_VIS_PUBLIC));
            assert(item@ == builtin_item(i as int));
            let ghost prev = out@;
            out.push(item);
            assert(nav_models(out@) =~= nav_models(prev).push(item@));
            assert(default_items().take(i + 1) =~= default_items().take(i as int).push(
                builtin_item(i as int),
            ));
            i = i + 1;
        }
        assert(default_items().take(BUILTIN_COUNT as int) =~= default_items());
        out
    }

    pub fn is_builtin(&self) -> (r: bool)
        ensures
            r == (self.kind@ == "builtin"@),
    {
        str_eq(self.kind.as_str(), NAV_KIND_BUILTIN)
    }

    pub fn is_page(&self) -> (r: bool)
        ensures
            r == (self.kind@ == "page"@),
    {
        str_eq(self.kind.as_str(), NAV_KIND_PAGE)
    }

    pub fn is_custom(&self) -> (r: bool)
        ensures
            r == (self.kind@ == "custom"@),
    {
        str_eq(self.kind.as_str(), NAV_KIND_CUSTOM)
    }

    pub fn page_id_value(&self) -> (r: i64)
        ensures
            r == match self.page_id {
                Some(id) => id,
                None => 0,
            },
    {
        match self.page_id {
            Some(id) => id,
            None => 0,
        }
    }

    /// The default label of the item's built-in route, empty for other keys.
    pub fn builtin_default_label(&self) -> (r: &'static str)
        ensures
            r@ == match builtin_index(self.key@) {
                Some(i) => builtin_label(i),
                None => Seq::empty(),
            },
    {
        match BuiltinRoute::find(self.key.as_str()) {
            Some(route) => route.default_label,
            None => {
                proof {
                    reveal_strlit("");
                }
                ""
            },
        }
    }

    /// One step of cleaning or of preparing for the editor.
    fn clean_one(item: &NavItemConfig, acc: &Vec<NavItemConfig>, editing: bool) -> (r: Option<
        NavItemConfig,
    >)
        ensures
            match r {
                Some(x) => (if editing {
                    edit_one(item@, nav_models(acc@))
                } else {
                    norm_one(item@, nav_models(acc@))
                }) == Some(x@),
                None => (if editing {
                    edit_one(item@, nav_models(acc@))
                } else {
                    norm_one(item@, nav_models(acc@))
                }) is None,
            },
    {
        let visibility = Self::normalize_visibility(item.visibility.as_str());
        let label_v = take_vec(&trimmed(item.label.as_str()), NAV_LABEL_MAX);
        if str_eq(item.kind.as_str(), NAV_KIND_BUILTIN) {
            let key_v = lower_vec(&trimmed(item.key.as_str()));
            let key = string_from_chars(&key_v);
            let found = BuiltinRoute::find(key.as_str());
            if found.is_none() || has_builtin_key_exec(acc, key.as_str()) {
                return None;
            }
            Some(
                NavItemConfig {
                    kind: string_of(NAV_KIND_BUILTIN),
                    key,
                    page_id: None,
                    label: string_from_chars(&label_v),
                    url: new_string(),
                    visibility,
                },
            )
        } else if str_eq(item.kind.as_str(), NAV_KIND_PAGE) {
            let page_id = match item.page_id {
                Some(id) => if id > 0 {
                    Some(id)
                } else {
                    None
                },
                None => None,
            };
            if page_id.is_none() && !editing {
                return None;
            }
            Some(
                NavItemConfig {
                    kind: string_of(NAV_KIND_PAGE),
                    key: new_string(),
                    page_id,
                    label: string_from_chars(&label_v),
                    url: new_string(),
                    visibility,
                },
            )
        } else if str_eq(item.kind.as_str(), NAV_KIND_CUSTOM) {
            let url = if editing {
                string_from_chars(&take_vec(&trimmed(item.url.as_str()), NAV_URL_EDIT_MAX))
            } else {
                match sanitize_nav_url(item.url.as_str()) {
                    Some(u) => u,
                    None => {
                        return None;
                    },
                }
            };
            let label = if label_v.len() == 0 {
                string_of("链接")
            } else {
                string_from_chars(&label_v)
            };
            Some(
                NavItemConfig {
                    kind: string_of(NAV_KIND_CUSTOM),
                    key: new_string(),
                    page_id: None,
                    label,
                    url,
                    visibility,
                },
            )
        } else {
            None
        }
    }

    fn clean_list(raw: &Vec<NavItemConfig>, editing: bool) -> (r: Vec<NavItemConfig>)
        ensures
            nav_models(r@) == norm_fold(
                nav_models(raw@),
                take_n_len(raw@.len(), NAV_MAX_ITEMS as int),
                editing,
            ),
    {
        let n: usize = if raw.len() < NAV_MAX_ITEMS {
            raw.len()
        } else {
            NAV_MAX_ITEMS
        };
        let mut out: Vec<NavItemConfig> = Vec::new();
        let mut i: usize = 0;
        while i < n
            invariant
                0 <= i <= n <= raw.len(),
                n == take_n_len(raw@.len(), NAV_MAX_ITEMS as int),
                nav_models(out@) == norm_fold(nav_models(raw@), i as int, editing),
            decreases n - i,
        {
            let step = Self::clean_one(&raw[i], &out, editing);
            assert(nav_models(raw@)[i as int] == raw@[i as int]@);
            match step {
                Some(x) => {
                    out.push(x);
                    assert(nav_models(out@) =~= norm_fold(nav_models(raw@), i as int, editing).push(
                        x@,
                    ));
                },
                None => {},
            }
            i = i + 1;
        }
        out
    }

    /// A stored navigation, cleaned: at most sixteen items, each kept as
    /// `norm_one` says, then any missing built-in route put first.
    pub fn normalize_list(raw: Vec<NavItemConfig>) -> (r: Vec<NavItemConfig>)
        ensures
            nav_models(r@) == normalize_list_spec(nav_models(raw@)),
    {
        let cleaned = Self::clean_list(&raw, false);
        Self::ensure_builtins(cleaned)
    }

    /// A navigation being edited, prepared for the editor as `edit_one`
    /// says, with any missing built-in route put first.
    pub fn for_editor(raw: Vec<NavItemConfig>) -> (r: Vec<NavItemConfig>)
        ensures
            nav_models(r@) == for_editor_spec(nav_models(raw@)),
    {
        let cleaned = Self::clean_list(&raw, true);
        Self::ensure_builtins(cleaned)
    }

    fn ensure_builtins(items: Vec<NavItemConfig>) -> (r: Vec<NavItemConfig>)
        ensures
            nav_models(r@) == ensure_builtins_spec(nav_models(items@)),
    {
        let mut missing: Vec<NavItemConfig> = Vec::new();
        let mut i: usize = 0;
        while i < BUILTIN_COUNT
            invariant
                0 <= i <= BUILTIN_COUNT,
                nav_models(missing@) == missing_upto(nav_models(items@), i as int),
            decreases BUILTIN_COUNT - i,
        {
            let route = builtin_route(i);
            if !has_builtin_key_exec(&items, route.key) {
                let item = builtin_config(i, new_string(), string_of(NAV_VIS_PUBLIC));
                missing.push(item);
                assert(nav_models(missing@) =~= missing_upto(nav_models(items@), i as int).push(
                    builtin_item(i as int),
                ));
            }
            i = i + 1;
        }
        if missing.len() == 0 {
            if items.len() == 0 {
                return Self::system_defaults();
            }
            return items;
        }
        let mut out = missing;
        let mut rest = items;
        let ghost m0 = nav_models(out@);
        let ghost r0 = nav_models(rest@);
        out.append(&mut rest);
        assert(nav_models(out@) =~= m0 + r0);
        out
    }
}

// ---------------------------------------------------------------------------
// What a visitor sees
// ---------------------------------------------------------------------------

#[derive(Debug, Clone)]
pub struct NavPageRef {
    pub id: i64,
    pub title: String,
    pub slug: String,
    pub visibility: String,
}

impl NavPageRef {
    pub fn is_private(&self) -> (r: bool)
        ensures
            r == (self.visibility@ == "private"@),
    {
        str_eq(self.visibility.as_str(), "private")
    }

    pub fn href(&self) -> (r: String)
        ensures
            r@ == "/p/"@ + self.slug@,
    {
        let mut s = string_of("/p/");
        push_str(&mut s, self.slug.as_str());
        s
    }
}

#[derive(Debug, Clone)]
pub struct NavItemView {
    pub label: String,
    pub href: String,
    pub active: bool,
    pub external: bool,
}

impl NavItemView {
    pub fn is_external(&self) -> (r: bool)
        ensures
            r == self.external,
    {
        self.external
    }
}

/// A link shown in the navigation, as plain text.
pub struct NavLinkModel {
    pub label: Seq<char>,
    pub href: Seq<char>,
    pub active: bool,
    pub external: bool,
}

pub open spec fn link_model(v: NavItemView) -> NavLinkModel {
    NavLinkModel { label: v.label@, href: v.href@, active: v.active, external: v.external }
}

pub open spec fn link_models(v: Seq<NavItemView>) -> Seq<NavLinkModel> {
    v.map_values(|x: NavItemView| link_model(x))
}

/// The first page with this id.
pub open spec fn page_index(pages: Seq<NavPageRef>, id: i64) -> Option<int> {
    if exists|j: int| 0 <= j < pages.len() && pages[j].id == id {
        Some(
            choose|j: int|
                0 <= j < pages.len() && pages[j].id == id && forall|k: int|
                    0 <= k < j ==> pages[k].id != id,
        )
    } else {
        None
    }
}

/// The link a configured item shows to a visitor on `path`, if any: hidden
/// items and items the visitor may not see are left out, as are built-in
/// routes with unknown keys, pages that are missing (or private, for
/// guests) and custom links with unacceptable URLs.
pub open spec fn resolve_one(
    cfg: NavItemModel,
    pages: Seq<NavPageRef>,
    logged_in: bool,
    path: Seq<char>,
) -> Option<NavLinkModel> {
    if !visible_to(cfg.visibility, logged_in) {
        None
    } else if cfg.kind == "builtin"@ {
        match builtin_index(cfg.key) {
            Some(i) => Some(
                NavLinkModel {
                    label: if trim(cfg.label).len() == 0 {
                        builtin_label(i)
                    } else {
                        cfg.label
                    },
                    href: builtin_href(i),
                    active: route_active(i, path),
                    external: false,
                },
            ),
            None => None,
        }
    } else if cfg.kind == "page"@ {
        match cfg.page_id {
            Some(id) => match page_index(pages, id) {
                Some(j) => {
                    let p = pages[j];
                    if !logged_in && p.visibility@ == "private"@ {
                        None
                    } else {
                        let href = "/p/"@ + p.slug@;
                        Some(
                            NavLinkModel {
                                label: if trim(cfg.label).len() == 0 {
                                    p.title@
                                } else {
                                    cfg.label
                                },
                                href,
                                active: path == href,
                                external: false,
                            },
                        )
                    }
                },
                None => None,
            },
            None => None,
        }
    } else if cfg.kind == "custom"@ {
        match sanitize_nav_url_spec(cfg.url) {
            Some(u) => {
                let ext = starts(u, "http://"@) || starts(u, "https://"@);
                Some(NavLinkModel { label: cfg.label, href: u, active: !ext && path == u, external: ext })
            },
            None => None,
        }
    } else {
        None
    }
}

pub open spec fn resolve_fold(
    cfgs: Seq<NavItemModel>,
    n: int,
    pages: Seq<NavPageRef>,
    logged_in: bool,
    path: Seq<char>,
) -> Seq<NavLinkModel>
    decreases n,
{
    if n <= 0 {
        Seq::empty()
    } else {
        let acc = resolve_fold(cfgs, n - 1, pages, logged_in, path);
        match resolve_one(cfgs[n - 1], pages, logged_in, path) {
            Some(x) => acc.push(x),
            None => acc,
        }
    }
}

fn find_page(pages: &Vec<NavPageRef>, id: i64) -> (r: Option<usize>)
    ensures
        match r {
            Some(j) => page_index(pages@, id) == Some(j as int) && j < pages.len(),
            None => page_index(pages@, id) is None,
        },
{
    let mut j: usize = 0;
    while j < pages.len()
        invariant
            0 <= j <= pages.len(),
            forall|k: int| 0 <= k < j ==> pages@[k].id != id,
        decreases pages.len() - j,
    {
        if pages[j].id == id {
            proof {
                let c = choose|m: int|
                    0 <= m < pages@.len() && pages@[m].id == id && forall|k: int|
                        0 <= k < m ==> pages@[k].id != id;
                assert(pages@[j as int].id == id);
                if c < j {
                    assert(pages@[c].id != id);
                }
                if j < c {
                    assert(pages@[j as int].id != id);
                }
            }
            return Some(j);
        }
        j = j + 1;
    }
    None
}

fn resolve_item(cfg: &NavItemConfig, pages: &Vec<NavPageRef>, logged_in: bool, path: &str) -> (r:
    Option<NavItemView>)
    ensures
        match r {
            Some(v) => resolve_one(cfg@, pages@, logged_in, path@) == Some(link_model(v)),
            None => resolve_one(cfg@, pages@, logged_in, path@) is None,
        },
{
    if !cfg.is_visible_to(logged_in) {
        return None;
    }
    let label_t = trimmed(cfg.label.as_str());
    if str_eq(cfg.kind.as_str(), NAV_KIND_BUILTIN) {
        match BuiltinRoute::find(cfg.key.as_str()) {
            Some(route) => {
                let label = if label_t.len() == 0 {
                    string_of(route.default_label)
                } else {
                    cfg.label.clone()
                };
                Some(
                    NavItemView {
                        label,
                        href: string_of(route.href),
                        active: route.is_active(path),
                        external: false,
                    },
                )
            },
            None => None,
        }
    } else if str_eq(cfg.kind.as_str(), NAV_KIND_PAGE) {
        match cfg.page_id {
            Some(id) => match find_page(pages, id) {
                Some(j) => {
                    let page = &pages[j];
                    if !logged_in && page.is_private() {
                        return None;
                    }
                    let label = if label_t.len() == 0 {
                        page.title.clone()
                    } else {
                        cfg.label.clone()
                    };
                    let href = page.href();
                    let active = str_eq(path, href.as_str());
                    Some(NavItemView { label, href, active, external: false })
                },
                None => None,
            },
            None => None,
        }
    } else if str_eq(cfg.kind.as_str(), NAV_KIND_CUSTOM) {
        match sanitize_nav_url(cfg.url.as_str()) {
            Some(url) => {
                let uv = chars_of(url.as_str());
                let external = starts_with(&uv, "http://") || starts_with(&uv, "https://");
                let active = !external && str_eq(path, url.as_str());
                Some(NavItemView { label: cfg.label.clone(), href: url, active, external })
            },
            None => None,
        }
    } else {
        None
    }
}

/// The links a visitor on `path` sees, in the configured order.
pub fn resolve_nav_items(
    configs: &Vec<NavItemConfig>,
    pages: &Vec<NavPageRef>,
    logged_in: bool,
    path: &str,
) -> (r: Vec<NavItemView>)
    ensures
        link_models(r@) == resolve_fold(
            nav_models(configs@),
            configs@.len() as int,
            pages@,
            logged_in,
            path@,
        ),
{
    let mut out: Vec<NavItemView> = Vec::new();
    let mut i: usize = 0;
    while i < configs.len()
        invariant
            0 <= i <= configs.len(),
            link_models(out@) == resolve_fold(
                nav_models(configs@),
                i as int,
                pages@,
                logged_in,
                path@,
            ),
        decreases configs.len() - i,
    {
        assert(nav_models(configs@)[i as int] == configs@[i as int]@);
        match resolve_item(&configs[i], pages, logged_in, path) {
            Some(v) => {
                out.push(v);
                assert(link_models(out@) =~= resolve_fold(
                    nav_models(configs@),
                    i as int,
                    pages@,
                    logged_in,
                    path@,
                ).push(link_model(v)));
            },
            None => {},
        }
        i = i + 1;
    }
    out
}

/// What every public page shows around its content: the site, whether the
/// reader is logged in, the menu, and the search box's text.
pub struct PublicShell {
    pub settings: crate::models::settings::SiteSettings,
    pub logged_in: bool,
    pub nav_items: Vec<NavItemView>,
    pub search_query: String,
}

/// The menu without the items that link to the page `page_id`, and
/// whether any went.
pub fn nav_without_page(items: Vec<NavItemConfig>, page_id: i64) -> (r: (Vec<NavItemConfig>, bool))
    ensures
        nav_models(r.0@) == nav_models(items@).filter(|m: NavItemModel| m.page_id != Some(page_id)),
        r.1 == (r.0@.len() != items@.len()),
{
    let n = items.len();
    let mut items = items;
    let ghost orig = items@;
    let mut back: Vec<NavItemConfig> = Vec::new();
    while items.len() > 0
        invariant
            items@ =~= orig.take(items@.len() as int),
            items@.len() + back@.len() == orig.len(),
            forall|k: int| 0 <= k < back@.len() ==> #[trigger] back@[k] == orig[orig.len() - 1 - k],
        decreases items.len(),
    {
        let it = items.pop().unwrap();
        back.push(it);
    }
    let mut out: Vec<NavItemConfig> = Vec::new();
    let ghost pred = |m: NavItemModel| m.page_id != Some(page_id);
    while back.len() > 0
        invariant
            back@.len() <= orig.len(),
            forall|k: int| 0 <= k < back@.len() ==> #[trigger] back@[k] == orig[orig.len() - 1 - k],
            nav_models(out@) == nav_models(orig.take(orig.len() - back@.len())).filter(pred),
            pred == (|m: NavItemModel| m.page_id != Some(page_id)),
        decreases back.len(),
    {
        let ghost done = orig.len() - back@.len();
        let it = back.pop().unwrap();
        proof {
            assert(orig.take(done + 1) =~= orig.take(done).push(orig[done]));
            assert(nav_models(orig.take(done + 1)) =~= nav_models(orig.take(done)).push(orig[done]@));
            nav_models(orig.take(done)).lemma_filter_push(orig[done]@, pred);
        }
        if it.page_id != Some(page_id) {
            proof {
                assert(nav_models(out@.push(it)) =~= nav_models(out@).push(it@));
            }
            out.push(it);
        }
    }
    proof {
        assert(orig.take(orig.len() as int) =~= orig);
        assert(nav_models(orig).len() == orig.len());
    }
    let changed = out.len() != n;
    (out, changed)
}


/// The visibility of a stored menu item: its own where it has one; an
/// item from before visibilities is hidden where it was switched off, and
/// public otherwise.
pub open spec fn stored_visibility(visibility: Option<Seq<char>>, enabled: Option<bool>) -> Seq<char> {
    match visibility {
        Some(v) => vis_norm(v),
        None => if enabled == Some(false) {
            "hidden"@
        } else {
            "public"@
        },
    }
}

impl NavItemConfig {
    /// A menu item as it was stored, its visibility as `stored_visibility`
    /// reads it.
    pub fn from_stored(
        kind: String,
        key: String,
        page_id: Option<i64>,
        label: String,
        url: String,
        visibility: Option<&str>,
        enabled: Option<bool>,
    ) -> (r: NavItemConfig)
        ensures
            r.kind == kind,
            r.key == key,
            r.page_id == page_id,
            r.label == label,
            r.url == url,
            r.visibility@ == stored_visibility(
                match visibility {
                    Some(v) => Some(v@),
                    None => None,
                },
                enabled,
            ),
    {
        let vis = match visibility {
            Some(v) => NavItemConfig::normalize_visibility(v),
            None => match enabled {
                Some(false) => string_of(NAV_VIS_HIDDEN),
                _ => string_of(NAV_VIS_PUBLIC),
            },
        };
        NavItemConfig { kind, key, page_id, label, url, visibility: vis }
    }
}


// ---------------------------------------------------------------------------
// What a cleaned navigation always is
// ---------------------------------------------------------------------------

/// An item as a cleaned navigation holds it: a built-in route by a known
/// key, a page or a custom link; a known visibility; a label of at most 40
/// characters; and, outside the editor, a page with a positive id.
pub open spec fn nav_item_ok(x: NavItemModel, editing: bool) -> bool {
    &&& (x.kind == "builtin"@ || x.kind == "page"@ || x.kind == "custom"@)
    &&& (x.kind == "builtin"@ ==> builtin_index(x.key) is Some)
    &&& (x.visibility == "public"@ || x.visibility == "private"@ || x.visibility == "hidden"@)
    &&& x.label.len() <= NAV_LABEL_MAX
    &&& (!editing && x.kind == "page"@ ==> (x.page_id matches Some(id) && id > 0))
}

/// No built-in route is listed twice.
pub open spec fn builtins_once(items: Seq<NavItemModel>) -> bool {
    forall|a: int, b: int|
        0 <= a < b < items.len() && items[a].kind == "builtin"@ && #[trigger] items[b].kind
            == "builtin"@ ==> #[trigger] items[a].key != items[b].key
}

proof fn lemma_vis_norm_known(raw: Seq<char>)
    ensures
        vis_norm(raw) == "public"@ || vis_norm(raw) == "private"@ || vis_norm(raw) == "hidden"@,
{
}

proof fn lemma_fold_ok(raw: Seq<NavItemModel>, n: int, editing: bool)
    requires
        0 <= n <= raw.len(),
    ensures
        norm_fold(raw, n, editing).len() <= n,
        builtins_once(norm_fold(raw, n, editing)),
        forall|j: int|
            0 <= j < norm_fold(raw, n, editing).len() ==> nav_item_ok(
                #[trigger] norm_fold(raw, n, editing)[j],
                editing,
            ),
    decreases n,
{
    reveal_strlit("链接");
    reveal_strlit("builtin");
    reveal_strlit("page");
    reveal_strlit("custom");
    if n > 0 {
        lemma_fold_ok(raw, n - 1, editing);
        let acc = norm_fold(raw, n - 1, editing);
        let item = raw[n - 1];
        lemma_vis_norm_known(item.visibility);
        let step = if editing {
            edit_one(item, acc)
        } else {
            norm_one(item, acc)
        };
        if step is Some {
            let x = step->0;
            let r = acc.push(x);
            assert(r == norm_fold(raw, n, editing));
            assert(x.kind == "builtin"@ || x.kind == "page"@ || x.kind == "custom"@);
            assert(x.kind == "builtin"@ ==> builtin_index(x.key) is Some);
            assert(x.visibility == "public"@ || x.visibility == "private"@ || x.visibility == "hidden"@);
            assert(x.label.len() <= NAV_LABEL_MAX);
            assert(nav_item_ok(x, editing));
            assert forall|j: int| 0 <= j < r.len() implies nav_item_ok(#[trigger] r[j], editing) by {
                if j < acc.len() {
                    assert(r[j] == acc[j]);
                }
            }
            assert forall|a: int, b: int|
                0 <= a < b < r.len() && r[a].kind == "builtin"@ && #[trigger] r[b].kind
                    == "builtin"@ implies #[trigger] r[a].key != r[b].key by {
                if b == acc.len() {
                    assert(r[a] == acc[a]);
                    assert(has_builtin_key(acc, r[a].key));
                } else {
                    assert(r[a] == acc[a] && r[b] == acc[b]);
                }
            }
        }
    }
}

proof fn lemma_missing_upto(items: Seq<NavItemModel>, i: int)
    requires
        0 <= i <= BUILTIN_COUNT,
    ensures
        missing_upto(items, i).len() <= i,
        forall|j: int|
            0 <= j < missing_upto(items, i).len() ==> {
                let x = #[trigger] missing_upto(items, i)[j];
                &&& x.kind == "builtin"@
                &&& exists|k: int| 0 <= k < i && x == builtin_item(k) && !has_builtin_key(
                    items,
                    builtin_key(k),
                )
            },
        forall|k: int|
            0 <= k < i && !has_builtin_key(items, builtin_key(k)) ==> has_builtin_key(
                missing_upto(items, i),
                #[trigger] builtin_key(k),
            ),
        builtins_once(missing_upto(items, i)),
    decreases i,
{
    reveal_strlit("builtin");
    lemma_builtin_keys_distinct();
    if i > 0 {
        lemma_missing_upto(items, i - 1);
        let m = missing_upto(items, i - 1);
        if !has_builtin_key(items, builtin_key(i - 1)) {
            let r = m.push(builtin_item(i - 1));
            assert(r[m.len() as int] == builtin_item(i - 1));
            assert forall|j: int| 0 <= j < r.len() implies {
                let x = #[trigger] r[j];
                &&& x.kind == "builtin"@
                &&& exists|k: int| 0 <= k < i && x == builtin_item(k) && !has_builtin_key(
                    items,
                    builtin_key(k),
                )
            } by {
                if j < m.len() {
                    assert(r[j] == m[j]);
                    let x = m[j];
                    let k = choose|k: int| 0 <= k < i - 1 && x == builtin_item(k) && !has_builtin_key(
                        items,
                        builtin_key(k),
                    );
                    assert(0 <= k < i && x == builtin_item(k));
                } else {
                    assert(r[j] == builtin_item(i - 1));
                }
            }
            assert forall|k: int|
                0 <= k < i && !has_builtin_key(items, builtin_key(k)) implies has_builtin_key(
                r,
                #[trigger] builtin_key(k),
            ) by {
                if k < i - 1 {
                    let j = choose|j: int|
                        0 <= j < m.len() && m[j].kind == "builtin"@ && m[j].key == builtin_key(k);
                    assert(r[j] == m[j]);
                } else {
                    assert(r[m.len() as int].key == builtin_key(k));
                }
            }
            assert forall|a: int, b: int|
                0 <= a < b < r.len() && r[a].kind == "builtin"@ && #[trigger] r[b].kind
                    == "builtin"@ implies #[trigger] r[a].key != r[b].key by {
                if b == m.len() {
                    assert(r[a] == m[a]);
                    let x = m[a];
                    let k = choose|k: int| 0 <= k < i - 1 && x == builtin_item(k) && !has_builtin_key(
                        items,
                        builtin_key(k),
                    );
                    assert(builtin_key(k) != builtin_key(i - 1));
                } else {
                    assert(r[a] == m[a] && r[b] == m[b]);
                }
            }
        }
    }
}

proof fn lemma_ensure_builtins(items: Seq<NavItemModel>, editing: bool)
    requires
        builtins_once(items),
        forall|j: int| 0 <= j < items.len() ==> nav_item_ok(#[trigger] items[j], editing),
    ensures
        ({
            let r = ensure_builtins_spec(items);
            &&& r.len() <= items.len() + BUILTIN_COUNT
            &&& builtins_once(r)
            &&& forall|j: int| 0 <= j < r.len() ==> nav_item_ok(#[trigger] r[j], editing)
            &&& forall|k: int| 0 <= k < BUILTIN_COUNT ==> has_builtin_key(r, #[trigger] builtin_key(k))
        }),
{
    reveal_strlit("builtin");
    reveal_strlit("page");
    reveal_strlit("public");
    lemma_builtin_keys_distinct();
    lemma_missing_upto(items, BUILTIN_COUNT as int);
    let missing = missing_upto(items, BUILTIN_COUNT as int);
    let r = ensure_builtins_spec(items);
    if missing.len() == 0 {
        if items.len() == 0 {
            assert(has_builtin_key(items, builtin_key(0)) == false);
            assert(missing.len() > 0) by {
                assert(has_builtin_key(missing, builtin_key(0)));
            }
        }
        assert forall|k: int| 0 <= k < BUILTIN_COUNT implies has_builtin_key(
            r,
            #[trigger] builtin_key(k),
        ) by {
            if !has_builtin_key(items, builtin_key(k)) {
                assert(has_builtin_key(missing, builtin_key(k)));
                let j = choose|j: int|
                    0 <= j < missing.len() && missing[j].kind == "builtin"@ && missing[j].key
                        == builtin_key(k);
            }
        }
    } else {
        assert(r == missing + items);
        assert forall|j: int| 0 <= j < r.len() implies nav_item_ok(#[trigger] r[j], editing) by {
            if j < missing.len() {
                assert(r[j] == missing[j]);
                let x = missing[j];
                let k = choose|k: int| 0 <= k < BUILTIN_COUNT && x == builtin_item(k) && !has_builtin_key(
                    items,
                    builtin_key(k),
                );
                assert(builtin_index(builtin_key(k)) == Some(k));
                assert("builtin"@.len() != "page"@.len());
                assert(x.kind == "builtin"@ && x.kind != "page"@);
                assert(x.visibility == "public"@ && x.label.len() == 0);
            } else {
                assert(r[j] == items[j - missing.len()]);
            }
        }
        assert forall|k: int| 0 <= k < BUILTIN_COUNT implies has_builtin_key(
            r,
            #[trigger] builtin_key(k),
        ) by {
            if has_builtin_key(items, builtin_key(k)) {
                let j = choose|j: int|
                    0 <= j < items.len() && items[j].kind == "builtin"@ && items[j].key
                        == builtin_key(k);
                assert(r[j + missing.len()] == items[j]);
            } else {
                let j = choose|j: int|
                    0 <= j < missing.len() && missing[j].kind == "builtin"@ && missing[j].key
                        == builtin_key(k);
                assert(r[j] == missing[j]);
            }
        }
        assert forall|a: int, b: int|
            0 <= a < b < r.len() && r[a].kind == "builtin"@ && #[trigger] r[b].kind
                == "builtin"@ implies #[trigger] r[a].key != r[b].key by {
            if b < missing.len() {
                assert(r[a] == missing[a] && r[b] == missing[b]);
            } else if a >= missing.len() {
                assert(r[a] == items[a - missing.len()] && r[b] == items[b - missing.len()]);
            } else {
                assert(r[a] == missing[a] && r[b] == items[b - missing.len()]);
                let x = missing[a];
                let k = choose|k: int| 0 <= k < BUILTIN_COUNT && x == builtin_item(k) && !has_builtin_key(
                    items,
                    builtin_key(k),
                );
                if r[a].key == r[b].key {
                    assert(has_builtin_key(items, builtin_key(k)));
                }
            }
        }
    }
}

/// A cleaned navigation lists each of the four built-in routes exactly
/// once and no other, holds only pages with a positive id and custom
/// links besides, each with a known visibility and a label of at most 40
/// characters, and is at most twenty items long.
pub proof fn law_normalized_nav(raw: Seq<NavItemModel>)
    ensures
        ({
            let r = normalize_list_spec(raw);
            &&& r.len() <= NAV_MAX_ITEMS + BUILTIN_COUNT
            &&& builtins_once(r)
            &&& forall|k: int| 0 <= k < BUILTIN_COUNT ==> has_builtin_key(r, #[trigger] builtin_key(k))
            &&& forall|j: int| 0 <= j < r.len() ==> nav_item_ok(#[trigger] r[j], false)
        }),
{
    let n = take_n_len(raw.len(), NAV_MAX_ITEMS as int);
    lemma_fold_ok(raw, n, false);
    lemma_ensure_builtins(norm_fold(raw, n, false), false);
}

/// The editor's navigation lists each built-in route exactly once, each
/// item of a known kind and visibility with a label of at most 40
/// characters, at most twenty items.
pub proof fn law_editor_nav(raw: Seq<NavItemModel>)
    ensures
        ({
            let r = for_editor_spec(raw);
            &&& r.len() <= NAV_MAX_ITEMS + BUILTIN_COUNT
            &&& builtins_once(r)
            &&& forall|k: int| 0 <= k < BUILTIN_COUNT ==> has_builtin_key(r, #[trigger] builtin_key(k))
            &&& forall|j: int| 0 <= j < r.len() ==> nav_item_ok(#[trigger] r[j], true)
        }),
{
    let n = take_n_len(raw.len(), NAV_MAX_ITEMS as int);
    lemma_fold_ok(raw, n, true);
    lemma_ensure_builtins(norm_fold(raw, n, true), true);
}


proof fn lemma_has_builtin_push(acc: Seq<NavItemModel>, x: NavItemModel, k: Seq<char>)
    ensures
        has_builtin_key(acc.push(x), k) == (has_builtin_key(acc, k) || (x.kind == "builtin"@
            && x.key == k)),
{
    let r = acc.push(x);
    if has_builtin_key(acc, k) {
        let j = choose|j: int| 0 <= j < acc.len() && acc[j].kind == "builtin"@ && acc[j].key == k;
        assert(r[j] == acc[j]);
    }
    if x.kind == "builtin"@ && x.key == k {
        assert(r[acc.len() as int] == x);
    }
    if has_builtin_key(r, k) {
        let j = choose|j: int| 0 <= j < r.len() && r[j].kind == "builtin"@ && r[j].key == k;
        if j < acc.len() {
            assert(r[j] == acc[j]);
        }
    }
}

proof fn lemma_folds_compare(raw: Seq<NavItemModel>, n: int)
    requires
        0 <= n <= raw.len(),
    ensures
        norm_fold(raw, n, true).len() >= norm_fold(raw, n, false).len(),
        forall|k: Seq<char>|
            #[trigger] has_builtin_key(norm_fold(raw, n, true), k) == has_builtin_key(
                norm_fold(raw, n, false),
                k,
            ),
    decreases n,
{
    reveal_strlit("builtin");
    reveal_strlit("page");
    reveal_strlit("custom");
    assert("builtin"@.len() != "page"@.len() && "builtin"@.len() != "custom"@.len());
    if n > 0 {
        lemma_folds_compare(raw, n - 1);
        let at = norm_fold(raw, n - 1, true);
        let af = norm_fold(raw, n - 1, false);
        let item = raw[n - 1];
        let st = edit_one(item, at);
        let sf = norm_one(item, af);
        if item.kind == "builtin"@ {
            let key = lower_seq(trim(item.key));
            assert(has_builtin_key(at, key) == has_builtin_key(af, key));
            assert(st == sf);
        }
        assert forall|k: Seq<char>|
            #[trigger] has_builtin_key(norm_fold(raw, n, true), k) == has_builtin_key(
                norm_fold(raw, n, false),
                k,
            ) by {
            if st is Some {
                lemma_has_builtin_push(at, st->0, k);
            }
            if sf is Some {
                lemma_has_builtin_push(af, sf->0, k);
            }
        }
    }
}

proof fn lemma_missing_same(a: Seq<NavItemModel>, b: Seq<NavItemModel>, i: int)
    requires
        forall|k: Seq<char>| #[trigger] has_builtin_key(a, k) == has_builtin_key(b, k),
    ensures
        missing_upto(a, i) == missing_upto(b, i),
    decreases i,
{
    if i > 0 {
        lemma_missing_same(a, b, i - 1);
        assert(has_builtin_key(a, builtin_key(i - 1)) == has_builtin_key(b, builtin_key(i - 1)));
    }
}

/// The editor is shown at least as many items as the cleaned navigation
/// keeps: it takes the same built-in routes, and keeps every page and
/// custom link that cleaning would drop.
pub proof fn law_editor_keeps_more(raw: Seq<NavItemModel>)
    ensures
        for_editor_spec(raw).len() >= normalize_list_spec(raw).len(),
{
    let n = take_n_len(raw.len(), NAV_MAX_ITEMS as int);
    lemma_folds_compare(raw, n);
    let ft = norm_fold(raw, n, true);
    let ff = norm_fold(raw, n, false);
    lemma_missing_same(ft, ff, BUILTIN_COUNT as int);
    lemma_missing_upto(ft, BUILTIN_COUNT as int);
    let missing = missing_upto(ft, BUILTIN_COUNT as int);
    if missing.len() == 0 && ff.len() == 0 {
        assert(has_builtin_key(ff, builtin_key(0)) == has_builtin_key(ft, builtin_key(0)));
        if ft.len() == 0 {
            assert(!has_builtin_key(ft, builtin_key(0)));
            assert(has_builtin_key(missing, builtin_key(0)));
        }
        assert(has_builtin_key(ft, builtin_key(0)));
        assert(has_builtin_key(ft, builtin_key(1)));
        assert(has_builtin_key(ft, builtin_key(2)));
        assert(has_builtin_key(ft, builtin_key(3)));
        lemma_fold_ok(raw, n, true);
        lemma_builtin_keys_distinct();
        let j0 = choose|j: int| 0 <= j < ft.len() && ft[j].kind == "builtin"@ && ft[j].key == builtin_key(0);
        let j1 = choose|j: int| 0 <= j < ft.len() && ft[j].kind == "builtin"@ && ft[j].key == builtin_key(1);
        let j2 = choose|j: int| 0 <= j < ft.len() && ft[j].kind == "builtin"@ && ft[j].key == builtin_key(2);
        let j3 = choose|j: int| 0 <= j < ft.len() && ft[j].kind == "builtin"@ && ft[j].key == builtin_key(3);
        assert(j0 != j1 && j0 != j2 && j0 != j3 && j1 != j2 && j1 != j3 && j2 != j3);
        assert(ft.len() >= 4);
    }
}


/// How many pages and custom links a list holds.
pub open spec fn links_count(s: Seq<NavItemModel>) -> nat
    decreases s.len(),
{
    if s.len() == 0 {
        0
    } else {
        links_count(s.drop_last()) + if s.last().kind == "page"@ || s.last().kind == "custom"@ {
            1nat
        } else {
            0nat
        }
    }
}

proof fn lemma_links_count_concat(a: Seq<NavItemModel>, b: Seq<NavItemModel>)
    ensures
        links_count(a + b) == links_count(a) + links_count(b),
    decreases b.len(),
{
    if b.len() == 0 {
        assert(a + b =~= a);
    } else {
        lemma_links_count_concat(a, b.drop_last());
        assert((a + b).drop_last() =~= a + b.drop_last());
        assert((a + b).last() == b.last());
    }
}

proof fn lemma_links_count_builtins(s: Seq<NavItemModel>)
    requires
        forall|j: int| 0 <= j < s.len() ==> (#[trigger] s[j]).kind == "builtin"@,
    ensures
        links_count(s) == 0,
    decreases s.len(),
{
    reveal_strlit("builtin");
    reveal_strlit("page");
    reveal_strlit("custom");
    assert("builtin"@.len() != "page"@.len() && "builtin"@.len() != "custom"@.len());
    if s.len() > 0 {
        assert forall|j: int| 0 <= j < s.drop_last().len() implies (#[trigger] s.drop_last()[j]).kind
            == "builtin"@ by {
            assert(s.drop_last()[j] == s[j]);
        }
        lemma_links_count_builtins(s.drop_last());
        assert(s.last() == s[s.len() - 1]);
    }
}

proof fn lemma_editor_fold_links(raw: Seq<NavItemModel>, n: int)
    requires
        0 <= n <= raw.len(),
    ensures
        links_count(norm_fold(raw, n, true)) == links_count(raw.take(n)),
    decreases n,
{
    reveal_strlit("builtin");
    reveal_strlit("page");
    reveal_strlit("custom");
    assert("builtin"@.len() != "page"@.len() && "builtin"@.len() != "custom"@.len());
    if n == 0 {
        assert(raw.take(0) =~= Seq::<NavItemModel>::empty());
    } else {
        lemma_editor_fold_links(raw, n - 1);
        assert(raw.take(n).drop_last() =~= raw.take(n - 1));
        assert(raw.take(n).last() == raw[n - 1]);
        let acc = norm_fold(raw, n - 1, true);
        let step = edit_one(raw[n - 1], acc);
        if step is Some {
            assert(acc.push(step->0).drop_last() =~= acc);
        }
    }
}

/// The editor keeps every page and custom link among the first sixteen
/// stored items, however incomplete: only built-in routes are added or
/// dropped.
pub proof fn law_editor_keeps_links(raw: Seq<NavItemModel>)
    ensures
        links_count(for_editor_spec(raw)) == links_count(
            raw.take(take_n_len(raw.len(), NAV_MAX_ITEMS as int)),
        ),
{
    reveal_strlit("builtin");
    let n = take_n_len(raw.len(), NAV_MAX_ITEMS as int);
    lemma_editor_fold_links(raw, n);
    let items = norm_fold(raw, n, true);
    lemma_missing_upto(items, BUILTIN_COUNT as int);
    let missing = missing_upto(items, BUILTIN_COUNT as int);
    lemma_links_count_builtins(missing);
    lemma_links_count_concat(missing, items);
    assert forall|j: int| 0 <= j < default_items().len() implies (#[trigger] default_items()[j]).kind
        == "builtin"@ by {
    }
    lemma_links_count_builtins(default_items());
}


/// What a stored item becomes given the items kept before it: as cleaning
/// makes it (`norm_one`), or as the editor does (`edit_one`).
pub open spec fn step_of(item: NavItemModel, acc: Seq<NavItemModel>, editing: bool) -> Option<NavItemModel> {
    if editing {
        edit_one(item, acc)
    } else {
        norm_one(item, acc)
    }
}

/// The positions among the first `n` stored items of those that are kept,
/// in order.
pub open spec fn norm_origins(raw: Seq<NavItemModel>, n: int, editing: bool) -> Seq<int>
    decreases n,
{
    if n <= 0 {
        Seq::empty()
    } else {
        match step_of(raw[n - 1], norm_fold(raw, n - 1, editing), editing) {
            Some(_) => norm_origins(raw, n - 1, editing).push(n - 1),
            None => norm_origins(raw, n - 1, editing),
        }
    }
}

/// The kept items, each at its place in `o`: in the stored order, each as
/// its step makes it from the items kept before it, and every other item
/// among the first `n` dropped.
pub open spec fn kept_in_order(raw: Seq<NavItemModel>, n: int, editing: bool, o: Seq<int>) -> bool {
    let kept = norm_fold(raw, n, editing);
    &&& o.len() == kept.len()
    &&& forall|j: int| 0 <= j < o.len() ==> 0 <= #[trigger] o[j] < n
    &&& forall|i: int, j: int| 0 <= i < j < o.len() ==> #[trigger] o[i] < #[trigger] o[j]
    &&& forall|j: int|
        0 <= j < o.len() ==> step_of(raw[o[j]], kept.take(j), editing) == Some(#[trigger] kept[j])
    &&& forall|i: int|
        0 <= i < n && !o.contains(i) ==> #[trigger] step_of(raw[i], norm_fold(raw, i, editing), editing)
            is None
}

proof fn lemma_origins(raw: Seq<NavItemModel>, n: int, editing: bool)
    requires
        0 <= n <= raw.len(),
    ensures
        kept_in_order(raw, n, editing, norm_origins(raw, n, editing)),
    decreases n,
{
    if n > 0 {
        lemma_origins(raw, n - 1, editing);
        let prev = norm_fold(raw, n - 1, editing);
        let po = norm_origins(raw, n - 1, editing);
        let o = norm_origins(raw, n, editing);
        let kept = norm_fold(raw, n, editing);
        let st = step_of(raw[n - 1], prev, editing);
        assert(kept == match st {
            Some(x) => prev.push(x),
            None => prev,
        });
        if st is Some {
            assert(o == po.push(n - 1));
            assert forall|j: int| 0 <= j < o.len() implies step_of(raw[o[j]], kept.take(j), editing)
                == Some(#[trigger] kept[j]) by {
                if j < po.len() {
                    assert(o[j] == po[j]);
                    assert(kept.take(j) =~= prev.take(j));
                    assert(kept[j] == prev[j]);
                } else {
                    assert(kept.take(j) =~= prev);
                }
            }
            assert forall|i: int| 0 <= i < n && !o.contains(i) implies #[trigger] step_of(
                raw[i],
                norm_fold(raw, i, editing),
                editing,
            ) is None by {
                if i == n - 1 {
                    assert(o[o.len() - 1] == n - 1);
                } else {
                    if po.contains(i) {
                        let j = choose|j: int| 0 <= j < po.len() && po[j] == i;
                        assert(o[j] == i);
                    }
                }
            }
            assert forall|i: int, j: int| 0 <= i < j < o.len() implies #[trigger] o[i] < #[trigger] o[j] by {
                if j < po.len() {
                    assert(o[i] == po[i] && o[j] == po[j]);
                } else {
                    assert(o[i] == po[i]);
                }
            }
            assert forall|j: int| 0 <= j < o.len() implies 0 <= #[trigger] o[j] < n by {
                if j < po.len() {
                    assert(o[j] == po[j]);
                }
            }
        } else {
            assert(o == po);
            assert forall|i: int| 0 <= i < n && !o.contains(i) implies #[trigger] step_of(
                raw[i],
                norm_fold(raw, i, editing),
                editing,
            ) is None by {
            }
        }
    }
}

proof fn lemma_ensure_is_concat(items: Seq<NavItemModel>)
    ensures
        ensure_builtins_spec(items) == missing_upto(items, BUILTIN_COUNT as int) + items,
{
    lemma_missing_upto(items, BUILTIN_COUNT as int);
    let missing = missing_upto(items, BUILTIN_COUNT as int);
    if missing.len() == 0 {
        assert(missing + items =~= items);
        if items.len() == 0 {
            assert(!has_builtin_key(items, builtin_key(0)));
            assert(has_builtin_key(missing, builtin_key(0)));
        }
    }
}

/// A cleaned navigation is the built-in routes its kept items lack, in the
/// routes' order (public, no label), then the kept items: those of the
/// first sixteen stored items that cleaning keeps, in their stored order,
/// each as `norm_one` makes it from those kept before it; the rest of the
/// sixteen are dropped. A kept custom link's URL is one `sanitize_nav_url`
/// keeps as it is.
pub proof fn law_normalized_order(raw: Seq<NavItemModel>)
    ensures
        ({
            let n = take_n_len(raw.len(), NAV_MAX_ITEMS as int);
            let kept = norm_fold(raw, n, false);
            &&& normalize_list_spec(raw) == missing_upto(kept, BUILTIN_COUNT as int) + kept
            &&& kept_in_order(raw, n, false, norm_origins(raw, n, false))
            &&& forall|j: int|
                0 <= j < kept.len() && (#[trigger] kept[j]).kind == "custom"@ ==> sanitize_nav_url_spec(
                    kept[j].url,
                ) == Some(kept[j].url)
        }),
{
    let n = take_n_len(raw.len(), NAV_MAX_ITEMS as int);
    let kept = norm_fold(raw, n, false);
    lemma_ensure_is_concat(kept);
    lemma_origins(raw, n, false);
    let o = norm_origins(raw, n, false);
    reveal_strlit("builtin");
    reveal_strlit("page");
    reveal_strlit("custom");
    assert("builtin"@.len() != "custom"@.len() && "page"@.len() != "custom"@.len());
    assert forall|j: int| 0 <= j < kept.len() && (#[trigger] kept[j]).kind == "custom"@ implies sanitize_nav_url_spec(
        kept[j].url,
    ) == Some(kept[j].url) by {
        let item = raw[o[j]];
        assert(norm_one(item, kept.take(j)) == Some(kept[j]));
        assert(item.kind == "custom"@);
        let u = kept[j].url;
        assert(sanitize_nav_url_spec(item.url) == Some(u));
        crate::text::lemma_trim_idempotent(item.url);
    }
}

/// The editor's navigation is the built-in routes its items lack, then the
/// items it keeps of the first sixteen, in their stored order, each as
/// `edit_one` makes it; every page and custom link among the sixteen is
/// kept.
pub proof fn law_editor_order(raw: Seq<NavItemModel>)
    ensures
        ({
            let n = take_n_len(raw.len(), NAV_MAX_ITEMS as int);
            let kept = norm_fold(raw, n, true);
            let o = norm_origins(raw, n, true);
            &&& for_editor_spec(raw) == missing_upto(kept, BUILTIN_COUNT as int) + kept
            &&& kept_in_order(raw, n, true, o)
            &&& forall|i: int|
                0 <= i < n && ((#[trigger] raw[i]).kind == "page"@ || raw[i].kind == "custom"@) ==> o.contains(i)
        }),
{
    let n = take_n_len(raw.len(), NAV_MAX_ITEMS as int);
    let kept = norm_fold(raw, n, true);
    lemma_ensure_is_concat(kept);
    lemma_origins(raw, n, true);
    let o = norm_origins(raw, n, true);
    reveal_strlit("builtin");
    reveal_strlit("page");
    reveal_strlit("custom");
    assert("builtin"@.len() != "custom"@.len() && "page"@.len() != "builtin"@.len());
    assert forall|i: int| 0 <= i < n && ((#[trigger] raw[i]).kind == "page"@ || raw[i].kind == "custom"@) implies o.contains(i) by {
        if !o.contains(i) {
            assert(step_of(raw[i], norm_fold(raw, i, true), true) is None);
        }
    }
}

} // verus!
