//! The HTML of a knowledge base's sidebar tree and of its catalog, with the
//! action menus editors get on each row.
use vstd::prelude::*;

use crate::kb_tree::{
    forest_height, forest_view, lemma_height_tree_item, node_height, tree_view, KbTreeModel,
};
use crate::models::kb::KbTreeNode;
use crate::text::{
    chars_of, int_dec, nat_dec, new_string, push_char, push_i64, push_str, push_usize, str_eq,
    string_of,
};
use crate::timefmt::{format_kb_time, kb_time_shown};

verus! {

// ---------------------------------------------------------------------------
// Escaping
// ---------------------------------------------------------------------------

pub open spec fn esc_char(c: char) -> Seq<char> {
    if c == '&' {
        "&amp;"@
    } else if c == '<' {
        "&lt;"@
    } else if c == '>' {
        "&gt;"@
    } else if c == '"' {
        "&quot;"@
    } else {
        seq![c]
    }
}

/// Text made safe for HTML content and attribute values.
pub open spec fn escape_html(s: Seq<char>) -> Seq<char>
    decreases s.len(),
{
    if s.len() == 0 {
        Seq::empty()
    } else {
        escape_html(s.drop_last()) + esc_char(s.last())
    }
}

pub fn html_escape(out: &mut String, s: &str)
    ensures
        final(out)@ == old(out)@ + escape_html(s@),
{
    let v = chars_of(s);
    let mut i: usize = 0;
    assert(v@.take(0) =~= Seq::<char>::empty());
    while i < v.len()
        invariant
            0 <= i <= v.len(),
            v@ == s@,
            out@ == old(out)@ + escape_html(v@.take(i as int)),
        decreases v.len() - i,
    {
        let c = v[i];
        assert(v@.take(i + 1).drop_last() =~= v@.take(i as int));
        if c == '&' {
            push_str(out, "&amp;");
        } else if c == '<' {
            push_str(out, "&lt;");
        } else if c == '>' {
            push_str(out, "&gt;");
        } else if c == '"' {
            push_str(out, "&quot;");
        } else {
            push_char(out, c);
            assert(out@ =~= old(out)@ + escape_html(v@.take(i as int)) + seq![c]);
        }
        i = i + 1;
    }
    assert(v@.take(v@.len() as int) =~= v@);
}

/// `html_escape` into a new string.
pub fn html_escape_owned(s: &str) -> (r: String)
    ensures
        r@ == escape_html(s@),
{
    let mut out = new_string();
    html_escape(&mut out, s);
    out
}

// ---------------------------------------------------------------------------
// Row actions
// ---------------------------------------------------------------------------

pub open spec fn is_doc_m(n: KbTreeModel) -> bool {
    n.node_type == "doc"@
}

pub open spec fn is_folder_m(n: KbTreeModel) -> bool {
    n.node_type == "folder"@
}

pub open spec fn type_word(n: KbTreeModel) -> Seq<char> {
    if is_folder_m(n) {
        "folder"@
    } else {
        "doc"@
    }
}

pub open spec fn actions_head(n: KbTreeModel) -> Seq<char> {
    "<span class=\"kb-row-actions\">"@ + "<span class=\"kb-action-wrap\">"@
        + "<button type=\"button\" class=\"kb-icon-btn\" data-kb-more aria-label=\"更多\">⋮</button>"@
        + "<div class=\"kb-menu\" hidden>"@ + "<button type=\"button\" data-kb-rename data-id=\""@
        + int_dec(n.id as int) + "\" data-title=\""@ + escape_html(n.title) + "\">重命名</button>"@
}

pub open spec fn actions_doc(n: KbTreeModel, book_slug: Seq<char>) -> Seq<char> {
    if is_doc_m(n) {
        "<a href=\"/docs/"@ + book_slug + "/"@ + n.slug
            + "\" target=\"_blank\" rel=\"noopener\">预览</a>"@
            + "<button type=\"button\" data-kb-copy=\"/docs/"@ + book_slug + "/"@ + n.slug
            + "\">复制链接</button>"@
            + "<button type=\"button\" data-export=\"doc\" data-export-id=\""@ + int_dec(
            n.id as int,
        ) + "\">导出</button>"@
    } else {
        ""@
    }
}

pub open spec fn actions_tail(n: KbTreeModel) -> Seq<char> {
    "<hr>"@ + "<button type=\"button\" class=\"is-danger\" data-kb-delete data-id=\""@ + int_dec(
        n.id as int,
    ) + "\" data-type=\""@ + type_word(n) + "\">删除</button>"@ + "</div></span>"@
        + "<span class=\"kb-action-wrap\">"@
        + "<button type=\"button\" class=\"kb-icon-btn\" data-kb-add title=\"新增\" aria-label=\"新增\">+</button>"@
        + "<div class=\"kb-menu\" hidden>"@
        + "<button type=\"button\" data-kb-create=\"folder\" data-parent=\""@ + int_dec(n.id as int)
        + "\">文件夹</button>"@ + "<button type=\"button\" data-kb-create=\"doc\" data-parent=\""@
        + int_dec(n.id as int) + "\">文档</button>"@ + "</div></span>"@
}

pub open spec fn actions_badges(n: KbTreeModel) -> Seq<char> {
    (if is_doc_m(n) && n.status == "draft"@ {
        "<span class=\"kb-badge\">草稿</span>"@
    } else {
        ""@
    }) + (if is_doc_m(n) && n.visibility == "private"@ {
        "<span class=\"kb-badge\">私密</span>"@
    } else {
        ""@
    })
}

/// The editor's menus on a row: rename, and for documents preview, copy
/// link and export; delete; new folder or document below; draft and private
/// badges for documents.
pub open spec fn admin_actions(n: KbTreeModel, book_slug: Seq<char>) -> Seq<char> {
    actions_head(n) + actions_doc(n, book_slug) + actions_tail(n) + actions_badges(n) + "</span>"@
}

fn actions_head_str(n: &KbTreeNode) -> (r: String)
    ensures
        r@ == actions_head(tree_view(*n)),
{
    let mut s = string_of("<span class=\"kb-row-actions\">");
    push_str(&mut s, "<span class=\"kb-action-wrap\">");
    push_str(
        &mut s,
        "<button type=\"button\" class=\"kb-icon-btn\" data-kb-more aria-label=\"更多\">⋮</button>",
    );
    push_str(&mut s, "<div class=\"kb-menu\" hidden>");
    push_str(&mut s, "<button type=\"button\" data-kb-rename data-id=\"");
    push_i64(&mut s, n.id);
    push_str(&mut s, "\" data-title=\"");
    html_escape(&mut s, n.title.as_str());
    push_str(&mut s, "\">重命名</button>");
    s
}

fn actions_doc_str(n: &KbTreeNode, book_slug: &str) -> (r: String)
    ensures
        r@ == actions_doc(tree_view(*n), book_slug@),
{
    if n.is_doc() {
        let mut s = string_of("<a href=\"/docs/");
        push_str(&mut s, book_slug);
        push_str(&mut s, "/");
        push_str(&mut s, n.slug.as_str());
        push_str(&mut s, "\" target=\"_blank\" rel=\"noopener\">预览</a>");
        push_str(&mut s, "<button type=\"button\" data-kb-copy=\"/docs/");
        push_str(&mut s, book_slug);
        push_str(&mut s, "/");
        push_str(&mut s, n.slug.as_str());
        push_str(&mut s, "\">复制链接</button>");
        push_str(&mut s, "<button type=\"button\" data-export=\"doc\" data-export-id=\"");
        push_i64(&mut s, n.id);
        push_str(&mut s, "\">导出</button>");
        s
    } else {
        string_of("")
    }
}

fn actions_tail_str(n: &KbTreeNode) -> (r: String)
    ensures
        r@ == actions_tail(tree_view(*n)),
{
    let mut s = string_of("<hr>");
    push_str(&mut s, "<button type=\"button\" class=\"is-danger\" data-kb-delete data-id=\"");
    push_i64(&mut s, n.id);
    push_str(&mut s, "\" data-type=\"");
    push_str(
        &mut s,
        if n.is_folder() {
            "folder"
        } else {
            "doc"
        },
    );
    push_str(&mut s, "\">删除</button>");
    push_str(&mut s, "</div></span>");
    push_str(&mut s, "<span class=\"kb-action-wrap\">");
    push_str(
        &mut s,
        "<button type=\"button\" class=\"kb-icon-btn\" data-kb-add title=\"新增\" aria-label=\"新增\">+</button>",
    );
    push_str(&mut s, "<div class=\"kb-menu\" hidden>");
    push_str(&mut s, "<button type=\"button\" data-kb-create=\"folder\" data-parent=\"");
    push_i64(&mut s, n.id);
    push_str(&mut s, "\">文件夹</button>");
    push_str(&mut s, "<button type=\"button\" data-kb-create=\"doc\" data-parent=\"");
    push_i64(&mut s, n.id);
    push_str(&mut s, "\">文档</button>");
    push_str(&mut s, "</div></span>");
    s
}

fn actions_badges_str(n: &KbTreeNode) -> (r: String)
    ensures
        r@ == actions_badges(tree_view(*n)),
{
    let mut s = if n.is_doc() && n.is_draft() {
        string_of("<span class=\"kb-badge\">草稿</span>")
    } else {
        string_of("")
    };
    if n.is_doc() && n.is_private() {
        push_str(&mut s, "<span class=\"kb-badge\">私密</span>");
    } else {
        push_str(&mut s, "");
    }
    s
}

pub fn push_admin_actions(out: &mut String, n: &KbTreeNode, book_slug: &str)
    ensures
        final(out)@ == old(out)@ + admin_actions(tree_view(*n), book_slug@),
{
    let mut s = actions_head_str(n);
    push_str(&mut s, actions_doc_str(n, book_slug).as_str());
    push_str(&mut s, actions_tail_str(n).as_str());
    push_str(&mut s, actions_badges_str(n).as_str());
    push_str(&mut s, "</span>");
    push_str(out, s.as_str());
}

// ---------------------------------------------------------------------------
// The sidebar tree
// ---------------------------------------------------------------------------

pub open spec fn tree_href(n: KbTreeModel, book_id: i64, book_slug: Seq<char>, admin: bool) -> Seq<
    char,
> {
    if admin {
        "/admin/docs/"@ + int_dec(book_id as int) + "?id="@ + int_dec(n.id as int)
    } else if is_doc_m(n) {
        "/docs/"@ + book_slug + "/"@ + n.slug
    } else {
        Seq::empty()
    }
}

pub open spec fn tree_list(
    f: Seq<KbTreeModel>,
    active: Option<i64>,
    book_id: i64,
    book_slug: Seq<char>,
    admin: bool,
    parent: Option<i64>,
    depth: nat,
) -> Seq<char>
    decreases f, 1int,
{
    if f.len() == 0 {
        Seq::empty()
    } else {
        "<ul class=\"kb-tree-list\">"@ + tree_items(f, active, book_id, book_slug, admin, parent, depth)
            + "</ul>"@
    }
}

pub open spec fn tree_items(
    f: Seq<KbTreeModel>,
    active: Option<i64>,
    book_id: i64,
    book_slug: Seq<char>,
    admin: bool,
    parent: Option<i64>,
    depth: nat,
) -> Seq<char>
    decreases f, 0int,
{
    if f.len() == 0 {
        Seq::empty()
    } else {
        tree_items(f.drop_last(), active, book_id, book_slug, admin, parent, depth) + tree_item(
            f.last(),
            active,
            book_id,
            book_slug,
            admin,
            parent,
            depth,
        )
    }
}

pub open spec fn item_open(
    n: KbTreeModel,
    active: Option<i64>,
    admin: bool,
    parent: Option<i64>,
    depth: nat,
) -> Seq<char> {
    let branch = is_folder_m(n) || n.children.len() > 0;
    "<li class=\"kb-tree-item"@ + (if is_folder_m(n) {
        " is-folder"@
    } else {
        " is-doc"@
    }) + (if branch {
        " has-children"@
    } else {
        ""@
    }) + (if active == Some(n.id) {
        " is-active"@
    } else {
        ""@
    }) + "\" style=\"--kb-depth:"@ + nat_dec(depth) + "\" data-id=\""@ + int_dec(n.id as int)
        + "\" data-type=\""@ + type_word(n) + "\" data-parent-id=\""@ + (match parent {
        Some(p) => int_dec(p as int),
        None => ""@,
    }) + "\""@ + (if admin {
        " draggable=\"true\""@
    } else {
        ""@
    }) + ">"@
}

pub open spec fn item_link(n: KbTreeModel, href: Seq<char>) -> Seq<char> {
    if href.len() == 0 {
        "<span class=\"kb-tree-link kb-tree-folder-label\">"@ + escape_html(n.title) + "</span>"@
    } else {
        "<a class=\"kb-tree-link\" href=\""@ + href + "\">"@ + escape_html(n.title) + "</a>"@
    }
}

pub open spec fn item_actions(n: KbTreeModel, book_slug: Seq<char>, admin: bool) -> Seq<char> {
    if admin {
        admin_actions(n, book_slug)
    } else {
        ""@
    }
}

/// One row of the tree: a folder or a document with children opens as a
/// branch; editors' rows carry menus and link to the editor, readers' rows
/// link documents to their pages.
pub open spec fn tree_item(
    n: KbTreeModel,
    active: Option<i64>,
    book_id: i64,
    book_slug: Seq<char>,
    admin: bool,
    parent: Option<i64>,
    depth: nat,
) -> Seq<char>
    decreases n, 2int,
{
    let branch = is_folder_m(n) || n.children.len() > 0;
    let href = tree_href(n, book_id, book_slug, admin);
    let body = if branch {
        "<details class=\"kb-branch\">"@ + "<summary class=\"kb-row\">"@
            + "<span class=\"kb-chevron\" aria-hidden=\"true\"></span>"@ + item_link(n, href)
            + item_actions(n, book_slug, admin) + "</summary>"@ + tree_list(
            n.children,
            active,
            book_id,
            book_slug,
            admin,
            Some(n.id),
            depth + 1,
        ) + "</details>"@
    } else {
        "<div class=\"kb-row\">"@
            + "<span class=\"kb-chevron kb-chevron-leaf\" aria-hidden=\"true\"></span>"@
            + "<a class=\"kb-tree-link\" href=\""@ + href + "\">"@ + escape_html(n.title) + "</a>"@
            + item_actions(n, book_slug, admin) + "</div>"@
    };
    item_open(n, active, admin, parent, depth) + body + "</li>"@
}

fn item_open_str(n: &KbTreeNode, active: Option<i64>, admin: bool, parent: Option<i64>, depth: usize) -> (r:
    String)
    ensures
        r@ == item_open(tree_view(*n), active, admin, parent, depth as nat),
{
    proof {
        crate::kb_tree::lemma_forest_view_len(n.children@);
    }
    let branch = n.is_folder() || n.has_children();
    let mut s = string_of("<li class=\"kb-tree-item");
    push_str(
        &mut s,
        if n.is_folder() {
            " is-folder"
        } else {
            " is-doc"
        },
    );
    push_str(
        &mut s,
        if branch {
            " has-children"
        } else {
            ""
        },
    );
    push_str(
        &mut s,
        if active == Some(n.id) {
            " is-active"
        } else {
            ""
        },
    );
    push_str(&mut s, "\" style=\"--kb-depth:");
    push_usize(&mut s, depth);
    push_str(&mut s, "\" data-id=\"");
    push_i64(&mut s, n.id);
    push_str(&mut s, "\" data-type=\"");
    push_str(
        &mut s,
        if n.is_folder() {
            "folder"
        } else {
            "doc"
        },
    );
    push_str(&mut s, "\" data-parent-id=\"");
    match parent {
        Some(pid) => push_i64(&mut s, pid),
        None => push_str(&mut s, ""),
    }
    push_str(&mut s, "\"");
    push_str(
        &mut s,
        if admin {
            " draggable=\"true\""
        } else {
            ""
        },
    );
    push_str(&mut s, ">");
    s
}

fn item_link_str(n: &KbTreeNode, href: &str) -> (r: String)
    ensures
        r@ == item_link(tree_view(*n), href@),
{
    if chars_of(href).len() == 0 {
        let mut s = string_of("<span class=\"kb-tree-link kb-tree-folder-label\">");
        html_escape(&mut s, n.title.as_str());
        push_str(&mut s, "</span>");
        s
    } else {
        let mut s = string_of("<a class=\"kb-tree-link\" href=\"");
        push_str(&mut s, href);
        push_str(&mut s, "\">");
        html_escape(&mut s, n.title.as_str());
        push_str(&mut s, "</a>");
        s
    }
}

fn item_actions_str(n: &KbTreeNode, book_slug: &str, admin: bool) -> (r: String)
    ensures
        r@ == item_actions(tree_view(*n), book_slug@, admin),
{
    let mut s = new_string();
    if admin {
        push_admin_actions(&mut s, n, book_slug);
        assert(s@ =~= admin_actions(tree_view(*n), book_slug@));
        s
    } else {
        string_of("")
    }
}

fn push_tree_href(out: &mut String, n: &KbTreeNode, book_id: i64, book_slug: &str, admin: bool)
    ensures
        final(out)@ == old(out)@ + tree_href(tree_view(*n), book_id, book_slug@, admin),
{
    if admin {
        push_str(out, "/admin/docs/");
        push_i64(out, book_id);
        push_str(out, "?id=");
        push_i64(out, n.id);
    } else if n.is_doc() {
        push_str(out, "/docs/");
        push_str(out, book_slug);
        push_str(out, "/");
        push_str(out, n.slug.as_str());
    } else {
        assert(old(out)@ + Seq::<char>::empty() =~= old(out)@);
    }
}

fn walk_tree_list(
    out: &mut String,
    nodes: &Vec<KbTreeNode>,
    active: Option<i64>,
    book_id: i64,
    book_slug: &str,
    admin: bool,
    parent: Option<i64>,
    depth: usize,
)
    requires
        depth + forest_height(forest_view(nodes@)) <= usize::MAX,
    ensures
        final(out)@ == old(out)@ + tree_list(
            forest_view(nodes@),
            active,
            book_id,
            book_slug@,
            admin,
            parent,
            depth as nat,
        ),
    decreases nodes@, 1int,
{
    proof {
        crate::kb_tree::lemma_forest_view_len(nodes@);
    }
    if nodes.len() == 0 {
        assert(old(out)@ + Seq::<char>::empty() =~= old(out)@);
        return ;
    }
    let mut s = string_of("<ul class=\"kb-tree-list\">");
    walk_tree_items(&mut s, nodes, active, book_id, book_slug, admin, parent, depth);
    push_str(&mut s, "</ul>");
    push_str(out, s.as_str());
}

fn walk_tree_items(
    out: &mut String,
    nodes: &Vec<KbTreeNode>,
    active: Option<i64>,
    book_id: i64,
    book_slug: &str,
    admin: bool,
    parent: Option<i64>,
    depth: usize,
)
    requires
        depth + forest_height(forest_view(nodes@)) <= usize::MAX,
    ensures
        final(out)@ == old(out)@ + tree_items(
            forest_view(nodes@),
            active,
            book_id,
            book_slug@,
            admin,
            parent,
            depth as nat,
        ),
    decreases nodes@, 0int,
{
    let mut i: usize = 0;
    assert(nodes@.take(0) =~= Seq::<KbTreeNode>::empty());
    assert(old(out)@ + Seq::<char>::empty() =~= old(out)@);
    while i < nodes.len()
        invariant
            0 <= i <= nodes.len(),
            depth + forest_height(forest_view(nodes@)) <= usize::MAX,
            out@ == old(out)@ + tree_items(
                forest_view(nodes@.take(i as int)),
                active,
                book_id,
                book_slug@,
                admin,
                parent,
                depth as nat,
            ),
        decreases nodes.len() - i,
    {
        proof {
            assert(nodes@.take(i + 1) =~= nodes@.take(i as int).push(nodes@[i as int]));
            crate::kb_tree::lemma_forest_view_push(nodes@.take(i as int), nodes@[i as int]);
            let fv = forest_view(nodes@.take(i as int)).push(tree_view(nodes@[i as int]));
            assert(fv.drop_last() =~= forest_view(nodes@.take(i as int)));
        }
        proof {
            lemma_height_tree_item(nodes@, i as int);
        }
        let ghost before = out@;
        walk_tree_item(out, &nodes[i], active, book_id, book_slug, admin, parent, depth);
        assert(out@ =~= old(out)@ + tree_items(
            forest_view(nodes@.take(i + 1)),
            active,
            book_id,
            book_slug@,
            admin,
            parent,
            depth as nat,
        ));
        i = i + 1;
    }
    assert(nodes@.take(nodes@.len() as int) =~= nodes@);
}

fn walk_tree_item(
    out: &mut String,
    n: &KbTreeNode,
    active: Option<i64>,
    book_id: i64,
    book_slug: &str,
    admin: bool,
    parent: Option<i64>,
    depth: usize,
)
    requires
        depth + node_height(tree_view(*n)) <= usize::MAX,
    ensures
        final(out)@ == old(out)@ + tree_item(
            tree_view(*n),
            active,
            book_id,
            book_slug@,
            admin,
            parent,
            depth as nat,
        ),
    decreases *n, 2int,
{
    proof {
        crate::kb_tree::lemma_forest_view_len(n.children@);
    }
    let branch = n.is_folder() || n.has_children();
    let mut href = new_string();
    push_tree_href(&mut href, n, book_id, book_slug, admin);
    assert(href@ =~= tree_href(tree_view(*n), book_id, book_slug@, admin));
    let mut s = item_open_str(n, active, admin, parent, depth);
    if branch {
        let mut body = string_of("<details class=\"kb-branch\">");
        push_str(&mut body, "<summary class=\"kb-row\">");
        push_str(&mut body, "<span class=\"kb-chevron\" aria-hidden=\"true\"></span>");
        push_str(&mut body, item_link_str(n, href.as_str()).as_str());
        push_str(&mut body, item_actions_str(n, book_slug, admin).as_str());
        push_str(&mut body, "</summary>");
        walk_tree_list(
            &mut body,
            &n.children,
            active,
            book_id,
            book_slug,
            admin,
            Some(n.id),
            depth + 1,
        );
        push_str(&mut body, "</details>");
        push_str(&mut s, body.as_str());
    } else {
        let mut body = string_of("<div class=\"kb-row\">");
        push_str(&mut body, "<span class=\"kb-chevron kb-chevron-leaf\" aria-hidden=\"true\"></span>");
        push_str(&mut body, "<a class=\"kb-tree-link\" href=\"");
        push_str(&mut body, href.as_str());
        push_str(&mut body, "\">");
        html_escape(&mut body, n.title.as_str());
        push_str(&mut body, "</a>");
        push_str(&mut body, item_actions_str(n, book_slug, admin).as_str());
        push_str(&mut body, "</div>");
        push_str(&mut s, body.as_str());
    }
    push_str(&mut s, "</li>");
    push_str(out, s.as_str());
}

/// The sidebar tree of a book: `tree_list` at depth 0 with no parent.
pub fn tree_html(
    nodes: &Vec<KbTreeNode>,
    active_id: Option<i64>,
    book_id: i64,
    book_slug: &str,
    admin: bool,
) -> (r: String)
    requires
        forest_height(forest_view(nodes@)) <= usize::MAX,
    ensures
        r@ == tree_list(forest_view(nodes@), active_id, book_id, book_slug@, admin, None, 0),
{
    let mut out = new_string();
    walk_tree_list(&mut out, nodes, active_id, book_id, book_slug, admin, None, 0);
    out
}


// ---------------------------------------------------------------------------
// The catalog
// ---------------------------------------------------------------------------

/// A table from stored timestamps to the labels shown for them.
pub open spec fn label_table(t: Seq<(String, String)>) -> Seq<(Seq<char>, Seq<char>)> {
    t.map_values(|e: (String, String)| (e.0@, e.1@))
}

/// The label of the first entry of `t` for `k`; empty where there is none.
pub open spec fn lookup_label(t: Seq<(Seq<char>, Seq<char>)>, k: Seq<char>) -> Seq<char>
    decreases t.len(),
{
    if t.len() == 0 {
        Seq::empty()
    } else if t[0].0 == k {
        t[0].1
    } else {
        lookup_label(t.skip(1), k)
    }
}

fn find_label(t: &Vec<(String, String)>, k: &str) -> (r: String)
    ensures
        r@ == lookup_label(label_table(t@), k@),
{
    let ghost tv = label_table(t@);
    let mut i: usize = 0;
    assert(tv.skip(0) =~= tv);
    while i < t.len()
        invariant
            0 <= i <= t.len(),
            tv == label_table(t@),
            tv.len() == t.len(),
            lookup_label(tv, k@) == lookup_label(tv.skip(i as int), k@),
        decreases t.len() - i,
    {
        assert(tv.skip(i as int)[0] == tv[i as int]);
        assert(tv.skip(i as int).skip(1) =~= tv.skip(i + 1));
        if str_eq(t[i].0.as_str(), k) {
            return string_of(t[i].1.as_str());
        }
        i = i + 1;
    }
    new_string()
}

/// Where a catalog row links: editors to the editor, readers to the
/// document's page; folders, and documents without a slug, nowhere.
pub open spec fn catalog_href(n: KbTreeModel, book_slug: Seq<char>, admin_book_id: Option<i64>) -> Option<
    Seq<char>,
> {
    if is_doc_m(n) && n.slug.len() > 0 {
        match admin_book_id {
            Some(bid) => Some("/admin/docs/"@ + int_dec(bid as int) + "?id="@ + int_dec(n.id as int)),
            None => Some("/docs/"@ + book_slug + "/"@ + n.slug),
        }
    } else {
        None
    }
}

pub open spec fn catalog_body_inner(n: KbTreeModel, t: Seq<(Seq<char>, Seq<char>)>) -> Seq<char> {
    "<span class=\"docs-catalog-title\">"@ + escape_html(n.title) + "</span>"@
        + "<span class=\"docs-catalog-leader\" aria-hidden=\"true\"></span>"@
        + "<time class=\"docs-catalog-time\" datetime=\""@ + escape_html(n.updated_at) + "\">"@
        + escape_html(lookup_label(t, n.updated_at)) + "</time>"@
}

pub open spec fn catalog_toggle(branch: bool) -> Seq<char> {
    if branch {
        "<button type=\"button\" class=\"docs-catalog-toggle\" aria-label=\"展开或折叠\" aria-expanded=\""@
            + "false"@ + "\"><span class=\"docs-catalog-chevron\" aria-hidden=\"true\"></span></button>"@
    } else {
        "<span class=\"docs-catalog-toggle docs-catalog-toggle-leaf\" aria-hidden=\"true\"></span>"@
    }
}

/// A catalog row: the toggle, then the title, a leader and the time of the
/// last change, as a link where the row has one.
pub open spec fn catalog_row(
    n: KbTreeModel,
    book_slug: Seq<char>,
    admin_book_id: Option<i64>,
    t: Seq<(Seq<char>, Seq<char>)>,
) -> Seq<char> {
    let branch = n.children.len() > 0;
    let body = match catalog_href(n, book_slug, admin_book_id) {
        Some(h) => "<a class=\"docs-catalog-body\" href=\""@ + h + "\">"@ + catalog_body_inner(n, t)
            + "</a>"@,
        None => "<div class=\"docs-catalog-body is-folder\">"@ + catalog_body_inner(n, t) + "</div>"@,
    };
    "<div class=\"docs-catalog-row\">"@ + catalog_toggle(branch) + body + "</div>"@
}

pub open spec fn catalog_list(
    f: Seq<KbTreeModel>,
    book_slug: Seq<char>,
    admin_book_id: Option<i64>,
    depth: nat,
    t: Seq<(Seq<char>, Seq<char>)>,
) -> Seq<char>
    decreases f, 1int,
{
    if f.len() == 0 {
        Seq::empty()
    } else {
        "<ul class=\"docs-catalog-list\">"@ + catalog_items(f, book_slug, admin_book_id, depth, t)
            + "</ul>"@
    }
}

pub open spec fn catalog_items(
    f: Seq<KbTreeModel>,
    book_slug: Seq<char>,
    admin_book_id: Option<i64>,
    depth: nat,
    t: Seq<(Seq<char>, Seq<char>)>,
) -> Seq<char>
    decreases f, 0int,
{
    if f.len() == 0 {
        Seq::empty()
    } else {
        catalog_items(f.drop_last(), book_slug, admin_book_id, depth, t) + catalog_item(
            f.last(),
            book_slug,
            admin_book_id,
            depth,
            t,
        )
    }
}

/// One entry of the catalog; a node with children is a branch and lists
/// them one level deeper.
pub open spec fn catalog_item(
    n: KbTreeModel,
    book_slug: Seq<char>,
    admin_book_id: Option<i64>,
    depth: nat,
    t: Seq<(Seq<char>, Seq<char>)>,
) -> Seq<char>
    decreases n, 2int,
{
    let branch = n.children.len() > 0;
    "<li class=\"docs-catalog-item"@ + (if is_folder_m(n) {
        " is-folder"@
    } else {
        " is-doc"@
    }) + (if branch {
        " has-children"@
    } else {
        ""@
    }) + "\" style=\"--kb-depth:"@ + nat_dec(depth) + "\">"@ + catalog_row(
        n,
        book_slug,
        admin_book_id,
        t,
    ) + (if branch {
        catalog_list(n.children, book_slug, admin_book_id, depth + 1, t)
    } else {
        ""@
    }) + "</li>"@
}

fn catalog_href_str(n: &KbTreeNode, book_slug: &str, admin_book_id: Option<i64>) -> (r: Option<
    String,
>)
    ensures
        match r {
            Some(h) => catalog_href(tree_view(*n), book_slug@, admin_book_id) == Some(h@),
            None => catalog_href(tree_view(*n), book_slug@, admin_book_id) is None,
        },
{
    if n.is_doc() && chars_of(n.slug.as_str()).len() > 0 {
        match admin_book_id {
            Some(bid) => {
                let mut h = string_of("/admin/docs/");
                push_i64(&mut h, bid);
                push_str(&mut h, "?id=");
                push_i64(&mut h, n.id);
                Some(h)
            },
            None => {
                let mut h = string_of("/docs/");
                push_str(&mut h, book_slug);
                push_str(&mut h, "/");
                push_str(&mut h, n.slug.as_str());
                Some(h)
            },
        }
    } else {
        None
    }
}

fn catalog_body_inner_str(n: &KbTreeNode, t: &Vec<(String, String)>) -> (r: String)
    ensures
        r@ == catalog_body_inner(tree_view(*n), label_table(t@)),
{
    let mut s = string_of("<span class=\"docs-catalog-title\">");
    html_escape(&mut s, n.title.as_str());
    push_str(&mut s, "</span>");
    push_str(&mut s, "<span class=\"docs-catalog-leader\" aria-hidden=\"true\"></span>");
    push_str(&mut s, "<time class=\"docs-catalog-time\" datetime=\"");
    html_escape(&mut s, n.updated_at.as_str());
    push_str(&mut s, "\">");
    let label = find_label(t, n.updated_at.as_str());
    html_escape(&mut s, label.as_str());
    push_str(&mut s, "</time>");
    s
}

fn catalog_row_str(
    n: &KbTreeNode,
    book_slug: &str,
    admin_book_id: Option<i64>,
    t: &Vec<(String, String)>,
) -> (r: String)
    ensures
        r@ == catalog_row(tree_view(*n), book_slug@, admin_book_id, label_table(t@)),
{
    proof {
        crate::kb_tree::lemma_forest_view_len(n.children@);
    }
    let branch = n.has_children();
    let mut s = string_of("<div class=\"docs-catalog-row\">");
    if branch {
        let mut tg = string_of(
            "<button type=\"button\" class=\"docs-catalog-toggle\" aria-label=\"展开或折叠\" aria-expanded=\"",
        );
        push_str(&mut tg, "false");
        push_str(&mut tg, "\"><span class=\"docs-catalog-chevron\" aria-hidden=\"true\"></span></button>");
        push_str(&mut s, tg.as_str());
    } else {
        push_str(
            &mut s,
            "<span class=\"docs-catalog-toggle docs-catalog-toggle-leaf\" aria-hidden=\"true\"></span>",
        );
    }
    let inner = catalog_body_inner_str(n, t);
    match catalog_href_str(n, book_slug, admin_book_id) {
        Some(h) => {
            let mut b = string_of("<a class=\"docs-catalog-body\" href=\"");
            push_str(&mut b, h.as_str());
            push_str(&mut b, "\">");
            push_str(&mut b, inner.as_str());
            push_str(&mut b, "</a>");
            push_str(&mut s, b.as_str());
        },
        None => {
            let mut b = string_of("<div class=\"docs-catalog-body is-folder\">");
            push_str(&mut b, inner.as_str());
            push_str(&mut b, "</div>");
            push_str(&mut s, b.as_str());
        },
    }
    push_str(&mut s, "</div>");
    s
}

fn walk_catalog_list(
    out: &mut String,
    nodes: &Vec<KbTreeNode>,
    book_slug: &str,
    admin_book_id: Option<i64>,
    depth: usize,
    t: &Vec<(String, String)>,
)
    requires
        depth + forest_height(forest_view(nodes@)) <= usize::MAX,
    ensures
        final(out)@ == old(out)@ + catalog_list(
            forest_view(nodes@),
            book_slug@,
            admin_book_id,
            depth as nat,
            label_table(t@),
        ),
    decreases nodes@, 1int,
{
    proof {
        crate::kb_tree::lemma_forest_view_len(nodes@);
    }
    if nodes.len() == 0 {
        assert(old(out)@ + Seq::<char>::empty() =~= old(out)@);
        return ;
    }
    let mut s = string_of("<ul class=\"docs-catalog-list\">");
    walk_catalog_items(&mut s, nodes, book_slug, admin_book_id, depth, t);
    push_str(&mut s, "</ul>");
    push_str(out, s.as_str());
}

fn walk_catalog_items(
    out: &mut String,
    nodes: &Vec<KbTreeNode>,
    book_slug: &str,
    admin_book_id: Option<i64>,
    depth: usize,
    t: &Vec<(String, String)>,
)
    requires
        depth + forest_height(forest_view(nodes@)) <= usize::MAX,
    ensures
        final(out)@ == old(out)@ + catalog_items(
            forest_view(nodes@),
            book_slug@,
            admin_book_id,
            depth as nat,
            label_table(t@),
        ),
    decreases nodes@, 0int,
{
    let mut i: usize = 0;
    assert(nodes@.take(0) =~= Seq::<KbTreeNode>::empty());
    assert(old(out)@ + Seq::<char>::empty() =~= old(out)@);
    while i < nodes.len()
        invariant
            0 <= i <= nodes.len(),
            depth + forest_height(forest_view(nodes@)) <= usize::MAX,
            out@ == old(out)@ + catalog_items(
                forest_view(nodes@.take(i as int)),
                book_slug@,
                admin_book_id,
                depth as nat,
                label_table(t@),
            ),
        decreases nodes.len() - i,
    {
        proof {
            assert(nodes@.take(i + 1) =~= nodes@.take(i as int).push(nodes@[i as int]));
            crate::kb_tree::lemma_forest_view_push(nodes@.take(i as int), nodes@[i as int]);
            let fv = forest_view(nodes@.take(i as int)).push(tree_view(nodes@[i as int]));
            assert(fv.drop_last() =~= forest_view(nodes@.take(i as int)));
            lemma_height_tree_item(nodes@, i as int);
        }
        walk_catalog_item(out, &nodes[i], book_slug, admin_book_id, depth, t);
        assert(out@ =~= old(out)@ + catalog_items(
            forest_view(nodes@.take(i + 1)),
            book_slug@,
            admin_book_id,
            depth as nat,
            label_table(t@),
        ));
        i = i + 1;
    }
    assert(nodes@.take(nodes@.len() as int) =~= nodes@);
}

fn walk_catalog_item(
    out: &mut String,
    n: &KbTreeNode,
    book_slug: &str,
    admin_book_id: Option<i64>,
    depth: usize,
    t: &Vec<(String, String)>,
)
    requires
        depth + node_height(tree_view(*n)) <= usize::MAX,
    ensures
        final(out)@ == old(out)@ + catalog_item(
            tree_view(*n),
            book_slug@,
            admin_book_id,
            depth as nat,
            label_table(t@),
        ),
    decreases *n, 2int,
{
    proof {
        crate::kb_tree::lemma_forest_view_len(n.children@);
    }
    let branch = n.has_children();
    let mut s = string_of("<li class=\"docs-catalog-item");
    push_str(
        &mut s,
        if n.is_folder() {
            " is-folder"
        } else {
            " is-doc"
        },
    );
    push_str(
        &mut s,
        if branch {
            " has-children"
        } else {
            ""
        },
    );
    push_str(&mut s, "\" style=\"--kb-depth:");
    push_usize(&mut s, depth);
    push_str(&mut s, "\">");
    push_str(&mut s, catalog_row_str(n, book_slug, admin_book_id, t).as_str());
    let mut sub = new_string();
    if branch {
        walk_catalog_list(&mut sub, &n.children, book_slug, admin_book_id, depth + 1, t);
    } else {
        push_str(&mut sub, "");
    }
    push_str(&mut s, sub.as_str());
    push_str(&mut s, "</li>");
    push_str(out, s.as_str());
}

/// The catalog of a book with the labels of `times`: `catalog_list` at
/// depth 0.
pub fn catalog_html_with(
    nodes: &Vec<KbTreeNode>,
    book_slug: &str,
    admin_book_id: Option<i64>,
    times: &Vec<(String, String)>,
) -> (r: String)
    requires
        forest_height(forest_view(nodes@)) <= usize::MAX,
    ensures
        r@ == catalog_list(forest_view(nodes@), book_slug@, admin_book_id, 0, label_table(times@)),
{
    let mut out = new_string();
    walk_catalog_list(&mut out, nodes, book_slug, admin_book_id, 0, times);
    out
}

/// The timestamps of a forest, each node before its children.
pub open spec fn times_forest(f: Seq<KbTreeModel>) -> Seq<Seq<char>>
    decreases f, 0int,
{
    if f.len() == 0 {
        Seq::empty()
    } else {
        times_forest(f.drop_last()) + times_node(f.last())
    }
}

pub open spec fn times_node(n: KbTreeModel) -> Seq<Seq<char>>
    decreases n, 1int,
{
    seq![n.updated_at] + times_forest(n.children)
}

/// Every label in `t` is what `format_kb_time` may give its timestamp.
pub open spec fn labels_shown(t: Seq<(Seq<char>, Seq<char>)>) -> bool {
    forall|i: int| 0 <= i < t.len() ==> #[trigger] kb_time_shown(t[i].0, t[i].1)
}

fn collect_times_forest(nodes: &Vec<KbTreeNode>, out: &mut Vec<(String, String)>)
    requires
        labels_shown(label_table(old(out)@)),
    ensures
        labels_shown(label_table(final(out)@)),
        label_table(final(out)@).map_values(|e: (Seq<char>, Seq<char>)| e.0) == label_table(
            old(out)@,
        ).map_values(|e: (Seq<char>, Seq<char>)| e.0) + times_forest(forest_view(nodes@)),
    decreases nodes@, 0int,
{
    let mut i: usize = 0;
    assert(nodes@.take(0) =~= Seq::<KbTreeNode>::empty());
    let ghost start = label_table(out@).map_values(|e: (Seq<char>, Seq<char>)| e.0);
    assert(start + Seq::<Seq<char>>::empty() =~= start);
    while i < nodes.len()
        invariant
            0 <= i <= nodes.len(),
            start == label_table(old(out)@).map_values(|e: (Seq<char>, Seq<char>)| e.0),
            labels_shown(label_table(out@)),
            label_table(out@).map_values(|e: (Seq<char>, Seq<char>)| e.0) == start + times_forest(
                forest_view(nodes@.take(i as int)),
            ),
        decreases nodes.len() - i,
    {
        proof {
            assert(nodes@.take(i + 1) =~= nodes@.take(i as int).push(nodes@[i as int]));
            crate::kb_tree::lemma_forest_view_push(nodes@.take(i as int), nodes@[i as int]);
            let fv = forest_view(nodes@.take(i as int)).push(tree_view(nodes@[i as int]));
            assert(fv.drop_last() =~= forest_view(nodes@.take(i as int)));
        }
        collect_times_node(&nodes[i], out);
        assert(start + times_forest(forest_view(nodes@.take(i as int))) + times_node(
            tree_view(nodes@[i as int]),
        ) =~= start + times_forest(forest_view(nodes@.take(i + 1))));
        i = i + 1;
    }
    assert(nodes@.take(nodes@.len() as int) =~= nodes@);
}

fn collect_times_node(n: &KbTreeNode, out: &mut Vec<(String, String)>)
    requires
        labels_shown(label_table(old(out)@)),
    ensures
        labels_shown(label_table(final(out)@)),
        label_table(final(out)@).map_values(|e: (Seq<char>, Seq<char>)| e.0) == label_table(
            old(out)@,
        ).map_values(|e: (Seq<char>, Seq<char>)| e.0) + times_node(tree_view(*n)),
    decreases *n, 1int,
{
    let key = string_of(n.updated_at.as_str());
    let label = format_kb_time(n.updated_at.as_str());
    let ghost before = out@;
    out.push((key, label));
    assert(label_table(out@) =~= label_table(before).push((n.updated_at@, label@)));
    assert(label_table(out@).map_values(|e: (Seq<char>, Seq<char>)| e.0) =~= label_table(
        before,
    ).map_values(|e: (Seq<char>, Seq<char>)| e.0).push(n.updated_at@));
    assert forall|i: int| 0 <= i < label_table(out@).len() implies #[trigger] kb_time_shown(
        label_table(out@)[i].0,
        label_table(out@)[i].1,
    ) by {
        if i < before.len() {
            assert(label_table(out@)[i] == label_table(before)[i]);
        }
    }
    let ghost mid = label_table(out@).map_values(|e: (Seq<char>, Seq<char>)| e.0);
    collect_times_forest(&n.children, out);
    assert(label_table(before).map_values(|e: (Seq<char>, Seq<char>)| e.0) + times_node(
        tree_view(*n),
    ) =~= mid + times_forest(forest_view(n.children@)));
}

/// The labels of every node's last change, each node before its children.
pub fn catalog_times(nodes: &Vec<KbTreeNode>) -> (r: Vec<(String, String)>)
    ensures
        label_table(r@).map_values(|e: (Seq<char>, Seq<char>)| e.0) == times_forest(
            forest_view(nodes@),
        ),
        labels_shown(label_table(r@)),
{
    let mut out: Vec<(String, String)> = Vec::new();
    assert(label_table(out@).map_values(|e: (Seq<char>, Seq<char>)| e.0) =~= Seq::<
        Seq<char>,
    >::empty());
    collect_times_forest(nodes, &mut out);
    assert(Seq::<Seq<char>>::empty() + times_forest(forest_view(nodes@)) =~= times_forest(
        forest_view(nodes@),
    ));
    out
}

/// The catalog of a book: every node's last change is labelled by
/// `format_kb_time`, which reads the clock, so the labels are stated only
/// as far as `kb_time_shown` goes; the rest of the page is exact.
pub fn catalog_html(nodes: &Vec<KbTreeNode>, book_slug: &str, admin_book_id: Option<i64>) -> (r:
    String)
    requires
        forest_height(forest_view(nodes@)) <= usize::MAX,
    ensures
        exists|t: Seq<(Seq<char>, Seq<char>)>|
            #![trigger catalog_list(forest_view(nodes@), book_slug@, admin_book_id, 0, t)]
            t.map_values(|e: (Seq<char>, Seq<char>)| e.0) == times_forest(forest_view(nodes@))
                && labels_shown(t) && r@ == catalog_list(
                forest_view(nodes@),
                book_slug@,
                admin_book_id,
                0,
                t,
            ),
{
    let times = catalog_times(nodes);
    let r = catalog_html_with(nodes, book_slug, admin_book_id, &times);
    assert(r@ == catalog_list(forest_view(nodes@), book_slug@, admin_book_id, 0, label_table(times@)));
    r
}

} // verus!
