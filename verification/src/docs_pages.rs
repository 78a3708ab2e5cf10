//! What the knowledge-base pages decide before they are rendered: who may
//! see a book or a page, the links around a page, and the state of the
//! book editor.
use vstd::prelude::*;

use crate::docs_html::{
    catalog_html, catalog_list, escape_html, html_escape, labels_shown, times_forest, tree_html,
    tree_list,
};
use crate::errors::AppError;
use crate::kb_tree::{
    build_kb_tree, distinct_ids, forest_height, forest_view, kb_tree_spec, kb_tree_stats,
    stats_forest,
};
use crate::models::kb::{KbBook, KbNeighbor, KbNode};
use crate::forms::{
    normalize_slug, slug_source, status_value, visibility_value, BookForm, SaveNodeForm,
};
use crate::markdown::{new_uuid_text, slug_core, uuid_shape};
use crate::models::kb::{KB_TYPE_DOC, KB_TYPE_FOLDER};
use crate::text::{
    chars_of, clamp_text, int_dec, new_string, push_char, push_i64, push_str, string_of, take_n,
    trim,
};
use crate::upload::{sanitize_cover_url, sanitize_cover_url_spec};
use crate::timefmt::{now_local_input, to_local_input};

verus! {

/// A book is shown to a guest only where it is published and not private;
/// otherwise it does not exist for them.
pub fn book_access(book: &KbBook, logged_in: bool) -> (r: Result<(), AppError>)
    ensures
        r is Ok <==> (logged_in || (book.published() && !book.private())),
        r matches Err(e) ==> e matches AppError::NotFound(m) && m@ == "知识库不存在"@,
{
    if !logged_in && !book.is_publicly_visible() {
        return Err(AppError::not_found("知识库不存在"));
    }
    Ok(())
}

/// A page of a book is shown where it exists and is a document, and, to a
/// guest, only where it is published and not private.
pub fn page_access(page: Option<&KbNode>, logged_in: bool) -> (r: Result<(), AppError>)
    ensures
        r is Ok <==> (page matches Some(p) && p.doc() && (logged_in || p.publicly_visible())),
        r matches Err(e) ==> e matches AppError::NotFound(m) && m@ == "页面不存在"@,
{
    match page {
        None => Err(AppError::not_found("页面不存在")),
        Some(p) => {
            if !p.is_doc() {
                return Err(AppError::not_found("页面不存在"));
            }
            if !logged_in && !p.is_publicly_visible() {
                return Err(AppError::not_found("页面不存在"));
            }
            Ok(())
        },
    }
}

/// The home of a book shows its summary as one escaped paragraph, or
/// nothing where it has none.
pub open spec fn book_summary_html(summary: Seq<char>) -> Seq<char> {
    if summary.len() == 0 {
        Seq::empty()
    } else {
        "<p>"@ + escape_html(summary) + "</p>"@
    }
}

pub fn book_summary(summary: &str) -> (r: String)
    ensures
        r@ == book_summary_html(summary@),
{
    if chars_of(summary).len() == 0 {
        return new_string();
    }
    let mut out = string_of("<p>");
    html_escape(&mut out, summary);
    push_str(&mut out, "</p>");
    out
}

/// The public address of a page: `/docs/{book}/{page}`.
pub open spec fn doc_href(book_slug: Seq<char>, slug: Seq<char>) -> Seq<char> {
    "/docs/"@ + book_slug + "/"@ + slug
}

/// The link to a neighbouring page, given its title and slug.
pub fn neighbor_link(book_slug: &str, pair: Option<(String, String)>) -> (r: Option<KbNeighbor>)
    ensures
        match pair {
            None => r is None,
            Some((t, s)) => r matches Some(n) && n.title@ == t@ && n.href@ == doc_href(
                book_slug@,
                s@,
            ),
        },
{
    match pair {
        None => None,
        Some((t, s)) => {
            let mut href = string_of("/docs/");
            push_str(&mut href, book_slug);
            push_str(&mut href, "/");
            push_str(&mut href, s.as_str());
            Some(KbNeighbor { title: t, href })
        },
    }
}

/// Where a logged-in reader edits what they see: the book's editor, at the
/// page where there is one; guests get no link.
pub open spec fn edit_href_of(logged_in: bool, book_id: i64, active_id: Option<i64>) -> Option<
    Seq<char>,
> {
    if !logged_in {
        None
    } else {
        match active_id {
            Some(id) => Some("/admin/docs/"@ + int_dec(book_id as int) + "?id="@ + int_dec(id as int)),
            None => Some("/admin/docs/"@ + int_dec(book_id as int)),
        }
    }
}

pub fn edit_href(logged_in: bool, book_id: i64, active_id: Option<i64>) -> (r: Option<String>)
    ensures
        match r {
            Some(h) => edit_href_of(logged_in, book_id, active_id) == Some(h@),
            None => edit_href_of(logged_in, book_id, active_id) is None,
        },
{
    if !logged_in {
        return None;
    }
    let mut s = string_of("/admin/docs/");
    push_i64(&mut s, book_id);
    match active_id {
        Some(id) => {
            push_str(&mut s, "?id=");
            push_i64(&mut s, id);
        },
        None => {},
    }
    Some(s)
}

/// Where the form of a node is saved: `/admin/docs/nodes/{id}/save`.
pub open spec fn node_form_action(id: i64) -> Seq<char> {
    "/admin/docs/nodes/"@ + int_dec(id as int) + "/save"@
}

pub fn node_form_action_of(id: i64) -> (r: String)
    ensures
        r@ == node_form_action(id),
{
    let mut s = string_of("/admin/docs/nodes/");
    push_i64(&mut s, id);
    push_str(&mut s, "/save");
    s
}

/// The book editor as it opens: the tree with the selected node marked,
/// and either the selected node's form or the book's home with its catalog
/// and counts.
pub struct AdminBookState {
    pub tree_html: String,
    pub has_nodes: bool,
    pub selected_id: Option<i64>,
    pub is_folder: bool,
    pub title: String,
    pub slug: String,
    pub content_md: String,
    pub status: String,
    pub visibility: String,
    pub published_at_local: String,
    pub form_action: String,
    pub catalog_html: String,
    pub doc_count: usize,
    pub word_count: usize,
}

/// Opens the editor of `book`, whose nodes are `nodes`, at `selected` (the
/// node asked for, where it exists). A node of another book is not found.
/// A new page starts published and public. The local time shown in the form
/// depends on the clock and the time zone, so nothing is stated of it.
pub fn admin_book_state(book: &KbBook, nodes: &Vec<KbNode>, selected: Option<KbNode>) -> (r: Result<
    AdminBookState,
    AppError,
>)
    requires
        distinct_ids(nodes@),
        forest_height(kb_tree_spec(nodes@)) <= usize::MAX,
        stats_forest(kb_tree_spec(nodes@), nodes@).0 <= usize::MAX,
        stats_forest(kb_tree_spec(nodes@), nodes@).1 <= usize::MAX,
    ensures
        match selected {
            Some(n) => if n.book_id != book.id {
                r matches Err(e) && e matches AppError::NotFound(m) && m@ == "页面不存在"@
            } else {
                r matches Ok(s) && {
                    &&& s.selected_id == Some(n.id)
                    &&& s.is_folder == n.folder()
                    &&& s.title@ == n.title@
                    &&& s.slug@ == n.slug@
                    &&& s.content_md@ == n.content_md@
                    &&& s.status@ == n.status@
                    &&& s.visibility@ == n.visibility@
                    &&& s.form_action@ == node_form_action(n.id)
                    &&& s.catalog_html@.len() == 0
                    &&& s.doc_count == 0
                    &&& s.word_count == 0
                }
            },
            None => r matches Ok(s) && {
                &&& s.selected_id is None
                &&& !s.is_folder
                &&& s.title@.len() == 0
                &&& s.slug@.len() == 0
                &&& s.content_md@.len() == 0
                &&& s.status@ == "published"@
                &&& s.visibility@ == "public"@
                &&& s.form_action@.len() == 0
                &&& s.doc_count == stats_forest(kb_tree_spec(nodes@), nodes@).0
                &&& s.word_count == stats_forest(kb_tree_spec(nodes@), nodes@).1
                &&& (nodes@.len() == 0 ==> s.catalog_html@.len() == 0)
                &&& (nodes@.len() > 0 ==> exists|t: Seq<(Seq<char>, Seq<char>)>|
                    #![trigger catalog_list(kb_tree_spec(nodes@), book.slug@, Some(book.id), 0, t)]
                    t.map_values(|e: (Seq<char>, Seq<char>)| e.0) == times_forest(
                        kb_tree_spec(nodes@),
                    ) && labels_shown(t) && s.catalog_html@ == catalog_list(
                        kb_tree_spec(nodes@),
                        book.slug@,
                        Some(book.id),
                        0,
                        t,
                    ))
            },
        },
        r matches Ok(s) ==> {
            &&& s.has_nodes == (nodes@.len() > 0)
            &&& s.tree_html@ == tree_list(
                kb_tree_spec(nodes@),
                s.selected_id,
                book.id,
                book.slug@,
                true,
                None,
                0,
            )
        },
{
    let tree = build_kb_tree(nodes);
    match selected {
        Some(n) => {
            if n.book_id != book.id {
                return Err(AppError::not_found("页面不存在"));
            }
            let is_folder = n.is_folder();
            let published_at_local = match &n.published_at {
                Some(p) => to_local_input(Some(p.as_str())),
                None => to_local_input(None),
            };
            let tree_html = tree_html(&tree, Some(n.id), book.id, book.slug.as_str(), true);
            Ok(AdminBookState {
                tree_html,
                has_nodes: nodes.len() > 0,
                selected_id: Some(n.id),
                is_folder,
                title: n.title,
                slug: n.slug,
                content_md: n.content_md,
                status: n.status,
                visibility: n.visibility,
                published_at_local,
                form_action: node_form_action_of(n.id),
                catalog_html: new_string(),
                doc_count: 0,
                word_count: 0,
            })
        },
        None => {
            let tree_html = tree_html(&tree, None, book.id, book.slug.as_str(), true);
            let (doc_count, word_count) = kb_tree_stats(&tree, nodes);
            let catalog = if nodes.len() > 0 {
                catalog_html(&tree, book.slug.as_str(), Some(book.id))
            } else {
                new_string()
            };
            Ok(AdminBookState {
                tree_html,
                has_nodes: nodes.len() > 0,
                selected_id: None,
                is_folder: false,
                title: new_string(),
                slug: new_string(),
                content_md: new_string(),
                status: string_of("published"),
                visibility: string_of("public"),
                published_at_local: now_local_input(),
                form_action: new_string(),
                catalog_html: catalog,
                doc_count,
                word_count,
            })
        },
    }
}

// ---------------------------------------------------------------------------
// Books and nodes from the admin forms
// ---------------------------------------------------------------------------

/// The editor of a book, at a node where one is given:
/// `/admin/docs/{book}` or `/admin/docs/{book}?id={node}`.
pub open spec fn editor_href_of(book_id: i64, node_id: Option<i64>) -> Seq<char> {
    match node_id {
        Some(id) => "/admin/docs/"@ + int_dec(book_id as int) + "?id="@ + int_dec(id as int),
        None => "/admin/docs/"@ + int_dec(book_id as int),
    }
}

pub fn editor_href(book_id: i64, node_id: Option<i64>) -> (r: String)
    ensures
        r@ == editor_href_of(book_id, node_id),
{
    let mut s = string_of("/admin/docs/");
    push_i64(&mut s, book_id);
    match node_id {
        Some(id) => {
            push_str(&mut s, "?id=");
            push_i64(&mut s, id);
        },
        None => {},
    }
    s
}

/// A book as its form saves it: the title trimmed and cut to 80
/// characters, the summary to 200, the cover made safe.
pub struct BookSave {
    pub title: String,
    pub slug: String,
    pub summary: String,
    pub cover_url: String,
    pub status: &'static str,
    pub visibility: &'static str,
}

pub fn plan_book_save(form: &BookForm) -> (r: BookSave)
    ensures
        r.title@ == take_n(trim(form.title@), 80),
        slug_core(slug_source(r.title@, form.slug@)).len() > 0 ==> r.slug@ == slug_core(
            slug_source(r.title@, form.slug@),
        ),
        slug_core(slug_source(r.title@, form.slug@)).len() == 0 ==> r.slug@.len() == 13
            && r.slug@.take(5) == "post-"@ && forall|i: int|
            5 <= i < 13 ==> crate::markdown::is_lower_hex(#[trigger] r.slug@[i]),
        r.summary@ == take_n(trim(form.summary@), 200),
        r.cover_url@ == sanitize_cover_url_spec(form.cover_url@),
        r.status@ == (if form.status@ == "published"@ {
            "published"@
        } else {
            "draft"@
        }),
        r.visibility@ == (if form.visibility@ == "private"@ {
            "private"@
        } else {
            "public"@
        }),
{
    let title = clamp_text(form.title.as_str(), 80);
    let slug = normalize_slug(title.as_str(), form.slug.as_str());
    BookSave {
        title,
        slug,
        summary: clamp_text(form.summary.as_str(), 200),
        cover_url: sanitize_cover_url(form.cover_url.as_str()),
        status: status_value(form.status.as_str()),
        visibility: visibility_value(form.visibility.as_str()),
    }
}

/// A node's title from a form: trimmed and cut to 120 characters.
pub fn node_title(raw: &str) -> (r: String)
    ensures
        r@ == take_n(trim(raw@), 120),
{
    clamp_text(raw, 120)
}

/// The type a new node gets: a folder where asked for, else a document.
pub fn new_node_type(raw: &str) -> (r: &'static str)
    ensures
        r@ == (if raw@ == KB_TYPE_FOLDER@ {
            KB_TYPE_FOLDER@
        } else {
            KB_TYPE_DOC@
        }),
{
    crate::forms::node_type_value(raw)
}

/// Why a new node cannot go under the parent asked for: it does not exist,
/// or it is in another book.
pub fn check_new_parent(parent: Option<&KbNode>, book_id: i64) -> (r: Result<(), &'static str>)
    ensures
        match parent {
            None => r matches Err(m) && m@ == "父节点不存在"@,
            Some(p) => if p.book_id != book_id {
                r matches Err(m) && m@ == "父节点不属于该知识库"@
            } else {
                r is Ok
            },
        },
{
    match parent {
        None => Err("父节点不存在"),
        Some(p) => if p.book_id != book_id {
            Err("父节点不属于该知识库")
        } else {
            Ok(())
        },
    }
}

/// A slug another node of the book already holds gets a dash and six
/// characters of a new UUID.
pub fn suffixed_slug(slug: &str) -> (r: String)
    ensures
        r@.len() == slug@.len() + 7,
        r@.take(slug@.len() as int) == slug@,
        r@[slug@.len() as int] == '-',
        forall|k: int|
            slug@.len() < k < r@.len() ==> crate::markdown::is_lower_hex(#[trigger] r@[k]),
{
    let id = new_uuid_text();
    let idv = chars_of(id.as_str());
    let mut r = string_of(slug);
    push_char(&mut r, '-');
    let mut k: usize = 0;
    while k < 6
        invariant
            0 <= k <= 6,
            idv@ == id@,
            uuid_shape(idv@),
            r@.len() == slug@.len() + 1 + k,
            r@.take(slug@.len() as int) == slug@,
            r@[slug@.len() as int] == '-',
            forall|m: int|
                slug@.len() < m < r@.len() ==> crate::markdown::is_lower_hex(#[trigger] r@[m]),
        decreases 6 - k,
    {
        let ghost before = r@;
        assert(crate::markdown::is_lower_hex(idv@[k as int]));
        push_char(&mut r, idv[k]);
        assert(r@.take(slug@.len() as int) =~= before.take(slug@.len() as int));
        assert(forall|m: int| 0 <= m < before.len() ==> r@[m] == before[m]);
        k = k + 1;
    }
    r
}

/// The notice after a node is created.
pub fn node_created_message(node_type: &str) -> (r: &'static str)
    ensures
        r@ == (if node_type@ == KB_TYPE_FOLDER@ {
            "文件夹已创建"@
        } else {
            "文档已创建"@
        }),
{
    if crate::text::str_eq(node_type, KB_TYPE_FOLDER) {
        "文件夹已创建"
    } else {
        "文档已创建"
    }
}

/// A document as its form saves it; `published_at` is the stored time the
/// submitted one resolves to.
pub struct NodeSave {
    pub title: String,
    pub slug: String,
    pub content_md: String,
    pub status: &'static str,
    pub visibility: &'static str,
    pub published_at: String,
}

pub fn plan_node_save(form: SaveNodeForm, published_at: String) -> (r: NodeSave)
    ensures
        r.title@ == take_n(trim(form.title@), 120),
        slug_core(slug_source(r.title@, form.slug@)).len() > 0 ==> r.slug@ == slug_core(
            slug_source(r.title@, form.slug@),
        ),
        slug_core(slug_source(r.title@, form.slug@)).len() == 0 ==> r.slug@.len() == 13
            && r.slug@.take(5) == "post-"@ && forall|i: int|
            5 <= i < 13 ==> crate::markdown::is_lower_hex(#[trigger] r.slug@[i]),
        r.content_md@ == form.content_md@,
        r.status@ == (if form.status@ == "published"@ {
            "published"@
        } else {
            "draft"@
        }),
        r.visibility@ == (if form.visibility@ == "private"@ {
            "private"@
        } else {
            "public"@
        }),
        r.published_at@ == published_at@,
{
    let title = node_title(form.title.as_str());
    let slug = normalize_slug(title.as_str(), form.slug.as_str());
    NodeSave {
        title,
        slug,
        content_md: form.content_md,
        status: status_value(form.status.as_str()),
        visibility: visibility_value(form.visibility.as_str()),
        published_at,
    }
}

} // verus!
