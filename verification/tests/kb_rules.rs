use oakis::docs_pages::{
    book_access, editor_href, page_access, plan_node_save, suffixed_slug, book_summary,
    check_new_parent, node_created_message, edit_href, neighbor_link,
};
use oakis::errors::AppError;
use oakis::forms::SaveNodeForm;
use oakis::kb_move::{plan_kb_move, reorder_siblings, sibling_ids, KbMoveError};
use oakis::docs_html::tree_html;
use oakis::kb_tree::{build_kb_tree, build_public_kb_tree, kb_breadcrumbs, kb_page_neighbors, kb_tree_stats};
use oakis::models::kb::{KbBook, KbNode};

fn node(id: i64, parent: Option<i64>, kind: &str, title: &str, sort: i64) -> KbNode {
    KbNode {
        id,
        book_id: 1,
        parent_id: parent,
        node_type: kind.to_string(),
        title: title.to_string(),
        slug: format!("n{id}"),
        sort_order: sort,
        content_md: String::new(),
        content_html: String::new(),
        status: "published".to_string(),
        visibility: "public".to_string(),
        published_at: None,
        created_at: "2024-01-01T00:00:00Z".to_string(),
        updated_at: "2024-01-01T00:00:00Z".to_string(),
    }
}

fn book(status: &str, visibility: &str) -> KbBook {
    KbBook {
        id: 1,
        title: "Guide".to_string(),
        slug: "guide".to_string(),
        summary: "A <b>guide</b>".to_string(),
        cover_url: String::new(),
        status: status.to_string(),
        visibility: visibility.to_string(),
        sort_order: 0,
        created_at: String::new(),
        updated_at: String::new(),
    }
}

fn sample() -> Vec<KbNode> {
    vec![
        node(1, None, "folder", "A", 0),
        node(2, Some(1), "doc", "A1", 0),
        node(3, Some(1), "doc", "A2", 1),
        node(4, None, "doc", "B", 1),
    ]
}

#[test]
fn siblings_are_listed_by_order() {
    let nodes = sample();
    assert_eq!(sibling_ids(&nodes, 1, None), vec![1, 4]);
    assert_eq!(sibling_ids(&nodes, 1, Some(1)), vec![2, 3]);
}

#[test]
fn reorder_moves_a_node_before_another() {
    assert_eq!(reorder_siblings(&vec![1, 2, 3], 3, Some(1)), vec![3, 1, 2]);
    assert_eq!(reorder_siblings(&vec![1, 2, 3], 1, None), vec![2, 3, 1]);
    assert_eq!(reorder_siblings(&vec![1, 2], 3, Some(9)), vec![1, 2, 3]);
}

#[test]
fn moves_into_own_subtree_are_refused() {
    let nodes = sample();
    match plan_kb_move(&nodes, 1, Some(2), None) {
        Err(KbMoveError::IntoOwnSubtree) => {}
        _ => panic!("expected a refusal"),
    }
    match plan_kb_move(&nodes, 1, Some(1), None) {
        Err(KbMoveError::OntoItself) => {}
        _ => panic!("expected a refusal"),
    }
    match plan_kb_move(&nodes, 2, Some(99), None) {
        Err(e) => assert!(e.is_not_found() || !e.message().is_empty()),
        Ok(_) => panic!("expected a refusal"),
    }
}

#[test]
fn a_move_writes_both_sibling_lists() {
    let nodes = sample();
    let plan = plan_kb_move(&nodes, 2, None, Some(4)).unwrap().unwrap();
    assert_eq!(plan.target_order, vec![1, 2, 4]);
    assert_eq!(plan.old_parent_order, Some(vec![3]));
    assert!(plan_kb_move(&nodes, 2, Some(1), Some(3)).unwrap().is_none());
}

#[test]
fn tree_nests_children() {
    let tree = build_kb_tree(&sample());
    assert_eq!(tree.len(), 2);
    assert_eq!(tree[0].id, 1);
    assert_eq!(tree[0].children.len(), 2);
    assert_eq!(tree[1].id, 4);
}

#[test]
fn guests_see_only_public_books_and_pages() {
    assert!(book_access(&book("published", "public"), false).is_ok());
    match book_access(&book("draft", "public"), false) {
        Err(AppError::NotFound(m)) => assert_eq!(m, "知识库不存在"),
        _ => panic!("expected not found"),
    }
    assert!(book_access(&book("draft", "private"), true).is_ok());
    let doc = node(2, Some(1), "doc", "A1", 0);
    let folder = node(1, None, "folder", "A", 0);
    assert!(page_access(Some(&doc), false).is_ok());
    assert!(page_access(Some(&folder), true).is_err());
    assert!(page_access(None, true).is_err());
    let mut hidden = node(5, None, "doc", "H", 0);
    hidden.visibility = "private".to_string();
    assert!(page_access(Some(&hidden), false).is_err());
    assert!(page_access(Some(&hidden), true).is_ok());
}

#[test]
fn book_links() {
    assert_eq!(editor_href(3, None), "/admin/docs/3");
    assert_eq!(editor_href(3, Some(7)), "/admin/docs/3?id=7");
    assert_eq!(edit_href(false, 3, Some(7)), None);
    assert_eq!(edit_href(true, 3, Some(7)), Some("/admin/docs/3?id=7".to_string()));
    assert_eq!(book_summary("A <b>guide</b>"), "<p>A &lt;b&gt;guide&lt;/b&gt;</p>");
    assert_eq!(book_summary(""), "");
    let n = neighbor_link("guide", Some(("Next".to_string(), "next-page".to_string()))).unwrap();
    assert_eq!(n.href, "/docs/guide/next-page");
    assert_eq!(n.title, "Next");
}

#[test]
fn node_forms() {
    let other = KbNode { book_id: 2, ..node(9, None, "folder", "X", 0) };
    assert_eq!(check_new_parent(None, 1), Err("父节点不存在"));
    assert_eq!(check_new_parent(Some(&other), 1), Err("父节点不属于该知识库"));
    assert_eq!(check_new_parent(Some(&node(1, None, "folder", "A", 0)), 1), Ok(()));
    assert_eq!(node_created_message("folder"), "文件夹已创建");
    assert_eq!(node_created_message("doc"), "文档已创建");
    let s = suffixed_slug("intro");
    assert_eq!(s.len(), 12);
    assert!(s.starts_with("intro-"));
    let save = plan_node_save(
        SaveNodeForm {
            title: "  Getting Started  ".to_string(),
            slug: String::new(),
            content_md: "# Hi".to_string(),
            status: "published".to_string(),
            visibility: "secret".to_string(),
            published_at: String::new(),
        },
        "2024-01-02T03:04:05Z".to_string(),
    );
    assert_eq!(save.title, "Getting Started");
    assert_eq!(save.slug, "getting-started");
    assert_eq!(save.status, "published");
    assert_eq!(save.visibility, "public");
    assert_eq!(save.published_at, "2024-01-02T03:04:05Z");
}

#[test]
fn public_tree_html_marks_the_open_page() {
    let nodes = sample();
    let tree = build_public_kb_tree(&nodes, false);
    let html = tree_html(&tree, Some(2), 1, "guide", false);
    let expected = [
        "<ul class=\"kb-tree-list\">",
        "<li class=\"kb-tree-item is-folder has-children\" style=\"--kb-depth:0\" data-id=\"1\" data-type=\"folder\" data-parent-id=\"\">",
        "<details class=\"kb-branch\"><summary class=\"kb-row\"><span class=\"kb-chevron\" aria-hidden=\"true\"></span>",
        "<span class=\"kb-tree-link kb-tree-folder-label\">A</span></summary>",
        "<ul class=\"kb-tree-list\">",
        "<li class=\"kb-tree-item is-doc is-active\" style=\"--kb-depth:1\" data-id=\"2\" data-type=\"doc\" data-parent-id=\"1\">",
        "<div class=\"kb-row\"><span class=\"kb-chevron kb-chevron-leaf\" aria-hidden=\"true\"></span>",
        "<a class=\"kb-tree-link\" href=\"/docs/guide/n2\">A1</a></div></li>",
        "<li class=\"kb-tree-item is-doc\" style=\"--kb-depth:1\" data-id=\"3\" data-type=\"doc\" data-parent-id=\"1\">",
        "<div class=\"kb-row\"><span class=\"kb-chevron kb-chevron-leaf\" aria-hidden=\"true\"></span>",
        "<a class=\"kb-tree-link\" href=\"/docs/guide/n3\">A2</a></div></li>",
        "</ul></details></li>",
        "<li class=\"kb-tree-item is-doc\" style=\"--kb-depth:0\" data-id=\"4\" data-type=\"doc\" data-parent-id=\"\">",
        "<div class=\"kb-row\"><span class=\"kb-chevron kb-chevron-leaf\" aria-hidden=\"true\"></span>",
        "<a class=\"kb-tree-link\" href=\"/docs/guide/n4\">B</a></div></li>",
        "</ul>",
    ]
    .concat();
    assert_eq!(html, expected);
    assert_eq!(tree_html(&Vec::new(), None, 1, "guide", false), "");
}

#[test]
fn guests_lose_hidden_docs_and_empty_folders() {
    let mut nodes = sample();
    nodes[1].visibility = "private".to_string();
    nodes[2].status = "draft".to_string();
    let guest = build_public_kb_tree(&nodes, false);
    assert_eq!(guest.iter().map(|n| n.id).collect::<Vec<_>>(), vec![4]);
    let editor = build_public_kb_tree(&nodes, true);
    assert_eq!(editor.iter().map(|n| n.id).collect::<Vec<_>>(), vec![1, 4]);
    assert_eq!(editor[0].children.len(), 2);
}

#[test]
fn breadcrumbs_neighbors_and_counts() {
    let mut nodes = sample();
    nodes[1].content_md = "ab c\nd".to_string();
    nodes[3].content_md = "xyz".to_string();
    let tree = build_kb_tree(&nodes);
    let crumbs = kb_breadcrumbs(&nodes, &nodes[2], "guide");
    assert_eq!(crumbs.len(), 1);
    assert_eq!(crumbs[0].title, "A");
    assert_eq!(crumbs[0].href.as_deref(), Some("/docs/guide/n1"));
    assert!(kb_breadcrumbs(&nodes, &nodes[0], "guide").is_empty());

    let pair = |p: Option<(String, String)>| p.map(|(t, s)| format!("{t}:{s}"));
    let (prev, next) = kb_page_neighbors(&tree, 3);
    assert_eq!((pair(prev), pair(next)), (Some("A1:n2".to_string()), Some("B:n4".to_string())));
    let (prev, next) = kb_page_neighbors(&tree, 2);
    assert_eq!((pair(prev), pair(next)), (None, Some("A2:n3".to_string())));
    let (prev, next) = kb_page_neighbors(&tree, 1);
    assert_eq!((pair(prev), pair(next)), (None, None));

    assert_eq!(kb_tree_stats(&tree, &nodes), (3, 7));
}
