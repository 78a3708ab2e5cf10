use oakis::archive::{archive_names_fit, write_archive, ArchiveItem};
use oakis::auth::LoginLimiter;
use oakis::docs_html::catalog_html;
use oakis::export::{safe_filename, MarkdownDoc, MarkdownExporter};
use oakis::images::save_media;
use oakis::models::kb::KbTreeNode;
use oakis::models::nav::NavItemConfig;
use oakis::models::spark::Spark;
use oakis::upload::{resolve_upload_file, sanitize_original_name, upload_file_path};

fn tree_node(id: i64, kind: &str, title: &str, slug: &str) -> KbTreeNode {
    KbTreeNode {
        id,
        parent_id: None,
        node_type: kind.to_string(),
        title: title.to_string(),
        slug: slug.to_string(),
        status: "published".to_string(),
        visibility: "public".to_string(),
        updated_at: "2024-01-01T00:00:00Z".to_string(),
        children: Vec::new(),
    }
}

fn nav(kind: &str, key: &str, page_id: Option<i64>, label: &str, url: &str, vis: &str) -> NavItemConfig {
    NavItemConfig {
        kind: kind.to_string(),
        key: key.to_string(),
        page_id,
        label: label.to_string(),
        url: url.to_string(),
        visibility: vis.to_string(),
    }
}

#[test]
fn catalog_links_follow_the_node_slug() {
    let without_slug = catalog_html(&vec![tree_node(1, "doc", "Draft", "")], "guide", None);
    assert!(!without_slug.contains("href=\"/docs/guide/"));
    assert!(without_slug.contains("docs-catalog-body is-folder"));
    let book_without_slug = catalog_html(&vec![tree_node(2, "doc", "Intro", "intro")], "", None);
    assert!(book_without_slug.contains("href=\"/docs//intro\""));
    let folder = catalog_html(&vec![tree_node(3, "folder", "Part", "part")], "guide", None);
    assert!(!folder.contains("href="));
}

#[test]
fn fewer_than_eight_failures_never_block() {
    let mut l = LoginLimiter::new();
    let k = LoginLimiter::key("c", "u");
    for t in [5u64, 1, 900, 3, 2, 10, 4] {
        l.record_failure(&k, t);
    }
    assert!(!l.is_blocked(&k, 11));
    assert!(!l.is_blocked(&k, 1_000_000));
}

#[test]
fn the_eighth_failure_in_the_window_locks_and_restarts_the_count() {
    let mut l = LoginLimiter::new();
    let k = LoginLimiter::key("c", "u");
    for t in 0..8u64 {
        l.record_failure(&k, t);
    }
    assert!(l.is_blocked(&k, 7));
    assert!(!l.is_blocked(&k, 7 + 900_000));
    l.record_failure(&k, 7 + 900_000);
    assert!(!l.is_blocked(&k, 8 + 900_000));
}

#[test]
fn cleaned_navigation_lists_each_route_once() {
    let raw = vec![
        nav("builtin", " Posts ", None, "Articles", "", "hidden"),
        nav("builtin", "posts", None, "Again", "", "public"),
        nav("builtin", "nowhere", None, "X", "", "public"),
        nav("page", "", Some(0), "Bad page", "", "public"),
        nav("page", "", Some(4), "About", "", "weird"),
        nav("custom", "", None, "", "javascript:alert(1)", "public"),
        nav("custom", "", None, "  ", "https://example.com", "private"),
    ];
    let out = NavItemConfig::normalize_list(raw.clone());
    let keys: Vec<&str> = out.iter().filter(|i| i.kind == "builtin").map(|i| i.key.as_str()).collect();
    assert_eq!(keys, vec!["home", "docs", "sparks", "posts"]);
    assert_eq!(out.len(), 6);
    assert_eq!(out[3].label, "Articles");
    assert_eq!(out[3].visibility, "hidden");
    assert_eq!(out[4].page_id, Some(4));
    assert_eq!(out[4].visibility, "public");
    assert_eq!(out[5].label, "链接");
    assert_eq!(out[5].url, "https://example.com");

    let editor = NavItemConfig::for_editor(raw);
    assert_eq!(editor.len(), 8);
    assert!(editor.len() >= out.len());
    assert_eq!(editor[4].page_id, None);
    assert_eq!(editor[6].url, "javascript:alert(1)");
    assert_eq!(editor.iter().filter(|i| i.kind != "builtin").count(), 4);
}

#[test]
fn file_names_from_titles_are_safe() {
    for title in ["", "...", "a/b:c", " .hidden. ", "\u{7}bell", &"长".repeat(100)] {
        let f = safe_filename(title);
        assert!(!f.is_empty(), "{title}");
        assert!(f.chars().count() <= 80);
        assert!(!f.starts_with('.') && !f.ends_with('.'));
        assert!(!f.chars().any(|c| "/\\:*?\"<>|".contains(c) || c.is_control()));
    }
    assert_eq!(safe_filename(" .hidden. "), "hidden");
    assert_eq!(safe_filename("..."), "untitled");
}

#[test]
fn archives_refuse_only_repeated_names() {
    let ok = write_archive(&vec![
        ArchiveItem::Dir("assets".to_string()),
        ArchiveItem::File("assets/a.png".to_string(), b"x".to_vec()),
        ArchiveItem::File("index.md".to_string(), Vec::new()),
    ]);
    assert!(ok.is_some());
    let dup = write_archive(&vec![
        ArchiveItem::File("index.md".to_string(), b"a".to_vec()),
        ArchiveItem::File("index.md".to_string(), b"b".to_vec()),
    ]);
    assert!(dup.is_none());
}

#[test]
fn stored_media_names_are_a_uuid_and_the_extension() {
    let u = save_media(b"GIF89a\x01\x00\x01\x00\x00\x00\x00;", "anim.GIF").unwrap();
    let name = &u.files[0].name;
    assert_eq!(name.len(), 40);
    assert!(name.ends_with(".gif"));
    assert!(name[..36].chars().enumerate().all(|(i, c)| if [8, 13, 18, 23].contains(&i) {
        c == '-'
    } else {
        c.is_ascii_hexdigit() && !c.is_ascii_uppercase()
    }));
    let other = save_media(b"GIF89a\x01\x00\x01\x00\x00\x00\x00;", "anim.gif").unwrap();
    assert_ne!(other.files[0].name, *name);
    let broken = save_media(b"\x89PNG\r\n\x1a\nnot really", "b.png");
    assert_eq!(broken.err().unwrap(), "图片内容无效");
}

#[test]
fn listed_names_are_the_last_path_component() {
    assert_eq!(sanitize_original_name("photos/trip/"), "trip");
    assert_eq!(sanitize_original_name("a//b.txt"), "b.txt");
    assert_eq!(sanitize_original_name("x.png/./"), "x.png");
    assert_eq!(sanitize_original_name("dir/.."), "file");
    assert_eq!(sanitize_original_name("/"), "file");
    assert_eq!(sanitize_original_name("."), "file");
}

fn spark(content: &str) -> Spark {
    Spark {
        id: 1,
        content_md: content.to_string(),
        content_html: String::new(),
        visibility: "public".to_string(),
        created_at: "2024-03-05T12:00:00Z".to_string(),
        updated_at: String::new(),
    }
}

#[test]
fn default_titles_come_from_the_first_line_or_the_date() {
    assert_eq!(spark("  Hello world\nsecond line").default_title(), "Hello world");
    assert_eq!(spark(&"x".repeat(45)).default_title(), format!("{}…", "x".repeat(40)));
    let blank = spark("   ");
    assert_eq!(blank.default_title(), format!("灵感 {}", blank.short_date()));
    assert_eq!(blank.short_date().len(), 10);
}

#[test]
fn every_existing_upload_link_is_exported() {
    let doc = MarkdownDoc { title: "T", body_md: "![a](/uploads/media/p.png) ![b](/uploads/site/.)" };
    let existing = vec!["/d/media/p.png".to_string(), "/d/site/.".to_string()];
    let plan = MarkdownExporter::plan_doc(&doc, "/d", &existing);
    assert_eq!(plan.md, "# T\n\n![a](assets/p.png) ![b](assets/site)\n");
    assert_eq!(plan.assets.len(), 2);
}

#[test]
fn zip_names_must_fit_sixteen_bits() {
    let longest = "a".repeat(65535);
    assert!(archive_names_fit(&vec![ArchiveItem::File(longest.clone(), Vec::new())]));
    assert!(!archive_names_fit(&vec![ArchiveItem::Dir(longest.clone())]));
    assert!(archive_names_fit(&vec![ArchiveItem::Dir(format!("{}/", "a".repeat(65534)))]));
    assert!(!archive_names_fit(&vec![ArchiveItem::File("é".repeat(32768), Vec::new())]));
    assert!(write_archive(&vec![ArchiveItem::File(longest, b"x".to_vec())]).is_some());
}

#[test]
fn upload_paths_join_like_paths() {
    assert_eq!(upload_file_path("/uploads/media/x.png", "").as_deref(), Some("media/x.png"));
    assert_eq!(upload_file_path("/uploads/site/x.png", "/srv/up/").as_deref(), Some("/srv/up/site/x.png"));
    assert_eq!(upload_file_path("/uploads/posts/x.png", "data").as_deref(), Some("data/posts/x.png"));
}

#[test]
fn only_existing_uploads_resolve() {
    let existing = vec!["/srv/up/media/a.png".to_string()];
    assert_eq!(resolve_upload_file("/uploads/media/a.png", "/srv/up", &existing).as_deref(), Some("/srv/up/media/a.png"));
    assert_eq!(resolve_upload_file("/uploads/media/b.png", "/srv/up", &existing), None);
    assert_eq!(resolve_upload_file("/uploads/media/../a.png", "/srv/up", &existing), None);
}
