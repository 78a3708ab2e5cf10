use oakis::config::{env_flag, origin_setting, sqlite_url};
use oakis::errors::AppError;
use oakis::markdown::slugify;
use oakis::models::page::Page;
use oakis::public_pages::{page_access, taxonomy_missing, taxonomy_path};

#[test]
fn switches() {
    assert!(env_flag("TRUE"));
    assert!(env_flag("on"));
    assert!(env_flag("1"));
    assert!(!env_flag("no"));
    assert!(!env_flag(" true"));
}

#[test]
fn public_origin() {
    assert_eq!(origin_setting(None), Ok(None));
    assert_eq!(origin_setting(Some("  ")), Ok(None));
    assert_eq!(origin_setting(Some(" https://example.com// ")), Ok(Some("https://example.com".to_string())));
    assert_eq!(origin_setting(Some("example.com")), Err("OAKIS_PUBLIC_ORIGIN 必须以 http:// 或 https:// 开头"));
}

#[test]
fn database_file_url() {
    assert_eq!(sqlite_url("data\\oakis.db"), "sqlite:data/oakis.db?mode=rwc");
}

#[test]
fn slugs_made_by_the_site_are_kept() {
    for title in ["Hello, World!", "Déjà vu -- again", "a__b", "  Rust 编程  "] {
        let once = slugify(title);
        assert_eq!(slugify(&once), once);
    }
}

#[test]
fn pages_and_taxonomies_for_guests() {
    let page = |status: &str, visibility: &str| Page {
        id: 1,
        title: "About".to_string(),
        slug: "about".to_string(),
        content_md: String::new(),
        status: status.to_string(),
        visibility: visibility.to_string(),
        show_in_nav: 0,
        created_at: String::new(),
        updated_at: String::new(),
    };
    assert!(page_access(Some(&page("published", "public")), false).is_ok());
    assert!(page_access(Some(&page("draft", "public")), false).is_err());
    assert!(page_access(Some(&page("draft", "public")), true).is_ok());
    assert!(page_access(None, true).is_err());
    assert_eq!(taxonomy_path("tag", "rust"), "/tags/rust");
    assert_eq!(taxonomy_path("category", "notes"), "/categories/notes");
    match taxonomy_missing("标签") {
        AppError::NotFound(m) => assert_eq!(m, "标签不存在"),
        _ => panic!("expected not found"),
    }
}
