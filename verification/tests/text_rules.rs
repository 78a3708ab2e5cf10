use oakis::export::{content_disposition, safe_filename};
use oakis::feed::{urlencoding_minimal, xml_escape};
use oakis::forms::{normalize_slug, status_value, visibility_value};
use oakis::markdown::slugify;
use oakis::models::search::like_pattern;
use oakis::public_pages::{search_base, search_text};
use oakis::upload::{sanitize_asset_url, sanitize_cover_url};

#[test]
fn slugify_lowercases_and_joins_with_dashes() {
    assert_eq!(slugify("Hello, World!"), "hello-world");
    assert_eq!(slugify("  Rust 编程  "), "rust-编程");
    assert_eq!(slugify("a--b__c"), "a-b-c");
}

#[test]
fn slugify_falls_back_to_a_random_post_slug() {
    let s = slugify("!!!");
    assert_eq!(s.len(), 13);
    assert!(s.starts_with("post-"));
    assert!(s[5..].chars().all(|c| c.is_ascii_hexdigit() && !c.is_ascii_uppercase()));
}

#[test]
fn normalize_slug_prefers_the_given_slug() {
    assert_eq!(normalize_slug("My Title", "  "), "my-title");
    assert_eq!(normalize_slug("My Title", " Custom Slug "), "custom-slug");
}

#[test]
fn status_and_visibility_words() {
    assert_eq!(status_value("published"), "published");
    assert_eq!(status_value("Published"), "draft");
    assert_eq!(visibility_value("private"), "private");
    assert_eq!(visibility_value("anything"), "public");
}

#[test]
fn like_pattern_escapes_wildcards() {
    assert_eq!(like_pattern("50%_a\\"), "%50\\%\\_a\\\\%");
    assert_eq!(like_pattern(""), "%%");
}

#[test]
fn query_values_are_percent_encoded() {
    assert_eq!(urlencoding_minimal("a b&c"), "a+b%26c");
    assert_eq!(urlencoding_minimal("中"), "%E4%B8%AD");
    assert_eq!(search_base("rust lang"), "/search?q=rust+lang");
    assert_eq!(search_text(Some("  hello  ")), "hello");
    assert_eq!(search_text(None), "");
    assert_eq!(search_text(Some(&"x".repeat(100))).len(), 80);
}

#[test]
fn xml_is_escaped() {
    assert_eq!(xml_escape("<a href=\"x\">&'</a>"), "&lt;a href=&quot;x&quot;&gt;&amp;&apos;&lt;/a&gt;");
}

#[test]
fn asset_urls_must_name_a_safe_file() {
    assert_eq!(sanitize_asset_url(" /uploads/posts/a-1.png ", "/uploads/posts/"), "/uploads/posts/a-1.png");
    assert_eq!(sanitize_asset_url("/uploads/posts/../x", "/uploads/posts/"), "");
    assert_eq!(sanitize_asset_url("/uploads/posts/", "/uploads/posts/"), "");
    assert_eq!(sanitize_cover_url("/uploads/media/c.jpg"), "/uploads/media/c.jpg");
    assert_eq!(sanitize_cover_url("https://x/y.png"), "");
}

#[test]
fn export_file_names() {
    assert_eq!(safe_filename("a/b:c"), "a_b_c");
    assert_eq!(safe_filename("  ..  "), "untitled");
    assert_eq!(
        content_disposition("报告 1.md"),
        "attachment; filename=\"___1.md\"; filename*=UTF-8''%E6%8A%A5%E5%91%8A%201.md"
    );
}
