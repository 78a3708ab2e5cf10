use oakis::errors::AppError;
use oakis::flash::Flash;
use oakis::forms::{
    check_title_and_slug, plan_page_save, plan_post_save, plan_tax_save, taxonomies_href,
    PageForm, PostFormData, SaveError,
};
use oakis::models::nav::{NavItemConfig, nav_without_page};
use oakis::models::post::{Post, RelatedPostRef};
use oakis::models::spark::Spark;
use oakis::models::taxonomy::Taxonomy;
use oakis::pagination::Pagination;
use oakis::pickers::{picker_exclude, picker_images_only, picker_offset, picker_page};
use oakis::public_pages::split_featured;
use oakis::related::{after_scored, fill_related, pick_manual_related, relation_targets, SuggestNext};
use oakis::spark_forms::{check_spark_capture, check_spark_update, plan_spark_to_post};
use oakis::views::admin::TaxOption;

fn post(id: i64, status: &str, visibility: &str) -> Post {
    Post {
        id,
        title: format!("P{id}"),
        slug: format!("p{id}"),
        summary: String::new(),
        content_md: String::new(),
        content_html: String::new(),
        status: status.to_string(),
        visibility: visibility.to_string(),
        cover_url: None,
        published_at: Some("2024-05-06T07:08:09Z".to_string()),
        created_at: "2024-05-06T07:08:09Z".to_string(),
        updated_at: "2024-05-06T07:08:09Z".to_string(),
    }
}

fn rref(id: i64) -> RelatedPostRef {
    RelatedPostRef {
        id,
        title: format!("R{id}"),
        slug: format!("r{id}"),
        published_at: None,
        created_at: "2024-01-01".to_string(),
    }
}

#[test]
fn pagination_stays_within_the_pages() {
    let p = Pagination::new(Some(5), 10, 25, "/posts");
    assert_eq!(p.page, 3);
    assert_eq!(p.offset(), 20);
    assert_eq!(p.limit(), 10);
    assert_eq!(p.total_pages(), 3);
    assert!(!p.has_next());
    assert!(p.show());
    assert_eq!(p.url_for(2), "/posts?page=2");
    let q = Pagination::new(Some(0), 10, 0, "/search?q=x");
    assert_eq!(q.page, 1);
    assert_eq!(q.url_for(2), "/search?q=x&page=2");
    assert!(!q.show());
}

#[test]
fn errors_and_notices() {
    assert_eq!(AppError::bad_request("坏").user_message(), "坏");
    assert_eq!(AppError::Unauthorized.user_message(), "请先登录");
    assert_eq!(AppError::Internal.user_message(), "服务器繁忙，请稍后重试");
    let page = AppError::Unauthorized.page();
    assert_eq!(page.status, 404);
    assert_eq!(page.message, "页面不存在");
    let page = AppError::not_found("文章不存在").page();
    assert_eq!((page.status, page.title.as_str(), page.message.as_str()), (404, "未找到", "文章不存在"));
    assert_eq!(AppError::Forbidden.page().status, 403);
    assert_eq!(AppError::Internal.page().status, 500);
    let f = Flash::ok("已保存");
    assert_eq!((f.level.as_str(), f.message.as_str()), ("ok", "已保存"));
    assert_eq!(Flash::err("x").level, "err");
}

#[test]
fn title_then_slug_is_checked() {
    assert_eq!(check_title_and_slug("", true), Some(SaveError::TitleEmpty));
    assert_eq!(check_title_and_slug("t", true), Some(SaveError::SlugTaken));
    assert_eq!(check_title_and_slug("t", false), None);
    assert_eq!(SaveError::SlugTaken.message(), "Slug 已被占用");
}

fn form() -> PostFormData {
    let mut f = PostFormData::new();
    f.accept_field("title", "  Hello World  ");
    f.accept_field("status", "published");
    f.accept_field("cover_url", " /uploads/posts/new.png ");
    f.accept_field("tag_ids", "5");
    f.accept_field("category_ids", "2");
    f.accept_field("tag_ids", "5");
    f.accept_field("related_ids", "7");
    f.accept_field("related_ids", "3");
    f.accept_field("related_ids", "7");
    f.finish();
    f
}

#[test]
fn post_form_is_read_field_by_field() {
    let f = form();
    assert_eq!(f.title, "Hello World");
    assert_eq!(f.visibility, "public");
    assert_eq!(f.taxonomy_ids, vec![2, 5]);
    assert_eq!(f.related_ids, vec![7, 3]);
}

#[test]
fn saving_a_new_post() {
    let s = plan_post_save(form(), None, "", "2024-01-01T00:00:00Z".to_string());
    assert_eq!(s.slug, "hello-world");
    assert_eq!(s.status, "published");
    assert_eq!(s.cover_url, "/uploads/posts/new.png");
    assert!(s.delete_cover.is_none());
    assert_eq!(s.form_action, "/admin/posts/new");
    assert_eq!(s.related_ids, vec![7, 3]);
}

#[test]
fn editing_a_post_replaces_its_cover_and_drops_itself() {
    let s = plan_post_save(form(), Some(3), "/uploads/posts/old.png", String::new());
    assert_eq!(s.cover_url, "/uploads/posts/new.png");
    assert_eq!(s.delete_cover, Some("/uploads/posts/old.png".to_string()));
    assert_eq!(s.related_ids, vec![7]);
    assert_eq!(s.form_action, "/admin/posts/3/edit");
}

#[test]
fn pages_and_taxonomies() {
    let p = plan_page_save(
        PageForm {
            title: " About ".to_string(),
            slug: String::new(),
            content_md: "x".to_string(),
            status: "draft".to_string(),
            visibility: "private".to_string(),
        },
        Some(4),
    );
    assert_eq!(p.title, "About");
    assert_eq!(p.slug, "about");
    assert_eq!(p.visibility, "private");
    assert_eq!(p.form_action, "/admin/pages/4/edit");
    let t = plan_tax_save("tag", "  Rust Lang ", "");
    assert_eq!((t.kind, t.name.as_str(), t.slug.as_str()), ("tag", "Rust Lang", "rust-lang"));
    assert_eq!(plan_tax_save("weird", "x", "").kind, "category");
    assert_eq!(taxonomies_href("tag"), "/admin/taxonomies?kind=tag");
}

#[test]
fn deleting_a_page_drops_it_from_the_menu() {
    let item = |page_id: Option<i64>| NavItemConfig {
        kind: if page_id.is_some() { "page" } else { "builtin" }.to_string(),
        key: String::new(),
        page_id,
        label: String::new(),
        url: String::new(),
        visibility: "public".to_string(),
    };
    let (rest, changed) = nav_without_page(vec![item(None), item(Some(3)), item(Some(4))], 3);
    assert!(changed);
    assert_eq!(rest.len(), 2);
    assert_eq!(rest[1].page_id, Some(4));
    let (rest, changed) = nav_without_page(vec![item(None)], 3);
    assert!(!changed);
    assert_eq!(rest.len(), 1);
}

#[test]
fn spark_rules() {
    assert_eq!(check_spark_capture("   "), Err(("写点什么再保存", String::new())));
    assert_eq!(check_spark_capture(" hi "), Ok("hi".to_string()));
    let long = "字".repeat(5001);
    assert_eq!(check_spark_capture(&long).unwrap_err().0, "太长了，请控制在 5000 字以内");
    assert_eq!(check_spark_update(""), Err("内容不能为空"));
    let spark = Spark {
        id: 12,
        content_md: "First line\nmore".to_string(),
        content_html: String::new(),
        visibility: "public".to_string(),
        created_at: "2024-01-01T00:00:00Z".to_string(),
        updated_at: String::new(),
    };
    let p = plan_spark_to_post(spark, "  ", "").unwrap();
    assert_eq!(p.content_md, "First line\nmore");
    assert_eq!(p.visibility, "public");
    assert_eq!(p.title, "First line");
    assert!(p.slug.starts_with("spark-12-"));
    assert_eq!(p.slug.len(), "spark-12-".len() + 8);
}

#[test]
fn relations_skip_self_duplicates_and_missing_posts() {
    assert_eq!(relation_targets(1, &vec![1, 2, 3, 2, 9, 4], &vec![2, 3, 4]), vec![2, 3, 4]);
    let many: Vec<i64> = (10..30).collect();
    assert_eq!(relation_targets(1, &many, &many).len(), 8);
}

#[test]
fn readers_see_hand_picked_then_suggested_posts() {
    let manual = vec![post(2, "published", "public"), post(3, "draft", "public"), post(4, "published", "private"), post(1, "published", "public"), post(2, "published", "public"), post(5, "published", "public")];
    let (mut shown, seen) = pick_manual_related(1, &manual, false, 5);
    assert_eq!(shown.iter().map(|r| r.id).collect::<Vec<_>>(), vec![2, 5]);
    assert_eq!(seen, vec![1, 2, 5]);
    fill_related(&mut shown, &seen, vec![rref(5), rref(6), rref(6), rref(7), rref(8), rref(9)], 4);
    assert_eq!(shown.iter().map(|r| r.id).collect::<Vec<_>>(), vec![2, 5, 6, 7]);
    let (shown, _) = pick_manual_related(1, &manual, true, 5);
    assert_eq!(shown.iter().map(|r| r.id).collect::<Vec<_>>(), vec![2, 4, 5]);
}

#[test]
fn scored_suggestions_then_recent_posts() {
    match after_scored(vec![rref(1), rref(2), rref(3)], &vec![9], 2) {
        SuggestNext::Done(v) => assert_eq!(v.len(), 2),
        _ => panic!("expected enough suggestions"),
    }
    match after_scored(vec![rref(1)], &vec![9], 3) {
        SuggestNext::Recent { scored, exclude, need } => {
            assert_eq!(scored.len(), 1);
            assert_eq!(exclude, vec![9, 1]);
            assert_eq!(need, 2);
        }
        _ => panic!("expected recent posts"),
    }
}

#[test]
fn pickers() {
    assert!(picker_images_only(None));
    assert!(!picker_images_only(Some(" all ")));
    assert!(picker_images_only(Some("images")));
    assert_eq!(picker_page(Some(0)), 1);
    assert_eq!(picker_page(Some(3)), 3);
    assert_eq!(picker_offset(3, 24), 48);
    assert_eq!(picker_exclude(Some(-1)), None);
    assert_eq!(picker_exclude(Some(4)), Some(4));
}

#[test]
fn tax_options_are_ticked_when_selected() {
    let t = |id: i64, name: &str| Taxonomy {
        id,
        scope: "post".to_string(),
        kind: "tag".to_string(),
        name: name.to_string(),
        slug: name.to_string(),
        created_at: String::new(),
    };
    let opts = TaxOption::from_list(vec![t(1, "a"), t(2, "b")], &vec![2]);
    assert_eq!(opts.len(), 2);
    assert_eq!((opts[0].id, opts[0].checked), (1, false));
    assert_eq!((opts[1].name.as_str(), opts[1].checked), ("b", true));
}

#[test]
fn home_features_the_newest_post_on_page_one() {
    let (rest, featured) = split_featured(1, Vec::new());
    assert!(rest.is_empty() && featured.is_none());
}
