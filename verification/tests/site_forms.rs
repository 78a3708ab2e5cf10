use oakis::admin_forms::{apply_settings_form, assemble_nav_items, FormFields};
use oakis::feed::{month_abbr, posts_index_filter, public_origin, rfc822_date, rfc822_ok, rss_document, PostsFilter};
use oakis::models::nav::{resolve_nav_items, NavItemConfig, NavPageRef};
use oakis::models::post::Post;
use oakis::models::settings::SiteSettings;
use oakis::timefmt::{form_local_or, format_local, kb_time_label, parse_stored_utc};

fn cfg(kind: &str, key: &str, page_id: Option<i64>, label: &str, url: &str, visibility: &str) -> NavItemConfig {
    NavItemConfig {
        kind: kind.to_string(),
        key: key.to_string(),
        page_id,
        label: label.to_string(),
        url: url.to_string(),
        visibility: visibility.to_string(),
    }
}

fn keys(items: &[NavItemConfig]) -> Vec<(String, String, String)> {
    items.iter().map(|i| (i.kind.clone(), i.key.clone(), i.label.clone())).collect()
}

#[test]
fn settings_form_is_read_and_checked() {
    let current = SiteSettings::default();
    let body = b"site_title=+My+Blog+&site_tagline=t&author_name=Ann&site_access=private\
&social_kind=github&social_label=&social_url=github.com%2Fann\
&social_kind=email&social_label=Mail&social_url=a%40b.c\
&social_kind=site&social_label=x&social_url=+\
&logo_url=%2Fuploads%2Fsite%2Flogo.png&favicon_url=%2Fother%2Ff.ico\
&gongan_beian_url=ftp%3A%2F%2Fx";
    let saved = match apply_settings_form(&current, &FormFields::parse(body)) {
        Ok(s) => s,
        Err(r) => panic!("refused: {}", r.message),
    };
    let s = &saved.settings;
    assert_eq!(s.site_title, "My Blog");
    assert_eq!(s.author_name, "Ann");
    assert_eq!(s.site_access, "private");
    assert_eq!(s.logo_url, "/uploads/site/logo.png");
    assert_eq!(s.favicon_url, "");
    assert_eq!(s.gongan_beian_url, "");
    let links: Vec<(&str, &str, &str)> =
        s.social_links.iter().map(|l| (l.kind.as_str(), l.label.as_str(), l.url.as_str())).collect();
    assert_eq!(
        links,
        vec![("github", "GitHub", "https://github.com/ann"), ("email", "Mail", "mailto:a@b.c")]
    );
    assert!(saved.delete_files.is_empty());

    let mut with_logo = SiteSettings::default();
    with_logo.logo_url = "/uploads/site/old.png".into();
    let body = b"site_title=T&author_name=A&logo_url=%2Fuploads%2Fsite%2Fnew.png";
    let saved = apply_settings_form(&with_logo, &FormFields::parse(body)).ok().unwrap();
    assert_eq!(saved.settings.logo_url, "/uploads/site/new.png");
    assert_eq!(saved.delete_files, vec!["/uploads/site/old.png".to_string()]);

    let rejected = apply_settings_form(&current, &FormFields::parse(b"site_title=+&author_name=A")).err().unwrap();
    assert_eq!(rejected.message, "站点标题不能为空");
    assert_eq!(rejected.settings.site_title, "oakis");
    let rejected = apply_settings_form(&current, &FormFields::parse(b"site_title=T&author_name=")).err().unwrap();
    assert_eq!(rejected.message, "作者名不能为空");

    let mut many = String::from("site_title=New&author_name=A&site_access=maintenance");
    for _ in 0..13 {
        many.push_str("&social_url=https%3A%2F%2Fx.org");
    }
    let rejected = apply_settings_form(&current, &FormFields::parse(many.as_bytes())).err().unwrap();
    assert_eq!(rejected.message, "社交链接最多 12 条");
    assert_eq!(rejected.settings.site_title, "New");
    assert_eq!(rejected.settings.site_access, "maintenance");
}

#[test]
fn menu_items_resolve_for_readers() {
    let configs = vec![
        cfg("builtin", "home", None, "", "", "public"),
        cfg("builtin", "posts", None, "Blog", "", "private"),
        cfg("page", "", Some(7), "", "", "public"),
        cfg("page", "", Some(8), "", "", "public"),
        cfg("custom", "", None, "X", "https://x.org", "public"),
        cfg("custom", "", None, "Bad", "javascript:alert(1)", "public"),
        cfg("builtin", "docs", None, "", "", "hidden"),
    ];
    let pages = vec![
        NavPageRef { id: 7, title: "About".into(), slug: "about".into(), visibility: "public".into() },
        NavPageRef { id: 8, title: "Me".into(), slug: "me".into(), visibility: "private".into() },
    ];
    let view = |logged_in: bool, path: &str| -> Vec<(String, String, bool, bool)> {
        resolve_nav_items(&configs, &pages, logged_in, path)
            .into_iter()
            .map(|v| (v.label, v.href, v.active, v.external))
            .collect()
    };
    let s = |x: &str| x.to_string();
    assert_eq!(
        view(false, "/p/about"),
        vec![
            (s("首页"), s("/"), false, false),
            (s("About"), s("/p/about"), true, false),
            (s("X"), s("https://x.org"), false, true),
        ]
    );
    assert_eq!(
        view(true, "/tags/rust"),
        vec![
            (s("首页"), s("/"), false, false),
            (s("Blog"), s("/posts"), true, false),
            (s("About"), s("/p/about"), false, false),
            (s("Me"), s("/p/me"), false, false),
            (s("X"), s("https://x.org"), false, true),
        ]
    );
}

#[test]
fn stored_menus_are_normalized() {
    let raw = vec![
        cfg("builtin", " POSTS ", None, "  P  ", "", "public"),
        cfg("builtin", "posts", None, "again", "", "public"),
        cfg("builtin", "nowhere", None, "", "", "public"),
        cfg("page", "", Some(0), "", "", "public"),
        cfg("custom", "", None, "", "/a", "weird"),
    ];
    let out = NavItemConfig::normalize_list(raw);
    let s = |x: &str| x.to_string();
    assert_eq!(
        keys(&out),
        vec![
            (s("builtin"), s("home"), s("")),
            (s("builtin"), s("docs"), s("")),
            (s("builtin"), s("sparks"), s("")),
            (s("builtin"), s("posts"), s("P")),
            (s("custom"), s(""), s("链接")),
        ]
    );
    assert_eq!(out[4].url, "/a");
    assert_eq!(out[4].visibility, "public");
    assert_eq!(keys(&NavItemConfig::normalize_list(Vec::new())), keys(&NavItemConfig::system_defaults()));
}

#[test]
fn menu_form_rows_are_checked() {
    let body = b"nav_type=builtin&nav_key=home&nav_label=Start&nav_page_id=&nav_url=&nav_enabled=on\
&nav_type=custom&nav_key=&nav_label=Ext&nav_page_id=&nav_url=https%3A%2F%2Fe.org&nav_enabled=0";
    let items = assemble_nav_items(&FormFields::parse(body)).ok().unwrap();
    let s = |x: &str| x.to_string();
    assert_eq!(
        keys(&items),
        vec![
            (s("builtin"), s("posts"), s("")),
            (s("builtin"), s("docs"), s("")),
            (s("builtin"), s("sparks"), s("")),
            (s("builtin"), s("home"), s("Start")),
            (s("custom"), s(""), s("Ext")),
        ]
    );
    assert_eq!(items[4].visibility, "hidden");

    let body = b"nav_type=page&nav_page_id=abc&nav_type=custom&nav_url=ftp%3A%2F%2Fx";
    let (message, echo) = assemble_nav_items(&FormFields::parse(body)).err().unwrap();
    assert_eq!(message, "请为页面导航选择页面");
    assert_eq!(echo.iter().filter(|i| i.kind == "page").count(), 1);
    let body = b"nav_type=custom&nav_url=ftp%3A%2F%2Fx";
    let (message, _) = assemble_nav_items(&FormFields::parse(body)).err().unwrap();
    assert_eq!(message, "请填写有效链接（https:// 或 /path）");

    let mut many = String::new();
    for _ in 0..17 {
        many.push_str("nav_type=builtin&");
    }
    let (message, echo) = assemble_nav_items(&FormFields::parse(many.as_bytes())).err().unwrap();
    assert_eq!(message, "导航最多 16 项");
    assert_eq!(keys(&echo), keys(&NavItemConfig::system_defaults()));
}

fn feed_post(title: &str, summary: &str, published: Option<&str>) -> Post {
    Post {
        id: 1,
        title: title.into(),
        slug: "hello".into(),
        summary: summary.into(),
        content_md: String::new(),
        content_html: String::new(),
        status: "published".into(),
        visibility: "public".into(),
        cover_url: None,
        published_at: published.map(str::to_string),
        created_at: "2023-01-02T03:04:05Z".into(),
        updated_at: "2023-01-02T03:04:05Z".into(),
    }
}

#[test]
fn feed_dates_and_document() {
    assert_eq!(rfc822_date("2024-05-06T07:08:09Z"), "06 May 2024 00:00:00 +0000");
    assert_eq!(rfc822_date("2024-12"), "2024-12");
    assert_eq!(month_abbr("13"), "Jan");
    assert_eq!(month_abbr("11"), "Nov");
    assert!(rfc822_ok("2024-05-06"));
    assert!(!rfc822_ok("2024-0é-06xx"));

    let posts = vec![feed_post("A & B", "", Some("2024-05-06T07:08:09Z")), feed_post("C", "<s>", None)];
    let doc = rss_document("Site", "", "Desc", "https://ex.org", &posts);
    assert_eq!(
        doc,
        "<?xml version=\"1.0\" encoding=\"UTF-8\"?><rss version=\"2.0\"><channel><title>Site</title>\
<link>https://ex.org/</link><description>Desc</description>\
<item><title>A &amp; B</title><link>https://ex.org/posts/hello</link><guid>https://ex.org/posts/hello</guid>\
<description>A &amp; B</description><pubDate>06 May 2024 00:00:00 +0000</pubDate></item>\
<item><title>C</title><link>https://ex.org/posts/hello</link><guid>https://ex.org/posts/hello</guid>\
<description>&lt;s&gt;</description><pubDate>02 Jan 2023 00:00:00 +0000</pubDate></item>\
</channel></rss>"
    );
}

#[test]
fn feed_origin_and_post_filter() {
    assert_eq!(public_origin(Some("https://site.org"), Some("h"), Some("https"), true), "https://site.org");
    assert_eq!(public_origin(None, Some("h:8080"), Some("https"), true), "https://h:8080");
    assert_eq!(public_origin(None, Some("h"), Some("https"), false), "http://h");
    assert_eq!(public_origin(None, None, None, true), "http://localhost");

    let (f, base, which) = posts_index_filter(None);
    assert_eq!((f.as_str(), base.as_str()), ("", "/posts"));
    assert_eq!(which, PostsFilter::All);
    let (f, base, which) = posts_index_filter(Some("  -  "));
    assert_eq!((f.as_str(), base.as_str()), ("-", "/posts?c=-"));
    assert_eq!(which, PostsFilter::Uncategorized);
    let (f, base, which) = posts_index_filter(Some(" rust tips "));
    assert_eq!((f.as_str(), base.as_str()), ("rust tips", "/posts?c=rust+tips"));
    assert_eq!(which, PostsFilter::Category("rust tips".into()));
}

#[test]
fn stored_times_are_read() {
    assert_eq!(parse_stored_utc("2024-05-06T07:08:09Z"), Some(1714979289));
    assert_eq!(parse_stored_utc("2024-05-06T15:08:09+08:00"), Some(1714979289));
    assert_eq!(parse_stored_utc("2024-05-06 07:08"), Some(1714979280));
    assert_eq!(parse_stored_utc("2024-05-06T07:08"), Some(1714979280));
    assert_eq!(parse_stored_utc("yesterday"), None);
    assert_eq!(format_local("   "), "");
    assert_eq!(format_local("2024-13-45T99:99:99Z"), "2024-13-45 99:99");
    assert_eq!(form_local_or("2024-05-06T07:08:09Z", " 2024-05-06T09:30 "), "2024-05-06T09:30");
    assert_eq!(form_local_or("2024-05-06T07:08:09Z", "2024-05-06T09:30:15"), "2024-05-06T09:30");
}

#[test]
fn doc_times_are_labelled_by_day() {
    let label = |date: (i32, u32, u32), today: (i32, u32, u32)| kb_time_label(date, today, "07:08", "05-06 07:08", "2023-05-06 07:08");
    assert_eq!(label((2024, 5, 6), (2024, 5, 6)), "今天 07:08");
    assert_eq!(label((2024, 5, 5), (2024, 5, 6)), "昨天 07:08");
    assert_eq!(label((2024, 2, 29), (2024, 3, 1)), "昨天 07:08");
    assert_eq!(label((2023, 2, 28), (2023, 3, 1)), "昨天 07:08");
    assert_eq!(label((2023, 12, 31), (2024, 1, 1)), "昨天 07:08");
    assert_eq!(label((2024, 1, 2), (2024, 3, 1)), "05-06 07:08");
    assert_eq!(label((2023, 5, 6), (2024, 3, 1)), "2023-05-06 07:08");
}

#[test]
fn settings_read_back_as_saved() {
    let mut s = SiteSettings::default();
    s.site_title = "T".into();
    s.site_tagline = "tag".into();
    s.author_name = "Ann".into();
    s.avatar_url = "/uploads/media/a.png".into();
    s.logo_url = "/uploads/site/l.png".into();
    s.seo_keywords = "k".into();
    s.icp_beian = "icp".into();
    s.gongan_beian_url = "https://beian.example".into();
    s.footer_text = "f".into();
    s.site_access = "maintenance".into();
    let rows: Vec<(String, String)> = s.stored_rows().into_iter().map(|(k, v)| (k.to_string(), v)).collect();
    assert_eq!(rows.len(), 14);
    assert_eq!(rows[0], ("site_title".to_string(), "T".to_string()));
    assert_eq!(rows[13], ("site_access".to_string(), "maintenance".to_string()));
    let back = SiteSettings::from_rows(&rows);
    let text = |x: &SiteSettings| {
        vec![
            x.site_title.clone(),
            x.site_tagline.clone(),
            x.author_name.clone(),
            x.avatar_url.clone(),
            x.logo_url.clone(),
            x.favicon_url.clone(),
            x.seo_keywords.clone(),
            x.seo_description.clone(),
            x.icp_beian.clone(),
            x.gongan_beian.clone(),
            x.gongan_beian_url.clone(),
            x.footer_copyright.clone(),
            x.footer_text.clone(),
            x.site_access.clone(),
        ]
    };
    assert_eq!(text(&back), text(&s));

    let stored = vec![
        ("avatar_url".to_string(), "/etc/passwd".to_string()),
        ("site_access".to_string(), " private ".to_string()),
        ("gongan_beian_url".to_string(), "javascript:x".to_string()),
        ("unknown".to_string(), "x".to_string()),
        ("site_title".to_string(), "first".to_string()),
        ("site_title".to_string(), "second".to_string()),
    ];
    let loaded = SiteSettings::from_rows(&stored);
    assert_eq!(loaded.avatar_url, "");
    assert_eq!(loaded.site_access, "private");
    assert_eq!(loaded.gongan_beian_url, "");
    assert_eq!(loaded.site_title, "second");
    assert_eq!(loaded.author_name, "");
}
