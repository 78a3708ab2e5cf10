use oakis::md_render::{render_markdown, render_markdown_with_toc};

#[test]
fn renders_gfm_tables_with_scroll_wrapper_and_alignment() {
    let md = "\
| A | B | C |
|:-|:-:|--:|
| 1 | 2 | 3 |
";
    let html = render_markdown(md);
    assert!(html.contains(r#"class="md-table""#));
    assert!(html.contains("<table>"));
    assert!(html.contains("</table></div>") || html.contains("</table>\n</div>"));
    assert!(html.contains("<thead>"));
    assert!(html.contains("<tbody>"));
    assert!(
        html.contains(r#"style="text-align:center""#)
            || html.contains(r#"style="text-align: center""#)
    );
    assert!(
        html.contains(r#"style="text-align:right""#)
            || html.contains(r#"style="text-align: right""#)
    );
}

#[test]
fn preserves_task_lists() {
    let html = render_markdown("- [ ] todo\n- [x] done\n");
    assert!(html.contains(r#"type="checkbox""#));
    assert!(html.contains("disabled"));
    assert!(html.contains("checked"));
    assert!(!html.contains(r#"type="text""#));
}

#[test]
fn preserves_footnotes_and_fragment_links() {
    let md = "See note[^1].\n\n[^1]: Foot body\n";
    let html = render_markdown(md);
    assert!(html.contains(r#"class="footnote-reference""#));
    assert!(html.contains(r#"class="footnote-definition""#));
    assert!(html.contains(r##"href="#1""##) || html.contains(r##"href="#fn1""##));
    assert!(html.contains(r##"id="1""##) || html.contains(r##"id="fn1""##));
}

#[test]
fn preserves_site_and_fragment_links_strips_protocol_relative() {
    let html = render_markdown(
        "[post](/posts/hello) [sec](#section) [bad](//evil.example/x) [ok](https://example.com)\n",
    );
    assert!(html.contains(r#"href="/posts/hello""#));
    assert!(html.contains(r##"href="#section""##));
    assert!(html.contains(r#"href="https://example.com""#));
    assert!(!html.contains("//evil.example"));
}

#[test]
fn preserves_strikethrough() {
    let html = render_markdown("~~gone~~\n");
    assert!(html.contains("<del>") || html.contains("<s>"));
}

#[test]
fn forces_task_checkbox_disabled_even_from_raw_html() {
    let html = render_markdown(r#"<input type="checkbox">"#);
    if html.contains("checkbox") {
        assert!(html.contains("disabled"));
    }
    let html2 = render_markdown(r#"<input type="text" name="x">"#);
    assert!(!html2.contains(r#"type="text""#));
    assert!(!html2.contains("name="));
}

#[test]
fn headings_get_unique_anchors_and_toc() {
    let (html, toc) = render_markdown_with_toc("## Intro\n\ntext\n\n## Intro\n\n### Deep *dive*\n\n# Top\n");
    assert_eq!(toc.len(), 3);
    assert_eq!(toc[0].level, 2);
    assert_eq!(toc[0].id, "intro");
    assert_eq!(toc[0].text, "Intro");
    assert_eq!(toc[1].id, "intro-2");
    assert_eq!(toc[2].level, 3);
    assert_eq!(toc[2].id, "deep-dive");
    assert_eq!(toc[2].text, "Deep dive");
    assert!(html.contains(r#"<h2 id="intro">"#));
    assert!(html.contains(r#"<h2 id="intro-2">"#));
    assert!(html.contains(r#"<h3 id="deep-dive">"#));
    assert!(!html.contains("<h1 id="));
}

#[test]
fn upload_links_are_kept_only_when_safe() {
    let html = render_markdown("![a](/uploads/media/a.png) [b](/uploads/media/../x) [c](javascript:alert(1))\n");
    assert!(html.contains(r#"src="/uploads/media/a.png""#));
    assert!(!html.contains("../x"));
    assert!(!html.contains("javascript:"));
}
