use medium_html::document::{
    group_lists, group_step, join, render_body, render_document, render_page, Fragment, PAGE_HEAD,
    PAGE_TAIL,
};
use medium_html::html::{markup_html, paragraph_html, Html, TagType};
use medium_html::model::{BlockKind, Markup, Metadata, Paragraph, RenderError};
use medium_html::normalize::{
    has_prefix, normalize, normalize_paragraph, rewrite_href, strip_image_ref,
};
use medium_html::render::render_paragraph;

fn para(text: &str, kind: BlockKind, markups: Vec<Markup>) -> Paragraph {
    Paragraph { text: text.to_string(), kind, markups, layout: None, metadata: None }
}

fn span(start: usize, end: usize, kind: BlockKind) -> Markup {
    Markup { start, end, kind, href: None }
}

fn link(start: usize, end: usize, href: &str) -> Markup {
    Markup { start, end, kind: BlockKind::Link, href: Some(href.to_string()) }
}

fn image(caption: &str, image_ref: &str) -> Paragraph {
    Paragraph {
        text: caption.to_string(),
        kind: BlockKind::Image,
        markups: vec![],
        layout: None,
        metadata: Some(Metadata { image_ref: image_ref.to_string() }),
    }
}

fn frag(kind: BlockKind, html: &str) -> Fragment {
    Fragment { kind, html: html.to_string() }
}

#[test]
fn tags_of_each_element() {
    assert_eq!(Html::Paragraph.tag(TagType::Open), "<p>");
    assert_eq!(Html::Paragraph.tag(TagType::Close), "</p>");
    assert_eq!(Html::Header3.tag(TagType::Open), "<h3>");
    assert_eq!(Html::Header4.tag(TagType::Close), "</h4>");
    assert_eq!(Html::Code.tag(TagType::Open), "<code>");
    assert_eq!(Html::Preformatted.tag(TagType::Close), "</pre>");
    assert_eq!(Html::ListItem.tag(TagType::Open), "<li>");
    assert_eq!(Html::Quote.tag(TagType::Open), "<blockquote>");
    assert_eq!(Html::Link("u".to_string()).tag(TagType::Open), "<a href=\"u\">");
    assert_eq!(Html::Link("u".to_string()).tag(TagType::Close), "</a>");
    assert_eq!(
        Html::Image("s".to_string()).tag(TagType::Open),
        "<figure><img src=\"s\"><figcaption>"
    );
    assert_eq!(Html::Image("s".to_string()).tag(TagType::Close), "</figcaption></figure>");
}

#[test]
fn plain_paragraph_is_wrapped_verbatim() {
    let p = para("a <b> & c", BlockKind::Paragraph, vec![]);
    assert_eq!(render_paragraph(&p).unwrap(), "<p>a <b> & c</p>");
    let h = para("Title", BlockKind::Header3, vec![]);
    assert_eq!(render_paragraph(&h).unwrap(), "<h3>Title</h3>");
    let q = para("said", BlockKind::Quote, vec![]);
    assert_eq!(render_paragraph(&q).unwrap(), "<blockquote>said</blockquote>");
}

#[test]
fn empty_paragraph_renders_empty_element() {
    let p = para("", BlockKind::Header4, vec![]);
    assert_eq!(render_paragraph(&p).unwrap(), "<h4></h4>");
}

#[test]
fn nested_markups_render_nested_tags() {
    let p = para(
        "hello world",
        BlockKind::Paragraph,
        vec![link(0, 11, "https://x.test"), span(0, 5, BlockKind::Code)],
    );
    assert_eq!(
        render_paragraph(&p).unwrap(),
        "<p><a href=\"https://x.test\"><code>hello</code> world</a></p>"
    );
}

#[test]
fn disjoint_markups_in_any_order() {
    let p = para(
        "ab cd",
        BlockKind::Paragraph,
        vec![span(3, 5, BlockKind::Code), span(0, 2, BlockKind::Quote)],
    );
    assert_eq!(
        render_paragraph(&p).unwrap(),
        "<p><blockquote>ab</blockquote> <code>cd</code></p>"
    );
}

#[test]
fn tags_at_one_offset_keep_list_order() {
    let p = para(
        "ab",
        BlockKind::Paragraph,
        vec![span(0, 2, BlockKind::Code), span(0, 2, BlockKind::Quote)],
    );
    assert_eq!(
        render_paragraph(&p).unwrap(),
        "<p><code><blockquote>ab</code></blockquote></p>"
    );
}

#[test]
fn empty_markup_range() {
    let p = para("ab", BlockKind::Paragraph, vec![span(1, 1, BlockKind::Code)]);
    assert_eq!(render_paragraph(&p).unwrap(), "<p>a<code></code>b</p>");
}

#[test]
fn offsets_count_characters_not_bytes() {
    let p = para("é€ab", BlockKind::Paragraph, vec![span(2, 3, BlockKind::Code)]);
    assert_eq!(render_paragraph(&p).unwrap(), "<p>é€<code>a</code>b</p>");
    let q = para("a😀b", BlockKind::ListItem, vec![span(1, 2, BlockKind::Code)]);
    assert_eq!(render_paragraph(&q).unwrap(), "<li>a<code>😀</code>b</li>");
}

#[test]
fn markup_at_text_end() {
    let p = para("abc", BlockKind::Paragraph, vec![span(1, 3, BlockKind::Code)]);
    assert_eq!(render_paragraph(&p).unwrap(), "<p>a<code>bc</code></p>");
}

#[test]
fn link_paragraph_is_unsupported() {
    let p = para("x", BlockKind::Link, vec![]);
    assert_eq!(render_paragraph(&p), Err(RenderError::UnsupportedMarkupKind));
}

#[test]
fn image_markup_is_unsupported() {
    let p = para("xy", BlockKind::Paragraph, vec![span(0, 1, BlockKind::Image)]);
    assert_eq!(render_paragraph(&p), Err(RenderError::UnsupportedMarkupKind));
}

#[test]
fn image_without_metadata_is_missing_association() {
    let p = para("cap", BlockKind::Image, vec![]);
    assert_eq!(render_paragraph(&p), Err(RenderError::MissingRequiredAssociation));
}

#[test]
fn link_without_href_is_missing_association() {
    let p = para("xy", BlockKind::Paragraph, vec![span(0, 1, BlockKind::Link)]);
    assert_eq!(render_paragraph(&p), Err(RenderError::MissingRequiredAssociation));
}

#[test]
fn out_of_range_markup_is_malformed() {
    let p = para("ab", BlockKind::Paragraph, vec![span(1, 3, BlockKind::Code)]);
    assert_eq!(render_paragraph(&p), Err(RenderError::MalformedInput));
    let q = para("ab", BlockKind::Paragraph, vec![span(2, 1, BlockKind::Code)]);
    assert_eq!(render_paragraph(&q), Err(RenderError::MalformedInput));
}

#[test]
fn first_failing_markup_decides_the_error() {
    let p = para(
        "ab",
        BlockKind::Paragraph,
        vec![span(0, 9, BlockKind::Code), span(0, 1, BlockKind::Image)],
    );
    assert_eq!(render_paragraph(&p), Err(RenderError::MalformedInput));
}

#[test]
fn element_resolution() {
    assert!(matches!(paragraph_html(&para("", BlockKind::Code, vec![])), Ok(Html::Code)));
    match paragraph_html(&image("", "abc")) {
        Ok(Html::Image(src)) => assert_eq!(src, "https://miro.medium.com/v2/format:webp/abc"),
        _ => panic!("expected an image"),
    }
    match markup_html(&link(0, 1, "u")) {
        Ok(Html::Link(href)) => assert_eq!(href, "u"),
        _ => panic!("expected a link"),
    }
}

#[test]
fn image_ref_is_stripped_and_used_as_source() {
    assert_eq!(strip_image_ref("ImageMetadata:abc123"), "abc123");
    assert_eq!(strip_image_ref("abc123"), "abc123");
    let p = normalize_paragraph(&image("A cat", "ImageMetadata:abc123")).unwrap();
    assert_eq!(p.metadata.as_ref().unwrap().image_ref, "abc123");
    assert_eq!(
        render_paragraph(&p).unwrap(),
        "<figure><img src=\"https://miro.medium.com/v2/format:webp/abc123\"><figcaption>A cat</figcaption></figure>"
    );
}

#[test]
fn archive_href_is_rewritten() {
    assert_eq!(
        rewrite_href("https://web.archive.org/web/20200101000000/https://example.com/x").unwrap(),
        "https://example.com/x"
    );
    assert_eq!(rewrite_href("https://example.com/x").unwrap(), "https://example.com/x");
}

#[test]
fn archive_href_without_separator_is_malformed() {
    assert_eq!(rewrite_href("https://web.archive.org/web/2020"), Err(RenderError::MalformedHref));
}

#[test]
fn rewriting_twice_equals_once() {
    let once =
        rewrite_href("https://web.archive.org/web/20200101000000/https://example.com/x").unwrap();
    assert_eq!(rewrite_href(&once).unwrap(), once);
    let stripped = strip_image_ref("ImageMetadata:abc");
    assert_eq!(strip_image_ref(&stripped), stripped);
}

#[test]
fn prefix_test() {
    assert!(has_prefix("abc", "ab"));
    assert!(has_prefix("abc", ""));
    assert!(!has_prefix("ab", "abc"));
    assert!(!has_prefix("xbc", "ab"));
}

#[test]
fn normalize_rewrites_every_paragraph() {
    let mut ps = vec![
        image("c", "ImageMetadata:id1"),
        para(
            "xy",
            BlockKind::Paragraph,
            vec![link(0, 2, "https://web.archive.org/web/1/https://a.test/p")],
        ),
    ];
    normalize(&mut ps).unwrap();
    assert_eq!(ps[0].metadata.as_ref().unwrap().image_ref, "id1");
    assert_eq!(ps[1].markups[0].href.as_deref(), Some("https://a.test/p"));
    assert_eq!(ps[1].markups[0].start, 0);
    assert_eq!(ps[1].markups[0].end, 2);
}

#[test]
fn normalize_error_leaves_paragraphs_unchanged() {
    let mut ps = vec![
        image("c", "ImageMetadata:id1"),
        para("xy", BlockKind::Paragraph, vec![link(0, 2, "https://web.archive.org/web/nope")]),
    ];
    assert_eq!(normalize(&mut ps), Err(RenderError::MalformedHref));
    assert_eq!(ps[0].metadata.as_ref().unwrap().image_ref, "ImageMetadata:id1");
}

#[test]
fn list_items_then_paragraph() {
    let out = group_lists(&vec![
        frag(BlockKind::ListItem, "<li>1</li>"),
        frag(BlockKind::ListItem, "<li>2</li>"),
        frag(BlockKind::Paragraph, "<p>3</p>"),
    ]);
    assert_eq!(out, vec!["<ul><li>1</li>", "<li>2</li>", "</ul><p>3</p>"]);
}

#[test]
fn single_list_item_stays_open() {
    let out = group_lists(&vec![frag(BlockKind::ListItem, "<li>1</li>")]);
    assert_eq!(out, vec!["<ul><li>1</li>"]);
}

#[test]
fn two_separate_lists() {
    let out = group_lists(&vec![
        frag(BlockKind::ListItem, "a"),
        frag(BlockKind::Header3, "b"),
        frag(BlockKind::ListItem, "c"),
        frag(BlockKind::ListItem, "d"),
    ]);
    assert_eq!(out, vec!["<ul>a", "</ul>b", "<ul>c", "d"]);
    assert!(group_lists(&vec![]).is_empty());
}

#[test]
fn group_step_transitions() {
    assert_eq!(group_step(false, BlockKind::ListItem, "x"), (true, "<ul>x".to_string()));
    assert_eq!(group_step(true, BlockKind::ListItem, "x"), (true, "x".to_string()));
    assert_eq!(group_step(true, BlockKind::Code, "x"), (false, "</ul>x".to_string()));
    assert_eq!(group_step(false, BlockKind::Code, "x"), (false, "x".to_string()));
}

#[test]
fn join_puts_each_line_on_its_own() {
    assert_eq!(join(&vec!["a".to_string(), "b".to_string()]), "a\nb\n");
    assert_eq!(join(&vec![]), "");
}

#[test]
fn body_groups_and_joins() {
    let ps = vec![
        para("1", BlockKind::ListItem, vec![]),
        para("2", BlockKind::ListItem, vec![]),
        para("3", BlockKind::Paragraph, vec![]),
    ];
    assert_eq!(render_body(&ps).unwrap(), "<ul><li>1</li>\n<li>2</li>\n</ul><p>3</p>\n");
    let bad = vec![para("1", BlockKind::Paragraph, vec![]), para("2", BlockKind::Link, vec![])];
    assert_eq!(render_body(&bad), Err(RenderError::UnsupportedMarkupKind));
}

#[test]
fn page_wraps_body() {
    let page = render_page("X\n");
    assert!(page.starts_with("<!DOCTYPE html>"));
    assert!(page.contains("<title>Vector vs SIMD Intructions</title>"));
    assert!(page.ends_with("<body>\nX\n\n</body>\n\n</html>\n"));
    assert_eq!(page, format!("{PAGE_HEAD}X\n{PAGE_TAIL}"));
}

#[test]
fn end_to_end_link_paragraph() {
    let mut ps = vec![para("hello", BlockKind::Paragraph, vec![link(0, 5, "https://x.test")])];
    let page = render_document(&mut ps).unwrap();
    assert_eq!(
        page,
        format!("{PAGE_HEAD}<p><a href=\"https://x.test\">hello</a></p>\n{PAGE_TAIL}")
    );
    assert!(page.contains("\n<p><a href=\"https://x.test\">hello</a></p>\n"));
}

#[test]
fn end_to_end_rewrites_before_rendering() {
    let mut ps = vec![
        para(
            "see",
            BlockKind::ListItem,
            vec![link(0, 3, "https://web.archive.org/web/2/https://b.test")],
        ),
        image("cap", "ImageMetadata:z9"),
    ];
    let page = render_document(&mut ps).unwrap();
    assert!(page.contains(
        "<ul><li><a href=\"https://b.test\">see</a></li>\n</ul><figure><img src=\"https://miro.medium.com/v2/format:webp/z9\"><figcaption>cap</figcaption></figure>\n"
    ));
}

#[test]
fn end_to_end_errors() {
    let mut bad_href =
        vec![para("x", BlockKind::Paragraph, vec![link(0, 1, "https://web.archive.org/web/")])];
    assert_eq!(render_document(&mut bad_href), Err(RenderError::MalformedHref));
    let mut bad_image = vec![para("x", BlockKind::Image, vec![])];
    assert_eq!(render_document(&mut bad_image), Err(RenderError::MissingRequiredAssociation));
}

#[test]
fn nested_archive_links_are_rewritten_once_per_pass() {
    let once = rewrite_href("https://web.archive.org/web/1/https://web.archive.org/web/2/x").unwrap();
    assert_eq!(once, "https://web.archive.org/web/2/x");
    assert_eq!(rewrite_href(&once).unwrap(), "x");
}
