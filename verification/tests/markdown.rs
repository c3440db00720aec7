use floatdea::app::snippet::{
    collect_local_links, insert_embed_markdown, insert_markdown_link, is_broken_internal_link,
    neutralize_embeds, split_embeds, PreviewSegment,
};
use floatdea::data::ids::EntityId;
use floatdea::data::markdown_targets::{
    parse_attachment_link, parse_local_markdown_targets, parse_snippet_link, resolve_target,
    LocalMarkdownTarget,
};

fn text(text: &str) -> PreviewSegment {
    PreviewSegment::Text(text.to_owned())
}

fn same_segments(found: &[PreviewSegment], expected: &[PreviewSegment]) -> bool {
    found.len() == expected.len()
        && found.iter().zip(expected).all(|pair| match pair {
            (PreviewSegment::Text(a), PreviewSegment::Text(b)) => a == b,
            (
                PreviewSegment::Embed { alt: a, dest: b },
                PreviewSegment::Embed { alt: c, dest: d },
            ) => a == c && b == d,
            _ => false,
        })
}

#[test]
fn collects_local_markdown_links() {
    let text = "see [a](hello--abc.md) and [b](https://example.com/x) \
                and ![img](p.png) and ![emb](0123456789abcdef0123.md)";
    // Links only: embeds (`![...]`) are excluded.
    assert_eq!(collect_local_links(text), vec!["hello--abc.md"]);
}

#[test]
fn splits_embeds_and_text() {
    let content = "intro\n\n![Title](0123456789abcdef0123.md)\n\noutro";
    assert!(same_segments(
        &split_embeds(content),
        &[
            text("intro\n\n"),
            PreviewSegment::Embed {
                alt: "Title".to_owned(),
                dest: "0123456789abcdef0123.md".to_owned(),
            },
            text("\n\noutro"),
        ],
    ));
    // No embeds: a single text segment.
    assert!(same_segments(&split_embeds("plain text"), &[text("plain text")]));
    // Images and external URLs share `![...]` syntax but are not document embeds.
    assert!(same_segments(
        &split_embeds("a ![img](p.png) ![ext](https://x.example/a.md) b"),
        &[text("a ![img](p.png) ![ext](https://x.example/a.md) b")],
    ));
}

#[test]
fn neutralizes_embeds_to_links() {
    assert_eq!(
        neutralize_embeds("![a](x.md) and ![b](y.md)"),
        "[a](x.md) and [b](y.md)"
    );
}

#[test]
fn parses_snippet_link_id_from_filename() {
    let id = parse_snippet_link("my note--0123456789abcdef0123.md").expect("link should parse");
    assert_eq!(id.as_str(), "0123456789abcdef0123");
    // Titles may contain `--`: the trailing segment wins.
    let id = parse_snippet_link("a--b--0123456789abcdef0123.md").unwrap();
    assert_eq!(id.as_str(), "0123456789abcdef0123");
    // The id-only form (`{id}.md`, no title) parses too.
    let id = parse_snippet_link("0123456789abcdef0123.md").unwrap();
    assert_eq!(id.as_str(), "0123456789abcdef0123");
    // Non-snippet links and malformed ids are rejected.
    assert!(parse_snippet_link("https://example.com/a.md").is_none());
    assert!(parse_snippet_link("note--short.md").is_none());
}

#[test]
fn flags_links_to_missing_snippets() {
    let index = vec![(
        EntityId::from_string("0123456789abcdef0123"),
        "Exists".to_owned(),
        String::new(),
    )];
    let cases = [
        ("0123456789abcdef0123.md", false, "existing"),
        ("aaaaaaaaaaaaaaaaaaaa.md", true, "missing id"),
        ("foo.md", true, "malformed"),
        ("note--short.md", true, "old short id"),
        ("https://x.example/a.md", false, "external"),
    ];
    for (url, expected, label) in cases {
        assert_eq!(
            is_broken_internal_link(url, &index),
            expected,
            "{label}: {url}"
        );
    }
}

#[test]
fn inserts_markdown_link_with_id_only_target() {
    let mut content = "hello world".to_owned();
    let id = EntityId::from_string("0123456789abcdef0123");
    insert_markdown_link(&mut content, 5, "My Note", &id);
    // Inserted at the cursor (char index 5); the target holds only the id.
    assert_eq!(content, "hello[My Note](0123456789abcdef0123.md) world");
    // Cursors beyond the end are clamped to the end.
    let mut content = String::new();
    insert_markdown_link(&mut content, 999, "Note", &id);
    assert_eq!(content, "[Note](0123456789abcdef0123.md)");
}

#[test]
fn inserts_embeds_at_the_cursor() {
    let mut content = "äb".to_owned();
    let id = EntityId::from_string("0123456789abcdef0123");
    insert_embed_markdown(&mut content, 1, "Pic", &id);
    assert_eq!(content, "ä![Pic](0123456789abcdef0123.md)b");
}

#[test]
fn parses_document_embeds_and_image_embeds() {
    let content = "![doc](Hello--0123456789abcdef0123.md) and ![pic](attachments/abcdef0123456789abcd.png)";
    let targets = parse_local_markdown_targets(content);
    assert_eq!(targets.len(), 2);
    assert!(matches!(targets[0].target, LocalMarkdownTarget::Snippet(_)));
    assert!(targets[0].is_image);
    assert!(matches!(targets[1].target, LocalMarkdownTarget::Image(_)));
    assert!(targets[1].is_image);
}

#[test]
fn plain_links_are_not_images() {
    let content = "see [a](Hello--0123456789abcdef0123.md)";
    let targets = parse_local_markdown_targets(content);
    assert_eq!(targets.len(), 1);
    assert!(!targets[0].is_image);
}

#[test]
fn skips_fenced_code_blocks() {
    let content = "```\n![fake](attachments/abcdef0123456789abcd.png)\n```\n![real](attachments/abcdef0123456789abcd.png)";
    let targets = parse_local_markdown_targets(content);
    assert_eq!(targets.len(), 1);
}

#[test]
fn skips_inline_code_spans() {
    let content = "`![fake](attachments/abcdef0123456789abcd.png)` and ![real](attachments/abcdef0123456789abcd.png)";
    let targets = parse_local_markdown_targets(content);
    assert_eq!(targets.len(), 1);
    assert_eq!(targets[0].start, content.rfind("![real]").unwrap());
}

#[test]
fn ignores_scheme_urls_as_unresolved() {
    let content = "![remote](https://example.com/x.png)";
    let targets = parse_local_markdown_targets(content);
    assert_eq!(targets.len(), 1);
    assert!(matches!(
        targets[0].target,
        LocalMarkdownTarget::UnresolvedLocal(_)
    ));
}

#[test]
fn attachment_link_needs_plausible_id() {
    assert!(parse_attachment_link("attachments/abcdef0123456789abcd.png").is_some());
    assert!(parse_attachment_link("attachments/foo.png").is_none());
    assert!(parse_attachment_link("attachments/abcdef0123456789abcd.svg").is_none());
    assert!(parse_attachment_link("attachments/x/abcdef0123456789abcd.png").is_none());
}

#[test]
fn resolves_attachment_and_snippet_ids() {
    assert!(matches!(
        resolve_target("attachments/abcdef0123456789abcd.jpg"),
        LocalMarkdownTarget::Image(_)
    ));
    assert!(matches!(
        resolve_target("Hello--0123456789abcdef0123.md"),
        LocalMarkdownTarget::Snippet(_)
    ));
}

#[test]
fn targets_hold_byte_positions_labels_and_destinations() {
    let content = "ä [l](attachments/x.svg) b";
    let targets = parse_local_markdown_targets(content);
    assert_eq!(targets.len(), 1);
    assert_eq!(targets[0].label, "l");
    assert_eq!(targets[0].dest, "attachments/x.svg");
    assert_eq!(&content[targets[0].start..targets[0].end], "[l](attachments/x.svg)");
}
