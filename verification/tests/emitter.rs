use lexiang::emitter::emit_mdx;
use lexiang::ir::{DocNode as Node, InlineStyle, NodeType};
use lexiang::mdx_parse::parse_mdx;

#[test]
fn test_emit_simple_paragraph() {
    let node = Node::document(vec![Node::paragraph(vec![Node::plain_text("Hello")])]);
    let mdx = emit_mdx(&node);
    assert_eq!(mdx, "Hello");
}

#[test]
fn test_emit_heading() {
    let node = Node::document(vec![Node::heading(2, vec![Node::plain_text("Title")])]);
    let mdx = emit_mdx(&node);
    assert_eq!(mdx, "## Title");
}

#[test]
fn test_emit_code_block() {
    let node = Node::document(vec![Node::code_block(Some("rust"), "fn main() {}")]);
    let mdx = emit_mdx(&node);
    assert!(mdx.contains("```rust"));
    assert!(mdx.contains("fn main() {}"));
}

#[test]
fn test_emit_todo() {
    let node = Node::document(vec![Node::task(true, "done item"), Node::task(false, "undone")]);
    let mdx = emit_mdx(&node);
    assert!(mdx.contains("[x] done item"));
    assert!(mdx.contains("[ ] undone"));
}

#[test]
fn test_emit_bullet_list() {
    let node = Node::document(vec![
        Node::bullet_item(vec![Node::plain_text("first")]),
        Node::bullet_item(vec![Node::plain_text("second")]),
    ]);
    let mdx = emit_mdx(&node);
    assert!(mdx.contains("- first"));
    assert!(mdx.contains("- second"));
}

#[test]
fn test_emit_divider() {
    let node = Node::document(vec![Node::divider()]);
    let mdx = emit_mdx(&node);
    assert_eq!(mdx, "---");
}

#[test]
fn test_emit_callout() {
    let icon = "\u{1f6a7}";
    let bc = "red";
    let node = Node::document(vec![Node::callout(
        Some(bc),
        Some(icon),
        vec![Node::paragraph(vec![Node::plain_text("Warning message")])],
    )]);
    let mdx = emit_mdx(&node);
    assert!(mdx.contains("<Callout"));
    assert!(mdx.contains("icon=\"\u{1f6a7}\""));
    assert!(mdx.contains("borderColor=\"red\""));
    assert!(mdx.contains("Warning message"));
    assert!(mdx.contains("</Callout>"));
}

#[test]
fn test_emit_image() {
    let src = "https://example.com/img.png";
    let alt = "example";
    let node = Node::document(vec![Node::image(Some(src), Some(alt))]);
    let mdx = emit_mdx(&node);
    assert_eq!(mdx, "![example](https://example.com/img.png)");
}

#[test]
fn test_emit_bold_italic() {
    let style = InlineStyle { italic: true, ..Default::default() };
    let italic_node = Node {
        node_type: NodeType::Text,
        text: Some("italic".to_string()),
        attrs: Default::default(),
        inline_style: Some(style),
        href: None,
        children: vec![],
        ..Default::default()
    };
    let node = Node::document(vec![Node::paragraph(vec![
        Node::bold("bold text"),
        Node::plain_text(" and "),
        italic_node,
    ])]);
    let mdx = emit_mdx(&node);
    assert!(mdx.contains("<Mark bold>bold text</Mark>"));
    assert!(mdx.contains(" and "));
    assert!(mdx.contains("<Mark italic>italic</Mark>"));
}

#[test]
fn test_emit_link() {
    let href = "https://example.com";
    let child = Node::plain_text("click me");
    let node = Node::document(vec![Node::paragraph(vec![Node::link(href, vec![child])])]);
    let mdx = emit_mdx(&node);
    assert_eq!(mdx, "[click me](https://example.com)");
}

#[test]
fn test_emit_frontmatter() {
    let mut doc = Node::document(vec![Node::paragraph(vec![Node::plain_text("content")])]);
    doc.attrs.text_align = Some("center".to_string());
    doc.attrs.icon = Some("\u{1f4c4}".to_string());
    let mdx = emit_mdx(&doc);
    assert!(mdx.contains("---"));
    assert!(mdx.contains("textAlign: center"));
    assert!(mdx.contains("icon: \"\u{1f4c4}\""));
    assert!(mdx.contains("content"));
}

#[test]
fn test_roundtrip_simple() {
    let source = "# Hello\n\nThis is **bold**.\n\n- Item one\n\n```rust\nlet x = 1;\n```";
    let doc = parse_mdx(source).unwrap();
    let emitted = emit_mdx(&doc);
    let doc2 = parse_mdx(&emitted).unwrap();
    assert_eq!(doc.children.len(), doc2.children.len());
}

#[test]
fn emitted_text_has_no_trailing_white_space() {
    let node = Node::document(vec![
        Node::paragraph(vec![Node::plain_text("trailing   ")]),
        Node::divider(),
    ]);
    let mdx = emit_mdx(&node);
    assert!(!mdx.ends_with(' '));
    assert!(!mdx.ends_with('\n'));
}

#[test]
fn emit_column_width_as_whole_percent() {
    let node = Node::document(vec![Node::column_list(vec![Node::column(
        Some(500_000),
        vec![Node::paragraph(vec![Node::plain_text("half")])],
    )])]);
    let mdx = emit_mdx(&node);
    assert!(mdx.contains("<Column width=\"50%\">"));
}
