use lexiang::ir::NodeType;
use lexiang::mdx_parse::{next_temp_id, parse_mdx, parse_ratio_exec};

#[test]
fn test_simple_paragraph() {
    let doc = parse_mdx("Hello world").unwrap();
    assert_eq!(doc.children.len(), 1);
    assert_eq!(doc.children[0].node_type, NodeType::Paragraph);
    assert_eq!(doc.children[0].plain_content(), "Hello world");
}

#[test]
fn test_heading() {
    let doc = parse_mdx("# Title\n\n## Subtitle").unwrap();
    assert_eq!(doc.children.len(), 2);
    assert_eq!(doc.children[0].node_type, NodeType::Heading { level: 1 });
    assert_eq!(doc.children[1].node_type, NodeType::Heading { level: 2 });
}

#[test]
fn test_code_fence() {
    let doc = parse_mdx("```rust\nfn main() {}\n```").unwrap();
    assert_eq!(doc.children.len(), 1);
    let cb = &doc.children[0];
    assert!(matches!(cb.node_type, NodeType::CodeBlock { language: Some(..) }));
    assert_eq!(cb.text.as_deref(), Some("fn main() {}"));
}

#[test]
fn test_callout_container() {
    let mdx = r#"<Callout icon="🚧" color="red">
    ## Warning
    Check before proceeding.
</Callout>"#;
    let doc = parse_mdx(mdx).unwrap();
    assert_eq!(doc.children.len(), 1);
    let co = &doc.children[0];
    assert!(matches!(co.node_type, NodeType::Callout { .. }));
    assert!(!co.children.is_empty(), "callout must have children");
    assert_eq!(co.callout_color.as_deref(), Some("red"));
    assert_eq!(co.callout_icon.as_deref(), Some("🚧"));
}

#[test]
fn test_task_with_name() {
    let mdx = "- [x] Buy milk\n- [ ] Write tests";
    let doc = parse_mdx(mdx).unwrap();
    assert_eq!(doc.children.len(), 2);
    let checked = doc.children.iter().find(|c| matches!(c.node_type, NodeType::Task { done: true, .. }));
    let unchecked = doc.children.iter().find(|c| matches!(c.node_type, NodeType::Task { done: false, .. }));
    assert!(checked.is_some(), "should have a checked task");
    assert!(unchecked.is_some(), "should have an unchecked task");
    assert_eq!(checked.unwrap().task_name.as_deref(), Some("Buy milk"));
    assert_eq!(unchecked.unwrap().task_name.as_deref(), Some("Write tests"));
}

#[test]
fn test_bullet_list() {
    let mdx = "- item 1\n- item 2";
    let doc = parse_mdx(mdx).unwrap();
    assert_eq!(doc.children.len(), 2);
    assert_eq!(doc.children[0].node_type, NodeType::BulletedList);
    assert_eq!(doc.children[1].node_type, NodeType::BulletedList);
}

#[test]
fn test_image_markdown() {
    let mdx = "![alt text](https://example.com/img.png)";
    let doc = parse_mdx(mdx).unwrap();
    assert!(!doc.children.is_empty());
    let has_img = doc.find_all(&NodeType::Image {
        file_id: Some(String::new()),
        caption: None,
        width: None,
        height: None,
        align: None,
    });
    if has_img.is_empty() {
        println!("DOC children: {:?}", doc.children.iter().map(|c| &c.node_type).collect::<Vec<_>>());
        for c in &doc.children {
            println!("  CHILD children: {:?}", c.children.iter().map(|cc| &cc.node_type).collect::<Vec<_>>());
        }
    }
    assert!(!has_img.is_empty(), "should have an Image node");
}

#[test]
fn test_divider() {
    let doc = parse_mdx("---\n").unwrap();
    assert_eq!(doc.children.len(), 1);
    assert_eq!(doc.children[0].node_type, NodeType::Divider);
}

#[test]
fn test_block_quote_maps_to_callout() {
    let doc = parse_mdx("> A quoted message").unwrap();
    assert_eq!(doc.children.len(), 1);
    assert!(matches!(doc.children[0].node_type, NodeType::Callout { .. }));
}

#[test]
fn test_bold_italic_strike() {
    let doc = parse_mdx("**bold** and *italic* and ~~strike~~").unwrap();
    let p = &doc.children[0];
    assert_eq!(p.node_type, NodeType::Paragraph);
    assert_eq!(p.children.len(), 5);
    assert!(p.children[0].inline_style.as_ref().unwrap().bold);
    assert!(p.children[2].inline_style.as_ref().unwrap().italic);
    assert!(p.children[4].inline_style.as_ref().unwrap().strike_through);
}

#[test]
fn test_column_list() {
    let mdx = r#"<ColumnList>
<Column>
### Left
Left content
</Column>
<Column ratio={0.5}>
### Right
Right content
</Column>
</ColumnList>"#;
    let doc = parse_mdx(mdx).unwrap();
    assert_eq!(doc.children.len(), 1);
    assert!(matches!(doc.children[0].node_type, NodeType::ColumnList));
    let cl = &doc.children[0];
    assert_eq!(cl.children.len(), 2);
    // The ratio 0.5, in millionths.
    assert_eq!(cl.children[1].column_width_ratio, Some(500_000));
}

#[test]
fn test_table() {
    let mdx = "| A | B |\n| -- | -- |\n| 1 | 2 |";
    let doc = parse_mdx(mdx).unwrap();
    assert_eq!(doc.children.len(), 1);
    assert!(matches!(doc.children[0].node_type, NodeType::Table));
}

#[test]
fn test_numbered_list() {
    let doc = parse_mdx("1. First\n2. Second").unwrap();
    assert_eq!(doc.children.len(), 2);
    assert!(matches!(doc.children[0].node_type, NodeType::NumberedList));
    assert!(matches!(doc.children[1].node_type, NodeType::NumberedList));
}

#[test]
fn test_toggle() {
    let mdx = "<Toggle>Click me</Toggle>";
    let doc = parse_mdx(mdx).unwrap();
    assert!(!doc.children.is_empty());
    let toggles = doc.find_all(&NodeType::Toggle);
    assert!(!toggles.is_empty(), "should have a Toggle node");
}

#[test]
fn test_mermaid() {
    let doc = parse_mdx("<Mermaid>\ngraph LR\nA-->B\n</Mermaid>").unwrap();
    assert_eq!(doc.children.len(), 1);
    assert!(matches!(doc.children[0].node_type, NodeType::Mermaid { .. }));
    assert_eq!(doc.children[0].diagram_content.as_deref().expect("should have content"), "graph LR\nA-->B");
}

#[test]
fn test_expression() {
    let doc = parse_mdx("Hello {name}!").unwrap();
    assert_eq!(doc.children.len(), 1);
    assert!(doc.children[0].plain_content().contains("{name}"));
}

#[test]
fn test_complex_document() {
    let mdx = r#"# Introduction

This document describes **MDX** converter.

<Callout icon="🚧" color="red">
## Note
Check before proceeding.
</Callout>

## Features

- [x] Callout support
- [ ] Math support (Phase 2)

\`\`\`rust
fn hello() {}
\`\`\`

---

"#;
    let doc = parse_mdx(mdx).unwrap();
    assert!(doc.children.len() >= 7);
    let has_callout = doc.children.iter().any(|c| matches!(c.node_type, NodeType::Callout { .. }));
    assert!(has_callout);
    let has_code = doc.children.iter().any(|c| matches!(c.node_type, NodeType::CodeBlock { .. }))
        || doc.children.iter().any(|c| c.plain_content().contains("fn hello()"));
    assert!(has_code);
    let has_divider = doc.children.iter().any(|c| c.node_type == NodeType::Divider);
    assert!(has_divider);
    let checked_task = doc.children.iter().find(|c| matches!(c.node_type, NodeType::Task { done: true, .. }));
    assert!(checked_task.is_some());
    assert_eq!(checked_task.unwrap().task_name.as_deref(), Some("Callout support"));
}

#[test]
fn list_tasks_get_successive_temp_ids() {
    let doc = parse_mdx("- [x] a\n- [ ] b").unwrap();
    assert_eq!(doc.children[0].temp_id.as_deref(), Some("temp_1"));
    assert_eq!(doc.children[1].temp_id.as_deref(), Some("temp_2"));
}

#[test]
fn next_temp_id_counts_and_wraps() {
    let mut c: u64 = 41;
    assert_eq!(next_temp_id(&mut c), "temp_42");
    assert_eq!(c, 42);
    let mut m: u64 = u64::MAX;
    assert_eq!(next_temp_id(&mut m), "temp_0");
}

#[test]
fn column_ratios_in_millionths() {
    assert_eq!(parse_ratio_exec("0.5"), Some(500_000));
    assert_eq!(parse_ratio_exec("50%"), Some(500_000));
    assert_eq!(parse_ratio_exec("  33.3333333 "), Some(333_333));
    assert_eq!(parse_ratio_exec("1"), Some(1_000_000));
    assert_eq!(parse_ratio_exec("1.5"), Some(15_000));
    assert_eq!(parse_ratio_exec("+.25"), Some(250_000));
    assert_eq!(parse_ratio_exec("abc"), None);
    assert_eq!(parse_ratio_exec(""), None);
}

#[test]
fn jsx_task_element_takes_name_and_check_mark() {
    let doc = parse_mdx("<Task checked=\"true\" name=\"Ship it\">\nbody text\n</Task>").unwrap();
    let t = &doc.children[0];
    assert_eq!(t.node_type, NodeType::Task { done: true });
    assert_eq!(t.task_name.as_deref(), Some("Ship it"));
    assert_eq!(t.temp_id.as_deref(), Some("temp_1"));
}

#[test]
fn inline_code_is_styled() {
    let doc = parse_mdx("use `cargo`").unwrap();
    let p = &doc.children[0];
    assert_eq!(p.children.len(), 2);
    assert!(p.children[1].inline_style.as_ref().unwrap().inline_code);
    assert_eq!(p.children[1].text.as_deref(), Some("cargo"));
}

#[test]
fn parse_error_message_names_the_line() {
    let e = lexiang::mdx_parse::ParseError::AtLine { line: 1, message: "bad".to_string() };
    assert_eq!(e.message(), "Parse error at line 1: bad");
}
