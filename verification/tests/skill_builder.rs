use lexiang::cli_calls::convert_cli_to_tool_calls;
use lexiang::skill_build::{
    build_targets, BuildTarget, build_placeholder, extract_triggers, generate_claude_code, generate_openclaw, parse_skill_source, ParsedSkill,
    OpenClawManifest, Placeholder, SkillError, SkillFrontmatter, SkillMetadata, SkillRequires,
};

#[test]
fn test_extract_triggers() {
    let desc = "搜索知识库。触发词：搜索、查找、有没有关于";
    let triggers = extract_triggers(desc);
    assert_eq!(triggers, vec!["搜索", "查找", "有没有关于"]);
}

#[test]
fn test_extract_triggers_english() {
    let desc = "Search docs. triggers: search, find, lookup";
    let triggers = extract_triggers(desc);
    assert_eq!(triggers, vec!["search", "find", "lookup"]);
}

#[test]
fn test_convert_cli_to_tool_calls() {
    let bash = r#"# 查看当前状态
lx block table-get --block-id tbl_xxx --format table

# 修改
lx block table-set --block-id tbl_xxx --row 2 --col 1 --text "修正值""#;
    let result = convert_cli_to_tool_calls(bash).unwrap();
    println!("Result:\n{}", result);
    assert!(result.contains("调用 `lx-block-table-get` 工具"));
    assert!(result.contains("block_id: `tbl_xxx`"));
    assert!(result.contains("调用 `lx-block-table-set` 工具"));
    assert!(result.contains("text: `修正值`"));
}

fn yaml_str(text: &str, key: &str) -> String {
    let v: serde_yaml::Value = serde_yaml::from_str(text).unwrap();
    v.get(key).and_then(|x| x.as_str()).unwrap().to_string()
}

#[test]
fn test_parse_frontmatter() {
    let content = "---\nname: test\nversion: 1.0.0\n---\n\n# Hello\n";
    let parsed = parse_skill_source(content).unwrap();
    assert_eq!(yaml_str(&parsed.frontmatter, "name"), "test");
    assert_eq!(yaml_str(&parsed.frontmatter, "version"), "1.0.0");
}

#[test]
fn test_parse_tools_placeholder() {
    let content = "---\nname: test\n---\n\n::: tools search kb-search kb-embedding-search\n:::\n";
    let parsed = parse_skill_source(content).unwrap();
    assert_eq!(parsed.placeholders.len(), 1);
    if let Placeholder::Tools { namespace, tools } = &parsed.placeholders[0].placeholder {
        assert_eq!(namespace, "search");
        assert_eq!(tools, &["kb-search", "kb-embedding-search"]);
    } else {
        panic!("Expected Tools");
    }
}

#[test]
fn test_parse_params_placeholder() {
    let content = "---\nname: test\n---\n\n::: params search_kb_search\n| a | b |\n:::\n";
    let parsed = parse_skill_source(content).unwrap();
    assert_eq!(parsed.placeholders.len(), 1);
    if let Placeholder::Params { tool_name } = &parsed.placeholders[0].placeholder {
        assert_eq!(tool_name, "search_kb_search");
    } else {
        panic!("Expected Params");
    }
    assert!(parsed.placeholders[0].inner_content.is_some());
}

#[test]
fn test_parse_full_skill() {
    let content = "---\nname: test\n---\n\n# Title\n\n::: tools search\n:::\n\n## Params\n\n::: params foo\n:::\n";
    let parsed = parse_skill_source(content).unwrap();
    assert_eq!(parsed.placeholders.len(), 2);
}

#[test]
fn test_parse_include_placeholder() {
    let content = "---\nname: test\n---\n\n::: include ./ref.md\n:::\n";
    let parsed = parse_skill_source(content).unwrap();
    assert_eq!(parsed.placeholders.len(), 1);
    if let Placeholder::Include { path } = &parsed.placeholders[0].placeholder {
        assert_eq!(path, "./ref.md");
    } else {
        panic!("Expected Include");
    }
}

#[test]
fn skill_source_parts_and_offsets() {
    let content = "---\nname: x\n---\nintro\n::: example\nlx a b --k v\n:::\ntail\n";
    let parsed = parse_skill_source(content).unwrap();
    assert_eq!(parsed.frontmatter, "name: x\n");
    assert_eq!(parsed.content, "intro\n::: example\nlx a b --k v\n:::\ntail\n");
    let span = &parsed.placeholders[0];
    assert_eq!(span.placeholder, Placeholder::Example);
    assert_eq!(span.start, 6);
    assert_eq!(span.end, 35);
    assert_eq!(span.inner_content.as_deref(), Some("lx a b --k v"));
}

#[test]
fn skill_source_errors() {
    assert_eq!(parse_skill_source("no front matter").unwrap_err(), SkillError::Syntax);
    assert_eq!(parse_skill_source("---\nname: x\n").unwrap_err(), SkillError::Syntax);
    assert_eq!(
        parse_skill_source("---\nname: x\n---\n::: tools\n:::\n").unwrap_err(),
        SkillError::ToolsWithoutNamespace
    );
    assert_eq!(SkillError::ToolsWithoutNamespace.message(), "::: tools requires a namespace");
    assert_eq!(SkillError::Syntax.message(), "Failed to parse skill file");
}

#[test]
fn unclosed_block_is_text_and_unknown_type_is_dropped() {
    let parsed = parse_skill_source("---\nname: x\n---\n::: tools a\nno close\n").unwrap();
    assert!(parsed.placeholders.is_empty());
    let parsed = parse_skill_source("---\nname: x\n---\n::: widget a\n:::\n").unwrap();
    assert!(parsed.placeholders.is_empty());
}

#[test]
fn placeholder_arguments() {
    assert_eq!(build_placeholder("params", "a b").unwrap(), Some(Placeholder::Params { tool_name: "a".to_string() }));
    assert_eq!(build_placeholder("schema", "").unwrap_err(), SkillError::SchemaWithoutToolName);
    assert_eq!(build_placeholder("params", "").unwrap_err(), SkillError::ParamsWithoutToolName);
    assert_eq!(build_placeholder("include", "").unwrap_err(), SkillError::IncludeWithoutPath);
    assert_eq!(build_placeholder("example", "x").unwrap(), Some(Placeholder::Example));
    assert_eq!(build_placeholder("other", "x").unwrap(), None);
}

fn skill(content: &str, description: &str, bins: Vec<&str>) -> ParsedSkill {
    let src = parse_skill_source(content).unwrap();
    ParsedSkill {
        frontmatter: SkillFrontmatter {
            name: "lx-demo".to_string(),
            version: "1.0.0".to_string(),
            description: description.to_string(),
            metadata: SkillMetadata {
                requires: SkillRequires {
                    bins: bins.into_iter().map(|s| s.to_string()).collect(),
                    tools: vec!["search_kb".to_string()],
                },
            },
        },
        content: src.content,
        placeholders: src.placeholders,
    }
}

#[test]
fn claude_code_file() {
    let s = skill(
        "---\nname: x\n---\nA\n::: example\nlx block get --id 1\n:::\nB\n::: include ./missing.md\n:::\nC\n",
        "Say \"hi\"",
        vec!["lx"],
    );
    let includes = vec![None, None];
    let out = generate_claude_code(&s, &includes);
    assert_eq!(
        out,
        "---\nname: lx-demo\nversion: 1.0.0\ndescription: \"Say \\\"hi\\\"\"\nmetadata:\n  requires:\n    bins: [\"lx\"]\n---\n\nA\n```bash\nlx block get --id 1\n```B\n<!-- include not found: ./missing.md -->\nC\n"
    );
}

#[test]
fn openclaw_file_describes_examples() {
    let s = skill("---\nname: x\n---\n::: example\n# look\nlx block get --block-id b1\n:::\n", "", vec![]);
    let includes = vec![None];
    let out = generate_openclaw(&s, &includes).unwrap();
    assert_eq!(
        out,
        "---\nname: lx-demo\nversion: 1.0.0\n---\n\n1. look - 调用 `lx-block-get` 工具\n   - block_id: `b1`"
    );
}

#[test]
fn included_text_replaces_the_block() {
    let s = skill("---\nname: x\n---\nA\n::: include ./r.md\n:::\nB", "", vec![]);
    let includes = vec![Some("R\n".to_string())];
    let out = generate_claude_code(&s, &includes);
    assert!(out.ends_with("\n\nA\nR\nB"));
}

#[test]
fn tools_placeholder_lists_tools() {
    let s = skill("---\nname: x\n---\n::: tools search kb-search\n:::\n", "", vec![]);
    let out = generate_claude_code(&s, &vec![None]);
    assert!(out.contains("<!-- TODO: tools search [\"kb-search\"] -->\n"));
}

#[test]
fn manifest_entries() {
    let s = skill("---\nname: x\n---\nbody", "找东西。触发词：搜索、查找", vec![]);
    let m = OpenClawManifest::from_skills(&[s]);
    assert_eq!(m.skills.len(), 1);
    assert_eq!(m.skills[0].name, "lx-demo");
    assert_eq!(m.skills[0].triggers, vec!["搜索", "查找"]);
    assert_eq!(m.skills[0].tools, vec!["search_kb"]);
}

#[test]
fn triggers_stop_at_sentence_end_and_skip_empty() {
    assert_eq!(extract_triggers("x triggers: a, , b. c, d"), vec!["a", "b"]);
    assert!(extract_triggers("no markers here").is_empty());
    assert_eq!(extract_triggers("触发词:甲,乙\n丙"), vec!["甲", "乙"]);
}

#[test]
fn convert_without_commands_keeps_bash_block() {
    assert_eq!(convert_cli_to_tool_calls("echo hi").unwrap(), "```bash\necho hi\n```");
}

#[test]
fn convert_continuation_lines_and_lone_quote() {
    let out = convert_cli_to_tool_calls("lx entry create \\\n  --name 'My doc' \\\n  --parent p1").unwrap();
    assert_eq!(out, "1. 调用 `lx-entry-create` 工具\n   - name: `My doc`\n   - parent: `p1`");
    assert_eq!(convert_cli_to_tool_calls("lx a b --x '"), None);
}

#[test]
fn build_targets_expand_all() {
    assert_eq!(build_targets(BuildTarget::All), vec![BuildTarget::Codebuddy, BuildTarget::Openclaw, BuildTarget::Mcp]);
    assert_eq!(build_targets(BuildTarget::Mcp), vec![BuildTarget::Mcp]);
}

#[test]
fn comment_text_skips_white_space_after_hash() {
    let result = convert_cli_to_tool_calls("#  \u{3000}Look it up\nlx search kb-search --query x").unwrap();
    println!("{}", result);
    assert!(result.starts_with("1. Look it up - 调用 `lx-search-kb-search` 工具"));
}

#[test]
fn targets_agree_without_examples() {
    let s = skill("---\nname: x\n---\nA\n::: include ./r.md\n:::\nB\n::: params t\n:::\nC", "d", vec![]);
    let includes = vec![Some("R\n".to_string()), None];
    assert_eq!(generate_openclaw(&s, &includes).unwrap(), generate_claude_code(&s, &includes));
}
