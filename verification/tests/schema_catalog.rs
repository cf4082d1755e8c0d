use lexiang::catalog::{find_tool_by_command, load_schema, SchemaManager, ToolNotFound};
use lexiang::cli_text::{category_lines, category_names_lines, help_lines, tool_lines};
use lexiang::schema::{
    extract_command_name, extract_namespace, to_kebab_case, McpCategory, McpCategoryTool, McpInputSchema,
    McpSchemaCollection, McpToolSchema, ToolSchema,
};
use lexiang::skill_gen::{SkillGenerator, generate_skills};
use lexiang::strmap::StrMap;

fn category(name: &str, desc: Option<&str>, tools: &[&str]) -> McpCategory {
    McpCategory {
        name: name.to_string(),
        description: desc.map(|d| d.to_string()),
        tool_count: tools.len(),
        tools: tools
            .iter()
            .map(|t| McpCategoryTool { name: t.to_string(), description: Some(format!("does {}", t)) })
            .collect(),
    }
}

fn tool(name: &str, desc: &str) -> McpToolSchema {
    McpToolSchema {
        name: name.to_string(),
        description: Some(desc.to_string()),
        input_schema: None,
        namespace: None,
        command_name: None,
    }
}

fn collection() -> McpSchemaCollection {
    let mut tools = StrMap::new();
    tools.insert("team_list_teams".to_string(), tool("team_list_teams", "列出团队"));
    tools.insert("team_describe_team".to_string(), tool("team_describe_team", "获取团队详情"));
    McpSchemaCollection {
        version: "test".to_string(),
        categories: vec![category("teamspace.team", Some("团队管理"), &["team_list_teams", "team_describe_team"])],
        tools,
    }
}

#[test]
fn test_skill_generator_readme() {
    let schema = McpSchemaCollection {
        version: "test".to_string(),
        categories: vec![McpCategory {
            name: "teamspace.team".to_string(),
            description: Some("团队管理".to_string()),
            tool_count: 2,
            tools: vec![
                McpCategoryTool { name: "team_list_teams".to_string(), description: Some("列出团队".to_string()) },
                McpCategoryTool {
                    name: "team_describe_team".to_string(),
                    description: Some("获取团队详情".to_string()),
                },
            ],
        }],
        tools: StrMap::new(),
    };
    let generator = SkillGenerator::new(&schema, "lexiang-skill-test".to_string());
    let readme = generator.generate_readme();
    assert!(readme.contains("# lx CLI Skills"));
    assert!(readme.contains("team"));
    assert!(readme.contains("团队管理"));
}

#[test]
fn naming_rules() {
    assert_eq!(extract_namespace("teamspace.team"), "team");
    assert_eq!(extract_namespace("plain"), "plain");
    assert_eq!(extract_command_name("team_list_teams", "team"), "list-teams");
    assert_eq!(extract_command_name("other_tool_x", "team"), "other-tool-x");
    assert_eq!(to_kebab_case("a_b_c"), "a-b-c");
}

#[test]
fn command_lookup_reaches_each_tool() {
    let c = collection();
    assert_eq!(find_tool_by_command(&c, "team", "list-teams").unwrap(), "team_list_teams");
    assert_eq!(find_tool_by_command(&c, "team", "describe-team").unwrap(), "team_describe_team");
    let e = find_tool_by_command(&c, "team", "nope").unwrap_err();
    assert_eq!(e, ToolNotFound { namespace: "team".to_string(), command: "nope".to_string() });
    assert_eq!(e.message(), "Tool not found for namespace 'team' command 'nope'");
}

#[test]
fn dynamic_schema_takes_precedence() {
    let mut embedded = StrMap::new();
    embedded.insert(
        "a".to_string(),
        ToolSchema { name: "a".to_string(), description: Some("embedded".to_string()), input_schema: None },
    );
    embedded.insert(
        "b".to_string(),
        ToolSchema { name: "b".to_string(), description: Some("only embedded".to_string()), input_schema: None },
    );
    let mut m = SchemaManager::new(embedded);
    m.update_dynamic(vec![
        ToolSchema { name: "a".to_string(), description: Some("first".to_string()), input_schema: None },
        ToolSchema { name: "a".to_string(), description: Some("dynamic".to_string()), input_schema: None },
    ]);
    assert_eq!(m.get_tool_schema("a").unwrap().description.as_deref(), Some("dynamic"));
    assert_eq!(m.get_tool_schema("b").unwrap().description.as_deref(), Some("only embedded"));
    assert!(m.get_tool_schema("c").is_none());
    assert!(m.has_schema());
    m.update_dynamic(vec![ToolSchema { name: "c".to_string(), description: Some("new".to_string()), input_schema: None }]);
    assert_eq!(m.get_tool_schema("a").unwrap().description.as_deref(), Some("embedded"));
    assert_eq!(m.get_tool_schema("c").unwrap().description.as_deref(), Some("new"));
}

#[test]
fn str_map_keeps_one_entry_per_key() {
    let mut m: StrMap<u64> = StrMap::new();
    m.insert("x".to_string(), 1);
    m.insert("y".to_string(), 2);
    m.insert("x".to_string(), 3);
    assert_eq!(m.len(), 2);
    assert_eq!(m.get("x"), Some(&3));
    assert_eq!(m.get("y"), Some(&2));
    assert_eq!(m.get("z"), None);
}

#[test]
fn runtime_schema_borrows_missing_inputs() {
    let mut rt_tools = StrMap::new();
    rt_tools.insert("t".to_string(), tool("t", "runtime"));
    let runtime = McpSchemaCollection { version: "2".to_string(), categories: vec![], tools: rt_tools };
    let mut emb_tools = StrMap::new();
    let mut with_input = tool("t", "embedded");
    with_input.input_schema = Some(McpInputSchema::default());
    emb_tools.insert("t".to_string(), with_input);
    let embedded = McpSchemaCollection { version: "1".to_string(), categories: vec![], tools: emb_tools };
    let merged = load_schema(Some(runtime), Some(embedded)).unwrap();
    let t = merged.tools.get("t").unwrap();
    assert_eq!(t.description.as_deref(), Some("runtime"));
    assert!(t.input_schema.is_some());
    assert!(load_schema(None, None).is_none());
}

#[test]
fn load_schema_falls_back_to_embedded() {
    let mut emb_tools = StrMap::new();
    emb_tools.insert("t".to_string(), tool("t", "embedded"));
    let embedded = McpSchemaCollection { version: "1".to_string(), categories: vec![], tools: emb_tools };
    let used = load_schema(None, Some(embedded)).unwrap();
    assert_eq!(used.version, "1");
    assert_eq!(used.tools.get("t").unwrap().description.as_deref(), Some("embedded"));
}

#[test]
fn help_lists_categories_by_name() {
    let cats = vec![
        category("z.zeta", Some("last"), &["a", "b"]),
        category("a.alpha", None, &["x"]),
    ];
    let lines = help_lines(Some(&cats));
    let i = lines.iter().position(|l| l == "Dynamic Commands (from MCP schema):").unwrap();
    assert_eq!(lines[i + 1], "  alpha           (1 commands)");
    assert_eq!(lines[i + 2], "  zeta           last (2 commands)");
    assert_eq!(lines[0], "Lexiang CLI - A command-line tool for Lexiang MCP");
    assert_eq!(lines.last().unwrap(), "  -h, --help  Print help");
    let plain = help_lines(None);
    assert!(!plain.iter().any(|l| l.contains("Dynamic Commands")));
}

#[test]
fn category_and_tool_listings() {
    let c = category("teamspace.team", Some("团队管理"), &["t1"]);
    let refs = vec![&c];
    assert_eq!(category_lines(&refs), vec!["Tool Categories (1):", "  teamspace.team (1 tools) - 团队管理"]);
    assert_eq!(
        category_names_lines(&refs),
        vec![
            "Available categories: teamspace.team",
            "",
            "Use 'lx tools list --category <name>' to see tools in a category.",
        ]
    );
    let none: Vec<&McpCategory> = vec![];
    assert_eq!(category_lines(&none), vec!["No categories found. Run 'lx tools sync' first."]);
    let t = tool("t1", "does t1");
    assert_eq!(tool_lines("team", &vec![&t]), vec!["Tools in 'team' (1):", "  t1 - does t1"]);
    assert_eq!(
        tool_lines("team", &vec![]),
        vec!["No tools found in category 'team'. Run 'lx tools sync' first."]
    );
}

#[test]
fn skill_files_for_each_namespace() {
    let c = collection();
    let files = generate_skills(&c, "/tmp/skills");
    assert!(files.iter().any(|f| f.path.ends_with("README.md")));
    assert!(files.iter().any(|f| f.content.contains("team")));
}

#[test]
fn help_sorts_stably_and_keeps_every_category() {
    let cats = vec![
        category("m.mid", Some("first"), &["a"]),
        category("b.beta", None, &["x"]),
        category("m.mid", Some("second"), &["a", "b"]),
    ];
    let lines = help_lines(Some(&cats));
    let i = lines.iter().position(|l| l == "Dynamic Commands (from MCP schema):").unwrap();
    assert_eq!(lines[i + 1], "  beta            (1 commands)");
    assert_eq!(lines[i + 2], "  mid            first (1 commands)");
    assert_eq!(lines[i + 3], "  mid            second (2 commands)");
    assert_eq!(lines[i + 4], "");
}
