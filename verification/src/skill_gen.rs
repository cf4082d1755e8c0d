//! Agent skill files generated from an MCP schema collection.
//!
//! For a collection this produces a `README.md` overview and one Markdown
//! skill file per category namespace, which teach an AI agent how to drive
//! the `lx` CLI commands of that namespace.

use vstd::prelude::*;
use crate::catalog::tools_in_namespace;
use crate::ir::opt_view;
use crate::paths::{join_path, spec_join};
use crate::schema::{
    extract_command_name, extract_namespace, spec_extract_command_name, spec_extract_namespace,
    spec_to_kebab_case, strings_view, to_kebab_case, CategoryToolView, CategoryView,
    CollectionView, InputView, McpCategory, McpSchemaCollection, PropertyView, ToolView,
};
use crate::strmap::lookup;
use crate::text::{
    char_width, chars_to_string, decimal, lemma_utf8_len_take_increasing, push_decimal, push_str,
    str_eq, str_to_chars, utf8_len,
};

verus! {

pub const README_INTRO: &'static str = "# lx CLI Skills\n\n本目录包含 lx CLI 的 AI agent 技能文件，用于指导 agent 如何使用各个 namespace 的命令。\n\n";
pub const README_TAIL: &'static str = "\n## 快速开始\n\n```bash\n# 登录\nlx login\n\n# 同步最新 schema\nlx tools sync\n\n# 查看可用命令\nlx tools categories\nlx tools list --category team\n```\n\n## 如何使用技能文件\n\nAI agent 可以读取这些 skill 文件来学习如何使用 lx CLI。\n\n例如，当用户需要搜索知识库时，agent 可以：\n1. 读取 `search.md` 了解搜索命令的参数和用法\n2. 构建正确的命令执行搜索\n3. 解析输出结果\n";
pub const WORKFLOW_TEAM: &'static str = "### 列出所有团队\n\n```bash\n# 获取用户可访问的团队列表\nlx team list\n\n# 获取常用团队\nlx team list-frequent\n```\n";
pub const WORKFLOW_SPACE: &'static str = "### 操作知识库\n\n```bash\n# 获取团队下的知识库列表\nlx space list --team-id <TEAM_ID>\n\n# 获取知识库详情\nlx space describe --space-id <SPACE_ID>\n\n# 获取最近访问的知识库\nlx space list-recently\n```\n";
pub const WORKFLOW_ENTRY: &'static str = "### 操作知识条目\n\n```bash\n# 获取条目详情\nlx entry describe --entry-id <ENTRY_ID>\n\n# 创建新条目\nlx entry create --parent-entry-id <PARENT_ID> --name \"新文档\" --entry-type page\n\n# 获取条目的子节点\nlx entry list-children --parent-id <ENTRY_ID>\n```\n";
pub const WORKFLOW_SEARCH: &'static str = "### 搜索知识库\n\n```bash\n# 全局搜索\nlx search kb --keyword \"关键词\"\n\n# 在指定知识库中搜索\nlx search kb --keyword \"关键词\" --space-id <SPACE_ID>\n\n# 向量检索\nlx search embedding --keyword \"语义查询\"\n```\n";
pub const WORKFLOW_BLOCK: &'static str = "### 操作文档块\n\n```bash\n# 获取块详情\nlx block describe --block-id <BLOCK_ID>\n\n# 获取块的子节点\nlx block list-children --block-id <BLOCK_ID>\n\n# 更新块内容\nlx block update --block-id <BLOCK_ID> --text \"新内容\"\n```\n";
pub const WORKFLOW_FILE: &'static str = "### 文件操作\n\n```bash\n# 获取文件详情\nlx file describe --file-id <FILE_ID>\n\n# 下载文件\nlx file download --file-id <FILE_ID>\n\n# 上传文件（需要多步骤）\n# 1. 申请上传\nlx file apply-upload --parent-entry-id <PARENT_ID> --file-name \"example.pdf\"\n# 2. 使用返回的 upload_url 上传文件\n# 3. 确认上传\nlx file commit-upload --session-id <SESSION_ID>\n```\n";

// ---------------------------------------------------------------------------
// UTF-8 widths and description shortening
// ---------------------------------------------------------------------------

/// Some prefix of `s` has exactly `keep` bytes: `keep` is a character boundary.
pub open spec fn cuts_at(s: Seq<char>, keep: nat) -> bool {
    exists|k: int| 0 <= k <= s.len() && #[trigger] utf8_len(s.take(k)) == keep
}

/// `s` is at most `limit` bytes long, or can be cut after `keep` bytes.
pub open spec fn truncatable(s: Seq<char>, limit: nat, keep: nat) -> bool {
    utf8_len(s) <= limit || cuts_at(s, keep)
}

/// `s` itself if at most `limit` bytes long; otherwise its first `keep`
/// bytes followed by `...`.
pub open spec fn shorten(s: Seq<char>, limit: nat, keep: nat) -> Seq<char> {
    if utf8_len(s) > limit {
        s.take(choose|k: int| 0 <= k <= s.len() && #[trigger] utf8_len(s.take(k)) == keep) + "..."@
    } else {
        s
    }
}

/// A description cut to at most `limit` bytes: beyond that, its first `keep`
/// bytes followed by `...`.
pub fn shorten_description(s: &str, limit: usize, keep: usize) -> (r: String)
    requires
        keep <= limit,
        limit < usize::MAX - 4,
        truncatable(s@, limit as nat, keep as nat),
    ensures
        r@ == shorten(s@, limit as nat, keep as nat),
{
    let chars = str_to_chars(s);
    let n = chars.len();
    let mut total: usize = 0;
    let mut i: usize = 0;
    while i < n && total <= limit
        invariant
            chars@ == s@,
            n == chars@.len(),
            i <= n,
            total == utf8_len(chars@.take(i as int)),
            total <= limit + 4,
            limit < usize::MAX - 4,
        decreases n - i,
    {
        assert(chars@.take(i + 1).drop_last() == chars@.take(i as int));
        total = total + char_width(chars[i]);
        i = i + 1;
    }
    if total <= limit {
        assert(chars@.take(n as int) == chars@);
        return chars_to_string(chars.as_slice());
    }
    proof {
        lemma_utf8_len_take_increasing(chars@, i as int, n as int);
        assert(chars@.take(n as int) == chars@);
    }
    let ghost target = choose|k: int| 0 <= k <= s@.len() && #[trigger] utf8_len(s@.take(k)) == keep;
    let mut out: Vec<char> = Vec::new();
    let mut bytes: usize = 0;
    let mut k: usize = 0;
    while bytes < keep
        invariant
            chars@ == s@,
            n == chars@.len(),
            k <= n,
            k <= target,
            0 <= target <= n,
            utf8_len(s@.take(target)) == keep,
            bytes == utf8_len(chars@.take(k as int)),
            bytes <= keep,
            out@ == chars@.take(k as int),
        decreases keep - bytes,
    {
        proof {
            if k == target {
                assert(false);
            }
            lemma_utf8_len_take_increasing(chars@, k as int + 1, target);
            assert(chars@.take(k + 1).drop_last() == chars@.take(k as int));
        }
        out.push(chars[k]);
        bytes = bytes + char_width(chars[k]);
        k = k + 1;
        assert(out@ =~= chars@.take(k as int));
    }
    proof {
        if (k as int) < target {
            lemma_utf8_len_take_increasing(chars@, k as int, target);
        }
    }
    assert(k == target);
    push_str(&mut out, "...");
    chars_to_string(out.as_slice())
}

// ---------------------------------------------------------------------------
// Specification of the generated text
// ---------------------------------------------------------------------------

/// The text of an optional string, or a default.
pub open spec fn text_or(o: Option<Seq<char>>, default: Seq<char>) -> Seq<char> {
    match o {
        Some(s) => s,
        None => default,
    }
}

/// Total number of tools listed by the first `i` categories.
pub open spec fn total_tools(cats: Seq<CategoryView>, i: nat) -> nat
    decreases i,
{
    if i == 0 || i > cats.len() {
        0
    } else {
        total_tools(cats, (i - 1) as nat) + cats[i - 1].tools.len()
    }
}

/// One row of the namespace table of the overview.
pub open spec fn readme_row(c: CategoryView) -> Seq<char> {
    let ns = spec_extract_namespace(c.name);
    "| `"@ + ns + "` | "@ + text_or(c.description, "无描述"@) + " | "@ + decimal(c.tools.len())
        + " | ["@ + ns + ".md]("@ + ns + ".md) |\n"@
}

/// Rows for the first `i` categories.
pub open spec fn readme_rows(cats: Seq<CategoryView>, i: nat) -> Seq<char>
    decreases i,
{
    if i == 0 || i > cats.len() {
        Seq::empty()
    } else {
        readme_rows(cats, (i - 1) as nat) + readme_row(cats[i - 1])
    }
}

/// The overview file `README.md`.
pub open spec fn spec_readme(c: CollectionView) -> Seq<char> {
    README_INTRO@ + "## 概览\n\n- **Namespaces**: "@ + decimal(c.categories.len())
        + "\n- **Total Tools**: "@ + decimal(total_tools(c.categories, c.categories.len()))
        + "\n\n"@ + "## 可用 Namespaces\n\n"@ + "| Namespace | 描述 | 命令数 | 技能文件 |\n"@
        + "|-----------|------|--------|----------|\n"@ + readme_rows(c.categories, c.categories.len())
        + README_TAIL@
}

/// The typical-workflow section of a namespace.
pub open spec fn spec_workflow(ns: Seq<char>) -> Seq<char> {
    if ns == "team"@ {
        WORKFLOW_TEAM@
    } else if ns == "space"@ {
        WORKFLOW_SPACE@
    } else if ns == "entry"@ {
        WORKFLOW_ENTRY@
    } else if ns == "search"@ {
        WORKFLOW_SEARCH@
    } else if ns == "block"@ {
        WORKFLOW_BLOCK@
    } else if ns == "file"@ {
        WORKFLOW_FILE@
    } else {
        "### 使用 "@ + ns + " namespace\n\n"@ + "```bash\n"@ + "# 查看 "@ + ns + " 命令帮助\n"@ + "lx "@
            + ns + " --help\n"@ + "```\n"@
    }
}

/// One row of the command overview of a namespace.
pub open spec fn overview_row(ns: Seq<char>, t: CategoryToolView) -> Seq<char> {
    "| `lx "@ + ns + " "@ + spec_extract_command_name(t.name, ns) + "` | "@ + shorten(
        text_or(t.description, "无描述"@),
        80,
        77,
    ) + " |\n"@
}

/// Overview rows for the first `i` tools.
pub open spec fn overview_rows(ns: Seq<char>, tools: Seq<CategoryToolView>, i: nat) -> Seq<char>
    decreases i,
{
    if i == 0 || i > tools.len() {
        Seq::empty()
    } else {
        overview_rows(ns, tools, (i - 1) as nat) + overview_row(ns, tools[i - 1])
    }
}

/// One row of a parameter table.
pub open spec fn param_row(name: Seq<char>, p: PropertyView, required: Seq<Seq<char>>) -> Seq<char> {
    "| `--"@ + spec_to_kebab_case(name) + "` | "@ + text_or(p.type_, "string"@) + " | "@ + (if required.contains(
        name,
    ) {
        "是"@
    } else {
        "否"@
    }) + " | "@ + shorten(text_or(p.description, "-"@), 60, 57) + " |\n"@
}

/// Parameter rows for the first `i` properties.
pub open spec fn param_rows(
    props: Seq<(Seq<char>, PropertyView)>,
    required: Seq<Seq<char>>,
    i: nat,
) -> Seq<char>
    decreases i,
{
    if i == 0 || i > props.len() {
        Seq::empty()
    } else {
        param_rows(props, required, (i - 1) as nat) + param_row(props[i - 1].0, props[i - 1].1, required)
    }
}

/// The parameter table of a tool, when its full schema lists parameters.
pub open spec fn params_section(full: Option<ToolView>) -> Seq<char> {
    match full {
        Some(f) => match f.input_schema {
            Some(inp) => if inp.properties.len() > 0 {
                "**参数**:\n\n"@ + "| 参数 | 类型 | 必填 | 描述 |\n"@ + "|------|------|------|------|\n"@
                    + param_rows(inp.properties, inp.required, inp.properties.len()) + "\n"@
            } else {
                Seq::empty()
            },
            None => Seq::empty(),
        },
        None => Seq::empty(),
    }
}

/// The upper-case form of a string, as `str::to_uppercase` computes it.
pub uninterp spec fn upper_of(s: Seq<char>) -> Seq<char>;

/// One required argument of an example command.
pub open spec fn example_arg(name: Seq<char>) -> Seq<char> {
    " --"@ + spec_to_kebab_case(name) + " <"@ + upper_of(name) + ">"@
}

/// Example arguments for the first `i` required parameters.
pub open spec fn example_args(required: Seq<Seq<char>>, i: nat) -> Seq<char>
    decreases i,
{
    if i == 0 || i > required.len() {
        Seq::empty()
    } else {
        example_args(required, (i - 1) as nat) + example_arg(required[i - 1])
    }
}

/// The required arguments of an example command.
pub open spec fn example_section(full: Option<ToolView>) -> Seq<char> {
    match full {
        Some(f) => match f.input_schema {
            Some(inp) => example_args(inp.required, inp.required.len()),
            None => Seq::empty(),
        },
        None => Seq::empty(),
    }
}

/// The heading of the detailed section of one command.
pub open spec fn detail_head(ns: Seq<char>, t: CategoryToolView) -> Seq<char> {
    "### `lx "@ + ns + " "@ + spec_extract_command_name(t.name, ns) + "`\n\n"@ + match t.description {
        Some(d) => d + "\n\n"@,
        None => Seq::empty(),
    } + "**MCP Tool**: `"@ + t.name + "`\n\n"@
}

/// The example of the detailed section of one command.
pub open spec fn detail_example(ns: Seq<char>, t: CategoryToolView, full: Option<ToolView>) -> Seq<char> {
    "**示例**:\n\n"@ + "```bash\n"@ + "lx "@ + ns + " "@ + spec_extract_command_name(t.name, ns)
        + example_section(full) + "\n```\n\n"@ + "---\n\n"@
}

/// The detailed section of one command.
pub open spec fn command_detail(
    ns: Seq<char>,
    t: CategoryToolView,
    tools: Seq<(Seq<char>, ToolView)>,
) -> Seq<char> {
    detail_head(ns, t) + params_section(lookup(tools, t.name)) + detail_example(
        ns,
        t,
        lookup(tools, t.name),
    )
}

/// Detailed sections for the first `i` tools.
pub open spec fn command_details(
    ns: Seq<char>,
    ctools: Seq<CategoryToolView>,
    tools: Seq<(Seq<char>, ToolView)>,
    i: nat,
) -> Seq<char>
    decreases i,
{
    if i == 0 || i > ctools.len() {
        Seq::empty()
    } else {
        command_details(ns, ctools, tools, (i - 1) as nat) + command_detail(ns, ctools[i - 1], tools)
    }
}

/// The skill file of one category.
pub open spec fn spec_namespace_skill(c: CategoryView, tools: Seq<(Seq<char>, ToolView)>) -> Seq<char> {
    let ns = spec_extract_namespace(c.name);
    "# lx "@ + ns + " - "@ + c.name + "\n\n"@ + match c.description {
        Some(d) => d + "\n\n"@,
        None => Seq::empty(),
    } + "## 命令概览\n\n"@ + "| 命令 | 描述 |\n"@ + "|------|------|\n"@ + overview_rows(
        ns,
        c.tools,
        c.tools.len(),
    ) + "\n## 命令详情\n\n"@ + command_details(ns, c.tools, tools, c.tools.len())
        + "## 典型工作流\n\n"@ + spec_workflow(ns)
}

/// Every description the skill file of a category shortens can be cut cleanly.
pub open spec fn category_cuts_cleanly(c: CategoryView, tools: Seq<(Seq<char>, ToolView)>) -> bool {
    forall|j: int|
        0 <= j < c.tools.len() ==> {
            &&& truncatable(text_or(#[trigger] c.tools[j].description, "无描述"@), 80, 77)
            &&& match lookup(tools, c.tools[j].name) {
                Some(f) => match f.input_schema {
                    Some(inp) => forall|k: int|
                        0 <= k < inp.properties.len() ==> truncatable(
                            text_or(#[trigger] inp.properties[k].1.description, "-"@),
                            60,
                            57,
                        ),
                    None => true,
                },
                None => true,
            }
        }
}

/// Every category's skill file can be generated.
pub open spec fn collection_cuts_cleanly(c: CollectionView) -> bool {
    forall|i: int| 0 <= i < c.categories.len() ==> category_cuts_cleanly(#[trigger] c.categories[i], c.tools)
}

// ---------------------------------------------------------------------------
// Generator
// ---------------------------------------------------------------------------

/// A generated file: where it goes and what it holds.
pub struct SkillFile {
    pub path: String,
    pub content: String,
}

/// Skill file generator over a schema collection.
pub struct SkillGenerator<'a> {
    pub schema: &'a McpSchemaCollection,
    pub output_dir: String,
}

/// The upper-case form of a string.
#[verifier::external_body]
fn to_upper(s: &str) -> (r: String)
    ensures
        r@ == upper_of(s@),
{
    s.to_uppercase()
}

impl<'a> SkillGenerator<'a> {
    /// A generator writing under `output_dir`.
    pub fn new(schema: &'a McpSchemaCollection, output_dir: String) -> (g: Self)
        ensures
            g.schema == schema,
            g.output_dir == output_dir,
    {
        SkillGenerator { schema, output_dir }
    }

    /// Every file to write: `README.md`, then `<namespace>.md` for each
    /// category, all under the output directory.
    pub fn render_all(&self) -> (files: Vec<SkillFile>)
        requires
            total_tools(self.schema@.categories, self.schema@.categories.len()) <= usize::MAX,
            collection_cuts_cleanly(self.schema@),
        ensures
            files@.len() == self.schema@.categories.len() + 1,
            files@[0].path@ == spec_join(self.output_dir@, "README.md"@),
            files@[0].content@ == spec_readme(self.schema@),
            forall|i: int|
                0 <= i < self.schema@.categories.len() ==> {
                    &&& (#[trigger] files@[i + 1]).path@ == spec_join(
                        self.output_dir@,
                        spec_extract_namespace(self.schema@.categories[i].name) + ".md"@,
                    )
                    &&& files@[i + 1].content@ == spec_namespace_skill(
                        self.schema@.categories[i],
                        self.schema@.tools,
                    )
                },
    {
        let mut files: Vec<SkillFile> = Vec::new();
        let readme_path = join_path(self.output_dir.as_str(), "README.md");
        files.push(SkillFile { path: readme_path, content: self.generate_readme() });
        let ghost cats = self.schema@.categories;
        let mut i: usize = 0;
        while i < self.schema.categories.len()
            invariant
                cats == self.schema@.categories,
                collection_cuts_cleanly(self.schema@),
                i <= cats.len(),
                files@.len() == i + 1,
                files@[0].path@ == spec_join(self.output_dir@, "README.md"@),
                files@[0].content@ == spec_readme(self.schema@),
                forall|k: int|
                    0 <= k < i ==> {
                        &&& (#[trigger] files@[k + 1]).path@ == spec_join(
                            self.output_dir@,
                            spec_extract_namespace(cats[k].name) + ".md"@,
                        )
                        &&& files@[k + 1].content@ == spec_namespace_skill(cats[k], self.schema@.tools)
                    },
            decreases cats.len() - i,
        {
            let category = &self.schema.categories[i];
            assert(cats[i as int] == category@);
            let namespace = extract_namespace(category.name.as_str());
            let mut file_name = str_to_chars(namespace.as_str());
            push_str(&mut file_name, ".md");
            let file_name = chars_to_string(file_name.as_slice());
            let path = join_path(self.output_dir.as_str(), file_name.as_str());
            let content = self.generate_namespace_skill(category);
            files.push(SkillFile { path, content });
            i = i + 1;
        }
        files
    }

    /// The overview file: counts, one table row per namespace, and usage notes.
    pub fn generate_readme(&self) -> (content: String)
        requires
            total_tools(self.schema@.categories, self.schema@.categories.len()) <= usize::MAX,
        ensures
            content@ == spec_readme(self.schema@),
    {
        let ghost cats = self.schema@.categories;
        let mut out: Vec<char> = Vec::new();
        push_str(&mut out, README_INTRO);
        let mut total_count: usize = 0;
        let mut i: usize = 0;
        while i < self.schema.categories.len()
            invariant
                cats == self.schema@.categories,
                i <= cats.len(),
                total_count == total_tools(cats, i as nat),
                total_tools(cats, cats.len()) <= usize::MAX,
            decreases cats.len() - i,
        {
            proof {
                lemma_total_tools_monotone(cats, (i + 1) as nat, cats.len());
            }
            assert(cats[i as int].tools.len() == self.schema.categories@[i as int].tools@.len());
            total_count = total_count + self.schema.categories[i].tools.len();
            i = i + 1;
        }
        push_str(&mut out, "## 概览\n\n- **Namespaces**: ");
        push_decimal(&mut out, self.schema.categories.len() as u128);
        push_str(&mut out, "\n- **Total Tools**: ");
        push_decimal(&mut out, total_count as u128);
        push_str(&mut out, "\n\n");
        push_str(&mut out, "## 可用 Namespaces\n\n");
        push_str(&mut out, "| Namespace | 描述 | 命令数 | 技能文件 |\n");
        push_str(&mut out, "|-----------|------|--------|----------|\n");
        let ghost start = out@;
        let mut j: usize = 0;
        while j < self.schema.categories.len()
            invariant
                cats == self.schema@.categories,
                j <= cats.len(),
                out@ == start + readme_rows(cats, j as nat),
            decreases cats.len() - j,
        {
            let category = &self.schema.categories[j];
            assert(cats[j as int] == category@);
            push_readme_row(&mut out, category);
            j = j + 1;
        }
        push_str(&mut out, README_TAIL);
        chars_to_string(out.as_slice())
    }

    /// The skill file of one category: overview table, per-command details
    /// (parameters and an example) and a typical workflow.
    pub fn generate_namespace_skill(&self, category: &McpCategory) -> (content: String)
        requires
            category_cuts_cleanly(category@, self.schema@.tools),
        ensures
            content@ == spec_namespace_skill(category@, self.schema@.tools),
    {
        let ghost c = category@;
        let namespace = extract_namespace(category.name.as_str());
        let ns = namespace.as_str();
        let mut out: Vec<char> = Vec::new();
        push_str(&mut out, "# lx ");
        push_str(&mut out, ns);
        push_str(&mut out, " - ");
        push_str(&mut out, category.name.as_str());
        push_str(&mut out, "\n\n");
        if let Some(desc) = &category.description {
            push_str(&mut out, desc.as_str());
            push_str(&mut out, "\n\n");
        }
        push_str(&mut out, "## 命令概览\n\n");
        push_str(&mut out, "| 命令 | 描述 |\n");
        push_str(&mut out, "|------|------|\n");
        let ghost start = out@;
        let mut i: usize = 0;
        while i < category.tools.len()
            invariant
                c == category@,
                category_cuts_cleanly(c, self.schema@.tools),
                ns@ == spec_extract_namespace(c.name),
                i <= c.tools.len(),
                out@ == start + overview_rows(ns@, c.tools, i as nat),
            decreases c.tools.len() - i,
        {
            let tool = &category.tools[i];
            assert(c.tools[i as int] == tool@);
            assert(truncatable(text_or(c.tools[i as int].description, "无描述"@), 80, 77));
            push_overview_row(&mut out, ns, tool);
            i = i + 1;
        }
        push_str(&mut out, "\n## 命令详情\n\n");
        let ghost start2 = out@;
        let mut j: usize = 0;
        while j < category.tools.len()
            invariant
                c == category@,
                category_cuts_cleanly(c, self.schema@.tools),
                ns@ == spec_extract_namespace(c.name),
                j <= c.tools.len(),
                out@ == start2 + command_details(ns@, c.tools, self.schema@.tools, j as nat),
            decreases c.tools.len() - j,
        {
            let tool = &category.tools[j];
            assert(c.tools[j as int] == tool@);
            self.push_command_detail(&mut out, ns, tool);
            j = j + 1;
        }
        push_str(&mut out, "## 典型工作流\n\n");
        let workflow = self.generate_workflow_examples(ns);
        push_str(&mut out, workflow.as_str());
        chars_to_string(out.as_slice())
    }

    /// Appends the detailed section of one command.
    fn push_command_detail(&self, out: &mut Vec<char>, ns: &str, tool: &crate::schema::McpCategoryTool)
        requires
            truncatable(text_or(tool@.description, "无描述"@), 80, 77),
            match lookup(self.schema@.tools, tool@.name) {
                Some(f) => match f.input_schema {
                    Some(inp) => forall|k: int|
                        0 <= k < inp.properties.len() ==> truncatable(
                            text_or(#[trigger] inp.properties[k].1.description, "-"@),
                            60,
                            57,
                        ),
                    None => true,
                },
                None => true,
            },
        ensures
            final(out)@ == old(out)@ + command_detail(ns@, tool@, self.schema@.tools),
    {
        push_detail_head(out, ns, tool);
        let full = self.schema.tools.get(tool.name.as_str());
        self.push_params_section(out, full);
        push_detail_example(out, ns, tool, full);
    }

    /// Appends the parameter table of a tool's full schema, if it lists parameters.
    fn push_params_section(&self, out: &mut Vec<char>, full: Option<&crate::schema::McpToolSchema>)
        requires
            match full {
                Some(f) => match f@.input_schema {
                    Some(inp) => forall|k: int|
                        0 <= k < inp.properties.len() ==> truncatable(
                            text_or(#[trigger] inp.properties[k].1.description, "-"@),
                            60,
                            57,
                        ),
                    None => true,
                },
                None => true,
            },
        ensures
            final(out)@ == old(out)@ + params_section(match full {
                Some(f) => Some(f@),
                None => None,
            }),
    {
        match full {
            Some(full_schema) => match &full_schema.input_schema {
                Some(input) => {
                    if !input.properties.is_empty() {
                        push_str(out, "**参数**:\n\n");
                        push_str(out, "| 参数 | 类型 | 必填 | 描述 |\n");
                        push_str(out, "|------|------|------|------|\n");
                        let props = &input.properties;
                        let n = props.len();
                        let ghost start = out@;
                        let mut k: usize = 0;
                        while k < n
                            invariant
                                n == props@.len(),
                                props@ == input@.properties,
                                forall|m: int|
                                    0 <= m < input@.properties.len() ==> truncatable(
                                        text_or(#[trigger] input@.properties[m].1.description, "-"@),
                                        60,
                                        57,
                                    ),
                                k <= n,
                                out@ == start + param_rows(props@, strings_view(input.required@), k as nat),
                            decreases n - k,
                        {
                            let name = props.key_at(k);
                            let prop = props.value_at(k);
                            assert(truncatable(text_or(input@.properties[k as int].1.description, "-"@), 60, 57));
                            push_param_row(out, name.as_str(), prop, &input.required);
                            k = k + 1;
                        }
                        push_str(out, "\n");
                    }
                },
                None => {},
            },
            None => {},
        }
    }

    /// The typical-workflow section of a namespace.
    pub fn generate_workflow_examples(&self, namespace: &str) -> (content: String)
        ensures
            content@ == spec_workflow(namespace@),
    {
        let mut out: Vec<char> = Vec::new();
        if str_eq(namespace, "team") {
            push_str(&mut out, WORKFLOW_TEAM);
        } else if str_eq(namespace, "space") {
            push_str(&mut out, WORKFLOW_SPACE);
        } else if str_eq(namespace, "entry") {
            push_str(&mut out, WORKFLOW_ENTRY);
        } else if str_eq(namespace, "search") {
            push_str(&mut out, WORKFLOW_SEARCH);
        } else if str_eq(namespace, "block") {
            push_str(&mut out, WORKFLOW_BLOCK);
        } else if str_eq(namespace, "file") {
            push_str(&mut out, WORKFLOW_FILE);
        } else {
            push_str(&mut out, "### 使用 ");
            push_str(&mut out, namespace);
            push_str(&mut out, " namespace\n\n");
            push_str(&mut out, "```bash\n");
            push_str(&mut out, "# 查看 ");
            push_str(&mut out, namespace);
            push_str(&mut out, " 命令帮助\n");
            push_str(&mut out, "lx ");
            push_str(&mut out, namespace);
            push_str(&mut out, " --help\n");
            push_str(&mut out, "```\n");
        }
        chars_to_string(out.as_slice())
    }
}

/// Appends the heading of the detailed section of one command.
fn push_detail_head(out: &mut Vec<char>, ns: &str, tool: &crate::schema::McpCategoryTool)
    ensures
        final(out)@ == old(out)@ + detail_head(ns@, tool@),
{
    let cmd_name = extract_command_name(tool.name.as_str(), ns);
    push_str(out, "### `lx ");
    push_str(out, ns);
    push_str(out, " ");
    push_str(out, cmd_name.as_str());
    push_str(out, "`\n\n");
    if let Some(desc) = &tool.description {
        push_str(out, desc.as_str());
        push_str(out, "\n\n");
    }
    push_str(out, "**MCP Tool**: `");
    push_str(out, tool.name.as_str());
    push_str(out, "`\n\n");
}

/// Appends the example of the detailed section of one command.
fn push_detail_example(
    out: &mut Vec<char>,
    ns: &str,
    tool: &crate::schema::McpCategoryTool,
    full: Option<&crate::schema::McpToolSchema>,
)
    ensures
        final(out)@ == old(out)@ + detail_example(ns@, tool@, match full {
            Some(f) => Some(f@),
            None => None,
        }),
{
    let cmd_name = extract_command_name(tool.name.as_str(), ns);
    push_str(out, "**示例**:\n\n");
    push_str(out, "```bash\n");
    push_str(out, "lx ");
    push_str(out, ns);
    push_str(out, " ");
    push_str(out, cmd_name.as_str());
    push_example_section(out, full);
    push_str(out, "\n```\n\n");
    push_str(out, "---\n\n");
}

/// Appends the required arguments of an example command.
fn push_example_section(out: &mut Vec<char>, full: Option<&crate::schema::McpToolSchema>)
    ensures
        final(out)@ == old(out)@ + example_section(match full {
            Some(f) => Some(f@),
            None => None,
        }),
{
    match full {
        Some(full_schema) => match &full_schema.input_schema {
            Some(input) => {
                let ghost start = out@;
                let mut k: usize = 0;
                while k < input.required.len()
                    invariant
                        k <= input.required@.len(),
                        out@ == start + example_args(strings_view(input.required@), k as nat),
                    decreases input.required@.len() - k,
                {
                    let name = &input.required[k];
                    assert(strings_view(input.required@)[k as int] == name@);
                    push_str(out, " --");
                    let arg = to_kebab_case(name.as_str());
                    push_str(out, arg.as_str());
                    push_str(out, " <");
                    let upper = to_upper(name.as_str());
                    push_str(out, upper.as_str());
                    push_str(out, ">");
                    k = k + 1;
                }
            },
            None => {},
        },
        None => {},
    }
}

/// Appends one row of the namespace table of the overview.
fn push_readme_row(out: &mut Vec<char>, category: &McpCategory)
    ensures
        final(out)@ == old(out)@ + readme_row(category@),
{
    let namespace = extract_namespace(category.name.as_str());
    push_str(out, "| `");
    push_str(out, namespace.as_str());
    push_str(out, "` | ");
    match &category.description {
        Some(d) => push_str(out, d.as_str()),
        None => push_str(out, "无描述"),
    }
    push_str(out, " | ");
    push_decimal(out, category.tools.len() as u128);
    push_str(out, " | [");
    push_str(out, namespace.as_str());
    push_str(out, ".md](");
    push_str(out, namespace.as_str());
    push_str(out, ".md) |\n");
}

/// Appends one row of the command overview of a namespace.
fn push_overview_row(out: &mut Vec<char>, ns: &str, tool: &crate::schema::McpCategoryTool)
    requires
        truncatable(text_or(tool@.description, "无描述"@), 80, 77),
    ensures
        final(out)@ == old(out)@ + overview_row(ns@, tool@),
{
    let cmd_name = extract_command_name(tool.name.as_str(), ns);
    let desc = match &tool.description {
        Some(d) => d.as_str(),
        None => "无描述",
    };
    let short_desc = shorten_description(desc, 80, 77);
    push_str(out, "| `lx ");
    push_str(out, ns);
    push_str(out, " ");
    push_str(out, cmd_name.as_str());
    push_str(out, "` | ");
    push_str(out, short_desc.as_str());
    push_str(out, " |\n");
}

/// Appends one row of a parameter table.
fn push_param_row(
    out: &mut Vec<char>,
    name: &str,
    prop: &crate::schema::McpPropertySchema,
    required: &Vec<String>,
)
    requires
        truncatable(text_or(prop@.description, "-"@), 60, 57),
    ensures
        final(out)@ == old(out)@ + param_row(name@, prop@, strings_view(required@)),
{
    let arg_name = to_kebab_case(name);
    let type_str = match &prop.type_ {
        Some(t) => t.as_str(),
        None => "string",
    };
    let req = if contains_string(required, name) {
        "是"
    } else {
        "否"
    };
    let desc = match &prop.description {
        Some(d) => d.as_str(),
        None => "-",
    };
    let short_desc = shorten_description(desc, 60, 57);
    push_str(out, "| `--");
    push_str(out, arg_name.as_str());
    push_str(out, "` | ");
    push_str(out, type_str);
    push_str(out, " | ");
    push_str(out, req);
    push_str(out, " | ");
    push_str(out, short_desc.as_str());
    push_str(out, " |\n");
}

/// Whether a vector of strings holds `s`.
pub fn contains_string(v: &Vec<String>, s: &str) -> (b: bool)
    ensures
        b == strings_view(v@).contains(s@),
{
    let mut i: usize = 0;
    while i < v.len()
        invariant
            i <= v@.len(),
            forall|j: int| 0 <= j < i ==> v@[j]@ != s@,
        decreases v@.len() - i,
    {
        if str_eq(v[i].as_str(), s) {
            assert(strings_view(v@)[i as int] == s@);
            return true;
        }
        i = i + 1;
    }
    proof {
        if strings_view(v@).contains(s@) {
            let j = choose|j: int| 0 <= j < strings_view(v@).len() && strings_view(v@)[j] == s@;
            assert(v@[j]@ == s@);
        }
    }
    false
}

/// The tool counts add up monotonically.
proof fn lemma_total_tools_monotone(cats: Seq<CategoryView>, i: nat, j: nat)
    requires
        i <= j <= cats.len(),
    ensures
        total_tools(cats, i) <= total_tools(cats, j),
    decreases j - i,
{
    if i < j {
        lemma_total_tools_monotone(cats, i, (j - 1) as nat);
    }
}

/// Skill files for a collection, under the given skills directory.
pub fn generate_skills(schema: &McpSchemaCollection, skills_dir: &str) -> (files: Vec<SkillFile>)
    requires
        total_tools(schema@.categories, schema@.categories.len()) <= usize::MAX,
        collection_cuts_cleanly(schema@),
    ensures
        files@.len() == schema@.categories.len() + 1,
        files@[0].path@ == spec_join(skills_dir@, "README.md"@),
        files@[0].content@ == spec_readme(schema@),
        forall|i: int|
            0 <= i < schema@.categories.len() ==> {
                &&& (#[trigger] files@[i + 1]).path@ == spec_join(
                    skills_dir@,
                    spec_extract_namespace(schema@.categories[i].name) + ".md"@,
                )
                &&& files@[i + 1].content@ == spec_namespace_skill(schema@.categories[i], schema@.tools)
            },
{
    let generator = SkillGenerator::new(schema, skills_dir.to_owned());
    generator.render_all()
}

/// The cells of a parameter row before its 必填 cell: `| `--name` | type | `.
pub open spec fn row_lead(name: Seq<char>, p: PropertyView) -> Seq<char> {
    "| `--"@ + spec_to_kebab_case(name) + "` | "@ + text_or(p.type_, "string"@) + " | "@
}

/// The cells of a parameter row after its 必填 cell: ` | description |`.
pub open spec fn row_tail(p: PropertyView) -> Seq<char> {
    " | "@ + shorten(text_or(p.description, "-"@), 60, 57) + " |\n"@
}

/// In a parameter table the 必填 cell of a parameter reads 是 exactly when
/// its name is in the tool's required list, and 否 otherwise; the rest of
/// the row does not depend on the list. So the same parameter, required in
/// one list and not in another, gets two rows that differ in that cell
/// alone.
pub proof fn law_required_cell(
    name: Seq<char>,
    p: PropertyView,
    required: Seq<Seq<char>>,
    other: Seq<Seq<char>>,
)
    ensures
        required.contains(name) ==> param_row(name, p, required) == row_lead(name, p) + "是"@ + row_tail(p),
        !required.contains(name) ==> param_row(name, p, required) == row_lead(name, p) + "否"@ + row_tail(p),
        required.contains(name) && !other.contains(name) ==> param_row(name, p, required) != param_row(
            name,
            p,
            other,
        ),
{
    let lead = row_lead(name, p);
    let tail = row_tail(p);
    reveal_strlit("是");
    reveal_strlit("否");
    if required.contains(name) && !other.contains(name) {
        let a = lead + "是"@ + tail;
        let b = lead + "否"@ + tail;
        assert(param_row(name, p, required) =~= a);
        assert(param_row(name, p, other) =~= b);
        assert(a[lead.len() as int] == '是');
        assert(b[lead.len() as int] == '否');
    }
    assert(required.contains(name) ==> param_row(name, p, required) =~= lead + "是"@ + tail);
    assert(!required.contains(name) ==> param_row(name, p, required) =~= lead + "否"@ + tail);
}

} // verus!
