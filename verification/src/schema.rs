//! MCP tool schemas: the collection of categories and tools that the server
//! describes, the naming rules that turn them into CLI commands, and the
//! schema manager that merges the embedded and the dynamic tool tables.

use vstd::prelude::*;
use crate::ir::{clone_opt, opt_view};
use crate::strmap::{has_key, keys_of, keys_unique, lookup, StrMap};
use crate::text::{chars_eq, chars_to_string, str_to_chars};

verus! {

// ---------------------------------------------------------------------------
// Types
// ---------------------------------------------------------------------------

/// A value that can be copied with a verified, view-preserving copy.
pub trait DeepCopy: View + Sized {
    fn deep_copy(&self) -> (r: Self)
        ensures
            r@ == self@;
}

/// One parameter of a tool.
#[derive(Debug, Clone, Default)]
pub struct McpPropertySchema {
    pub type_: Option<String>,
    pub description: Option<String>,
}

pub struct PropertyView {
    pub type_: Option<Seq<char>>,
    pub description: Option<Seq<char>>,
}

impl View for McpPropertySchema {
    type V = PropertyView;

    open spec fn view(&self) -> PropertyView {
        PropertyView { type_: opt_view(self.type_), description: opt_view(self.description) }
    }
}

impl DeepCopy for McpPropertySchema {
    fn deep_copy(&self) -> (r: Self) {
        McpPropertySchema { type_: clone_opt(&self.type_), description: clone_opt(&self.description) }
    }
}

/// The views of a vector of strings.
pub open spec fn strings_view(v: Seq<String>) -> Seq<Seq<char>> {
    v.map_values(|s: String| s@)
}

/// A copy of a vector of strings.
pub fn copy_strings(v: &Vec<String>) -> (r: Vec<String>)
    ensures
        strings_view(r@) == strings_view(v@),
{
    let mut r: Vec<String> = Vec::new();
    let mut i: usize = 0;
    while i < v.len()
        invariant
            i <= v@.len(),
            r@.len() == i,
            forall|j: int| 0 <= j < i ==> #[trigger] r@[j]@ == v@[j]@,
        decreases v@.len() - i,
    {
        r.push(v[i].clone());
        i = i + 1;
    }
    assert(strings_view(r@) =~= strings_view(v@));
    r
}

impl<V: DeepCopy> DeepCopy for StrMap<V> {
    fn deep_copy(&self) -> (r: Self) {
        let mut r: StrMap<V> = StrMap::new();
        let n = self.len();
        let mut i: usize = 0;
        while i < n
            invariant
                n == self@.len(),
                i <= self@.len(),
                keys_unique(self@),
                r@ == self@.take(i as int),
            decreases self@.len() - i,
        {
            proof {
                if has_key(r@, self@[i as int].0) {
                    let j = choose|j: int| 0 <= j < r@.len() && #[trigger] r@[j].0 == self@[i as int].0;
                    assert(self@[j].0 == self@[i as int].0);
                }
            }
            r.insert(self.key_at(i).clone(), self.value_at(i).deep_copy());
            i = i + 1;
            assert(r@ =~= self@.take(i as int));
        }
        assert(self@.take(self@.len() as int) =~= self@);
        r
    }
}

/// The parameter schema of a tool.
#[derive(Debug, Default)]
pub struct McpInputSchema {
    pub type_: Option<String>,
    pub properties: StrMap<McpPropertySchema>,
    pub required: Vec<String>,
}

pub struct InputView {
    pub type_: Option<Seq<char>>,
    pub properties: Seq<(Seq<char>, PropertyView)>,
    pub required: Seq<Seq<char>>,
}

impl View for McpInputSchema {
    type V = InputView;

    open spec fn view(&self) -> InputView {
        InputView {
            type_: opt_view(self.type_),
            properties: self.properties@,
            required: strings_view(self.required@),
        }
    }
}

impl DeepCopy for McpInputSchema {
    fn deep_copy(&self) -> (r: Self) {
        McpInputSchema {
            type_: clone_opt(&self.type_),
            properties: self.properties.deep_copy(),
            required: copy_strings(&self.required),
        }
    }
}

/// The view of an optional input schema.
pub open spec fn input_view(o: Option<McpInputSchema>) -> Option<InputView> {
    match o {
        Some(s) => Some(s@),
        None => None,
    }
}

/// A copy of an optional input schema.
pub fn copy_input(o: &Option<McpInputSchema>) -> (r: Option<McpInputSchema>)
    ensures
        input_view(r) == input_view(*o),
{
    match o {
        Some(s) => Some(s.deep_copy()),
        None => None,
    }
}

/// The full schema of one tool, with the CLI names it is reached by.
#[derive(Debug, Default)]
pub struct McpToolSchema {
    pub name: String,
    pub description: Option<String>,
    pub input_schema: Option<McpInputSchema>,
    pub namespace: Option<String>,
    pub command_name: Option<String>,
}

pub struct ToolView {
    pub name: Seq<char>,
    pub description: Option<Seq<char>>,
    pub input_schema: Option<InputView>,
    pub namespace: Option<Seq<char>>,
    pub command_name: Option<Seq<char>>,
}

impl View for McpToolSchema {
    type V = ToolView;

    open spec fn view(&self) -> ToolView {
        ToolView {
            name: self.name@,
            description: opt_view(self.description),
            input_schema: input_view(self.input_schema),
            namespace: opt_view(self.namespace),
            command_name: opt_view(self.command_name),
        }
    }
}

impl DeepCopy for McpToolSchema {
    fn deep_copy(&self) -> (r: Self) {
        McpToolSchema {
            name: self.name.clone(),
            description: clone_opt(&self.description),
            input_schema: copy_input(&self.input_schema),
            namespace: clone_opt(&self.namespace),
            command_name: clone_opt(&self.command_name),
        }
    }
}

/// A tool as listed in a category.
#[derive(Debug, Clone, Default)]
pub struct McpCategoryTool {
    pub name: String,
    pub description: Option<String>,
}

pub struct CategoryToolView {
    pub name: Seq<char>,
    pub description: Option<Seq<char>>,
}

impl View for McpCategoryTool {
    type V = CategoryToolView;

    open spec fn view(&self) -> CategoryToolView {
        CategoryToolView { name: self.name@, description: opt_view(self.description) }
    }
}

/// A category of tools; its name ends with the CLI namespace.
#[derive(Debug, Clone, Default)]
pub struct McpCategory {
    pub name: String,
    pub description: Option<String>,
    pub tool_count: usize,
    pub tools: Vec<McpCategoryTool>,
}

pub struct CategoryView {
    pub name: Seq<char>,
    pub description: Option<Seq<char>>,
    pub tool_count: usize,
    pub tools: Seq<CategoryToolView>,
}

impl View for McpCategory {
    type V = CategoryView;

    open spec fn view(&self) -> CategoryView {
        CategoryView {
            name: self.name@,
            description: opt_view(self.description),
            tool_count: self.tool_count,
            tools: self.tools@.map_values(|t: McpCategoryTool| t@),
        }
    }
}

/// Every category and every tool schema the server describes.
#[derive(Debug, Default)]
pub struct McpSchemaCollection {
    pub version: String,
    pub categories: Vec<McpCategory>,
    pub tools: StrMap<McpToolSchema>,
}

pub struct CollectionView {
    pub version: Seq<char>,
    pub categories: Seq<CategoryView>,
    pub tools: Seq<(Seq<char>, ToolView)>,
}

impl View for McpSchemaCollection {
    type V = CollectionView;

    open spec fn view(&self) -> CollectionView {
        CollectionView {
            version: self.version@,
            categories: self.categories@.map_values(|c: McpCategory| c@),
            tools: self.tools@,
        }
    }
}

/// A tool schema in the form the command layer consumes.
#[derive(Debug, Default)]
pub struct ToolSchema {
    pub name: String,
    pub description: Option<String>,
    pub input_schema: Option<McpInputSchema>,
}

pub struct ToolSchemaView {
    pub name: Seq<char>,
    pub description: Option<Seq<char>>,
    pub input_schema: Option<InputView>,
}

impl View for ToolSchema {
    type V = ToolSchemaView;

    open spec fn view(&self) -> ToolSchemaView {
        ToolSchemaView {
            name: self.name@,
            description: opt_view(self.description),
            input_schema: input_view(self.input_schema),
        }
    }
}

impl DeepCopy for ToolSchema {
    fn deep_copy(&self) -> (r: Self) {
        ToolSchema {
            name: self.name.clone(),
            description: clone_opt(&self.description),
            input_schema: copy_input(&self.input_schema),
        }
    }
}

// ---------------------------------------------------------------------------
// Naming rules
// ---------------------------------------------------------------------------

/// The part of a category name after its last `.` (the whole name if none).
pub open spec fn spec_extract_namespace(name: Seq<char>) -> Seq<char>
    decreases name.len(),
{
    if name.len() == 0 {
        name
    } else if name.last() == '.' {
        Seq::empty()
    } else {
        spec_extract_namespace(name.drop_last()).push(name.last())
    }
}

/// The namespace of a category: the part of its name after the last `.`.
pub fn extract_namespace(name: &str) -> (ns: String)
    ensures
        ns@ == spec_extract_namespace(name@),
{
    let chars = str_to_chars(name);
    let mut out: Vec<char> = Vec::new();
    let mut i: usize = 0;
    while i < chars.len()
        invariant
            chars@ == name@,
            i <= chars@.len(),
            out@ == spec_extract_namespace(chars@.take(i as int)),
        decreases chars@.len() - i,
    {
        assert(chars@.take(i + 1).drop_last() == chars@.take(i as int));
        if chars[i] == '.' {
            out = Vec::new();
        } else {
            out.push(chars[i]);
        }
        i = i + 1;
    }
    assert(chars@.take(chars@.len() as int) == chars@);
    chars_to_string(out.as_slice())
}

/// A snake-case identifier in kebab case: `_` becomes `-`.
pub open spec fn spec_to_kebab_case(s: Seq<char>) -> Seq<char> {
    s.map_values(|c: char| if c == '_' { '-' } else { c })
}

/// Kebab case of a snake-case identifier.
pub fn to_kebab_case(s: &str) -> (r: String)
    ensures
        r@ == spec_to_kebab_case(s@),
{
    let chars = str_to_chars(s);
    let mut out: Vec<char> = Vec::new();
    let mut i: usize = 0;
    while i < chars.len()
        invariant
            chars@ == s@,
            i <= chars@.len(),
            out@ == spec_to_kebab_case(chars@.take(i as int)),
        decreases chars@.len() - i,
    {
        let c = chars[i];
        out.push(if c == '_' { '-' } else { c });
        i = i + 1;
        assert(out@ =~= spec_to_kebab_case(chars@.take(i as int)));
    }
    assert(chars@.take(chars@.len() as int) == chars@);
    chars_to_string(out.as_slice())
}

/// The CLI command of a tool: its name without the `namespace_` prefix, in kebab case.
pub open spec fn spec_extract_command_name(tool: Seq<char>, namespace: Seq<char>) -> Seq<char> {
    let prefix = namespace.push('_');
    if prefix.is_prefix_of(tool) {
        spec_to_kebab_case(tool.skip(prefix.len() as int))
    } else {
        spec_to_kebab_case(tool)
    }
}

/// The CLI command of a tool within a namespace.
pub fn extract_command_name(tool_name: &str, namespace: &str) -> (cmd: String)
    ensures
        cmd@ == spec_extract_command_name(tool_name@, namespace@),
{
    let tool = str_to_chars(tool_name);
    let mut prefix = str_to_chars(namespace);
    prefix.push('_');
    let mut is_prefix = prefix.len() <= tool.len();
    let mut i: usize = 0;
    while is_prefix && i < prefix.len()
        invariant
            prefix@.len() <= tool@.len() || !is_prefix,
            i <= prefix@.len(),
            is_prefix ==> forall|j: int| 0 <= j < i ==> prefix@[j] == tool@[j],
            !is_prefix ==> !prefix@.is_prefix_of(tool@),
        decreases prefix@.len() - i,
    {
        if prefix[i] != tool[i] {
            is_prefix = false;
        }
        i = i + 1;
    }
    let start: usize = if is_prefix { prefix.len() } else { 0 };
    proof {
        if is_prefix {
            assert(prefix@ =~= tool@.take(prefix@.len() as int));
        }
    }
    let mut out: Vec<char> = Vec::new();
    let mut k: usize = start;
    while k < tool.len()
        invariant
            start <= k <= tool@.len(),
            out@ == spec_to_kebab_case(tool@.subrange(start as int, k as int)),
        decreases tool@.len() - k,
    {
        let c = tool[k];
        out.push(if c == '_' { '-' } else { c });
        k = k + 1;
        assert(out@ =~= spec_to_kebab_case(tool@.subrange(start as int, k as int)));
    }
    proof {
        assert(tool@.subrange(start as int, tool@.len() as int) =~= tool@.skip(start as int));
        assert(tool@.skip(0) =~= tool@);
    }
    chars_to_string(out.as_slice())
}

} // verus!
