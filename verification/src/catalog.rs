//! Queries over a schema collection and the schema manager.
//!
//! The manager merges three sources of tool schemas: the embedded table built
//! into the binary, a dynamic table refreshed at run time (which wins over the
//! embedded one), and the full collection with its categories.

use vstd::prelude::*;
use crate::ir::{clone_opt, opt_view};
use crate::schema::{
    copy_input, extract_command_name, extract_namespace, input_view, spec_extract_command_name,
    spec_extract_namespace, CategoryToolView, CategoryView, CollectionView, DeepCopy,
    McpCategory, McpSchemaCollection, McpToolSchema, ToolSchema, ToolSchemaView, ToolView,
};
use crate::strmap::{has_key, keys_of, keys_unique, lookup, map_insert, StrMap};
use crate::text::str_eq;

verus! {

/// In a sequence without repeated keys, the index chosen for the key found at
/// `i` is `i`.
pub proof fn lemma_choose_index<W>(e: Seq<(Seq<char>, W)>, i: int)
    requires
        keys_unique(e),
        0 <= i < e.len(),
    ensures
        (choose|j: int| 0 <= j < e.len() && #[trigger] e[j].0 == e[i].0) == i,
{
    let k = e[i].0;
    assert(has_key(e, k));
    let j = choose|j: int| 0 <= j < e.len() && #[trigger] e[j].0 == k;
    if j < i {
        assert(e[j].0 != e[i].0);
    } else if j > i {
        assert(e[i].0 != e[j].0);
    }
}

// ---------------------------------------------------------------------------
// Namespaces and tools of a collection
// ---------------------------------------------------------------------------

/// The namespaces of the first `i` categories, in order.
pub open spec fn namespaces_of(cats: Seq<CategoryView>) -> Seq<Seq<char>> {
    cats.map_values(|c: CategoryView| spec_extract_namespace(c.name))
}

/// The schemas found in `tools` for the first `j` tools of a category.
pub open spec fn found_tools(
    ctools: Seq<CategoryToolView>,
    tools: Seq<(Seq<char>, ToolView)>,
    j: nat,
) -> Seq<ToolView>
    decreases j,
{
    if j == 0 || j > ctools.len() {
        Seq::empty()
    } else {
        found_tools(ctools, tools, (j - 1) as nat) + match lookup(tools, ctools[j - 1].name) {
            Some(t) => seq![t],
            None => Seq::empty(),
        }
    }
}

/// The schemas of the tools listed by the first `i` categories of namespace `ns`.
pub open spec fn tools_in_namespace(
    cats: Seq<CategoryView>,
    tools: Seq<(Seq<char>, ToolView)>,
    ns: Seq<char>,
    i: nat,
) -> Seq<ToolView>
    decreases i,
{
    if i == 0 || i > cats.len() {
        Seq::empty()
    } else {
        tools_in_namespace(cats, tools, ns, (i - 1) as nat) + if spec_extract_namespace(
            cats[i - 1].name,
        ) == ns {
            found_tools(cats[i - 1].tools, tools, cats[i - 1].tools.len())
        } else {
            Seq::empty()
        }
    }
}

/// The views of a sequence of tool references.
pub open spec fn tool_refs_view(v: Seq<&McpToolSchema>) -> Seq<ToolView> {
    v.map_values(|t: &McpToolSchema| t@)
}

impl McpSchemaCollection {
    /// The namespace of every category, in category order.
    pub fn get_namespaces(&self) -> (r: Vec<String>)
        ensures
            r@.map_values(|s: String| s@) == namespaces_of(self@.categories),
    {
        let mut r: Vec<String> = Vec::new();
        let mut i: usize = 0;
        while i < self.categories.len()
            invariant
                i <= self.categories@.len(),
                r@.len() == i,
                forall|j: int| 0 <= j < i ==> #[trigger] r@[j]@ == spec_extract_namespace(
                    self.categories@[j].name@,
                ),
            decreases self.categories@.len() - i,
        {
            r.push(extract_namespace(self.categories[i].name.as_str()));
            i = i + 1;
        }
        assert(r@.map_values(|s: String| s@) =~= namespaces_of(self@.categories));
        r
    }

    /// The schemas of the tools that the categories of `namespace` list, in
    /// category order and then list order; tools without a schema are skipped.
    pub fn get_tools_by_namespace(&self, namespace: &str) -> (r: Vec<&McpToolSchema>)
        ensures
            tool_refs_view(r@) == tools_in_namespace(
                self@.categories,
                self@.tools,
                namespace@,
                self@.categories.len(),
            ),
    {
        let ghost cats = self@.categories;
        let mut r: Vec<&McpToolSchema> = Vec::new();
        let mut i: usize = 0;
        while i < self.categories.len()
            invariant
                cats == self@.categories,
                i <= cats.len(),
                tool_refs_view(r@) == tools_in_namespace(cats, self@.tools, namespace@, i as nat),
            decreases cats.len() - i,
        {
            let category = &self.categories[i];
            assert(cats[i as int] == category@);
            let ns = extract_namespace(category.name.as_str());
            if str_eq(ns.as_str(), namespace) {
                let ghost before = r@;
                let mut j: usize = 0;
                while j < category.tools.len()
                    invariant
                        cats == self@.categories,
                        i < cats.len(),
                        cats[i as int] == category@,
                        j <= category.tools@.len(),
                        tool_refs_view(r@) == tool_refs_view(before) + found_tools(
                            category@.tools,
                            self@.tools,
                            j as nat,
                        ),
                    decreases category.tools@.len() - j,
                {
                    assert(category@.tools[j as int] == category.tools@[j as int]@);
                    match self.tools.get(category.tools[j].name.as_str()) {
                        Some(t) => {
                            assert(found_tools(category@.tools, self@.tools, (j + 1) as nat)
                                == found_tools(category@.tools, self@.tools, j as nat) + seq![t@]);
                            let ghost prev = r@;
                            r.push(t);
                            assert(tool_refs_view(r@) =~= tool_refs_view(prev) + seq![t@]);
                            assert(tool_refs_view(r@) =~= tool_refs_view(before) + found_tools(
                                category@.tools,
                                self@.tools,
                                (j + 1) as nat,
                            ));
                        },
                        None => {},
                    }
                    j = j + 1;
                }
            }
            i = i + 1;
        }
        r
    }
}

// ---------------------------------------------------------------------------
// Tables derived from a collection
// ---------------------------------------------------------------------------

/// The tool schema for a collection entry.
pub open spec fn tool_schema_of(key: Seq<char>, t: ToolView) -> ToolSchemaView {
    ToolSchemaView { name: key, description: t.description, input_schema: t.input_schema }
}

/// Every tool of a collection as a tool schema named by its key, in the same order.
pub open spec fn spec_tool_schemas(tools: Seq<(Seq<char>, ToolView)>) -> Seq<(Seq<char>, ToolSchemaView)> {
    tools.map_values(|p: (Seq<char>, ToolView)| (p.0, tool_schema_of(p.0, p.1)))
}

/// The tool table of a collection, as the command layer consumes it.
pub fn tool_schemas_from_collection(collection: &McpSchemaCollection) -> (r: StrMap<ToolSchema>)
    ensures
        r@ == spec_tool_schemas(collection@.tools),
{
    let tools = &collection.tools;
    let n = tools.len();
    let mut r: StrMap<ToolSchema> = StrMap::new();
    let mut i: usize = 0;
    while i < n
        invariant
            n == tools@.len(),
            keys_unique(tools@),
            i <= n,
            r@ == spec_tool_schemas(tools@).take(i as int),
        decreases n - i,
    {
        let key = tools.key_at(i);
        let tool = tools.value_at(i);
        proof {
            if has_key(r@, key@) {
                let j = choose|j: int| 0 <= j < r@.len() && #[trigger] r@[j].0 == key@;
                assert(tools@[j].0 == tools@[i as int].0);
            }
        }
        let schema = ToolSchema {
            name: key.clone(),
            description: clone_opt(&tool.description),
            input_schema: copy_input(&tool.input_schema),
        };
        r.insert(key.clone(), schema);
        i = i + 1;
        assert(r@ =~= spec_tool_schemas(tools@).take(i as int));
    }
    assert(spec_tool_schemas(tools@).take(n as int) =~= spec_tool_schemas(tools@));
    r
}

/// `tools` with the entry for `name` given a namespace and a command name.
pub open spec fn set_command_name(
    tools: Seq<(Seq<char>, ToolView)>,
    name: Seq<char>,
    ns: Seq<char>,
) -> Seq<(Seq<char>, ToolView)> {
    if has_key(tools, name) {
        let i = choose|i: int| 0 <= i < tools.len() && #[trigger] tools[i].0 == name;
        tools.update(
            i,
            (
                name,
                ToolView {
                    namespace: Some(ns),
                    command_name: Some(spec_extract_command_name(name, ns)),
                    ..tools[i].1
                },
            ),
        )
    } else {
        tools
    }
}

/// `tools` after naming the first `j` tools of a category of namespace `ns`.
pub open spec fn name_category_tools(
    tools: Seq<(Seq<char>, ToolView)>,
    ctools: Seq<CategoryToolView>,
    ns: Seq<char>,
    j: nat,
) -> Seq<(Seq<char>, ToolView)>
    decreases j,
{
    if j == 0 || j > ctools.len() {
        tools
    } else {
        set_command_name(name_category_tools(tools, ctools, ns, (j - 1) as nat), ctools[j - 1].name, ns)
    }
}

/// `tools` after naming the tools of the first `i` categories.
pub open spec fn name_all_tools(
    tools: Seq<(Seq<char>, ToolView)>,
    cats: Seq<CategoryView>,
    i: nat,
) -> Seq<(Seq<char>, ToolView)>
    decreases i,
{
    if i == 0 || i > cats.len() {
        tools
    } else {
        let prev = name_all_tools(tools, cats, (i - 1) as nat);
        name_category_tools(
            prev,
            cats[i - 1].tools,
            spec_extract_namespace(cats[i - 1].name),
            cats[i - 1].tools.len(),
        )
    }
}

/// Fills in the namespace and command name of every tool that a category
/// lists (a collection read from JSON carries neither).
pub fn with_command_names(collection: McpSchemaCollection) -> (r: McpSchemaCollection)
    ensures
        r@.version == collection@.version,
        r@.categories == collection@.categories,
        r@.tools == name_all_tools(
            collection@.tools,
            collection@.categories,
            collection@.categories.len(),
        ),
{
    let McpSchemaCollection { version, categories, mut tools } = collection;
    let ghost cats = collection@.categories;
    let ghost tools0 = collection@.tools;
    assert(categories@.map_values(|c: McpCategory| c@) == cats);
    let mut i: usize = 0;
    while i < categories.len()
        invariant
            categories@.map_values(|c: McpCategory| c@) == cats,
            i <= cats.len(),
            tools@ == name_all_tools(tools0, cats, i as nat),
        decreases cats.len() - i,
    {
        let category = &categories[i];
        assert(cats[i as int] == category@);
        let ns = extract_namespace(category.name.as_str());
        let ghost before = tools@;
        let mut j: usize = 0;
        while j < category.tools.len()
            invariant
                cats[i as int] == category@,
                ns@ == spec_extract_namespace(category@.name),
                j <= category.tools@.len(),
                tools@ == name_category_tools(before, category@.tools, ns@, j as nat),
            decreases category.tools@.len() - j,
        {
            let cat_tool = &category.tools[j];
            assert(category@.tools[j as int] == cat_tool@);
            let n = tools.len();
            match tools.position(cat_tool.name.as_str()) {
                Some(pos) => {
                    proof {
                        lemma_choose_index(tools@, pos as int);
                    }
                    let old_tool = tools.value_at(pos);
                    let updated = McpToolSchema {
                        name: old_tool.name.clone(),
                        description: clone_opt(&old_tool.description),
                        input_schema: copy_input(&old_tool.input_schema),
                        namespace: Some(ns.clone()),
                        command_name: Some(extract_command_name(cat_tool.name.as_str(), ns.as_str())),
                    };
                    let ghost prev = tools@;
                    tools.set_value_at(pos, updated);
                    assert(tools@ =~= set_command_name(prev, cat_tool@.name, ns@));
                },
                None => {},
            }
            j = j + 1;
        }
        i = i + 1;
    }
    McpSchemaCollection { version, categories, tools }
}

/// A runtime collection whose tools lacking an input schema take the one the
/// embedded collection has for the same key.
pub open spec fn spec_fill_inputs(
    tools: Seq<(Seq<char>, ToolView)>,
    embedded: Seq<(Seq<char>, ToolView)>,
) -> Seq<(Seq<char>, ToolView)> {
    Seq::new(
        tools.len(),
        |i: int|
            if tools[i].1.input_schema is None && lookup(embedded, tools[i].0) is Some {
                (
                    tools[i].0,
                    ToolView {
                        input_schema: lookup(embedded, tools[i].0)->0.input_schema,
                        ..tools[i].1
                    },
                )
            } else {
                tools[i]
            },
    )
}

/// The collection the CLI runs with: the runtime one, where there is one,
/// with its missing input schemas filled in from the embedded collection
/// (if any); else the embedded collection, as the fallback.
pub fn load_schema(
    runtime: Option<McpSchemaCollection>,
    embedded: Option<McpSchemaCollection>,
) -> (r: Option<McpSchemaCollection>)
    ensures
        runtime is None ==> collection_view(r) == collection_view(embedded),
        runtime matches Some(rt) ==> r matches Some(c) && c@.version == rt@.version
            && c@.categories == rt@.categories && c@.tools == match embedded {
            Some(e) => spec_fill_inputs(rt@.tools, e@.tools),
            None => rt@.tools,
        },
{
    match runtime {
        None => embedded,
        Some(collection) => match embedded {
            None => Some(collection),
            Some(emb) => {
                let McpSchemaCollection { version, categories, mut tools } = collection;
                let ghost tools0 = tools@;
                let n = tools.len();
                let mut i: usize = 0;
                while i < n
                    invariant
                        n == tools@.len(),
                        tools0.len() == n,
                        i <= n,
                        forall|k: int| 0 <= k < i ==> #[trigger] tools@[k] == spec_fill_inputs(
                            tools0,
                            emb@.tools,
                        )[k],
                        forall|k: int| i <= k < n ==> #[trigger] tools@[k] == tools0[k],
                    decreases n - i,
                {
                    let tool = tools.value_at(i);
                    let key = tools.key_at(i);
                    if tool.input_schema.is_none() {
                        match emb.tools.get(key.as_str()) {
                            Some(embedded_tool) => {
                                let updated = McpToolSchema {
                                    name: tool.name.clone(),
                                    description: clone_opt(&tool.description),
                                    input_schema: copy_input(&embedded_tool.input_schema),
                                    namespace: clone_opt(&tool.namespace),
                                    command_name: clone_opt(&tool.command_name),
                                };
                                tools.set_value_at(i, updated);
                            },
                            None => {},
                        }
                    }
                    i = i + 1;
                }
                assert(tools@ =~= spec_fill_inputs(tools0, emb@.tools));
                Some(McpSchemaCollection { version, categories, tools })
            },
        },
    }
}

// ---------------------------------------------------------------------------
// Command lookup
// ---------------------------------------------------------------------------

/// No tool matches a namespace and command.
#[derive(Debug, Clone, PartialEq, Eq)]
pub struct ToolNotFound {
    pub namespace: String,
    pub command: String,
}

impl ToolNotFound {
    /// The message shown to the user.
    pub fn message(&self) -> (s: String)
        ensures
            s@ == "Tool not found for namespace '"@ + self.namespace@ + "' command '"@ + self.command@ + "'"@,
    {
        let mut out: Vec<char> = Vec::new();
        crate::text::push_str(&mut out, "Tool not found for namespace '");
        crate::text::push_str(&mut out, self.namespace.as_str());
        crate::text::push_str(&mut out, "' command '");
        crate::text::push_str(&mut out, self.command.as_str());
        crate::text::push_str(&mut out, "'");
        crate::text::chars_to_string(out.as_slice())
    }
}

/// The first of the first `j` tools of a category whose command is `cmd` in namespace `ns`.
pub open spec fn find_in_category(ctools: Seq<CategoryToolView>, ns: Seq<char>, cmd: Seq<char>, j: nat) -> Option<Seq<char>>
    decreases j,
{
    if j == 0 || j > ctools.len() {
        None
    } else {
        match find_in_category(ctools, ns, cmd, (j - 1) as nat) {
            Some(t) => Some(t),
            None => if spec_extract_command_name(ctools[j - 1].name, ns) == cmd {
                Some(ctools[j - 1].name)
            } else {
                None
            },
        }
    }
}

/// The first tool, over the first `i` categories of namespace `ns`, whose command is `cmd`.
pub open spec fn spec_find_tool(cats: Seq<CategoryView>, ns: Seq<char>, cmd: Seq<char>, i: nat) -> Option<Seq<char>>
    decreases i,
{
    if i == 0 || i > cats.len() {
        None
    } else {
        match spec_find_tool(cats, ns, cmd, (i - 1) as nat) {
            Some(t) => Some(t),
            None => if spec_extract_namespace(cats[i - 1].name) == ns {
                find_in_category(cats[i - 1].tools, ns, cmd, cats[i - 1].tools.len())
            } else {
                None
            },
        }
    }
}

/// Once found within a category, a tool stays the one found.
proof fn lemma_find_in_category_stable(
    ctools: Seq<CategoryToolView>,
    ns: Seq<char>,
    cmd: Seq<char>,
    j: nat,
    m: nat,
)
    requires
        j <= m <= ctools.len(),
        find_in_category(ctools, ns, cmd, j) is Some,
    ensures
        find_in_category(ctools, ns, cmd, m) == find_in_category(ctools, ns, cmd, j),
    decreases m - j,
{
    if j < m {
        lemma_find_in_category_stable(ctools, ns, cmd, j, (m - 1) as nat);
    }
}

/// Once found, a tool stays the one found over further categories.
proof fn lemma_find_tool_stable(
    cats: Seq<CategoryView>,
    ns: Seq<char>,
    cmd: Seq<char>,
    i: nat,
    m: nat,
)
    requires
        i <= m <= cats.len(),
        spec_find_tool(cats, ns, cmd, i) is Some,
    ensures
        spec_find_tool(cats, ns, cmd, m) == spec_find_tool(cats, ns, cmd, i),
    decreases m - i,
{
    if i < m {
        lemma_find_tool_stable(cats, ns, cmd, i, (m - 1) as nat);
    }
}

/// The MCP tool behind `lx <namespace> <command>`: the first tool, in
/// category order, whose category has that namespace and whose command name
/// is `command`.
pub fn find_tool_by_command(
    schema: &McpSchemaCollection,
    namespace: &str,
    command: &str,
) -> (r: Result<String, ToolNotFound>)
    ensures
        match r {
            Ok(t) => spec_find_tool(schema@.categories, namespace@, command@, schema@.categories.len())
                == Some(t@),
            Err(e) => spec_find_tool(schema@.categories, namespace@, command@, schema@.categories.len())
                is None && e.namespace@ == namespace@ && e.command@ == command@,
        },
{
    let ghost cats = schema@.categories;
    let mut i: usize = 0;
    while i < schema.categories.len()
        invariant
            cats == schema@.categories,
            i <= cats.len(),
            spec_find_tool(cats, namespace@, command@, i as nat) is None,
        decreases cats.len() - i,
    {
        let category = &schema.categories[i];
        assert(cats[i as int] == category@);
        let cat_namespace = extract_namespace(category.name.as_str());
        if str_eq(cat_namespace.as_str(), namespace) {
            let mut j: usize = 0;
            while j < category.tools.len()
                invariant
                    cats == schema@.categories,
                    i < cats.len(),
                    cats[i as int] == category@,
                    spec_find_tool(cats, namespace@, command@, i as nat) is None,
                    spec_extract_namespace(category@.name) == namespace@,
                    j <= category.tools@.len(),
                    find_in_category(category@.tools, namespace@, command@, j as nat) is None,
                decreases category.tools@.len() - j,
            {
                let tool = &category.tools[j];
                assert(category@.tools[j as int] == tool@);
                let cmd_name = extract_command_name(tool.name.as_str(), namespace);
                if str_eq(cmd_name.as_str(), command) {
                    proof {
                        assert(find_in_category(category@.tools, namespace@, command@, (j + 1) as nat)
                            == Some(tool@.name));
                        lemma_find_in_category_stable(
                            category@.tools,
                            namespace@,
                            command@,
                            (j + 1) as nat,
                            category@.tools.len(),
                        );
                        assert(spec_find_tool(cats, namespace@, command@, (i + 1) as nat)
                            == Some(tool@.name));
                        lemma_find_tool_stable(cats, namespace@, command@, (i + 1) as nat, cats.len());
                    }
                    return Ok(tool.name.clone());
                }
                j = j + 1;
            }
        }
        i = i + 1;
    }
    Err(ToolNotFound { namespace: namespace.to_owned(), command: command.to_owned() })
}

// ---------------------------------------------------------------------------
// Schema manager
// ---------------------------------------------------------------------------

/// The views of a sequence of tool schemas.
pub open spec fn tool_schemas_view(v: Seq<ToolSchema>) -> Seq<ToolSchemaView> {
    v.map_values(|t: ToolSchema| t@)
}

/// `m` after inserting the first `i` tools, each under its own name.
pub open spec fn insert_tools(
    m: Seq<(Seq<char>, ToolSchemaView)>,
    tools: Seq<ToolSchemaView>,
    i: nat,
) -> Seq<(Seq<char>, ToolSchemaView)>
    decreases i,
{
    if i == 0 || i > tools.len() {
        m
    } else {
        map_insert(insert_tools(m, tools, (i - 1) as nat), tools[i - 1].name, tools[i - 1])
    }
}

/// The view of an optional collection.
pub open spec fn collection_view(o: Option<McpSchemaCollection>) -> Option<CollectionView> {
    match o {
        Some(c) => Some(c@),
        None => None,
    }
}

/// The view of an optional tool schema.
pub open spec fn tool_schema_opt_view(o: Option<ToolSchema>) -> Option<ToolSchemaView> {
    match o {
        Some(t) => Some(t@),
        None => None,
    }
}

/// What a schema manager holds.
pub struct ManagerView {
    pub embedded: Seq<(Seq<char>, ToolSchemaView)>,
    pub dynamic: Seq<(Seq<char>, ToolSchemaView)>,
    pub collection: Option<CollectionView>,
}

/// Schema manager: merges the embedded tool table, the dynamic one (which
/// takes precedence) and the full collection with categories.
pub struct SchemaManager {
    embedded: StrMap<ToolSchema>,
    dynamic: StrMap<ToolSchema>,
    collection: Option<McpSchemaCollection>,
}

impl View for SchemaManager {
    type V = ManagerView;

    closed spec fn view(&self) -> ManagerView {
        ManagerView {
            embedded: self.embedded@,
            dynamic: self.dynamic@,
            collection: collection_view(self.collection),
        }
    }
}

/// The schema the manager answers for `name`: the dynamic one, else the embedded one.
pub open spec fn spec_tool_schema(m: ManagerView, name: Seq<char>) -> Option<ToolSchemaView> {
    match lookup(m.dynamic, name) {
        Some(t) => Some(t),
        None => lookup(m.embedded, name),
    }
}

/// The parameter names of the schema the manager answers for `name`.
pub open spec fn spec_fields(m: ManagerView, name: Seq<char>) -> Seq<Seq<char>> {
    match spec_tool_schema(m, name) {
        Some(t) => match t.input_schema {
            Some(i) => keys_of(i.properties),
            None => Seq::empty(),
        },
        None => Seq::empty(),
    }
}

impl SchemaManager {
    /// A manager over the embedded tool table, with no dynamic table and no collection.
    pub fn new(embedded: StrMap<ToolSchema>) -> (m: Self)
        ensures
            m@.embedded == embedded@,
            m@.dynamic == Seq::<(Seq<char>, ToolSchemaView)>::empty(),
            m@.collection is None,
    {
        SchemaManager { embedded, dynamic: StrMap::new(), collection: None }
    }

    /// A manager whose collection is the runtime one if there is one, and the
    /// embedded collection otherwise.
    pub fn load_from_runtime(
        embedded: StrMap<ToolSchema>,
        runtime: Option<McpSchemaCollection>,
        embedded_collection: Option<McpSchemaCollection>,
    ) -> (m: Self)
        ensures
            m@.embedded == embedded@,
            m@.dynamic == Seq::<(Seq<char>, ToolSchemaView)>::empty(),
            m@.collection == match runtime {
                Some(c) => Some(c@),
                None => collection_view(embedded_collection),
            },
    {
        let mut manager = Self::new(embedded);
        match runtime {
            Some(collection) => {
                manager.collection = Some(collection);
            },
            None => {
                manager.collection = embedded_collection;
            },
        }
        manager
    }

    /// A copy of the schema for `name`: the dynamic one, else the embedded one.
    pub fn get_tool_schema(&self, name: &str) -> (r: Option<ToolSchema>)
        ensures
            tool_schema_opt_view(r) == spec_tool_schema(self@, name@),
    {
        match self.dynamic.get(name) {
            Some(t) => Some(t.deep_copy()),
            None => match self.embedded.get(name) {
                Some(t) => Some(t.deep_copy()),
                None => None,
            },
        }
    }

    /// Replaces the dynamic table by the given tools, each under its name (a
    /// later tool replaces an earlier one of the same name).
    pub fn update_dynamic(&mut self, tools: Vec<ToolSchema>)
        ensures
            final(self)@.embedded == old(self)@.embedded,
            final(self)@.collection == old(self)@.collection,
            final(self)@.dynamic == insert_tools(
                Seq::empty(),
                tool_schemas_view(tools@),
                tools@.len(),
            ),
    {
        self.dynamic.clear();
        let ghost tv = tool_schemas_view(tools@);
        let mut rest = tools;
        let total = rest.len();
        let ghost n = tv.len();
        let mut i: usize = 0;
        while rest.len() > 0
            invariant
                n == tv.len(),
                n == total,
                i + rest@.len() == n,
                forall|k: int| 0 <= k < rest@.len() ==> #[trigger] rest@[k]@ == tv[i + k],
                self.dynamic@ == insert_tools(Seq::empty(), tv, i as nat),
                self@.embedded == old(self)@.embedded,
                self@.collection == old(self)@.collection,
            decreases rest@.len(),
        {
            let tool = rest.remove(0);
            assert(tool@ == tv[i as int]);
            self.dynamic.insert(tool.name.clone(), tool);
            i = i + 1;
        }
    }

    /// The parameter names of the schema for `name` (none without a schema or
    /// an input schema).
    pub fn extract_fields(&self, name: &str) -> (r: Vec<String>)
        ensures
            r@.map_values(|s: String| s@) == spec_fields(self@, name@),
    {
        match self.get_tool_schema(name) {
            Some(schema) => match &schema.input_schema {
                Some(input) => {
                    let props = &input.properties;
                    let n = props.len();
                    let mut r: Vec<String> = Vec::new();
                    let mut i: usize = 0;
                    while i < n
                        invariant
                            n == props@.len(),
                            i <= n,
                            r@.len() == i,
                            forall|k: int| 0 <= k < i ==> #[trigger] r@[k]@ == props@[k].0,
                        decreases n - i,
                    {
                        r.push(props.key_at(i).clone());
                        i = i + 1;
                    }
                    assert(r@.map_values(|s: String| s@) =~= keys_of(props@));
                    r
                },
                None => Vec::new(),
            },
            None => Vec::new(),
        }
    }

    /// The full schema of a tool in the collection.
    pub fn get_mcp_tool_schema(&self, name: &str) -> (r: Option<&McpToolSchema>)
        ensures
            match r {
                Some(t) => self@.collection matches Some(c) && lookup(c.tools, name@) == Some(t@),
                None => self@.collection matches Some(c) ==> lookup(c.tools, name@) is None,
            },
    {
        match &self.collection {
            Some(c) => c.tools.get(name),
            None => None,
        }
    }

    /// The namespaces of the collection's categories (none without a collection).
    pub fn get_namespaces(&self) -> (r: Vec<String>)
        ensures
            r@.map_values(|s: String| s@) == match self@.collection {
                Some(c) => namespaces_of(c.categories),
                None => Seq::empty(),
            },
    {
        match &self.collection {
            Some(c) => c.get_namespaces(),
            None => {
                let r: Vec<String> = Vec::new();
                assert(r@.map_values(|s: String| s@) =~= Seq::<Seq<char>>::empty());
                r
            },
        }
    }

    /// The schemas of the tools in a namespace (none without a collection).
    pub fn get_tools_by_namespace(&self, namespace: &str) -> (r: Vec<&McpToolSchema>)
        ensures
            tool_refs_view(r@) == match self@.collection {
                Some(c) => tools_in_namespace(c.categories, c.tools, namespace@, c.categories.len()),
                None => Seq::empty(),
            },
    {
        match &self.collection {
            Some(c) => c.get_tools_by_namespace(namespace),
            None => {
                let r: Vec<&McpToolSchema> = Vec::new();
                assert(tool_refs_view(r@) =~= Seq::<ToolView>::empty());
                r
            },
        }
    }

    /// The categories of the collection (none without a collection).
    pub fn get_categories(&self) -> (r: Vec<&McpCategory>)
        ensures
            r@.map_values(|c: &McpCategory| c@) == match self@.collection {
                Some(c) => c.categories,
                None => Seq::empty(),
            },
    {
        let mut r: Vec<&McpCategory> = Vec::new();
        match &self.collection {
            Some(c) => {
                let mut i: usize = 0;
                while i < c.categories.len()
                    invariant
                        i <= c.categories@.len(),
                        r@.len() == i,
                        forall|k: int| 0 <= k < i ==> #[trigger] r@[k]@ == c.categories@[k]@,
                    decreases c.categories@.len() - i,
                {
                    r.push(&c.categories[i]);
                    i = i + 1;
                }
                assert(r@.map_values(|x: &McpCategory| x@) =~= c@.categories);
            },
            None => {
                assert(r@.map_values(|x: &McpCategory| x@) =~= Seq::<CategoryView>::empty());
            },
        }
        r
    }

    /// Sets the collection.
    pub fn set_collection(&mut self, collection: McpSchemaCollection)
        ensures
            final(self)@.collection == Some(collection@),
            final(self)@.embedded == old(self)@.embedded,
            final(self)@.dynamic == old(self)@.dynamic,
    {
        self.collection = Some(collection);
    }

    /// Whether any schema is known: a collection, or a non-empty table.
    pub fn has_schema(&self) -> (b: bool)
        ensures
            b == (self@.collection is Some || self@.embedded.len() > 0 || self@.dynamic.len() > 0),
    {
        self.collection.is_some() || !self.embedded.is_empty() || !self.dynamic.is_empty()
    }
}


// ---------------------------------------------------------------------------
// Laws
// ---------------------------------------------------------------------------

proof fn lemma_insert_tools_unique(tools: Seq<ToolSchemaView>, i: nat)
    ensures
        keys_unique(insert_tools(Seq::empty(), tools, i)),
    decreases i,
{
    if i > 0 && i <= tools.len() {
        lemma_insert_tools_unique(tools, (i - 1) as nat);
        crate::strmap::law_insert_then_lookup(
            insert_tools(Seq::empty(), tools, (i - 1) as nat),
            tools[i - 1].name,
            tools[i - 1],
            tools[i - 1].name,
        );
    }
}

proof fn lemma_insert_tools_keeps(tools: Seq<ToolSchemaView>, k: int, i: nat)
    requires
        0 <= k < i <= tools.len(),
        forall|j: int| k < j < tools.len() ==> tools[j].name != tools[k].name,
    ensures
        lookup(insert_tools(Seq::empty(), tools, i), tools[k].name) == Some(tools[k]),
    decreases i,
{
    lemma_insert_tools_unique(tools, (i - 1) as nat);
    crate::strmap::law_insert_then_lookup(
        insert_tools(Seq::empty(), tools, (i - 1) as nat),
        tools[i - 1].name,
        tools[i - 1],
        tools[k].name,
    );
    if k < i - 1 {
        lemma_insert_tools_keeps(tools, k, (i - 1) as nat);
    }
}

/// The dynamic table takes precedence over the embedded one: once the
/// dynamic table is replaced by `tools`, the schema answered for the name of
/// a tool in `tools` is the last tool of that name, whatever the embedded
/// table holds.
pub proof fn law_dynamic_takes_precedence(m: ManagerView, tools: Seq<ToolSchemaView>, k: int)
    requires
        0 <= k < tools.len(),
        forall|j: int| k < j < tools.len() ==> tools[j].name != tools[k].name,
    ensures
        spec_tool_schema(
            ManagerView { dynamic: insert_tools(Seq::empty(), tools, tools.len()), ..m },
            tools[k].name,
        ) == Some(tools[k]),
{
    lemma_insert_tools_keeps(tools, k, tools.len());
}

proof fn lemma_insert_tools_misses(tools: Seq<ToolSchemaView>, name: Seq<char>, i: nat)
    requires
        i <= tools.len(),
        forall|j: int| 0 <= j < i ==> (#[trigger] tools[j]).name != name,
    ensures
        lookup(insert_tools(Seq::empty(), tools, i), name) is None,
    decreases i,
{
    if i == 0 {
        assert(!has_key(Seq::<(Seq<char>, ToolSchemaView)>::empty(), name));
    } else {
        lemma_insert_tools_misses(tools, name, (i - 1) as nat);
        lemma_insert_tools_unique(tools, (i - 1) as nat);
        assert(tools[i - 1].name != name);
        crate::strmap::law_insert_then_lookup(
            insert_tools(Seq::empty(), tools, (i - 1) as nat),
            tools[i - 1].name,
            tools[i - 1],
            name,
        );
    }
}

/// What the manager answers for a name once its dynamic table is replaced
/// by `tools`: the last tool of that name, where `tools` has one (whatever
/// the embedded table holds); else the embedded schema of that name, if
/// any. Earlier dynamic entries play no part.
pub proof fn law_tool_schema_after_update(m: ManagerView, tools: Seq<ToolSchemaView>, name: Seq<char>)
    ensures
        forall|k: int|
            0 <= k < tools.len() && (#[trigger] tools[k]).name == name && (forall|j: int|
                k < j < tools.len() ==> tools[j].name != name) ==> spec_tool_schema(
                ManagerView { dynamic: insert_tools(Seq::empty(), tools, tools.len()), ..m },
                name,
            ) == Some(tools[k]),
        (forall|j: int| 0 <= j < tools.len() ==> (#[trigger] tools[j]).name != name) ==> spec_tool_schema(
            ManagerView { dynamic: insert_tools(Seq::empty(), tools, tools.len()), ..m },
            name,
        ) == lookup(m.embedded, name),
{
    assert forall|k: int|
        0 <= k < tools.len() && (#[trigger] tools[k]).name == name && (forall|j: int|
            k < j < tools.len() ==> tools[j].name != name) implies spec_tool_schema(
        ManagerView { dynamic: insert_tools(Seq::empty(), tools, tools.len()), ..m },
        name,
    ) == Some(tools[k]) by {
        law_dynamic_takes_precedence(m, tools, k);
    }
    if forall|j: int| 0 <= j < tools.len() ==> (#[trigger] tools[j]).name != name {
        lemma_insert_tools_misses(tools, name, tools.len());
    }
}

proof fn lemma_find_in_category_reaches(ctools: Seq<CategoryToolView>, ns: Seq<char>, j: int)
    requires
        0 <= j < ctools.len(),
    ensures
        find_in_category(
            ctools,
            ns,
            spec_extract_command_name(ctools[j].name, ns),
            ctools.len(),
        ) is Some,
{
    let cmd = spec_extract_command_name(ctools[j].name, ns);
    assert(find_in_category(ctools, ns, cmd, (j + 1) as nat) is Some);
    lemma_find_in_category_stable(ctools, ns, cmd, (j + 1) as nat, ctools.len());
}

/// Every tool of a category is reached from the command line: looking up
/// `lx <namespace> <command>`, with the category's namespace and the command
/// that the tool's name gives in it, finds a tool.
pub proof fn law_every_tool_has_a_command(cats: Seq<CategoryView>, i: int, j: int)
    requires
        0 <= i < cats.len(),
        0 <= j < cats[i].tools.len(),
    ensures
        spec_find_tool(
            cats,
            spec_extract_namespace(cats[i].name),
            spec_extract_command_name(cats[i].tools[j].name, spec_extract_namespace(cats[i].name)),
            cats.len(),
        ) is Some,
{
    let ns = spec_extract_namespace(cats[i].name);
    let cmd = spec_extract_command_name(cats[i].tools[j].name, ns);
    lemma_find_in_category_reaches(cats[i].tools, ns, j);
    assert(spec_find_tool(cats, ns, cmd, (i + 1) as nat) is Some);
    lemma_find_tool_stable(cats, ns, cmd, (i + 1) as nat, cats.len());
}

} // verus!
