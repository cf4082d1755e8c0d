//! The texts that the command line prints about its commands: the help
//! with the dynamic commands of the tool schema, and the listings of tool
//! categories and tools.

use vstd::prelude::*;
use crate::catalog::tool_refs_view;
use crate::ir::opt_seq;
use crate::output::pad;
use crate::schema::{spec_extract_namespace, strings_view, CategoryView, McpCategory, McpToolSchema, ToolView};
use crate::text::{
    chars_to_string, decimal, join, join_chars, push_chars, push_decimal, push_str, str_to_chars,
};

verus! {

// ---------------------------------------------------------------------------
// Ordering names
// ---------------------------------------------------------------------------

/// Whether `a` comes before `b` in the order of `str`: character by
/// character, a proper prefix first.
pub open spec fn str_less(a: Seq<char>, b: Seq<char>) -> bool
    decreases a.len(),
{
    if a.len() == 0 {
        b.len() > 0
    } else if b.len() == 0 {
        false
    } else if a[0] < b[0] {
        true
    } else if a[0] > b[0] {
        false
    } else {
        str_less(a.drop_first(), b.drop_first())
    }
}

/// Whether `a` comes before `b` in the order of `str`.
fn str_less_exec(a: &[char], b: &[char]) -> (r: bool)
    ensures
        r == str_less(a@, b@),
{
    let mut i: usize = 0;
    assert(a@.skip(0) =~= a@);
    assert(b@.skip(0) =~= b@);
    while i < a.len() && i < b.len() && a[i] == b[i]
        invariant
            i <= a@.len(),
            i <= b@.len(),
            str_less(a@, b@) == str_less(a@.skip(i as int), b@.skip(i as int)),
        decreases a@.len() - i,
    {
        assert(a@.skip(i as int).drop_first() =~= a@.skip(i + 1));
        assert(b@.skip(i as int).drop_first() =~= b@.skip(i + 1));
        i = i + 1;
    }
    if i == a.len() {
        assert(a@.skip(i as int).len() == 0);
        i < b.len()
    } else if i == b.len() {
        assert(b@.skip(i as int).len() == 0);
        false
    } else {
        assert(a@.skip(i as int)[0] == a@[i as int]);
        assert(b@.skip(i as int)[0] == b@[i as int]);
        a[i] < b[i]
    }
}

/// `s` (sorted by name) with `x` put after every entry whose name does not
/// come after its name.
pub open spec fn insert_by_name(s: Seq<CategoryView>, x: CategoryView) -> Seq<CategoryView>
    decreases s.len(),
{
    if s.len() == 0 {
        seq![x]
    } else if str_less(x.name, s.last().name) {
        insert_by_name(s.drop_last(), x).push(s.last())
    } else {
        s.push(x)
    }
}

/// The categories sorted by name, those of equal names in their order
/// (as a stable sort orders them).
pub open spec fn sort_by_name(s: Seq<CategoryView>) -> Seq<CategoryView>
    decreases s.len(),
{
    if s.len() == 0 {
        Seq::empty()
    } else {
        insert_by_name(sort_by_name(s.drop_last()), s.last())
    }
}

/// The views of a list of category references.
pub open spec fn category_refs_view(v: Seq<&McpCategory>) -> Seq<CategoryView> {
    v.map_values(|c: &McpCategory| c@)
}

proof fn lemma_insert_at(s: Seq<CategoryView>, x: CategoryView, j: int)
    requires
        0 <= j <= s.len(),
        forall|k: int| j <= k < s.len() ==> str_less(x.name, #[trigger] s[k].name),
        j == 0 || !str_less(x.name, s[j - 1].name),
    ensures
        insert_by_name(s, x) == s.insert(j, x),
    decreases s.len(),
{
    if s.len() == 0 {
        assert(s.insert(j, x) =~= seq![x]);
    } else if j < s.len() {
        assert(str_less(x.name, s.last().name));
        lemma_insert_at(s.drop_last(), x, j);
        assert(s.drop_last().insert(j, x).push(s.last()) =~= s.insert(j, x));
    } else {
        assert(s.insert(j, x) =~= s.push(x));
    }
}

/// The categories sorted by name, stably.
fn sorted_by_name<'a>(cats: &'a Vec<McpCategory>) -> (r: Vec<&'a McpCategory>)
    ensures
        category_refs_view(r@) == sort_by_name(cats@.map_values(|c: McpCategory| c@)),
{
    let ghost all = cats@.map_values(|c: McpCategory| c@);
    let mut out: Vec<&McpCategory> = Vec::new();
    let mut i: usize = 0;
    assert(all.take(0) =~= Seq::<CategoryView>::empty());
    assert(category_refs_view(out@) =~= Seq::<CategoryView>::empty());
    while i < cats.len()
        invariant
            i <= cats@.len(),
            all == cats@.map_values(|c: McpCategory| c@),
            category_refs_view(out@) == sort_by_name(all.take(i as int)),
        decreases cats@.len() - i,
    {
        let x = &cats[i];
        let xn = str_to_chars(x.name.as_str());
        let ghost sv = category_refs_view(out@);
        let mut j = out.len();
        let mut moving = j > 0 && str_less_exec(xn.as_slice(), str_to_chars(out[j - 1].name.as_str()).as_slice());
        while moving
            invariant
                j <= out@.len(),
                xn@ == x.name@,
                sv == category_refs_view(out@),
                forall|k: int| j <= k < sv.len() ==> str_less(x@.name, #[trigger] sv[k].name),
                moving ==> j > 0 && str_less(x@.name, sv[j - 1].name),
                !moving ==> j == 0 || !str_less(x@.name, sv[j - 1].name),
            decreases j,
        {
            j = j - 1;
            moving = j > 0 && str_less_exec(xn.as_slice(), str_to_chars(out[j - 1].name.as_str()).as_slice());
        }
        proof {
            lemma_insert_at(sv, x@, j as int);
        }
        out.insert(j, x);
        assert(category_refs_view(out@) =~= sv.insert(j as int, x@));
        assert(all.take(i + 1).drop_last() =~= all.take(i as int));
        assert(all.take(i + 1).last() == x@);
        i = i + 1;
    }
    assert(all.take(cats@.len() as int) =~= all);
    out
}


// ---------------------------------------------------------------------------
// The help
// ---------------------------------------------------------------------------

/// The lines of the help before the dynamic commands.
pub open spec fn help_head() -> Seq<Seq<char>> {
    seq![
        "Lexiang CLI - A command-line tool for Lexiang MCP"@,
        ""@,
        "Usage: lx [COMMAND]"@,
        ""@,
        "Commands:"@,
        "  search         Search in knowledge base (shortcut for 'lexiang search')"@,
        "  fetch-doc      Fetch a document (shortcut for 'lexiang fetch-doc')"@,
        "  lexiang        Lexiang namespace commands"@,
        "  mcp            MCP operations"@,
        "  tools          Tools schema management"@,
        "  skill          Manage AI agent skill files (generate, install, uninstall)"@,
        "  git            Git-style commands for local workspace"@,
        "  worktree       Worktree management (manage multiple local workspaces)"@,
        "  completion     Generate shell completion script"@,
        "  login          Login via OAuth"@,
        "  logout         Logout and remove credentials"@,
        "  start          Start daemon with virtual filesystem"@,
        "  stop           Stop daemon"@,
        "  status         Show daemon status"@,
        "  version        Print version"@,
        "  update         Check for updates from GitHub releases"@,
        "  sh             Virtual shell for knowledge base exploration"@,
    ]
}

/// The lines of the help after the dynamic commands.
pub open spec fn help_tail() -> Seq<Seq<char>> {
    seq![
        ""@,
        "  help           Print this message or the help of the given subcommand(s)"@,
        ""@,
        "Options:"@,
        "  -h, --help  Print help"@,
    ]
}

/// The help line of a category: its namespace padded to 14 characters, its
/// description and its number of commands.
pub open spec fn dynamic_line(c: CategoryView) -> Seq<char> {
    "  "@ + pad(spec_extract_namespace(c.name), 14) + " "@ + opt_seq(c.description) + " ("@ + decimal(
        c.tool_count as nat,
    ) + " commands)"@
}

/// The help of the command line, with the categories of the tool schema,
/// sorted by name, when there is one.
pub open spec fn spec_help_lines(cats: Option<Seq<CategoryView>>) -> Seq<Seq<char>> {
    help_head() + match cats {
        Some(cs) => seq![""@, "Dynamic Commands (from MCP schema):"@] + sort_by_name(cs).map_values(
            |c: CategoryView| dynamic_line(c),
        ),
        None => Seq::empty(),
    } + help_tail()
}

/// Appends the lines, as character vectors.
fn push_lines(out: &mut Vec<Vec<char>>, lines: &[&str])
    ensures
        crate::text::pieces_view(final(out)@) == crate::text::pieces_view(old(out)@) + lines@.map_values(
            |l: &str| l@,
        ),
{
    let ghost start = crate::text::pieces_view(out@);
    let mut i: usize = 0;
    while i < lines.len()
        invariant
            i <= lines@.len(),
            crate::text::pieces_view(out@) == start + lines@.take(i as int).map_values(|l: &str| l@),
        decreases lines@.len() - i,
    {
        let ghost o0 = crate::text::pieces_view(out@);
        let l = str_to_chars(lines[i]);
        out.push(l);
        assert(crate::text::pieces_view(out@) =~= o0.push(lines@[i as int]@));
        assert(lines@.take(i + 1).map_values(|l: &str| l@) =~= lines@.take(i as int).map_values(
            |l: &str| l@,
        ).push(lines@[i as int]@));
        i = i + 1;
    }
    assert(lines@.take(lines@.len() as int) =~= lines@);
}

/// The help of the command line.
pub fn help_lines(cats: Option<&Vec<McpCategory>>) -> (r: Vec<String>)
    ensures
        strings_view(r@) == spec_help_lines(
            match cats {
                Some(c) => Some(c@.map_values(|x: McpCategory| x@)),
                None => None,
            },
        ),
{
    let head: [&str; 22] = [
        "Lexiang CLI - A command-line tool for Lexiang MCP",
        "",
        "Usage: lx [COMMAND]",
        "",
        "Commands:",
        "  search         Search in knowledge base (shortcut for 'lexiang search')",
        "  fetch-doc      Fetch a document (shortcut for 'lexiang fetch-doc')",
        "  lexiang        Lexiang namespace commands",
        "  mcp            MCP operations",
        "  tools          Tools schema management",
        "  skill          Manage AI agent skill files (generate, install, uninstall)",
        "  git            Git-style commands for local workspace",
        "  worktree       Worktree management (manage multiple local workspaces)",
        "  completion     Generate shell completion script",
        "  login          Login via OAuth",
        "  logout         Logout and remove credentials",
        "  start          Start daemon with virtual filesystem",
        "  stop           Stop daemon",
        "  status         Show daemon status",
        "  version        Print version",
        "  update         Check for updates from GitHub releases",
        "  sh             Virtual shell for knowledge base exploration",
    ];
    let tail: [&str; 5] = [
        "",
        "  help           Print this message or the help of the given subcommand(s)",
        "",
        "Options:",
        "  -h, --help  Print help",
    ];
    let mut out: Vec<Vec<char>> = Vec::new();
    push_lines(&mut out, head.as_slice());
    assert(head@.map_values(|l: &str| l@) =~= help_head());
    let ghost after_head = crate::text::pieces_view(out@);
    let ghost mid: Seq<Seq<char>> = match cats {
        Some(c) => seq![""@, "Dynamic Commands (from MCP schema):"@] + sort_by_name(
            c@.map_values(|x: McpCategory| x@),
        ).map_values(|c: CategoryView| dynamic_line(c)),
        None => Seq::empty(),
    };
    match cats {
        Some(c) => {
            let intro: [&str; 2] = ["", "Dynamic Commands (from MCP schema):"];
            push_lines(&mut out, intro.as_slice());
            let sorted = sorted_by_name(c);
            let ghost sv = category_refs_view(sorted@);
            let ghost o1 = crate::text::pieces_view(out@);
            let mut i: usize = 0;
            while i < sorted.len()
                invariant
                    i <= sorted@.len(),
                    sv == category_refs_view(sorted@),
                    crate::text::pieces_view(out@) == o1 + sv.take(i as int).map_values(
                        |c: CategoryView| dynamic_line(c),
                    ),
                decreases sorted@.len() - i,
            {
                let cat = sorted[i];
                let mut line = str_to_chars("  ");
                let ns = crate::schema::extract_namespace(cat.name.as_str());
                let nsv = str_to_chars(ns.as_str());
                let w: u128 = 14;
                let padded = crate::output::padded_chars(nsv.as_slice(), w);
                push_chars(&mut line, padded.as_slice());
                push_str(&mut line, " ");
                crate::ir::push_opt(&mut line, &cat.description);
                push_str(&mut line, " (");
                push_decimal(&mut line, cat.tool_count as u128);
                push_str(&mut line, " commands)");
                let ghost o0 = crate::text::pieces_view(out@);
                let ghost lv = line@;
                assert(sv[i as int] == cat@);
                assert(lv == dynamic_line(cat@));
                out.push(line);
                assert(crate::text::pieces_view(out@) =~= o0.push(lv));
                assert(sv.take(i + 1).map_values(|c: CategoryView| dynamic_line(c)) =~= sv.take(
                    i as int,
                ).map_values(|c: CategoryView| dynamic_line(c)).push(lv));
                i = i + 1;
            }
            assert(sv.take(sorted@.len() as int) =~= sv);
            assert(intro@.map_values(|l: &str| l@) =~= seq![""@, "Dynamic Commands (from MCP schema):"@]);
            assert(crate::text::pieces_view(out@) =~= after_head + mid);
        },
        None => {
            assert(crate::text::pieces_view(out@) =~= after_head + mid);
        },
    }
    push_lines(&mut out, tail.as_slice());
    assert(tail@.map_values(|l: &str| l@) =~= help_tail());
    let r = crate::text::pieces_to_strings(&out);
    assert(strings_view(r@) =~= crate::text::pieces_view(out@));
    r
}

// ---------------------------------------------------------------------------
// Listings
// ---------------------------------------------------------------------------

/// The line of a category in the category listing.
pub open spec fn category_line(c: CategoryView) -> Seq<char> {
    "  "@ + c.name + " ("@ + decimal(c.tool_count as nat) + " tools) - "@ + opt_seq(c.description)
}

/// The message for a schema without categories.
pub open spec fn no_categories() -> Seq<char> {
    "No categories found. Run 'lx tools sync' first."@
}

/// The listing of the tool categories.
pub open spec fn spec_category_lines(cs: Seq<CategoryView>) -> Seq<Seq<char>> {
    if cs.len() == 0 {
        seq![no_categories()]
    } else {
        seq!["Tool Categories ("@ + decimal(cs.len()) + "):"@] + cs.map_values(
            |c: CategoryView| category_line(c),
        )
    }
}

/// The listing of the tool categories.
pub fn category_lines(cats: &Vec<&McpCategory>) -> (r: Vec<String>)
    ensures
        strings_view(r@) == spec_category_lines(category_refs_view(cats@)),
{
    let ghost cv = category_refs_view(cats@);
    let mut out: Vec<Vec<char>> = Vec::new();
    if cats.len() == 0 {
        out.push(str_to_chars("No categories found. Run 'lx tools sync' first."));
        assert(crate::text::pieces_view(out@) =~= seq![no_categories()]);
    } else {
        let mut head = str_to_chars("Tool Categories (");
        push_decimal(&mut head, cats.len() as u128);
        push_str(&mut head, "):");
        out.push(head);
        let ghost o1 = crate::text::pieces_view(out@);
        let mut i: usize = 0;
        while i < cats.len()
            invariant
                i <= cats@.len(),
                cv == category_refs_view(cats@),
                crate::text::pieces_view(out@) == o1 + cv.take(i as int).map_values(
                    |c: CategoryView| category_line(c),
                ),
            decreases cats@.len() - i,
        {
            let c = cats[i];
            let mut line = str_to_chars("  ");
            push_str(&mut line, c.name.as_str());
            push_str(&mut line, " (");
            push_decimal(&mut line, c.tool_count as u128);
            push_str(&mut line, " tools) - ");
            crate::ir::push_opt(&mut line, &c.description);
            let ghost o0 = crate::text::pieces_view(out@);
            let ghost lv = line@;
            assert(cv[i as int] == c@);
            out.push(line);
            assert(crate::text::pieces_view(out@) =~= o0.push(lv));
            assert(cv.take(i + 1).map_values(|c: CategoryView| category_line(c)) =~= cv.take(i as int).map_values(
                |c: CategoryView| category_line(c),
            ).push(lv));
            i = i + 1;
        }
        assert(cv.take(cats@.len() as int) =~= cv);
    }
    let r = crate::text::pieces_to_strings(&out);
    assert(strings_view(r@) =~= crate::text::pieces_view(out@));
    r
}

/// The listing of the tools of a category.
pub open spec fn spec_tool_lines(category: Seq<char>, tools: Seq<ToolView>) -> Seq<Seq<char>> {
    if tools.len() == 0 {
        seq!["No tools found in category '"@ + category + "'. Run 'lx tools sync' first."@]
    } else {
        seq!["Tools in '"@ + category + "' ("@ + decimal(tools.len()) + "):"@] + tools.map_values(
            |t: ToolView| "  "@ + t.name + " - "@ + opt_seq(t.description),
        )
    }
}

/// The listing of the tools of a category.
pub fn tool_lines(category: &str, tools: &Vec<&McpToolSchema>) -> (r: Vec<String>)
    ensures
        strings_view(r@) == spec_tool_lines(category@, tool_refs_view(tools@)),
{
    let ghost tv = tool_refs_view(tools@);
    let mut out: Vec<Vec<char>> = Vec::new();
    if tools.len() == 0 {
        let mut line = str_to_chars("No tools found in category '");
        push_str(&mut line, category);
        push_str(&mut line, "'. Run 'lx tools sync' first.");
        out.push(line);
        assert(crate::text::pieces_view(out@) =~= spec_tool_lines(category@, tv));
    } else {
        let mut head = str_to_chars("Tools in '");
        push_str(&mut head, category);
        push_str(&mut head, "' (");
        push_decimal(&mut head, tools.len() as u128);
        push_str(&mut head, "):");
        out.push(head);
        let ghost o1 = crate::text::pieces_view(out@);
        let mut i: usize = 0;
        while i < tools.len()
            invariant
                i <= tools@.len(),
                tv == tool_refs_view(tools@),
                crate::text::pieces_view(out@) == o1 + tv.take(i as int).map_values(
                    |t: ToolView| "  "@ + t.name + " - "@ + opt_seq(t.description),
                ),
            decreases tools@.len() - i,
        {
            let t = tools[i];
            let mut line = str_to_chars("  ");
            push_str(&mut line, t.name.as_str());
            push_str(&mut line, " - ");
            crate::ir::push_opt(&mut line, &t.description);
            let ghost o0 = crate::text::pieces_view(out@);
            let ghost lv = line@;
            assert(tv[i as int] == t@);
            out.push(line);
            assert(crate::text::pieces_view(out@) =~= o0.push(lv));
            assert(tv.take(i + 1).map_values(|t: ToolView| "  "@ + t.name + " - "@ + opt_seq(t.description))
                =~= tv.take(i as int).map_values(
                |t: ToolView| "  "@ + t.name + " - "@ + opt_seq(t.description),
            ).push(lv));
            i = i + 1;
        }
        assert(tv.take(tools@.len() as int) =~= tv);
    }
    let r = crate::text::pieces_to_strings(&out);
    assert(strings_view(r@) =~= crate::text::pieces_view(out@));
    r
}

/// The listing of the category names, with a hint to list their tools.
pub open spec fn spec_category_names_lines(cs: Seq<CategoryView>) -> Seq<Seq<char>> {
    if cs.len() == 0 {
        seq![no_categories()]
    } else {
        seq![
            "Available categories: "@ + join(cs.map_values(|c: CategoryView| c.name), ", "@),
            ""@,
            "Use 'lx tools list --category <name>' to see tools in a category."@,
        ]
    }
}

/// The listing of the category names.
pub fn category_names_lines(cats: &Vec<&McpCategory>) -> (r: Vec<String>)
    ensures
        strings_view(r@) == spec_category_names_lines(category_refs_view(cats@)),
{
    let ghost cv = category_refs_view(cats@);
    let mut out: Vec<Vec<char>> = Vec::new();
    if cats.len() == 0 {
        out.push(str_to_chars("No categories found. Run 'lx tools sync' first."));
        assert(crate::text::pieces_view(out@) =~= seq![no_categories()]);
    } else {
        let mut names: Vec<Vec<char>> = Vec::new();
        let mut i: usize = 0;
        while i < cats.len()
            invariant
                i <= cats@.len(),
                cv == category_refs_view(cats@),
                crate::text::pieces_view(names@) == cv.take(i as int).map_values(|c: CategoryView| c.name),
            decreases cats@.len() - i,
        {
            let ghost n0 = crate::text::pieces_view(names@);
            let nm = str_to_chars(cats[i].name.as_str());
            assert(cv[i as int] == cats@[i as int]@);
            names.push(nm);
            assert(crate::text::pieces_view(names@) =~= n0.push(cv[i as int].name));
            assert(cv.take(i + 1).map_values(|c: CategoryView| c.name) =~= cv.take(i as int).map_values(
                |c: CategoryView| c.name,
            ).push(cv[i as int].name));
            i = i + 1;
        }
        assert(cv.take(cats@.len() as int) =~= cv);
        assert(crate::text::pieces_view(names@) == cv.map_values(|c: CategoryView| c.name));
        let mut first = str_to_chars("Available categories: ");
        let joined = join_chars(&names, ", ");
        assert(names@.map_values(|x: Vec<char>| x@) =~= crate::text::pieces_view(names@));
        push_chars(&mut first, joined.as_slice());
        let ghost fv = first@;
        assert(fv == "Available categories: "@ + join(cv.map_values(|c: CategoryView| c.name), ", "@));
        out.push(first);
        out.push(Vec::new());
        let hint = str_to_chars("Use 'lx tools list --category <name>' to see tools in a category.");
        let ghost hv = hint@;
        out.push(hint);
        proof {
            reveal_strlit("");
        }
        assert(""@ =~= Seq::<char>::empty());
        assert(crate::text::pieces_view(out@) =~= seq![fv, Seq::<char>::empty(), hv]);
        assert(crate::text::pieces_view(out@) =~= spec_category_names_lines(cv));
    }
    let r = crate::text::pieces_to_strings(&out);
    assert(strings_view(r@) =~= crate::text::pieces_view(out@));
    r
}

// ---------------------------------------------------------------------------
// The order of names
// ---------------------------------------------------------------------------

/// Whether the names ascend: no name comes before one that precedes it.
pub open spec fn names_ascending(s: Seq<CategoryView>) -> bool {
    forall|i: int, j: int| 0 <= i < j < s.len() ==> !str_less(#[trigger] s[j].name, #[trigger] s[i].name)
}

proof fn lemma_str_less_asym(a: Seq<char>, b: Seq<char>)
    ensures
        str_less(a, b) ==> !str_less(b, a),
    decreases a.len(),
{
    if a.len() > 0 && b.len() > 0 && a[0] == b[0] {
        lemma_str_less_asym(a.drop_first(), b.drop_first());
    }
}

proof fn lemma_str_less_trans(a: Seq<char>, b: Seq<char>, c: Seq<char>)
    requires
        str_less(a, b),
        str_less(b, c),
    ensures
        str_less(a, c),
    decreases a.len(),
{
    if a.len() > 0 && a[0] == b[0] && b[0] == c[0] {
        lemma_str_less_trans(a.drop_first(), b.drop_first(), c.drop_first());
    }
}

proof fn lemma_str_less_total(a: Seq<char>, b: Seq<char>)
    ensures
        a == b || str_less(a, b) || str_less(b, a),
    decreases a.len(),
{
    if a.len() == 0 && b.len() == 0 {
        assert(a =~= b);
    } else if a.len() > 0 && b.len() > 0 && a[0] == b[0] {
        lemma_str_less_total(a.drop_first(), b.drop_first());
        if a.drop_first() == b.drop_first() {
            assert(a.drop_first().len() == b.drop_first().len());
            assert(a.len() == b.len());
            assert forall|i: int| 0 <= i < a.len() implies a[i] == b[i] by {
                if i > 0 {
                    assert(a[i] == a.drop_first()[i - 1]);
                    assert(b[i] == b.drop_first()[i - 1]);
                }
            }
            assert(a =~= b);
        }
    }
}

proof fn lemma_insert_ascending(s: Seq<CategoryView>, x: CategoryView)
    requires
        names_ascending(s),
    ensures
        names_ascending(insert_by_name(s, x)),
        insert_by_name(s, x).to_multiset() =~= s.to_multiset().insert(x),
    decreases s.len(),
{
    broadcast use vstd::seq_lib::group_to_multiset_ensures;

    if s.len() == 0 {
        assert(seq![x] =~= s.push(x));
    } else if str_less(x.name, s.last().name) {
        let t = s.drop_last();
        let l = s.last();
        assert(names_ascending(t)) by {
            assert forall|i: int, j: int| 0 <= i < j < t.len() implies !str_less(
                #[trigger] t[j].name,
                #[trigger] t[i].name,
            ) by {
                assert(t[i] == s[i] && t[j] == s[j]);
            }
        }
        lemma_insert_ascending(t, x);
        let u = insert_by_name(t, x);
        assert forall|i: int| 0 <= i < u.len() implies !str_less(l.name, #[trigger] u[i].name) by {
            assert(u.contains(u[i]));
            assert(u.to_multiset().count(u[i]) > 0);
            if u[i] == x {
                lemma_str_less_asym(x.name, l.name);
            } else {
                assert(t.to_multiset().count(u[i]) > 0);
                assert(t.contains(u[i]));
                let k = choose|k: int| 0 <= k < t.len() && t[k] == u[i];
                assert(s[k] == t[k]);
                assert(s[s.len() - 1] == l);
            }
        }
        assert forall|i: int, j: int| 0 <= i < j < u.push(l).len() implies !str_less(
            #[trigger] u.push(l)[j].name,
            #[trigger] u.push(l)[i].name,
        ) by {
            if j < u.len() {
                assert(u.push(l)[j] == u[j] && u.push(l)[i] == u[i]);
            } else {
                assert(u.push(l)[i] == u[i]);
            }
        }
        assert(s =~= t.push(l));
    } else {
        assert forall|i: int| 0 <= i < s.len() implies !str_less(x.name, #[trigger] s[i].name) by {
            if i < s.len() - 1 {
                lemma_str_less_total(s[i].name, s.last().name);
                assert(s[s.len() - 1] == s.last());
                if str_less(x.name, s[i].name) && str_less(s[i].name, s.last().name) {
                    lemma_str_less_trans(x.name, s[i].name, s.last().name);
                }
            }
        }
        assert forall|i: int, j: int| 0 <= i < j < s.push(x).len() implies !str_less(
            #[trigger] s.push(x)[j].name,
            #[trigger] s.push(x)[i].name,
        ) by {
            if j < s.len() {
                assert(s.push(x)[j] == s[j] && s.push(x)[i] == s[i]);
            } else {
                assert(s.push(x)[i] == s[i]);
            }
        }
    }
}

/// The categories that the help and the listings show, sorted by name, are
/// in ascending order of name and are the same categories, each as often as
/// before.
pub proof fn law_categories_sorted_by_name(s: Seq<CategoryView>)
    ensures
        names_ascending(sort_by_name(s)),
        sort_by_name(s).to_multiset() =~= s.to_multiset(),
    decreases s.len(),
{
    broadcast use vstd::seq_lib::group_to_multiset_ensures;

    if s.len() == 0 {
        assert(s =~= Seq::<CategoryView>::empty());
    } else {
        law_categories_sorted_by_name(s.drop_last());
        lemma_insert_ascending(sort_by_name(s.drop_last()), s.last());
        assert(s =~= s.drop_last().push(s.last()));
    }
}

} // verus!
