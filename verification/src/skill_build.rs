//! Skill sources: the `SKILL.md` templates from which the CodeBuddy and the
//! OpenClaw skill files are built.
//!
//! A skill source is a YAML front matter between two `---` lines, then a
//! Markdown body. Inside the body a placeholder is written as a block
//!
//! ```text
//! ::: <type> <arguments>
//! <inner content>
//! :::
//! ```
//!
//! whose opening line starts with `:::`, then the type (ASCII letters), then
//! the arguments up to the end of the line, and whose closing line is `:::`
//! alone. Offsets of placeholders are character offsets into the body.

use vstd::prelude::*;
use crate::cli_calls::{convert_cli_to_tool_calls, spec_convert};
use crate::ir::opt_view;
use crate::schema::{copy_strings, strings_view};
use crate::text::{
    chars_to_string, char_is_separator, is_ws, join, join_chars, keep_nonempty, push_chars,
    push_str, slice_chars, split_by, split_chars, split_words, str_to_chars, trim, trim_chars,
    trim_start, words, pieces_view, Separator,
};

verus! {

// ---------------------------------------------------------------------------
// Types
// ---------------------------------------------------------------------------

/// What a skill needs from its environment.
#[derive(Debug, Clone)]
pub struct SkillRequires {
    pub bins: Vec<String>,
    pub tools: Vec<String>,
}

impl Default for SkillRequires {
    fn default() -> (r: Self)
        ensures
            r.bins@.len() == 0,
            r.tools@.len() == 0,
    {
        SkillRequires { bins: Vec::new(), tools: Vec::new() }
    }
}

/// The `metadata` table of the front matter.
#[derive(Debug, Clone)]
pub struct SkillMetadata {
    pub requires: SkillRequires,
}

impl Default for SkillMetadata {
    fn default() -> (r: Self)
        ensures
            r.requires.bins@.len() == 0,
            r.requires.tools@.len() == 0,
    {
        SkillMetadata { requires: SkillRequires { bins: Vec::new(), tools: Vec::new() } }
    }
}

/// The front matter of a skill source.
#[derive(Debug, Clone)]
pub struct SkillFrontmatter {
    pub name: String,
    pub version: String,
    pub description: String,
    pub metadata: SkillMetadata,
}

/// The front matter as plain values.
pub struct FrontmatterView {
    pub name: Seq<char>,
    pub version: Seq<char>,
    pub description: Seq<char>,
    pub bins: Seq<Seq<char>>,
    pub tools: Seq<Seq<char>>,
}

impl View for SkillFrontmatter {
    type V = FrontmatterView;

    open spec fn view(&self) -> FrontmatterView {
        FrontmatterView {
            name: self.name@,
            version: self.version@,
            description: self.description@,
            bins: strings_view(self.metadata.requires.bins@),
            tools: strings_view(self.metadata.requires.tools@),
        }
    }
}

/// A placeholder of a skill source.
#[derive(Debug, Clone, PartialEq)]
pub enum Placeholder {
    /// The tools of a namespace (all of them when the list is empty).
    Tools { namespace: String, tools: Vec<String> },
    /// The parameter table of a tool.
    Params { tool_name: String },
    /// The input schema of a tool.
    Schema { tool_name: String },
    /// Another file, inserted as it is.
    Include { path: String },
    /// An example whose shell commands are in the inner content.
    Example,
}

/// A placeholder as plain values.
pub enum PlaceholderView {
    Tools { namespace: Seq<char>, tools: Seq<Seq<char>> },
    Params { tool_name: Seq<char> },
    Schema { tool_name: Seq<char> },
    Include { path: Seq<char> },
    Example,
}

impl View for Placeholder {
    type V = PlaceholderView;

    open spec fn view(&self) -> PlaceholderView {
        match self {
            Placeholder::Tools { namespace, tools } => PlaceholderView::Tools {
                namespace: namespace@,
                tools: strings_view(tools@),
            },
            Placeholder::Params { tool_name } => PlaceholderView::Params { tool_name: tool_name@ },
            Placeholder::Schema { tool_name } => PlaceholderView::Schema { tool_name: tool_name@ },
            Placeholder::Include { path } => PlaceholderView::Include { path: path@ },
            Placeholder::Example => PlaceholderView::Example,
        }
    }
}

/// Why a skill source was refused.
#[derive(Debug, Clone, Copy, PartialEq, Eq)]
pub enum SkillError {
    /// The source has no front matter between two `---` lines.
    Syntax,
    /// `::: tools` without a namespace.
    ToolsWithoutNamespace,
    /// `::: params` without a tool name.
    ParamsWithoutToolName,
    /// `::: schema` without a tool name.
    SchemaWithoutToolName,
    /// `::: include` without a path.
    IncludeWithoutPath,
}

impl SkillError {
    /// The message that reports the error.
    pub open spec fn spec_message(self) -> Seq<char> {
        match self {
            SkillError::Syntax => "Failed to parse skill file"@,
            SkillError::ToolsWithoutNamespace => "::: tools requires a namespace"@,
            SkillError::ParamsWithoutToolName => "::: params requires a tool_name"@,
            SkillError::SchemaWithoutToolName => "::: schema requires a tool_name"@,
            SkillError::IncludeWithoutPath => "::: include requires a path"@,
        }
    }

    /// The message that reports the error.
    pub fn message(&self) -> (m: String)
        ensures
            m@ == self.spec_message(),
    {
        let s = match self {
            SkillError::Syntax => "Failed to parse skill file",
            SkillError::ToolsWithoutNamespace => "::: tools requires a namespace",
            SkillError::ParamsWithoutToolName => "::: params requires a tool_name",
            SkillError::SchemaWithoutToolName => "::: schema requires a tool_name",
            SkillError::IncludeWithoutPath => "::: include requires a path",
        };
        s.to_string()
    }
}

// ---------------------------------------------------------------------------
// Trigger words
// ---------------------------------------------------------------------------

/// Whether `p` occurs in `s` at index `i`.
pub open spec fn occurs_at(s: Seq<char>, p: Seq<char>, i: int) -> bool {
    0 <= i && i + p.len() <= s.len() && s.subrange(i, i + p.len()) == p
}

/// The first index at or after `i` where `p` occurs in `s`.
pub open spec fn find_from(s: Seq<char>, p: Seq<char>, i: nat) -> Option<nat>
    decreases s.len() + 1 - i,
{
    if i + p.len() > s.len() {
        None
    } else if occurs_at(s, p, i as int) {
        Some(i)
    } else {
        find_from(s, p, i + 1)
    }
}

/// Characters that end a list of trigger words.
pub open spec fn is_list_end(c: char) -> bool {
    c == '。' || c == '.' || c == '\n'
}

/// The first index at or after `i` of a character that ends the list.
pub open spec fn list_end_from(s: Seq<char>, i: nat) -> nat
    decreases s.len() - i,
{
    if i >= s.len() {
        s.len()
    } else if is_list_end(s[i as int]) {
        i
    } else {
        list_end_from(s, i + 1)
    }
}

/// The trimmed, non-empty items of a list separated by `、`, `,` or `，`.
pub open spec fn list_items(s: Seq<char>) -> Seq<Seq<char>> {
    keep_nonempty(split_by(s, Separator::ListMark).map_values(|p: Seq<char>| trim(p)))
}

/// The trigger words that follow the marker found at `pos`.
pub open spec fn triggers_after(desc: Seq<char>, pos: nat, marker_len: nat) -> Seq<Seq<char>> {
    let after = desc.skip((pos + marker_len) as int);
    list_items(after.take(list_end_from(after, 0) as int))
}

/// The trigger words of a skill description: the list after the first of
/// `触发词：`, `触发词:` or `triggers:` that occurs, up to the end of its
/// sentence or line.
pub open spec fn spec_extract_triggers(desc: Seq<char>) -> Seq<Seq<char>> {
    match find_from(desc, "触发词："@, 0) {
        Some(p) => triggers_after(desc, p, "触发词："@.len()),
        None => match find_from(desc, "触发词:"@, 0) {
            Some(p) => triggers_after(desc, p, "触发词:"@.len()),
            None => match find_from(desc, "triggers:"@, 0) {
                Some(p) => triggers_after(desc, p, "triggers:"@.len()),
                None => Seq::empty(),
            },
        },
    }
}

/// The first index where `p` occurs in `s`.
pub(crate) fn find_chars(s: &[char], p: &[char]) -> (r: Option<usize>)
    ensures
        match r {
            Some(i) => find_from(s@, p@, 0) == Some(i as nat),
            None => find_from(s@, p@, 0) is None,
        },
{
    if p.len() == 0 {
        assert(s@.subrange(0, 0) =~= p@);
        return Some(0);
    }
    if p.len() > s.len() {
        return None;
    }
    let n = s.len();
    let last = n - p.len();
    let mut i: usize = 0;
    while i <= last
        invariant
            p@.len() > 0,
            n == s@.len(),
            last + p@.len() == n,
            i <= last + 1,
            find_from(s@, p@, 0) == find_from(s@, p@, i as nat),
        decreases last + 1 - i,
    {
        let mut k: usize = 0;
        let mut same = true;
        assert(s@.subrange(i as int, i as int) =~= p@.take(0));
        while k < p.len()
            invariant
                n == s@.len(),
                i <= last,
                last + p@.len() == n,
                k <= p@.len(),
                same == (s@.subrange(i as int, i + k) == p@.take(k as int)),
            decreases p@.len() - k,
        {
            if same && s[i + k] != p[k] {
                same = false;
                assert(s@.subrange(i as int, i + k + 1)[k as int] != p@.take(k + 1)[k as int]);
            } else if same {
                assert(s@.subrange(i as int, i + k + 1) =~= s@.subrange(i as int, i + k).push(s@[i + k]));
                assert(p@.take(k + 1) =~= p@.take(k as int).push(p@[k as int]));
            } else {
                assert(s@.subrange(i as int, i + k + 1).take(k as int) =~= s@.subrange(i as int, i + k));
                assert(p@.take(k + 1).take(k as int) =~= p@.take(k as int));
            }
            k = k + 1;
        }
        assert(p@.take(p@.len() as int) =~= p@);
        if same {
            return Some(i);
        }
        i = i + 1;
    }
    None
}

/// The first index at or after 0 of a character that ends the list.
fn list_end(s: &[char]) -> (r: usize)
    ensures
        r == list_end_from(s@, 0),
{
    let mut i: usize = 0;
    while i < s.len() && !(s[i] == '。' || s[i] == '.' || s[i] == '\n')
        invariant
            i <= s@.len(),
            list_end_from(s@, 0) == list_end_from(s@, i as nat),
        decreases s@.len() - i,
    {
        i = i + 1;
    }
    i
}

/// The trimmed, non-empty items of a list.
fn list_items_exec(s: &[char]) -> (r: Vec<String>)
    ensures
        strings_view(r@) == list_items(s@),
{
    let pieces = split_chars(s, Separator::ListMark);
    let ghost all = pieces_view(pieces@);
    let mut trimmed: Vec<Vec<char>> = Vec::new();
    let mut i: usize = 0;
    while i < pieces.len()
        invariant
            all == pieces_view(pieces@),
            i <= pieces@.len(),
            pieces_view(trimmed@) == all.take(i as int).map_values(|p: Seq<char>| trim(p)),
        decreases pieces@.len() - i,
    {
        assert(all[i as int] == pieces@[i as int]@);
        let t = trim_chars(pieces[i].as_slice());
        let ghost before = pieces_view(trimmed@);
        trimmed.push(t);
        assert(pieces_view(trimmed@) =~= before.push(trim(all[i as int])));
        assert(all.take(i + 1).map_values(|p: Seq<char>| trim(p)) =~= all.take(i as int).map_values(
            |p: Seq<char>| trim(p),
        ).push(trim(all[i as int])));
        i = i + 1;
    }
    assert(all.take(pieces@.len() as int) =~= all);
    let kept = crate::text::keep_nonempty_pieces(trimmed);
    crate::text::pieces_to_strings(&kept)
}

/// The trigger words that follow the marker found at `pos`.
fn triggers_after_exec(desc: &[char], pos: usize, marker_len: usize) -> (r: Vec<String>)
    requires
        pos + marker_len <= desc@.len(),
    ensures
        strings_view(r@) == triggers_after(desc@, pos as nat, marker_len as nat),
{
    let n = desc.len();
    let after = slice_chars(desc, pos + marker_len, n);
    assert(after@ =~= desc@.skip(pos + marker_len));
    let end = list_end(after.as_slice());
    proof {
        lemma_list_end_bound(after@, 0);
    }
    let seg = slice_chars(after.as_slice(), 0, end);
    assert(seg@ =~= after@.take(end as int));
    list_items_exec(seg.as_slice())
}

proof fn lemma_list_end_bound(s: Seq<char>, i: nat)
    requires
        i <= s.len(),
    ensures
        i <= list_end_from(s, i) <= s.len(),
    decreases s.len() - i,
{
    if i < s.len() && !is_list_end(s[i as int]) {
        lemma_list_end_bound(s, i + 1);
    }
}

pub(crate) proof fn lemma_find_from_bound(s: Seq<char>, p: Seq<char>, i: nat)
    ensures
        find_from(s, p, i) matches Some(k) ==> i <= k && k + p.len() <= s.len(),
    decreases s.len() + 1 - i,
{
    if i + p.len() <= s.len() && !occurs_at(s, p, i as int) {
        lemma_find_from_bound(s, p, i + 1);
    }
}

/// The trigger words of a skill description: the list after the first of
/// `触发词：`, `触发词:` or `triggers:` that occurs in it, up to the end of
/// that sentence or line, split at `、`, `,` and `，`, trimmed, without
/// empty items. A description without any of the markers has none.
pub fn extract_triggers(description: &str) -> (r: Vec<String>)
    ensures
        strings_view(r@) == spec_extract_triggers(description@),
{
    let desc = str_to_chars(description);
    let m0 = str_to_chars("触发词：");
    if let Some(p) = find_chars(desc.as_slice(), m0.as_slice()) {
        proof { lemma_find_from_bound(desc@, m0@, 0); }
        return triggers_after_exec(desc.as_slice(), p, m0.len());
    }
    let m1 = str_to_chars("触发词:");
    if let Some(p) = find_chars(desc.as_slice(), m1.as_slice()) {
        proof { lemma_find_from_bound(desc@, m1@, 0); }
        return triggers_after_exec(desc.as_slice(), p, m1.len());
    }
    let m2 = str_to_chars("triggers:");
    if let Some(p) = find_chars(desc.as_slice(), m2.as_slice()) {
        proof { lemma_find_from_bound(desc@, m2@, 0); }
        return triggers_after_exec(desc.as_slice(), p, m2.len());
    }
    Vec::new()
}


// ---------------------------------------------------------------------------
// Placeholders
// ---------------------------------------------------------------------------

/// The placeholder of a block with type `ptype` and (trimmed) arguments
/// `args`: `Ok(None)` for a type that has no meaning here.
pub open spec fn spec_build_placeholder(ptype: Seq<char>, args: Seq<char>) -> Result<
    Option<PlaceholderView>,
    SkillError,
> {
    if ptype == "tools"@ {
        let ws = words(args);
        if ws.len() == 0 {
            Err(SkillError::ToolsWithoutNamespace)
        } else {
            Ok(Some(PlaceholderView::Tools { namespace: ws[0], tools: ws.skip(1) }))
        }
    } else if ptype == "params"@ {
        if args.len() == 0 {
            Err(SkillError::ParamsWithoutToolName)
        } else {
            Ok(Some(PlaceholderView::Params { tool_name: words(args)[0] }))
        }
    } else if ptype == "schema"@ {
        if args.len() == 0 {
            Err(SkillError::SchemaWithoutToolName)
        } else {
            Ok(Some(PlaceholderView::Schema { tool_name: words(args)[0] }))
        }
    } else if ptype == "include"@ {
        if args.len() == 0 {
            Err(SkillError::IncludeWithoutPath)
        } else {
            Ok(Some(PlaceholderView::Include { path: args }))
        }
    } else if ptype == "example"@ {
        Ok(Some(PlaceholderView::Example))
    } else {
        Ok(None)
    }
}

/// The view of a built placeholder.
pub open spec fn build_result_view(r: Result<Option<Placeholder>, SkillError>) -> Result<
    Option<PlaceholderView>,
    SkillError,
> {
    match r {
        Ok(Some(p)) => Ok(Some(p@)),
        Ok(None) => Ok(None),
        Err(e) => Err(e),
    }
}

/// Whether the arguments of a `params` or `schema` block name a tool when
/// they are not empty (white space alone names none).
pub open spec fn args_name_tool(ptype: Seq<char>, args: Seq<char>) -> bool {
    (ptype == "params"@ || ptype == "schema"@) && args.len() > 0 ==> words(args).len() > 0
}

/// The placeholder of a block with type `ptype` and arguments `args`.
pub fn build_placeholder(ptype: &str, args: &str) -> (r: Result<Option<Placeholder>, SkillError>)
    requires
        args_name_tool(ptype@, args@),
    ensures
        build_result_view(r) == spec_build_placeholder(ptype@, args@),
{
    let a = str_to_chars(args);
    if crate::text::str_eq(ptype, "tools") {
        let ws = split_words(a.as_slice());
        if ws.len() == 0 {
            return Err(SkillError::ToolsWithoutNamespace);
        }
        let strs = crate::text::pieces_to_strings(&ws);
        let namespace = strs[0].clone();
        let mut tools: Vec<String> = Vec::new();
        let mut i: usize = 1;
        while i < strs.len()
            invariant
                1 <= i <= strs@.len(),
                strings_view(strs@) == words(args@),
                strings_view(tools@) == words(args@).subrange(1, i as int),
            decreases strs@.len() - i,
        {
            let ghost before = strings_view(tools@);
            assert(strings_view(strs@)[i as int] == strs@[i as int]@);
            let t = strs[i].clone();
            tools.push(t);
            assert(strings_view(tools@) =~= before.push(strs@[i as int]@));
            i = i + 1;
            assert(strings_view(tools@) =~= words(args@).subrange(1, i as int));
        }
        assert(words(args@).subrange(1, strs@.len() as int) =~= words(args@).skip(1));
        return Ok(Some(Placeholder::Tools { namespace, tools }));
    }
    if crate::text::str_eq(ptype, "params") || crate::text::str_eq(ptype, "schema") {
        if a.len() == 0 {
            if crate::text::str_eq(ptype, "params") {
                return Err(SkillError::ParamsWithoutToolName);
            }
            return Err(SkillError::SchemaWithoutToolName);
        }
        let ws = split_words(a.as_slice());
        let tool_name = chars_to_string(ws[0].as_slice());
        if crate::text::str_eq(ptype, "params") {
            return Ok(Some(Placeholder::Params { tool_name }));
        }
        return Ok(Some(Placeholder::Schema { tool_name }));
    }
    if crate::text::str_eq(ptype, "include") {
        if a.len() == 0 {
            return Err(SkillError::IncludeWithoutPath);
        }
        return Ok(Some(Placeholder::Include { path: args.to_string() }));
    }
    if crate::text::str_eq(ptype, "example") {
        return Ok(Some(Placeholder::Example));
    }
    Ok(None)
}


// ---------------------------------------------------------------------------
// The grammar of a skill source
// ---------------------------------------------------------------------------

/// The index of the end of the line that starts at `i`: the next `\n` at or
/// after `i`, or the end of the text.
pub open spec fn line_end(s: Seq<char>, i: nat) -> nat
    decreases s.len() - i,
{
    if i >= s.len() {
        s.len()
    } else if s[i as int] == '\n' {
        i
    } else {
        line_end(s, i + 1)
    }
}

/// The start of the line after the one that starts at `i`.
pub open spec fn next_line(s: Seq<char>, i: nat) -> nat {
    if line_end(s, i) < s.len() {
        line_end(s, i) + 1
    } else {
        s.len()
    }
}

/// The line that starts at `i`, without its `\n`.
pub open spec fn line_at(s: Seq<char>, i: nat) -> Seq<char> {
    s.subrange(i as int, line_end(s, i) as int)
}

pub proof fn lemma_line_end(s: Seq<char>, i: nat)
    requires
        i <= s.len(),
    ensures
        i <= line_end(s, i) <= s.len(),
        i < s.len() ==> i < next_line(s, i) <= s.len(),
        next_line(s, i) <= s.len(),
    decreases s.len() - i,
{
    if i < s.len() && s[i as int] != '\n' {
        lemma_line_end(s, i + 1);
    }
}

/// The start of the first line at or after `j` that reads `mark` once
/// trimmed.
pub open spec fn find_line(s: Seq<char>, j: nat, mark: Seq<char>) -> Option<nat>
    decreases s.len() - j,
{
    if j >= s.len() {
        None
    } else if trim(line_at(s, j)) == mark {
        Some(j)
    } else {
        proof {
            lemma_line_end(s, j);
        }
        find_line(s, next_line(s, j), mark)
    }
}

pub proof fn lemma_find_line(s: Seq<char>, j: nat, mark: Seq<char>)
    requires
        j <= s.len(),
    ensures
        find_line(s, j, mark) matches Some(k) ==> j <= k < s.len(),
    decreases s.len() - j,
{
    if j < s.len() && trim(line_at(s, j)) != mark {
        lemma_line_end(s, j);
        lemma_find_line(s, next_line(s, j), mark);
    }
}

pub open spec fn is_ascii_letter(c: char) -> bool {
    ('a' <= c && c <= 'z') || ('A' <= c && c <= 'Z')
}

/// The end of the run of ASCII letters that starts at `i`.
pub open spec fn letters_end(s: Seq<char>, i: nat) -> nat
    decreases s.len() - i,
{
    if i < s.len() && is_ascii_letter(s[i as int]) {
        letters_end(s, i + 1)
    } else {
        i
    }
}

/// The type and the trimmed arguments of a line that opens a placeholder
/// block: `:::`, optional white space, a type made of ASCII letters, then
/// white space or the end of the line before the arguments.
pub open spec fn opening(line: Seq<char>) -> Option<(Seq<char>, Seq<char>)> {
    if line.len() >= 3 && line.take(3) == ":::"@ {
        let rest = trim_start(line.skip(3));
        let k = letters_end(rest, 0);
        if k > 0 && (k == rest.len() || is_ws(rest[k as int])) {
            Some((rest.take(k as int), trim(rest.skip(k as int))))
        } else {
            None
        }
    } else {
        None
    }
}

/// A placeholder block found in a body.
pub struct BlockView {
    pub ptype: Seq<char>,
    pub args: Seq<char>,
    pub start: nat,
    pub end: nat,
    pub inner: Seq<char>,
}

/// The placeholder blocks of a body from the line that starts at `i` on. A
/// block runs from its opening line to the first following line that is
/// `:::` alone; an opening line without such a line is ordinary text.
pub open spec fn scan(s: Seq<char>, i: nat) -> Seq<BlockView>
    decreases s.len() - i,
{
    if i >= s.len() {
        Seq::empty()
    } else {
        proof {
            lemma_line_end(s, i);
        }
        let nl = next_line(s, i);
        match opening(line_at(s, i)) {
            Some((ptype, args)) => match find_line(s, nl, ":::"@) {
                Some(j) => {
                    proof {
                        lemma_find_line(s, nl, ":::"@);
                        lemma_line_end(s, j);
                    }
                    seq![
                        BlockView {
                            ptype,
                            args,
                            start: i,
                            end: next_line(s, j),
                            inner: trim(s.subrange(nl as int, j as int)),
                        },
                    ] + scan(s, next_line(s, j))
                },
                None => scan(s, nl),
            },
            None => scan(s, nl),
        }
    }
}

/// A placeholder span as plain values.
pub struct SpanView {
    pub placeholder: PlaceholderView,
    pub start: nat,
    pub end: nat,
    pub inner: Option<Seq<char>>,
}

/// The span of a block whose placeholder is `p`.
pub open spec fn span_of(b: BlockView, p: PlaceholderView) -> SpanView {
    SpanView {
        placeholder: p,
        start: b.start,
        end: b.end,
        inner: if b.inner.len() > 0 {
            Some(b.inner)
        } else {
            None
        },
    }
}

/// The spans of the blocks whose type has a meaning, or the error of the
/// first block whose arguments are missing.
pub open spec fn build_all(bs: Seq<BlockView>) -> Result<Seq<SpanView>, SkillError>
    decreases bs.len(),
{
    if bs.len() == 0 {
        Ok(Seq::empty())
    } else {
        match spec_build_placeholder(bs[0].ptype, bs[0].args) {
            Err(e) => Err(e),
            Ok(o) => match build_all(bs.drop_first()) {
                Err(e) => Err(e),
                Ok(rest) => Ok(
                    match o {
                        Some(p) => seq![span_of(bs[0], p)] + rest,
                        None => rest,
                    },
                ),
            },
        }
    }
}

/// A skill source split into its parts, as plain values.
pub struct SourceView {
    pub frontmatter: Seq<char>,
    pub content: Seq<char>,
    pub placeholders: Seq<SpanView>,
}

/// A skill source split into the text of its front matter, its body and the
/// placeholders of the body.
pub open spec fn spec_parse_skill_source(s: Seq<char>) -> Result<SourceView, SkillError> {
    if trim(line_at(s, 0)) == "---"@ {
        let b = next_line(s, 0);
        match find_line(s, b, "---"@) {
            Some(j) => {
                let body = s.skip(next_line(s, j) as int);
                match build_all(scan(body, 0)) {
                    Ok(ps) => Ok(
                        SourceView { frontmatter: s.subrange(b as int, j as int), content: body, placeholders: ps },
                    ),
                    Err(e) => Err(e),
                }
            },
            None => Err(SkillError::Syntax),
        }
    } else {
        Err(SkillError::Syntax)
    }
}


// ---------------------------------------------------------------------------
// Reading a skill source
// ---------------------------------------------------------------------------

/// A placeholder and where its block stands in the body (character offsets:
/// the block is `content[start..end]`).
#[derive(Debug, Clone)]
pub struct PlaceholderSpan {
    pub placeholder: Placeholder,
    pub start: usize,
    pub end: usize,
    pub inner_content: Option<String>,
}

impl View for PlaceholderSpan {
    type V = SpanView;

    open spec fn view(&self) -> SpanView {
        SpanView {
            placeholder: self.placeholder@,
            start: self.start as nat,
            end: self.end as nat,
            inner: opt_view(self.inner_content),
        }
    }
}

/// The views of a list of spans.
pub open spec fn spans_view(v: Seq<PlaceholderSpan>) -> Seq<SpanView> {
    v.map_values(|p: PlaceholderSpan| p@)
}

/// A skill source split into the text of its front matter, its body, and the
/// placeholders of the body.
#[derive(Debug, Clone)]
pub struct SkillSource {
    pub frontmatter: String,
    pub content: String,
    pub placeholders: Vec<PlaceholderSpan>,
}

impl View for SkillSource {
    type V = SourceView;

    open spec fn view(&self) -> SourceView {
        SourceView {
            frontmatter: self.frontmatter@,
            content: self.content@,
            placeholders: spans_view(self.placeholders@),
        }
    }
}

/// Spans found so far, followed by the result for the rest of the body.
pub open spec fn prepend_ok(done: Seq<SpanView>, r: Result<Seq<SpanView>, SkillError>) -> Result<
    Seq<SpanView>,
    SkillError,
> {
    match r {
        Ok(rest) => Ok(done + rest),
        Err(e) => Err(e),
    }
}

proof fn lemma_build_step(
    done: Seq<SpanView>,
    blk: BlockView,
    rest_blocks: Seq<BlockView>,
    o: Option<PlaceholderView>,
)
    requires
        spec_build_placeholder(blk.ptype, blk.args) == Ok::<Option<PlaceholderView>, SkillError>(o),
    ensures
        prepend_ok(done, build_all(seq![blk] + rest_blocks)) == prepend_ok(
            match o {
                Some(p) => done.push(span_of(blk, p)),
                None => done,
            },
            build_all(rest_blocks),
        ),
{
    let bs = seq![blk] + rest_blocks;
    assert(bs.drop_first() =~= rest_blocks);
    assert(bs[0] == blk);
    match build_all(rest_blocks) {
        Ok(rest) => match o {
            Some(p) => {
                assert(done.push(span_of(blk, p)) + rest =~= done + (seq![span_of(blk, p)] + rest));
            },
            None => {},
        },
        Err(e) => {},
    }
}

proof fn lemma_build_error(done: Seq<SpanView>, blk: BlockView, rest_blocks: Seq<BlockView>, e: SkillError)
    requires
        spec_build_placeholder(blk.ptype, blk.args) == Err::<Option<PlaceholderView>, SkillError>(e),
    ensures
        prepend_ok(done, build_all(seq![blk] + rest_blocks)) == Err::<Seq<SpanView>, SkillError>(e),
{
    let bs = seq![blk] + rest_blocks;
    assert(bs.drop_first() =~= rest_blocks);
    assert(bs[0] == blk);
}

fn line_end_exec(s: &[char], i: usize) -> (e: usize)
    requires
        i <= s@.len(),
    ensures
        e == line_end(s@, i as nat),
{
    let mut k = i;
    while k < s.len() && s[k] != '\n'
        invariant
            i <= k <= s@.len(),
            line_end(s@, i as nat) == line_end(s@, k as nat),
        decreases s@.len() - k,
    {
        k = k + 1;
    }
    k
}

fn next_line_exec(s: &[char], i: usize) -> (r: usize)
    requires
        i <= s@.len(),
    ensures
        r == next_line(s@, i as nat),
{
    let e = line_end_exec(s, i);
    proof {
        lemma_line_end(s@, i as nat);
    }
    if e < s.len() {
        e + 1
    } else {
        s.len()
    }
}

/// Whether the line that starts at `j` reads `mark` once trimmed.
fn line_is(s: &[char], j: usize, mark: &[char]) -> (b: bool)
    requires
        j <= s@.len(),
    ensures
        b == (trim(line_at(s@, j as nat)) == mark@),
{
    let e = line_end_exec(s, j);
    proof {
        lemma_line_end(s@, j as nat);
    }
    let line = slice_chars(s, j, e);
    let t = trim_chars(line.as_slice());
    crate::text::chars_eq(t.as_slice(), mark)
}

fn find_line_exec(s: &[char], j: usize, mark: &[char]) -> (r: Option<usize>)
    requires
        j <= s@.len(),
    ensures
        match r {
            Some(k) => find_line(s@, j as nat, mark@) == Some(k as nat),
            None => find_line(s@, j as nat, mark@) is None,
        },
{
    let mut k = j;
    while k < s.len()
        invariant
            j <= k <= s@.len(),
            find_line(s@, j as nat, mark@) == find_line(s@, k as nat, mark@),
        decreases s@.len() - k,
    {
        if line_is(s, k, mark) {
            return Some(k);
        }
        proof {
            lemma_line_end(s@, k as nat);
        }
        k = next_line_exec(s, k);
    }
    None
}

/// `s` without its leading white space.
fn trim_start_chars(s: &[char]) -> (r: Vec<char>)
    ensures
        r@ == trim_start(s@),
{
    let mut k: usize = 0;
    assert(s@.skip(0) =~= s@);
    while k < s.len() && crate::text::char_is_ws(s[k])
        invariant
            k <= s@.len(),
            trim_start(s@) == trim_start(s@.skip(k as int)),
        decreases s@.len() - k,
    {
        assert(s@.skip(k as int).drop_first() =~= s@.skip(k + 1));
        k = k + 1;
    }
    let n = s.len();
    let r = slice_chars(s, k, n);
    assert(r@ =~= s@.skip(k as int));
    r
}

fn letters_end_exec(s: &[char]) -> (k: usize)
    ensures
        k == letters_end(s@, 0),
{
    let mut k: usize = 0;
    while k < s.len() && (('a' <= s[k] && s[k] <= 'z') || ('A' <= s[k] && s[k] <= 'Z'))
        invariant
            k <= s@.len(),
            letters_end(s@, 0) == letters_end(s@, k as nat),
        decreases s@.len() - k,
    {
        k = k + 1;
    }
    k
}

/// The type and arguments of a line that opens a placeholder block.
fn opening_exec(line: &[char]) -> (r: Option<(Vec<char>, Vec<char>)>)
    ensures
        match r {
            Some((t, a)) => opening(line@) == Some((t@, a@)),
            None => opening(line@) is None,
        },
{
    proof {
        reveal_strlit(":::");
    }
    if line.len() < 3 || line[0] != ':' || line[1] != ':' || line[2] != ':' {
        if line.len() >= 3 {
            assert(line@.take(3) != ":::"@) by {
                if line@.take(3) == ":::"@ {
                    assert(line@.take(3)[0] == ':');
                    assert(line@.take(3)[1] == ':');
                    assert(line@.take(3)[2] == ':');
                }
            }
        }
        return None;
    }
    assert(line@.take(3) =~= ":::"@);
    let n = line.len();
    let after = slice_chars(line, 3, n);
    assert(after@ =~= line@.skip(3));
    let rest = trim_start_chars(after.as_slice());
    let k = letters_end_exec(rest.as_slice());
    proof {
        lemma_letters_end_bound(rest@, 0);
    }
    if k > 0 && (k == rest.len() || crate::text::char_is_ws(rest[k])) {
        let m = rest.len();
        let ty = slice_chars(rest.as_slice(), 0, k);
        let tail = slice_chars(rest.as_slice(), k, m);
        let args = trim_chars(tail.as_slice());
        assert(ty@ =~= rest@.take(k as int));
        assert(tail@ =~= rest@.skip(k as int));
        Some((ty, args))
    } else {
        None
    }
}

proof fn lemma_letters_end_bound(s: Seq<char>, i: nat)
    requires
        i <= s.len(),
    ensures
        i <= letters_end(s, i) <= s.len(),
    decreases s.len() - i,
{
    if i < s.len() && is_ascii_letter(s[i as int]) {
        lemma_letters_end_bound(s, i + 1);
    }
}

/// The arguments of an opening line are trimmed, so a `params` or `schema`
/// block with arguments names a tool.
proof fn lemma_opening_args(line: Seq<char>)
    requires
        opening(line) is Some,
    ensures
        opening(line) matches Some((t, a)) ==> args_name_tool(t, a),
{
    let rest = trim_start(line.skip(3));
    let k = letters_end(rest, 0);
    if trim(rest.skip(k as int)).len() > 0 {
        crate::text::lemma_trimmed_has_word(rest.skip(k as int));
    }
}

/// The placeholders of a body, in order.
fn parse_body(body: &[char]) -> (r: Result<Vec<PlaceholderSpan>, SkillError>)
    ensures
        match r {
            Ok(v) => build_all(scan(body@, 0)) == Ok::<Seq<SpanView>, SkillError>(spans_view(v@)),
            Err(e) => build_all(scan(body@, 0)) == Err::<Seq<SpanView>, SkillError>(e),
        },
{
    let close = str_to_chars(":::");
    let mut spans: Vec<PlaceholderSpan> = Vec::new();
    let mut i: usize = 0;
    assert(prepend_ok(Seq::empty(), build_all(scan(body@, 0))) == build_all(scan(body@, 0))) by {
        if let Ok(rest) = build_all(scan(body@, 0)) {
            assert(Seq::<SpanView>::empty() + rest =~= rest);
        }
    }
    assert(spans_view(spans@) =~= Seq::<SpanView>::empty());
    while i < body.len()
        invariant
            close@ == ":::"@,
            i <= body@.len(),
            build_all(scan(body@, 0)) == prepend_ok(spans_view(spans@), build_all(scan(body@, i as nat))),
        decreases body@.len() - i,
    {
        proof {
            lemma_line_end(body@, i as nat);
        }
        let nl = next_line_exec(body, i);
        let e = line_end_exec(body, i);
        let line = slice_chars(body, i, e);
        assert(line@ == line_at(body@, i as nat));
        match opening_exec(line.as_slice()) {
            Some((ty, args)) => {
                match find_line_exec(body, nl, close.as_slice()) {
                    Some(j) => {
                        proof {
                            lemma_find_line(body@, nl as nat, ":::"@);
                            lemma_line_end(body@, j as nat);
                            lemma_opening_args(line@);
                        }
                        let nj = next_line_exec(body, j);
                        let inner_raw = slice_chars(body, nl, j);
                        let inner = trim_chars(inner_raw.as_slice());
                        let ghost blk = BlockView {
                            ptype: ty@,
                            args: args@,
                            start: i as nat,
                            end: nj as nat,
                            inner: inner@,
                        };
                        assert(scan(body@, i as nat) == seq![blk] + scan(body@, nj as nat));
                        let ty_s = chars_to_string(ty.as_slice());
                        let args_s = chars_to_string(args.as_slice());
                        match build_placeholder(ty_s.as_str(), args_s.as_str()) {
                            Err(err) => {
                                proof {
                                    lemma_build_error(spans_view(spans@), blk, scan(body@, nj as nat), err);
                                }
                                return Err(err);
                            },
                            Ok(None) => {
                                proof {
                                    lemma_build_step(spans_view(spans@), blk, scan(body@, nj as nat), None);
                                }
                            },
                            Ok(Some(p)) => {
                                proof {
                                    lemma_build_step(spans_view(spans@), blk, scan(body@, nj as nat), Some(p@));
                                }
                                let inner_content = if inner.len() > 0 {
                                    Some(chars_to_string(inner.as_slice()))
                                } else {
                                    None
                                };
                                let span = PlaceholderSpan { placeholder: p, start: i, end: nj, inner_content };
                                let ghost before = spans_view(spans@);
                                assert(span@ == span_of(blk, p@));
                                spans.push(span);
                                assert(spans_view(spans@) =~= before.push(span_of(blk, p@)));
                            },
                        }
                        i = nj;
                    },
                    None => {
                        assert(scan(body@, i as nat) == scan(body@, nl as nat));
                        i = nl;
                    },
                }
            },
            None => {
                assert(scan(body@, i as nat) == scan(body@, nl as nat));
                i = nl;
            },
        }
    }
    assert(prepend_ok(spans_view(spans@), build_all(scan(body@, i as nat))) == Ok::<Seq<SpanView>, SkillError>(spans_view(spans@))) by {
        assert(spans_view(spans@) + Seq::<SpanView>::empty() =~= spans_view(spans@));
    }
    Ok(spans)
}

/// Splits a skill source into the text of its front matter, its body and
/// the placeholders of the body. The source must open with a `---` line and
/// close its front matter with another; a placeholder block whose arguments
/// are missing is refused with the error of the first such block.
pub fn parse_skill_source(content: &str) -> (r: Result<SkillSource, SkillError>)
    ensures
        match r {
            Ok(src) => spec_parse_skill_source(content@) == Ok::<SourceView, SkillError>(src@),
            Err(e) => spec_parse_skill_source(content@) == Err::<SourceView, SkillError>(e),
        },
{
    let s = str_to_chars(content);
    let dash = str_to_chars("---");
    if !line_is(s.as_slice(), 0, dash.as_slice()) {
        return Err(SkillError::Syntax);
    }
    let b = next_line_exec(s.as_slice(), 0);
    proof {
        lemma_line_end(s@, 0);
    }
    let j = match find_line_exec(s.as_slice(), b, dash.as_slice()) {
        Some(j) => j,
        None => {
            return Err(SkillError::Syntax);
        },
    };
    proof {
        lemma_find_line(s@, b as nat, "---"@);
        lemma_line_end(s@, j as nat);
    }
    let nb = next_line_exec(s.as_slice(), j);
    let fm = slice_chars(s.as_slice(), b, j);
    let n = s.len();
    let body = slice_chars(s.as_slice(), nb, n);
    assert(body@ =~= s@.skip(nb as int));
    match parse_body(body.as_slice()) {
        Ok(spans) => Ok(
            SkillSource {
                frontmatter: chars_to_string(fm.as_slice()),
                content: chars_to_string(body.as_slice()),
                placeholders: spans,
            },
        ),
        Err(e) => Err(e),
    }
}


// ---------------------------------------------------------------------------
// Writing skill files
// ---------------------------------------------------------------------------

/// What `{:?}` writes for a string: the string in double quotes, with the
/// escapes of Rust's `Debug` for `str`.
pub uninterp spec fn debug_quoted(s: Seq<char>) -> Seq<char>;

/// Writes a string as the `Debug` formatting of `str` does, with `format!`.
#[verifier::external_body]
fn debug_quote(s: &str) -> (r: String)
    ensures
        r@ == debug_quoted(s@),
{
    format!("{:?}", s)
}

/// A list of strings as `{:?}` writes a `Vec<String>`: `["a", "b"]`.
pub open spec fn debug_list(items: Seq<Seq<char>>) -> Seq<char> {
    "["@ + join(items.map_values(|x: Seq<char>| debug_quoted(x)), ", "@) + "]"@
}

/// `s` with every `"` written as `\"`.
pub open spec fn escape_quotes(s: Seq<char>) -> Seq<char>
    decreases s.len(),
{
    if s.len() == 0 {
        Seq::empty()
    } else {
        escape_quotes(s.drop_last()) + if s.last() == '"' {
            seq!['\\', '"']
        } else {
            seq![s.last()]
        }
    }
}

/// The `version` line of a generated front matter, if any.
pub open spec fn version_line(fm: FrontmatterView) -> Seq<char> {
    if fm.version.len() > 0 {
        "version: "@ + fm.version + "\n"@
    } else {
        Seq::empty()
    }
}

/// The `description` line of a generated front matter, if any.
pub open spec fn description_line(fm: FrontmatterView) -> Seq<char> {
    if fm.description.len() > 0 {
        "description: \""@ + escape_quotes(fm.description) + "\"\n"@
    } else {
        Seq::empty()
    }
}

/// The `metadata` lines of a generated front matter, if any.
pub open spec fn bins_lines(fm: FrontmatterView) -> Seq<char> {
    if fm.bins.len() > 0 {
        "metadata:\n"@ + "  requires:\n"@ + "    bins: "@ + debug_list(fm.bins) + "\n"@
    } else {
        Seq::empty()
    }
}

/// The front matter of a generated skill file.
pub open spec fn frontmatter_block(fm: FrontmatterView) -> Seq<char> {
    "---\n"@ + "name: "@ + fm.name + "\n"@ + version_line(fm) + description_line(fm) + bins_lines(fm)
        + "---\n\n"@
}

/// The skill file format being written.
#[derive(Clone, Copy, Debug, PartialEq, Eq)]
pub enum Target {
    /// CodeBuddy `SKILL.md`: examples stay shell code blocks.
    CodeBuddy,
    /// OpenClaw: examples become tool-call descriptions.
    OpenClaw,
}

/// What a placeholder is replaced by; `included` is the text of the included
/// file where it exists. `None` when an example cannot be described.
pub open spec fn replacement(sp: SpanView, included: Option<Seq<char>>, target: Target) -> Option<Seq<char>> {
    match sp.placeholder {
        PlaceholderView::Include { path } => Some(
            match included {
                Some(t) => t,
                None => "<!-- include not found: "@ + path + " -->\n"@,
            },
        ),
        PlaceholderView::Tools { namespace, tools } => Some(
            "<!-- TODO: tools "@ + namespace + " "@ + debug_list(tools) + " -->\n"@,
        ),
        PlaceholderView::Params { tool_name } => Some("<!-- TODO: params "@ + tool_name + " -->\n"@),
        PlaceholderView::Schema { tool_name } => Some("<!-- TODO: schema "@ + tool_name + " -->\n"@),
        PlaceholderView::Example => match target {
            Target::CodeBuddy => Some(
                match sp.inner {
                    Some(c) => "```bash\n"@ + c + "\n```"@,
                    None => "```bash\n```"@,
                },
            ),
            Target::OpenClaw => match sp.inner {
                Some(c) => spec_convert(c),
                None => Some(Seq::empty()),
            },
        },
    }
}

/// Where the text before span `k` starts: the end of the span before it.
pub open spec fn prev_end(spans: Seq<SpanView>, k: int) -> nat {
    if k <= 0 {
        0
    } else {
        spans[k - 1].end
    }
}

/// Whether the spans can be cut out of a body of `len` characters in order:
/// each starts at or after the end of the one before and within the body.
pub open spec fn spans_fit(len: nat, spans: Seq<SpanView>) -> bool {
    &&& forall|k: int| 0 <= k < spans.len() ==> prev_end(spans, k) <= #[trigger] spans[k].start <= len
    &&& spans.len() > 0 ==> spans.last().end <= len
}

/// The body up to the replacement of span `k - 1`.
pub open spec fn render_body(
    content: Seq<char>,
    spans: Seq<SpanView>,
    includes: Seq<Option<Seq<char>>>,
    target: Target,
    k: nat,
) -> Option<Seq<char>>
    decreases k,
{
    if k == 0 || k > spans.len() {
        Some(Seq::empty())
    } else {
        match (
            render_body(content, spans, includes, target, (k - 1) as nat),
            replacement(spans[k - 1], includes[k - 1], target),
        ) {
            (Some(prev), Some(r)) => Some(
                prev + content.subrange(prev_end(spans, k - 1) as int, spans[k - 1].start as int) + r,
            ),
            _ => None,
        }
    }
}

/// A generated skill file: the front matter, then the body with each
/// placeholder block replaced.
pub open spec fn spec_render(
    fm: FrontmatterView,
    content: Seq<char>,
    spans: Seq<SpanView>,
    includes: Seq<Option<Seq<char>>>,
    target: Target,
) -> Option<Seq<char>> {
    match render_body(content, spans, includes, target, spans.len()) {
        Some(b) => Some(
            frontmatter_block(fm) + b + content.subrange(
                prev_end(spans, spans.len() as int) as int,
                content.len() as int,
            ),
        ),
        None => None,
    }
}

/// A skill source whose front matter has been read.
#[derive(Debug, Clone)]
pub struct ParsedSkill {
    pub frontmatter: SkillFrontmatter,
    pub content: String,
    pub placeholders: Vec<PlaceholderSpan>,
}

/// The views of a list of optional strings.
pub open spec fn opt_strings_view(v: Seq<Option<String>>) -> Seq<Option<Seq<char>>> {
    v.map_values(|o: Option<String>| opt_view(o))
}

/// Whether a skill can be written: one include text per placeholder, and
/// spans that fit its body.
pub open spec fn renderable(skill: ParsedSkill, includes: Seq<Option<String>>) -> bool {
    &&& includes.len() == skill.placeholders@.len()
    &&& spans_fit(skill.content@.len(), spans_view(skill.placeholders@))
}

/// Appends `s` with every `"` written as `\"`.
fn push_escaped_quotes(out: &mut Vec<char>, s: &str)
    ensures
        final(out)@ == old(out)@ + escape_quotes(s@),
{
    let v = str_to_chars(s);
    let ghost start = out@;
    let mut i: usize = 0;
    assert(v@.take(0) =~= Seq::<char>::empty());
    while i < v.len()
        invariant
            v@ == s@,
            i <= v@.len(),
            out@ == start + escape_quotes(v@.take(i as int)),
        decreases v@.len() - i,
    {
        assert(v@.take(i + 1).drop_last() =~= v@.take(i as int));
        if v[i] == '"' {
            out.push('\\');
            out.push('"');
        } else {
            out.push(v[i]);
        }
        i = i + 1;
        assert(out@ =~= start + escape_quotes(v@.take(i as int)));
    }
    assert(v@.take(v@.len() as int) =~= v@);
}

/// Appends a list of strings as `{:?}` writes a `Vec<String>`.
fn push_debug_list(out: &mut Vec<char>, items: &Vec<String>)
    ensures
        final(out)@ == old(out)@ + debug_list(strings_view(items@)),
{
    let mut quoted: Vec<Vec<char>> = Vec::new();
    let mut i: usize = 0;
    while i < items.len()
        invariant
            i <= items@.len(),
            pieces_view(quoted@) == strings_view(items@).take(i as int).map_values(
                |x: Seq<char>| debug_quoted(x),
            ),
        decreases items@.len() - i,
    {
        let q = debug_quote(items[i].as_str());
        let ghost before = pieces_view(quoted@);
        quoted.push(str_to_chars(q.as_str()));
        assert(pieces_view(quoted@) =~= before.push(debug_quoted(items@[i as int]@)));
        i = i + 1;
        assert(strings_view(items@).take(i as int).map_values(|x: Seq<char>| debug_quoted(x))
            =~= before.push(debug_quoted(items@[i - 1]@)));
    }
    assert(strings_view(items@).take(items@.len() as int) =~= strings_view(items@));
    push_str(out, "[");
    let joined = join_chars(&quoted, ", ");
    push_chars(out, joined.as_slice());
    push_str(out, "]");
}

/// Appends the front matter of a generated skill file.
fn push_frontmatter(out: &mut Vec<char>, fm: &SkillFrontmatter)
    ensures
        final(out)@ == old(out)@ + frontmatter_block(fm@),
{
    let ghost start = out@;
    push_str(out, "---\n");
    push_str(out, "name: ");
    push_str(out, fm.name.as_str());
    push_str(out, "\n");
    let ghost a = out@;
    assert(a =~= start + "---\n"@ + "name: "@ + fm.name@ + "\n"@);
    if !fm.version.as_str().is_empty() {
        push_str(out, "version: ");
        push_str(out, fm.version.as_str());
        push_str(out, "\n");
    }
    let ghost b = out@;
    assert(b =~= a + version_line(fm@));
    if !fm.description.as_str().is_empty() {
        push_str(out, "description: \"");
        push_escaped_quotes(out, fm.description.as_str());
        push_str(out, "\"\n");
    }
    let ghost c = out@;
    assert(c =~= b + description_line(fm@));
    if fm.metadata.requires.bins.len() > 0 {
        push_str(out, "metadata:\n");
        push_str(out, "  requires:\n");
        push_str(out, "    bins: ");
        push_debug_list(out, &fm.metadata.requires.bins);
        push_str(out, "\n");
    }
    let ghost d = out@;
    assert(d =~= c + bins_lines(fm@));
    push_str(out, "---\n\n");
    assert(out@ =~= start + frontmatter_block(fm@));
}

/// The replacement of one placeholder.
fn replacement_exec(span: &PlaceholderSpan, included: &Option<String>, target: Target) -> (r: Option<Vec<char>>)
    ensures
        match r {
            Some(t) => replacement(span@, opt_view(*included), target) == Some(t@),
            None => replacement(span@, opt_view(*included), target) is None,
        },
{
    let mut out: Vec<char> = Vec::new();
    match &span.placeholder {
        Placeholder::Include { path } => {
            match included {
                Some(t) => {
                    push_str(&mut out, t.as_str());
                },
                None => {
                    push_str(&mut out, "<!-- include not found: ");
                    push_str(&mut out, path.as_str());
                    push_str(&mut out, " -->\n");
                },
            }
        },
        Placeholder::Tools { namespace, tools } => {
            push_str(&mut out, "<!-- TODO: tools ");
            push_str(&mut out, namespace.as_str());
            push_str(&mut out, " ");
            push_debug_list(&mut out, tools);
            push_str(&mut out, " -->\n");
        },
        Placeholder::Params { tool_name } => {
            push_str(&mut out, "<!-- TODO: params ");
            push_str(&mut out, tool_name.as_str());
            push_str(&mut out, " -->\n");
        },
        Placeholder::Schema { tool_name } => {
            push_str(&mut out, "<!-- TODO: schema ");
            push_str(&mut out, tool_name.as_str());
            push_str(&mut out, " -->\n");
        },
        Placeholder::Example => {
            match target {
                Target::CodeBuddy => {
                    match &span.inner_content {
                        Some(c) => {
                            push_str(&mut out, "```bash\n");
                            push_str(&mut out, c.as_str());
                            push_str(&mut out, "\n```");
                        },
                        None => {
                            push_str(&mut out, "```bash\n```");
                        },
                    }
                },
                Target::OpenClaw => {
                    match &span.inner_content {
                        Some(c) => {
                            match convert_cli_to_tool_calls(c.as_str()) {
                                Some(t) => {
                                    push_str(&mut out, t.as_str());
                                },
                                None => {
                                    return None;
                                },
                            }
                        },
                        None => {},
                    }
                },
            }
        },
    }
    assert(out@ =~= replacement(span@, opt_view(*included), target).unwrap());
    Some(out)
}

/// A generated skill file, or `None` when an example cannot be described.
fn render(skill: &ParsedSkill, includes: &Vec<Option<String>>, target: Target) -> (r: Option<Vec<char>>)
    requires
        renderable(*skill, includes@),
    ensures
        match r {
            Some(t) => spec_render(
                skill.frontmatter@,
                skill.content@,
                spans_view(skill.placeholders@),
                opt_strings_view(includes@),
                target,
            ) == Some(t@),
            None => spec_render(
                skill.frontmatter@,
                skill.content@,
                spans_view(skill.placeholders@),
                opt_strings_view(includes@),
                target,
            ) is None,
        },
{
    let ghost sv = spans_view(skill.placeholders@);
    let ghost iv = opt_strings_view(includes@);
    let content = str_to_chars(skill.content.as_str());
    let mut out: Vec<char> = Vec::new();
    push_frontmatter(&mut out, &skill.frontmatter);
    let ghost head = out@;
    let mut last_end: usize = 0;
    let mut k: usize = 0;
    while k < skill.placeholders.len()
        invariant
            sv == spans_view(skill.placeholders@),
            iv == opt_strings_view(includes@),
            content@ == skill.content@,
            renderable(*skill, includes@),
            k <= sv.len(),
            last_end == prev_end(sv, k as int),
            render_body(content@, sv, iv, target, k as nat) matches Some(b) && out@ == head + b,
        decreases sv.len() - k,
    {
        let span = &skill.placeholders[k];
        assert(sv[k as int] == span@);
        assert(iv[k as int] == opt_view(includes@[k as int]));
        assert(prev_end(sv, k as int) <= sv[k as int].start <= content@.len());
        let piece = slice_chars(content.as_slice(), last_end, span.start);
        push_chars(&mut out, piece.as_slice());
        match replacement_exec(span, &includes[k], target) {
            Some(rep) => {
                push_chars(&mut out, rep.as_slice());
            },
            None => {
                proof {
                    lemma_render_body_none_stays(content@, sv, iv, target, (k + 1) as nat, sv.len());
                }
                return None;
            },
        }
        last_end = span.end;
        k = k + 1;
    }
    let n = content.len();
    proof {
        if sv.len() > 0 {
            assert(sv.last() == sv[sv.len() - 1]);
        }
    }
    let tail = slice_chars(content.as_slice(), last_end, n);
    push_chars(&mut out, tail.as_slice());
    Some(out)
}

proof fn lemma_render_body_none_stays(
    content: Seq<char>,
    spans: Seq<SpanView>,
    includes: Seq<Option<Seq<char>>>,
    target: Target,
    i: nat,
    m: nat,
)
    requires
        1 <= i <= m <= spans.len(),
        render_body(content, spans, includes, target, i) is None,
    ensures
        render_body(content, spans, includes, target, m) is None,
    decreases m - i,
{
    if i < m {
        lemma_render_body_none_stays(content, spans, includes, target, i, (m - 1) as nat);
    }
}

proof fn lemma_codebuddy_renders(
    content: Seq<char>,
    spans: Seq<SpanView>,
    includes: Seq<Option<Seq<char>>>,
    k: nat,
)
    ensures
        render_body(content, spans, includes, Target::CodeBuddy, k) is Some,
    decreases k,
{
    if k > 0 && k <= spans.len() {
        lemma_codebuddy_renders(content, spans, includes, (k - 1) as nat);
    }
}

/// The CodeBuddy skill file of a skill source: the front matter, then the
/// body with each placeholder block replaced; `includes[k]` is the text of
/// the file that placeholder `k` includes, where it exists.
pub fn generate_claude_code(skill: &ParsedSkill, includes: &Vec<Option<String>>) -> (r: String)
    requires
        renderable(*skill, includes@),
    ensures
        spec_render(
            skill.frontmatter@,
            skill.content@,
            spans_view(skill.placeholders@),
            opt_strings_view(includes@),
            Target::CodeBuddy,
        ) == Some(r@),
{
    proof {
        lemma_codebuddy_renders(
            skill.content@,
            spans_view(skill.placeholders@),
            opt_strings_view(includes@),
            skill.placeholders@.len(),
        );
    }
    match render(skill, includes, Target::CodeBuddy) {
        Some(t) => chars_to_string(t.as_slice()),
        None => String::new(),
    }
}

/// The OpenClaw skill file of a skill source: as for CodeBuddy, but each
/// example becomes a list of tool calls; `None` when an example has an
/// argument value that is a lone quote character.
pub fn generate_openclaw(skill: &ParsedSkill, includes: &Vec<Option<String>>) -> (r: Option<String>)
    requires
        renderable(*skill, includes@),
    ensures
        opt_view(r) == spec_render(
            skill.frontmatter@,
            skill.content@,
            spans_view(skill.placeholders@),
            opt_strings_view(includes@),
            Target::OpenClaw,
        ),
{
    match render(skill, includes, Target::OpenClaw) {
        Some(t) => Some(chars_to_string(t.as_slice())),
        None => None,
    }
}


// ---------------------------------------------------------------------------
// The OpenClaw manifest
// ---------------------------------------------------------------------------

/// One skill of the OpenClaw manifest.
#[derive(Debug, Clone)]
pub struct OpenClawSkill {
    pub name: String,
    pub version: String,
    pub description: String,
    pub triggers: Vec<String>,
    pub tools: Vec<String>,
}

/// An OpenClaw skill as plain values.
pub struct OpenClawSkillView {
    pub name: Seq<char>,
    pub version: Seq<char>,
    pub description: Seq<char>,
    pub triggers: Seq<Seq<char>>,
    pub tools: Seq<Seq<char>>,
}

impl View for OpenClawSkill {
    type V = OpenClawSkillView;

    open spec fn view(&self) -> OpenClawSkillView {
        OpenClawSkillView {
            name: self.name@,
            version: self.version@,
            description: self.description@,
            triggers: strings_view(self.triggers@),
            tools: strings_view(self.tools@),
        }
    }
}

/// The OpenClaw manifest: one entry per skill.
#[derive(Debug, Clone)]
pub struct OpenClawManifest {
    pub skills: Vec<OpenClawSkill>,
}

/// The manifest entry of a skill with front matter `fm`: its name, version,
/// description, the trigger words of the description, and the tools it
/// requires.
pub open spec fn manifest_entry(fm: FrontmatterView) -> OpenClawSkillView {
    OpenClawSkillView {
        name: fm.name,
        version: fm.version,
        description: fm.description,
        triggers: spec_extract_triggers(fm.description),
        tools: fm.tools,
    }
}

impl OpenClawManifest {
    /// The manifest of a list of skills, in their order.
    pub fn from_skills(skills: &[ParsedSkill]) -> (m: OpenClawManifest)
        ensures
            m.skills@.len() == skills@.len(),
            forall|i: int|
                0 <= i < skills@.len() ==> #[trigger] m.skills@[i]@ == manifest_entry(
                    skills@[i].frontmatter@,
                ),
    {
        let mut out: Vec<OpenClawSkill> = Vec::new();
        let mut i: usize = 0;
        while i < skills.len()
            invariant
                i <= skills@.len(),
                out@.len() == i,
                forall|j: int|
                    0 <= j < i ==> #[trigger] out@[j]@ == manifest_entry(skills@[j].frontmatter@),
            decreases skills@.len() - i,
        {
            let fm = &skills[i].frontmatter;
            let entry = OpenClawSkill {
                name: fm.name.clone(),
                version: fm.version.clone(),
                description: fm.description.clone(),
                triggers: extract_triggers(fm.description.as_str()),
                tools: copy_strings(&fm.metadata.requires.tools),
            };
            out.push(entry);
            i = i + 1;
        }
        OpenClawManifest { skills: out }
    }
}


// ---------------------------------------------------------------------------
// Parsed sources can be written
// ---------------------------------------------------------------------------

/// Blocks in order, each after `lo` and within `len`.
pub open spec fn blocks_fit(bs: Seq<BlockView>, lo: nat, len: nat) -> bool
    decreases bs.len(),
{
    bs.len() == 0 || (lo <= bs[0].start && bs[0].start <= bs[0].end && bs[0].end <= len && blocks_fit(
        bs.drop_first(),
        bs[0].end,
        len,
    ))
}

/// Spans in order, each after `lo` and within `len`.
pub open spec fn chain_fits(ps: Seq<SpanView>, lo: nat, len: nat) -> bool
    decreases ps.len(),
{
    ps.len() == 0 || (lo <= ps[0].start && ps[0].start <= ps[0].end && ps[0].end <= len && chain_fits(
        ps.drop_first(),
        ps[0].end,
        len,
    ))
}

proof fn lemma_scan_fits(s: Seq<char>, i: nat)
    requires
        i <= s.len(),
    ensures
        blocks_fit(scan(s, i), i, s.len()),
    decreases s.len() - i,
{
    if i < s.len() {
        lemma_line_end(s, i);
        let nl = next_line(s, i);
        match opening(line_at(s, i)) {
            Some((ptype, args)) => match find_line(s, nl, ":::"@) {
                Some(j) => {
                    lemma_find_line(s, nl, ":::"@);
                    lemma_line_end(s, j);
                    let nj = next_line(s, j);
                    lemma_scan_fits(s, nj);
                    let b = BlockView {
                        ptype,
                        args,
                        start: i,
                        end: nj,
                        inner: trim(s.subrange(nl as int, j as int)),
                    };
                    assert((seq![b] + scan(s, nj)).drop_first() =~= scan(s, nj));
                },
                None => {
                    lemma_scan_fits(s, nl);
                },
            },
            None => {
                lemma_scan_fits(s, nl);
            },
        }
    }
}

proof fn lemma_build_all_fits(bs: Seq<BlockView>, lo: nat, len: nat)
    requires
        blocks_fit(bs, lo, len),
    ensures
        build_all(bs) matches Ok(ps) ==> chain_fits(ps, lo, len),
    decreases bs.len(),
{
    if bs.len() > 0 {
        lemma_build_all_fits(bs.drop_first(), bs[0].end, len);
        if let Ok(Some(p)) = spec_build_placeholder(bs[0].ptype, bs[0].args) {
            if let Ok(rest) = build_all(bs.drop_first()) {
                assert((seq![span_of(bs[0], p)] + rest).drop_first() =~= rest);
            }
        } else if let Ok(None) = spec_build_placeholder(bs[0].ptype, bs[0].args) {
            if let Ok(rest) = build_all(bs.drop_first()) {
                if rest.len() > 0 {
                    assert(chain_fits(rest, lo, len));
                }
            }
        }
    }
}

proof fn lemma_chain_fits_spans_fit(ps: Seq<SpanView>, lo: nat, len: nat)
    requires
        chain_fits(ps, lo, len),
    ensures
        forall|k: int|
            0 <= k < ps.len() ==> (if k == 0 {
                lo
            } else {
                ps[k - 1].end
            }) <= #[trigger] ps[k].start <= ps[k].end <= len,
    decreases ps.len(),
{
    if ps.len() > 0 {
        let rest = ps.drop_first();
        lemma_chain_fits_spans_fit(rest, ps[0].end, len);
        assert forall|k: int| 0 <= k < ps.len() implies (if k == 0 {
            lo
        } else {
            ps[k - 1].end
        }) <= #[trigger] ps[k].start <= ps[k].end <= len by {
            if k > 0 {
                assert(ps[k] == rest[k - 1]);
                if k > 1 {
                    assert(ps[k - 1] == rest[k - 2]);
                }
            }
        }
    }
}

/// Every placeholder span that the parser finds can be cut out of the body:
/// the spans come in order, each ends where or before the next starts, and
/// all lie within the body, so a parsed source can be written.
pub proof fn law_parsed_spans_fit(s: Seq<char>)
    ensures
        spec_parse_skill_source(s) matches Ok(v) ==> spans_fit(v.content.len(), v.placeholders),
{
    if let Ok(v) = spec_parse_skill_source(s) {
        let body = v.content;
        let b = next_line(s, 0);
        let j = find_line(s, b, "---"@)->0;
        assert(body == s.skip(next_line(s, j) as int));
        assert(build_all(scan(body, 0)) == Ok::<Seq<SpanView>, SkillError>(v.placeholders));
        lemma_scan_fits(body, 0);
        lemma_build_all_fits(scan(body, 0), 0, body.len());
        lemma_chain_fits_spans_fit(v.placeholders, 0, body.len());
        let ps = v.placeholders;
        assert forall|k: int| 0 <= k < ps.len() implies prev_end(ps, k) <= #[trigger] ps[k].start
            <= body.len() by {}
        if ps.len() > 0 {
            assert(ps.last() == ps[ps.len() - 1]);
            let _x = ps[ps.len() - 1].start;
            assert(ps[ps.len() - 1].end <= body.len());
        }
        assert(spans_fit(body.len(), ps));
    }
}


proof fn lemma_keep_nonempty_members(ps: Seq<Seq<char>>)
    ensures
        forall|i: int|
            0 <= i < keep_nonempty(ps).len() ==> #[trigger] keep_nonempty(ps)[i].len() > 0 && exists|j: int|
                0 <= j < ps.len() && ps[j] == keep_nonempty(ps)[i],
    decreases ps.len(),
{
    if ps.len() > 0 {
        lemma_keep_nonempty_members(ps.drop_last());
        let k = keep_nonempty(ps.drop_last());
        assert forall|i: int| 0 <= i < keep_nonempty(ps).len() implies #[trigger] keep_nonempty(ps)[i].len() > 0
            && exists|j: int| 0 <= j < ps.len() && ps[j] == keep_nonempty(ps)[i] by {
            if i < k.len() {
                assert(keep_nonempty(ps)[i] == k[i]);
                let j = choose|j: int| 0 <= j < ps.drop_last().len() && ps.drop_last()[j] == k[i];
                assert(ps[j] == ps.drop_last()[j]);
            } else {
                assert(keep_nonempty(ps)[i] == ps.last());
                assert(ps[ps.len() - 1] == ps.last());
            }
        }
    }
}

/// Every trigger word is a non-empty word with no white space at either
/// end.
pub proof fn law_triggers_are_trimmed_words(desc: Seq<char>)
    ensures
        forall|i: int|
            0 <= i < spec_extract_triggers(desc).len() ==> {
                let w = #[trigger] spec_extract_triggers(desc)[i];
                w.len() > 0 && !is_ws(w[0]) && !is_ws(w.last())
            },
{
    let ts = spec_extract_triggers(desc);
    if ts.len() > 0 {
        let seg = choose|seg: Seq<char>| ts == list_items(seg);
        assert(exists|seg: Seq<char>| ts == list_items(seg)) by {
            match find_from(desc, "触发词："@, 0) {
                Some(p) => {
                    let after = desc.skip((p + "触发词："@.len()) as int);
                    assert(ts == list_items(after.take(list_end_from(after, 0) as int)));
                },
                None => match find_from(desc, "触发词:"@, 0) {
                    Some(p) => {
                        let after = desc.skip((p + "触发词:"@.len()) as int);
                        assert(ts == list_items(after.take(list_end_from(after, 0) as int)));
                    },
                    None => match find_from(desc, "triggers:"@, 0) {
                        Some(p) => {
                            let after = desc.skip((p + "triggers:"@.len()) as int);
                            assert(ts == list_items(after.take(list_end_from(after, 0) as int)));
                        },
                        None => {},
                    },
                },
            }
        }
        let ps = split_by(seg, Separator::ListMark).map_values(|p: Seq<char>| trim(p));
        lemma_keep_nonempty_members(ps);
        assert forall|i: int| 0 <= i < ts.len() implies {
            let w = #[trigger] ts[i];
            w.len() > 0 && !is_ws(w[0]) && !is_ws(w.last())
        } by {
            assert(ts[i].len() > 0);
            let j = choose|j: int| 0 <= j < ps.len() && ps[j] == ts[i];
            crate::text::lemma_trim_ends(split_by(seg, Separator::ListMark)[j]);
        }
    }
}

/// A skill source without placeholders is written as its front matter
/// followed by its body, unchanged, for either target.
pub proof fn law_no_placeholders_body_unchanged(
    fm: FrontmatterView,
    content: Seq<char>,
    includes: Seq<Option<Seq<char>>>,
    target: Target,
)
    ensures
        spec_render(fm, content, Seq::empty(), includes, target) == Some(frontmatter_block(fm) + content),
{
    assert(content.subrange(0, content.len() as int) =~= content);
    assert(frontmatter_block(fm) + Seq::<char>::empty() + content =~= frontmatter_block(fm) + content);
}


/// What `skill-builder build` is asked to produce.
#[derive(Clone, Copy, Debug, PartialEq, Eq)]
pub enum BuildTarget {
    /// CodeBuddy `SKILL.md` files.
    Codebuddy,
    /// The OpenClaw plugin manifest.
    Openclaw,
    /// The MCP plugin manifest.
    Mcp,
    /// Every target.
    All,
}

/// The targets a build produces, in the order it produces them.
pub open spec fn spec_build_targets(t: BuildTarget) -> Seq<BuildTarget> {
    match t {
        BuildTarget::All => seq![BuildTarget::Codebuddy, BuildTarget::Openclaw, BuildTarget::Mcp],
        _ => seq![t],
    }
}

/// The targets a build produces: every one for `All`, else the one asked for.
pub fn build_targets(target: BuildTarget) -> (r: Vec<BuildTarget>)
    ensures
        r@ == spec_build_targets(target),
        forall|i: int| 0 <= i < r@.len() ==> !(#[trigger] r@[i] is All),
{
    match target {
        BuildTarget::All => vec![BuildTarget::Codebuddy, BuildTarget::Openclaw, BuildTarget::Mcp],
        BuildTarget::Codebuddy => vec![BuildTarget::Codebuddy],
        BuildTarget::Openclaw => vec![BuildTarget::Openclaw],
        BuildTarget::Mcp => vec![BuildTarget::Mcp],
    }
}

/// Whether no placeholder is an example block.
pub open spec fn no_examples(spans: Seq<SpanView>) -> bool {
    forall|k: int| 0 <= k < spans.len() ==> !((#[trigger] spans[k]).placeholder is Example)
}

proof fn lemma_targets_agree_body(
    content: Seq<char>,
    spans: Seq<SpanView>,
    includes: Seq<Option<Seq<char>>>,
    k: nat,
)
    requires
        no_examples(spans),
    ensures
        render_body(content, spans, includes, Target::CodeBuddy, k) == render_body(
            content,
            spans,
            includes,
            Target::OpenClaw,
            k,
        ),
    decreases k,
{
    if k > 0 && k <= spans.len() {
        lemma_targets_agree_body(content, spans, includes, (k - 1) as nat);
        assert(!(spans[k - 1].placeholder is Example));
        assert(replacement(spans[k - 1], includes[k - 1], Target::CodeBuddy) == replacement(
            spans[k - 1],
            includes[k - 1],
            Target::OpenClaw,
        ));
    }
}

/// The two targets differ only in example blocks: a skill source without
/// one is written the same for CodeBuddy and for OpenClaw.
pub proof fn law_targets_agree_without_examples(
    fm: FrontmatterView,
    content: Seq<char>,
    spans: Seq<SpanView>,
    includes: Seq<Option<Seq<char>>>,
)
    requires
        no_examples(spans),
    ensures
        spec_render(fm, content, spans, includes, Target::CodeBuddy) == spec_render(
            fm,
            content,
            spans,
            includes,
            Target::OpenClaw,
        ),
{
    lemma_targets_agree_body(content, spans, includes, spans.len());
}

} // verus!
