//! Queries over a block tree of a knowledge-base page: the section under a
//! heading, and the search for blocks by text, by heading or by type.
//!
//! A block tree as the server lists it has a virtual root whose children are
//! the top-level blocks of the page.

use vstd::prelude::*;
use crate::ir::{opt_seq, opt_view};
use crate::mdx_parse::{lower_of, to_lower};
use crate::schema::strings_view;
use crate::text::{str_to_chars, trim, trim_chars, chars_to_string, slice_chars};
use crate::output::{get, member_exec, JsonValue};

verus! {

// ---------------------------------------------------------------------------
// Blocks
// ---------------------------------------------------------------------------

/// The type of a block: a heading of some level, or another type by name.
#[derive(Debug, Clone, PartialEq, Eq)]
pub enum BlockType {
    Heading { level: u8 },
    Other { name: String },
}

/// A block type as plain values.
pub enum BlockTypeView {
    Heading { level: u8 },
    Other { name: Seq<char> },
}

impl View for BlockType {
    type V = BlockTypeView;

    open spec fn view(&self) -> BlockTypeView {
        match self {
            BlockType::Heading { level } => BlockTypeView::Heading { level: *level },
            BlockType::Other { name } => BlockTypeView::Other { name: name@ },
        }
    }
}

impl BlockType {
    /// Whether this is a heading.
    pub fn is_heading(&self) -> (b: bool)
        ensures
            b == (self@ is Heading),
    {
        matches!(self, BlockType::Heading { .. })
    }

    /// The level of a heading (0 for any other type).
    pub fn heading_level(&self) -> (l: u8)
        ensures
            l == match self@ {
                BlockTypeView::Heading { level } => level,
                _ => 0u8,
            },
    {
        match self {
            BlockType::Heading { level } => *level,
            _ => 0,
        }
    }

    /// A copy of this type.
    pub fn copy(&self) -> (r: BlockType)
        ensures
            r@ == self@,
    {
        match self {
            BlockType::Heading { level } => BlockType::Heading { level: *level },
            BlockType::Other { name } => BlockType::Other { name: name.clone() },
        }
    }
}

/// A block: its id, type, text and child blocks.
#[derive(Debug)]
pub struct Block {
    pub id: String,
    pub block_type: BlockType,
    pub text: Option<String>,
    pub children: Vec<Block>,
}

/// Whether two block types are the same type (headings of the same level,
/// or other types of the same name).
pub open spec fn same_type(a: BlockTypeView, b: BlockTypeView) -> bool {
    match (a, b) {
        (BlockTypeView::Heading { level: x }, BlockTypeView::Heading { level: y }) => x == y,
        (BlockTypeView::Other { name: x }, BlockTypeView::Other { name: y }) => x == y,
        _ => false,
    }
}

fn same_type_exec(a: &BlockType, b: &BlockType) -> (r: bool)
    ensures
        r == same_type(a@, b@),
{
    match (a, b) {
        (BlockType::Heading { level: x }, BlockType::Heading { level: y }) => *x == *y,
        (BlockType::Other { name: x }, BlockType::Other { name: y }) => crate::text::str_eq(x.as_str(), y.as_str()),
        _ => false,
    }
}

// ---------------------------------------------------------------------------
// Sections
// ---------------------------------------------------------------------------

/// `s` without its leading `#` characters.
pub open spec fn strip_hashes(s: Seq<char>) -> Seq<char>
    decreases s.len(),
{
    if s.len() > 0 && s[0] == '#' {
        strip_hashes(s.drop_first())
    } else {
        s
    }
}

/// A heading query without its leading `#` marks and surrounding white space.
pub open spec fn clean_query(q: Seq<char>) -> Seq<char> {
    trim(strip_hashes(q))
}

/// A heading query without its leading `#` marks and surrounding white space.
pub fn clean_heading_query(q: &str) -> (r: Vec<char>)
    ensures
        r@ == clean_query(q@),
{
    let v = str_to_chars(q);
    let mut k: usize = 0;
    assert(v@.skip(0) =~= v@);
    while k < v.len() && v[k] == '#'
        invariant
            k <= v@.len(),
            v@ == q@,
            strip_hashes(q@) == strip_hashes(v@.skip(k as int)),
        decreases v@.len() - k,
    {
        assert(v@.skip(k as int).drop_first() =~= v@.skip(k + 1));
        k = k + 1;
    }
    let n = v.len();
    let rest = slice_chars(v.as_slice(), k, n);
    assert(rest@ =~= v@.skip(k as int));
    trim_chars(rest.as_slice())
}

/// Whether a block is a heading whose trimmed text is `q`.
pub open spec fn is_heading_for(b: Block, q: Seq<char>) -> bool {
    b.block_type@ is Heading && b.text is Some && trim(b.text->0@) == q
}

fn is_heading_for_exec(b: &Block, q: &[char]) -> (r: bool)
    ensures
        r == is_heading_for(*b, q@),
{
    if !b.block_type.is_heading() {
        return false;
    }
    match &b.text {
        Some(t) => {
            let tv = str_to_chars(t.as_str());
            let tt = trim_chars(tv.as_slice());
            crate::text::chars_eq(tt.as_slice(), q)
        },
        None => false,
    }
}

/// The level of a heading block (0 for any other block).
pub open spec fn level_of(b: Block) -> u8 {
    match b.block_type@ {
        BlockTypeView::Heading { level } => level,
        _ => 0,
    }
}

/// The index of the first block that is a heading with text `q`.
pub open spec fn heading_index(bs: Seq<Block>, q: Seq<char>, i: nat) -> Option<nat>
    decreases bs.len() - i,
{
    if i >= bs.len() {
        None
    } else if is_heading_for(bs[i as int], q) {
        Some(i)
    } else {
        heading_index(bs, q, i + 1)
    }
}

/// The end of the section that starts after index `h`: the first heading
/// at or after `i` whose level is at most `level`, or the end.
pub open spec fn section_end(bs: Seq<Block>, level: u8, i: nat) -> nat
    decreases bs.len() - i,
{
    if i >= bs.len() {
        bs.len()
    } else if bs[i as int].block_type@ is Heading && level_of(bs[i as int]) <= level {
        i
    } else {
        section_end(bs, level, i + 1)
    }
}

/// The heading named in a section query was not found.
#[derive(Debug, Clone, PartialEq, Eq)]
pub struct HeadingNotFound {
    pub heading: String,
}

impl HeadingNotFound {
    /// `Heading not found: <heading>`.
    pub fn message(&self) -> (m: String)
        ensures
            m@ == "Heading not found: "@ + self.heading@,
    {
        let mut out = str_to_chars("Heading not found: ");
        crate::text::push_str(&mut out, self.heading.as_str());
        chars_to_string(out.as_slice())
    }
}

/// The section of a page under a heading: the first top-level heading
/// whose text (trimmed) is the query without its `#` marks, and the blocks
/// after it up to the next heading of the same or a higher level.
pub fn collect_section<'a>(root: &'a Block, heading_text: &str) -> (r: Result<(&'a Block, Vec<&'a Block>), HeadingNotFound>)
    ensures
        match r {
            Ok((h, section)) => heading_index(root.children@, clean_query(heading_text@), 0) matches Some(i)
                && *h == root.children@[i as int] && section@ == root.children@.subrange(
                (i + 1) as int,
                section_end(root.children@, level_of(root.children@[i as int]), i + 1) as int,
            ).map_values(|b: Block| &b),
            Err(e) => heading_index(root.children@, clean_query(heading_text@), 0) is None
                && e.heading@ == heading_text@,
        },
{
    let q = clean_heading_query(heading_text);
    let cs = &root.children;
    let mut i: usize = 0;
    while i < cs.len()
        invariant_except_break
            i <= cs@.len(),
            cs@ == root.children@,
            heading_index(cs@, q@, 0) == heading_index(cs@, q@, i as nat),
        ensures
            i <= cs@.len(),
            cs@ == root.children@,
            heading_index(cs@, q@, 0) == heading_index(cs@, q@, i as nat),
            i < cs@.len() ==> is_heading_for(cs@[i as int], q@),
        decreases cs@.len() - i,
    {
        if is_heading_for_exec(&cs[i], q.as_slice()) {
            break;
        }
        i = i + 1;
    }
    if i == cs.len() {
        return Err(HeadingNotFound { heading: heading_text.to_string() });
    }
    let level = cs[i].block_type.heading_level();
    let mut section: Vec<&Block> = Vec::new();
    let mut k = i + 1;
    while k < cs.len() && !(cs[k].block_type.is_heading() && cs[k].block_type.heading_level() <= level)
        invariant
            i < k <= cs@.len(),
            cs@ == root.children@,
            level == level_of(cs@[i as int]),
            section_end(cs@, level, (i + 1) as nat) == section_end(cs@, level, k as nat),
            section@ == cs@.subrange(i + 1, k as int).map_values(|b: Block| &b),
        decreases cs@.len() - k,
    {
        section.push(&cs[k]);
        k = k + 1;
        assert(section@ =~= cs@.subrange(i + 1, k as int).map_values(|b: Block| &b));
    }
    assert(section_end(cs@, level, k as nat) == k);
    assert(heading_index(cs@, q@, i as nat) == Some(i as nat));
    Ok((&cs[i], section))
}


// ---------------------------------------------------------------------------
// Search
// ---------------------------------------------------------------------------

/// How blocks are searched.
#[derive(Debug, Clone, Copy, PartialEq, Eq)]
pub enum FindMode {
    /// Blocks whose text holds the query, in any case.
    Text,
    /// Headings whose text is the query.
    Heading,
    /// Blocks of the type that the query names.
    Type,
}

/// A block found by a search, with the ids from the root down to it.
#[derive(Debug, Clone)]
pub struct BlockMatch {
    pub id: String,
    pub block_type: BlockType,
    pub text: Option<String>,
    pub path: Vec<String>,
}

/// A found block as plain values.
pub struct MatchView {
    pub id: Seq<char>,
    pub block_type: BlockTypeView,
    pub text: Option<Seq<char>>,
    pub path: Seq<Seq<char>>,
}

impl View for BlockMatch {
    type V = MatchView;

    open spec fn view(&self) -> MatchView {
        MatchView {
            id: self.id@,
            block_type: self.block_type@,
            text: opt_view(self.text),
            path: strings_view(self.path@),
        }
    }
}

/// The views of a list of matches.
pub open spec fn matches_view(v: Seq<BlockMatch>) -> Seq<MatchView> {
    v.map_values(|m: BlockMatch| m@)
}

/// What a search looks for.
pub enum Probe {
    /// Text holding this (lower-case) query.
    Text(Seq<char>),
    /// A heading with this text.
    Heading(Seq<char>),
    /// A block of this type.
    Type(BlockTypeView),
}

/// Whether `s` holds `p`.
pub open spec fn holds(s: Seq<char>, p: Seq<char>) -> bool {
    crate::skill_build::find_from(s, p, 0) is Some
}

/// Whether a block is what the probe looks for.
pub open spec fn hit(b: Block, p: Probe) -> bool {
    match p {
        Probe::Text(q) => b.text is Some && holds(lower_of(b.text->0@), q),
        Probe::Heading(q) => is_heading_for(b, q),
        Probe::Type(t) => same_type(b.block_type@, t),
    }
}

/// The matches in the tree rooted at `b`, in pre-order; `path` holds the
/// ids above `b`. A match by type records the block's own id as its path.
pub open spec fn matches_in(b: Block, p: Probe, path: Seq<Seq<char>>) -> Seq<MatchView>
    decreases b, 1nat, 0nat,
{
    let p2 = path.push(b.id@);
    (if hit(b, p) {
        seq![
            MatchView {
                id: b.id@,
                block_type: b.block_type@,
                text: opt_view(b.text),
                path: if p is Type {
                    seq![b.id@]
                } else {
                    p2
                },
            },
        ]
    } else {
        Seq::empty()
    }) + matches_children(b, p, p2, b.children.len() as nat)
}

/// The matches in the first `i` children of `b`.
pub open spec fn matches_children(b: Block, p: Probe, path: Seq<Seq<char>>, i: nat) -> Seq<MatchView>
    decreases b, 0nat, i,
{
    if i == 0 || i > b.children.len() {
        Seq::empty()
    } else {
        matches_children(b, p, path, (i - 1) as nat) + matches_in(b.children@[i - 1], p, path)
    }
}

/// What a search looks for, as an executable value.
pub enum ProbeExec {
    Text(Vec<char>),
    Heading(Vec<char>),
    Type(BlockType),
}

impl View for ProbeExec {
    type V = Probe;

    open spec fn view(&self) -> Probe {
        match self {
            ProbeExec::Text(q) => Probe::Text(q@),
            ProbeExec::Heading(q) => Probe::Heading(q@),
            ProbeExec::Type(t) => Probe::Type(t@),
        }
    }
}

fn hit_exec(b: &Block, p: &ProbeExec) -> (r: bool)
    ensures
        r == hit(*b, p@),
{
    match p {
        ProbeExec::Text(q) => match &b.text {
            Some(t) => {
                let lt = to_lower(t.as_str());
                let lv = str_to_chars(lt.as_str());
                crate::skill_build::find_chars(lv.as_slice(), q.as_slice()).is_some()
            },
            None => false,
        },
        ProbeExec::Heading(q) => is_heading_for_exec(b, q.as_slice()),
        ProbeExec::Type(t) => same_type_exec(&b.block_type, t),
    }
}

/// Appends the matches in the tree rooted at `b`.
fn collect_matches(b: &Block, p: &ProbeExec, path: &Vec<String>, out: &mut Vec<BlockMatch>)
    ensures
        matches_view(final(out)@) == matches_view(old(out)@) + matches_in(*b, p@, strings_view(path@)),
    decreases *b, 1nat,
{
    let ghost start = matches_view(out@);
    let mut p2 = crate::schema::copy_strings(path);
    p2.push(b.id.clone());
    assert(strings_view(p2@) =~= strings_view(path@).push(b.id@));
    if hit_exec(b, p) {
        let mp = match p {
            ProbeExec::Type(_) => {
                let mut v: Vec<String> = Vec::new();
                v.push(b.id.clone());
                assert(strings_view(v@) =~= seq![b.id@]);
                v
            },
            _ => crate::schema::copy_strings(&p2),
        };
        let m = BlockMatch {
            id: b.id.clone(),
            block_type: b.block_type.copy(),
            text: crate::ir::clone_opt(&b.text),
            path: mp,
        };
        let ghost o0 = matches_view(out@);
        let ghost mv = m@;
        out.push(m);
        assert(matches_view(out@) =~= o0.push(mv));
    }
    let ghost mid = matches_view(out@);
    assert(mid == start + (if hit(*b, p@) {
        seq![
            MatchView {
                id: b.id@,
                block_type: b.block_type@,
                text: opt_view(b.text),
                path: if p@ is Type {
                    seq![b.id@]
                } else {
                    strings_view(p2@)
                },
            },
        ]
    } else {
        Seq::empty()
    }));
    let mut i: usize = 0;
    while i < b.children.len()
        invariant
            i <= b.children@.len(),
            matches_view(out@) == mid + matches_children(*b, p@, strings_view(p2@), i as nat),
        decreases b.children@.len() - i,
    {
        assert(decreases_to!(*b => b.children@[i as int]));
        collect_matches(&b.children[i], p, &p2, out);
        i = i + 1;
    }
}

/// The type a search by type looks for: `h1` to `h9` are headings of that
/// level, any other name is the type of that name.
pub open spec fn type_named(q: Seq<char>) -> BlockTypeView {
    if q.len() == 2 && q[0] == 'h' && '1' <= q[1] && q[1] <= '9' {
        BlockTypeView::Heading { level: ((q[1] as u32) - ('0' as u32)) as u8 }
    } else {
        BlockTypeView::Other { name: q }
    }
}

impl BlockType {
    /// The type a search by type looks for.
    pub fn from_name(q: &str) -> (t: BlockType)
        ensures
            t@ == type_named(q@),
    {
        let v = str_to_chars(q);
        if v.len() == 2 && v[0] == 'h' && '1' <= v[1] && v[1] <= '9' {
            let level = (v[1] as u32 - '0' as u32) as u8;
            BlockType::Heading { level }
        } else {
            BlockType::Other { name: q.to_string() }
        }
    }
}

/// What a search looks for: the query in lower case for a text search, the
/// query without its `#` marks and surrounding white space for a heading
/// search, the type it names for a search by type.
pub open spec fn probe_of(query: Seq<char>, mode: FindMode) -> Probe {
    match mode {
        FindMode::Text => Probe::Text(lower_of(query)),
        FindMode::Heading => Probe::Heading(clean_query(query)),
        FindMode::Type => Probe::Type(type_named(query)),
    }
}

/// The blocks of a tree that a search finds, in pre-order.
pub fn find_blocks(tree: &Block, query: &str, mode: FindMode) -> (r: Vec<BlockMatch>)
    ensures
        matches_view(r@) == matches_in(*tree, probe_of(query@, mode), Seq::empty()),
{
    let p = match mode {
        FindMode::Text => {
            let l = to_lower(query);
            ProbeExec::Text(str_to_chars(l.as_str()))
        },
        FindMode::Heading => ProbeExec::Heading(clean_heading_query(query)),
        FindMode::Type => ProbeExec::Type(BlockType::from_name(query)),
    };
    let mut out: Vec<BlockMatch> = Vec::new();
    let path: Vec<String> = Vec::new();
    assert(strings_view(path@) =~= Seq::<Seq<char>>::empty());
    assert(matches_view(out@) =~= Seq::<MatchView>::empty());
    collect_matches(tree, &p, &path, &mut out);
    assert(matches_view(out@) =~= matches_in(*tree, probe_of(query@, mode), Seq::empty()));
    out
}


/// A section stops at the first heading of the same or a higher level as
/// its heading: no block inside it is such a heading, and the block that
/// ends it, if any, is one.
pub proof fn law_section_stops_at_peer_heading(bs: Seq<Block>, level: u8, i: nat)
    requires
        i <= bs.len(),
    ensures
        i <= section_end(bs, level, i) <= bs.len(),
        forall|k: int|
            i <= k < section_end(bs, level, i) ==> !((#[trigger] bs[k]).block_type@ is Heading && level_of(bs[k])
                <= level),
        section_end(bs, level, i) < bs.len() ==> bs[section_end(bs, level, i) as int].block_type@ is Heading
            && level_of(bs[section_end(bs, level, i) as int]) <= level,
    decreases bs.len() - i,
{
    if i < bs.len() && !(bs[i as int].block_type@ is Heading && level_of(bs[i as int]) <= level) {
        law_section_stops_at_peer_heading(bs, level, i + 1);
    }
}

// ---------------------------------------------------------------------------
// Server replies
// ---------------------------------------------------------------------------

/// The first of two optional values that is there.
pub open spec fn first_of(a: Option<JsonValue>, b: Option<JsonValue>) -> Option<JsonValue> {
    match a {
        Some(x) => Some(x),
        None => b,
    }
}

/// The member `key` of the member `data` of a reply.
pub open spec fn data_member(reply: JsonValue, key: Seq<char>) -> Option<JsonValue> {
    match get(reply, "data"@) {
        Some(d) => get(d, key),
        None => None,
    }
}

/// The items of a value that is an array.
pub open spec fn array_items(v: Option<JsonValue>) -> Option<Seq<JsonValue>> {
    match v {
        Some(JsonValue::Array(a)) => Some(a@),
        _ => None,
    }
}

/// The blocks of a children listing of a block: `data.blocks`, else
/// `blocks`, where that is an array.
pub open spec fn spec_listed_blocks(reply: JsonValue) -> Option<Seq<JsonValue>> {
    array_items(first_of(data_member(reply, "blocks"@), get(reply, "blocks"@)))
}

/// The blocks of a children listing of a page or block: the first there of
/// `data.blocks`, `data.children`, `blocks` and `children`, where that is an
/// array.
pub open spec fn spec_listed_children(reply: JsonValue) -> Option<Seq<JsonValue>> {
    array_items(
        first_of(
            first_of(data_member(reply, "blocks"@), data_member(reply, "children"@)),
            first_of(get(reply, "blocks"@), get(reply, "children"@)),
        ),
    )
}

/// The block a block description carries: `data.block`, else the reply.
pub open spec fn spec_described_block(reply: JsonValue) -> JsonValue {
    match data_member(reply, "block"@) {
        Some(b) => b,
        None => reply,
    }
}

/// The member `key` of a value that is an object.
fn member_of<'a>(v: &'a JsonValue, key: &str) -> (r: Option<&'a JsonValue>)
    ensures
        match r {
            Some(x) => get(*v, key@) == Some(*x),
            None => get(*v, key@) is None,
        },
{
    match v {
        JsonValue::Object(o) => member_exec(&o.entries, key),
        _ => None,
    }
}

/// The member `key` of the member `data` of a reply.
fn data_member_of<'a>(reply: &'a JsonValue, key: &str) -> (r: Option<&'a JsonValue>)
    ensures
        match r {
            Some(x) => data_member(*reply, key@) == Some(*x),
            None => data_member(*reply, key@) is None,
        },
{
    match member_of(reply, "data") {
        Some(d) => member_of(d, key),
        None => None,
    }
}

/// The items of a value where it is an array.
fn items_of<'a>(v: Option<&'a JsonValue>) -> (r: Option<&'a Vec<JsonValue>>)
    ensures
        match r {
            Some(a) => array_items(opt_deref(v)) == Some(a@),
            None => array_items(opt_deref(v)) is None,
        },
{
    match v {
        Some(JsonValue::Array(a)) => Some(a),
        _ => None,
    }
}

/// An optional reference, read as an optional value.
pub open spec fn opt_deref(v: Option<&JsonValue>) -> Option<JsonValue> {
    match v {
        Some(x) => Some(*x),
        None => None,
    }
}

/// The first of two optional references that is there.
fn first_ref<'a>(a: Option<&'a JsonValue>, b: Option<&'a JsonValue>) -> (r: Option<&'a JsonValue>)
    ensures
        opt_deref(r) == first_of(opt_deref(a), opt_deref(b)),
{
    match a {
        Some(x) => Some(x),
        None => b,
    }
}

/// The blocks of a children listing of a block (see [`spec_listed_blocks`]);
/// `None` where the reply holds no such array.
pub fn listed_blocks(reply: &JsonValue) -> (r: Option<&Vec<JsonValue>>)
    ensures
        match r {
            Some(a) => spec_listed_blocks(*reply) == Some(a@),
            None => spec_listed_blocks(*reply) is None,
        },
{
    let a = data_member_of(reply, "blocks");
    let b = member_of(reply, "blocks");
    items_of(first_ref(a, b))
}

/// The blocks of a children listing of a page or block (see
/// [`spec_listed_children`]); `None` where the reply holds no such array.
pub fn listed_children(reply: &JsonValue) -> (r: Option<&Vec<JsonValue>>)
    ensures
        match r {
            Some(a) => spec_listed_children(*reply) == Some(a@),
            None => spec_listed_children(*reply) is None,
        },
{
    let a = first_ref(data_member_of(reply, "blocks"), data_member_of(reply, "children"));
    let b = first_ref(member_of(reply, "blocks"), member_of(reply, "children"));
    items_of(first_ref(a, b))
}

/// The block a block description carries (see [`spec_described_block`]).
pub fn described_block(reply: &JsonValue) -> (r: &JsonValue)
    ensures
        *r == spec_described_block(*reply),
{
    match data_member_of(reply, "block") {
        Some(b) => b,
        None => reply,
    }
}

} // verus!
