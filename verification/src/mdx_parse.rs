//! MDX text to document tree.
//!
//! The `markdown` crate reads the MDX text (with the GFM strikethrough,
//! table and task-list constructs) into its syntax tree; this module maps
//! that tree to the document tree of [`crate::ir`].
//!
//! The syntax tree stays the crate's own type. What the mapping reads of a
//! syntax node (its kind, the few fields of that kind, its children) comes
//! through small accessors, and is described by [`MdView`], the node as plain
//! values. The mapping itself is specified over `MdView` by [`blocks`] and
//! [`inline_seq`].

use vstd::prelude::*;
use markdown::mdast::AttributeContent as MdAttrContent;
use markdown::mdast::AttributeValue as MdAttrVal;
use markdown::mdast::Node as Mdast;
use crate::ir::{
    callout_model, code_model, column_model, container_model, diagram_model, empty_model,
    image_model, link_model, models, models_plain, opt_seq, opt_view, task_model, text_model,
    DocNode, InlineStyle, KindView, NodeModel, NodeType,
};
use crate::text::{decimal, str_to_chars, trim};

verus! {

// ---------------------------------------------------------------------------
// The syntax tree as plain values
// ---------------------------------------------------------------------------

/// The syntax tree node of the `markdown` crate.
#[verifier::external_type_specification]
#[verifier::external_body]
pub struct ExMdastNode(markdown::mdast::Node);

/// The value of a JSX attribute.
pub enum AttrValueView {
    Absent,
    Literal(Seq<char>),
    Expression(Seq<char>),
}

/// A JSX attribute: a named property, or a spread expression.
pub enum AttrView {
    Property { name: Seq<char>, value: AttrValueView },
    Spread,
}

/// What the mapping reads of a syntax node besides its children.
pub enum MdTag {
    Paragraph,
    Heading { depth: u8 },
    Code { lang: Option<Seq<char>>, value: Seq<char> },
    JsxFlow { name: Option<Seq<char>>, attrs: Seq<AttrView> },
    JsxText { name: Option<Seq<char>>, attrs: Seq<AttrView> },
    Blockquote,
    List { ordered: bool },
    ListItem { checked: Option<bool> },
    ThematicBreak,
    Table,
    TableRow,
    TableCell,
    Image { alt: Seq<char> },
    TextExpr { value: Seq<char> },
    FlowExpr { value: Seq<char> },
    Text { value: Seq<char> },
    InlineCode { value: Seq<char> },
    Strong,
    Emphasis,
    Delete,
    Link { url: Seq<char> },
    /// The root and every kind that the mapping does not read.
    Other,
}

/// A syntax node as plain values: its tag and its children (none for a node
/// that cannot have any).
pub struct MdView {
    pub tag: MdTag,
    pub children: Seq<MdView>,
}

/// What a syntax node of the `markdown` crate holds, as plain values.
pub uninterp spec fn mdast_view(n: markdown::mdast::Node) -> MdView;

/// The syntax tree that `markdown::to_mdast` builds for an MDX text with
/// the GFM strikethrough, table and task-list constructs, or its message.
pub uninterp spec fn mdast_of(input: Seq<char>) -> Result<MdView, Seq<char>>;

/// `s` in lower case, as `str::to_lowercase` writes it.
pub uninterp spec fn lower_of(s: Seq<char>) -> Seq<char>;

/// `s` with each ASCII capital letter replaced by its small letter.
pub open spec fn ascii_lower(s: Seq<char>) -> Seq<char> {
    s.map_values(|c: char| if 'A' <= c && c <= 'Z' { ((c as int) + 32) as char } else { c })
}

/// The form in which a component name is compared: its lower case, which
/// is also the lower case of the name with its ASCII letters made small.
pub open spec fn name_key(s: Seq<char>) -> Seq<char> {
    lower_of(ascii_lower(s))
}

/// The kind of a syntax node, without its fields.
#[derive(Clone, Copy, Debug, PartialEq, Eq, Structural)]
pub enum MdKind {
    Paragraph,
    Heading,
    Code,
    JsxFlow,
    JsxText,
    Blockquote,
    List,
    ListItem,
    ThematicBreak,
    Table,
    TableRow,
    TableCell,
    Image,
    TextExpr,
    FlowExpr,
    Text,
    InlineCode,
    Strong,
    Emphasis,
    Delete,
    Link,
    Other,
}

pub open spec fn kind_of(t: MdTag) -> MdKind {
    match t {
        MdTag::Paragraph => MdKind::Paragraph,
        MdTag::Heading { .. } => MdKind::Heading,
        MdTag::Code { .. } => MdKind::Code,
        MdTag::JsxFlow { .. } => MdKind::JsxFlow,
        MdTag::JsxText { .. } => MdKind::JsxText,
        MdTag::Blockquote => MdKind::Blockquote,
        MdTag::List { .. } => MdKind::List,
        MdTag::ListItem { .. } => MdKind::ListItem,
        MdTag::ThematicBreak => MdKind::ThematicBreak,
        MdTag::Table => MdKind::Table,
        MdTag::TableRow => MdKind::TableRow,
        MdTag::TableCell => MdKind::TableCell,
        MdTag::Image { .. } => MdKind::Image,
        MdTag::TextExpr { .. } => MdKind::TextExpr,
        MdTag::FlowExpr { .. } => MdKind::FlowExpr,
        MdTag::Text { .. } => MdKind::Text,
        MdTag::InlineCode { .. } => MdKind::InlineCode,
        MdTag::Strong => MdKind::Strong,
        MdTag::Emphasis => MdKind::Emphasis,
        MdTag::Delete => MdKind::Delete,
        MdTag::Link { .. } => MdKind::Link,
        MdTag::Other => MdKind::Other,
    }
}

/// The kinds that [`md_block_kind`] tells apart.
pub open spec fn is_block_kind(k: MdKind) -> bool {
    matches!(k, MdKind::Paragraph | MdKind::Heading | MdKind::Code | MdKind::JsxFlow
        | MdKind::JsxText | MdKind::Blockquote | MdKind::List | MdKind::ListItem
        | MdKind::ThematicBreak | MdKind::Table | MdKind::TableRow)
}

/// The view of a node.
pub open spec fn view_of(n: &Mdast) -> MdView {
    mdast_view(*n)
}

/// The views of a list of nodes.
pub open spec fn views(v: Seq<Mdast>) -> Seq<MdView> {
    v.map_values(|c: Mdast| mdast_view(c))
}


// ---------------------------------------------------------------------------
// Reading syntax nodes
// ---------------------------------------------------------------------------

/// An attribute value as the mapping reads it.
#[derive(Debug, Clone)]
pub enum MdAttrValue {
    Absent,
    Literal(String),
    Expression(String),
}

/// An attribute as the mapping reads it.
#[derive(Debug, Clone)]
pub enum MdAttr {
    Property { name: String, value: MdAttrValue },
    Spread,
}

impl View for MdAttr {
    type V = AttrView;

    open spec fn view(&self) -> AttrView {
        match self {
            MdAttr::Property { name, value } => AttrView::Property {
                name: name@,
                value: match value {
                    MdAttrValue::Absent => AttrValueView::Absent,
                    MdAttrValue::Literal(s) => AttrValueView::Literal(s@),
                    MdAttrValue::Expression(s) => AttrValueView::Expression(s@),
                },
            },
            MdAttr::Spread => AttrView::Spread,
        }
    }
}

/// The views of a list of attributes.
pub open spec fn attrs_view(v: Seq<MdAttr>) -> Seq<AttrView> {
    v.map_values(|a: MdAttr| a@)
}

/// The name of a JSX element.
pub open spec fn jsx_name(t: MdTag) -> Option<Seq<char>> {
    match t {
        MdTag::JsxFlow { name, .. } => name,
        MdTag::JsxText { name, .. } => name,
        _ => None,
    }
}

/// The attributes of a JSX element.
pub open spec fn jsx_attrs(t: MdTag) -> Seq<AttrView> {
    match t {
        MdTag::JsxFlow { attrs, .. } => attrs,
        MdTag::JsxText { attrs, .. } => attrs,
        _ => Seq::empty(),
    }
}

/// The value of a node that holds a text value.
pub open spec fn tag_value(t: MdTag) -> Seq<char> {
    match t {
        MdTag::Code { value, .. } => value,
        MdTag::TextExpr { value } => value,
        MdTag::FlowExpr { value } => value,
        MdTag::Text { value } => value,
        MdTag::InlineCode { value } => value,
        _ => Seq::empty(),
    }
}

/// The language of a code block.
pub open spec fn code_lang(t: MdTag) -> Option<Seq<char>> {
    match t {
        MdTag::Code { lang, .. } => lang,
        _ => None,
    }
}

pub open spec fn has_value(k: MdKind) -> bool {
    matches!(k, MdKind::Code | MdKind::TextExpr | MdKind::FlowExpr | MdKind::Text | MdKind::InlineCode)
}

/// Reads an MDX text with `markdown::to_mdast`, with the MDX constructs
/// and the GFM strikethrough, table and task-list constructs switched on.
#[verifier::external_body]
fn markdown_to_mdast(input: &str) -> (r: Result<Mdast, String>)
    ensures
        match r {
            Ok(n) => mdast_of(input@) == Ok::<MdView, Seq<char>>(mdast_view(n)),
            Err(m) => mdast_of(input@) == Err::<MdView, Seq<char>>(m@),
        },
{
    let mut options = markdown::ParseOptions::mdx();
    options.constructs.gfm_strikethrough = true;
    options.constructs.gfm_table = true;
    options.constructs.gfm_task_list_item = true;
    markdown::to_mdast(input, &options).map_err(|m| m.to_string())
}

/// The children of a node, by `Node::children` of the `markdown` crate
/// (`None` for a kind of node that has none).
#[verifier::external_body]
fn md_children(n: &Mdast) -> (r: Option<&Vec<Mdast>>)
    ensures
        match r {
            Some(v) => views(v@) == mdast_view(*n).children,
            None => mdast_view(*n).children == Seq::<MdView>::empty(),
        },
{
    n.children()
}

/// The kind of a block-level or container node, `None` for the others.
#[verifier::external_body]
fn md_block_kind(n: &Mdast) -> (r: Option<MdKind>)
    ensures
        match r {
            Some(k) => k == kind_of(mdast_view(*n).tag) && is_block_kind(k),
            None => !is_block_kind(kind_of(mdast_view(*n).tag)),
        },
{
    match n {
        Mdast::Paragraph(_) => Some(MdKind::Paragraph),
        Mdast::Heading(_) => Some(MdKind::Heading),
        Mdast::Code(_) => Some(MdKind::Code),
        Mdast::MdxJsxFlowElement(_) => Some(MdKind::JsxFlow),
        Mdast::MdxJsxTextElement(_) => Some(MdKind::JsxText),
        Mdast::Blockquote(_) => Some(MdKind::Blockquote),
        Mdast::List(_) => Some(MdKind::List),
        Mdast::ListItem(_) => Some(MdKind::ListItem),
        Mdast::ThematicBreak(_) => Some(MdKind::ThematicBreak),
        Mdast::Table(_) => Some(MdKind::Table),
        Mdast::TableRow(_) => Some(MdKind::TableRow),
        _ => None,
    }
}

/// The kind of a node that [`md_block_kind`] does not tell apart.
#[verifier::external_body]
fn md_other_kind(n: &Mdast) -> (r: MdKind)
    requires
        !is_block_kind(kind_of(mdast_view(*n).tag)),
    ensures
        r == kind_of(mdast_view(*n).tag),
{
    match n {
        Mdast::TableCell(_) => MdKind::TableCell,
        Mdast::Image(_) => MdKind::Image,
        Mdast::MdxTextExpression(_) => MdKind::TextExpr,
        Mdast::MdxFlowExpression(_) => MdKind::FlowExpr,
        Mdast::Text(_) => MdKind::Text,
        Mdast::InlineCode(_) => MdKind::InlineCode,
        Mdast::Strong(_) => MdKind::Strong,
        Mdast::Emphasis(_) => MdKind::Emphasis,
        Mdast::Delete(_) => MdKind::Delete,
        Mdast::Link(_) => MdKind::Link,
        _ => MdKind::Other,
    }
}

/// The depth of a heading.
#[verifier::external_body]
fn md_depth(n: &Mdast) -> (r: u8)
    requires
        kind_of(mdast_view(*n).tag) == MdKind::Heading,
    ensures
        mdast_view(*n).tag == (MdTag::Heading { depth: r }),
{
    match n {
        Mdast::Heading(h) => h.depth,
        _ => 0,
    }
}

/// The text value of a code block, an expression, a text or an inline code.
#[verifier::external_body]
fn md_value(n: &Mdast) -> (r: String)
    requires
        has_value(kind_of(mdast_view(*n).tag)),
    ensures
        r@ == tag_value(mdast_view(*n).tag),
{
    match n {
        Mdast::Code(c) => c.value.clone(),
        Mdast::MdxTextExpression(e) => e.value.clone(),
        Mdast::MdxFlowExpression(e) => e.value.clone(),
        Mdast::Text(t) => t.value.clone(),
        Mdast::InlineCode(c) => c.value.clone(),
        _ => String::new(),
    }
}

/// The language of a code block.
#[verifier::external_body]
fn md_code_lang(n: &Mdast) -> (r: Option<String>)
    requires
        kind_of(mdast_view(*n).tag) == MdKind::Code,
    ensures
        opt_view(r) == code_lang(mdast_view(*n).tag),
{
    match n {
        Mdast::Code(c) => c.lang.clone(),
        _ => None,
    }
}

/// The name of a JSX element.
#[verifier::external_body]
fn md_jsx_name(n: &Mdast) -> (r: Option<String>)
    requires
        kind_of(mdast_view(*n).tag) == MdKind::JsxFlow || kind_of(mdast_view(*n).tag) == MdKind::JsxText,
    ensures
        opt_view(r) == jsx_name(mdast_view(*n).tag),
{
    match n {
        Mdast::MdxJsxFlowElement(e) => e.name.clone(),
        Mdast::MdxJsxTextElement(e) => e.name.clone(),
        _ => None,
    }
}

/// The attributes of a JSX element, in order.
#[verifier::external_body]
fn md_jsx_attrs(n: &Mdast) -> (r: Vec<MdAttr>)
    requires
        kind_of(mdast_view(*n).tag) == MdKind::JsxFlow || kind_of(mdast_view(*n).tag) == MdKind::JsxText,
    ensures
        attrs_view(r@) == jsx_attrs(mdast_view(*n).tag),
{
    let attrs = match n {
        Mdast::MdxJsxFlowElement(e) => &e.attributes,
        Mdast::MdxJsxTextElement(e) => &e.attributes,
        _ => return Vec::new(),
    };
    attrs.iter().map(|a| match a {
        MdAttrContent::Property(p) => MdAttr::Property { name: p.name.clone(), value: match &p.value {
            Some(MdAttrVal::Literal(s)) => MdAttrValue::Literal(s.clone()),
            Some(MdAttrVal::Expression(e)) => MdAttrValue::Expression(e.value.clone()),
            None => MdAttrValue::Absent,
        } },
        MdAttrContent::Expression(_) => MdAttr::Spread,
    }).collect()
}

/// Whether a list is ordered.
#[verifier::external_body]
fn md_ordered(n: &Mdast) -> (r: bool)
    requires
        kind_of(mdast_view(*n).tag) == MdKind::List,
    ensures
        mdast_view(*n).tag == (MdTag::List { ordered: r }),
{
    match n {
        Mdast::List(l) => l.ordered,
        _ => false,
    }
}

/// The check mark of a list item (`None` for an item that is no task).
#[verifier::external_body]
fn md_checked(n: &Mdast) -> (r: Option<bool>)
    requires
        kind_of(mdast_view(*n).tag) == MdKind::ListItem,
    ensures
        mdast_view(*n).tag == (MdTag::ListItem { checked: r }),
{
    match n {
        Mdast::ListItem(li) => li.checked,
        _ => None,
    }
}

/// The target of a link.
#[verifier::external_body]
fn md_url(n: &Mdast) -> (r: String)
    requires
        kind_of(mdast_view(*n).tag) == MdKind::Link,
    ensures
        mdast_view(*n).tag == (MdTag::Link { url: r@ }),
{
    match n {
        Mdast::Link(l) => l.url.clone(),
        _ => String::new(),
    }
}

/// The alternative text of an image.
#[verifier::external_body]
fn md_alt(n: &Mdast) -> (r: String)
    requires
        kind_of(mdast_view(*n).tag) == MdKind::Image,
    ensures
        mdast_view(*n).tag == (MdTag::Image { alt: r@ }),
{
    match n {
        Mdast::Image(i) => i.alt.clone(),
        _ => String::new(),
    }
}

/// `s` in lower case, with `str::to_lowercase`. Its result is also the
/// lower case of `s` with its ASCII capitals made small first: the function
/// maps each character on its own, an ASCII capital to its small letter,
/// and the one rule that looks at neighbours (a final capital sigma) reads
/// only whether they are cased, which an ASCII letter is in either case.
#[verifier::external_body]
pub(crate) fn to_lower(s: &str) -> (r: String)
    ensures
        r@ == lower_of(s@),
        r@ == lower_of(ascii_lower(s@)),
{
    s.to_lowercase()
}

/// The kind of a node.
fn md_kind(n: &Mdast) -> (k: MdKind)
    ensures
        k == kind_of(mdast_view(*n).tag),
{
    match md_block_kind(n) {
        Some(k) => k,
        None => md_other_kind(n),
    }
}


// ---------------------------------------------------------------------------
// The mapping, over plain values
// ---------------------------------------------------------------------------

/// A style flag that emphasis sets.
#[derive(Clone, Copy, Debug, PartialEq, Eq)]
pub enum StyleFlag {
    Bold,
    Italic,
    StrikeThrough,
}

/// No flag set.
pub open spec fn no_style() -> InlineStyle {
    InlineStyle { bold: false, italic: false, underline: false, strike_through: false, inline_code: false }
}

/// `s` with the flag `f` set.
pub open spec fn set_flag(s: InlineStyle, f: StyleFlag) -> InlineStyle {
    match f {
        StyleFlag::Bold => InlineStyle { bold: true, ..s },
        StyleFlag::Italic => InlineStyle { italic: true, ..s },
        StyleFlag::StrikeThrough => InlineStyle { strike_through: true, ..s },
    }
}

/// A node with flag `f` added to its style (a node without a style gets one).
pub open spec fn with_flag(m: NodeModel, f: StyleFlag) -> NodeModel {
    NodeModel {
        style: Some(
            set_flag(
                match m.style {
                    Some(s) => s,
                    None => no_style(),
                },
                f,
            ),
        ),
        ..m
    }
}

/// Every node of `ms` with flag `f` added.
pub open spec fn styled(ms: Seq<NodeModel>, f: StyleFlag) -> Seq<NodeModel> {
    Seq::new(ms.len(), |i: int| with_flag(ms[i], f))
}

/// The style of inline code.
pub open spec fn code_style() -> InlineStyle {
    InlineStyle { inline_code: true, ..no_style() }
}

/// The text of an attribute value (empty for an attribute without one).
pub open spec fn attr_value(v: AttrValueView) -> Seq<char> {
    match v {
        AttrValueView::Absent => Seq::empty(),
        AttrValueView::Literal(s) => s,
        AttrValueView::Expression(s) => s,
    }
}

/// The value of the last property named `key` (properties with an empty name
/// are ignored).
pub open spec fn attr_get(attrs: Seq<AttrView>, key: Seq<char>) -> Option<Seq<char>>
    decreases attrs.len(),
{
    if attrs.len() == 0 {
        None
    } else {
        match attrs.last() {
            AttrView::Property { name, value } => if name.len() > 0 && name == key {
                Some(attr_value(value))
            } else {
                attr_get(attrs.drop_last(), key)
            },
            AttrView::Spread => attr_get(attrs.drop_last(), key),
        }
    }
}

pub open spec fn first_some(a: Option<Seq<char>>, b: Option<Seq<char>>) -> Option<Seq<char>> {
    match a {
        Some(x) => Some(x),
        None => b,
    }
}

/// The border color of a callout: `color`, else `border-color`.
pub open spec fn attr_color(attrs: Seq<AttrView>) -> Option<Seq<char>> {
    first_some(attr_get(attrs, "color"@), attr_get(attrs, "border-color"@))
}

/// Whether a task element is checked: `checked` is `true` or `1`.
pub open spec fn attr_checked(attrs: Seq<AttrView>) -> bool {
    match attr_get(attrs, "checked"@) {
        Some(v) => v == "true"@ || v == "1"@,
        None => false,
    }
}

pub open spec fn is_digit(c: char) -> bool {
    '0' <= c && c <= '9'
}

pub open spec fn digit_val(c: char) -> nat {
    ((c as int) - ('0' as int)) as nat
}

pub open spec fn all_digits(d: Seq<char>) -> bool {
    forall|i: int| 0 <= i < d.len() ==> is_digit(#[trigger] d[i])
}

/// The value of a string of decimal digits.
pub open spec fn digits_value(d: Seq<char>) -> nat
    decreases d.len(),
{
    if d.len() == 0 {
        0
    } else {
        digits_value(d.drop_last()) * 10 + digit_val(d.last())
    }
}

/// The first `k` digits of a fraction, padded with zeros, as a whole number.
pub open spec fn frac_units(f: Seq<char>, k: nat) -> nat
    decreases k,
{
    if k == 0 {
        0
    } else {
        frac_units(f, (k - 1) as nat) * 10 + if k - 1 < f.len() {
            digit_val(f[k - 1])
        } else {
            0
        }
    }
}

/// `s` without its trailing `%` characters.
pub open spec fn strip_percent(s: Seq<char>) -> Seq<char>
    decreases s.len(),
{
    if s.len() > 0 && s.last() == '%' {
        strip_percent(s.drop_last())
    } else {
        s
    }
}

/// The integer and fraction digits of a decimal number `[+]ddd[.ddd]` with
/// at least one digit.
pub open spec fn decimal_parts(t: Seq<char>) -> Option<(Seq<char>, Seq<char>)> {
    let u = if t.len() > 0 && t[0] == '+' {
        t.drop_first()
    } else {
        t
    };
    let (int_part, frac) = match crate::skill_build::find_from(u, seq!['.'], 0) {
        Some(d) => (u.take(d as int), u.skip((d + 1) as int)),
        None => (u, Seq::empty()),
    };
    if all_digits(int_part) && all_digits(frac) && int_part.len() + frac.len() > 0 {
        Some((int_part, frac))
    } else {
        None
    }
}

/// A column width written as a ratio (`0.5`) or a percentage (`50`,
/// `50%`), in millionths: a number above 1 is a percentage. Digits past
/// the millionths are dropped; a width that is not such a number, or too
/// large for a `u64`, is none.
pub open spec fn parse_ratio(s: Seq<char>) -> Option<u64> {
    match decimal_parts(trim(strip_percent(s))) {
        Some((i, f)) => {
            let iv = digits_value(i);
            let above_one = iv > 1 || (iv == 1 && exists|k: int| 0 <= k < f.len() && f[k] != '0');
            let r = if above_one {
                iv * 10000 + frac_units(f, 4)
            } else {
                iv * 1000000 + frac_units(f, 6)
            };
            if r <= u64::MAX {
                Some(r as u64)
            } else {
                None
            }
        },
        None => None,
    }
}

/// The width of a column element: `width`, else `ratio`, else `width-ratio`.
pub open spec fn attr_width(attrs: Seq<AttrView>) -> Option<u64> {
    match first_some(
        attr_get(attrs, "width"@),
        first_some(attr_get(attrs, "ratio"@), attr_get(attrs, "width-ratio"@)),
    ) {
        Some(v) => parse_ratio(v),
        None => None,
    }
}

/// The lower-case name of a JSX element (empty when it has none).
pub open spec fn lname(t: MdTag) -> Seq<char> {
    name_key(opt_seq(jsx_name(t)))
}

/// The name of a task element inside a paragraph: `name`, else the text of
/// its first inline node, else empty.
pub open spec fn inline_task_name(attrs: Seq<AttrView>, inner: Seq<NodeModel>) -> Seq<char> {
    match attr_get(attrs, "name"@) {
        Some(n) => n,
        None => if inner.len() > 0 {
            opt_seq(inner[0].text)
        } else {
            Seq::empty()
        },
    }
}

/// The inline nodes of a list of syntax nodes.
pub open spec fn inline_seq(ns: Seq<MdView>) -> Seq<NodeModel>
    decreases ns,
{
    if ns.len() == 0 {
        Seq::empty()
    } else {
        inline_seq(ns.drop_last()) + inline_one(ns.last())
    }
}

/// The inline nodes of one syntax node.
pub open spec fn inline_one(n: MdView) -> Seq<NodeModel>
    decreases n,
{
    match n.tag {
        MdTag::Text { value } => seq![text_model(value, None)],
        MdTag::InlineCode { value } => seq![text_model(value, Some(code_style()))],
        MdTag::Strong => styled(inline_seq(n.children), StyleFlag::Bold),
        MdTag::Emphasis => styled(inline_seq(n.children), StyleFlag::Italic),
        MdTag::Delete => styled(inline_seq(n.children), StyleFlag::StrikeThrough),
        MdTag::Link { url } => seq![link_model(url, inline_seq(n.children))],
        MdTag::Image { alt } => seq![image_model(None, Some(alt))],
        MdTag::TextExpr { value } => seq![text_model("{"@ + value + "}"@, None)],
        MdTag::JsxText { name, attrs } => {
            let l = name_key(opt_seq(name));
            let inner = inline_seq(n.children);
            if l == "callout"@ {
                seq![callout_model(attr_color(attrs), attr_get(attrs, "icon"@), inner)]
            } else if l == "todo"@ || l == "task"@ {
                seq![
                    NodeModel {
                        children: inner,
                        ..task_model(attr_checked(attrs), inline_task_name(attrs, inner))
                    },
                ]
            } else if l == "toggle"@ {
                seq![container_model(KindView::Toggle, inner)]
            } else if l == "column"@ {
                seq![column_model(attr_width(attrs), inner)]
            } else if l == "mark"@ {
                styled(inner, StyleFlag::Bold)
            } else {
                inner
            }
        },
        _ => Seq::empty(),
    }
}

/// The next value of the task counter (it wraps around).
pub open spec fn next_count(c: u64) -> u64 {
    if c == u64::MAX {
        0
    } else {
        (c + 1) as u64
    }
}

/// The temporary id of the task numbered `c`.
pub open spec fn temp_id(c: u64) -> Seq<char> {
    "temp_"@ + decimal(c as nat)
}

/// The first text node among `ms`.
pub open spec fn first_text(ms: Seq<NodeModel>) -> Option<NodeModel>
    decreases ms.len(),
{
    if ms.len() == 0 {
        None
    } else if ms[0].kind is Text {
        Some(ms[0])
    } else {
        first_text(ms.drop_first())
    }
}

/// The name of a task element: `name`, else the text of its first text
/// node, else the plain content of its children.
pub open spec fn flow_task_name(attrs: Seq<AttrView>, inner: Seq<NodeModel>) -> Seq<char> {
    match attr_get(attrs, "name"@) {
        Some(n) => n,
        None => match first_text(inner) {
            Some(m) => match m.text {
                Some(t) => t,
                None => models_plain(inner),
            },
            None => models_plain(inner),
        },
    }
}

/// The nodes of `ms` that are not text runs.
pub open spec fn non_text(ms: Seq<NodeModel>) -> Seq<NodeModel>
    decreases ms.len(),
{
    if ms.len() == 0 {
        Seq::empty()
    } else {
        non_text(ms.drop_last()) + if ms.last().kind is Text {
            Seq::empty()
        } else {
            seq![ms.last()]
        }
    }
}

/// The cells of a table row.
pub open spec fn table_cells(ns: Seq<MdView>) -> Seq<NodeModel>
    decreases ns,
{
    if ns.len() == 0 {
        Seq::empty()
    } else {
        table_cells(ns.drop_last()) + if ns.last().tag is TableCell {
            seq![
                container_model(KindView::TableCell { col_span: None }, inline_seq(ns.last().children)),
            ]
        } else {
            Seq::empty()
        }
    }
}

/// The rows of a table.
pub open spec fn table_rows(ns: Seq<MdView>) -> Seq<NodeModel>
    decreases ns,
{
    if ns.len() == 0 {
        Seq::empty()
    } else {
        table_rows(ns.drop_last()) + if ns.last().tag is TableRow {
            seq![container_model(KindView::TableRow, table_cells(ns.last().children))]
        } else {
            Seq::empty()
        }
    }
}

/// A list item of inline nodes.
pub open spec fn item_model(ordered: bool, cs: Seq<NodeModel>) -> NodeModel {
    container_model(
        if ordered {
            KindView::NumberedList
        } else {
            KindView::BulletedList
        },
        cs,
    )
}

/// The name of a task list item: the text that opens its first paragraph,
/// if it is not empty.
pub open spec fn list_task_name(cs: Seq<MdView>) -> Seq<char> {
    if cs.len() > 0 && cs[0].tag is Paragraph && cs[0].children.len() > 0
        && cs[0].children[0].tag is Text {
        tag_value(cs[0].children[0].tag)
    } else {
        Seq::empty()
    }
}

/// The block nodes of a list of syntax nodes, and the task counter after
/// them; `c` is the counter before.
pub open spec fn blocks(ns: Seq<MdView>, c: u64) -> (Seq<NodeModel>, u64)
    decreases ns,
{
    if ns.len() == 0 {
        (Seq::empty(), c)
    } else {
        let (a, c1) = blocks(ns.drop_last(), c);
        let (b, c2) = block_one(ns.last(), c1);
        (a + b, c2)
    }
}

/// The block nodes of one syntax node, and the task counter after it.
pub open spec fn block_one(n: MdView, c: u64) -> (Seq<NodeModel>, u64)
    decreases n,
{
    match n.tag {
        MdTag::Paragraph => (seq![container_model(KindView::Paragraph, inline_seq(n.children))], c),
        MdTag::Heading { depth } => (
            seq![
                container_model(
                    KindView::Heading {
                        level: if depth < 1 {
                            1u8
                        } else if depth > 5 {
                            5u8
                        } else {
                            depth
                        },
                    },
                    inline_seq(n.children),
                ),
            ],
            c,
        ),
        MdTag::Code { lang, value } => (seq![code_model(lang, value)], c),
        MdTag::JsxFlow { name, attrs } => {
            let (inner, c1) = blocks(n.children, c);
            let l = name_key(opt_seq(name));
            if l == "callout"@ {
                (seq![callout_model(attr_color(attrs), attr_get(attrs, "icon"@), inner)], c1)
            } else if l == "todo"@ || l == "task"@ {
                let c2 = next_count(c1);
                (
                    seq![
                        NodeModel {
                            children: inner,
                            temp_id: Some(temp_id(c2)),
                            ..task_model(attr_checked(attrs), flow_task_name(attrs, inner))
                        },
                    ],
                    c2,
                )
            } else if l == "columnlist"@ || l == "column-list"@ {
                (seq![container_model(KindView::ColumnList, inner)], c1)
            } else if l == "column"@ {
                (seq![column_model(attr_width(attrs), inner)], c1)
            } else if l == "mermaid"@ {
                (seq![diagram_model(KindView::Mermaid { theme: None }, models_plain(inner))], c1)
            } else if l == "plantuml"@ {
                (seq![diagram_model(KindView::PlantUml { theme: None }, models_plain(inner))], c1)
            } else if l == "toggle"@ {
                (seq![container_model(KindView::Toggle, inline_seq(n.children))], c1)
            } else {
                (inner, c1)
            }
        },
        MdTag::Blockquote => {
            let (inner, c1) = blocks(n.children, c);
            (seq![callout_model(None, None, inner)], c1)
        },
        MdTag::List { ordered } => list_items(n.children, ordered, c),
        MdTag::ThematicBreak => (seq![empty_model(KindView::Divider)], c),
        MdTag::Table => {
            let rows = table_rows(n.children);
            if rows.len() > 0 {
                (seq![container_model(KindView::Table, rows)], c)
            } else {
                (Seq::empty(), c)
            }
        },
        MdTag::Image { alt } => (seq![image_model(None, Some(alt))], c),
        MdTag::JsxText { name, attrs } => {
            let l = name_key(opt_seq(name));
            if l == "callout"@ {
                let (inner, c1) = blocks(n.children, c);
                (seq![callout_model(attr_color(attrs), attr_get(attrs, "icon"@), inner)], c1)
            } else if l == "mark"@ {
                (styled(inline_seq(n.children), StyleFlag::Bold), c)
            } else if l == "toggle"@ {
                (seq![container_model(KindView::Toggle, inline_seq(n.children))], c)
            } else {
                (inline_seq(n.children), c)
            }
        },
        MdTag::TextExpr { value } => (seq![text_model("{"@ + value + "}"@, None)], c),
        MdTag::FlowExpr { value } => (seq![text_model("{"@ + value + "}"@, None)], c),
        _ => (Seq::empty(), c),
    }
}

/// The items of a list, one node per child, and the task counter after them.
pub open spec fn list_items(ns: Seq<MdView>, ordered: bool, c: u64) -> (Seq<NodeModel>, u64)
    decreases ns,
{
    if ns.len() == 0 {
        (Seq::empty(), c)
    } else {
        let (a, c1) = list_items(ns.drop_last(), ordered, c);
        let (b, c2) = list_item(ns.last(), ordered, c1);
        (a.push(b), c2)
    }
}

/// The node of one list child, and the task counter after it. A task item
/// takes the next counter value before the blocks of its content are read.
pub open spec fn list_item(it: MdView, ordered: bool, c: u64) -> (NodeModel, u64)
    decreases it,
{
    match it.tag {
        MdTag::ListItem { checked } => match checked {
            Some(done) => {
                let c1 = next_count(c);
                let base = NodeModel {
                    temp_id: Some(temp_id(c1)),
                    ..task_model(done, list_task_name(it.children))
                };
                if it.children.len() > 1 || (it.children.len() > 0 && it.children[0].tag is Paragraph) {
                    let (all, c2) = blocks(it.children, c1);
                    let extra = non_text(all);
                    (
                        if extra.len() > 0 {
                            NodeModel { children: extra, ..base }
                        } else {
                            base
                        },
                        c2,
                    )
                } else {
                    (base, c1)
                }
            },
            None => (item_model(ordered, inline_seq(it.children)), c),
        },
        MdTag::Paragraph => (item_model(ordered, inline_seq(it.children)), c),
        _ => (item_model(ordered, Seq::empty()), c),
    }
}


// ---------------------------------------------------------------------------
// Executable helpers
// ---------------------------------------------------------------------------

/// Adds a style flag to a node (a node without a style gets one).
fn apply_style(node: &mut DocNode, f: StyleFlag)
    ensures
        final(node).model() == with_flag(old(node).model(), f),
{
    proof {
        crate::ir::lemma_model_children(*node);
    }
    let mut st = match node.inline_style {
        Some(s) => s,
        None => InlineStyle { bold: false, italic: false, underline: false, strike_through: false, inline_code: false },
    };
    match f {
        StyleFlag::Bold => st.bold = true,
        StyleFlag::Italic => st.italic = true,
        StyleFlag::StrikeThrough => st.strike_through = true,
    }
    node.inline_style = Some(st);
    proof {
        crate::ir::lemma_model_children(*node);
    }
}

/// Every node with a style flag added.
fn styled_nodes(v: Vec<DocNode>, f: StyleFlag) -> (r: Vec<DocNode>)
    ensures
        models(r@) == styled(models(v@), f),
{
    let ghost all = models(v@);
    let total = v.len();
    let mut rest = v;
    let mut out: Vec<DocNode> = Vec::new();
    while rest.len() > 0
        invariant
            all.len() == total,
            out@.len() + rest@.len() == total,
            models(rest@) == all.skip(out@.len() as int),
            models(out@) == styled(all.take(out@.len() as int), f),
        decreases rest@.len(),
    {
        let ghost k = out@.len();
        let ghost old_rest = rest@;
        let mut n = rest.remove(0);
        assert(n.model() == all[k as int]) by {
            assert(models(old_rest)[0] == old_rest[0].model());
            assert(all.skip(k as int)[0] == all[k as int]);
        }
        apply_style(&mut n, f);
        let ghost before = models(out@);
        let ghost nm = n.model();
        out.push(n);
        assert(models(out@) =~= before.push(nm));
        assert(styled(all.take((k + 1) as int), f) =~= styled(all.take(k as int), f).push(
            with_flag(all[k as int], f),
        ));
        assert(models(out@) =~= styled(all.take((k + 1) as int), f));
        assert(models(rest@) =~= models(old_rest).skip(1));
        assert(models(rest@) =~= all.skip((k + 1) as int));
    }
    assert(all.take(total as int) =~= all);
    out
}

/// The value of the last property named `key`.
fn attr_get_exec(attrs: &Vec<MdAttr>, key: &str) -> (r: Option<String>)
    ensures
        opt_view(r) == attr_get(attrs_view(attrs@), key@),
{
    let k = str_to_chars(key);
    let mut i = attrs.len();
    assert(attrs_view(attrs@).take(i as int) =~= attrs_view(attrs@));
    while i > 0
        invariant
            i <= attrs@.len(),
            k@ == key@,
            attr_get(attrs_view(attrs@), key@) == attr_get(attrs_view(attrs@).take(i as int), key@),
        decreases i,
    {
        let ghost pre = attrs_view(attrs@).take(i as int);
        assert(pre.last() == attrs@[i - 1]@);
        assert(pre.drop_last() =~= attrs_view(attrs@).take(i - 1));
        match &attrs[i - 1] {
            MdAttr::Property { name, value } => {
                let nv = str_to_chars(name.as_str());
                if nv.len() > 0 && crate::text::chars_eq(nv.as_slice(), k.as_slice()) {
                    let v = match value {
                        MdAttrValue::Absent => String::new(),
                        MdAttrValue::Literal(s) => s.clone(),
                        MdAttrValue::Expression(s) => s.clone(),
                    };
                    return Some(v);
                }
            },
            MdAttr::Spread => {},
        }
        i = i - 1;
    }
    None
}

/// The border color of a callout element.
fn attr_color_exec(attrs: &Vec<MdAttr>) -> (r: Option<String>)
    ensures
        opt_view(r) == attr_color(attrs_view(attrs@)),
{
    match attr_get_exec(attrs, "color") {
        Some(c) => Some(c),
        None => attr_get_exec(attrs, "border-color"),
    }
}

/// Whether a task element is checked.
fn attr_checked_exec(attrs: &Vec<MdAttr>) -> (b: bool)
    ensures
        b == attr_checked(attrs_view(attrs@)),
{
    match attr_get_exec(attrs, "checked") {
        Some(v) => crate::text::str_eq(v.as_str(), "true") || crate::text::str_eq(v.as_str(), "1"),
        None => false,
    }
}

/// Trailing `%` characters removed.
fn strip_percent_exec(s: &[char]) -> (r: Vec<char>)
    ensures
        r@ == strip_percent(s@),
{
    let mut end = s.len();
    assert(s@.take(end as int) =~= s@);
    while end > 0 && s[end - 1] == '%'
        invariant
            end <= s@.len(),
            strip_percent(s@) == strip_percent(s@.take(end as int)),
        decreases end,
    {
        assert(s@.take(end as int).drop_last() =~= s@.take(end - 1));
        end = end - 1;
    }
    crate::text::slice_chars(s, 0, end)
}

proof fn lemma_digits_value_push(d: Seq<char>, c: char)
    ensures
        digits_value(d.push(c)) == digits_value(d) * 10 + digit_val(c),
{
    assert(d.push(c).drop_last() =~= d);
}

/// Whether all characters are digits, and their value (saturated at 2^100).
fn digits_value_exec(d: &[char]) -> (r: Option<u128>)
    ensures
        match r {
            Some(v) => all_digits(d@) && v == digits_value(d@) && v <= u64::MAX,
            None => !all_digits(d@) || digits_value(d@) > u64::MAX,
        },
{
    let mut v: u128 = 0;
    let mut i: usize = 0;
    while i < d.len()
        invariant
            i <= d@.len(),
            all_digits(d@.take(i as int)),
            v == digits_value(d@.take(i as int)),
            v <= u64::MAX,
        decreases d@.len() - i,
    {
        if !('0' <= d[i] && d[i] <= '9') {
            assert(!is_digit(d@[i as int]));
            return None;
        }
        proof {
            lemma_digits_value_push(d@.take(i as int), d@[i as int]);
            assert(d@.take(i + 1) =~= d@.take(i as int).push(d@[i as int]));
        }
        let dv = (d[i] as u32 - '0' as u32) as u128;
        v = v * 10 + dv;
        i = i + 1;
        if v > 0xFFFF_FFFF_FFFF_FFFF {
            proof {
                lemma_digits_value_prefix_le(d@, i as nat);
            }
            return None;
        }
    }
    assert(d@.take(d@.len() as int) =~= d@);
    Some(v)
}

proof fn lemma_digits_value_prefix_le(d: Seq<char>, i: nat)
    requires
        i <= d.len(),
    ensures
        digits_value(d.take(i as int)) <= digits_value(d) || !all_digits(d),
    decreases d.len() - i,
{
    if i == d.len() {
        assert(d.take(i as int) =~= d);
    }
    if i < d.len() && all_digits(d) {
        lemma_digits_value_prefix_le(d, i + 1);
        lemma_digits_value_push(d.take(i as int), d[i as int]);
        assert(d.take((i + 1) as int) =~= d.take(i as int).push(d[i as int]));
    }
}


/// Whether every character is a digit.
fn all_digits_exec(d: &[char]) -> (b: bool)
    ensures
        b == all_digits(d@),
{
    let mut i: usize = 0;
    while i < d.len()
        invariant
            i <= d@.len(),
            forall|j: int| 0 <= j < i ==> is_digit(#[trigger] d@[j]),
        decreases d@.len() - i,
    {
        if !('0' <= d[i] && d[i] <= '9') {
            return false;
        }
        i = i + 1;
    }
    true
}

/// The first `k` digits of a fraction, padded with zeros, as a number.
fn frac_units_exec(f: &[char], k: usize) -> (r: u128)
    requires
        all_digits(f@),
        k <= 6,
    ensures
        r == frac_units(f@, k as nat),
        r < 1000000,
{
    let mut acc: u128 = 0;
    let mut j: usize = 0;
    assert(pow10(6) == 1000000) by {
        reveal_with_fuel(pow10, 7);
    }
    while j < k
        invariant
            j <= k <= 6,
            all_digits(f@),
            acc == frac_units(f@, j as nat),
            acc < pow10(j as nat),
            pow10(6) == 1000000,
        decreases k - j,
    {
        proof {
            lemma_pow10_le(j as nat, 6);
        }
        let dv: u128 = if j < f.len() {
            assert(is_digit(f@[j as int]));
            (f[j] as u32 - '0' as u32) as u128
        } else {
            0
        };
        acc = acc * 10 + dv;
        j = j + 1;
    }
    proof {
        lemma_pow10_le(k as nat, 6);
    }
    acc
}

pub open spec fn pow10(k: nat) -> nat
    decreases k,
{
    if k == 0 {
        1
    } else {
        10 * pow10((k - 1) as nat)
    }
}

proof fn lemma_pow10_le(a: nat, b: nat)
    requires
        a <= b,
    ensures
        pow10(a) <= pow10(b),
    decreases b,
{
    if a < b {
        lemma_pow10_le(a, (b - 1) as nat);
    }
}

/// A column width in millionths, as [`parse_ratio`] reads it.
pub fn parse_ratio_exec(s: &str) -> (r: Option<u64>)
    ensures
        r == parse_ratio(s@),
{
    let v = str_to_chars(s);
    let p = strip_percent_exec(v.as_slice());
    let t = crate::text::trim_chars(p.as_slice());
    let n = t.len();
    let u = if n > 0 && t[0] == '+' {
        let w = crate::text::slice_chars(t.as_slice(), 1, n);
        assert(w@ =~= t@.drop_first());
        w
    } else {
        t
    };
    let dot = vec!['.'];
    assert(dot@ =~= seq!['.']);
    let m = u.len();
    let (ip, fp) = match crate::skill_build::find_chars(u.as_slice(), dot.as_slice()) {
        Some(d) => {
            proof {
                crate::skill_build::lemma_find_from_bound(u@, dot@, 0);
            }
            let a = crate::text::slice_chars(u.as_slice(), 0, d);
            let b = crate::text::slice_chars(u.as_slice(), d + 1, m);
            assert(a@ =~= u@.take(d as int));
            assert(b@ =~= u@.skip((d + 1) as int));
            (a, b)
        },
        None => (u, Vec::new()),
    };
    if !all_digits_exec(fp.as_slice()) || ip.len() + fp.len() == 0 {
        return None;
    }
    let iv = match digits_value_exec(ip.as_slice()) {
        Some(x) => x,
        None => {
            return None;
        },
    };
    let mut nonzero = false;
    let mut k: usize = 0;
    while k < fp.len()
        invariant
            k <= fp@.len(),
            nonzero == (exists|j: int| 0 <= j < k && fp@[j] != '0'),
        decreases fp@.len() - k,
    {
        if fp[k] != '0' {
            nonzero = true;
        }
        k = k + 1;
    }
    let above_one = iv > 1 || (iv == 1 && nonzero);
    let r: u128 = if above_one {
        iv * 10000 + frac_units_exec(fp.as_slice(), 4)
    } else {
        iv * 1000000 + frac_units_exec(fp.as_slice(), 6)
    };
    if r <= 0xFFFF_FFFF_FFFF_FFFF {
        Some(r as u64)
    } else {
        None
    }
}

/// The width of a column element.
fn attr_width_exec(attrs: &Vec<MdAttr>) -> (r: Option<u64>)
    ensures
        r == attr_width(attrs_view(attrs@)),
{
    let w = match attr_get_exec(attrs, "width") {
        Some(x) => Some(x),
        None => match attr_get_exec(attrs, "ratio") {
            Some(x) => Some(x),
            None => attr_get_exec(attrs, "width-ratio"),
        },
    };
    match w {
        Some(x) => parse_ratio_exec(x.as_str()),
        None => None,
    }
}


// ---------------------------------------------------------------------------
// Inline nodes
// ---------------------------------------------------------------------------

/// Appends nodes to `out`.
fn append_nodes(out: &mut Vec<DocNode>, part: Vec<DocNode>)
    ensures
        models(final(out)@) == models(old(out)@) + models(part@),
{
    let mut part = part;
    let ghost a = out@;
    let ghost b = part@;
    out.append(&mut part);
    assert(models(out@) =~= models(a) + models(b));
}

/// A vector holding one node.
fn single(n: DocNode) -> (r: Vec<DocNode>)
    ensures
        models(r@) == seq![n.model()],
{
    let mut v: Vec<DocNode> = Vec::new();
    v.push(n);
    assert(models(v@) =~= seq![n.model()]);
    v
}

/// The slice of an optional string.
fn opt_as_str(o: &Option<String>) -> (r: Option<&str>)
    ensures
        crate::ir::opt_str_view(r) == opt_view(*o),
{
    match o {
        Some(s) => Some(s.as_str()),
        None => None,
    }
}

/// `"{" + value + "}"`.
fn braced(v: &str) -> (r: String)
    ensures
        r@ == "{"@ + v@ + "}"@,
{
    let mut out: Vec<char> = Vec::new();
    crate::text::push_str(&mut out, "{");
    crate::text::push_str(&mut out, v);
    crate::text::push_str(&mut out, "}");
    crate::text::chars_to_string(out.as_slice())
}

/// The lower-case name of a JSX element.
fn jsx_lname(n: &Mdast) -> (r: String)
    requires
        kind_of(mdast_view(*n).tag) == MdKind::JsxFlow || kind_of(mdast_view(*n).tag) == MdKind::JsxText,
    ensures
        r@ == lname(mdast_view(*n).tag),
{
    let name = md_jsx_name(n);
    match name {
        Some(x) => {
            assert(opt_seq(jsx_name(mdast_view(*n).tag)) == x@);
            to_lower(x.as_str())
        },
        None => {
            proof {
                reveal_strlit("");
            }
            assert(""@ =~= opt_seq(jsx_name(mdast_view(*n).tag)));
            to_lower("")
        },
    }
}

/// The inline nodes of a list of syntax nodes.
fn inline_nodes(nodes: &Vec<Mdast>) -> (r: Vec<DocNode>)
    ensures
        models(r@) == inline_seq(views(nodes@)),
    decreases views(nodes@), 2nat,
{
    let ghost vs = views(nodes@);
    let mut out: Vec<DocNode> = Vec::new();
    let mut i: usize = 0;
    assert(vs.take(0) =~= Seq::<MdView>::empty());
    while i < nodes.len()
        invariant
            i <= nodes@.len(),
            vs == views(nodes@),
            models(out@) == inline_seq(vs.take(i as int)),
        decreases nodes@.len() - i,
    {
        assert(vs[i as int] == mdast_view(nodes@[i as int]));
        assert(decreases_to!(vs => vs[i as int]));
        let part = inline_node(&nodes[i]);
        append_nodes(&mut out, part);
        assert(vs.take(i + 1).drop_last() =~= vs.take(i as int));
        assert(vs.take(i + 1).last() == vs[i as int]);
        i = i + 1;
    }
    assert(vs.take(nodes@.len() as int) =~= vs);
    out
}

/// The inline nodes of the children of a node.
fn inline_children(n: &Mdast) -> (r: Vec<DocNode>)
    ensures
        models(r@) == inline_seq(mdast_view(*n).children),
    decreases mdast_view(*n), 0nat,
{
    match md_children(n) {
        Some(v) => {
            assert(decreases_to!(mdast_view(*n) => mdast_view(*n).children));
            inline_nodes(v)
        },
        None => {
            let e: Vec<DocNode> = Vec::new();
            assert(models(e@) =~= Seq::<NodeModel>::empty());
            e
        },
    }
}

/// The inline nodes of one syntax node.
fn inline_node(n: &Mdast) -> (r: Vec<DocNode>)
    ensures
        models(r@) == inline_one(mdast_view(*n)),
    decreases mdast_view(*n), 1nat,
{
    let k = md_kind(n);
    match k {
        MdKind::Text => {
            let v = md_value(n);
            single(DocNode::text(v.as_str(), None))
        },
        MdKind::InlineCode => {
            let v = md_value(n);
            let st = InlineStyle {
                bold: false,
                italic: false,
                underline: false,
                strike_through: false,
                inline_code: true,
            };
            single(DocNode::text(v.as_str(), Some(st)))
        },
        MdKind::Strong => styled_nodes(inline_children(n), StyleFlag::Bold),
        MdKind::Emphasis => styled_nodes(inline_children(n), StyleFlag::Italic),
        MdKind::Delete => styled_nodes(inline_children(n), StyleFlag::StrikeThrough),
        MdKind::Link => {
            let url = md_url(n);
            let inner = inline_children(n);
            single(DocNode::link(url.as_str(), inner))
        },
        MdKind::Image => {
            let alt = md_alt(n);
            single(DocNode::image(None, Some(alt.as_str())))
        },
        MdKind::TextExpr => {
            let v = md_value(n);
            let b = braced(v.as_str());
            single(DocNode::plain_text(b.as_str()))
        },
        MdKind::JsxText => {
            let l = jsx_lname(n);
            let attrs = md_jsx_attrs(n);
            let inner = inline_children(n);
            let ls = l.as_str();
            if crate::text::str_eq(ls, "callout") {
                let color = attr_color_exec(&attrs);
                let icon = attr_get_exec(&attrs, "icon");
                single(DocNode::callout(opt_as_str(&color), opt_as_str(&icon), inner))
            } else if crate::text::str_eq(ls, "todo") || crate::text::str_eq(ls, "task") {
                let checked = attr_checked_exec(&attrs);
                let name = match attr_get_exec(&attrs, "name") {
                    Some(x) => x,
                    None => if inner.len() > 0 {
                        match &inner[0].text {
                            Some(t) => t.clone(),
                            None => String::new(),
                        }
                    } else {
                        String::new()
                    },
                };
                let ghost im = models(inner@);
                let mut t = DocNode::task(checked, name.as_str());
                t.children = inner;
                proof {
                    crate::ir::lemma_model_children(t);
                }
                single(t)
            } else if crate::text::str_eq(ls, "toggle") {
                single(DocNode::toggle(inner))
            } else if crate::text::str_eq(ls, "column") {
                let w = attr_width_exec(&attrs);
                single(DocNode::column(w, inner))
            } else if crate::text::str_eq(ls, "mark") {
                styled_nodes(inner, StyleFlag::Bold)
            } else {
                inner
            }
        },
        _ => {
            let e: Vec<DocNode> = Vec::new();
            assert(models(e@) =~= Seq::<NodeModel>::empty());
            e
        },
    }
}


// ---------------------------------------------------------------------------
// Block nodes
// ---------------------------------------------------------------------------

/// Advances the task counter and returns the temporary id of the new value.
pub fn next_temp_id(counter: &mut u64) -> (id: String)
    ensures
        *final(counter) == next_count(*old(counter)),
        id@ == temp_id(*final(counter)),
{
    if *counter == 0xFFFF_FFFF_FFFF_FFFF {
        *counter = 0;
    } else {
        *counter = *counter + 1;
    }
    let d = crate::text::decimal_string(*counter);
    let mut out: Vec<char> = Vec::new();
    crate::text::push_str(&mut out, "temp_");
    crate::text::push_str(&mut out, d.as_str());
    crate::text::chars_to_string(out.as_slice())
}

/// The index of the first text node.
fn first_text_index(v: &Vec<DocNode>) -> (r: Option<usize>)
    ensures
        match r {
            Some(i) => i < v@.len() && first_text(models(v@)) == Some(v@[i as int].model()),
            None => first_text(models(v@)) is None,
        },
{
    let ghost all = models(v@);
    let mut i: usize = 0;
    assert(all.skip(0) =~= all);
    while i < v.len()
        invariant
            all == models(v@),
            i <= v@.len(),
            first_text(all) == first_text(all.skip(i as int)),
        decreases v@.len() - i,
    {
        assert(all.skip(i as int)[0] == v@[i as int].model());
        if matches!(v[i].node_type, NodeType::Text) {
            return Some(i);
        }
        assert(all.skip(i as int).drop_first() =~= all.skip(i + 1));
        i = i + 1;
    }
    None
}

/// The nodes that are not text runs, in order.
fn non_text_nodes(v: Vec<DocNode>) -> (r: Vec<DocNode>)
    ensures
        models(r@) == non_text(models(v@)),
{
    let ghost all = models(v@);
    let total = v.len();
    let mut rest = v;
    let mut out: Vec<DocNode> = Vec::new();
    let mut i: usize = 0;
    assert(all.take(0) =~= Seq::<NodeModel>::empty());
    while rest.len() > 0
        invariant
            all.len() == total,
            i + rest@.len() == total,
            models(rest@) == all.skip(i as int),
            models(out@) == non_text(all.take(i as int)),
        decreases rest@.len(),
    {
        let ghost old_rest = rest@;
        let n = rest.remove(0);
        assert(n.model() == all[i as int]) by {
            assert(models(old_rest)[0] == old_rest[0].model());
            assert(all.skip(i as int)[0] == all[i as int]);
        }
        assert(all.take(i + 1).drop_last() =~= all.take(i as int));
        assert(all.take(i + 1).last() == all[i as int]);
        if !matches!(n.node_type, NodeType::Text) {
            let ghost before = models(out@);
            let ghost nm = n.model();
            out.push(n);
            assert(models(out@) =~= before + seq![nm]);
        } else {
            assert(non_text(all.take(i + 1)) =~= non_text(all.take(i as int)));
        }
        assert(models(rest@) =~= models(old_rest).skip(1));
        assert(models(rest@) =~= all.skip(i + 1));
        i = i + 1;
    }
    assert(all.take(total as int) =~= all);
    out
}

/// The cells of a table row.
fn table_cells_exec(cells: &Vec<Mdast>) -> (r: Vec<DocNode>)
    ensures
        models(r@) == table_cells(views(cells@)),
{
    let ghost vs = views(cells@);
    let mut out: Vec<DocNode> = Vec::new();
    let mut i: usize = 0;
    assert(vs.take(0) =~= Seq::<MdView>::empty());
    while i < cells.len()
        invariant
            i <= cells@.len(),
            vs == views(cells@),
            models(out@) == table_cells(vs.take(i as int)),
        decreases cells@.len() - i,
    {
        assert(vs[i as int] == mdast_view(cells@[i as int]));
        assert(vs.take(i + 1).drop_last() =~= vs.take(i as int));
        assert(vs.take(i + 1).last() == vs[i as int]);
        if md_kind(&cells[i]) == MdKind::TableCell {
            let inner = inline_children(&cells[i]);
            let cell = DocNode::table_cell(inner);
            let ghost before = models(out@);
            let ghost cm = cell.model();
            out.push(cell);
            assert(models(out@) =~= before + seq![cm]);
        } else {
            assert(table_cells(vs.take(i + 1)) =~= table_cells(vs.take(i as int)));
        }
        i = i + 1;
    }
    assert(vs.take(cells@.len() as int) =~= vs);
    out
}

/// The rows of a table.
fn table_rows_exec(rows: &Vec<Mdast>) -> (r: Vec<DocNode>)
    ensures
        models(r@) == table_rows(views(rows@)),
{
    let ghost vs = views(rows@);
    let mut out: Vec<DocNode> = Vec::new();
    let mut i: usize = 0;
    assert(vs.take(0) =~= Seq::<MdView>::empty());
    while i < rows.len()
        invariant
            i <= rows@.len(),
            vs == views(rows@),
            models(out@) == table_rows(vs.take(i as int)),
        decreases rows@.len() - i,
    {
        assert(vs[i as int] == mdast_view(rows@[i as int]));
        assert(vs.take(i + 1).drop_last() =~= vs.take(i as int));
        assert(vs.take(i + 1).last() == vs[i as int]);
        if md_kind(&rows[i]) == MdKind::TableRow {
            let cells = match md_children(&rows[i]) {
                Some(v) => table_cells_exec(v),
                None => {
                    let e: Vec<DocNode> = Vec::new();
                    assert(models(e@) =~= table_cells(Seq::<MdView>::empty()));
                    e
                },
            };
            let row = DocNode::table_row(cells);
            let ghost before = models(out@);
            let ghost rm = row.model();
            out.push(row);
            assert(models(out@) =~= before + seq![rm]);
        } else {
            assert(table_rows(vs.take(i + 1)) =~= table_rows(vs.take(i as int)));
        }
        i = i + 1;
    }
    assert(vs.take(rows@.len() as int) =~= vs);
    out
}


/// An empty list of nodes.
fn no_nodes() -> (r: Vec<DocNode>)
    ensures
        models(r@) == Seq::<NodeModel>::empty(),
{
    let e: Vec<DocNode> = Vec::new();
    assert(models(e@) =~= Seq::<NodeModel>::empty());
    e
}

/// A list item of inline nodes.
fn item_node(ordered: bool, cs: Vec<DocNode>) -> (r: DocNode)
    ensures
        r.model() == item_model(ordered, models(cs@)),
{
    if ordered {
        DocNode::numbered_item(cs)
    } else {
        DocNode::bullet_item(cs)
    }
}

/// The name of a task list item.
fn list_task_name_exec(it: &Mdast) -> (r: String)
    ensures
        r@ == list_task_name(mdast_view(*it).children),
{
    match md_children(it) {
        Some(v) => {
            if v.len() > 0 && md_kind(&v[0]) == MdKind::Paragraph {
                assert(views(v@)[0] == mdast_view(v@[0]));
                match md_children(&v[0]) {
                    Some(pc) => {
                        if pc.len() > 0 && md_kind(&pc[0]) == MdKind::Text {
                            assert(views(pc@)[0] == mdast_view(pc@[0]));
                            return md_value(&pc[0]);
                        }
                        String::new()
                    },
                    None => String::new(),
                }
            } else {
                if v.len() > 0 {
                    assert(views(v@)[0] == mdast_view(v@[0]));
                }
                String::new()
            }
        },
        None => String::new(),
    }
}

/// The block nodes of a list of syntax nodes.
fn convert_blocks(nodes: &Vec<Mdast>, counter: &mut u64) -> (r: Vec<DocNode>)
    ensures
        (models(r@), *final(counter)) == blocks(views(nodes@), *old(counter)),
    decreases views(nodes@), 2nat,
{
    let ghost vs = views(nodes@);
    let ghost c0 = *counter;
    let mut out: Vec<DocNode> = Vec::new();
    let mut i: usize = 0;
    assert(vs.take(0) =~= Seq::<MdView>::empty());
    assert(models(out@) =~= Seq::<NodeModel>::empty());
    while i < nodes.len()
        invariant
            i <= nodes@.len(),
            vs == views(nodes@),
            (models(out@), *counter) == blocks(vs.take(i as int), c0),
        decreases nodes@.len() - i,
    {
        assert(vs[i as int] == mdast_view(nodes@[i as int]));
        assert(decreases_to!(vs => vs[i as int]));
        let part = convert_block(&nodes[i], counter);
        append_nodes(&mut out, part);
        assert(vs.take(i + 1).drop_last() =~= vs.take(i as int));
        assert(vs.take(i + 1).last() == vs[i as int]);
        i = i + 1;
    }
    assert(vs.take(nodes@.len() as int) =~= vs);
    out
}

/// The block nodes of the children of a node.
fn block_children(n: &Mdast, counter: &mut u64) -> (r: Vec<DocNode>)
    ensures
        (models(r@), *final(counter)) == blocks(mdast_view(*n).children, *old(counter)),
    decreases mdast_view(*n), 0nat,
{
    match md_children(n) {
        Some(v) => {
            assert(decreases_to!(mdast_view(*n) => mdast_view(*n).children));
            convert_blocks(v, counter)
        },
        None => no_nodes(),
    }
}

/// The items of the list `n`.
fn list_children(n: &Mdast, ordered: bool, counter: &mut u64) -> (r: Vec<DocNode>)
    ensures
        (models(r@), *final(counter)) == list_items(mdast_view(*n).children, ordered, *old(counter)),
    decreases mdast_view(*n), 0nat,
{
    match md_children(n) {
        Some(v) => {
            assert(decreases_to!(mdast_view(*n) => mdast_view(*n).children));
            convert_list_items(v, ordered, counter)
        },
        None => no_nodes(),
    }
}

/// The items of a list.
fn convert_list_items(items: &Vec<Mdast>, ordered: bool, counter: &mut u64) -> (r: Vec<DocNode>)
    ensures
        (models(r@), *final(counter)) == list_items(views(items@), ordered, *old(counter)),
    decreases views(items@), 2nat,
{
    let ghost vs = views(items@);
    let ghost c0 = *counter;
    let mut out: Vec<DocNode> = Vec::new();
    let mut i: usize = 0;
    assert(vs.take(0) =~= Seq::<MdView>::empty());
    assert(models(out@) =~= Seq::<NodeModel>::empty());
    while i < items.len()
        invariant
            i <= items@.len(),
            vs == views(items@),
            (models(out@), *counter) == list_items(vs.take(i as int), ordered, c0),
        decreases items@.len() - i,
    {
        assert(vs[i as int] == mdast_view(items@[i as int]));
        assert(decreases_to!(vs => vs[i as int]));
        let item = convert_list_item(&items[i], ordered, counter);
        let ghost before = models(out@);
        let ghost im = item.model();
        out.push(item);
        assert(models(out@) =~= before.push(im));
        assert(vs.take(i + 1).drop_last() =~= vs.take(i as int));
        assert(vs.take(i + 1).last() == vs[i as int]);
        i = i + 1;
    }
    assert(vs.take(items@.len() as int) =~= vs);
    out
}

/// The node of one list child.
fn convert_list_item(it: &Mdast, ordered: bool, counter: &mut u64) -> (r: DocNode)
    ensures
        (r.model(), *final(counter)) == list_item(mdast_view(*it), ordered, *old(counter)),
    decreases mdast_view(*it), 1nat,
{
    let k = md_kind(it);
    if k == MdKind::ListItem {
        match md_checked(it) {
            Some(done) => {
                let name = list_task_name_exec(it);
                let id = next_temp_id(counter);
                let mut t = DocNode::task(done, name.as_str());
                t.temp_id = Some(id);
                proof {
                    crate::ir::lemma_model_children(t);
                }
                match md_children(it) {
                    Some(v) => {
                        let nested = v.len() > 1 || (v.len() > 0 && md_kind(&v[0]) == MdKind::Paragraph);
                        if v.len() > 0 {
                            assert(views(v@)[0] == mdast_view(v@[0]));
                        }
                        if nested {
                            assert(decreases_to!(mdast_view(*it) => mdast_view(*it).children));
                            let all = convert_blocks(v, counter);
                            let extra = non_text_nodes(all);
                            if extra.len() > 0 {
                                t.children = extra;
                                proof {
                                    crate::ir::lemma_model_children(t);
                                }
                            }
                        }
                    },
                    None => {},
                }
                t
            },
            None => item_node(ordered, inline_children(it)),
        }
    } else if k == MdKind::Paragraph {
        item_node(ordered, inline_children(it))
    } else {
        item_node(ordered, no_nodes())
    }
}

/// The block nodes of one syntax node.
fn convert_block(n: &Mdast, counter: &mut u64) -> (r: Vec<DocNode>)
    ensures
        (models(r@), *final(counter)) == block_one(mdast_view(*n), *old(counter)),
    decreases mdast_view(*n), 1nat,
{
    let k = md_kind(n);
    match k {
        MdKind::Paragraph => single(DocNode::paragraph(inline_children(n))),
        MdKind::Heading => {
            let d = md_depth(n);
            let level: u8 = if d < 1 {
                1
            } else if d > 5 {
                5
            } else {
                d
            };
            single(DocNode::heading(level, inline_children(n)))
        },
        MdKind::Code => {
            let lang = md_code_lang(n);
            let v = md_value(n);
            single(DocNode::code_block(opt_as_str(&lang), v.as_str()))
        },
        MdKind::JsxFlow => {
            let attrs = md_jsx_attrs(n);
            let l = jsx_lname(n);
            let ls = l.as_str();
            let inner = block_children(n, counter);
            if crate::text::str_eq(ls, "callout") {
                let color = attr_color_exec(&attrs);
                let icon = attr_get_exec(&attrs, "icon");
                single(DocNode::callout(opt_as_str(&color), opt_as_str(&icon), inner))
            } else if crate::text::str_eq(ls, "todo") || crate::text::str_eq(ls, "task") {
                let checked = attr_checked_exec(&attrs);
                let name = match attr_get_exec(&attrs, "name") {
                    Some(x) => x,
                    None => match first_text_index(&inner) {
                        Some(i) => match &inner[i].text {
                            Some(t) => t.clone(),
                            None => crate::text::chars_to_string(crate::ir::nodes_plain_content(&inner).as_slice()),
                        },
                        None => crate::text::chars_to_string(crate::ir::nodes_plain_content(&inner).as_slice()),
                    },
                };
                let id = next_temp_id(counter);
                let mut t = DocNode::task(checked, name.as_str());
                t.children = inner;
                t.temp_id = Some(id);
                proof {
                    crate::ir::lemma_model_children(t);
                }
                single(t)
            } else if crate::text::str_eq(ls, "columnlist") || crate::text::str_eq(ls, "column-list") {
                single(DocNode::column_list(inner))
            } else if crate::text::str_eq(ls, "column") {
                let w = attr_width_exec(&attrs);
                single(DocNode::column(w, inner))
            } else if crate::text::str_eq(ls, "mermaid") {
                let code = crate::text::chars_to_string(crate::ir::nodes_plain_content(&inner).as_slice());
                single(DocNode::mermaid(code.as_str()))
            } else if crate::text::str_eq(ls, "plantuml") {
                let code = crate::text::chars_to_string(crate::ir::nodes_plain_content(&inner).as_slice());
                single(DocNode::plantuml(code.as_str()))
            } else if crate::text::str_eq(ls, "toggle") {
                single(DocNode::toggle(inline_children(n)))
            } else {
                inner
            }
        },
        MdKind::Blockquote => {
            let inner = block_children(n, counter);
            single(DocNode::callout(None, None, inner))
        },
        MdKind::List => {
            let ordered = md_ordered(n);
            list_children(n, ordered, counter)
        },
        MdKind::ThematicBreak => single(DocNode::divider()),
        MdKind::Table => {
            let rows = match md_children(n) {
                Some(v) => table_rows_exec(v),
                None => {
                    let e = no_nodes();
                    assert(table_rows(Seq::<MdView>::empty()) =~= Seq::<NodeModel>::empty());
                    e
                },
            };
            if rows.len() > 0 {
                single(DocNode::table(rows))
            } else {
                no_nodes()
            }
        },
        MdKind::Image => {
            let alt = md_alt(n);
            single(DocNode::image(None, Some(alt.as_str())))
        },
        MdKind::JsxText => {
            let l = jsx_lname(n);
            let ls = l.as_str();
            if crate::text::str_eq(ls, "callout") {
                let attrs = md_jsx_attrs(n);
                let inner = block_children(n, counter);
                let color = attr_color_exec(&attrs);
                let icon = attr_get_exec(&attrs, "icon");
                single(DocNode::callout(opt_as_str(&color), opt_as_str(&icon), inner))
            } else if crate::text::str_eq(ls, "mark") {
                styled_nodes(inline_children(n), StyleFlag::Bold)
            } else if crate::text::str_eq(ls, "toggle") {
                single(DocNode::toggle(inline_children(n)))
            } else {
                inline_children(n)
            }
        },
        MdKind::TextExpr | MdKind::FlowExpr => {
            let v = md_value(n);
            let b = braced(v.as_str());
            single(DocNode::plain_text(b.as_str()))
        },
        _ => no_nodes(),
    }
}


// ---------------------------------------------------------------------------
// Reading an MDX text
// ---------------------------------------------------------------------------

/// Why an MDX text could not be read.
#[derive(Debug, Clone, PartialEq, Eq)]
pub enum ParseError {
    AtLine { line: u32, message: String },
}

impl ParseError {
    /// The report of the error: `Parse error at line <line>: <message>`.
    pub fn message(&self) -> (m: String)
        ensures
            match self {
                ParseError::AtLine { line, message } => m@ == "Parse error at line "@ + decimal(
                    *line as nat,
                ) + ": "@ + message@,
            },
    {
        match self {
            ParseError::AtLine { line, message } => {
                let mut out: Vec<char> = Vec::new();
                crate::text::push_str(&mut out, "Parse error at line ");
                crate::text::push_decimal(&mut out, *line as u128);
                crate::text::push_str(&mut out, ": ");
                crate::text::push_str(&mut out, message.as_str());
                crate::text::chars_to_string(out.as_slice())
            },
        }
    }
}

/// The document tree of a syntax tree with root `root`, the task counter
/// starting at 0.
pub open spec fn spec_document(root: MdView) -> NodeModel {
    container_model(KindView::Document, blocks(root.children, 0).0)
}

/// Reads an MDX text into a document tree: the `markdown` crate builds the
/// syntax tree, and each block of it is mapped as [`blocks`] says; the
/// crate's message is reported as an error at line 1.
pub fn parse_mdx(input: &str) -> (r: Result<DocNode, ParseError>)
    ensures
        match r {
            Ok(doc) => mdast_of(input@) matches Ok(root) && doc.model() == spec_document(root),
            Err(ParseError::AtLine { line, message }) => mdast_of(input@) matches Err(m) && line == 1
                && message@ == m,
        },
{
    match markdown_to_mdast(input) {
        Err(m) => Err(ParseError::AtLine { line: 1, message: m }),
        Ok(root) => {
            let mut counter: u64 = 0;
            let children = block_children(&root, &mut counter);
            Ok(DocNode::document(children))
        },
    }
}


/// Whether two syntax nodes are the same JSX element but for the ASCII
/// letter case of its name.
pub open spec fn same_up_to_name_case(a: MdView, b: MdView) -> bool {
    &&& a.children == b.children
    &&& match (a.tag, b.tag) {
        (MdTag::JsxFlow { name: x, attrs: p }, MdTag::JsxFlow { name: y, attrs: q }) => p == q
            && ascii_lower(opt_seq(x)) == ascii_lower(opt_seq(y)),
        (MdTag::JsxText { name: x, attrs: p }, MdTag::JsxText { name: y, attrs: q }) => p == q
            && ascii_lower(opt_seq(x)) == ascii_lower(opt_seq(y)),
        _ => false,
    }
}

/// Component names match whatever the case of their ASCII letters: two
/// JSX elements that differ only in it convert to the same nodes, as blocks
/// (with the same task counter after them) and inline.
pub proof fn law_component_names_ignore_ascii_case(a: MdView, b: MdView, c: u64)
    requires
        same_up_to_name_case(a, b),
    ensures
        block_one(a, c) == block_one(b, c),
        inline_one(a) == inline_one(b),
{
}

/// A Markdown link becomes exactly one link node, whose target is the
/// link's URL and whose children are the inline nodes of the link's text:
/// neither the link nor its URL is lost.
pub proof fn law_link_keeps_its_url(n: MdView)
    requires
        n.tag is Link,
    ensures
        inline_one(n).len() == 1,
        inline_one(n)[0].kind == (KindView::Link { href: n.tag->url }),
        inline_one(n)[0].href == Some(n.tag->url),
        inline_one(n)[0].children == inline_seq(n.children),
{
}

/// The inline nodes of a list are those of its items, in order: a link
/// after some text stays a link after that text.
pub proof fn law_inline_nodes_in_order(ns: Seq<MdView>, n: MdView)
    ensures
        inline_seq(ns.push(n)) == inline_seq(ns) + inline_one(n),
{
    assert(ns.push(n).drop_last() =~= ns);
}

/// Whether `m` has the kind a list child `it` becomes: a task for a
/// checkbox item, else a numbered item in an ordered list and a bulleted
/// item in an unordered one.
pub open spec fn list_kind_fits(it: MdView, ordered: bool, m: NodeModel) -> bool {
    match it.tag {
        MdTag::ListItem { checked: Some(done) } => m.kind == (KindView::Task { done }),
        _ => m.kind == (if ordered {
            KindView::NumberedList
        } else {
            KindView::BulletedList
        }),
    }
}

/// A list gives one node per child, in order; an ordered list gives
/// numbered items and an unordered one bulleted items (checkbox items
/// become tasks in either).
pub proof fn law_list_items_kinds(ns: Seq<MdView>, ordered: bool, c: u64)
    ensures
        list_items(ns, ordered, c).0.len() == ns.len(),
        forall|k: int|
            0 <= k < ns.len() ==> list_kind_fits(ns[k], ordered, #[trigger] list_items(ns, ordered, c).0[k]),
    decreases ns.len(),
{
    if ns.len() > 0 {
        law_list_items_kinds(ns.drop_last(), ordered, c);
        let (a, c1) = list_items(ns.drop_last(), ordered, c);
        let (b, c2) = list_item(ns.last(), ordered, c1);
        assert(list_kind_fits(ns.last(), ordered, b));
        assert forall|k: int| 0 <= k < ns.len() implies list_kind_fits(
            ns[k],
            ordered,
            #[trigger] list_items(ns, ordered, c).0[k],
        ) by {
            if k < ns.len() - 1 {
                assert(ns[k] == ns.drop_last()[k]);
                assert(list_items(ns, ordered, c).0[k] == a[k]);
            }
        }
    }
}

} // verus!
