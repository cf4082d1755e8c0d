//! `DocIR` to MDX emitter.
//!
//! Serializes a document tree back to MDX text. Container components are
//! written over several lines, each child on a line of its own and indented
//! by four spaces per level; attributes are double-quoted; boolean attributes
//! carry no value.

use vstd::prelude::*;
use crate::ir::{opt_chars, BlockAttrs, InlineStyle, DocNode, NodeType};
use crate::text::{
    chars_to_string, decimal, push_decimal, push_repeat, push_str, repeat_char, trim_end,
    trim_end_in_place,
};

verus! {

// ---------------------------------------------------------------------------
// Specification of the output
// ---------------------------------------------------------------------------

/// Indentation for a nesting depth: four spaces per level.
pub open spec fn indent(depth: nat) -> Seq<char> {
    repeat_char(' ', 4 * depth)
}

/// Whether a block carries none of its presentation attributes.
pub open spec fn spec_attrs_empty(a: BlockAttrs) -> bool {
    a.text_align is None && a.block_color is None && a.border_color is None && a.icon is None
        && a.width is None && a.height is None
}

/// `key` followed by the value of an optional attribute and a newline.
pub open spec fn yaml_line(key: Seq<char>, value: Option<String>) -> Seq<char> {
    match value {
        Some(v) => key + v@ + "\n"@,
        None => Seq::empty(),
    }
}

/// The YAML front matter written for a document's attributes.
pub open spec fn frontmatter(a: BlockAttrs) -> Seq<char> {
    if spec_attrs_empty(a) {
        Seq::empty()
    } else {
        "---\n"@ + yaml_line("textAlign: "@, a.text_align) + yaml_line("blockColor: "@, a.block_color)
            + yaml_line("borderColor: "@, a.border_color) + match a.icon {
            Some(i) => "icon: \""@ + i@ + "\"\n"@,
            None => Seq::empty(),
        } + "---\n"@
    }
}

/// A width ratio in millionths as a whole percentage, halves rounded to even.
pub open spec fn width_percent(w: nat) -> nat {
    let q = w / 10000;
    let r = w % 10000;
    if r > 5000 || (r == 5000 && q % 2 == 1) {
        q + 1
    } else {
        q
    }
}

/// ` name="value"` for a present attribute (`prefix` is ` name="`), nothing otherwise.
pub open spec fn attr_text(prefix: Seq<char>, value: Option<String>) -> Seq<char> {
    match value {
        Some(v) => prefix + v@ + "\""@,
        None => Seq::empty(),
    }
}

/// The opening tag of a `Mark` element for a style.
pub open spec fn mark_open(s: InlineStyle) -> Seq<char> {
    "<Mark"@ + (if s.bold { " bold"@ } else { Seq::empty() }) + (if s.italic {
        " italic"@
    } else {
        Seq::empty()
    }) + (if s.underline { " underline"@ } else { Seq::empty() }) + (if s.strike_through {
        " strikeThrough"@
    } else {
        Seq::empty()
    }) + ">"@
}

/// A text run: plain, or wrapped in `<Mark ...>` when styled.
pub open spec fn text_node(n: DocNode) -> Seq<char> {
    match n.inline_style {
        None => opt_chars(n.text),
        Some(s) => if s.spec_is_plain() {
            opt_chars(n.text)
        } else {
            mark_open(s) + opt_chars(n.text) + "</Mark>"@
        },
    }
}

/// `[name]` for an embedded object, followed by its text if any.
pub open spec fn placeholder(name: Seq<char>, n: DocNode) -> Seq<char> {
    "["@ + name + "]"@ + match n.text {
        Some(t) => " "@ + t@,
        None => Seq::empty(),
    }
}

/// A fenced block with an info string and a body.
pub open spec fn fence(info: Seq<char>, body: Seq<char>) -> Seq<char> {
    "```"@ + info + "\n"@ + body + "\n"@ + "```"@
}

/// A multi-line component: the opening tag, each child on its own indented
/// line, and the closing tag.
pub open spec fn component(open: Seq<char>, n: DocNode, depth: nat, close: Seq<char>) -> Seq<char>
    decreases n, 0nat, n.children.len() + 1,
{
    open + "\n"@ + block_children(n, n.children.len() as nat, depth) + close
}

/// Whether a link holds exactly one plain text run.
pub open spec fn is_simple_link(n: DocNode) -> bool {
    n.children.len() == 1 && n.children@[0].node_type is Text
}

/// The MDX text of a node at a nesting depth.
pub open spec fn emit(n: DocNode, depth: nat) -> Seq<char>
    decreases n, 1nat, 0nat,
{
    let len = n.children.len() as nat;
    match n.node_type {
        NodeType::Document => frontmatter(n.attrs) + document_children(n, len),
        NodeType::Paragraph => inline_children(n, len),
        NodeType::Heading { level } => repeat_char('#', level as nat) + " "@ + inline_children(n, len),
        NodeType::BlockQuote => "> "@ + collect_inline(n),
        NodeType::Callout { color, icon } => component(
            "<Callout"@ + attr_text(" icon=\""@, icon) + attr_text(" borderColor=\""@, color) + ">"@,
            n,
            depth,
            "</Callout>"@,
        ),
        NodeType::ColumnList => component("<ColumnList>"@, n, depth, "</ColumnList>"@),
        NodeType::Column { width_ratio } => component(
            match width_ratio {
                Some(w) => "<Column width=\""@ + decimal(width_percent(w as nat)) + "%\">"@,
                None => "<Column>"@,
            },
            n,
            depth,
            "</Column>"@,
        ),
        NodeType::Divider => "---"@,
        NodeType::Image { file_id, caption, .. } => "!["@ + opt_chars(caption) + "]("@
            + opt_chars(file_id) + ")"@,
        NodeType::Table => component("<Table>"@, n, depth, "</Table>"@),
        NodeType::TableRow => component("<TableRow>"@, n, depth, "</TableRow>"@),
        NodeType::TableCell { .. } => "<TableCell>"@ + inline_children(n, len) + "</TableCell>"@,
        NodeType::Task { done } => (if done { "[x]"@ } else { "[ ]"@ }) + " "@ + match n.task_name {
            Some(t) => t@,
            None => inline_children(n, len),
        },
        NodeType::BulletedList => "- "@ + inline_children(n, len),
        NodeType::NumberedList => "1. "@ + inline_children(n, len),
        NodeType::CodeBlock { language } => fence(opt_chars(language), opt_chars(n.text)),
        NodeType::MathBlock { .. } => "<MathBlock"@ + ">"@ + "\n"@ + match n.text {
            Some(t) => indent(depth + 1) + t@ + "\n"@,
            None => Seq::empty(),
        } + "</MathBlock>"@,
        NodeType::Toggle => component("<Toggle>"@, n, depth, "</Toggle>"@),
        NodeType::Mermaid { .. } => fence("mermaid"@, opt_chars(n.diagram_content)),
        NodeType::PlantUml { .. } => fence("plantuml"@, opt_chars(n.diagram_content)),
        NodeType::SmartSheet { .. } => placeholder("smartsheet"@, n),
        NodeType::Attachment { .. } => placeholder("attachment"@, n),
        NodeType::Video { .. } => placeholder("video"@, n),
        NodeType::Text => text_node(n),
        NodeType::Link { href } => if is_simple_link(n) {
            "["@ + opt_chars(n.children@[0].text) + "]("@ + href@ + ")"@
        } else {
            "<Link href=\""@ + href@ + "\">"@ + inline_children(n, len) + "</Link>"@
        },
    }
}

/// The first `i` children of a document, separated by blank lines.
pub open spec fn document_children(n: DocNode, i: nat) -> Seq<char>
    decreases n, 0nat, i,
{
    if i == 0 || i > n.children.len() {
        Seq::empty()
    } else {
        document_children(n, (i - 1) as nat) + (if i > 1 { "\n"@ + "\n"@ } else { Seq::empty() }) + emit(
            n.children@[i - 1],
            0,
        )
    }
}

/// The first `i` children of a component, each on its own indented line.
pub open spec fn block_children(n: DocNode, i: nat, depth: nat) -> Seq<char>
    decreases n, 0nat, i,
{
    if i == 0 || i > n.children.len() {
        Seq::empty()
    } else {
        block_children(n, (i - 1) as nat, depth) + indent(depth + 1) + emit(
            n.children@[i - 1],
            depth + 1,
        ) + "\n"@
    }
}

/// The first `i` children written inline, one after the other.
pub open spec fn inline_children(n: DocNode, i: nat) -> Seq<char>
    decreases n, 0nat, i,
{
    if i == 0 || i > n.children.len() {
        Seq::empty()
    } else {
        inline_children(n, (i - 1) as nat) + emit(n.children@[i - 1], 0)
    }
}

/// The inline text of a subtree: text runs verbatim, links as `[text](href)`.
pub open spec fn collect_inline(n: DocNode) -> Seq<char>
    decreases n, 1nat, 0nat,
{
    match n.node_type {
        NodeType::Text => opt_chars(n.text),
        NodeType::Link { href } => "["@ + DocNode::children_plain(n, n.children.len() as nat) + "]("@
            + href@ + ")"@,
        _ => collect_children(n, n.children.len() as nat),
    }
}

/// The inline text of the first `i` children.
pub open spec fn collect_children(n: DocNode, i: nat) -> Seq<char>
    decreases n, 0nat, i,
{
    if i == 0 || i > n.children.len() {
        Seq::empty()
    } else {
        collect_children(n, (i - 1) as nat) + collect_inline(n.children@[i - 1])
    }
}

/// The MDX text of a whole tree, without trailing white space.
pub open spec fn spec_emit_mdx(n: DocNode) -> Seq<char> {
    trim_end(emit(n, 0))
}

// ---------------------------------------------------------------------------
// Lemmas
// ---------------------------------------------------------------------------

/// A child is lower than its parent.
proof fn lemma_child_height(n: DocNode, i: nat, j: int)
    requires
        i <= n.children.len(),
        0 <= j < i,
    ensures
        n.children@[j].height() <= DocNode::children_height(n, i),
    decreases i,
{
    if j < i - 1 {
        lemma_child_height(n, (i - 1) as nat, j);
    }
}

/// Indentation for `d + 1` levels is that for `d` levels and four spaces.
proof fn lemma_indent_step(d: nat)
    ensures
        indent(d + 1) == indent(d) + repeat_char(' ', 4),
{
    assert(indent(d + 1) =~= indent(d) + repeat_char(' ', 4));
}

// ---------------------------------------------------------------------------
// Implementation
// ---------------------------------------------------------------------------

/// Serializes a document tree to MDX text.
pub fn emit_mdx(node: &DocNode) -> (mdx: String)
    requires
        node.height() < usize::MAX,
    ensures
        mdx@ == spec_emit_mdx(*node),
{
    let mut emitter = Emitter { output: Vec::new() };
    emitter.emit_node(node, 0);
    trim_end_in_place(&mut emitter.output);
    chars_to_string(emitter.output.as_slice())
}

struct Emitter {
    output: Vec<char>,
}

impl Emitter {
    fn push(&mut self, s: &str)
        ensures
            final(self).output@ == old(self).output@ + s@,
    {
        push_str(&mut self.output, s);
    }

    fn push_opt(&mut self, o: &Option<String>)
        ensures
            final(self).output@ == old(self).output@ + opt_chars(*o),
    {
        match o {
            Some(s) => self.push(s.as_str()),
            None => {},
        }
    }

    fn push_indent(&mut self, depth: usize)
        ensures
            final(self).output@ == old(self).output@ + indent(depth as nat),
    {
        let ghost start = self.output@;
        let mut i: usize = 0;
        while i < depth
            invariant
                i <= depth,
                self.output@ == start + indent(i as nat),
            decreases depth - i,
        {
            push_repeat(&mut self.output, ' ', 4);
            proof {
                lemma_indent_step(i as nat);
            }
            i = i + 1;
        }
    }

    fn newline(&mut self)
        ensures
            final(self).output@ == old(self).output@ + "\n"@,
    {
        self.push("\n");
    }

    fn emit_node(&mut self, node: &DocNode, depth: usize)
        requires
            depth + node.height() <= usize::MAX,
        ensures
            final(self).output@ == old(self).output@ + emit(*node, depth as nat),
        decreases node, 3nat,
    {
        match &node.node_type {
            NodeType::Document => self.emit_document(node, depth),
            NodeType::Paragraph => self.emit_paragraph(node, depth),
            NodeType::Heading { level } => self.emit_heading(*level, node, depth),
            NodeType::BlockQuote => self.emit_block_quote(node, depth),
            NodeType::Callout { color, icon } => self.emit_callout(color, icon, node, depth),
            NodeType::ColumnList => self.emit_column_list(node, depth),
            NodeType::Column { width_ratio } => self.emit_column(*width_ratio, node, depth),
            NodeType::Divider => self.emit_divider(depth),
            NodeType::Image { file_id, caption, align, .. } => self.emit_image(
                file_id,
                caption,
                align,
                depth,
            ),
            NodeType::Table => self.emit_table(node, depth),
            NodeType::TableRow => self.emit_table_row(node, depth),
            NodeType::TableCell { .. } => self.emit_table_cell(node, depth),
            NodeType::Task { done } => self.emit_todo(*done, node, depth),
            NodeType::BulletedList => self.emit_bullet_item(node, depth),
            NodeType::NumberedList => self.emit_numbered_item(node, depth),
            NodeType::CodeBlock { language } => self.emit_code_block(language, &node.text, depth),
            NodeType::MathBlock { .. } => self.emit_math_block(node, depth),
            NodeType::Toggle => self.emit_toggle(node, depth),
            NodeType::Mermaid { .. } => self.emit_mermaid(node, depth),
            NodeType::PlantUml { .. } => self.emit_plantuml(node, depth),
            NodeType::SmartSheet { .. } => self.emit_placeholder("smartsheet", node),
            NodeType::Attachment { .. } => self.emit_placeholder("attachment", node),
            NodeType::Video { .. } => self.emit_placeholder("video", node),
            NodeType::Text => self.emit_text_node(node),
            NodeType::Link { href } => self.emit_link(href, node),
        }
    }

    fn emit_document(&mut self, node: &DocNode, _depth: usize)
        requires
            node.node_type is Document,
            node.height() <= usize::MAX,
        ensures
            final(self).output@ == old(self).output@ + frontmatter(node.attrs) + document_children(
                *node,
                node.children.len() as nat,
            ),
        decreases node, 1nat,
    {
        if !self.attrs_is_empty(&node.attrs) {
            self.emit_frontmatter(&node.attrs);
        }
        let ghost mid = self.output@;
        let mut i: usize = 0;
        while i < node.children.len()
            invariant
                i <= node.children@.len(),
                node.height() <= usize::MAX,
                self.output@ == mid + document_children(*node, i as nat),
            decreases node.children@.len() - i,
        {
            if i > 0 {
                self.newline();
                self.newline();
            }
            proof {
                lemma_child_height(*node, node.children.len() as nat, i as int);
                assert(decreases_to!(*node => node.children@[i as int]));
            }
            self.emit_node(&node.children[i], 0);
            i = i + 1;
        }
    }

    fn attrs_is_empty(&self, attrs: &BlockAttrs) -> (b: bool)
        ensures
            b == spec_attrs_empty(*attrs),
    {
        attrs.text_align.is_none() && attrs.block_color.is_none() && attrs.border_color.is_none()
            && attrs.icon.is_none() && attrs.width.is_none() && attrs.height.is_none()
    }

    fn emit_yaml_line(&mut self, key: &str, value: &Option<String>)
        ensures
            final(self).output@ == old(self).output@ + yaml_line(key@, *value),
    {
        if let Some(v) = value {
            self.push(key);
            self.push(v.as_str());
            self.push("\n");
        }
    }

    fn emit_frontmatter(&mut self, attrs: &BlockAttrs)
        requires
            !spec_attrs_empty(*attrs),
        ensures
            final(self).output@ == old(self).output@ + frontmatter(*attrs),
    {
        self.push("---\n");
        self.emit_yaml_line("textAlign: ", &attrs.text_align);
        self.emit_yaml_line("blockColor: ", &attrs.block_color);
        self.emit_yaml_line("borderColor: ", &attrs.border_color);
        if let Some(icon) = &attrs.icon {
            self.push("icon: \"");
            self.push(icon.as_str());
            self.push("\"\n");
        }
        self.push("---\n");
    }

    fn emit_paragraph(&mut self, node: &DocNode, _depth: usize)
        requires
            node.height() <= usize::MAX,
        ensures
            final(self).output@ == old(self).output@ + inline_children(
                *node,
                node.children.len() as nat,
            ),
        decreases node, 1nat,
    {
        self.emit_inline_children(node);
    }

    fn emit_heading(&mut self, level: u8, node: &DocNode, _depth: usize)
        requires
            node.height() <= usize::MAX,
        ensures
            final(self).output@ == old(self).output@ + repeat_char('#', level as nat) + " "@
                + inline_children(*node, node.children.len() as nat),
        decreases node, 1nat,
    {
        push_repeat(&mut self.output, '#', level as usize);
        self.push(" ");
        self.emit_inline_children(node);
    }

    fn emit_block_quote(&mut self, node: &DocNode, _depth: usize)
        ensures
            final(self).output@ == old(self).output@ + "> "@ + collect_inline(*node),
    {
        let lines = self.collect_inline_lines(node);
        let mut i: usize = 0;
        let ghost start = self.output@;
        while i < lines.len()
            invariant
                lines@.len() == 1,
                lines@[0]@ == collect_inline(*node),
                i <= 1,
                i == 0 ==> self.output@ == start,
                i == 1 ==> self.output@ == start + "> "@ + collect_inline(*node),
            decreases 1 - i,
        {
            if i > 0 {
                self.newline();
            }
            assert(lines@[i as int]@ == collect_inline(*node));
            self.push("> ");
            self.push(lines[i].as_str());
            i = i + 1;
        }
    }

    /// Writes each child of a component on its own indented line.
    fn emit_block_children(&mut self, node: &DocNode, depth: usize)
        requires
            depth + node.height() <= usize::MAX,
        ensures
            final(self).output@ == old(self).output@ + block_children(
                *node,
                node.children.len() as nat,
                depth as nat,
            ),
        decreases node, 0nat,
    {
        let ghost start = self.output@;
        let mut i: usize = 0;
        while i < node.children.len()
            invariant
                i <= node.children@.len(),
                depth + node.height() <= usize::MAX,
                self.output@ == start + block_children(*node, i as nat, depth as nat),
            decreases node.children@.len() - i,
        {
            proof {
                lemma_child_height(*node, node.children.len() as nat, i as int);
                assert(decreases_to!(*node => node.children@[i as int]));
            }
            self.push_indent(depth + 1);
            self.emit_node(&node.children[i], depth + 1);
            self.newline();
            i = i + 1;
        }
    }

    /// Writes a multi-line component around the children of `node`.
    fn emit_component(&mut self, open: &str, node: &DocNode, depth: usize, close: &str)
        requires
            depth + node.height() <= usize::MAX,
        ensures
            final(self).output@ == old(self).output@ + component(open@, *node, depth as nat, close@),
        decreases node, 1nat,
    {
        self.push(open);
        self.newline();
        self.emit_block_children(node, depth);
        self.push(close);
    }

    fn emit_callout(
        &mut self,
        color: &Option<String>,
        icon: &Option<String>,
        node: &DocNode,
        depth: usize,
    )
        requires
            depth + node.height() <= usize::MAX,
        ensures
            final(self).output@ == old(self).output@ + component(
                "<Callout"@ + attr_text(" icon=\""@, *icon) + attr_text(" borderColor=\""@, *color) + ">"@,
                *node,
                depth as nat,
                "</Callout>"@,
            ),
        decreases node, 1nat,
    {
        self.push("<Callout");
        if let Some(ico) = icon {
            self.push(" icon=\"");
            self.push(ico.as_str());
            self.push("\"");
        }
        if let Some(bc) = color {
            self.push(" borderColor=\"");
            self.push(bc.as_str());
            self.push("\"");
        }
        self.push(">");
        self.newline();
        self.emit_block_children(node, depth);
        self.push("</Callout>");
    }

    fn emit_column_list(&mut self, node: &DocNode, depth: usize)
        requires
            depth + node.height() <= usize::MAX,
        ensures
            final(self).output@ == old(self).output@ + component(
                "<ColumnList>"@,
                *node,
                depth as nat,
                "</ColumnList>"@,
            ),
        decreases node, 2nat,
    {
        self.emit_component("<ColumnList>", node, depth, "</ColumnList>");
    }

    fn emit_column(&mut self, width_ratio: Option<u64>, node: &DocNode, depth: usize)
        requires
            depth + node.height() <= usize::MAX,
        ensures
            final(self).output@ == old(self).output@ + component(
                match width_ratio {
                    Some(w) => "<Column width=\""@ + decimal(width_percent(w as nat)) + "%\">"@,
                    None => "<Column>"@,
                },
                *node,
                depth as nat,
                "</Column>"@,
            ),
        decreases node, 1nat,
    {
        match width_ratio {
            Some(w) => {
                let q = w / 10000;
                let r = w % 10000;
                let pct = if r > 5000 || (r == 5000 && q % 2 == 1) {
                    q + 1
                } else {
                    q
                };
                self.push("<Column width=\"");
                push_decimal(&mut self.output, pct as u128);
                self.push("%\">");
            },
            None => self.push("<Column>"),
        }
        self.newline();
        self.emit_block_children(node, depth);
        self.push("</Column>");
    }

    fn emit_divider(&mut self, _depth: usize)
        ensures
            final(self).output@ == old(self).output@ + "---"@,
    {
        self.push("---");
    }

    fn emit_image(
        &mut self,
        file_id: &Option<String>,
        caption: &Option<String>,
        _align: &Option<String>,
        _depth: usize,
    )
        ensures
            final(self).output@ == old(self).output@ + "!["@ + opt_chars(*caption) + "]("@
                + opt_chars(*file_id) + ")"@,
    {
        self.push("![");
        self.push_opt(caption);
        self.push("](");
        self.push_opt(file_id);
        self.push(")");
    }

    fn emit_table(&mut self, node: &DocNode, depth: usize)
        requires
            depth + node.height() <= usize::MAX,
        ensures
            final(self).output@ == old(self).output@ + component(
                "<Table>"@,
                *node,
                depth as nat,
                "</Table>"@,
            ),
        decreases node, 2nat,
    {
        self.emit_component("<Table>", node, depth, "</Table>");
    }

    fn emit_table_row(&mut self, node: &DocNode, depth: usize)
        requires
            depth + node.height() <= usize::MAX,
        ensures
            final(self).output@ == old(self).output@ + component(
                "<TableRow>"@,
                *node,
                depth as nat,
                "</TableRow>"@,
            ),
        decreases node, 2nat,
    {
        self.emit_component("<TableRow>", node, depth, "</TableRow>");
    }

    fn emit_table_cell(&mut self, node: &DocNode, _depth: usize)
        requires
            node.height() <= usize::MAX,
        ensures
            final(self).output@ == old(self).output@ + "<TableCell>"@ + inline_children(
                *node,
                node.children.len() as nat,
            ) + "</TableCell>"@,
        decreases node, 1nat,
    {
        self.push("<TableCell>");
        self.emit_inline_children(node);
        self.push("</TableCell>");
    }

    fn emit_todo(&mut self, done: bool, node: &DocNode, _depth: usize)
        requires
            node.height() <= usize::MAX,
        ensures
            final(self).output@ == old(self).output@ + (if done { "[x]"@ } else { "[ ]"@ }) + " "@
                + match node.task_name {
                Some(t) => t@,
                None => inline_children(*node, node.children.len() as nat),
            },
        decreases node, 1nat,
    {
        if done {
            self.push("[x]");
        } else {
            self.push("[ ]");
        }
        self.push(" ");
        if let Some(name) = &node.task_name {
            self.push(name.as_str());
        } else {
            self.emit_inline_children(node);
        }
    }

    fn emit_bullet_item(&mut self, node: &DocNode, _depth: usize)
        requires
            node.height() <= usize::MAX,
        ensures
            final(self).output@ == old(self).output@ + "- "@ + inline_children(
                *node,
                node.children.len() as nat,
            ),
        decreases node, 1nat,
    {
        self.push("- ");
        self.emit_inline_children(node);
    }

    fn emit_numbered_item(&mut self, node: &DocNode, _depth: usize)
        requires
            node.height() <= usize::MAX,
        ensures
            final(self).output@ == old(self).output@ + "1. "@ + inline_children(
                *node,
                node.children.len() as nat,
            ),
        decreases node, 1nat,
    {
        self.push("1. ");
        self.emit_inline_children(node);
    }

    fn emit_fence(&mut self, info: &str, body: &Option<String>)
        ensures
            final(self).output@ == old(self).output@ + fence(info@, opt_chars(*body)),
    {
        self.push("```");
        self.push(info);
        self.newline();
        self.push_opt(body);
        self.newline();
        self.push("```");
    }

    fn emit_code_block(&mut self, language: &Option<String>, code: &Option<String>, _depth: usize)
        ensures
            final(self).output@ == old(self).output@ + fence(opt_chars(*language), opt_chars(*code)),
    {
        self.push("```");
        self.push_opt(language);
        self.newline();
        self.push_opt(code);
        self.newline();
        self.push("```");
    }

    fn emit_math_block(&mut self, node: &DocNode, depth: usize)
        requires
            depth < usize::MAX,
        ensures
            final(self).output@ == old(self).output@ + "<MathBlock"@ + ">"@ + "\n"@ + match node.text {
                Some(t) => indent((depth + 1) as nat) + t@ + "\n"@,
                None => Seq::empty(),
            } + "</MathBlock>"@,
    {
        self.push("<MathBlock");
        self.push(">");
        self.newline();
        if let Some(t) = &node.text {
            self.push_indent(depth + 1);
            self.push(t.as_str());
            self.newline();
        }
        self.push("</MathBlock>");
    }

    fn emit_toggle(&mut self, node: &DocNode, depth: usize)
        requires
            depth + node.height() <= usize::MAX,
        ensures
            final(self).output@ == old(self).output@ + component(
                "<Toggle>"@,
                *node,
                depth as nat,
                "</Toggle>"@,
            ),
        decreases node, 2nat,
    {
        self.emit_component("<Toggle>", node, depth, "</Toggle>");
    }

    fn emit_mermaid(&mut self, node: &DocNode, _depth: usize)
        ensures
            final(self).output@ == old(self).output@ + fence(
                "mermaid"@,
                opt_chars(node.diagram_content),
            ),
    {
        self.emit_fence("mermaid", &node.diagram_content);
    }

    fn emit_plantuml(&mut self, node: &DocNode, _depth: usize)
        ensures
            final(self).output@ == old(self).output@ + fence(
                "plantuml"@,
                opt_chars(node.diagram_content),
            ),
    {
        self.emit_fence("plantuml", &node.diagram_content);
    }

    fn emit_placeholder(&mut self, name: &str, node: &DocNode)
        ensures
            final(self).output@ == old(self).output@ + placeholder(name@, *node),
    {
        self.push("[");
        self.push(name);
        self.push("]");
        if let Some(t) = &node.text {
            self.push(" ");
            self.push(t.as_str());
        }
    }

    fn emit_text_node(&mut self, node: &DocNode)
        ensures
            final(self).output@ == old(self).output@ + text_node(*node),
    {
        match &node.inline_style {
            None => self.push_opt(&node.text),
            Some(style) => {
                if style.is_plain() {
                    self.push_opt(&node.text);
                } else {
                    self.emit_styled_text(&node.text, style);
                }
            },
        }
    }

    fn emit_styled_text(&mut self, text: &Option<String>, style: &InlineStyle)
        ensures
            final(self).output@ == old(self).output@ + mark_open(*style) + opt_chars(*text)
                + "</Mark>"@,
    {
        let ghost start = self.output@;
        let ghost s = *style;
        self.push("<Mark");
        if style.bold {
            self.push(" bold");
        }
        assert(self.output@ == start + "<Mark"@ + (if s.bold { " bold"@ } else { Seq::empty() }));
        let ghost a = self.output@;
        if style.italic {
            self.push(" italic");
        }
        assert(self.output@ == a + (if s.italic { " italic"@ } else { Seq::empty() }));
        let ghost b = self.output@;
        if style.underline {
            self.push(" underline");
        }
        assert(self.output@ == b + (if s.underline { " underline"@ } else { Seq::empty() }));
        let ghost c = self.output@;
        if style.strike_through {
            self.push(" strikeThrough");
        }
        assert(self.output@ == c + (if s.strike_through { " strikeThrough"@ } else { Seq::empty() }));
        self.push(">");
        assert(self.output@ =~= start + mark_open(s));
        self.push_opt(text);
        self.push("</Mark>");
    }

    fn emit_link(&mut self, href: &String, node: &DocNode)
        requires
            node.height() <= usize::MAX,
        ensures
            final(self).output@ == old(self).output@ + if is_simple_link(*node) {
                "["@ + opt_chars(node.children@[0].text) + "]("@ + href@ + ")"@
            } else {
                "<Link href=\""@ + href@ + "\">"@ + inline_children(
                    *node,
                    node.children.len() as nat,
                ) + "</Link>"@
            },
        decreases node, 1nat,
    {
        let simple = node.children.len() == 1 && match &node.children[0].node_type {
            NodeType::Text => true,
            _ => false,
        };
        if simple {
            self.push("[");
            self.push_opt(&node.children[0].text);
            self.push("](");
            self.push(href.as_str());
            self.push(")");
        } else {
            self.push("<Link href=\"");
            self.push(href.as_str());
            self.push("\">");
            self.emit_inline_children(node);
            self.push("</Link>");
        }
    }

    /// Writes the children of `node` one after another at depth zero.
    fn emit_inline_children(&mut self, node: &DocNode)
        requires
            node.height() <= usize::MAX,
        ensures
            final(self).output@ == old(self).output@ + inline_children(
                *node,
                node.children.len() as nat,
            ),
        decreases node, 0nat,
    {
        let ghost start = self.output@;
        let mut i: usize = 0;
        while i < node.children.len()
            invariant
                i <= node.children@.len(),
                node.height() <= usize::MAX,
                self.output@ == start + inline_children(*node, i as nat),
            decreases node.children@.len() - i,
        {
            proof {
                lemma_child_height(*node, node.children.len() as nat, i as int);
                assert(decreases_to!(*node => node.children@[i as int]));
            }
            self.emit_node(&node.children[i], 0);
            i = i + 1;
        }
    }

    fn collect_inline_lines(&mut self, node: &DocNode) -> (lines: Vec<String>)
        ensures
            lines@.len() == 1,
            lines@[0]@ == collect_inline(*node),
            final(self).output@ == old(self).output@,
    {
        let mut buf: Vec<char> = Vec::new();
        self.collect_inline_recursive(node, &mut buf);
        assert(buf@ == collect_inline(*node));
        let line = chars_to_string(buf.as_slice());
        let mut lines: Vec<String> = Vec::new();
        lines.push(line);
        lines
    }

    fn collect_inline_recursive(&mut self, node: &DocNode, buf: &mut Vec<char>)
        ensures
            final(buf)@ == old(buf)@ + collect_inline(*node),
            final(self).output@ == old(self).output@,
        decreases node, 1nat,
    {
        match &node.node_type {
            NodeType::Text => {
                crate::ir::push_opt(buf, &node.text);
            },
            NodeType::Link { href } => {
                push_str(buf, "[");
                let ghost start = buf@;
                let mut i: usize = 0;
                while i < node.children.len()
                    invariant
                        i <= node.children@.len(),
                        buf@ == start + DocNode::children_plain(*node, i as nat),
                    decreases node.children@.len() - i,
                {
                    node.children[i].push_plain_content(buf);
                    i = i + 1;
                }
                push_str(buf, "](");
                push_str(buf, href.as_str());
                push_str(buf, ")");
            },
            _ => {
                let ghost start = buf@;
                let mut i: usize = 0;
                while i < node.children.len()
                    invariant
                        i <= node.children@.len(),
                        buf@ == start + collect_children(*node, i as nat),
                        self.output@ == old(self).output@,
                    decreases node.children@.len() - i,
                {
                    assert(decreases_to!(*node => node.children@[i as int]));
                    self.collect_inline_recursive(&node.children[i], buf);
                    i = i + 1;
                }
            },
        }
    }
}


/// The MDX text of a document never ends in white space.
pub proof fn law_emitted_text_is_trimmed(node: DocNode)
    ensures
        spec_emit_mdx(node).len() == 0 || !crate::text::is_ws(spec_emit_mdx(node).last()),
{
    crate::text::lemma_trim_end_last(emit(node, 0));
}


/// The kinds whose children are written on indented lines, and so depend
/// on the nesting depth.
pub open spec fn indents_children(t: NodeType) -> bool {
    ||| t is Callout
    ||| t is ColumnList
    ||| t is Column
    ||| t is Table
    ||| t is TableRow
    ||| t is Toggle
    ||| t is MathBlock
}

/// Only the indenting containers depend on the depth they are written at:
/// every other node is written the same at any depth.
pub proof fn law_depth_only_moves_indenting_kinds(n: DocNode, d1: nat, d2: nat)
    requires
        !indents_children(n.node_type),
    ensures
        emit(n, d1) == emit(n, d2),
{
}

proof fn lemma_inline_children_by_children(a: DocNode, b: DocNode, i: nat)
    requires
        a.children@ == b.children@,
    ensures
        inline_children(a, i) == inline_children(b, i),
    decreases i,
{
    if i > 0 && i <= a.children.len() {
        lemma_inline_children_by_children(a, b, (i - 1) as nat);
    }
}

/// A numbered list item is written as `1. ` and a bulleted one as `- `,
/// each followed by its children written inline; so two such items with
/// the same children are written differently, and the same after the
/// marker.
pub proof fn law_list_item_markers(a: DocNode, b: DocNode, d: nat)
    requires
        a.node_type is NumberedList,
        b.node_type is BulletedList,
        a.children@ == b.children@,
    ensures
        emit(a, d).take(3) == "1. "@,
        emit(a, d).skip(3) == inline_children(a, a.children.len() as nat),
        emit(b, d).take(2) == "- "@,
        emit(b, d).skip(2) == inline_children(b, b.children.len() as nat),
        emit(a, d).skip(3) == emit(b, d).skip(2),
        emit(a, d) != emit(b, d),
{
    reveal_strlit("1. ");
    reveal_strlit("- ");
    let ia = inline_children(a, a.children.len() as nat);
    let ib = inline_children(b, b.children.len() as nat);
    assert(emit(a, d) == "1. "@ + ia);
    assert(emit(b, d) == "- "@ + ib);
    assert(("1. "@ + ia).take(3) =~= "1. "@);
    assert(("1. "@ + ia).skip(3) =~= ia);
    assert(("- "@ + ib).take(2) =~= "- "@);
    assert(("- "@ + ib).skip(2) =~= ib);
    lemma_inline_children_by_children(a, b, a.children.len() as nat);
    assert(emit(a, d)[0] == '1');
    assert(emit(b, d)[0] == '-');
}

/// A heading of level `l` is written as `l` number signs, a space, and its
/// children written inline.
pub proof fn law_heading_marker(n: DocNode, d: nat)
    requires
        n.node_type is Heading,
    ensures
        ({
            let l = n.node_type->level as int;
            &&& emit(n, d).len() > l
            &&& forall|i: int| 0 <= i < l ==> #[trigger] emit(n, d)[i] == '#'
            &&& emit(n, d)[l] == ' '
            &&& emit(n, d).skip(l + 1) == inline_children(n, n.children.len() as nat)
        }),
{
    reveal_strlit(" ");
    let l = n.node_type->level as int;
    let ic = inline_children(n, n.children.len() as nat);
    let e = repeat_char('#', l as nat) + " "@ + ic;
    assert(emit(n, d) == e);
    assert(e.skip(l + 1) =~= ic);
    assert(e[l] == ' ');
}

} // verus!
