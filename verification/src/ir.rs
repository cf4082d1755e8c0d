//! The document tree (`DocIR`) shared by the MDX parser and emitter.
//!
//! A document is a tree of [`DocNode`]s. Block nodes (paragraphs, headings,
//! callouts, tables, ...) hold inline nodes (text runs and links) as children.
//! A column's width ratio is held in millionths (`500_000` is one half).

use vstd::prelude::*;
use crate::text::{chars_to_string, push_str};

verus! {

/// Inline text style flags.
#[derive(Debug, Clone, Copy, Default, PartialEq, Eq, Structural)]
pub struct InlineStyle {
    pub bold: bool,
    pub italic: bool,
    pub underline: bool,
    pub strike_through: bool,
    pub inline_code: bool,
}

impl InlineStyle {
    /// True when no flag is set.
    pub open spec fn spec_is_plain(&self) -> bool {
        !self.bold && !self.italic && !self.underline && !self.strike_through && !self.inline_code
    }

    /// True when no flag is set.
    #[verifier::when_used_as_spec(spec_is_plain)]
    pub fn is_plain(&self) -> (b: bool)
        ensures
            b == self.spec_is_plain(),
    {
        !self.bold && !self.italic && !self.underline && !self.strike_through && !self.inline_code
    }
}

/// Block-level presentation attributes.
#[derive(Debug, Clone, Default, PartialEq, Eq)]
pub struct BlockAttrs {
    pub text_align: Option<String>,
    pub block_color: Option<String>,
    pub border_color: Option<String>,
    pub icon: Option<String>,
    pub width: Option<u64>,
    pub height: Option<u64>,
}

/// The kind of a node, with the data that is specific to that kind.
#[derive(Debug, Clone, Default, PartialEq, Eq)]
pub enum NodeType {
    Document,
    #[default]
    Paragraph,
    Heading { level: u8 },
    BlockQuote,
    Callout { color: Option<String>, icon: Option<String> },
    ColumnList,
    /// `width_ratio` in millionths.
    Column { width_ratio: Option<u64> },
    Divider,
    Image {
        file_id: Option<String>,
        caption: Option<String>,
        width: Option<u64>,
        height: Option<u64>,
        align: Option<String>,
    },
    Table,
    TableRow,
    TableCell { col_span: Option<u64> },
    Task { done: bool },
    BulletedList,
    NumberedList,
    CodeBlock { language: Option<String> },
    MathBlock { inline: bool },
    Toggle,
    Mermaid { theme: Option<String> },
    PlantUml { theme: Option<String> },
    SmartSheet { sheet_id: Option<String> },
    Attachment { file_id: Option<String> },
    Video { file_id: Option<String> },
    Text,
    Link { href: String },
}

/// A node of the document tree.
#[derive(Debug, Default)]
pub struct DocNode {
    pub node_type: NodeType,
    pub text: Option<String>,
    pub attrs: BlockAttrs,
    pub inline_style: Option<InlineStyle>,
    pub href: Option<String>,
    pub children: Vec<DocNode>,
    pub task_name: Option<String>,
    pub temp_id: Option<String>,
    pub diagram_content: Option<String>,
    pub callout_color: Option<String>,
    pub callout_icon: Option<String>,
    /// In millionths.
    pub column_width_ratio: Option<u64>,
}

/// The characters of an optional string, empty for `None`.
pub open spec fn opt_chars(o: Option<String>) -> Seq<char> {
    match o {
        Some(s) => s@,
        None => Seq::empty(),
    }
}

/// The view of an optional string.
pub open spec fn opt_view(o: Option<String>) -> Option<Seq<char>> {
    match o {
        Some(s) => Some(s@),
        None => None,
    }
}

/// The view of an optional string slice.
pub open spec fn opt_str_view(o: Option<&str>) -> Option<Seq<char>> {
    match o {
        Some(s) => Some(s@),
        None => None,
    }
}

/// Clones an optional string slice into an optional `String`.
pub fn opt_to_string(o: Option<&str>) -> (r: Option<String>)
    ensures
        opt_view(r) == opt_str_view(o),
{
    match o {
        Some(s) => Some(s.to_owned()),
        None => None,
    }
}

/// Clones an optional string.
pub fn clone_opt(o: &Option<String>) -> (r: Option<String>)
    ensures
        opt_view(r) == opt_view(*o),
        opt_chars(r) == opt_chars(*o),
{
    match o {
        Some(s) => Some(s.clone()),
        None => None,
    }
}

/// Appends an optional string (nothing for `None`).
pub fn push_opt(out: &mut Vec<char>, o: &Option<String>)
    ensures
        final(out)@ == old(out)@ + opt_chars(*o),
{
    match o {
        Some(s) => push_str(out, s.as_str()),
        None => {},
    }
}

impl DocNode {
    /// Height of the tree rooted here (a leaf has height 1).
    pub open spec fn height(self) -> nat
        decreases self, 1nat, 0nat,
    {
        1 + Self::children_height(self, self.children.len() as nat)
    }

    /// Largest height among the first `i` children.
    pub open spec fn children_height(n: DocNode, i: nat) -> nat
        decreases n, 0nat, i,
    {
        if i == 0 || i > n.children.len() {
            0
        } else {
            let h = n.children@[i - 1].height();
            let rest = Self::children_height(n, (i - 1) as nat);
            if h > rest { h } else { rest }
        }
    }

    /// The text of this node followed by the plain content of its children.
    pub open spec fn spec_plain_content(self) -> Seq<char>
        decreases self, 1nat, 0nat,
    {
        opt_chars(self.text) + Self::children_plain(self, self.children.len() as nat)
    }

    /// Plain content of the first `i` children, concatenated.
    pub open spec fn children_plain(n: DocNode, i: nat) -> Seq<char>
        decreases n, 0nat, i,
    {
        if i == 0 || i > n.children.len() {
            Seq::empty()
        } else {
            Self::children_plain(n, (i - 1) as nat) + n.children@[i - 1].spec_plain_content()
        }
    }

    /// A node of the given kind with no content.
    pub fn empty(node_type: NodeType) -> (n: DocNode)
        ensures
            n.model() == empty_model(node_type@),
            n.node_type == node_type,
            n.text is None,
            n.attrs.text_align is None,
            n.attrs.block_color is None,
            n.attrs.border_color is None,
            n.attrs.icon is None,
            n.attrs.width is None,
            n.attrs.height is None,
            n.inline_style is None,
            n.href is None,
            n.children@.len() == 0,
            n.task_name is None,
            n.temp_id is None,
            n.diagram_content is None,
            n.callout_color is None,
            n.callout_icon is None,
            n.column_width_ratio is None,
    {
        let n = DocNode {
            node_type,
            text: None,
            attrs: BlockAttrs {
                text_align: None,
                block_color: None,
                border_color: None,
                icon: None,
                width: None,
                height: None,
            },
            inline_style: None,
            href: None,
            children: Vec::new(),
            task_name: None,
            temp_id: None,
            diagram_content: None,
            callout_color: None,
            callout_icon: None,
            column_width_ratio: None,
        };
        proof {
            lemma_model_children(n);
            assert(n.model().children =~= Seq::<NodeModel>::empty());
        }
        n
    }

    /// A container node of the given kind.
    pub fn container(node_type: NodeType, children: Vec<DocNode>) -> (n: DocNode)
        ensures
            n.model() == container_model(node_type@, models(children@)),
            n.node_type == node_type,
            n.children@ == children@,
            n.text is None,
            n.inline_style is None,
            n.task_name is None,
            n.diagram_content is None,
            n.attrs.text_align is None && n.attrs.block_color is None
                && n.attrs.border_color is None && n.attrs.icon is None
                && n.attrs.width is None && n.attrs.height is None,
    {
        let mut n = DocNode::empty(node_type);
        n.children = children;
        proof {
            lemma_model_children(n);
        }
        n
    }

    /// The root of a document.
    pub fn document(children: Vec<DocNode>) -> (n: DocNode)
        ensures
            n.model() == container_model(KindView::Document, models(children@)),
            n.node_type == NodeType::Document,
            n.children@ == children@,
            n.text is None,
            n.attrs.text_align is None && n.attrs.block_color is None
                && n.attrs.border_color is None && n.attrs.icon is None
                && n.attrs.width is None && n.attrs.height is None,
    {
        DocNode::container(NodeType::Document, children)
    }

    /// A paragraph of inline nodes.
    pub fn paragraph(children: Vec<DocNode>) -> (n: DocNode)
        ensures
            n.model() == container_model(KindView::Paragraph, models(children@)),
            n.node_type == NodeType::Paragraph,
            n.children@ == children@,
            n.text is None,
    {
        DocNode::container(NodeType::Paragraph, children)
    }

    /// A heading of the given level.
    pub fn heading(level: u8, children: Vec<DocNode>) -> (n: DocNode)
        ensures
            n.model() == container_model(KindView::Heading { level }, models(children@)),
            n.node_type == (NodeType::Heading { level }),
            n.children@ == children@,
            n.text is None,
    {
        DocNode::container(NodeType::Heading { level }, children)
    }

    /// A text run with an optional style.
    pub fn text(text: &str, style: Option<InlineStyle>) -> (n: DocNode)
        ensures
            n.model() == text_model(text@, style),
            n.node_type == NodeType::Text,
            opt_view(n.text) == Some(text@),
            n.inline_style == style,
            n.children@.len() == 0,
    {
        let mut n = DocNode::empty(NodeType::Text);
        n.text = Some(text.to_owned());
        n.inline_style = style;
        n
    }

    /// An unstyled text run.
    pub fn plain_text(text: &str) -> (n: DocNode)
        ensures
            n.model() == text_model(text@, None),
            n.node_type == NodeType::Text,
            opt_view(n.text) == Some(text@),
            n.inline_style is None,
            n.children@.len() == 0,
    {
        DocNode::text(text, None)
    }

    /// A bold text run.
    pub fn bold(text: &str) -> (n: DocNode)
        ensures
            n.node_type == NodeType::Text,
            opt_view(n.text) == Some(text@),
            n.inline_style == Some(InlineStyle {
                bold: true,
                italic: false,
                underline: false,
                strike_through: false,
                inline_code: false,
            }),
            n.children@.len() == 0,
    {
        DocNode::text(
            text,
            Some(InlineStyle {
                bold: true,
                italic: false,
                underline: false,
                strike_through: false,
                inline_code: false,
            }),
        )
    }

    /// A fenced code block.
    pub fn code_block(language: Option<&str>, code: &str) -> (n: DocNode)
        ensures
            n.model() == code_model(opt_str_view(language), code@),
            n.node_type matches NodeType::CodeBlock { language: l } && opt_view(l) == opt_str_view(language),
            opt_view(n.text) == Some(code@),
            n.children@.len() == 0,
    {
        let mut n = DocNode::empty(NodeType::CodeBlock { language: opt_to_string(language) });
        n.text = Some(code.to_owned());
        n
    }

    /// A to-do item with a name.
    pub fn task(done: bool, name: &str) -> (n: DocNode)
        ensures
            n.model() == task_model(done, name@),
            n.node_type == (NodeType::Task { done }),
            opt_view(n.task_name) == Some(name@),
            n.children@.len() == 0,
            n.text is None,
    {
        let mut n = DocNode::empty(NodeType::Task { done });
        n.task_name = Some(name.to_owned());
        n
    }

    /// A bulleted list item of inline nodes.
    pub fn bullet_item(children: Vec<DocNode>) -> (n: DocNode)
        ensures
            n.model() == container_model(KindView::BulletedList, models(children@)),
            n.node_type == NodeType::BulletedList,
            n.children@ == children@,
            n.text is None,
    {
        DocNode::container(NodeType::BulletedList, children)
    }

    /// A numbered list item of inline nodes.
    pub fn numbered_item(children: Vec<DocNode>) -> (n: DocNode)
        ensures
            n.model() == container_model(KindView::NumberedList, models(children@)),
            n.node_type == NodeType::NumberedList,
            n.children@ == children@,
            n.text is None,
    {
        DocNode::container(NodeType::NumberedList, children)
    }

    /// A horizontal rule.
    pub fn divider() -> (n: DocNode)
        ensures
            n.model() == empty_model(KindView::Divider),
            n.node_type == NodeType::Divider,
            n.children@.len() == 0,
            n.text is None,
    {
        DocNode::empty(NodeType::Divider)
    }

    /// A callout container with optional border color and icon.
    pub fn callout(color: Option<&str>, icon: Option<&str>, children: Vec<DocNode>) -> (n: DocNode)
        ensures
            n.model() == callout_model(opt_str_view(color), opt_str_view(icon), models(children@)),
            n.node_type matches NodeType::Callout { color: c, icon: i }
                && opt_view(c) == opt_str_view(color) && opt_view(i) == opt_str_view(icon),
            opt_view(n.callout_color) == opt_str_view(color),
            opt_view(n.callout_icon) == opt_str_view(icon),
            n.children@ == children@,
            n.text is None,
    {
        let mut n = DocNode::container(
            NodeType::Callout { color: opt_to_string(color), icon: opt_to_string(icon) },
            children,
        );
        n.callout_color = opt_to_string(color);
        n.callout_icon = opt_to_string(icon);
        proof {
            lemma_model_children(n);
        }
        n
    }

    /// A row of columns.
    pub fn column_list(children: Vec<DocNode>) -> (n: DocNode)
        ensures
            n.model() == container_model(KindView::ColumnList, models(children@)),
            n.node_type == NodeType::ColumnList,
            n.children@ == children@,
            n.text is None,
    {
        DocNode::container(NodeType::ColumnList, children)
    }

    /// A column with an optional width ratio (in millionths).
    pub fn column(width_ratio: Option<u64>, children: Vec<DocNode>) -> (n: DocNode)
        ensures
            n.model() == column_model(width_ratio, models(children@)),
            n.node_type == (NodeType::Column { width_ratio }),
            n.column_width_ratio == width_ratio,
            n.children@ == children@,
            n.text is None,
    {
        let mut n = DocNode::container(NodeType::Column { width_ratio }, children);
        n.column_width_ratio = width_ratio;
        proof {
            lemma_model_children(n);
        }
        n
    }

    /// An image with an optional file id and caption.
    pub fn image(file_id: Option<&str>, caption: Option<&str>) -> (n: DocNode)
        ensures
            n.model() == image_model(opt_str_view(file_id), opt_str_view(caption)),
            n.node_type matches NodeType::Image { file_id: f, caption: c, width: None, height: None, align: None }
                && opt_view(f) == opt_str_view(file_id) && opt_view(c) == opt_str_view(caption),
            n.children@.len() == 0,
            n.text is None,
    {
        DocNode::empty(NodeType::Image {
            file_id: opt_to_string(file_id),
            caption: opt_to_string(caption),
            width: None,
            height: None,
            align: None,
        })
    }

    /// A hyperlink around inline nodes.
    pub fn link(href: &str, children: Vec<DocNode>) -> (n: DocNode)
        ensures
            n.model() == link_model(href@, models(children@)),
            n.node_type matches NodeType::Link { href: h } && h@ == href@,
            opt_view(n.href) == Some(href@),
            n.children@ == children@,
            n.text is None,
    {
        let mut n = DocNode::container(NodeType::Link { href: href.to_owned() }, children);
        n.href = Some(href.to_owned());
        proof {
            lemma_model_children(n);
        }
        n
    }

    /// A table of rows.
    pub fn table(rows: Vec<DocNode>) -> (n: DocNode)
        ensures
            n.model() == container_model(KindView::Table, models(rows@)),
            n.node_type == NodeType::Table,
            n.children@ == rows@,
            n.text is None,
    {
        DocNode::container(NodeType::Table, rows)
    }

    /// A table row of cells.
    pub fn table_row(cells: Vec<DocNode>) -> (n: DocNode)
        ensures
            n.model() == container_model(KindView::TableRow, models(cells@)),
            n.node_type == NodeType::TableRow,
            n.children@ == cells@,
            n.text is None,
    {
        DocNode::container(NodeType::TableRow, cells)
    }

    /// A table cell of inline nodes.
    pub fn table_cell(children: Vec<DocNode>) -> (n: DocNode)
        ensures
            n.model() == container_model(KindView::TableCell { col_span: None }, models(children@)),
            n.node_type == (NodeType::TableCell { col_span: None }),
            n.children@ == children@,
            n.text is None,
    {
        DocNode::container(NodeType::TableCell { col_span: None }, children)
    }

    /// A toggle (collapsible) block.
    pub fn toggle(children: Vec<DocNode>) -> (n: DocNode)
        ensures
            n.model() == container_model(KindView::Toggle, models(children@)),
            n.node_type == NodeType::Toggle,
            n.children@ == children@,
            n.text is None,
    {
        DocNode::container(NodeType::Toggle, children)
    }

    /// A Mermaid diagram.
    pub fn mermaid(code: &str) -> (n: DocNode)
        ensures
            n.model() == diagram_model(KindView::Mermaid { theme: None }, code@),
            n.node_type == (NodeType::Mermaid { theme: None }),
            opt_view(n.diagram_content) == Some(code@),
            n.children@.len() == 0,
            n.text is None,
    {
        let mut n = DocNode::empty(NodeType::Mermaid { theme: None });
        n.diagram_content = Some(code.to_owned());
        n
    }

    /// A PlantUML diagram.
    pub fn plantuml(code: &str) -> (n: DocNode)
        ensures
            n.model() == diagram_model(KindView::PlantUml { theme: None }, code@),
            n.node_type == (NodeType::PlantUml { theme: None }),
            opt_view(n.diagram_content) == Some(code@),
            n.children@.len() == 0,
            n.text is None,
    {
        let mut n = DocNode::empty(NodeType::PlantUml { theme: None });
        n.diagram_content = Some(code.to_owned());
        n
    }

    /// Appends the plain content of `self` to `out`.
    pub fn push_plain_content(&self, out: &mut Vec<char>)
        ensures
            final(out)@ == old(out)@ + self.spec_plain_content(),
        decreases self, 1nat, 0nat,
    {
        push_opt(out, &self.text);
        Self::push_children_plain(self, out);
    }

    /// Appends the plain content of every child of `n` to `out`.
    fn push_children_plain(n: &DocNode, out: &mut Vec<char>)
        ensures
            final(out)@ == old(out)@ + Self::children_plain(*n, n.children.len() as nat),
        decreases n, 0nat, n.children.len(),
    {
        let ghost start = out@;
        let mut i: usize = 0;
        while i < n.children.len()
            invariant
                i <= n.children@.len(),
                out@ == start + Self::children_plain(*n, i as nat),
            decreases n.children@.len() - i,
        {
            assert(decreases_to!(*n => n.children@[i as int]));
            n.children[i].push_plain_content(out);
            i = i + 1;
        }
    }

    /// The text of this node followed by the plain content of its children.
    pub fn plain_content(&self) -> (s: String)
        ensures
            s@ == self.spec_plain_content(),
    {
        let mut out: Vec<char> = Vec::new();
        self.push_plain_content(&mut out);
        assert(out@ == self.spec_plain_content());
        chars_to_string(out.as_slice())
    }
}


// ---------------------------------------------------------------------------
// Plain-value model of the tree
// ---------------------------------------------------------------------------

/// The kind of a node as plain values.
pub enum KindView {
    Document,
    Paragraph,
    Heading { level: u8 },
    BlockQuote,
    Callout { color: Option<Seq<char>>, icon: Option<Seq<char>> },
    ColumnList,
    Column { width_ratio: Option<u64> },
    Divider,
    Image {
        file_id: Option<Seq<char>>,
        caption: Option<Seq<char>>,
        width: Option<u64>,
        height: Option<u64>,
        align: Option<Seq<char>>,
    },
    Table,
    TableRow,
    TableCell { col_span: Option<u64> },
    Task { done: bool },
    BulletedList,
    NumberedList,
    CodeBlock { language: Option<Seq<char>> },
    MathBlock { inline: bool },
    Toggle,
    Mermaid { theme: Option<Seq<char>> },
    PlantUml { theme: Option<Seq<char>> },
    SmartSheet { sheet_id: Option<Seq<char>> },
    Attachment { file_id: Option<Seq<char>> },
    Video { file_id: Option<Seq<char>> },
    Text,
    Link { href: Seq<char> },
}

impl View for NodeType {
    type V = KindView;

    open spec fn view(&self) -> KindView {
        match self {
            NodeType::Document => KindView::Document,
            NodeType::Paragraph => KindView::Paragraph,
            NodeType::Heading { level } => KindView::Heading { level: *level },
            NodeType::BlockQuote => KindView::BlockQuote,
            NodeType::Callout { color, icon } => KindView::Callout {
                color: opt_view(*color),
                icon: opt_view(*icon),
            },
            NodeType::ColumnList => KindView::ColumnList,
            NodeType::Column { width_ratio } => KindView::Column { width_ratio: *width_ratio },
            NodeType::Divider => KindView::Divider,
            NodeType::Image { file_id, caption, width, height, align } => KindView::Image {
                file_id: opt_view(*file_id),
                caption: opt_view(*caption),
                width: *width,
                height: *height,
                align: opt_view(*align),
            },
            NodeType::Table => KindView::Table,
            NodeType::TableRow => KindView::TableRow,
            NodeType::TableCell { col_span } => KindView::TableCell { col_span: *col_span },
            NodeType::Task { done } => KindView::Task { done: *done },
            NodeType::BulletedList => KindView::BulletedList,
            NodeType::NumberedList => KindView::NumberedList,
            NodeType::CodeBlock { language } => KindView::CodeBlock { language: opt_view(*language) },
            NodeType::MathBlock { inline } => KindView::MathBlock { inline: *inline },
            NodeType::Toggle => KindView::Toggle,
            NodeType::Mermaid { theme } => KindView::Mermaid { theme: opt_view(*theme) },
            NodeType::PlantUml { theme } => KindView::PlantUml { theme: opt_view(*theme) },
            NodeType::SmartSheet { sheet_id } => KindView::SmartSheet { sheet_id: opt_view(*sheet_id) },
            NodeType::Attachment { file_id } => KindView::Attachment { file_id: opt_view(*file_id) },
            NodeType::Video { file_id } => KindView::Video { file_id: opt_view(*file_id) },
            NodeType::Text => KindView::Text,
            NodeType::Link { href } => KindView::Link { href: href@ },
        }
    }
}

/// Block attributes as plain values.
pub struct AttrsView {
    pub text_align: Option<Seq<char>>,
    pub block_color: Option<Seq<char>>,
    pub border_color: Option<Seq<char>>,
    pub icon: Option<Seq<char>>,
    pub width: Option<u64>,
    pub height: Option<u64>,
}

impl View for BlockAttrs {
    type V = AttrsView;

    open spec fn view(&self) -> AttrsView {
        AttrsView {
            text_align: opt_view(self.text_align),
            block_color: opt_view(self.block_color),
            border_color: opt_view(self.border_color),
            icon: opt_view(self.icon),
            width: self.width,
            height: self.height,
        }
    }
}

/// A node of the tree as plain values.
pub struct NodeModel {
    pub kind: KindView,
    pub text: Option<Seq<char>>,
    pub attrs: AttrsView,
    pub style: Option<InlineStyle>,
    pub href: Option<Seq<char>>,
    pub children: Seq<NodeModel>,
    pub task_name: Option<Seq<char>>,
    pub temp_id: Option<Seq<char>>,
    pub diagram: Option<Seq<char>>,
    pub callout_color: Option<Seq<char>>,
    pub callout_icon: Option<Seq<char>>,
    pub width_ratio: Option<u64>,
}

/// A node of kind `kind` with nothing else set.
pub open spec fn empty_model(kind: KindView) -> NodeModel {
    NodeModel {
        kind,
        text: None,
        attrs: AttrsView {
            text_align: None,
            block_color: None,
            border_color: None,
            icon: None,
            width: None,
            height: None,
        },
        style: None,
        href: None,
        children: Seq::empty(),
        task_name: None,
        temp_id: None,
        diagram: None,
        callout_color: None,
        callout_icon: None,
        width_ratio: None,
    }
}

/// The text of a model followed by the plain content of its children.
pub open spec fn model_plain(m: NodeModel) -> Seq<char>
    decreases m,
{
    opt_seq(m.text) + models_plain_upto(m.children, m.children.len() as nat)
}

/// The plain content of the first `i` models, concatenated.
pub open spec fn models_plain_upto(ms: Seq<NodeModel>, i: nat) -> Seq<char>
    decreases ms, i,
{
    if i == 0 || i > ms.len() {
        Seq::empty()
    } else {
        models_plain_upto(ms, (i - 1) as nat) + model_plain(ms[i - 1])
    }
}

/// The plain content of a list of models, concatenated.
pub open spec fn models_plain(ms: Seq<NodeModel>) -> Seq<char> {
    models_plain_upto(ms, ms.len() as nat)
}

/// The characters of an optional sequence, empty for `None`.
pub open spec fn opt_seq(o: Option<Seq<char>>) -> Seq<char> {
    match o {
        Some(s) => s,
        None => Seq::empty(),
    }
}


/// A container of kind `kind` holding `cs`.
pub open spec fn container_model(kind: KindView, cs: Seq<NodeModel>) -> NodeModel {
    NodeModel { children: cs, ..empty_model(kind) }
}

/// A text run.
pub open spec fn text_model(v: Seq<char>, style: Option<InlineStyle>) -> NodeModel {
    NodeModel { text: Some(v), style, ..empty_model(KindView::Text) }
}

/// A code block.
pub open spec fn code_model(lang: Option<Seq<char>>, code: Seq<char>) -> NodeModel {
    NodeModel { text: Some(code), ..empty_model(KindView::CodeBlock { language: lang }) }
}

/// A to-do item.
pub open spec fn task_model(done: bool, name: Seq<char>) -> NodeModel {
    NodeModel { task_name: Some(name), ..empty_model(KindView::Task { done }) }
}

/// A callout.
pub open spec fn callout_model(
    color: Option<Seq<char>>,
    icon: Option<Seq<char>>,
    cs: Seq<NodeModel>,
) -> NodeModel {
    NodeModel {
        children: cs,
        callout_color: color,
        callout_icon: icon,
        ..empty_model(KindView::Callout { color, icon })
    }
}

/// A column.
pub open spec fn column_model(w: Option<u64>, cs: Seq<NodeModel>) -> NodeModel {
    NodeModel { children: cs, width_ratio: w, ..empty_model(KindView::Column { width_ratio: w }) }
}

/// An image.
pub open spec fn image_model(file_id: Option<Seq<char>>, caption: Option<Seq<char>>) -> NodeModel {
    empty_model(KindView::Image { file_id, caption, width: None, height: None, align: None })
}

/// A link.
pub open spec fn link_model(href: Seq<char>, cs: Seq<NodeModel>) -> NodeModel {
    NodeModel { href: Some(href), children: cs, ..empty_model(KindView::Link { href }) }
}

/// A diagram of kind `kind`.
pub open spec fn diagram_model(kind: KindView, code: Seq<char>) -> NodeModel {
    NodeModel { diagram: Some(code), ..empty_model(kind) }
}

impl DocNode {
    /// This node as plain values.
    pub open spec fn model(self) -> NodeModel
        decreases self, 1nat, 0nat,
    {
        NodeModel {
            kind: self.node_type@,
            text: opt_view(self.text),
            attrs: self.attrs@,
            style: self.inline_style,
            href: opt_view(self.href),
            children: Self::children_model(self, self.children.len() as nat),
            task_name: opt_view(self.task_name),
            temp_id: opt_view(self.temp_id),
            diagram: opt_view(self.diagram_content),
            callout_color: opt_view(self.callout_color),
            callout_icon: opt_view(self.callout_icon),
            width_ratio: self.column_width_ratio,
        }
    }

    /// The models of the first `i` children.
    pub open spec fn children_model(n: DocNode, i: nat) -> Seq<NodeModel>
        decreases n, 0nat, i,
    {
        if i == 0 || i > n.children.len() {
            Seq::empty()
        } else {
            Self::children_model(n, (i - 1) as nat).push(n.children@[i - 1].model())
        }
    }
}

/// The models of a list of nodes.
pub open spec fn models(v: Seq<DocNode>) -> Seq<NodeModel> {
    Seq::new(v.len(), |i: int| v[i].model())
}

/// The models of the first `i` children are those of the first `i` nodes.
pub proof fn lemma_children_model(n: DocNode, i: nat)
    requires
        i <= n.children@.len(),
    ensures
        DocNode::children_model(n, i) == models(n.children@).take(i as int),
    decreases i,
{
    if i > 0 {
        lemma_children_model(n, (i - 1) as nat);
        assert(models(n.children@).take(i as int) =~= models(n.children@).take(i - 1).push(
            n.children@[i - 1].model(),
        ));
    } else {
        assert(models(n.children@).take(0) =~= Seq::<NodeModel>::empty());
    }
}

/// The model of a node lists the models of its children.
pub proof fn lemma_model_children(n: DocNode)
    ensures
        n.model().children == models(n.children@),
{
    lemma_children_model(n, n.children@.len());
    assert(models(n.children@).take(n.children@.len() as int) =~= models(n.children@));
}

/// The plain content of a node is that of its model.
pub proof fn lemma_plain_model(n: DocNode)
    ensures
        n.spec_plain_content() == model_plain(n.model()),
    decreases n, 1nat, 0nat,
{
    lemma_children_plain_model(n, n.children@.len());
    lemma_model_children(n);
    assert(opt_seq(opt_view(n.text)) == opt_chars(n.text));
}

proof fn lemma_children_plain_model(n: DocNode, i: nat)
    requires
        i <= n.children@.len(),
    ensures
        DocNode::children_plain(n, i) == models_plain_upto(n.model().children, i),
    decreases n, 0nat, i,
{
    lemma_model_children(n);
    if i > 0 {
        lemma_children_plain_model(n, (i - 1) as nat);
        assert(decreases_to!(n => n.children@[i - 1]));
        lemma_plain_model(n.children@[i - 1]);
    }
}

/// The plain content of a list of nodes is that of their models.
pub proof fn lemma_plain_models(v: Seq<DocNode>, i: nat)
    requires
        i <= v.len(),
    ensures
        models_plain_upto(models(v), i) == nodes_plain_upto(v, i),
    decreases i,
{
    if i > 0 {
        lemma_plain_models(v, (i - 1) as nat);
        lemma_plain_model(v[i - 1]);
    }
}

/// The plain content of the first `i` nodes, concatenated.
pub open spec fn nodes_plain_upto(v: Seq<DocNode>, i: nat) -> Seq<char>
    decreases i,
{
    if i == 0 || i > v.len() {
        Seq::empty()
    } else {
        nodes_plain_upto(v, (i - 1) as nat) + v[i - 1].spec_plain_content()
    }
}

/// The plain content of a list of nodes, concatenated.
pub fn nodes_plain_content(v: &Vec<DocNode>) -> (r: Vec<char>)
    ensures
        r@ == models_plain(models(v@)),
{
    let mut out: Vec<char> = Vec::new();
    let mut i: usize = 0;
    while i < v.len()
        invariant
            i <= v@.len(),
            out@ == nodes_plain_upto(v@, i as nat),
        decreases v@.len() - i,
    {
        v[i].push_plain_content(&mut out);
        i = i + 1;
    }
    proof {
        lemma_plain_models(v@, v@.len());
    }
    out
}


/// The position of a kind in the list of kinds (its fields ignored).
pub open spec fn kind_index(k: KindView) -> nat {
    match k {
        KindView::Document => 0,
        KindView::Paragraph => 1,
        KindView::Heading { .. } => 2,
        KindView::BlockQuote => 3,
        KindView::Callout { .. } => 4,
        KindView::ColumnList => 5,
        KindView::Column { .. } => 6,
        KindView::Divider => 7,
        KindView::Image { .. } => 8,
        KindView::Table => 9,
        KindView::TableRow => 10,
        KindView::TableCell { .. } => 11,
        KindView::Task { .. } => 12,
        KindView::BulletedList => 13,
        KindView::NumberedList => 14,
        KindView::CodeBlock { .. } => 15,
        KindView::MathBlock { .. } => 16,
        KindView::Toggle => 17,
        KindView::Mermaid { .. } => 18,
        KindView::PlantUml { .. } => 19,
        KindView::SmartSheet { .. } => 20,
        KindView::Attachment { .. } => 21,
        KindView::Video { .. } => 22,
        KindView::Text => 23,
        KindView::Link { .. } => 24,
    }
}

impl NodeType {
    /// The position of this kind in the list of kinds (its fields ignored).
    pub fn kind_index(&self) -> (i: u8)
        ensures
            i == kind_index(self@),
    {
        match self {
            NodeType::Document => 0,
            NodeType::Paragraph => 1,
            NodeType::Heading { .. } => 2,
            NodeType::BlockQuote => 3,
            NodeType::Callout { .. } => 4,
            NodeType::ColumnList => 5,
            NodeType::Column { .. } => 6,
            NodeType::Divider => 7,
            NodeType::Image { .. } => 8,
            NodeType::Table => 9,
            NodeType::TableRow => 10,
            NodeType::TableCell { .. } => 11,
            NodeType::Task { .. } => 12,
            NodeType::BulletedList => 13,
            NodeType::NumberedList => 14,
            NodeType::CodeBlock { .. } => 15,
            NodeType::MathBlock { .. } => 16,
            NodeType::Toggle => 17,
            NodeType::Mermaid { .. } => 18,
            NodeType::PlantUml { .. } => 19,
            NodeType::SmartSheet { .. } => 20,
            NodeType::Attachment { .. } => 21,
            NodeType::Video { .. } => 22,
            NodeType::Text => 23,
            NodeType::Link { .. } => 24,
        }
    }
}

/// The nodes of the tree rooted at `m` whose kind is that of `kind`, in
/// pre-order.
pub open spec fn find_all_model(m: NodeModel, kind: KindView) -> Seq<NodeModel>
    decreases m,
{
    (if kind_index(m.kind) == kind_index(kind) {
        seq![m]
    } else {
        Seq::empty()
    }) + find_all_in(m.children, kind)
}

/// [`find_all_model`] over a list of trees, concatenated.
pub open spec fn find_all_in(ms: Seq<NodeModel>, kind: KindView) -> Seq<NodeModel>
    decreases ms,
{
    if ms.len() == 0 {
        Seq::empty()
    } else {
        find_all_in(ms.drop_last(), kind) + find_all_model(ms.last(), kind)
    }
}

impl DocNode {
    /// The nodes of this tree whose kind is that of `kind` (whatever the
    /// fields of that kind), in pre-order.
    pub fn find_all(&self, kind: &NodeType) -> (r: Vec<&DocNode>)
        ensures
            r@.map_values(|n: &DocNode| n.model()) == find_all_model(self.model(), kind@),
        decreases self, 1nat,
    {
        let mut out: Vec<&DocNode> = Vec::new();
        if self.node_type.kind_index() == kind.kind_index() {
            out.push(self);
        }
        proof {
            lemma_model_children(*self);
        }
        let ghost cm = models(self.children@);
        let mut i: usize = 0;
        let ghost head = out@.map_values(|n: &DocNode| n.model());
        assert(cm.take(0) =~= Seq::<NodeModel>::empty());
        while i < self.children.len()
            invariant
                i <= self.children@.len(),
                cm == models(self.children@),
                out@.map_values(|n: &DocNode| n.model()) == head + find_all_in(cm.take(i as int), kind@),
            decreases self.children@.len() - i,
        {
            assert(decreases_to!(*self => self.children@[i as int]));
            let found = self.children[i].find_all(kind);
            let ghost before = out@.map_values(|n: &DocNode| n.model());
            let mut j: usize = 0;
            while j < found.len()
                invariant
                    j <= found@.len(),
                    out@.map_values(|n: &DocNode| n.model()) == before + found@.take(j as int).map_values(
                        |n: &DocNode| n.model(),
                    ),
                decreases found@.len() - j,
            {
                let ghost prev = out@;
                out.push(found[j]);
                assert(out@.map_values(|n: &DocNode| n.model()) =~= prev.map_values(|n: &DocNode| n.model()).push(
                    found@[j as int].model(),
                ));
                assert(found@.take(j + 1).map_values(|n: &DocNode| n.model()) =~= found@.take(j as int).map_values(
                    |n: &DocNode| n.model(),
                ).push(found@[j as int].model()));
                j = j + 1;
                assert(out@.map_values(|n: &DocNode| n.model()) =~= before + found@.take(j as int).map_values(
                    |n: &DocNode| n.model(),
                ));
            }
            assert(found@.take(found@.len() as int) =~= found@);
            assert(cm.take(i + 1).drop_last() =~= cm.take(i as int));
            assert(cm.take(i + 1).last() == self.children@[i as int].model());
            i = i + 1;
            assert(out@.map_values(|n: &DocNode| n.model()) =~= head + find_all_in(cm.take(i as int), kind@));
        }
        assert(cm.take(self.children@.len() as int) =~= cm);
        assert(out@.map_values(|n: &DocNode| n.model()) =~= find_all_model(self.model(), kind@));
        out
    }
}

} // verus!
