//! The typed node tree that the external markup parser produces and the
//! renderer consumes: a tagged union over the document node kinds, with an
//! open-ended bucket for any kind outside the enumerated taxonomy.

use vstd::prelude::*;

verus! {

/// One node of a parsed document tree. Leaf kinds carry literal text or a
/// URL; the other kinds own an ordered sequence of child nodes.
pub enum Node {
    /// Literal text, emitted verbatim.
    Text { value: String },
    /// A heading of rank 1 through 6.
    Heading { depth: u8, children: Vec<Node> },
    /// A paragraph.
    Paragraph { children: Vec<Node> },
    /// A link to a URL.
    Link { url: String, children: Vec<Node> },
    /// An image reference; its URL is emitted, nothing is rendered inside.
    Image { url: String },
    /// A code block; its text is emitted verbatim, never re-parsed.
    Code { value: String },
    /// An unordered list.
    List { children: Vec<Node> },
    /// One item of a list.
    ListItem { children: Vec<Node> },
    /// Emphasised phrasing.
    Emphasis { children: Vec<Node> },
    /// Strong phrasing.
    Strong { children: Vec<Node> },
    /// A block quote.
    BlockQuote { children: Vec<Node> },
    /// A thematic break between sections.
    ThematicBreak,
    /// Raw embedded HTML; kept as data, not part of the rendering table.
    RawHtml { value: String },
    /// A footnote reference mark.
    FootnoteReference,
    /// The definition a footnote reference points at.
    FootnoteDefinition { children: Vec<Node> },
    /// A table.
    Table { children: Vec<Node> },
    /// One row of a table.
    TableRow { children: Vec<Node> },
    /// One cell of a table row.
    TableCell { children: Vec<Node> },
    /// Any node kind outside the enumerated taxonomy.
    Other { children: Vec<Node> },
}

/// The ordered children of a node; empty for the leaf kinds.
pub open spec fn node_children(n: Node) -> Seq<Node> {
    match n {
        Node::Text { .. } => Seq::empty(),
        Node::Heading { children, .. } => children@,
        Node::Paragraph { children } => children@,
        Node::Link { children, .. } => children@,
        Node::Image { .. } => Seq::empty(),
        Node::Code { .. } => Seq::empty(),
        Node::List { children } => children@,
        Node::ListItem { children } => children@,
        Node::Emphasis { children } => children@,
        Node::Strong { children } => children@,
        Node::BlockQuote { children } => children@,
        Node::ThematicBreak => Seq::empty(),
        Node::RawHtml { .. } => Seq::empty(),
        Node::FootnoteReference => Seq::empty(),
        Node::FootnoteDefinition { children } => children@,
        Node::Table { children } => children@,
        Node::TableRow { children } => children@,
        Node::TableCell { children } => children@,
        Node::Other { children } => children@,
    }
}

/// Well-formedness of a node tree: every heading depth lies between 1 and 6.
pub open spec fn wf_node(n: Node) -> bool
    decreases n,
{
    match n {
        Node::Heading { depth, children } => 1 <= depth <= 6 && wf_nodes(children@),
        Node::Paragraph { children } => wf_nodes(children@),
        Node::Link { children, .. } => wf_nodes(children@),
        Node::List { children } => wf_nodes(children@),
        Node::ListItem { children } => wf_nodes(children@),
        Node::Emphasis { children } => wf_nodes(children@),
        Node::Strong { children } => wf_nodes(children@),
        Node::BlockQuote { children } => wf_nodes(children@),
        Node::FootnoteDefinition { children } => wf_nodes(children@),
        Node::Table { children } => wf_nodes(children@),
        Node::TableRow { children } => wf_nodes(children@),
        Node::TableCell { children } => wf_nodes(children@),
        Node::Other { children } => wf_nodes(children@),
        _ => true,
    }
}

/// Well-formedness of a sequence of sibling nodes.
pub open spec fn wf_nodes(s: Seq<Node>) -> bool
    decreases s,
{
    forall|i: int| 0 <= i < s.len() ==> wf_node(#[trigger] s[i])
}

} // verus!
