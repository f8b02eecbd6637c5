//! The bridge to the external markup parser: parses a document body into the
//! library's node tree and renders it to an HTML fragment. Only the parse
//! call and the arm-by-arm conversion of the parser's node type are trusted;
//! the rendering is verified.

use vstd::prelude::*;
use crate::node::{wf_node, Node};
use crate::render::{process_node, render_doc};
use markdown::mdast::Node as MdNode;

verus! {

/// The external parser's node type, opaque to verification; values of it
/// are converted to [`Node`] immediately after parsing.
#[verifier::external_type_specification]
#[verifier::external_body]
pub struct ExMdNode(MdNode);

/// The node tree that the external markup parser produces for a given text.
/// The parse is a pure function of the text alone, so its result can be
/// named; no contract states what the tree is for a given text.
pub uninterp spec fn md_tree(s: Seq<char>) -> Node;

/// Relies on `markdown::to_mdast`: parsing is deterministic in the input
/// text; it cannot fail with the default (non-MDX) parse options, which its
/// documentation states in as many words; and every heading it produces has
/// a rank between 1 and 6, as documented on `mdast::Heading`. The returned
/// tree is rebuilt as the library's own node type by `from_mdast`.
#[verifier::external_body]
fn parse_markdown(md: &str) -> (r: Result<Node, ()>)
    ensures
        r is Ok,
        r matches Ok(t) ==> t == md_tree(md@) && wf_node(t),
{
    match markdown::to_mdast(md, &markdown::ParseOptions::default()) {
        Ok(root) => Ok(from_mdast(&root)),
        Err(_) => Err(()),
    }
}

/// Relies on the variant layout of `markdown::mdast::Node`: each arm moves
/// the fields of one parser variant into the library node kind of the same
/// meaning; container variants are finished by `from_parent`.
#[verifier::external_body]
fn from_mdast(n: &MdNode) -> Node {
    match n {
        MdNode::Text(x) => Node::Text { value: x.value.clone() },
        MdNode::Code(x) => Node::Code { value: x.value.clone() },
        MdNode::Html(x) => Node::RawHtml { value: x.value.clone() },
        MdNode::Image(x) => Node::Image { url: x.url.clone() },
        MdNode::ThematicBreak(_) => Node::ThematicBreak,
        MdNode::FootnoteReference(_) => Node::FootnoteReference,
        MdNode::Heading(x) => Node::Heading { depth: x.depth, children: from_children(n) },
        MdNode::Link(x) => Node::Link { url: x.url.clone(), children: from_children(n) },
        _ => from_parent(n),
    }
}

/// Relies on the variant layout of `markdown::mdast::Node`, as `from_mdast`
/// does, for the variants that only carry children.
#[verifier::external_body]
fn from_parent(n: &MdNode) -> Node {
    let children = from_children(n);
    match n {
        MdNode::Paragraph(_) => Node::Paragraph { children },
        MdNode::List(_) => Node::List { children },
        MdNode::ListItem(_) => Node::ListItem { children },
        MdNode::Emphasis(_) => Node::Emphasis { children },
        MdNode::Strong(_) => Node::Strong { children },
        MdNode::Blockquote(_) => Node::BlockQuote { children },
        MdNode::FootnoteDefinition(_) => Node::FootnoteDefinition { children },
        MdNode::Table(_) => Node::Table { children },
        MdNode::TableRow(_) => Node::TableRow { children },
        MdNode::TableCell(_) => Node::TableCell { children },
        _ => Node::Other { children },
    }
}

/// Relies on `markdown::mdast::Node::children`: hands back the node's child
/// list, or nothing for a leaf; each child is converted by `from_mdast`.
#[verifier::external_body]
fn from_children(n: &MdNode) -> Vec<Node> {
    match n.children() {
        Some(v) => v.iter().map(from_mdast).collect(),
        None => Vec::new(),
    }
}

/// Renders one document body to its HTML fragment: the text is parsed by
/// the external markup parser and the resulting tree is rendered by
/// [`process_node`]. With the default parse options the parser cannot fail,
/// so the result is always `Ok`.
pub fn generate_adr_html(md: &str) -> (r: Result<String, &'static str>)
    ensures
        r is Ok,
        r matches Ok(html) ==> html@ == render_doc(md_tree(md@)),
{
    match parse_markdown(md) {
        Ok(tree) => {
            let mut result = String::new();
            process_node(&mut result, &tree);
            proof {
                assert(result@ =~= render_doc(md_tree(md@)));
            }
            Ok(result)
        },
        Err(_) => Err("Error while parsing md file"),
    }
}

} // verus!
