//! The HTML renderer: a pure fold from a node tree to an HTML fragment
//! string, by recursive descent over the dispatch table of node kinds.

use vstd::prelude::*;
use vstd::string::StringExecFns;
use crate::node::{node_children, wf_node, wf_nodes, Node};

verus! {

/// The opening tag of a heading of the given rank.
pub open spec fn heading_open(d: u8) -> Seq<char> {
    if d == 1 {
        "<h1>"@
    } else if d == 2 {
        "<h2>"@
    } else if d == 3 {
        "<h3>"@
    } else if d == 4 {
        "<h4>"@
    } else if d == 5 {
        "<h5>"@
    } else {
        "<h6>"@
    }
}

/// The closing tag of a heading of the given rank.
pub open spec fn heading_close(d: u8) -> Seq<char> {
    if d == 1 {
        "</h1>"@
    } else if d == 2 {
        "</h2>"@
    } else if d == 3 {
        "</h3>"@
    } else if d == 4 {
        "</h4>"@
    } else if d == 5 {
        "</h5>"@
    } else {
        "</h6>"@
    }
}

/// The HTML emitted for one node: its wrapper tags around the rendering of
/// its children, per the dispatch table; leaf kinds emit their text or URL.
/// Kinds outside the table fall back to a `<pre>` wrapper, so rendering is
/// total over the open-ended taxonomy.
pub open spec fn render_node(n: Node) -> Seq<char>
    decreases n,
{
    match n {
        Node::Text { value } => value@,
        Node::Heading { depth, children } => heading_open(depth) + render_nodes(children@)
            + heading_close(depth),
        Node::Paragraph { children } => "<p>"@ + render_nodes(children@) + "</p>"@,
        Node::Link { url, children } => "<a href=\""@ + url@ + "\">"@ + render_nodes(children@)
            + "</a>"@,
        Node::Image { url } => "<img src=\""@ + url@ + "\">"@,
        Node::Code { value } => "<code>"@ + value@ + "</code>"@,
        Node::List { children } => "<ul>"@ + render_nodes(children@) + "</ul>"@,
        Node::ListItem { children } => "<li>"@ + render_nodes(children@) + "</li>"@,
        Node::Emphasis { children } => "<span class=\"fst-italic\">"@ + render_nodes(children@)
            + "</span>"@,
        Node::Strong { children } => "<strong>"@ + render_nodes(children@) + "</strong>"@,
        Node::BlockQuote { children } => "<blockquote class=\"blockquote\">"@ + render_nodes(
            children@,
        ) + "</blockquote>"@,
        Node::ThematicBreak => "<hr>"@,
        Node::RawHtml { .. } => "<pre>"@ + "</pre>"@,
        Node::FootnoteReference => "<pre>"@ + "</pre>"@,
        Node::FootnoteDefinition { children } => "<pre>"@ + render_nodes(children@) + "</pre>"@,
        Node::Table { children } => "<pre>"@ + render_nodes(children@) + "</pre>"@,
        Node::TableRow { children } => "<pre>"@ + render_nodes(children@) + "</pre>"@,
        Node::TableCell { children } => "<pre>"@ + render_nodes(children@) + "</pre>"@,
        Node::Other { children } => "<pre>"@ + render_nodes(children@) + "</pre>"@,
    }
}

/// The HTML emitted for a sequence of sibling nodes, in order.
pub open spec fn render_nodes(s: Seq<Node>) -> Seq<char>
    decreases s,
{
    if s.len() == 0 {
        Seq::empty()
    } else {
        render_node(s[0]) + render_nodes(s.drop_first())
    }
}

/// The HTML fragment of a whole document: the rendering of the root's
/// children (the root node itself carries no wrapper).
pub open spec fn render_doc(root: Node) -> Seq<char> {
    render_nodes(node_children(root))
}

/// Rendering distributes over concatenation of sibling sequences.
pub proof fn lemma_render_nodes_app(a: Seq<Node>, b: Seq<Node>)
    ensures
        render_nodes(a + b) == render_nodes(a) + render_nodes(b),
    decreases a,
{
    if a.len() == 0 {
        assert(a + b =~= b);
        assert(render_nodes(a) + render_nodes(b) =~= render_nodes(b));
    } else {
        assert((a + b).drop_first() =~= a.drop_first() + b);
        lemma_render_nodes_app(a.drop_first(), b);
        assert((a + b)[0] == a[0]);
        assert(render_node(a[0]) + (render_nodes(a.drop_first()) + render_nodes(b)) =~= (
        render_node(a[0]) + render_nodes(a.drop_first())) + render_nodes(b));
    }
}

/// Appending one node to a sibling prefix appends its rendering.
pub proof fn lemma_render_nodes_snoc(s: Seq<Node>, i: int)
    requires
        0 <= i < s.len(),
    ensures
        render_nodes(s.take(i + 1)) == render_nodes(s.take(i)) + render_node(s[i]),
{
    assert(s.take(i + 1) =~= s.take(i) + seq![s[i]]);
    lemma_render_nodes_app(s.take(i), seq![s[i]]);
    assert(seq![s[i]].drop_first() =~= Seq::<Node>::empty());
    assert(render_nodes(Seq::<Node>::empty()) == Seq::<char>::empty());
    assert(seq![s[i]].len() == 1);
    assert(seq![s[i]][0] == s[i]);
    assert(render_nodes(seq![s[i]]) == render_node(s[i]) + Seq::<char>::empty());
    assert(render_node(s[i]) + Seq::<char>::empty() =~= render_node(s[i]));
}

/// Whether a node kind renders as an opening wrapper, its children, and a
/// closing wrapper; only the leaf kinds that emit bare text or a URL do not.
pub open spec fn has_wrapper(n: Node) -> bool {
    match n {
        Node::Text { .. } => false,
        Node::Image { .. } => false,
        Node::Code { .. } => false,
        Node::ThematicBreak => false,
        _ => true,
    }
}

/// The opening wrapper of a node kind that has one.
pub open spec fn wrapper_open(n: Node) -> Seq<char> {
    match n {
        Node::Heading { depth, .. } => heading_open(depth),
        Node::Paragraph { .. } => "<p>"@,
        Node::Link { url, .. } => "<a href=\""@ + url@ + "\">"@,
        Node::List { .. } => "<ul>"@,
        Node::ListItem { .. } => "<li>"@,
        Node::Emphasis { .. } => "<span class=\"fst-italic\">"@,
        Node::Strong { .. } => "<strong>"@,
        Node::BlockQuote { .. } => "<blockquote class=\"blockquote\">"@,
        _ => "<pre>"@,
    }
}

/// The closing wrapper of a node kind that has one.
pub open spec fn wrapper_close(n: Node) -> Seq<char> {
    match n {
        Node::Heading { depth, .. } => heading_close(depth),
        Node::Paragraph { .. } => "</p>"@,
        Node::Link { .. } => "</a>"@,
        Node::List { .. } => "</ul>"@,
        Node::ListItem { .. } => "</li>"@,
        Node::Emphasis { .. } => "</span>"@,
        Node::Strong { .. } => "</strong>"@,
        Node::BlockQuote { .. } => "</blockquote>"@,
        _ => "</pre>"@,
    }
}

/// Law: a wrapper kind with zero children renders as an empty-inner wrapper
/// pair, nothing more.
pub proof fn lemma_render_empty_wrapper(n: Node)
    requires
        has_wrapper(n),
        node_children(n).len() == 0,
    ensures
        render_node(n) == wrapper_open(n) + wrapper_close(n),
{
    assert(render_nodes(node_children(n)) =~= Seq::empty());
    assert(render_node(n) =~= wrapper_open(n) + wrapper_close(n));
}

/// Whether a node kind stands outside the explicit dispatch table; such
/// kinds share the fallback rendering.
pub open spec fn is_fallback_kind(n: Node) -> bool {
    match n {
        Node::RawHtml { .. } => true,
        Node::FootnoteReference => true,
        Node::FootnoteDefinition { .. } => true,
        Node::Table { .. } => true,
        Node::TableRow { .. } => true,
        Node::TableCell { .. } => true,
        Node::Other { .. } => true,
        _ => false,
    }
}

/// Law: every node kind outside the dispatch table renders as its children
/// wrapped in a `<pre>` pair, so rendering covers the whole open-ended
/// taxonomy.
pub proof fn lemma_render_fallback(n: Node)
    requires
        is_fallback_kind(n),
    ensures
        render_node(n) == "<pre>"@ + render_nodes(node_children(n)) + "</pre>"@,
{
    assert(render_node(n) =~= "<pre>"@ + render_nodes(node_children(n)) + "</pre>"@);
}

/// Appends the rendering of the children of `node` to `result`: the wrapper
/// tags around each child, by recursive descent. This is the whole-document
/// entry point; the node's own kind emits nothing here.
pub fn process_node(result: &mut String, node: &Node)
    requires
        wf_node(*node),
    ensures
        final(result)@ == old(result)@ + render_nodes(node_children(*node)),
{
    match node {
        Node::Heading { children, .. } => render_nodes_into(result, children),
        Node::Paragraph { children } => render_nodes_into(result, children),
        Node::Link { children, .. } => render_nodes_into(result, children),
        Node::List { children } => render_nodes_into(result, children),
        Node::ListItem { children } => render_nodes_into(result, children),
        Node::Emphasis { children } => render_nodes_into(result, children),
        Node::Strong { children } => render_nodes_into(result, children),
        Node::BlockQuote { children } => render_nodes_into(result, children),
        Node::FootnoteDefinition { children } => render_nodes_into(result, children),
        Node::Table { children } => render_nodes_into(result, children),
        Node::TableRow { children } => render_nodes_into(result, children),
        Node::TableCell { children } => render_nodes_into(result, children),
        Node::Other { children } => render_nodes_into(result, children),
        _ => {
            proof {
                assert(result@ =~= result@ + render_nodes(node_children(*node)));
            }
        },
    }
}

/// Appends the rendering of each node of `nodes`, in order.
fn render_nodes_into(result: &mut String, nodes: &Vec<Node>)
    requires
        wf_nodes(nodes@),
    ensures
        final(result)@ == old(result)@ + render_nodes(nodes@),
    decreases nodes@,
{
    let n = nodes.len();
    proof {
        assert(result@ =~= result@ + render_nodes(nodes@.take(0)));
    }
    let mut i: usize = 0;
    while i < n
        invariant
            n == nodes@.len(),
            i <= n,
            wf_nodes(nodes@),
            result@ == old(result)@ + render_nodes(nodes@.take(i as int)),
        decreases n - i,
    {
        proof {
            assert(decreases_to!(nodes@ => nodes@[i as int]));
        }
        render_node_into(result, &nodes[i]);
        proof {
            lemma_render_nodes_snoc(nodes@, i as int);
        }
        i = i + 1;
    }
    proof {
        assert(nodes@.take(n as int) =~= nodes@);
    }
}

/// Appends the rendering of one node: its wrapper per the dispatch table,
/// with its children rendered between the tags.
fn render_node_into(result: &mut String, node: &Node)
    requires
        wf_node(*node),
    ensures
        final(result)@ == old(result)@ + render_node(*node),
    decreases *node,
{
    match node {
        Node::Text { value } => {
            result.append(value.as_str());
        },
        Node::Heading { depth, children } => {
            append_heading_open(result, *depth);
            render_nodes_into(result, children);
            append_heading_close(result, *depth);
            proof {
                assert(result@ =~= old(result)@ + render_node(*node));
            }
        },
        Node::Paragraph { children } => {
            result.append("<p>");
            render_nodes_into(result, children);
            result.append("</p>");
            proof {
                assert(result@ =~= old(result)@ + render_node(*node));
            }
        },
        Node::Link { url, children } => {
            result.append("<a href=\"");
            result.append(url.as_str());
            result.append("\">");
            render_nodes_into(result, children);
            result.append("</a>");
            proof {
                assert(result@ =~= old(result)@ + render_node(*node));
            }
        },
        Node::Image { url } => {
            result.append("<img src=\"");
            result.append(url.as_str());
            result.append("\">");
            proof {
                assert(result@ =~= old(result)@ + render_node(*node));
            }
        },
        Node::Code { value } => {
            result.append("<code>");
            result.append(value.as_str());
            result.append("</code>");
            proof {
                assert(result@ =~= old(result)@ + render_node(*node));
            }
        },
        Node::List { children } => {
            result.append("<ul>");
            render_nodes_into(result, children);
            result.append("</ul>");
            proof {
                assert(result@ =~= old(result)@ + render_node(*node));
            }
        },
        Node::ListItem { children } => {
            result.append("<li>");
            render_nodes_into(result, children);
            result.append("</li>");
            proof {
                assert(result@ =~= old(result)@ + render_node(*node));
            }
        },
        Node::Emphasis { children } => {
            result.append("<span class=\"fst-italic\">");
            render_nodes_into(result, children);
            result.append("</span>");
            proof {
                assert(result@ =~= old(result)@ + render_node(*node));
            }
        },
        Node::Strong { children } => {
            result.append("<strong>");
            render_nodes_into(result, children);
            result.append("</strong>");
            proof {
                assert(result@ =~= old(result)@ + render_node(*node));
            }
        },
        Node::BlockQuote { children } => {
            result.append("<blockquote class=\"blockquote\">");
            render_nodes_into(result, children);
            result.append("</blockquote>");
            proof {
                assert(result@ =~= old(result)@ + render_node(*node));
            }
        },
        Node::ThematicBreak => {
            result.append("<hr>");
        },
        Node::RawHtml { .. } => {
            result.append("<pre>");
            result.append("</pre>");
            proof {
                assert(result@ =~= old(result)@ + render_node(*node));
            }
        },
        Node::FootnoteReference => {
            result.append("<pre>");
            result.append("</pre>");
            proof {
                assert(result@ =~= old(result)@ + render_node(*node));
            }
        },
        Node::FootnoteDefinition { children } => {
            result.append("<pre>");
            render_nodes_into(result, children);
            result.append("</pre>");
            proof {
                assert(result@ =~= old(result)@ + render_node(*node));
            }
        },
        Node::Table { children } => {
            result.append("<pre>");
            render_nodes_into(result, children);
            result.append("</pre>");
            proof {
                assert(result@ =~= old(result)@ + render_node(*node));
            }
        },
        Node::TableRow { children } => {
            result.append("<pre>");
            render_nodes_into(result, children);
            result.append("</pre>");
            proof {
                assert(result@ =~= old(result)@ + render_node(*node));
            }
        },
        Node::TableCell { children } => {
            result.append("<pre>");
            render_nodes_into(result, children);
            result.append("</pre>");
            proof {
                assert(result@ =~= old(result)@ + render_node(*node));
            }
        },
        Node::Other { children } => {
            result.append("<pre>");
            render_nodes_into(result, children);
            result.append("</pre>");
            proof {
                assert(result@ =~= old(result)@ + render_node(*node));
            }
        },
    }
}

/// Appends the opening heading tag of the given rank.
fn append_heading_open(result: &mut String, d: u8)
    requires
        1 <= d <= 6,
    ensures
        final(result)@ == old(result)@ + heading_open(d),
{
    if d == 1 {
        result.append("<h1>");
    } else if d == 2 {
        result.append("<h2>");
    } else if d == 3 {
        result.append("<h3>");
    } else if d == 4 {
        result.append("<h4>");
    } else if d == 5 {
        result.append("<h5>");
    } else {
        result.append("<h6>");
    }
}

/// Appends the closing heading tag of the given rank.
fn append_heading_close(result: &mut String, d: u8)
    requires
        1 <= d <= 6,
    ensures
        final(result)@ == old(result)@ + heading_close(d),
{
    if d == 1 {
        result.append("</h1>");
    } else if d == 2 {
        result.append("</h2>");
    } else if d == 3 {
        result.append("</h3>");
    } else if d == 4 {
        result.append("</h4>");
    } else if d == 5 {
        result.append("</h5>");
    } else {
        result.append("</h6>");
    }
}

} // verus!
