//! A document tree read from HTML markup: tags with the attributes the reader
//! looks at, text runs and comments, held in a flat arena of nodes that refer
//! to their children by index.
use crate::text::{push_str, utf8_len};
use vstd::prelude::*;

verus! {

#[verifier::external_type_specification]
#[verifier::external_body]
pub struct ExTlNode<'a>(tl::Node<'a>);

#[verifier::external_type_specification]
#[verifier::external_body]
pub struct ExTlAttributes<'a>(tl::Attributes<'a>);

/// The attributes of a tag that the reader consults; `None` where the tag
/// lacks the attribute or gives it no value.
#[derive(Debug, Clone)]
pub struct TagAttrs {
    pub id: Option<String>,
    pub class: Option<String>,
    pub href: Option<String>,
    pub title: Option<String>,
    pub alt: Option<String>,
    pub src: Option<String>,
    pub colspan: Option<String>,
    pub rowspan: Option<String>,
}

/// One node of the tree.
#[derive(Debug, Clone)]
pub enum HtmlNode {
    /// An element, its attributes and the indices of its child nodes.
    Tag { name: String, attrs: TagAttrs, children: Vec<usize> },
    /// A run of text, as written in the markup (entities not decoded).
    Text(String),
    Comment,
}

/// A parsed document: every node in document order, and the top-level ones.
#[derive(Debug, Clone)]
pub struct HtmlDom {
    pub nodes: Vec<HtmlNode>,
    pub roots: Vec<usize>,
}

/// The tree that `tl::parse` builds from this markup.
pub uninterp spec fn html_dom(html: Seq<char>) -> Option<HtmlDom>;

/// `Attributes::get` of `tl`, without the distinction between a missing
/// attribute and one without a value. Only `parse_markup` uses it, to
/// convert its result; it claims nothing.
#[verifier::external_body]
fn attr_value(attrs: &tl::Attributes, key: &'static str) -> Option<String> {
    attrs.get(key).flatten().map(|b| b.as_utf8_str().into_owned())
}

/// The attributes of a `tl` tag, field by field: part of converting
/// `parse_markup`'s result; it claims nothing.
#[verifier::external_body]
fn tag_attrs(attrs: &tl::Attributes) -> TagAttrs {
    TagAttrs {
        id: attr_value(attrs, "id"),
        class: attr_value(attrs, "class"),
        href: attr_value(attrs, "href"),
        title: attr_value(attrs, "title"),
        alt: attr_value(attrs, "alt"),
        src: attr_value(attrs, "src"),
        colspan: attr_value(attrs, "colspan"),
        rowspan: attr_value(attrs, "rowspan"),
    }
}

/// A `tl` node as a plain node: tag name, attributes and child handles, or
/// the text of a raw run (lossily decoded as UTF-8): part of converting
/// `parse_markup`'s result; it claims nothing.
#[verifier::external_body]
fn convert_node(node: &tl::Node) -> HtmlNode {
    match node {
        tl::Node::Tag(t) => HtmlNode::Tag {
            name: t.name().as_utf8_str().into_owned(),
            attrs: tag_attrs(t.attributes()),
            children: t.children().top().iter().map(|h| h.get_inner() as usize).collect(),
        },
        tl::Node::Raw(b) => HtmlNode::Text(b.as_utf8_str().into_owned()),
        tl::Node::Comment(_) => HtmlNode::Comment,
    }
}

/// `tl::parse` with default options. Its result is a function of the markup;
/// `tl` refuses only markup longer than `u32::MAX` bytes.
#[verifier::external_body]
fn parse_markup(html: &str) -> (r: Option<HtmlDom>)
    ensures
        r == html_dom(html@),
        utf8_len(html@) <= u32::MAX ==> r is Some,
{
    let dom = tl::parse(html, tl::ParserOptions::default()).ok()?;
    let nodes = dom.nodes().iter().map(convert_node).collect();
    let roots = dom.children().iter().map(|h| h.get_inner() as usize).collect();
    Some(HtmlDom { nodes, roots })
}

/// The node at index `i`, if there is one.
pub open spec fn node_at(d: HtmlDom, i: int) -> Option<HtmlNode> {
    if 0 <= i < d.nodes@.len() {
        Some(d.nodes@[i])
    } else {
        None
    }
}

/// The text under node `i`: its own text, or that of its children in order,
/// down to `depth` levels of tags (the whole subtree once `depth` reaches the
/// number of nodes).
pub open spec fn inner_text(d: HtmlDom, i: int, depth: nat) -> Seq<char>
    decreases depth, 0int,
{
    match node_at(d, i) {
        Some(HtmlNode::Text(t)) => t@,
        Some(HtmlNode::Tag { children, .. }) => if depth == 0 {
            seq![]
        } else {
            texts_of(d, children@, children@.len() as int, (depth - 1) as nat)
        },
        _ => seq![],
    }
}

/// The text under the first `n` of `kids`, one after another.
pub open spec fn texts_of(d: HtmlDom, kids: Seq<usize>, n: int, depth: nat) -> Seq<char>
    decreases depth, n,
{
    if n <= 0 || n > kids.len() {
        seq![]
    } else {
        texts_of(d, kids, n - 1, depth) + inner_text(d, kids[n - 1] as int, depth)
    }
}

impl HtmlDom {
    /// Reads markup into a tree (`None` only for markup over `u32::MAX` bytes).
    pub fn parse(html: &str) -> (r: Option<HtmlDom>)
        ensures
            r == html_dom(html@),
            utf8_len(html@) <= u32::MAX ==> r is Some,
    {
        parse_markup(html)
    }

    fn push_text(&self, i: usize, depth: usize, out: &mut String)
        ensures
            final(out)@ == old(out)@ + inner_text(*self, i as int, depth as nat),
        decreases depth, 0usize,
    {
        if i >= self.nodes.len() {
            assert(old(out)@ + seq![] =~= old(out)@);
            return;
        }
        match &self.nodes[i] {
            HtmlNode::Text(t) => {
                push_str(out, t.as_str());
            },
            HtmlNode::Tag { children, .. } => {
                if depth == 0 {
                    assert(old(out)@ + seq![] =~= old(out)@);
                    return;
                }
                let ghost start = out@;
                let mut k: usize = 0;
                assert(start + texts_of(*self, children@, 0, (depth - 1) as nat) =~= start);
                while k < children.len()
                    invariant
                        k <= children.len(),
                        self.nodes@[i as int] == (HtmlNode::Tag { name: self.nodes@[i as int]->name, attrs: self.nodes@[i as int]->attrs, children: *children }),
                        depth > 0,
                        out@ == start + texts_of(*self, children@, k as int, (depth - 1) as nat),
                    decreases children.len() - k,
                {
                    self.push_text(children[k], depth - 1, out);
                    assert(texts_of(*self, children@, k + 1, (depth - 1) as nat) == texts_of(
                        *self,
                        children@,
                        k as int,
                        (depth - 1) as nat,
                    ) + inner_text(*self, children@[k as int] as int, (depth - 1) as nat));
                    assert(start + texts_of(*self, children@, k + 1, (depth - 1) as nat) =~= (start
                        + texts_of(*self, children@, k as int, (depth - 1) as nat)) + inner_text(
                        *self,
                        children@[k as int] as int,
                        (depth - 1) as nat,
                    ));
                    k += 1;
                }
            },
            HtmlNode::Comment => {
                assert(old(out)@ + seq![] =~= old(out)@);
            },
        }
    }

    /// The text under node `i` (`HTMLTag::inner_text`): text runs in document
    /// order, comments left out; empty for an index out of range.
    pub fn inner_text(&self, i: usize) -> (r: String)
        ensures
            r@ == inner_text(*self, i as int, self.nodes@.len()),
    {
        let mut out = String::new();
        self.push_text(i, self.nodes.len(), &mut out);
        assert(seq![] + inner_text(*self, i as int, self.nodes@.len()) =~= inner_text(
            *self,
            i as int,
            self.nodes@.len(),
        ));
        out
    }
}

} // verus!
