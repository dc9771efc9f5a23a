//! The document: a flat sequence of text runs, newlines, and section markers
//! that open and close named, nested regions.

use crate::render::{Combine, Render};
use vstd::prelude::*;
use vstd::string::*;

verus! {

/// One item of a document.
#[derive(Debug, Clone)]
pub enum Node {
    Text(String),
    OpenSection(&'static str),
    CloseSection,
    Newline,
}

/// A node with its strings as sequences of characters.
pub enum NodeView {
    Text(Seq<char>),
    OpenSection(Seq<char>),
    CloseSection,
    Newline,
}

impl View for Node {
    type V = NodeView;

    open spec fn view(&self) -> NodeView {
        match self {
            Node::Text(text) => NodeView::Text(text@),
            Node::OpenSection(name) => NodeView::OpenSection(name@),
            Node::CloseSection => NodeView::CloseSection,
            Node::Newline => NodeView::Newline,
        }
    }
}

/// The nodes of a list, each by its view.
pub open spec fn node_views(nodes: Seq<Node>) -> Seq<NodeView> {
    nodes.map_values(|node: Node| node@)
}

/// By how much a node changes the number of open sections.
pub open spec fn depth_change(node: NodeView) -> int {
    match node {
        NodeView::OpenSection(_) => 1,
        NodeView::CloseSection => -1,
        _ => 0,
    }
}

/// The number of sections opened in `nodes` minus the number closed.
pub open spec fn depth(nodes: Seq<NodeView>) -> int
    decreases nodes.len(),
{
    if nodes.len() == 0 {
        0
    } else {
        depth(nodes.drop_last()) + depth_change(nodes.last())
    }
}

/// No prefix of `nodes` closes more sections than it opens.
pub open spec fn never_underflows(nodes: Seq<NodeView>) -> bool {
    forall|k: int| 0 <= k <= nodes.len() ==> depth(#[trigger] nodes.take(k)) >= 0
}

/// Every section that `nodes` opens is closed again, and none is closed
/// before it was opened.
pub open spec fn balanced(nodes: Seq<NodeView>) -> bool {
    &&& never_underflows(nodes)
    &&& depth(nodes) == 0
}

/// `out` is `into` followed by a balanced run of nodes.
pub open spec fn extends_balanced(into: Seq<NodeView>, out: Seq<NodeView>) -> bool {
    &&& into.len() <= out.len()
    &&& out.take(into.len() as int) == into
    &&& balanced(out.skip(into.len() as int))
}

/// The names of the sections that are open after `nodes`, outermost first.
pub open spec fn nesting(nodes: Seq<NodeView>) -> Seq<Seq<char>>
    decreases nodes.len(),
{
    if nodes.len() == 0 {
        Seq::empty()
    } else {
        let before = nesting(nodes.drop_last());
        match nodes.last() {
            NodeView::OpenSection(name) => before.push(name),
            NodeView::CloseSection => before.drop_last(),
            _ => before,
        }
    }
}

/// What a node adds to the plain text of a document.
pub open spec fn node_text(node: NodeView) -> Seq<char> {
    match node {
        NodeView::Text(text) => text,
        NodeView::Newline => seq!['\n'],
        _ => Seq::empty(),
    }
}

/// The text of a document without any styling: its text runs in order, with
/// a line feed for every newline. Sections leave no trace.
pub open spec fn plain_text(nodes: Seq<NodeView>) -> Seq<char>
    decreases nodes.len(),
{
    if nodes.len() == 0 {
        Seq::empty()
    } else {
        plain_text(nodes.drop_last()) + node_text(nodes.last())
    }
}

/// The depth of a concatenation is the sum of the depths.
pub proof fn lemma_depth_concat(a: Seq<NodeView>, b: Seq<NodeView>)
    ensures
        depth(a + b) == depth(a) + depth(b),
    decreases b.len(),
{
    if b.len() == 0 {
        assert(a + b =~= a);
    } else {
        assert((a + b).drop_last() =~= a + b.drop_last());
        lemma_depth_concat(a, b.drop_last());
    }
}

/// A run that never underflows can follow any run that never underflows.
pub proof fn lemma_never_underflows_concat(a: Seq<NodeView>, b: Seq<NodeView>)
    requires
        never_underflows(a),
        depth(a) + lowest(b) >= 0,
    ensures
        never_underflows(a + b),
{
    assert forall|k: int| 0 <= k <= (a + b).len() implies depth(#[trigger] (a + b).take(k))
        >= 0 by {
        if k <= a.len() {
            assert((a + b).take(k) =~= a.take(k));
        } else {
            assert((a + b).take(k) =~= a + b.take(k - a.len()));
            lemma_depth_concat(a, b.take(k - a.len()));
            lemma_lowest(b, k - a.len());
        }
    }
}

/// The least depth that any prefix of `nodes` reaches; at most zero.
pub open spec fn lowest(nodes: Seq<NodeView>) -> int
    decreases nodes.len(),
{
    if nodes.len() == 0 {
        0
    } else {
        let before = lowest(nodes.drop_last());
        if depth(nodes) < before {
            depth(nodes)
        } else {
            before
        }
    }
}

/// `lowest` is a lower bound for the depth of every prefix.
pub proof fn lemma_lowest(nodes: Seq<NodeView>, k: int)
    requires
        0 <= k <= nodes.len(),
    ensures
        lowest(nodes) <= depth(nodes.take(k)),
        lowest(nodes) <= 0,
    decreases nodes.len(),
{
    if nodes.len() == 0 {
        assert(nodes.take(k) =~= nodes);
    } else if k == nodes.len() {
        assert(nodes.take(k) =~= nodes);
        lemma_lowest(nodes.drop_last(), 0);
    } else {
        assert(nodes.take(k) =~= nodes.drop_last().take(k));
        lemma_lowest(nodes.drop_last(), k);
    }
}

/// A run never underflows exactly when its lowest depth is zero.
pub proof fn lemma_never_underflows_lowest(nodes: Seq<NodeView>)
    ensures
        never_underflows(nodes) <==> lowest(nodes) == 0,
    decreases nodes.len(),
{
    if nodes.len() == 0 {
        assert forall|k: int| 0 <= k <= nodes.len() implies depth(#[trigger] nodes.take(k))
            >= 0 by {
            assert(nodes.take(k) =~= nodes);
        }
    } else {
        let before = nodes.drop_last();
        lemma_never_underflows_lowest(before);
        lemma_lowest(nodes, 0);
        if never_underflows(nodes) {
            assert forall|k: int| 0 <= k <= before.len() implies depth(#[trigger] before.take(k))
                >= 0 by {
                assert(before.take(k) =~= nodes.take(k));
            }
            assert(nodes.take(nodes.len() as int) =~= nodes);
        }
        if lowest(nodes) == 0 {
            assert forall|k: int| 0 <= k <= nodes.len() implies depth(#[trigger] nodes.take(k))
                >= 0 by {
                lemma_lowest(nodes, k);
            }
        }
    }
}

/// Two balanced runs in a row are balanced.
pub proof fn lemma_balanced_concat(a: Seq<NodeView>, b: Seq<NodeView>)
    requires
        balanced(a),
        balanced(b),
    ensures
        balanced(a + b),
{
    lemma_never_underflows_lowest(b);
    lemma_never_underflows_concat(a, b);
    lemma_depth_concat(a, b);
}

/// A balanced run between an opening and a closing marker is balanced.
pub proof fn lemma_balanced_section(name: Seq<char>, body: Seq<NodeView>)
    requires
        balanced(body),
    ensures
        balanced(seq![NodeView::OpenSection(name)] + body + seq![NodeView::CloseSection]),
{
    let open = seq![NodeView::OpenSection(name)];
    let close = seq![NodeView::CloseSection];
    lemma_single(NodeView::OpenSection(name));
    lemma_single(NodeView::CloseSection);
    lemma_never_underflows_lowest(body);
    lemma_never_underflows_concat(open, body);
    lemma_depth_concat(open, body);
    lemma_never_underflows_concat(open + body, close);
    lemma_depth_concat(open + body, close);
}

/// A run without section markers is balanced.
pub proof fn lemma_balanced_flat(nodes: Seq<NodeView>)
    requires
        forall|i: int| 0 <= i < nodes.len() ==> depth_change(#[trigger] nodes[i]) == 0,
    ensures
        balanced(nodes),
    decreases nodes.len(),
{
    if nodes.len() == 0 {
        lemma_never_underflows_lowest(nodes);
    } else {
        let before = nodes.drop_last();
        lemma_balanced_flat(before);
        lemma_never_underflows_lowest(before);
        lemma_never_underflows_lowest(nodes);
    }
}

/// The depth and the lowest depth of a single node.
pub proof fn lemma_single(node: NodeView)
    ensures
        depth(seq![node]) == depth_change(node),
        lowest(seq![node]) == if depth_change(node) < 0 {
            depth_change(node)
        } else {
            0
        },
        never_underflows(seq![node]) <==> depth_change(node) >= 0,
{
    let s = seq![node];
    assert(s.drop_last() =~= Seq::<NodeView>::empty());
    assert(depth(s.drop_last()) == 0);
    assert(lowest(s.drop_last()) == 0);
    lemma_never_underflows_lowest(s);
}

/// A balanced run after a balanced document is a balanced document.
pub proof fn lemma_extends_balanced(into: Seq<NodeView>, out: Seq<NodeView>)
    requires
        extends_balanced(into, out),
    ensures
        out == into + out.skip(into.len() as int),
        balanced(into) ==> balanced(out),
        never_underflows(into) ==> never_underflows(out),
        depth(out) == depth(into),
{
    let rest = out.skip(into.len() as int);
    assert(out =~= into + rest);
    lemma_depth_concat(into, rest);
    lemma_never_underflows_lowest(rest);
    if never_underflows(into) {
        assert(into.take(into.len() as int) =~= into);
        lemma_never_underflows_concat(into, rest);
    }
}

/// Extending by a balanced run is transitive.
pub proof fn lemma_extends_balanced_twice(a: Seq<NodeView>, b: Seq<NodeView>, c: Seq<NodeView>)
    requires
        extends_balanced(a, b),
        extends_balanced(b, c),
    ensures
        extends_balanced(a, c),
{
    let first = b.skip(a.len() as int);
    let second = c.skip(b.len() as int);
    assert(b =~= a + first);
    assert(c =~= b + second);
    assert(c.take(a.len() as int) =~= a);
    assert(c.skip(a.len() as int) =~= first + second);
    lemma_balanced_concat(first, second);
}

/// The root of a render tree: an ordered sequence of nodes.
#[derive(Debug, Clone)]
pub struct Document {
    // The inner tree is optional so that empty documents cost nothing.
    tree: Option<Vec<Node>>,
}

impl View for Document {
    type V = Seq<NodeView>;

    closed spec fn view(&self) -> Seq<NodeView> {
        match self.tree {
            None => Seq::empty(),
            Some(nodes) => node_views(nodes@),
        }
    }
}

impl Document {
    /// The document without nodes.
    pub fn empty() -> (r: Document)
        ensures
            r@ == Seq::<NodeView>::empty(),
    {
        Document { tree: None }
    }

    /// The document that `renderable` renders into an empty one.
    pub fn with<R: Render>(renderable: R) -> (out: Document)
        requires
            forall|into: Document| into@.len() == 0 ==> renderable.renders(into),
        ensures
            exists|into: Document| into@.len() == 0 && #[trigger] renderable.rendered(into, out),
    {
        renderable.render(Document::empty())
    }

    /// The nodes of the document, if it has any storage for them.
    pub fn tree(&self) -> (r: Option<&[Node]>)
        ensures
            match r {
                None => self@.len() == 0,
                Some(nodes) => node_views(nodes@) == self@,
            },
    {
        match &self.tree {
            None => None,
            Some(vec) => Some(vec.as_slice()),
        }
    }

    fn initialize_tree(self) -> (r: Vec<Node>)
        ensures
            node_views(r@) == self@,
    {
        match self.tree {
            Some(nodes) => nodes,
            None => {
                let nodes: Vec<Node> = Vec::new();
                assert(node_views(nodes@) =~= Seq::<NodeView>::empty());
                nodes
            },
        }
    }

    /// The document with `renderable` rendered into it.
    pub fn add<R: Render>(self, renderable: R) -> (out: Document)
        requires
            renderable.renders(self),
        ensures
            renderable.rendered(self, out),
    {
        renderable.render(self)
    }

    /// The document with `node` at its end.
    pub fn add_node(self, node: Node) -> (out: Document)
        ensures
            out@ == self@.push(node@),
    {
        let mut nodes = self.initialize_tree();
        nodes.push(node);
        assert(node_views(nodes@) =~= self@.push(node@));
        Document { tree: Some(nodes) }
    }

    /// The document with the nodes of `other` at its end.
    pub fn extend_nodes(self, other: Vec<Node>) -> (out: Document)
        ensures
            out@ == self@ + node_views(other@),
    {
        if other.len() > 0 {
            let mut tree = self.initialize_tree();
            let mut rest = other;
            tree.append(&mut rest);
            assert(node_views(tree@) =~= self@ + node_views(other@));
            Document { tree: Some(tree) }
        } else {
            assert(self@ + node_views(other@) =~= self@);
            self
        }
    }

    /// The document with the nodes of `fragment` at its end.
    pub fn extend(self, fragment: Document) -> (out: Document)
        ensures
            out@ == self@ + fragment@,
    {
        match (&self.tree, fragment.tree) {
            (Some(_), Some(nodes)) => self.extend_nodes(nodes),
            (Some(_), None) => {
                assert(self@ + fragment@ =~= self@);
                self
            },
            (None, Some(nodes)) => {
                let out = Document { tree: Some(nodes) };
                assert(self@ + fragment@ =~= out@);
                out
            },
            (None, None) => {
                assert(self@ + fragment@ =~= self@);
                self
            },
        }
    }

    /// Whether no prefix of the document closes more sections than it
    /// opens.
    pub fn never_underflows(&self) -> (b: bool)
        ensures
            b == never_underflows(self@),
    {
        let (lowest, _) = self.depths();
        proof {
            lemma_never_underflows_lowest(self@);
        }
        lowest == 0
    }

    /// Whether every section of the document is opened before it is closed,
    /// and closed.
    pub fn is_balanced(&self) -> (b: bool)
        ensures
            b == balanced(self@),
    {
        let (lowest, depth) = self.depths();
        proof {
            lemma_never_underflows_lowest(self@);
        }
        lowest == 0 && depth == 0
    }

    /// The lowest depth that a prefix reaches, and the depth at the end.
    fn depths(&self) -> (r: (i128, i128))
        ensures
            r.0 == lowest(self@),
            r.1 == depth(self@),
    {
        let nodes = match &self.tree {
            None => {
                return (0, 0);
            },
            Some(nodes) => nodes,
        };
        let ghost views = node_views(nodes@);
        let mut lowest_so_far: i128 = 0;
        let mut depth_so_far: i128 = 0;
        let mut i: usize = 0;
        assert(views.take(0) =~= Seq::<NodeView>::empty());
        while i < nodes.len()
            invariant
                views == node_views(nodes@),
                i <= nodes.len(),
                depth_so_far == depth(views.take(i as int)),
                lowest_so_far == lowest(views.take(i as int)),
                -(i as int) <= depth_so_far <= i as int,
                -(i as int) <= lowest_so_far <= 0,
            decreases nodes.len() - i,
        {
            proof {
                assert(views.take(i + 1).drop_last() =~= views.take(i as int));
                assert(views.take(i + 1).last() == nodes@[i as int]@);
            }
            match &nodes[i] {
                Node::OpenSection(_) => {
                    depth_so_far = depth_so_far + 1;
                },
                Node::CloseSection => {
                    depth_so_far = depth_so_far - 1;
                },
                _ => {},
            }
            if depth_so_far < lowest_so_far {
                lowest_so_far = depth_so_far;
            }
            i += 1;
        }
        assert(views.take(nodes.len() as int) =~= views);
        (lowest_so_far, depth_so_far)
    }
}

/// The two renderables in sequence.
pub fn add<Left: Render, Right: Render>(left: Left, right: Right) -> (r: Combine<Left, Right>)
    ensures
        r.left == left,
        r.right == right,
{
    Combine { left, right }
}

} // verus!
