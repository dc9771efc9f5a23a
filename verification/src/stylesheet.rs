//! The stylesheet: a trie of selector segments whose nodes may hold a style,
//! with insertion of rules and lookup of the style for a section path.
//!
//! Lookup merges the styles of every rule that matches the path. Where two
//! rules declare the same attribute, a literal name beats a star and a star
//! beats a glob; attributes that only a weaker rule declares show through.

use crate::selector::{IntoSelector, Segment, SegmentView};
use crate::style::{IntoStyle, Style, StyleView};
use vstd::prelude::*;
use vstd::slice::*;

verus! {

/// A stylesheet as a tree: one node for every prefix of a rule's selector.
pub struct Trie {
    /// The segment that leads to this node.
    pub segment: SegmentView,
    /// The nodes one segment further.
    pub children: Seq<Trie>,
    /// The style of the rule whose selector ends here, if there is one.
    pub style: Option<StyleView>,
}

/// Merges two optional styles. Absence is the identity; where both are
/// present, `right` is merged over `left`.
pub open spec fn union_spec(left: Option<StyleView>, right: Option<StyleView>) -> Option<
    StyleView,
> {
    match (left, right) {
        (None, None) => None,
        (Some(left), None) => Some(left),
        (None, Some(right)) => Some(right),
        (Some(left), Some(right)) => Some(left.union(right)),
    }
}

/// The position of the first node of `children` that `segment` leads to.
pub open spec fn child_index(children: Seq<Trie>, segment: SegmentView) -> Option<int>
    decreases children.len(),
{
    if children.len() == 0 {
        None
    } else if children[0].segment == segment {
        Some(0)
    } else {
        match child_index(children.drop_first(), segment) {
            Some(i) => Some(i + 1),
            None => None,
        }
    }
}

/// The path of sections that a lookup is made for.
pub open spec fn path_view(names: Seq<&'static str>) -> Seq<Seq<char>> {
    names.map_values(|name: &'static str| name@)
}

impl Trie {
    /// A node for `segment` without children or style.
    pub open spec fn leaf(segment: SegmentView) -> Trie {
        Trie { segment, children: Seq::empty(), style: None }
    }

    /// The empty stylesheet.
    pub open spec fn root() -> Trie {
        Trie::leaf(SegmentView::Root)
    }

    /// The child that `segment` leads to.
    pub open spec fn child(self, segment: SegmentView) -> Option<Trie> {
        match child_index(self.children, segment) {
            Some(i) => if 0 <= i < self.children.len() {
                Some(self.children[i])
            } else {
                None
            },
            None => None,
        }
    }

    /// No two children of a node are led to by the same segment, anywhere in
    /// the tree.
    pub open spec fn well_formed(self) -> bool
        decreases self,
    {
        &&& forall|i: int, j: int|
            0 <= i < j < self.children.len() ==> (#[trigger] self.children[i]).segment != (
            #[trigger] self.children[j]).segment
        &&& forall|i: int|
            0 <= i < self.children.len() ==> (#[trigger] self.children[i]).well_formed()
    }

    /// The tree with the rule `selector` → `style` added. The nodes along
    /// `selector` are made where they are missing, and the last one gets
    /// `style` in place of whatever it held.
    pub open spec fn insert(self, selector: Seq<SegmentView>, style: StyleView) -> Trie
        decreases selector.len(),
    {
        if selector.len() == 0 {
            Trie { style: Some(style), ..self }
        } else {
            let first = selector[0];
            let rest = selector.drop_first();
            match child_index(self.children, first) {
                Some(i) => Trie {
                    children: self.children.update(i, self.children[i].insert(rest, style)),
                    ..self
                },
                None => Trie {
                    children: self.children.push(Trie::leaf(first).insert(rest, style)),
                    ..self
                },
            }
        }
    }

    /// The style stored for exactly the selector `selector`.
    pub open spec fn declared(self, selector: Seq<SegmentView>) -> Option<StyleView>
        decreases selector.len(),
    {
        if selector.len() == 0 {
            self.style
        } else {
            match self.child(selector[0]) {
                Some(child) => child.declared(selector.drop_first()),
                None => None,
            }
        }
    }

    /// The node whose style answers a path that ends at this node: the glob
    /// child if there is one, this node if it has no children at all, and
    /// none otherwise.
    pub open spec fn terminal(self) -> Option<Trie> {
        match self.child(SegmentView::Glob) {
            Some(glob) => Some(glob),
            None => if self.children.len() == 0 {
                Some(self)
            } else {
                None
            },
        }
    }

    /// What a glob contributes for the next name: a glob node absorbs the
    /// name and stays; a node with a glob child enters it without consuming
    /// the name.
    pub open spec fn find_glob(self, names: Seq<Seq<char>>) -> Option<StyleView>
        recommends
            names.len() > 0,
        decreases names.len(), self, 0nat,
    {
        if names.len() == 0 {
            None
        } else if self.segment is Glob {
            self.find(names.drop_first())
        } else {
            match child_index(self.children, SegmentView::Glob) {
                Some(i) => if 0 <= i < self.children.len() {
                    self.children[i].find(names)
                } else {
                    None
                },
                None => None,
            }
        }
    }

    /// What a star contributes: it consumes exactly one name.
    pub open spec fn find_star(self, names: Seq<Seq<char>>) -> Option<StyleView>
        recommends
            names.len() > 0,
        decreases names.len(), self, 0nat,
    {
        if names.len() == 0 {
            None
        } else {
            match self.child(SegmentView::Star) {
                Some(star) => star.find(names.drop_first()),
                None => None,
            }
        }
    }

    /// What a glob that matches nothing contributes, where the name that
    /// follows it is the next name. A glob node has no such contribution.
    pub open spec fn find_skipped_glob(self, names: Seq<Seq<char>>) -> Option<StyleView>
        recommends
            names.len() > 0,
        decreases names.len(), self, 0nat,
    {
        if names.len() == 0 || self.segment is Glob {
            None
        } else {
            match self.child(SegmentView::Glob) {
                Some(glob) => match glob.child(SegmentView::Name(names[0])) {
                    Some(literal) => literal.find(names.drop_first()),
                    None => None,
                },
                None => None,
            }
        }
    }

    /// What a literal name contributes: it consumes the name it equals.
    pub open spec fn find_literal(self, names: Seq<Seq<char>>) -> Option<StyleView>
        recommends
            names.len() > 0,
        decreases names.len(), self, 0nat,
    {
        if names.len() == 0 {
            None
        } else {
            match self.child(SegmentView::Name(names[0])) {
                Some(literal) => literal.find(names.drop_first()),
                None => None,
            }
        }
    }

    /// The style for the section path `names`, seen from this node. At the
    /// end of the path it is the style of the terminal node. Before that it
    /// is the merge of the four contributions in rising precedence: glob,
    /// star, skipped glob, literal.
    pub open spec fn find(self, names: Seq<Seq<char>>) -> Option<StyleView>
        decreases names.len(), self, 1nat,
    {
        if names.len() == 0 {
            match self.terminal() {
                Some(terminal) => terminal.style,
                None => None,
            }
        } else {
            union_spec(
                union_spec(
                    union_spec(self.find_glob(names), self.find_star(names)),
                    self.find_skipped_glob(names),
                ),
                self.find_literal(names),
            )
        }
    }
}

/// `child_index` finds the first child that the segment leads to, and none
/// exactly when no child is led to by it.
pub proof fn lemma_child_index(children: Seq<Trie>, segment: SegmentView)
    ensures
        match child_index(children, segment) {
            Some(i) => {
                &&& 0 <= i < children.len()
                &&& children[i].segment == segment
                &&& forall|j: int| 0 <= j < i ==> children[j].segment != segment
            },
            None => forall|j: int| 0 <= j < children.len() ==> children[j].segment != segment,
        },
    decreases children.len(),
{
    if children.len() > 0 && children[0].segment != segment {
        let rest = children.drop_first();
        lemma_child_index(rest, segment);
        match child_index(rest, segment) {
            Some(i) => {
                assert forall|j: int| 0 <= j < i + 1 implies children[j].segment != segment by {
                    if j > 0 {
                        assert(children[j] == rest[j - 1]);
                    }
                }
            },
            None => {
                assert forall|j: int| 0 <= j < children.len() implies children[j].segment
                    != segment by {
                    if j > 0 {
                        assert(children[j] == rest[j - 1]);
                    }
                }
            },
        }
    }
}

/// Adding a rule keeps the children of every node distinct.
pub proof fn lemma_insert_well_formed(trie: Trie, selector: Seq<SegmentView>, style: StyleView)
    requires
        trie.well_formed(),
    ensures
        trie.insert(selector, style).well_formed(),
        trie.insert(selector, style).segment == trie.segment,
    decreases selector.len(),
{
    if selector.len() > 0 {
        let first = selector[0];
        let rest = selector.drop_first();
        let after = trie.insert(selector, style);
        lemma_child_index(trie.children, first);
        match child_index(trie.children, first) {
            Some(i) => {
                lemma_insert_well_formed(trie.children[i], rest, style);
                assert forall|k: int| 0 <= k < after.children.len() implies (
                #[trigger] after.children[k]).well_formed() by {
                    if k != i {
                        assert(after.children[k] == trie.children[k]);
                    }
                }
                assert forall|k: int, l: int| 0 <= k < l < after.children.len() implies (
                #[trigger] after.children[k]).segment != (#[trigger] after.children[l]).segment by {
                    assert(after.children[k].segment == trie.children[k].segment);
                    assert(after.children[l].segment == trie.children[l].segment);
                }
            },
            None => {
                lemma_insert_well_formed(Trie::leaf(first), rest, style);
                assert forall|k: int| 0 <= k < after.children.len() implies (
                #[trigger] after.children[k]).well_formed() by {
                    if k < trie.children.len() {
                        assert(after.children[k] == trie.children[k]);
                    }
                }
                assert forall|k: int, l: int| 0 <= k < l < after.children.len() implies (
                #[trigger] after.children[k]).segment != (#[trigger] after.children[l]).segment by {
                    assert(after.children[k] == trie.children[k]);
                    if l < trie.children.len() {
                        assert(after.children[l] == trie.children[l]);
                    }
                }
            },
        }
    }
}

/// A rule that was added is stored under its selector, whatever was stored
/// there before.
pub proof fn lemma_insert_declares(trie: Trie, selector: Seq<SegmentView>, style: StyleView)
    ensures
        trie.insert(selector, style).declared(selector) == Some(style),
    decreases selector.len(),
{
    if selector.len() > 0 {
        let first = selector[0];
        let rest = selector.drop_first();
        let after = trie.insert(selector, style);
        lemma_child_index(trie.children, first);
        match child_index(trie.children, first) {
            Some(i) => {
                lemma_insert_declares(trie.children[i], rest, style);
                lemma_insert_well_formed_segment(trie.children[i], rest, style);
                lemma_child_index_at(after.children, first, i);
            },
            None => {
                lemma_insert_declares(Trie::leaf(first), rest, style);
                lemma_insert_well_formed_segment(Trie::leaf(first), rest, style);
                lemma_child_index_at(after.children, first, trie.children.len() as int);
            },
        }
    }
}

/// Adding a rule leaves what is stored under every other selector as it
/// was.
pub proof fn lemma_insert_keeps_others(
    trie: Trie,
    selector: Seq<SegmentView>,
    style: StyleView,
    other: Seq<SegmentView>,
)
    requires
        other != selector,
    ensures
        trie.insert(selector, style).declared(other) == trie.declared(other),
    decreases selector.len(),
{
    let after = trie.insert(selector, style);
    if selector.len() == 0 {
        assert(other.len() > 0) by {
            if other.len() == 0 {
                assert(other =~= selector);
            }
        }
    } else if other.len() > 0 {
        let first = selector[0];
        let rest = selector.drop_first();
        lemma_child_index(trie.children, first);
        lemma_child_index(trie.children, other[0]);
        lemma_child_index(after.children, other[0]);
        match child_index(trie.children, first) {
            Some(i) => {
                lemma_insert_well_formed_segment(trie.children[i], rest, style);
                assert forall|k: int| 0 <= k < after.children.len() implies (
                #[trigger] after.children[k]).segment == trie.children[k].segment by {}
                if other[0] == first {
                    lemma_child_index_at(after.children, first, i);
                    if other.drop_first() == rest {
                        assert(other =~= seq![other[0]] + other.drop_first());
                        assert(selector =~= seq![first] + rest);
                    }
                    lemma_insert_keeps_others(trie.children[i], rest, style, other.drop_first());
                } else {
                    match child_index(trie.children, other[0]) {
                        Some(k) => {
                            lemma_child_index_at(after.children, other[0], k);
                            assert(after.children[k] == trie.children[k]);
                        },
                        None => {
                            match child_index(after.children, other[0]) {
                                Some(k) => {
                                    assert(after.children[k].segment == trie.children[k].segment);
                                },
                                None => {},
                            }
                        },
                    }
                }
            },
            None => {
                let n = trie.children.len() as int;
                lemma_insert_well_formed_segment(Trie::leaf(first), rest, style);
                if other[0] == first {
                    lemma_child_index_at(after.children, first, n);
                    if other.drop_first() == rest {
                        assert(other =~= seq![other[0]] + other.drop_first());
                        assert(selector =~= seq![first] + rest);
                    }
                    lemma_insert_keeps_others(Trie::leaf(first), rest, style, other.drop_first());
                    lemma_leaf_declares_nothing(first, other.drop_first());
                } else {
                    match child_index(trie.children, other[0]) {
                        Some(k) => {
                            lemma_child_index_at(after.children, other[0], k);
                            assert(after.children[k] == trie.children[k]);
                        },
                        None => {
                            match child_index(after.children, other[0]) {
                                Some(k) => {
                                    if k < n {
                                        assert(after.children[k] == trie.children[k]);
                                    }
                                },
                                None => {},
                            }
                        },
                    }
                }
            },
        }
    }
}

/// Adding a rule twice under one selector leaves only the later style.
pub proof fn lemma_insert_overwrites(
    trie: Trie,
    selector: Seq<SegmentView>,
    earlier: StyleView,
    later: StyleView,
)
    ensures
        trie.insert(selector, earlier).insert(selector, later) == trie.insert(selector, later),
    decreases selector.len(),
{
    if selector.len() > 0 {
        let first = selector[0];
        let rest = selector.drop_first();
        let once = trie.insert(selector, earlier);
        lemma_child_index(trie.children, first);
        match child_index(trie.children, first) {
            Some(i) => {
                lemma_insert_well_formed_segment(trie.children[i], rest, earlier);
                lemma_child_index_at(once.children, first, i);
                lemma_insert_overwrites(trie.children[i], rest, earlier, later);
                assert(once.children.update(i, once.children[i].insert(rest, later))
                    =~= trie.children.update(i, trie.children[i].insert(rest, later)));
            },
            None => {
                let n = trie.children.len() as int;
                lemma_insert_well_formed_segment(Trie::leaf(first), rest, earlier);
                lemma_child_index_at(once.children, first, n);
                lemma_insert_overwrites(Trie::leaf(first), rest, earlier, later);
                assert(once.children.update(n, once.children[n].insert(rest, later))
                    =~= trie.children.push(Trie::leaf(first).insert(rest, later)));
            },
        }
    }
}

proof fn lemma_insert_well_formed_segment(
    trie: Trie,
    selector: Seq<SegmentView>,
    style: StyleView,
)
    ensures
        trie.insert(selector, style).segment == trie.segment,
{
}

proof fn lemma_leaf_declares_nothing(segment: SegmentView, selector: Seq<SegmentView>)
    ensures
        Trie::leaf(segment).declared(selector) is None,
{
}

proof fn lemma_child_index_at(children: Seq<Trie>, segment: SegmentView, i: int)
    requires
        0 <= i < children.len(),
        children[i].segment == segment,
        forall|j: int| 0 <= j < i ==> children[j].segment != segment,
    ensures
        child_index(children, segment) == Some(i),
{
    lemma_child_index(children, segment);
}

/// Merges two optional styles. Absence is the identity; where both are
/// present, `right` is merged over `left`.
pub fn union(left: Option<Style>, right: Option<Style>) -> (r: Option<Style>)
    ensures
        style_view(r) == union_spec(style_view(left), style_view(right)),
{
    match (left, right) {
        (None, None) => None,
        (Some(left), None) => Some(left),
        (None, Some(right)) => Some(right),
        (Some(left), Some(right)) => Some(left.union(right)),
    }
}

/// What an optional style declares.
pub open spec fn style_view(style: Option<Style>) -> Option<StyleView> {
    match style {
        Some(style) => Some(style@),
        None => None,
    }
}

/// A node of the trie: a segment, the nodes one segment further, and the
/// style of the rule that ends here.
#[derive(Debug)]
struct Node {
    segment: Segment,
    children: Vec<Node>,
    declarations: Option<Style>,
}

impl Node {
    spec fn view(&self) -> Trie
        decreases self, self.children@.len() + 1,
    {
        Trie {
            segment: self.segment@,
            children: self.children_view(self.children@.len() as int),
            style: style_view(self.declarations),
        }
    }

    spec fn children_view(&self, n: int) -> Seq<Trie>
        decreases self, n,
    {
        if 0 < n <= self.children@.len() {
            self.children_view(n - 1).push(self.children@[n - 1].view())
        } else {
            Seq::empty()
        }
    }

    proof fn lemma_children_view(&self, n: int)
        requires
            0 <= n <= self.children@.len(),
        ensures
            self.children_view(n).len() == n,
            forall|i: int| 0 <= i < n ==> self.children_view(n)[i] == self.children@[i].view(),
        decreases n,
    {
        if n > 0 {
            self.lemma_children_view(n - 1);
        }
    }

    proof fn lemma_view(&self)
        ensures
            self.view().segment == self.segment@,
            self.view().style == style_view(self.declarations),
            self.view().children.len() == self.children@.len(),
            forall|i: int|
                0 <= i < self.children@.len() ==> self.view().children[i]
                    == self.children@[i].view(),
    {
        self.lemma_children_view(self.children@.len() as int);
    }

    fn new(segment: Segment) -> (r: Node)
        ensures
            r.view() == Trie::leaf(segment@),
    {
        let r = Node { segment, children: Vec::new(), declarations: None };
        proof {
            r.lemma_view();
            assert(r.view().children =~= Seq::<Trie>::empty());
        }
        r
    }

    /// The position of the child that `segment` leads to.
    fn child_position(&self, segment: &Segment) -> (r: Option<usize>)
        ensures
            match r {
                Some(i) => child_index(self.view().children, segment@) == Some(i as int) && i
                    < self.children@.len(),
                None => child_index(self.view().children, segment@) is None,
            },
    {
        proof {
            self.lemma_view();
        }
        let mut i: usize = 0;
        while i < self.children.len()
            invariant
                i <= self.children@.len(),
                self.view().children.len() == self.children@.len(),
                forall|j: int|
                    0 <= j < self.children@.len() ==> self.view().children[j]
                        == self.children@[j].view(),
                forall|j: int| 0 <= j < i ==> self.view().children[j].segment != segment@,
            decreases self.children@.len() - i,
        {
            proof {
                self.children@[i as int].lemma_view();
            }
            if self.children[i].segment.same(segment) {
                proof {
                    lemma_child_index_at(self.view().children, segment@, i as int);
                }
                return Some(i);
            }
            i += 1;
        }
        proof {
            lemma_child_index(self.view().children, segment@);
        }
        None
    }

    /// The child that `segment` leads to.
    fn child(&self, segment: &Segment) -> (r: Option<&Node>)
        ensures
            match r {
                Some(node) => self.view().child(segment@) == Some(node.view()),
                None => self.view().child(segment@) is None,
            },
    {
        proof {
            self.lemma_view();
        }
        match self.child_position(segment) {
            Some(i) => Some(&self.children[i]),
            None => None,
        }
    }

    /// The node whose style answers a path that ends at this node.
    fn terminal(&self) -> (r: Option<&Node>)
        ensures
            match r {
                Some(node) => self.view().terminal() == Some(node.view()),
                None => self.view().terminal() is None,
            },
    {
        proof {
            self.lemma_view();
        }
        match self.child(&Segment::Glob) {
            None => {
                if self.children.len() == 0 {
                    Some(self)
                } else {
                    None
                }
            },
            Some(glob) => Some(glob),
        }
    }

    /// Adds nodes for the segments of `selector` from `start` on, and stores
    /// `declarations` at the last of them.
    fn add(self, selector: &Vec<Segment>, start: usize, declarations: Style) -> (r: Node)
        requires
            start <= selector@.len(),
        ensures
            r.view() == self.view().insert(
                crate::selector::segment_views(selector@).skip(start as int),
                declarations@,
            ),
        decreases selector@.len() - start,
    {
        let ghost path = crate::selector::segment_views(selector@).skip(start as int);
        proof {
            self.lemma_view();
        }
        if start == selector.len() {
            let r = Node {
                segment: self.segment,
                children: self.children,
                declarations: Some(declarations),
            };
            proof {
                r.lemma_view();
                assert(r.view().children =~= self.view().children);
            }
            r
        } else {
            let name = selector[start];
            proof {
                assert(path[0] == name@);
                assert(path.drop_first() =~= crate::selector::segment_views(selector@).skip(start + 1));
            }
            let position = self.child_position(&name);
            let Node { segment, mut children, declarations: own } = self;
            match position {
                Some(i) => {
                    let child = children.remove(i);
                    let child = child.add(selector, start + 1, declarations);
                    children.insert(i, child);
                    let r = Node { segment, children, declarations: own };
                    proof {
                        r.lemma_view();
                        assert(r.view().children =~= self.view().children.update(
                            i as int,
                            self.view().children[i as int].insert(
                                path.drop_first(),
                                declarations@,
                            ),
                        ));
                    }
                    r
                },
                None => {
                    let child = Node::new(name).add(selector, start + 1, declarations);
                    children.push(child);
                    let r = Node { segment, children, declarations: own };
                    proof {
                        r.lemma_view();
                        assert(r.view().children =~= self.view().children.push(
                            Trie::leaf(name@).insert(path.drop_first(), declarations@),
                        ));
                    }
                    r
                },
            }
        }
    }

    /// What a glob contributes for the next name.
    fn find_glob(&self, names: &[&'static str]) -> (r: Option<Style>)
        requires
            names@.len() > 0,
        ensures
            style_view(r) == self.view().find_glob(path_view(names@)),
        decreases names@.len(), self, 0nat,
    {
        proof {
            self.lemma_view();
            lemma_path_rest(names@);
        }
        if self.segment.is_glob() {
            self.find(slice_subrange(names, 1, names.len()))
        } else {
            match self.child_position(&Segment::Glob) {
                Some(i) => (&self.children[i]).find(names),
                None => None,
            }
        }
    }

    /// What a star contributes.
    fn find_star(&self, names: &[&'static str]) -> (r: Option<Style>)
        requires
            names@.len() > 0,
        ensures
            style_view(r) == self.view().find_star(path_view(names@)),
        decreases names@.len(), self, 0nat,
    {
        proof {
            lemma_path_rest(names@);
        }
        match self.child(&Segment::Star) {
            Some(star) => star.find(slice_subrange(names, 1, names.len())),
            None => None,
        }
    }

    /// What a glob that matches nothing contributes.
    fn find_skipped_glob(&self, names: &[&'static str]) -> (r: Option<Style>)
        requires
            names@.len() > 0,
        ensures
            style_view(r) == self.view().find_skipped_glob(path_view(names@)),
        decreases names@.len(), self, 0nat,
    {
        proof {
            self.lemma_view();
            lemma_path_rest(names@);
        }
        if self.segment.is_glob() {
            return None;
        }
        match self.child(&Segment::Glob) {
            Some(glob) => match glob.child(&Segment::Name(names[0])) {
                Some(literal) => literal.find(slice_subrange(names, 1, names.len())),
                None => None,
            },
            None => None,
        }
    }

    /// What a literal name contributes.
    fn find_literal(&self, names: &[&'static str]) -> (r: Option<Style>)
        requires
            names@.len() > 0,
        ensures
            style_view(r) == self.view().find_literal(path_view(names@)),
        decreases names@.len(), self, 0nat,
    {
        proof {
            lemma_path_rest(names@);
        }
        match self.child(&Segment::Name(names[0])) {
            Some(literal) => literal.find(slice_subrange(names, 1, names.len())),
            None => None,
        }
    }

    /// Finds the style for a section path: the merge of all matches, with
    /// literals taking precedence over stars and stars over globs.
    fn find(&self, names: &[&'static str]) -> (r: Option<Style>)
        ensures
            style_view(r) == self.view().find(path_view(names@)),
        decreases names@.len(), self, 1nat,
    {
        if names.len() == 0 {
            return match self.terminal() {
                Some(terminal) => {
                    proof {
                        terminal.lemma_view();
                    }
                    terminal.declarations
                },
                None => None,
            };
        }
        let mut style: Option<Style> = None;
        style = union(style, self.find_glob(names));
        style = union(style, self.find_star(names));
        style = union(style, self.find_skipped_glob(names));
        style = union(style, self.find_literal(names));
        style
    }
}

proof fn lemma_path_rest(names: Seq<&'static str>)
    requires
        names.len() > 0,
    ensures
        path_view(names)[0] == names[0]@,
        path_view(names).drop_first() == path_view(names.subrange(1, names.len() as int)),
{
    assert(path_view(names).drop_first() =~= path_view(names.subrange(1, names.len() as int)));
}

/// A set of style rules, each a selector with a style.
#[derive(Debug)]
pub struct Stylesheet {
    styles: Node,
}

impl View for Stylesheet {
    type V = Trie;

    closed spec fn view(&self) -> Trie {
        self.styles.view()
    }
}

impl Stylesheet {
    #[verifier::type_invariant]
    closed spec fn distinct_children(&self) -> bool {
        self.styles.view().well_formed()
    }

    /// Constructs a stylesheet without rules.
    pub fn new() -> (r: Stylesheet)
        ensures
            r@ == Trie::root(),
            r@.well_formed(),
    {
        Stylesheet { styles: Node::new(Segment::Root) }
    }

    /// Adds a rule to the stylesheet. A rule that was added before under
    /// the same selector is replaced.
    pub fn add<S: IntoSelector, D: IntoStyle>(self, name: S, declarations: D) -> (r: Stylesheet)
        requires
            declarations.is_style(),
        ensures
            r@ == self@.insert(name.selector(), declarations.style()),
            r@.well_formed(),
    {
        let selector = name.into_selector();
        let style = declarations.into_style();
        let segments = selector.into_segments();
        proof {
            use_type_invariant(&self);
            let path = crate::selector::segment_views(segments@);
            assert(path.skip(0) =~= path);
            lemma_insert_well_formed(self@, path, style@);
        }
        Stylesheet { styles: self.styles.add(&segments, 0, style) }
    }

    /// Gets the style for a nesting of sections, outermost first.
    pub fn get(&self, names: &[&'static str]) -> (r: Option<Style>)
        ensures
            style_view(r) == self@.find(path_view(names@)),
    {
        self.styles.find(names)
    }
}

} // verus!
