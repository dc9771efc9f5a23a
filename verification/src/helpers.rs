//! The stock building blocks: repetition, iteration with and without a
//! joiner, named sections, and lines.

use crate::component::{BlockComponent, CurriedIterBlockComponent, IterBlockComponent};
use crate::document::{Document, Node, NodeView};
use crate::render::Render;
use crate::text::repeat_str;
use vstd::prelude::*;
use vstd::string::*;

verus! {

/// A value that is rendered as its displayed form written a number of
/// times, in one run of text.
pub struct PadItem<T>(pub T, pub usize);

impl<T: core::fmt::Display> Render for PadItem<T> {
    open spec fn renders(self, into: Document) -> bool {
        true
    }

    open spec fn rendered(self, into: Document, out: Document) -> bool {
        exists|text: String| #[trigger]
            to_string_from_display_ensures::<T>(&self.0, text) && out@ == into@.push(
                NodeView::Text(crate::text::repeated(text@, self.1 as nat)),
            )
    }

    fn render(self, document: Document) -> (out: Document) {
        let text = self.0.to_string();
        let padded = repeat_str(text.as_str(), self.1);
        document.add_node(Node::Text(padded))
    }
}

/// Creates a renderable that repeats the displayed form of `item` `size`
/// times.
pub fn repeat<T: core::fmt::Display>(item: T, size: usize) -> (r: PadItem<T>)
    ensures
        r.0 == item,
        r.1 == size,
{
    PadItem(item, size)
}

/// A list of items. For each item the block is called, and what it returns
/// becomes the document for the next.
pub struct Each<U> {
    pub items: Vec<U>,
}

impl<U> IterBlockComponent for Each<U> {
    type Item = U;

    open spec fn items(self) -> Seq<U> {
        self.items@
    }

    /// The block gets the document as the item before left it.
    open spec fn prepared(self, index: int, before: Document, inner: Document) -> bool {
        inner == before
    }

    fn append<F: Fn(U, Document) -> Document>(self, block: F, document: Document) -> (out:
        Document) {
        let ghost component = self;
        let ghost all = component.items();
        let ghost prepared = |i: int, before: Document, inner: Document|
            component.prepared(i, before, inner);
        let mut items = self.items;
        let mut document = document;
        let ghost start = document;
        let mut done: usize = 0;
        let total = items.len();
        assert(all.take(0) =~= Seq::<U>::empty());
        while done < total
            invariant
                done <= total,
                total == all.len(),
                items@ == all.skip(done as int),
                prepared == |i: int, before: Document, inner: Document|
                    component.prepared(i, before, inner),
                forall|i: int, inner: Document|
                    0 <= i < all.len() ==> #[trigger] call_requires(block, (all[i], inner)),
                crate::component::iterated(all.take(done as int), prepared, block, start, document),
            decreases total - done,
        {
            let item = items.remove(0);
            let ghost before = document;
            proof {
                assert(item == all[done as int]);
                assert(all.take(done + 1).drop_last() =~= all.take(done as int));
                assert(all.take(done + 1).last() == item);
                assert(prepared(done as int, before, before));
            }
            document = block(item, document);
            proof {
                assert(items@ =~= all.skip(done + 1));
                assert(crate::component::iterated(
                    all.take(done + 1),
                    prepared,
                    block,
                    start,
                    document,
                ));
            }
            done += 1;
        }
        assert(all.take(total as int) =~= all);
        document
    }
}

/// The items with the block to call for each.
#[allow(non_snake_case)]
pub fn Each<U, F: Fn(U, Document) -> Document>(items: Vec<U>, callback: F) -> (r:
    CurriedIterBlockComponent<Each<U>, F>)
    ensures
        r.component.items@ == items@,
        r.block == callback,
{
    CurriedIterBlockComponent::with(Each { items }, callback)
}

/// A section that can be appended to a document. Sections are invisible,
/// but stylesheets address them by name.
pub struct Section {
    pub name: &'static str,
}

impl BlockComponent for Section {
    /// The block gets the document with the section opened.
    open spec fn opened(self, document: Document, inner: Document) -> bool {
        inner@ == document@.push(NodeView::OpenSection(self.name@))
    }

    /// The section is closed after what the block returned.
    open spec fn closed(self, done: Document, out: Document) -> bool {
        out@ == done@.push(NodeView::CloseSection)
    }

    fn append<F: FnOnce(Document) -> Document>(self, block: F, document: Document) -> (out:
        Document) {
        let inner = document.add_node(Node::OpenSection(self.name));
        assert(self.opened(document, inner));
        let done = block(inner);
        let out = done.add_node(Node::CloseSection);
        assert(self.opened(document, inner) && call_ensures(block, (inner,), done) && self.closed(
            done,
            out,
        ));
        out
    }
}

/// The document that holds one section: the opening marker, what `block`
/// adds, and the closing marker.
#[allow(non_snake_case)]
pub fn Section<F: FnOnce(Document) -> Document>(name: &'static str, block: F) -> (out: Document)
    requires
        forall|inner: Document|
            inner@ == seq![NodeView::OpenSection(name@)] ==> call_requires(block, (inner,)),
    ensures
        exists|inner: Document, done: Document|
            inner@ == seq![NodeView::OpenSection(name@)] && #[trigger] call_ensures(
                block,
                (inner,),
                done,
            ) && out@ == done@.push(NodeView::CloseSection),
{
    let document = Document::empty();
    let section = Section { name };
    assert(document@.push(NodeView::OpenSection(name@)) =~= seq![NodeView::OpenSection(name@)]);
    section.append(block, document)
}

/// Like `Each`, with a joiner between two adjacent items.
pub struct Join<U> {
    pub iterator: Vec<U>,
    pub joiner: &'static str,
}

impl<U> IterBlockComponent for Join<U> {
    type Item = U;

    open spec fn items(self) -> Seq<U> {
        self.iterator@
    }

    /// Before every item but the first, the joiner is added as a run of
    /// text.
    open spec fn prepared(self, index: int, before: Document, inner: Document) -> bool {
        if index == 0 {
            inner == before
        } else {
            inner@ == before@.push(NodeView::Text(self.joiner@))
        }
    }

    fn append<F: Fn(U, Document) -> Document>(self, block: F, into: Document) -> (out: Document) {
        let ghost component = self;
        let ghost all = component.items();
        let ghost prepared = |i: int, before: Document, inner: Document|
            component.prepared(i, before, inner);
        let joiner = self.joiner;
        let mut items = self.iterator;
        let mut into = into;
        let ghost start = into;
        let mut done: usize = 0;
        let total = items.len();
        assert(all.take(0) =~= Seq::<U>::empty());
        while done < total
            invariant
                done <= total,
                total == all.len(),
                joiner == component.joiner,
                prepared == |i: int, before: Document, inner: Document|
                    component.prepared(i, before, inner),
                items@ == all.skip(done as int),
                forall|i: int, inner: Document|
                    0 <= i < all.len() ==> #[trigger] call_requires(block, (all[i], inner)),
                crate::component::iterated(all.take(done as int), prepared, block, start, into),
            decreases total - done,
        {
            let item = items.remove(0);
            let ghost before = into;
            if done > 0 {
                into = into.add_node(Node::Text(String::from_str(joiner)));
            }
            let ghost inner = into;
            proof {
                assert(item == all[done as int]);
                assert(all.take(done + 1).drop_last() =~= all.take(done as int));
                assert(all.take(done + 1).last() == item);
                assert(prepared(done as int, before, inner));
            }
            into = block(item, into);
            proof {
                assert(items@ =~= all.skip(done + 1));
                assert(crate::component::iterated(
                    all.take(done + 1),
                    prepared,
                    block,
                    start,
                    into,
                ));
            }
            done += 1;
        }
        assert(all.take(total as int) =~= all);
        into
    }
}

/// The items and the joiner with the block to call for each item.
#[allow(non_snake_case)]
pub fn Join<U, F: Fn(U, Document) -> Document>(join: (Vec<U>, &'static str), callback: F) -> (r:
    CurriedIterBlockComponent<Join<U>, F>)
    ensures
        r.component.iterator@ == join.0@,
        r.component.joiner == join.1,
        r.block == callback,
{
    CurriedIterBlockComponent::with(Join { iterator: join.0, joiner: join.1 }, callback)
}

/// Whether `block` adds to the document exactly the nodes that `content`
/// gives for the item.
pub open spec fn block_appends<Item, F: Fn(Item, Document) -> Document>(
    block: F,
    content: spec_fn(Item) -> Seq<NodeView>,
) -> bool {
    forall|item: Item, into: Document, out: Document| #[trigger]
        call_ensures(block, (item, into), out) ==> out@ == into@ + content(item)
}

/// The contents of the items, one after the other.
pub open spec fn each_nodes<Item>(
    items: Seq<Item>,
    content: spec_fn(Item) -> Seq<NodeView>,
) -> Seq<NodeView>
    decreases items.len(),
{
    if items.len() == 0 {
        Seq::empty()
    } else {
        each_nodes(items.drop_last(), content) + content(items.last())
    }
}

/// The contents of the items with the joiner, as a run of text, between
/// every two neighbours: not before the first, and not after the last.
pub open spec fn join_nodes<Item>(
    items: Seq<Item>,
    joiner: Seq<char>,
    content: spec_fn(Item) -> Seq<NodeView>,
) -> Seq<NodeView>
    decreases items.len(),
{
    if items.len() == 0 {
        Seq::empty()
    } else if items.len() == 1 {
        content(items[0])
    } else {
        join_nodes(items.drop_last(), joiner, content) + seq![NodeView::Text(joiner)] + content(
            items.last(),
        )
    }
}

/// With a block that adds the content of its item, `Each` adds the
/// contents of all items in order.
pub proof fn lemma_each_appends<U, F: Fn(U, Document) -> Document>(
    each: CurriedIterBlockComponent<Each<U>, F>,
    content: spec_fn(U) -> Seq<NodeView>,
    into: Document,
    out: Document,
)
    requires
        block_appends(each.block, content),
        each.rendered(into, out),
    ensures
        out@ == into@ + each_nodes(each.component.items(), content),
{
    let prepared = |i: int, before: Document, inner: Document|
        each.component.prepared(i, before, inner);
    lemma_iterated_each(each.component, each.component.items(), prepared, each.block, content, into, out);
}

proof fn lemma_iterated_each<U, F: Fn(U, Document) -> Document>(
    each: Each<U>,
    items: Seq<U>,
    prepared: spec_fn(int, Document, Document) -> bool,
    block: F,
    content: spec_fn(U) -> Seq<NodeView>,
    into: Document,
    out: Document,
)
    requires
        block_appends(block, content),
        prepared == |i: int, before: Document, inner: Document| each.prepared(i, before, inner),
        crate::component::iterated(items, prepared, block, into, out),
    ensures
        out@ == into@ + each_nodes(items, content),
    decreases items.len(),
{
    if items.len() == 0 {
        assert(into@ + each_nodes(items, content) =~= into@);
    } else {
        let (before, inner) = choose|before: Document, inner: Document|
            crate::component::iterated(items.drop_last(), prepared, block, into, before)
                && #[trigger] prepared(items.len() - 1, before, inner) && call_ensures(
                block,
                (items.last(), inner),
                out,
            );
        lemma_iterated_each(each, items.drop_last(), prepared, block, content, into, before);
        assert(out@ =~= into@ + each_nodes(items, content));
    }
}

/// With a block that adds the content of its item, `Join` adds the
/// contents of all items in order, with the joiner between neighbours
/// only.
pub proof fn lemma_join_appends<U, F: Fn(U, Document) -> Document>(
    join: CurriedIterBlockComponent<Join<U>, F>,
    content: spec_fn(U) -> Seq<NodeView>,
    into: Document,
    out: Document,
)
    requires
        block_appends(join.block, content),
        join.rendered(into, out),
    ensures
        out@ == into@ + join_nodes(join.component.items(), join.component.joiner@, content),
{
    let prepared = |i: int, before: Document, inner: Document|
        join.component.prepared(i, before, inner);
    lemma_iterated_join(join.component, join.component.items(), prepared, join.block, content, into, out);
}

proof fn lemma_iterated_join<U, F: Fn(U, Document) -> Document>(
    join: Join<U>,
    items: Seq<U>,
    prepared: spec_fn(int, Document, Document) -> bool,
    block: F,
    content: spec_fn(U) -> Seq<NodeView>,
    into: Document,
    out: Document,
)
    requires
        block_appends(block, content),
        prepared == |i: int, before: Document, inner: Document| join.prepared(i, before, inner),
        crate::component::iterated(items, prepared, block, into, out),
    ensures
        out@ == into@ + join_nodes(items, join.joiner@, content),
    decreases items.len(),
{
    if items.len() == 0 {
        assert(into@ + join_nodes(items, join.joiner@, content) =~= into@);
    } else {
        let (before, inner) = choose|before: Document, inner: Document|
            crate::component::iterated(items.drop_last(), prepared, block, into, before)
                && #[trigger] prepared(items.len() - 1, before, inner) && call_ensures(
                block,
                (items.last(), inner),
                out,
            );
        lemma_iterated_join(join, items.drop_last(), prepared, block, content, into, before);
        if items.len() == 1 {
            assert(items.drop_last().len() == 0);
            assert(before == into);
            assert(items.last() == items[0]);
            assert(out@ =~= into@ + join_nodes(items, join.joiner@, content));
        } else {
            assert(out@ =~= into@ + join_nodes(items, join.joiner@, content));
        }
    }
}

/// A line: the content, followed by a newline.
pub struct Line<R: Render> {
    pub item: R,
}

impl<R: Render> Render for Line<R> {
    open spec fn renders(self, into: Document) -> bool {
        self.item.renders(into)
    }

    open spec fn rendered(self, into: Document, out: Document) -> bool {
        exists|body: Document| #[trigger]
            self.item.rendered(into, body) && out@ == body@.push(NodeView::Newline)
    }

    fn render(self, document: Document) -> (out: Document) {
        self.item.render(document).add_node(Node::Newline)
    }
}

/// Inserts a line into a document: the contents first, then a newline.
#[allow(non_snake_case)]
pub fn Line<R: Render>(item: R) -> (r: Line<R>)
    ensures
        r.item == item,
{
    Line { item }
}

} // verus!
