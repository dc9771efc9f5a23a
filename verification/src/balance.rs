//! Balanced nesting: each building block extends a document by a balanced
//! run of nodes, provided that the parts it is made of do. A document that
//! is built from these blocks alone therefore closes every section that it
//! opens, and can be written without ever closing a section that is not
//! open.

use crate::component::{CurriedBlockComponent, CurriedInlineComponent, CurriedIterBlockComponent};
use crate::component::{BlockComponent, IterBlockComponent, OnceBlock};
use crate::document::{Document, Node, NodeView};
use crate::helpers::{Each, Join, Line, PadItem, Section};
use crate::render::{Combine, Empty, IfSome, Render, SomeValue};
use vstd::prelude::*;

verus! {

/// Whether everything that `renderable` can make of a document is that
/// document followed by a balanced run.
pub open spec fn renders_balanced<R: Render>(renderable: R) -> bool {
    forall|into: Document, out: Document| #[trigger]
        renderable.rendered(into, out) ==> crate::document::extends_balanced(into@, out@)
}

/// Whether everything that `block` can make of a document is that document
/// followed by a balanced run.
pub open spec fn block_balanced<F: FnOnce(Document) -> Document>(block: F) -> bool {
    forall|into: Document, out: Document| #[trigger]
        call_ensures(block, (into,), out) ==> crate::document::extends_balanced(into@, out@)
}

/// Whether everything that `block` can make of an item and a document is
/// that document followed by a balanced run.
pub open spec fn item_block_balanced<Item, F: Fn(Item, Document) -> Document>(block: F) -> bool {
    forall|item: Item, into: Document, out: Document| #[trigger]
        call_ensures(block, (item, into), out) ==> crate::document::extends_balanced(
            into@,
            out@,
        )
}

/// A document extends itself by the empty run.
pub proof fn lemma_extends_nothing(nodes: Seq<NodeView>)
    ensures
        crate::document::extends_balanced(nodes, nodes),
{
    assert(nodes.take(nodes.len() as int) =~= nodes);
    assert(nodes.skip(nodes.len() as int) =~= Seq::<NodeView>::empty());
    crate::document::lemma_balanced_flat(Seq::<NodeView>::empty());
}

/// A document followed by a balanced run extends it.
pub proof fn lemma_extends_by(nodes: Seq<NodeView>, run: Seq<NodeView>)
    requires
        crate::document::balanced(run),
    ensures
        crate::document::extends_balanced(nodes, nodes + run),
{
    assert((nodes + run).take(nodes.len() as int) =~= nodes);
    assert((nodes + run).skip(nodes.len() as int) =~= run);
}

/// A balanced extension stays one when it is put inside a section.
pub proof fn lemma_extends_in_section(
    into: Seq<NodeView>,
    name: Seq<char>,
    inner: Seq<NodeView>,
    done: Seq<NodeView>,
    out: Seq<NodeView>,
)
    requires
        inner == into.push(NodeView::OpenSection(name)),
        crate::document::extends_balanced(inner, done),
        out == done.push(NodeView::CloseSection),
    ensures
        crate::document::extends_balanced(into, out),
{
    let body = done.skip(inner.len() as int);
    crate::document::lemma_extends_balanced(inner, done);
    crate::document::lemma_balanced_section(name, body);
    let run = seq![NodeView::OpenSection(name)] + body + seq![NodeView::CloseSection];
    assert(out =~= into + run);
    lemma_extends_by(into, run);
}

/// Rendering nothing keeps the balance.
pub proof fn lemma_empty_balanced()
    ensures
        renders_balanced(Empty),
{
    assert forall|into: Document, out: Document| #[trigger]
        Empty.rendered(into, out) implies crate::document::extends_balanced(into@, out@) by {
        lemma_extends_nothing(into@);
    }
}

/// A node that is no section marker keeps the balance.
pub proof fn lemma_node_balanced(node: Node)
    requires
        crate::document::depth_change(node@) == 0,
    ensures
        renders_balanced(node),
{
    assert forall|into: Document, out: Document| #[trigger]
        node.rendered(into, out) implies crate::document::extends_balanced(into@, out@) by {
        crate::document::lemma_balanced_flat(seq![node@]);
        assert(out@ =~= into@ + seq![node@]);
        lemma_extends_by(into@, seq![node@]);
    }
}

/// A balanced document, rendered into another, keeps the balance.
pub proof fn lemma_document_balanced(document: Document)
    requires
        crate::document::balanced(document@),
    ensures
        renders_balanced(document),
{
    assert forall|into: Document, out: Document| #[trigger]
        document.rendered(into, out) implies crate::document::extends_balanced(into@, out@) by {
        lemma_extends_by(into@, document@);
    }
}

/// A run of text keeps the balance.
pub proof fn lemma_text_balanced<T: core::fmt::Display>(value: T)
    ensures
        renders_balanced(value),
{
    assert forall|into: Document, out: Document| #[trigger]
        value.rendered(into, out) implies crate::document::extends_balanced(into@, out@) by {
        let last = out@.last();
        assert(out@ =~= into@ + seq![last]);
        crate::document::lemma_balanced_flat(seq![last]);
        lemma_extends_by(into@, seq![last]);
    }
}

/// A repeated text keeps the balance.
pub proof fn lemma_repeat_balanced<T: core::fmt::Display>(item: PadItem<T>)
    ensures
        renders_balanced(item),
{
    assert forall|into: Document, out: Document| #[trigger]
        item.rendered(into, out) implies crate::document::extends_balanced(into@, out@) by {
        let last = out@.last();
        assert(out@ =~= into@ + seq![last]);
        crate::document::lemma_balanced_flat(seq![last]);
        lemma_extends_by(into@, seq![last]);
    }
}

/// Two renderables in sequence keep the balance if each of them does.
pub proof fn lemma_combine_balanced<Left: Render, Right: Render>(pair: Combine<Left, Right>)
    requires
        renders_balanced(pair.left),
        renders_balanced(pair.right),
    ensures
        renders_balanced(pair),
{
    assert forall|into: Document, out: Document| #[trigger]
        pair.rendered(into, out) implies crate::document::extends_balanced(into@, out@) by {
        let mid = choose|mid: Document| #[trigger]
            pair.left.rendered(into, mid) && pair.right.rendered(mid, out);
        crate::document::lemma_extends_balanced_twice(into@, mid@, out@);
    }
}

/// A line keeps the balance if its content does.
pub proof fn lemma_line_balanced<R: Render>(line: Line<R>)
    requires
        renders_balanced(line.item),
    ensures
        renders_balanced(line),
{
    assert forall|into: Document, out: Document| #[trigger]
        line.rendered(into, out) implies crate::document::extends_balanced(into@, out@) by {
        let body = choose|body: Document| #[trigger]
            line.item.rendered(into, body) && out@ == body@.push(NodeView::Newline);
        crate::document::lemma_balanced_flat(seq![NodeView::Newline]);
        assert(out@ =~= body@ + seq![NodeView::Newline]);
        lemma_extends_by(body@, seq![NodeView::Newline]);
        crate::document::lemma_extends_balanced_twice(into@, body@, out@);
    }
}

/// A block that is called once keeps the balance if the block does.
pub proof fn lemma_once_block_balanced<F: FnOnce(Document) -> Document>(block: OnceBlock<F>)
    requires
        block_balanced(block.0),
    ensures
        renders_balanced(block),
{
}

/// A function with its data keeps the balance if the function does for
/// that data.
pub proof fn lemma_component_balanced<T, F: FnOnce(T, Document) -> Document>(
    component: CurriedInlineComponent<T, F>,
)
    requires
        forall|into: Document, out: Document| #[trigger]
            call_ensures(component.function(), (component.data(), into), out)
                ==> crate::document::extends_balanced(into@, out@),
    ensures
        renders_balanced(component),
{
}

/// A section keeps the balance if its block does: it opens, and closes
/// again after the block.
pub proof fn lemma_section_balanced<F: FnOnce(Document) -> Document>(
    section: CurriedBlockComponent<Section, F>,
)
    requires
        block_balanced(section.block),
    ensures
        renders_balanced(section),
{
    assert forall|into: Document, out: Document| #[trigger]
        section.rendered(into, out) implies crate::document::extends_balanced(into@, out@) by {
        let (inner, done) = choose|inner: Document, done: Document|
            section.component.opened(into, inner) && #[trigger] call_ensures(
                section.block,
                (inner,),
                done,
            ) && section.component.closed(done, out);
        lemma_extends_in_section(into@, section.component.name@, inner@, done@, out@);
    }
}

/// An optional content keeps the balance if whatever the callback makes of
/// the value does.
pub proof fn lemma_if_some_balanced<'item, T, R: Render, F: Fn(&T) -> R>(
    optional: IfSome<'item, T, R, F>,
)
    requires
        forall|inner: T, content: R| #[trigger]
            call_ensures(optional.callback(), (&inner,), content) ==> renders_balanced(content),
    ensures
        renders_balanced(optional),
{
    assert forall|into: Document, out: Document| #[trigger]
        optional.rendered(into, out) implies crate::document::extends_balanced(into@, out@) by {
        match optional.option() {
            Some(inner) => {
                let content = choose|content: R| #[trigger]
                    call_ensures(optional.callback(), (&inner,), content) && content.rendered(
                        into,
                        out,
                    );
                assert(renders_balanced(content));
            },
            None => {
                lemma_extends_nothing(into@);
            },
        }
    }
}

/// An optional value keeps the balance if every clone of it does.
pub proof fn lemma_some_value_balanced<'item, T: Render + Clone>(optional: SomeValue<'item, T>)
    requires
        forall|inner: T, copy: T| #[trigger]
            vstd::pervasive::cloned(inner, copy) && optional.option() == Some(inner)
                ==> renders_balanced(copy),
    ensures
        renders_balanced(optional),
{
    assert forall|into: Document, out: Document| #[trigger]
        optional.rendered(into, out) implies crate::document::extends_balanced(into@, out@) by {
        match optional.option() {
            Some(inner) => {
                let copy = choose|copy: T| #[trigger]
                    vstd::pervasive::cloned(inner, copy) && copy.rendered(into, out);
                assert(renders_balanced(copy));
            },
            None => {
                lemma_extends_nothing(into@);
            },
        }
    }
}

/// Calling a block for each item keeps the balance if the block does and
/// what the component adds between the calls does.
pub proof fn lemma_iterated_balanced<Item, F: Fn(Item, Document) -> Document>(
    items: Seq<Item>,
    prepared: spec_fn(int, Document, Document) -> bool,
    block: F,
    document: Document,
    out: Document,
)
    requires
        crate::component::iterated(items, prepared, block, document, out),
        item_block_balanced::<Item, F>(block),
        forall|i: int, before: Document, inner: Document| #[trigger]
            prepared(i, before, inner) ==> crate::document::extends_balanced(before@, inner@),
    ensures
        crate::document::extends_balanced(document@, out@),
    decreases items.len(),
{
    if items.len() == 0 {
        lemma_extends_nothing(document@);
    } else {
        let (before, inner) = choose|before: Document, inner: Document|
            crate::component::iterated(items.drop_last(), prepared, block, document, before)
                && #[trigger] prepared(items.len() - 1, before, inner) && call_ensures(
                block,
                (items.last(), inner),
                out,
            );
        lemma_iterated_balanced(items.drop_last(), prepared, block, document, before);
        crate::document::lemma_extends_balanced_twice(document@, before@, inner@);
        crate::document::lemma_extends_balanced_twice(document@, inner@, out@);
    }
}

/// Rendering each item keeps the balance if the block does.
pub proof fn lemma_each_balanced<U, F: Fn(U, Document) -> Document>(
    each: CurriedIterBlockComponent<Each<U>, F>,
)
    requires
        item_block_balanced::<U, F>(each.block),
    ensures
        renders_balanced(each),
{
    let prepared = |i: int, before: Document, inner: Document|
        each.component.prepared(i, before, inner);
    assert forall|into: Document, out: Document| #[trigger]
        each.rendered(into, out) implies crate::document::extends_balanced(into@, out@) by {
        assert forall|i: int, before: Document, inner: Document| #[trigger]
            prepared(i, before, inner) implies crate::document::extends_balanced(
            before@,
            inner@,
        ) by {
            lemma_extends_nothing(before@);
        }
        lemma_iterated_balanced(each.component.items(), prepared, each.block, into, out);
    }
}

/// Rendering each item with a joiner between neighbours keeps the balance
/// if the block does.
pub proof fn lemma_join_balanced<U, F: Fn(U, Document) -> Document>(
    join: CurriedIterBlockComponent<Join<U>, F>,
)
    requires
        item_block_balanced::<U, F>(join.block),
    ensures
        renders_balanced(join),
{
    let prepared = |i: int, before: Document, inner: Document|
        join.component.prepared(i, before, inner);
    assert forall|into: Document, out: Document| #[trigger]
        join.rendered(into, out) implies crate::document::extends_balanced(into@, out@) by {
        assert forall|i: int, before: Document, inner: Document| #[trigger]
            prepared(i, before, inner) implies crate::document::extends_balanced(
            before@,
            inner@,
        ) by {
            if i == 0 {
                lemma_extends_nothing(before@);
            } else {
                let joiner = seq![NodeView::Text(join.component.joiner@)];
                crate::document::lemma_balanced_flat(joiner);
                assert(inner@ =~= before@ + joiner);
                lemma_extends_by(before@, joiner);
            }
        }
        lemma_iterated_balanced(join.component.items(), prepared, join.block, into, out);
    }
}

/// What a renderable that keeps the balance makes of an empty document is
/// balanced, and what it makes of a balanced document is balanced.
pub proof fn lemma_rendered_balanced<R: Render>(renderable: R, into: Document, out: Document)
    requires
        renders_balanced(renderable),
        renderable.rendered(into, out),
    ensures
        crate::document::balanced(into@) ==> crate::document::balanced(out@),
        crate::document::never_underflows(into@) ==> crate::document::never_underflows(out@),
        into@.len() == 0 ==> crate::document::balanced(out@),
{
    crate::document::lemma_extends_balanced(into@, out@);
    if into@.len() == 0 {
        crate::document::lemma_balanced_flat(into@);
    }
}

} // verus!
