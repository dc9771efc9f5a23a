//! Components: renderable units that take data, and blocks that they call
//! once, at most once, or once per item.

use crate::document::Document;
use crate::render::Render;
use vstd::prelude::*;

verus! {

/// A component that puts fixed content before and after a block, which it
/// calls exactly once.
pub trait BlockComponent: Sized {
    /// Whether `inner` is what the component hands to the block when it is
    /// appended to `document`. Unless an implementation says otherwise,
    /// nothing is known of it.
    open spec fn opened(self, document: Document, inner: Document) -> bool {
        true
    }

    /// Whether `out` is what the component makes of the document `done`
    /// that the block returned. Unless an implementation says otherwise,
    /// nothing is known of it.
    open spec fn closed(self, done: Document, out: Document) -> bool {
        true
    }

    fn append<F: FnOnce(Document) -> Document>(self, block: F, document: Document) -> (out:
        Document)
        requires
            forall|inner: Document| #[trigger]
                self.opened(document, inner) ==> call_requires(block, (inner,)),
        ensures
            exists|inner: Document, done: Document|
                self.opened(document, inner) && #[trigger] call_ensures(block, (inner,), done)
                    && self.closed(done, out),
    ;
}

/// A block component together with its block.
pub struct CurriedBlockComponent<B: BlockComponent, Block: FnOnce(Document) -> Document> {
    pub component: B,
    pub block: Block,
}

impl<B: BlockComponent, Block: FnOnce(Document) -> Document> CurriedBlockComponent<B, Block> {
    pub fn with(component: B, block: Block) -> (r: CurriedBlockComponent<B, Block>)
        ensures
            r.component == component,
            r.block == block,
    {
        CurriedBlockComponent { component, block }
    }
}

impl<B: BlockComponent, Block: FnOnce(Document) -> Document> Render for CurriedBlockComponent<
    B,
    Block,
> {
    open spec fn renders(self, into: Document) -> bool {
        forall|inner: Document| #[trigger]
            self.component.opened(into, inner) ==> call_requires(self.block, (inner,))
    }

    /// The component opens, the block runs once, the component closes.
    open spec fn rendered(self, into: Document, out: Document) -> bool {
        exists|inner: Document, done: Document|
            self.component.opened(into, inner) && #[trigger] call_ensures(
                self.block,
                (inner,),
                done,
            ) && self.component.closed(done, out)
    }

    fn render(self, document: Document) -> (out: Document) {
        (self.component).append(self.block, document)
    }
}

/// The documents that a block makes of `document` when it is called for the
/// items of `items` in order, where `prepared(i, before, inner)` says what
/// the component hands to the block for item `i`.
pub open spec fn iterated<Item, F: Fn(Item, Document) -> Document>(
    items: Seq<Item>,
    prepared: spec_fn(int, Document, Document) -> bool,
    block: F,
    document: Document,
    out: Document,
) -> bool
    decreases items.len(),
{
    if items.len() == 0 {
        out == document
    } else {
        exists|before: Document, inner: Document|
            iterated(items.drop_last(), prepared, block, document, before) && #[trigger] prepared(
                items.len() - 1,
                before,
                inner,
            ) && call_ensures(block, (items.last(), inner), out)
    }
}

/// A component that calls a block once for each of its items, in order.
pub trait IterBlockComponent: Sized {
    type Item;

    /// The items that the block is called for. Unless an implementation
    /// says otherwise, nothing is known of them.
    open spec fn items(self) -> Seq<Self::Item> {
        arbitrary()
    }

    /// Whether `inner` is what the component hands to the block for the
    /// item at `index`, when the document so far is `before`. Unless an
    /// implementation says otherwise, nothing is known of it.
    open spec fn prepared(self, index: int, before: Document, inner: Document) -> bool {
        true
    }

    fn append<F: Fn(Self::Item, Document) -> Document>(self, block: F, document: Document) -> (out:
        Document)
        requires
            forall|i: int, inner: Document|
                0 <= i < self.items().len() ==> #[trigger] call_requires(
                    block,
                    (self.items()[i], inner),
                ),
        ensures
            iterated(
                self.items(),
                |i: int, before: Document, inner: Document| self.prepared(i, before, inner),
                block,
                document,
                out,
            ),
    ;
}

/// An iterating component together with its block.
pub struct CurriedIterBlockComponent<
    B: IterBlockComponent,
    Block: Fn(B::Item, Document) -> Document,
> {
    pub component: B,
    pub block: Block,
}

impl<B: IterBlockComponent, Block: Fn(B::Item, Document) -> Document> CurriedIterBlockComponent<
    B,
    Block,
> {
    pub fn with(component: B, block: Block) -> (r: CurriedIterBlockComponent<B, Block>)
        ensures
            r.component == component,
            r.block == block,
    {
        CurriedIterBlockComponent { component, block }
    }
}

impl<B: IterBlockComponent, Block: Fn(B::Item, Document) -> Document> Render for CurriedIterBlockComponent<
    B,
    Block,
> {
    open spec fn renders(self, into: Document) -> bool {
        forall|i: int, inner: Document|
            0 <= i < self.component.items().len() ==> #[trigger] call_requires(
                self.block,
                (self.component.items()[i], inner),
            )
    }

    /// The block runs once for each item, in order.
    open spec fn rendered(self, into: Document, out: Document) -> bool {
        iterated(
            self.component.items(),
            |i: int, before: Document, inner: Document| self.component.prepared(i, before, inner),
            self.block,
            into,
            out,
        )
    }

    fn render(self, document: Document) -> (out: Document) {
        (self.component).append(self.block, document)
    }
}

/// A component that puts fixed content before and after a block, which it
/// calls at most once, with an item of its own.
pub trait OnceBlockComponent: Sized {
    type Item;

    /// Whether the component, appended to `document`, hands `inner` to the
    /// block together with `item`. Without an item the block is not called.
    /// Unless an implementation says otherwise, nothing is known of it.
    open spec fn opened(
        self,
        document: Document,
        item: Option<Self::Item>,
        inner: Document,
    ) -> bool {
        true
    }

    /// Whether `out` is what the component makes of the document `done`
    /// that the block returned or, if the block was not called, that it
    /// would have been handed. Unless an implementation says otherwise,
    /// nothing is known of it.
    open spec fn closed(self, done: Document, out: Document) -> bool {
        true
    }

    fn append<F: FnOnce(Self::Item, Document) -> Document>(
        self,
        block: F,
        document: Document,
    ) -> (out: Document)
        requires
            forall|item: Self::Item, inner: Document| #[trigger]
                self.opened(document, Some(item), inner) ==> call_requires(block, (item, inner)),
        ensures
            exists|item: Option<Self::Item>, inner: Document, done: Document|
                #[trigger] self.opened(document, item, inner) && #[trigger] self.closed(done, out)
                    && match item {
                    Some(item) => call_ensures(block, (item, inner), done),
                    None => done == inner,
                },
    ;
}

/// A once-block component together with its block.
pub struct CurriedOnceBlockComponent<
    B: OnceBlockComponent,
    Block: FnOnce(B::Item, Document) -> Document,
> {
    pub component: B,
    pub block: Block,
}

impl<
    B: OnceBlockComponent,
    Block: FnOnce(B::Item, Document) -> Document,
> CurriedOnceBlockComponent<B, Block> {
    pub fn with(component: B, block: Block) -> (r: CurriedOnceBlockComponent<B, Block>)
        ensures
            r.component == component,
            r.block == block,
    {
        CurriedOnceBlockComponent { component, block }
    }
}

impl<B: OnceBlockComponent, Block: FnOnce(B::Item, Document) -> Document> Render for CurriedOnceBlockComponent<
    B,
    Block,
> {
    open spec fn renders(self, into: Document) -> bool {
        forall|item: B::Item, inner: Document| #[trigger]
            self.component.opened(into, Some(item), inner) ==> call_requires(
                self.block,
                (item, inner),
            )
    }

    /// The component opens, the block runs at most once, the component
    /// closes.
    open spec fn rendered(self, into: Document, out: Document) -> bool {
        exists|item: Option<B::Item>, inner: Document, done: Document|
            #[trigger] self.component.opened(into, item, inner) && #[trigger] self.component.closed(
                done,
                out,
            ) && match item {
                Some(item) => call_ensures(self.block, (item, inner), done),
                None => done == inner,
            }
    }

    fn render(self, document: Document) -> (out: Document) {
        (self.component).append(self.block, document)
    }
}

/// A function together with the data it renders.
pub struct CurriedInlineComponent<T, F: FnOnce(T, Document) -> Document> {
    function: F,
    data: T,
}

impl<T, F: FnOnce(T, Document) -> Document> CurriedInlineComponent<T, F> {
    pub closed spec fn function(self) -> F {
        self.function
    }

    pub closed spec fn data(self) -> T {
        self.data
    }
}

impl<T, F: FnOnce(T, Document) -> Document> Render for CurriedInlineComponent<T, F> {
    open spec fn renders(self, into: Document) -> bool {
        call_requires(self.function(), (self.data(), into))
    }

    open spec fn rendered(self, into: Document, out: Document) -> bool {
        call_ensures(self.function(), (self.data(), into), out)
    }

    fn render(self, document: Document) -> (out: Document) {
        (self.function)(self.data, document)
    }
}

/// A renderable that calls `function` with `data` and the document.
#[allow(non_snake_case)]
pub fn Component<T, F: FnOnce(T, Document) -> Document>(function: F, data: T) -> (r:
    CurriedInlineComponent<T, F>)
    ensures
        r.function() == function,
        r.data() == data,
{
    CurriedInlineComponent { function, data }
}

/// A renderable entity with arguments.
pub trait RenderComponent<'args> {
    type Args;

    /// Whether the component can be rendered with `args` into `into`.
    /// Unless an implementation says otherwise, it always can.
    open spec fn renders(&self, args: Self::Args, into: Document) -> bool {
        true
    }

    /// Whether `out` is a result of rendering the component with `args`
    /// into `into`. Unless an implementation says otherwise, nothing is
    /// known of the result.
    open spec fn rendered(&self, args: Self::Args, into: Document, out: Document) -> bool {
        true
    }

    fn render(&self, args: Self::Args, into: Document) -> (out: Document)
        requires
            self.renders(args, into),
        ensures
            self.rendered(args, into, out),
    ;
}

/// A block that is called once with the document.
pub struct OnceBlock<F: FnOnce(Document) -> Document>(pub F);

impl<F: FnOnce(Document) -> Document> Render for OnceBlock<F> {
    open spec fn renders(self, into: Document) -> bool {
        call_requires(self.0, (into,))
    }

    open spec fn rendered(self, into: Document, out: Document) -> bool {
        call_ensures(self.0, (into,), out)
    }

    fn render(self, into: Document) -> (out: Document) {
        (self.0)(into)
    }
}

} // verus!
