//! The composition contract: anything that can add itself to a document.

use crate::document::{Document, Node, NodeView};
use vstd::prelude::*;
use vstd::string::*;

verus! {

/// A type that can be added to a document.
///
/// It is implemented for nodes, for documents, and for everything that can
/// be displayed, which is added as one run of text. To render a type that is
/// not yours, wrap it in a type of your own.
pub trait Render: Sized {
    /// Whether the value can be rendered into `into`. Unless an
    /// implementation says otherwise, it always can.
    open spec fn renders(self, into: Document) -> bool {
        true
    }

    /// Whether `out` is a result of rendering the value into `into`. Unless
    /// an implementation says otherwise, nothing is known of the result.
    open spec fn rendered(self, into: Document, out: Document) -> bool {
        true
    }

    /// Produces a new document with `self` added to the `into` document.
    fn render(self, into: Document) -> (out: Document)
        requires
            self.renders(into),
        ensures
            self.rendered(into, out),
    ;

    /// Renders into an empty document.
    fn into_fragment(self) -> (out: Document)
        requires
            forall|into: Document| into@.len() == 0 ==> self.renders(into),
        ensures
            exists|into: Document| into@.len() == 0 && #[trigger] self.rendered(into, out),
    {
        self.render(Document::empty())
    }
}

/// Sequencing for everything that can be rendered.
pub trait RenderExt: Render {
    /// This value followed by `other`.
    fn add<Right: Render>(self, other: Right) -> (r: Combine<Self, Right>)
        ensures
            r.left == self,
            r.right == other,
    ;
}

impl<T: Render> RenderExt for T {
    fn add<Right: Render>(self, other: Right) -> (r: Combine<Self, Right>) {
        Combine { left: self, right: other }
    }
}

/// Two renderables in sequence.
pub struct Combine<Left: Render, Right: Render> {
    pub left: Left,
    pub right: Right,
}

impl<Left: Render, Right: Render> Render for Combine<Left, Right> {
    open spec fn renders(self, into: Document) -> bool {
        &&& self.left.renders(into)
        &&& forall|mid: Document| #[trigger]
            self.left.rendered(into, mid) ==> self.right.renders(mid)
    }

    /// The right side is rendered into what the left side made of `into`.
    open spec fn rendered(self, into: Document, out: Document) -> bool {
        exists|mid: Document| #[trigger]
            self.left.rendered(into, mid) && self.right.rendered(mid, out)
    }

    fn render(self, into: Document) -> (out: Document) {
        into.add(self.left).add(self.right)
    }
}

/// A node is rendered by adding itself to the document.
impl Render for Node {
    open spec fn renders(self, into: Document) -> bool {
        true
    }

    open spec fn rendered(self, into: Document, out: Document) -> bool {
        out@ == into@.push(self@)
    }

    fn render(self, document: Document) -> (out: Document) {
        document.add_node(self)
    }
}

/// A document is rendered by putting its nodes after those of the document
/// that it is rendered into.
impl Render for Document {
    open spec fn renders(self, into: Document) -> bool {
        true
    }

    open spec fn rendered(self, into: Document, out: Document) -> bool {
        out@ == into@ + self@
    }

    fn render(self, into: Document) -> (out: Document) {
        into.extend(self)
    }
}

/// Renders the content that `callback` makes of the value of an option, and
/// nothing where there is no value.
#[verifier::reject_recursive_types(T)]
#[verifier::reject_recursive_types(R)]
pub struct IfSome<'item, T, R: Render, F: Fn(&T) -> R> {
    option: &'item Option<T>,
    callback: F,
}

impl<'item, T, R: Render, F: Fn(&T) -> R> IfSome<'item, T, R, F> {
    pub closed spec fn option(self) -> Option<T> {
        *self.option
    }

    pub closed spec fn callback(self) -> F {
        self.callback
    }
}

impl<'item, T, R: Render, F: Fn(&T) -> R> Render for IfSome<'item, T, R, F> {
    open spec fn renders(self, into: Document) -> bool {
        self.option() matches Some(inner) ==> {
            &&& call_requires(self.callback(), (&inner,))
            &&& forall|content: R| #[trigger]
                call_ensures(self.callback(), (&inner,), content) ==> content.renders(into)
        }
    }

    /// Without a value the document is unchanged; with one, the content
    /// that the callback made of it is rendered.
    open spec fn rendered(self, into: Document, out: Document) -> bool {
        match self.option() {
            Some(inner) => exists|content: R| #[trigger]
                call_ensures(self.callback(), (&inner,), content) && content.rendered(into, out),
            None => out == into,
        }
    }

    fn render(self, into: Document) -> (out: Document) {
        match self.option {
            Some(inner) => {
                let content = (self.callback)(inner);
                into.add(content)
            },
            None => into,
        }
    }
}

#[allow(non_snake_case)]
pub fn IfSome<'item, T, R: Render, F: Fn(&T) -> R>(option: &'item Option<T>, callback: F) -> (r:
    IfSome<'item, T, R, F>)
    ensures
        r.option() == *option,
        r.callback() == callback,
{
    IfSome { option, callback }
}

/// Renders the value of an option, and nothing where there is no value.
pub struct SomeValue<'item, T> {
    option: &'item Option<T>,
}

impl<'item, T> SomeValue<'item, T> {
    pub closed spec fn option(self) -> Option<T> {
        *self.option
    }
}

impl<'item, T: Render + Clone> Render for SomeValue<'item, T> {
    open spec fn renders(self, into: Document) -> bool {
        self.option() matches Some(inner) ==> forall|copy: T| #[trigger]
            vstd::pervasive::cloned(inner, copy) ==> copy.renders(into)
    }

    /// Without a value the document is unchanged; with one, a clone of it
    /// is rendered.
    open spec fn rendered(self, into: Document, out: Document) -> bool {
        match self.option() {
            Some(inner) => exists|copy: T| #[trigger]
                vstd::pervasive::cloned(inner, copy) && copy.rendered(into, out),
            None => out == into,
        }
    }

    fn render(self, into: Document) -> (out: Document) {
        match self.option {
            Some(inner) => {
                let copy = inner.clone();
                assert(vstd::pervasive::cloned(*inner, copy));
                copy.render(into)
            },
            None => into,
        }
    }
}

#[allow(non_snake_case)]
pub fn SomeValue<'item, R: Render + Clone>(option: &'item Option<R>) -> (r: SomeValue<'item, R>)
    ensures
        r.option() == *option,
{
    SomeValue { option }
}

/// Renders nothing.
pub struct Empty;

impl Render for Empty {
    open spec fn renders(self, into: Document) -> bool {
        true
    }

    open spec fn rendered(self, into: Document, out: Document) -> bool {
        out == into
    }

    fn render(self, document: Document) -> (out: Document) {
        document
    }
}

/// Anything that can be displayed is rendered as one run of text.
impl<T: core::fmt::Display> Render for T {
    open spec fn renders(self, into: Document) -> bool {
        true
    }

    open spec fn rendered(self, into: Document, out: Document) -> bool {
        exists|text: String| #[trigger]
            to_string_from_display_ensures::<T>(&self, text) && out@ == into@.push(
                NodeView::Text(text@),
            )
    }

    fn render(self, document: Document) -> (out: Document) {
        let text = self.to_string();
        document.add_node(Node::Text(text))
    }
}

} // verus!
