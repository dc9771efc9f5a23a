//! Selectors: sequences of path segments that say which section nestings a
//! style rule applies to.

use crate::text::{split_str, str_eq};
use vstd::prelude::*;
use vstd::string::*;

verus! {

/// A Segment is one of:
///
/// - Root: the root of a stylesheet, which no selector holds
/// - Star: `*`, matches exactly one section name
/// - Glob: `**`, matches zero or more section names
/// - Name: matches a section name that is exactly this name
#[derive(Debug, Copy, Clone, Eq, PartialEq, Hash)]
pub enum Segment {
    Root,
    Star,
    Glob,
    Name(&'static str),
}

/// A segment with its name as a sequence of characters.
pub enum SegmentView {
    Root,
    Star,
    Glob,
    Name(Seq<char>),
}

impl View for Segment {
    type V = SegmentView;

    open spec fn view(&self) -> SegmentView {
        match self {
            Segment::Root => SegmentView::Root,
            Segment::Star => SegmentView::Star,
            Segment::Glob => SegmentView::Glob,
            Segment::Name(name) => SegmentView::Name(name@),
        }
    }
}

impl SegmentView {
    /// The segment that a token of a selector string stands for.
    pub open spec fn of_token(token: Seq<char>) -> SegmentView {
        if token == "**"@ {
            SegmentView::Glob
        } else if token == "*"@ {
            SegmentView::Star
        } else {
            SegmentView::Name(token)
        }
    }

    /// How the segment is written.
    pub open spec fn text(self) -> Seq<char> {
        match self {
            SegmentView::Name(name) => name,
            SegmentView::Glob => "**"@,
            SegmentView::Star => "*"@,
            SegmentView::Root => "\u{3b5}"@,
        }
    }
}

impl Segment {
    /// The segment that a token of a selector string stands for: `**` is a
    /// glob, `*` a star, anything else a name.
    pub fn from(from: &'static str) -> (r: Segment)
        ensures
            r@ == SegmentView::of_token(from@),
    {
        if str_eq(from, "**") {
            Segment::Glob
        } else if str_eq(from, "*") {
            Segment::Star
        } else {
            Segment::Name(from)
        }
    }

    /// Whether two segments are the same kind and, for names, the same name.
    pub fn same(&self, other: &Segment) -> (b: bool)
        ensures
            b == (self@ == other@),
    {
        match (self, other) {
            (Segment::Root, Segment::Root) => true,
            (Segment::Star, Segment::Star) => true,
            (Segment::Glob, Segment::Glob) => true,
            (Segment::Name(a), Segment::Name(b)) => str_eq(a, b),
            _ => false,
        }
    }

    pub fn is_glob(&self) -> (b: bool)
        ensures
            b == (self@ is Glob),
    {
        match self {
            Segment::Glob => true,
            _ => false,
        }
    }

    /// How the segment is written.
    pub fn to_string(&self) -> (r: String)
        ensures
            r@ == self@.text(),
    {
        match self {
            Segment::Name(name) => String::from_str(name),
            Segment::Glob => String::from_str("**"),
            Segment::Star => String::from_str("*"),
            Segment::Root => String::from_str("\u{3b5}"),
        }
    }
}

/// The segments of a list, each by its view.
pub open spec fn segment_views(segments: Seq<Segment>) -> Seq<SegmentView> {
    segments.map_values(|s: Segment| s@)
}

/// No glob is directly followed by another glob.
pub open spec fn no_adjacent_globs(segments: Seq<SegmentView>) -> bool {
    forall|i: int, j: int|
        0 <= i && j == i + 1 && j < segments.len() ==> !(#[trigger] segments[i] is Glob
            && #[trigger] segments[j] is Glob)
}

/// The selector that a selector string stands for: its tokens between
/// single spaces, each read as a segment.
pub open spec fn parse_selector(input: Seq<char>) -> Seq<SegmentView> {
    crate::text::split(input, ' ').map_values(|token: Seq<char>| SegmentView::of_token(token))
}

/// An ordered sequence of segments.
pub struct Selector {
    segments: Vec<Segment>,
}

/// A selector that ends in a glob. It can be extended with a star or a
/// name, but not with another glob.
pub struct GlobSelector {
    segments: Vec<Segment>,
}

impl View for Selector {
    type V = Seq<SegmentView>;

    closed spec fn view(&self) -> Seq<SegmentView> {
        segment_views(self.segments@)
    }
}

impl View for GlobSelector {
    type V = Seq<SegmentView>;

    closed spec fn view(&self) -> Seq<SegmentView> {
        segment_views(self.segments@)
    }
}

impl Selector {
    /// Whether the selector came about by the builder methods alone: it has
    /// no root, no two globs in a row, and does not end in a glob.
    pub open spec fn built(&self) -> bool {
        &&& no_adjacent_globs(self@)
        &&& forall|i: int| 0 <= i < self@.len() ==> !(#[trigger] self@[i] is Root)
        &&& self@.len() > 0 ==> !(self@.last() is Glob)
    }

    pub fn new() -> (r: Selector)
        ensures
            r@ == Seq::<SegmentView>::empty(),
            r.built(),
    {
        let r = Selector { segments: Vec::new() };
        assert(r@ =~= Seq::<SegmentView>::empty());
        r
    }

    pub fn glob() -> (r: GlobSelector)
        ensures
            r@ == seq![SegmentView::Glob],
            r.built(),
    {
        Selector::new().add_glob()
    }

    pub fn star() -> (r: Selector)
        ensures
            r@ == seq![SegmentView::Star],
            r.built(),
    {
        Selector::new().add_star()
    }

    pub fn name(name: &'static str) -> (r: Selector)
        ensures
            r@ == seq![SegmentView::Name(name@)],
            r.built(),
    {
        Selector::new().add(name)
    }

    pub fn add_glob(self) -> (r: GlobSelector)
        ensures
            r@ == self@.push(SegmentView::Glob),
            self.built() ==> r.built(),
    {
        let mut segments = self.segments;
        segments.push(Segment::Glob);
        let r = GlobSelector { segments };
        assert(r@ =~= self@.push(SegmentView::Glob));
        r
    }

    pub fn add_star(self) -> (r: Selector)
        ensures
            r@ == self@.push(SegmentView::Star),
            self.built() ==> r.built(),
    {
        let mut segments = self.segments;
        segments.push(Segment::Star);
        let r = Selector { segments };
        assert(r@ =~= self@.push(SegmentView::Star));
        r
    }

    pub fn add(self, segment: &'static str) -> (r: Selector)
        ensures
            r@ == self@.push(SegmentView::Name(segment@)),
            self.built() ==> r.built(),
    {
        let mut segments = self.segments;
        segments.push(Segment::Name(segment));
        let r = Selector { segments };
        assert(r@ =~= self@.push(SegmentView::Name(segment@)));
        r
    }

    /// Reads a selector string: tokens between single spaces, `**` for a
    /// glob, `*` for a star, anything else a name.
    pub fn from(from: &'static str) -> (r: Selector)
        ensures
            r@ == parse_selector(from@),
    {
        let parts = split_str(from, ' ');
        let ghost tokens = parts@.map_values(|p: &str| p@);
        let mut segments: Vec<Segment> = Vec::new();
        let mut i: usize = 0;
        while i < parts.len()
            invariant
                tokens == parts@.map_values(|p: &str| p@),
                i <= parts.len(),
                segments@.len() == i,
                forall|j: int| 0 <= j < i ==> segments@[j]@ == SegmentView::of_token(tokens[j]),
            decreases parts.len() - i,
        {
            segments.push(Segment::from(parts[i]));
            i += 1;
        }
        let r = Selector { segments };
        assert(r@ =~= parse_selector(from@));
        r
    }

    /// The segments, in order.
    pub fn segments(&self) -> (r: &Vec<Segment>)
        ensures
            segment_views(r@) == self@,
    {
        &self.segments
    }

    /// The segments, in order.
    pub fn into_segments(self) -> (r: Vec<Segment>)
        ensures
            segment_views(r@) == self@,
    {
        self.segments
    }
}

impl GlobSelector {
    /// Whether the selector came about by the builder methods alone: it has
    /// no root, no two globs in a row, and ends in a glob.
    pub open spec fn built(&self) -> bool {
        &&& no_adjacent_globs(self@)
        &&& forall|i: int| 0 <= i < self@.len() ==> !(#[trigger] self@[i] is Root)
        &&& self@.len() > 0
        &&& self@.last() is Glob
    }

    pub fn add_star(self) -> (r: Selector)
        ensures
            r@ == self@.push(SegmentView::Star),
            self.built() ==> r.built(),
    {
        let mut segments = self.segments;
        segments.push(Segment::Star);
        let r = Selector { segments };
        assert(r@ =~= self@.push(SegmentView::Star));
        r
    }

    pub fn add(self, segment: &'static str) -> (r: Selector)
        ensures
            r@ == self@.push(SegmentView::Name(segment@)),
            self.built() ==> r.built(),
    {
        let mut segments = self.segments;
        segments.push(Segment::Name(segment));
        let r = Selector { segments };
        assert(r@ =~= self@.push(SegmentView::Name(segment@)));
        r
    }

    /// The segments, in order.
    pub fn into_segments(self) -> (r: Vec<Segment>)
        ensures
            segment_views(r@) == self@,
    {
        self.segments
    }
}

/// What can be handed to a stylesheet as a selector.
pub trait IntoSelector: Sized {
    /// The selector that the value stands for.
    spec fn selector(self) -> Seq<SegmentView>;

    fn into_selector(self) -> (r: Selector)
        ensures
            r@ == self.selector(),
    ;
}

impl IntoSelector for Selector {
    open spec fn selector(self) -> Seq<SegmentView> {
        self@
    }

    fn into_selector(self) -> (r: Selector) {
        self
    }
}

impl IntoSelector for GlobSelector {
    open spec fn selector(self) -> Seq<SegmentView> {
        self@
    }

    fn into_selector(self) -> (r: Selector) {
        let r = Selector { segments: self.segments };
        assert(r@ == self@);
        r
    }
}

impl IntoSelector for &'static str {
    open spec fn selector(self) -> Seq<SegmentView> {
        parse_selector(self@)
    }

    fn into_selector(self) -> (r: Selector) {
        Selector::from(self)
    }
}

} // verus!
