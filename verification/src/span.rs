//! What a diagnostic needs to know of source files: spans, locations, and
//! the lookups that resolve one into the other.

use vstd::prelude::*;
use vstd::string::*;

verus! {

/// The name of a file, as it is shown in a diagnostic.
#[derive(Debug)]
pub enum FileName {
    /// A file that exists only in memory; shown in angle brackets.
    Virtual(String),
    /// A file on disk; the configuration decides how its path is shown.
    Real(String),
    /// A name that is shown as it is.
    Verbatim(String),
}

/// A position in a file.
#[derive(Debug, Copy, Clone, Eq, PartialEq, Hash, Ord, PartialOrd)]
pub struct Location {
    pub line: usize,
    pub column: usize,
}

impl Location {
    pub fn new(line: usize, column: usize) -> (r: Location)
        ensures
            r.line == line,
            r.column == column,
    {
        Location { line, column }
    }
}

/// A region of a file between two byte offsets.
pub trait ReportingSpan: Copy {
    /// The offset where the span starts and the one where it ends. Unless
    /// an implementation says otherwise, nothing is known of them.
    open spec fn bounds(&self) -> (usize, usize) {
        arbitrary()
    }

    /// The span from `start` to the end of this one.
    fn with_start(&self, start: usize) -> (r: Self)
        requires
            start <= self.bounds().1,
        ensures
            r.bounds() == (start, self.bounds().1),
    ;

    /// The span from the start of this one to `end`.
    fn with_end(&self, end: usize) -> (r: Self)
        requires
            self.bounds().0 <= end,
        ensures
            r.bounds() == (self.bounds().0, end),
    ;

    fn start(&self) -> (r: usize)
        ensures
            r == self.bounds().0,
    ;

    fn end(&self) -> (r: usize)
        ensures
            r == self.bounds().1,
    ;
}

/// A set of source files that spans point into.
pub trait ReportingFiles: Clone {
    type Span: ReportingSpan;

    type FileId: Copy;

    /// Whether `file` is one of the files. Unless an implementation says
    /// otherwise, every file is.
    open spec fn known(&self, file: Self::FileId) -> bool {
        true
    }

    /// Whether `file` is the file that `span` points into, as `file_id`
    /// tells it. Unless an implementation says otherwise, nothing is known
    /// of it.
    open spec fn in_file(&self, span: Self::Span, file: Self::FileId) -> bool {
        true
    }

    /// Whether `name` is the name of `file`, as `file_name` tells it.
    /// Unless an implementation says otherwise, nothing is known of it.
    open spec fn has_name(&self, file: Self::FileId, name: FileName) -> bool {
        true
    }

    /// Whether `location` is what `location` answers for a byte offset.
    /// Unless an implementation says otherwise, nothing is known of it.
    open spec fn locates(
        &self,
        file: Self::FileId,
        byte_index: usize,
        location: Option<Location>,
    ) -> bool {
        true
    }

    /// Whether `span` is what `line_span` answers for a line. Unless an
    /// implementation says otherwise, nothing is known of it.
    open spec fn spans_line(
        &self,
        file: Self::FileId,
        lineno: usize,
        span: Option<Self::Span>,
    ) -> bool {
        true
    }

    /// Whether `text` is what `source` answers for a span. Unless an
    /// implementation says otherwise, nothing is known of it.
    open spec fn reads(&self, span: Self::Span, text: Option<Seq<char>>) -> bool {
        true
    }

    /// The span between two byte offsets of a file.
    fn byte_span(&self, file: Self::FileId, from_index: usize, to_index: usize) -> (r: Option<
        Self::Span,
    >)
        ensures
            r matches Some(span) ==> span.bounds() == (from_index, to_index),
    ;

    /// The file that a span points into.
    fn file_id(&self, span: Self::Span) -> (r: Self::FileId)
        ensures
            self.in_file(span, r),
    ;

    /// The name of a file.
    fn file_name(&self, file: Self::FileId) -> (r: FileName)
        requires
            self.known(file),
        ensures
            self.has_name(file, r),
    ;

    /// The byte offset of a line and column.
    fn byte_index(&self, file: Self::FileId, line: usize, column: usize) -> (r: Option<usize>)
        ensures
            r is Some ==> self.known(file),
    ;

    /// The line and column of a byte offset.
    fn location(&self, file: Self::FileId, byte_index: usize) -> (r: Option<Location>)
        ensures
            r is Some ==> self.known(file),
            self.locates(file, byte_index, r),
    ;

    /// The span of a line, without the line feed that ends it.
    fn line_span(&self, file: Self::FileId, lineno: usize) -> (r: Option<Self::Span>)
        ensures
            r is Some ==> self.known(file),
            self.spans_line(file, lineno, r),
    ;

    /// The text that a span covers.
    fn source(&self, span: Self::Span) -> (r: Option<String>)
        ensures
            self.reads(span, crate::text::option_view(r)),
    ;
}

} // verus!
