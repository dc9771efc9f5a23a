//! Source files held in memory, with spans that are byte ranges.

use crate::span::{FileName, Location, ReportingFiles, ReportingSpan};
use vstd::prelude::*;
use vstd::string::*;
use vstd::utf8::*;

verus! {

/// The byte that ends a line.
pub open spec fn line_feed() -> u8 {
    10
}

/// The number of line feeds among the first `end` bytes.
pub open spec fn line_feeds(bytes: Seq<u8>, end: int) -> nat
    decreases end,
{
    if end <= 0 {
        0
    } else {
        line_feeds(bytes, end - 1) + if bytes[end - 1] == line_feed() {
            1nat
        } else {
            0nat
        }
    }
}

/// The position of the last line feed among the first `end` bytes, or zero
/// where there is none.
pub open spec fn last_line_feed(bytes: Seq<u8>, end: int) -> int
    decreases end,
{
    if end <= 0 {
        0
    } else if bytes[end - 1] == line_feed() {
        end - 1
    } else {
        last_line_feed(bytes, end - 1)
    }
}

/// Whether the line with index `line` begins at `begin` and is ended by
/// the line feed at `end`.
pub open spec fn is_line(bytes: Seq<u8>, line: int, begin: int, end: int) -> bool {
    &&& 0 <= begin <= end < bytes.len()
    &&& bytes[end] == line_feed()
    &&& line_feeds(bytes, end) == line
    &&& forall|k: int| begin <= k < end ==> bytes[k] != line_feed()
    &&& (begin == 0 || bytes[begin - 1] == line_feed())
}

/// Whether a line feed follows the byte at `index`.
pub open spec fn line_feed_after(bytes: Seq<u8>, index: int) -> bool {
    exists|k: int| index < k < bytes.len() && bytes[k] == line_feed()
}

/// A file with a name and contents.
#[derive(Debug, Clone)]
pub struct SimpleFile {
    name: String,
    contents: String,
}

impl SimpleFile {
    pub closed spec fn name(&self) -> Seq<char> {
        self.name@
    }

    pub closed spec fn contents(&self) -> Seq<char> {
        self.contents@
    }

    /// The contents as bytes.
    pub open spec fn bytes(&self) -> Seq<u8> {
        encode_utf8(self.contents())
    }
}

/// Files held in memory, numbered in the order in which they were added.
#[derive(Debug, Clone)]
pub struct SimpleReportingFiles {
    files: Vec<SimpleFile>,
}

impl View for SimpleReportingFiles {
    type V = Seq<SimpleFile>;

    closed spec fn view(&self) -> Seq<SimpleFile> {
        self.files@
    }
}

impl Default for SimpleReportingFiles {
    fn default() -> (r: SimpleReportingFiles)
        ensures
            r@.len() == 0,
    {
        SimpleReportingFiles { files: Vec::new() }
    }
}

impl SimpleReportingFiles {
    /// Adds a file and returns its number.
    pub fn add(&mut self, name: &str, value: &str) -> (r: usize)
        ensures
            r == old(self)@.len(),
            final(self)@.len() == old(self)@.len() + 1,
            final(self)@.take(r as int) == old(self)@,
            final(self)@[r as int].name() == name@,
            final(self)@[r as int].contents() == value@,
    {
        self.files.push(SimpleFile { name: String::from_str(name), contents: String::from_str(value) });
        assert(self.files@.take(old(self).files@.len() as int) =~= old(self).files@);
        self.files.len() - 1
    }

    /// The byte offset of the column `column` of the line `line`, both
    /// counted from zero. Only lines that end in a line feed are found.
    pub fn find_byte_index(&self, file: usize, line: usize, column: usize) -> (r: Option<usize>)
        requires
            file < self@.len() ==> column + self@[file as int].bytes().len() <= usize::MAX,
        ensures
            match r {
                Some(index) => file < self@.len() && exists|begin: int, end: int|
                    is_line(self@[file as int].bytes(), line as int, begin, end) && index == begin
                        + column,
                None => file < self@.len() ==> forall|begin: int, end: int|
                    !is_line(self@[file as int].bytes(), line as int, begin, end),
            },
    {
        match self.find_line(file, line) {
            Some((begin, _)) => Some(begin + column),
            None => None,
        }
    }

    /// Where the line `line` begins and where the line feed is that ends
    /// it.
    fn find_line(&self, file: usize, line: usize) -> (r: Option<(usize, usize)>)
        ensures
            match r {
                Some((begin, end)) => file < self@.len() && is_line(
                    self@[file as int].bytes(),
                    line as int,
                    begin as int,
                    end as int,
                ),
                None => file < self@.len() ==> forall|begin: int, end: int|
                    !is_line(self@[file as int].bytes(), line as int, begin, end),
            },
    {
        if file >= self.files.len() {
            return None;
        }
        let source = self.files[file].contents.as_str().as_bytes();
        let ghost bytes = self@[file as int].bytes();
        let mut seen_lines: usize = 0;
        let mut seen_bytes: usize = 0;
        let mut pos: usize = 0;
        while pos < source.len()
            invariant
                file < self@.len(),
                bytes == self@[file as int].bytes(),
                source@ == bytes,
                pos <= source.len(),
                seen_bytes <= pos,
                seen_lines == line_feeds(bytes, pos as int),
                seen_lines <= pos,
                seen_bytes == 0 || bytes[seen_bytes - 1] == line_feed(),
                forall|k: int| seen_bytes <= k < pos ==> bytes[k] != line_feed(),
                forall|e: int|
                    0 <= e < pos && bytes[e] == line_feed() ==> line_feeds(bytes, e) != line,
            decreases source.len() - pos,
        {
            if source[pos] == 10 {
                if seen_lines == line {
                    return Some((seen_bytes, pos));
                }
                seen_lines += 1;
                seen_bytes = pos + 1;
            }
            pos += 1;
        }
        assert forall|begin: int, end: int| !is_line(bytes, line as int, begin, end) by {}
        None
    }

    /// The line and column of the byte offset `index`. The line is counted
    /// from zero. The column is counted from the line feed before the
    /// offset, or from the start of the file where there is none. Only
    /// offsets that a line feed follows are found.
    pub fn find_location(&self, file: usize, index: usize) -> (r: Option<Location>)
        ensures
            match r {
                Some(location) => {
                    &&& file < self@.len()
                    &&& line_feed_after(self@[file as int].bytes(), index as int)
                    &&& location.line == line_feeds(self@[file as int].bytes(), index + 1)
                    &&& location.column == index - last_line_feed(
                        self@[file as int].bytes(),
                        index + 1,
                    )
                },
                None => file < self@.len() ==> !line_feed_after(
                    self@[file as int].bytes(),
                    index as int,
                ),
            },
    {
        if file >= self.files.len() {
            return None;
        }
        let source = self.files[file].contents.as_str().as_bytes();
        let ghost bytes = self@[file as int].bytes();
        let mut seen_lines: usize = 0;
        let mut seen_bytes: usize = 0;
        let mut pos: usize = 0;
        while pos < source.len()
            invariant
                file < self@.len(),
                bytes == self@[file as int].bytes(),
                source@ == bytes,
                pos <= source.len(),
                seen_lines <= pos,
                pos <= index + 1 ==> seen_lines == line_feeds(bytes, pos as int),
                pos <= index + 1 ==> seen_bytes == last_line_feed(bytes, pos as int),
                pos > index + 1 ==> seen_lines == line_feeds(bytes, index + 1),
                pos > index + 1 ==> seen_bytes == last_line_feed(bytes, index + 1),
                seen_bytes <= pos,
                seen_bytes <= index,
                forall|k: int| index < k < pos ==> bytes[k] != line_feed(),
            decreases source.len() - pos,
        {
            if source[pos] == 10 {
                if pos > index {
                    assert(line_feed_after(bytes, index as int));
                    return Some(Location::new(seen_lines, index - seen_bytes));
                }
                seen_lines += 1;
                seen_bytes = pos;
            }
            pos += 1;
        }
        None
    }

    /// The span of the line `line`, counted from zero, without the line
    /// feed that ends it. Only lines that end in a line feed are found.
    pub fn find_line_span(&self, file: usize, line: usize) -> (r: Option<SimpleSpan>)
        ensures
            match r {
                Some(span) => {
                    &&& file < self@.len()
                    &&& span.file() == file
                    &&& is_line(
                        self@[file as int].bytes(),
                        line as int,
                        span.bounds().0 as int,
                        span.bounds().1 as int,
                    )
                },
                None => file < self@.len() ==> forall|begin: int, end: int|
                    !is_line(self@[file as int].bytes(), line as int, begin, end),
            },
    {
        match self.find_line(file, line) {
            Some((begin, end)) => Some(SimpleSpan::new(file, begin, end)),
            None => None,
        }
    }

    /// The text between the offsets of `span`, where the span lies within
    /// its file and neither offset splits a character.
    pub fn find_source(&self, span: SimpleSpan) -> (r: Option<String>)
        ensures
            match r {
                Some(text) => {
                    &&& span.file() < self@.len()
                    &&& span.bounds().1 <= self@[span.file() as int].bytes().len()
                    &&& encode_utf8(text@) == self@[span.file() as int].bytes().subrange(
                        span.bounds().0 as int,
                        span.bounds().1 as int,
                    )
                },
                None => span.file() < self@.len() && span.bounds().1
                    <= self@[span.file() as int].bytes().len() ==> {
                    let bytes = self@[span.file() as int].bytes();
                    let start = span.bounds().0 as int;
                    !is_char_boundary(bytes, start) || !is_char_boundary(
                        bytes.subrange(start, bytes.len() as int),
                        span.bounds().1 - start,
                    )
                },
            },
    {
        proof {
            use_type_invariant(span);
        }
        if span.file_id >= self.files.len() {
            return None;
        }
        let source = self.files[span.file_id].contents.as_str();
        if span.end > source.as_bytes().len() {
            return None;
        }
        if !source.is_char_boundary(span.start) {
            return None;
        }
        let (_, tail) = source.split_at(span.start);
        if !tail.is_char_boundary(span.end - span.start) {
            return None;
        }
        let (piece, _) = tail.split_at(span.end - span.start);
        let text = String::from_str(piece);
        proof {
            let bytes = self@[span.file() as int].bytes();
            assert(piece.spec_bytes() =~= bytes.subrange(span.start as int, span.end as int));
        }
        Some(text)
    }
}

impl ReportingFiles for SimpleReportingFiles {
    type Span = SimpleSpan;

    type FileId = usize;

    open spec fn known(&self, file: usize) -> bool {
        file < self@.len()
    }

    /// The file is the one that the span was made for.
    open spec fn in_file(&self, span: SimpleSpan, file: usize) -> bool {
        file == span.file()
    }

    /// The name is the one that the file was added with, shown as it is.
    open spec fn has_name(&self, file: usize, name: FileName) -> bool {
        name matches FileName::Verbatim(text) && text@ == self@[file as int].name()
    }

    /// The line is the number of line feeds up to the offset. The column is
    /// counted from the line feed before the offset, or from the start of
    /// the file where there is none. Offsets that no line feed follows are
    /// not found, nor are offsets in a file that is not there.
    open spec fn locates(&self, file: usize, index: usize, location: Option<Location>) -> bool {
        match location {
            Some(location) => {
                &&& file < self@.len()
                &&& line_feed_after(self@[file as int].bytes(), index as int)
                &&& location.line == line_feeds(self@[file as int].bytes(), index + 1)
                &&& location.column == index - last_line_feed(
                    self@[file as int].bytes(),
                    index + 1,
                )
            },
            None => file < self@.len() ==> !line_feed_after(
                self@[file as int].bytes(),
                index as int,
            ),
        }
    }

    /// The span runs from where the line begins to the line feed that ends
    /// it. Lines that no line feed ends are not found, nor are lines of a
    /// file that is not there.
    open spec fn spans_line(&self, file: usize, line: usize, span: Option<SimpleSpan>) -> bool {
        match span {
            Some(span) => {
                &&& file < self@.len()
                &&& span.file() == file
                &&& is_line(
                    self@[file as int].bytes(),
                    line as int,
                    span.bounds().0 as int,
                    span.bounds().1 as int,
                )
            },
            None => file < self@.len() ==> forall|begin: int, end: int|
                !is_line(self@[file as int].bytes(), line as int, begin, end),
        }
    }

    /// The text is what the bytes between the offsets of the span encode.
    /// There is none where the file is not there, where the span ends
    /// beyond the file, or where one of the offsets splits a character.
    open spec fn reads(&self, span: SimpleSpan, text: Option<Seq<char>>) -> bool {
        match text {
            Some(text) => {
                &&& span.file() < self@.len()
                &&& span.bounds().1 <= self@[span.file() as int].bytes().len()
                &&& encode_utf8(text) == self@[span.file() as int].bytes().subrange(
                    span.bounds().0 as int,
                    span.bounds().1 as int,
                )
            },
            None => span.file() < self@.len() && span.bounds().1
                <= self@[span.file() as int].bytes().len() ==> {
                let bytes = self@[span.file() as int].bytes();
                let start = span.bounds().0 as int;
                !is_char_boundary(bytes, start) || !is_char_boundary(
                    bytes.subrange(start, bytes.len() as int),
                    span.bounds().1 - start,
                )
            },
        }
    }

    fn file_id(&self, span: SimpleSpan) -> (r: usize) {
        span.file_id
    }

    fn file_name(&self, id: usize) -> (r: FileName) {
        FileName::Verbatim(self.files[id].name.clone())
    }

    fn byte_span(&self, file: usize, from_index: usize, to_index: usize) -> (r: Option<
        SimpleSpan,
    >)
        ensures
            match r {
                Some(span) => from_index <= to_index && span.file() == file,
                None => from_index > to_index,
            },
    {
        if from_index <= to_index {
            Some(SimpleSpan::new(file, from_index, to_index))
        } else {
            None
        }
    }

    fn byte_index(&self, file: usize, line: usize, column: usize) -> (r: Option<usize>)
        ensures
            match r {
                Some(index) => exists|begin: int, end: int|
                    is_line(self@[file as int].bytes(), line as int, begin, end) && index == begin
                        + column,
                None => file < self@.len() && column + self@[file as int].bytes().len()
                    <= usize::MAX ==> forall|begin: int, end: int|
                    !is_line(self@[file as int].bytes(), line as int, begin, end),
            },
    {
        if file < self.files.len() && column <= usize::MAX
            - self.files[file].contents.as_str().as_bytes().len() {
            self.find_byte_index(file, line, column)
        } else {
            None
        }
    }

    fn location(&self, file: usize, index: usize) -> (r: Option<Location>) {
        self.find_location(file, index)
    }

    fn line_span(&self, file: usize, line: usize) -> (r: Option<SimpleSpan>) {
        self.find_line_span(file, line)
    }

    fn source(&self, span: SimpleSpan) -> (r: Option<String>) {
        self.find_source(span)
    }
}

/// A range of bytes in one of the files.
#[derive(Debug, Copy, Clone)]
pub struct SimpleSpan {
    file_id: usize,
    start: usize,
    end: usize,
}

impl SimpleSpan {
    #[verifier::type_invariant]
    closed spec fn ordered(&self) -> bool {
        self.start <= self.end
    }

    /// The number of the file that the span points into.
    pub closed spec fn file(&self) -> usize {
        self.file_id
    }

    /// The span from `start` to `end` in the file `file_id`.
    pub fn new(file_id: usize, start: usize, end: usize) -> (r: SimpleSpan)
        requires
            end >= start,
        ensures
            r.file() == file_id,
            r.bounds() == (start, end),
    {
        SimpleSpan { file_id, start, end }
    }
}

impl ReportingSpan for SimpleSpan {
    closed spec fn bounds(&self) -> (usize, usize) {
        (self.start, self.end)
    }

    fn with_start(&self, start: usize) -> (r: SimpleSpan) {
        SimpleSpan::new(self.file_id, start, self.end)
    }

    fn with_end(&self, end: usize) -> (r: SimpleSpan) {
        SimpleSpan::new(self.file_id, self.start, end)
    }

    fn start(&self) -> (r: usize) {
        self.start
    }

    fn end(&self) -> (r: usize) {
        self.end
    }
}

} // verus!
