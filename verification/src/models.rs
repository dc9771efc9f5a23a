//! What the diagnostic components render: a header, and for each label the
//! line of source that it points into, resolved to plain values.

use crate::diagnostic::{Diagnostic, Label, LabelStyle};
use crate::emitter::Config;
use crate::severity::Severity;
use crate::span::{FileName, Location, ReportingFiles, ReportingSpan};
use crate::text::{decimal_string, trim_line_end_str};
use vstd::prelude::*;
use vstd::string::*;
use vstd::utf8::*;

verus! {

/// The first line of a diagnostic: severity, code and message.
#[derive(Copy, Clone, Debug)]
pub struct Header<'doc> {
    severity: Severity,
    code: Option<&'doc str>,
    message: &'doc str,
}

/// A header by its values.
pub struct HeaderView {
    pub severity: Severity,
    pub code: Option<Seq<char>>,
    pub message: Seq<char>,
}

impl<'doc> View for Header<'doc> {
    type V = HeaderView;

    closed spec fn view(&self) -> HeaderView {
        HeaderView {
            severity: self.severity,
            code: match self.code {
                Some(code) => Some(code@),
                None => None,
            },
            message: self.message@,
        }
    }
}

impl<'doc> Header<'doc> {
    pub fn new<Span: ReportingSpan>(diagnostic: &'doc Diagnostic<Span>) -> (r: Header<'doc>)
        ensures
            r@.severity == diagnostic.severity,
            r@.code == crate::text::option_view(diagnostic.code),
            r@.message == diagnostic.message@,
    {
        Header {
            severity: diagnostic.severity,
            code: match &diagnostic.code {
                Some(code) => Some(code.as_str()),
                None => None,
            },
            message: diagnostic.message.as_str(),
        }
    }

    /// The header with these values.
    pub fn from_parts(severity: Severity, code: Option<&'doc str>, message: &'doc str) -> (r:
        Header<'doc>)
        ensures
            r@.severity == severity,
            r@.code == match code {
                Some(code) => Some(code@),
                None => None,
            },
            r@.message == message@,
    {
        Header { severity, code, message }
    }

    /// The name of the severity, as the header shows it.
    pub fn severity(&self) -> (r: &'static str)
        ensures
            r@ == self@.severity.section(),
    {
        self.severity.section_name()
    }

    pub fn code(&self) -> (r: &Option<&'doc str>)
        ensures
            match *r {
                Some(code) => self@.code == Some(code@),
                None => self@.code is None,
            },
    {
        &self.code
    }

    pub fn message(&self) -> (r: String)
        ensures
            r@ == self@.message,
    {
        String::from_str(self.message)
    }
}

/// The name of the section that a diagnostic is rendered in.
pub fn severity<Span: ReportingSpan>(diagnostic: &Diagnostic<Span>) -> (r: &'static str)
    ensures
        r@ == diagnostic.severity.section(),
{
    diagnostic.severity.section_name()
}

/// Whether `shown` is how a file name is shown: a virtual name in angle
/// brackets, a real path as the configuration shows it, any other name as
/// it is.
pub open spec fn shows<C: Config>(config: &C, name: FileName, shown: Seq<char>) -> bool {
    match name {
        FileName::Virtual(name) => shown == seq!['<'] + name@ + seq!['>'],
        FileName::Real(path) => config.names(path@, shown),
        FileName::Verbatim(name) => shown == name@,
    }
}

/// How a file name is shown: a virtual name in angle brackets, a real
/// path as the configuration shows it, any other name as it is.
pub fn display_name<C: Config>(name: FileName, config: &C) -> (r: String)
    ensures
        shows(config, name, r@),
{
    match name {
        FileName::Virtual(name) => {
            proof {
                reveal_strlit("<");
                reveal_strlit(">");
                assert("<"@ =~= seq!['<']);
                assert(">"@ =~= seq!['>']);
            }
            let mut shown = String::from_str("<");
            shown.append(name.as_str());
            shown.append(">");
            shown
        },
        FileName::Real(path) => config.filename(path.as_str()),
        FileName::Verbatim(name) => name,
    }
}

/// The line of source that a label points into, in pieces.
#[derive(Clone, Debug)]
pub struct SourceLine {
    location: Location,
    line_number: usize,
    filename: String,
    before_marked: String,
    marked: String,
    after_marked: String,
}

/// A source line by its values.
pub struct SourceLineView {
    /// Where the marked code starts; the line is counted from zero.
    pub location: Location,
    /// The number of the line, counted from one.
    pub line_number: usize,
    /// The name of the file, as it is shown.
    pub filename: Seq<char>,
    /// The line up to the marked code.
    pub before_marked: Seq<char>,
    /// The marked code.
    pub marked: Seq<char>,
    /// The line after the marked code, without the line end.
    pub after_marked: Seq<char>,
}

impl View for SourceLine {
    type V = SourceLineView;

    closed spec fn view(&self) -> SourceLineView {
        SourceLineView {
            location: self.location,
            line_number: self.line_number,
            filename: self.filename@,
            before_marked: self.before_marked@,
            marked: self.marked@,
            after_marked: self.after_marked@,
        }
    }
}

/// The lookups that resolve a label, and what they were answered.
pub struct Lookups<Files: ReportingFiles> {
    /// The file that the label's span points into.
    pub file: Files::FileId,
    /// Where the span starts.
    pub location: Option<Location>,
    /// The name of the file, and how it is shown.
    pub name: FileName,
    pub shown: Seq<char>,
    /// The span of the line that the span starts in.
    pub line_span: Option<Files::Span>,
    /// The line up to the span, and its text.
    pub before_span: Files::Span,
    pub before: Option<Seq<char>>,
    /// The text of the span.
    pub marked: Option<Seq<char>>,
    /// The line after the span, and its text.
    pub after_span: Files::Span,
    pub after: Option<Seq<char>>,
}

/// Whether `line` is what resolving `span` comes to when the lookups are
/// answered as `found` says.
///
/// The span's file is asked where the span starts, how the file is named,
/// and for the span of the line that the span starts in. The span has to
/// lie within that line. The file is then asked for three texts: the line up
/// to the span, the span, and the line after the span. There is a line only
/// if every question was answered; its number is one more than the line of
/// the location, and the line end is taken off the text after the span.
pub open spec fn resolution<Files: ReportingFiles, C: Config>(
    files: &Files,
    config: &C,
    span: Files::Span,
    found: Lookups<Files>,
    line: Option<SourceLineView>,
) -> bool {
    &&& files.in_file(span, found.file)
    &&& files.locates(found.file, span.bounds().0, found.location)
    &&& match found.location {
        None => line is None,
        Some(location) => if location.line == usize::MAX {
            line is None
        } else {
            &&& files.has_name(found.file, found.name)
            &&& shows(config, found.name, found.shown)
            &&& files.spans_line(found.file, location.line, found.line_span)
            &&& match found.line_span {
                None => line is None,
                Some(line_span) => if span.bounds().0 < line_span.bounds().0 || span.bounds().1
                    > line_span.bounds().1 {
                    line is None
                } else {
                    &&& found.before_span.bounds() == (line_span.bounds().0, span.bounds().0)
                    &&& files.reads(found.before_span, found.before)
                    &&& match found.before {
                        None => line is None,
                        Some(before_marked) => {
                            &&& files.reads(span, found.marked)
                            &&& match found.marked {
                                None => line is None,
                                Some(marked) => {
                                    &&& found.after_span.bounds() == (
                                        span.bounds().1,
                                        line_span.bounds().1,
                                    )
                                    &&& files.reads(found.after_span, found.after)
                                    &&& match found.after {
                                        None => line is None,
                                        Some(after_marked) => line == Some(
                                            SourceLineView {
                                                location,
                                                line_number: (location.line + 1) as usize,
                                                filename: found.shown,
                                                before_marked,
                                                marked,
                                                after_marked: crate::text::trim_line_end(
                                                    after_marked,
                                                ),
                                            },
                                        ),
                                    }
                                },
                            }
                        },
                    }
                },
            }
        },
    }
}

/// Whether `line` is what resolving `span` against `files` can come to.
pub open spec fn resolves<Files: ReportingFiles, C: Config>(
    files: &Files,
    config: &C,
    span: Files::Span,
    line: Option<SourceLineView>,
) -> bool {
    exists|found: Lookups<Files>| #[trigger] resolution(files, config, span, found, line)
}

/// What an optional source line holds.
pub open spec fn source_line_view(line: Option<SourceLine>) -> Option<SourceLineView> {
    match line {
        Some(line) => Some(line@),
        None => None,
    }
}

impl SourceLine {
    /// The source line with these pieces. The line end is taken off the
    /// text after the marked code.
    pub fn from_parts(
        location: Location,
        filename: String,
        before_marked: String,
        marked: String,
        after_marked: &str,
    ) -> (r: SourceLine)
        requires
            location.line < usize::MAX,
        ensures
            r@ == (SourceLineView {
                location,
                line_number: (location.line + 1) as usize,
                filename: filename@,
                before_marked: before_marked@,
                marked: marked@,
                after_marked: crate::text::trim_line_end(after_marked@),
            }),
    {
        SourceLine {
            location,
            line_number: location.line + 1,
            filename,
            before_marked,
            marked,
            after_marked: String::from_str(trim_line_end_str(after_marked)),
        }
    }

    /// Looks up the line that `label` points into. There is none where the
    /// files do not know the label's span, its line, or the text of one of
    /// the pieces.
    pub fn new<Files: ReportingFiles, C: Config>(
        files: &Files,
        label: &Label<Files::Span>,
        config: &C,
    ) -> (r: Option<SourceLine>)
        ensures
            resolves(files, config, label.span, source_line_view(r)),
    {
        let span = label.span;
        let file = files.file_id(span);
        let start = span.start();
        let end = span.end();
        let found_location = files.location(file, start);
        let ghost mut found: Lookups<Files> = Lookups {
            file,
            location: found_location,
            name: arbitrary(),
            shown: arbitrary(),
            line_span: arbitrary(),
            before_span: arbitrary(),
            before: arbitrary(),
            marked: arbitrary(),
            after_span: arbitrary(),
            after: arbitrary(),
        };
        let location = match found_location {
            Some(location) => location,
            None => {
                assert(resolution(files, config, span, found, None));
                return None;
            },
        };
        if location.line == usize::MAX {
            assert(resolution(files, config, span, found, None));
            return None;
        }
        let name = files.file_name(file);
        let ghost shown_name = name;
        let filename = display_name(name, config);
        let found_line_span = files.line_span(file, location.line);
        proof {
            found = Lookups {
                name: shown_name,
                shown: filename@,
                line_span: found_line_span,
                ..found
            };
        }
        let line_span = match found_line_span {
            Some(line_span) => line_span,
            None => {
                assert(resolution(files, config, span, found, None));
                return None;
            },
        };
        if start < line_span.start() || end > line_span.end() {
            assert(resolution(files, config, span, found, None));
            return None;
        }
        let before_span = line_span.with_end(start);
        let found_before = files.source(before_span);
        proof {
            found = Lookups {
                before_span,
                before: crate::text::option_view(found_before),
                ..found
            };
        }
        let before_marked = match found_before {
            Some(text) => text,
            None => {
                assert(resolution(files, config, span, found, None));
                return None;
            },
        };
        let found_marked = files.source(span);
        proof {
            found = Lookups { marked: crate::text::option_view(found_marked), ..found };
        }
        let marked = match found_marked {
            Some(text) => text,
            None => {
                assert(resolution(files, config, span, found, None));
                return None;
            },
        };
        let after_span = line_span.with_start(end);
        let found_after = files.source(after_span);
        proof {
            found = Lookups {
                after_span,
                after: crate::text::option_view(found_after),
                ..found
            };
        }
        let after_marked = match found_after {
            Some(text) => text,
            None => {
                assert(resolution(files, config, span, found, None));
                return None;
            },
        };
        let line = SourceLine::from_parts(
            location,
            filename,
            before_marked,
            marked,
            after_marked.as_str(),
        );
        assert(resolution(files, config, span, found, Some(line@)));
        Some(line)
    }

    pub fn location(&self) -> (r: Location)
        ensures
            r == self@.location,
    {
        self.location
    }

    pub fn filename(&self) -> (r: String)
        ensures
            r@ == self@.filename,
    {
        self.filename.clone()
    }

    /// The number of the line, counted from one.
    pub fn line_number(&self) -> (r: usize)
        ensures
            r == self@.line_number,
    {
        self.line_number
    }

    /// How many digits the line number has.
    pub fn line_number_len(&self) -> (r: usize)
        ensures
            r == encode_utf8(crate::text::decimal(self@.line_number as nat)).len(),
    {
        decimal_string(self.line_number()).as_str().as_bytes().len()
    }

    pub fn before_marked(&self) -> (r: String)
        ensures
            r@ == self@.before_marked,
    {
        self.before_marked.clone()
    }

    pub fn after_marked(&self) -> (r: String)
        ensures
            r@ == self@.after_marked,
    {
        self.after_marked.clone()
    }

    pub fn marked(&self) -> (r: String)
        ensures
            r@ == self@.marked,
    {
        self.marked.clone()
    }
}

/// A source line together with the label that points into it.
#[derive(Clone, Debug)]
pub struct LabelledLine {
    source_line: SourceLine,
    style: LabelStyle,
    message: Option<String>,
}

/// A labelled line by its values.
pub struct LabelledLineView {
    pub source_line: SourceLineView,
    pub style: LabelStyle,
    pub message: Option<Seq<char>>,
}

impl View for LabelledLine {
    type V = LabelledLineView;

    closed spec fn view(&self) -> LabelledLineView {
        LabelledLineView {
            source_line: self.source_line@,
            style: self.style,
            message: crate::text::option_view(self.message),
        }
    }
}

impl LabelledLine {
    pub fn new<Span: ReportingSpan>(source_line: SourceLine, label: &Label<Span>) -> (r:
        LabelledLine)
        ensures
            r@.source_line == source_line@,
            r@.style == label.style,
            r@.message == crate::text::option_view(label.message),
    {
        LabelledLine { source_line, style: label.style, message: label.message.clone() }
    }

    /// The character that underlines the marked code.
    pub fn mark(&self) -> (r: &'static str)
        ensures
            r@ == self@.style.mark_text(),
    {
        self.style.mark()
    }

    /// The name of the section that the marked code is rendered in.
    pub fn style(&self) -> (r: &'static str)
        ensures
            r@ == self@.style.section(),
    {
        self.style.style()
    }

    pub fn message(&self) -> (r: &Option<String>)
        ensures
            crate::text::option_view(*r) == self@.message,
    {
        &self.message
    }

    pub fn source_line(&self) -> (r: &SourceLine)
        ensures
            r@ == self@.source_line,
    {
        &self.source_line
    }
}

} // verus!
