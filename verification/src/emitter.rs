//! Emitting a diagnostic: resolving its labels against the source files,
//! laying it out, and working out what the terminal is told.

use crate::color::Color;
use crate::components;
use crate::diagnostic::Diagnostic;
use crate::document::Document;
use crate::models::{Header, HeaderView, LabelledLine, LabelledLineView, SourceLine};
use crate::selector::{IntoSelector, SegmentView, Selector};
use crate::severity::Severity;
use crate::span::ReportingFiles;
use crate::style::{ColorAttribute, IntoStyle, Style, StyleView, WeightAttribute};
use crate::stylesheet::{Stylesheet, Trie};
use crate::writer::Command;
use vstd::prelude::*;
use vstd::string::*;

verus! {

/// How diagnostics are shown.
pub trait Config {
    /// Whether `shown` is how the path `path` of a file on disk is shown.
    /// Unless an implementation says otherwise, nothing is known of it.
    open spec fn names(&self, path: Seq<char>, shown: Seq<char>) -> bool {
        true
    }

    /// How the path of a file on disk is shown.
    fn filename(&self, path: &str) -> (r: String)
        ensures
            self.names(path@, r@),
    ;
}

/// Shows paths as they are.
#[derive(Debug)]
pub struct DefaultConfig;

impl Config for DefaultConfig {
    open spec fn names(&self, path: Seq<char>, shown: Seq<char>) -> bool {
        shown == path
    }

    fn filename(&self, path: &str) -> (r: String) {
        String::from_str(path)
    }
}

/// Whether `line` is a line that `label` resolves to, with the style and
/// the message of the label.
pub open spec fn labelled<Files: ReportingFiles, C: Config>(
    files: &Files,
    config: &C,
    label: crate::diagnostic::Label<Files::Span>,
    line: LabelledLineView,
) -> bool {
    &&& crate::models::resolves(files, config, label.span, Some(line.source_line))
    &&& line.style == label.style
    &&& line.message == crate::text::option_view(label.message)
}

/// A diagnostic with its labels resolved: what the components render.
#[derive(Debug)]
pub struct DiagnosticData {
    severity: Severity,
    code: Option<String>,
    message: String,
    lines: Vec<LabelledLine>,
}

impl DiagnosticData {
    /// The labelled lines, each by its view.
    pub closed spec fn lines_view(&self) -> Seq<LabelledLineView> {
        Seq::new(self.lines@.len(), |i: int| self.lines@[i]@)
    }

    pub closed spec fn severity_view(&self) -> Severity {
        self.severity
    }

    pub closed spec fn code_view(&self) -> Option<Seq<char>> {
        crate::text::option_view(self.code)
    }

    pub closed spec fn message_view(&self) -> Seq<char> {
        self.message@
    }

    /// The first line of the diagnostic, by its values.
    pub open spec fn header_view(&self) -> HeaderView {
        HeaderView {
            severity: self.severity_view(),
            code: self.code_view(),
            message: self.message_view(),
        }
    }

    /// Resolves the labels of `diagnostic` against `files`, in order. There
    /// is no result where one of the labels cannot be resolved. Where all
    /// of them can, the result has the severity, the code and the message
    /// of the diagnostic, and for each label the line that it resolves to,
    /// with the style and the message of the label.
    pub fn new<Files: ReportingFiles, C: Config>(
        files: &Files,
        diagnostic: &Diagnostic<Files::Span>,
        config: &C,
    ) -> (r: Option<DiagnosticData>)
        ensures
            match r {
                Some(data) => {
                    &&& data.severity_view() == diagnostic.severity
                    &&& data.code_view() == crate::text::option_view(diagnostic.code)
                    &&& data.message_view() == diagnostic.message@
                    &&& data.lines_view().len() == diagnostic.labels@.len()
                    &&& forall|i: int|
                        0 <= i < diagnostic.labels@.len() ==> labelled(
                            files,
                            config,
                            diagnostic.labels@[i],
                            #[trigger] data.lines_view()[i],
                        )
                },
                None => exists|i: int|
                    0 <= i < diagnostic.labels@.len() && crate::models::resolves(
                        files,
                        config,
                        (#[trigger] diagnostic.labels@[i]).span,
                        None,
                    ),
            },
    {
        let mut lines: Vec<LabelledLine> = Vec::new();
        let mut i: usize = 0;
        while i < diagnostic.labels.len()
            invariant
                i <= diagnostic.labels.len(),
                lines@.len() == i,
                forall|k: int|
                    0 <= k < i ==> labelled(
                        files,
                        config,
                        diagnostic.labels@[k],
                        (#[trigger] lines@[k])@,
                    ),
            decreases diagnostic.labels.len() - i,
        {
            let label = &diagnostic.labels[i];
            match SourceLine::new(files, label, config) {
                Some(source_line) => {
                    lines.push(LabelledLine::new(source_line, label));
                },
                None => {
                    assert(crate::models::resolves(
                        files,
                        config,
                        diagnostic.labels@[i as int].span,
                        None,
                    ));
                    return None;
                },
            }
            i += 1;
        }
        let data = DiagnosticData {
            severity: diagnostic.severity,
            code: diagnostic.code.clone(),
            message: diagnostic.message.clone(),
            lines,
        };
        Some(data)
    }

    /// The diagnostic with these values and these lines.
    pub fn from_parts(
        severity: Severity,
        code: Option<String>,
        message: String,
        lines: Vec<LabelledLine>,
    ) -> (r: DiagnosticData)
        ensures
            r.severity_view() == severity,
            r.code_view() == crate::text::option_view(code),
            r.message_view() == message@,
            r.lines_view() == Seq::new(lines@.len(), |i: int| lines@[i]@),
    {
        DiagnosticData { severity, code, message, lines }
    }

    /// The first line of the diagnostic.
    pub fn header<'doc>(&'doc self) -> (r: Header<'doc>)
        ensures
            r@ == self.header_view(),
    {
        Header::from_parts(
            self.severity,
            match &self.code {
                Some(code) => Some(code.as_str()),
                None => None,
            },
            self.message.as_str(),
        )
    }

    /// The name of the section that the diagnostic is rendered in.
    pub fn section_name(&self) -> (r: &'static str)
        ensures
            r@ == self.severity_view().section(),
    {
        self.severity.section_name()
    }

    /// The labelled lines, in the order of the labels.
    pub fn lines(&self) -> (r: &Vec<LabelledLine>)
        ensures
            r@.len() == self.lines_view().len(),
            forall|i: int| 0 <= i < r@.len() ==> self.lines_view()[i] == r@[i]@,
    {
        &self.lines
    }

    /// The diagnostic laid out as a document of its own.
    pub fn document(&self) -> (out: Document)
        ensures
            out@ == components::diagnostic_nodes(self.header_view(), self.lines_view()),
            crate::document::balanced(out@),
    {
        let out = components::Diagnostic(self, Document::empty());
        proof {
            components::lemma_diagnostic_balanced(self.header_view(), self.lines_view());
            assert(out@ =~= components::diagnostic_nodes(self.header_view(), self.lines_view()));
        }
        out
    }
}

/// The selector of the rule for the primary part of a diagnostic whose
/// section is named `severity`.
pub open spec fn primary_selector(severity: Seq<char>) -> Seq<SegmentView> {
    seq![SegmentView::Name(severity), SegmentView::Glob, SegmentView::Name("primary"@)]
}

/// The style that declares the foreground `color` and nothing else.
pub open spec fn colored(color: Color) -> StyleView {
    StyleView { fg: ColorAttribute::Color(color), ..StyleView::empty() }
}

/// The rules that diagnostics are styled by.
pub open spec fn default_rules() -> Trie {
    Trie::root().insert(
        seq![SegmentView::Glob, SegmentView::Name("header"@), SegmentView::Glob],
        StyleView { weight: WeightAttribute::Bold, ..StyleView::empty() },
    ).insert(primary_selector("bug"@), colored(Color::Red)).insert(
        primary_selector("error"@),
        colored(Color::Red),
    ).insert(primary_selector("warning"@), colored(Color::Yellow)).insert(
        primary_selector("note"@),
        colored(Color::Green),
    ).insert(primary_selector("help"@), colored(Color::Cyan)).insert(
        seq![SegmentView::Glob, SegmentView::Name("secondary"@)],
        colored(Color::Blue),
    ).insert(seq![SegmentView::Glob, SegmentView::Name("gutter"@)], colored(Color::Blue))
}

/// The stylesheet that diagnostics are styled by: headers are bold, the
/// primary part has the color of the severity, secondary parts and the
/// gutter are blue.
pub fn default_stylesheet() -> (r: Stylesheet)
    ensures
        r@ == default_rules(),
{
    let sheet = Stylesheet::new();
    let sheet = with_rule(sheet, header_rule(), bold());
    let sheet = with_rule(sheet, rule("bug"), foreground(Color::Red));
    let sheet = with_rule(sheet, rule("error"), foreground(Color::Red));
    let sheet = with_rule(sheet, rule("warning"), foreground(Color::Yellow));
    let sheet = with_rule(sheet, rule("note"), foreground(Color::Green));
    let sheet = with_rule(sheet, rule("help"), foreground(Color::Cyan));
    let sheet = with_rule(sheet, anywhere("secondary"), foreground(Color::Blue));
    with_rule(sheet, anywhere("gutter"), foreground(Color::Blue))
}

/// The selector for everything inside a header.
fn header_rule() -> (r: Selector)
    ensures
        r@ == seq![SegmentView::Glob, SegmentView::Name("header"@), SegmentView::Glob],
{
    let header = Selector::glob().add("header").add_glob();
    assert(header.selector() == header@);
    header.into_selector()
}

/// The selector for the sections named `name`, however deep.
fn anywhere(name: &'static str) -> (r: Selector)
    ensures
        r@ == seq![SegmentView::Glob, SegmentView::Name(name@)],
{
    Selector::glob().add(name)
}

/// The style that declares bold weight and nothing else.
fn bold() -> (r: Style)
    ensures
        r@ == (StyleView { weight: WeightAttribute::Bold, ..StyleView::empty() }),
{
    Style::new().bold()
}

/// The selector for the primary part of a diagnostic of one severity.
fn rule(severity: &'static str) -> (r: Selector)
    ensures
        r@ == primary_selector(severity@),
{
    Selector::name(severity).add_glob().add("primary")
}

/// The style that declares the foreground `color` and nothing else.
fn foreground(color: Color) -> (r: Style)
    ensures
        r@ == colored(color),
{
    Style::new().fg(color)
}

/// The stylesheet with one more rule.
fn with_rule(sheet: Stylesheet, selector: Selector, style: Style) -> (r: Stylesheet)
    ensures
        r@ == sheet@.insert(selector@, style@),
{
    assert(selector.selector() == selector@);
    assert(style.style() == style@);
    sheet.add(selector, style)
}

/// What the terminal is told in order to show a diagnostic: with `debug`,
/// a structural trace of its document first; then the document itself, in
/// the styles of the default stylesheet.
pub fn emit_commands(data: &DiagnosticData, debug: bool) -> (r: Vec<Command>)
    ensures
        crate::writer::command_views(r@) == (if debug {
            crate::writer::debug_commands(
                components::diagnostic_nodes(data.header_view(), data.lines_view()),
                default_rules(),
            )
        } else {
            Seq::empty()
        }) + crate::writer::styled_commands(
            components::diagnostic_nodes(data.header_view(), data.lines_view()),
            default_rules(),
        ),
{
    let document = data.document();
    let styles = default_stylesheet();
    let mut commands: Vec<Command> = Vec::new();
    if debug {
        commands = document.debug_commands(&styles);
    }
    let ghost traced = crate::writer::command_views(commands@);
    let mut styled = document.commands(&styles);
    commands.append(&mut styled);
    assert(crate::writer::command_views(commands@) =~= traced + crate::writer::styled_commands(
        document@,
        default_rules(),
    ));
    commands
}

} // verus!
