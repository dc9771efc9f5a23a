//! Diagnostics: a message of some severity, with labels that point into
//! source code.

use crate::severity::Severity;
use crate::span::ReportingSpan;
use vstd::prelude::*;
use vstd::string::*;

verus! {

/// A style for the label.
#[derive(Copy, Clone, PartialEq, Debug)]
pub enum LabelStyle {
    /// The main focus of the diagnostic.
    Primary,
    /// Supporting labels that may help to isolate the cause of the
    /// diagnostic.
    Secondary,
}

impl LabelStyle {
    /// The character that underlines the marked code.
    pub open spec fn mark_text(self) -> Seq<char> {
        match self {
            LabelStyle::Primary => "^"@,
            LabelStyle::Secondary => "-"@,
        }
    }

    /// The name of the section that the marked code is rendered in.
    pub open spec fn section(self) -> Seq<char> {
        match self {
            LabelStyle::Primary => "primary"@,
            LabelStyle::Secondary => "secondary"@,
        }
    }

    /// The character that underlines the marked code.
    pub fn mark(self) -> (r: &'static str)
        ensures
            r@ == self.mark_text(),
    {
        match self {
            LabelStyle::Primary => "^",
            LabelStyle::Secondary => "-",
        }
    }

    /// The name of the section that the marked code is rendered in.
    pub fn style(self) -> (r: &'static str)
        ensures
            r@ == self.section(),
    {
        match self {
            LabelStyle::Primary => "primary",
            LabelStyle::Secondary => "secondary",
        }
    }
}

/// A label describing an underlined region of code associated with a
/// diagnostic.
#[derive(Clone, Debug)]
pub struct Label<Span: ReportingSpan> {
    /// The span we are going to include in the final snippet.
    pub span: Span,
    /// A message to provide some additional information for the underlined
    /// code.
    pub message: Option<String>,
    /// The style to use for the label.
    pub style: LabelStyle,
}

impl<Span: ReportingSpan> Label<Span> {
    pub fn new(span: Span, style: LabelStyle) -> (r: Label<Span>)
        ensures
            r.span == span,
            r.message is None,
            r.style == style,
    {
        Label { span, message: None, style }
    }

    pub fn new_primary(span: Span) -> (r: Label<Span>)
        ensures
            r.span == span,
            r.message is None,
            r.style == LabelStyle::Primary,
    {
        Label::new(span, LabelStyle::Primary)
    }

    pub fn new_secondary(span: Span) -> (r: Label<Span>)
        ensures
            r.span == span,
            r.message is None,
            r.style == LabelStyle::Secondary,
    {
        Label::new(span, LabelStyle::Secondary)
    }

    pub fn with_message(self, message: &str) -> (r: Label<Span>)
        ensures
            r.span == self.span,
            r.style == self.style,
            crate::text::option_view(r.message) == Some(message@),
    {
        Label { span: self.span, message: Some(String::from_str(message)), style: self.style }
    }

    pub fn message(&self) -> (r: &Option<String>)
        ensures
            *r == self.message,
    {
        &self.message
    }
}

/// Represents a diagnostic message and associated child messages.
#[derive(Clone, Debug)]
pub struct Diagnostic<Span: ReportingSpan> {
    /// The overall severity of the diagnostic.
    pub severity: Severity,
    /// An optional code that identifies this diagnostic.
    pub code: Option<String>,
    /// The main message associated with this diagnostic.
    pub message: String,
    /// The labelled spans marking the regions of code that cause this
    /// diagnostic to be raised.
    pub labels: Vec<Label<Span>>,
}

impl<Span: ReportingSpan> Diagnostic<Span> {
    pub fn new(severity: Severity, message: &str) -> (r: Diagnostic<Span>)
        ensures
            r.severity == severity,
            r.code is None,
            r.message@ == message@,
            r.labels@.len() == 0,
    {
        Diagnostic { severity, code: None, message: String::from_str(message), labels: Vec::new() }
    }

    pub fn new_bug(message: &str) -> (r: Diagnostic<Span>)
        ensures
            r.severity == Severity::Bug,
            r.code is None,
            r.message@ == message@,
            r.labels@.len() == 0,
    {
        Diagnostic::new(Severity::Bug, message)
    }

    pub fn new_error(message: &str) -> (r: Diagnostic<Span>)
        ensures
            r.severity == Severity::Error,
            r.code is None,
            r.message@ == message@,
            r.labels@.len() == 0,
    {
        Diagnostic::new(Severity::Error, message)
    }

    pub fn new_warning(message: &str) -> (r: Diagnostic<Span>)
        ensures
            r.severity == Severity::Warning,
            r.code is None,
            r.message@ == message@,
            r.labels@.len() == 0,
    {
        Diagnostic::new(Severity::Warning, message)
    }

    pub fn new_note(message: &str) -> (r: Diagnostic<Span>)
        ensures
            r.severity == Severity::Note,
            r.code is None,
            r.message@ == message@,
            r.labels@.len() == 0,
    {
        Diagnostic::new(Severity::Note, message)
    }

    pub fn new_help(message: &str) -> (r: Diagnostic<Span>)
        ensures
            r.severity == Severity::Help,
            r.code is None,
            r.message@ == message@,
            r.labels@.len() == 0,
    {
        Diagnostic::new(Severity::Help, message)
    }

    pub fn with_code(self, code: &str) -> (r: Diagnostic<Span>)
        ensures
            r.severity == self.severity,
            crate::text::option_view(r.code) == Some(code@),
            r.message == self.message,
            r.labels == self.labels,
    {
        Diagnostic {
            severity: self.severity,
            code: Some(String::from_str(code)),
            message: self.message,
            labels: self.labels,
        }
    }

    pub fn with_label(self, label: Label<Span>) -> (r: Diagnostic<Span>)
        ensures
            r.severity == self.severity,
            r.code == self.code,
            r.message == self.message,
            r.labels@ == self.labels@.push(label),
    {
        let mut labels = self.labels;
        labels.push(label);
        Diagnostic { severity: self.severity, code: self.code, message: self.message, labels }
    }

    pub fn with_labels(self, labels: Vec<Label<Span>>) -> (r: Diagnostic<Span>)
        ensures
            r.severity == self.severity,
            r.code == self.code,
            r.message == self.message,
            r.labels@ == self.labels@ + labels@,
    {
        let mut all = self.labels;
        let mut more = labels;
        all.append(&mut more);
        Diagnostic { severity: self.severity, code: self.code, message: self.message, labels: all }
    }
}

} // verus!
