//! Styled, hierarchically sectioned text documents, and the stylesheets that
//! decide how their sections are shown on a terminal.

pub mod balance;
pub mod color;
pub mod component;
pub mod components;
pub mod diagnostic;
pub mod document;
pub mod emitter;
pub mod helpers;
pub mod models;
pub mod render;
pub mod roundtrip;
pub mod selector;
pub mod severity;
pub mod simple;
pub mod span;
pub mod style;
pub mod stylesheet;
pub mod terminal;
pub mod text;
pub mod writer;

pub use crate::color::Color;
pub use crate::component::{
    BlockComponent, Component, CurriedBlockComponent, CurriedInlineComponent,
    CurriedIterBlockComponent, CurriedOnceBlockComponent, IterBlockComponent, OnceBlock,
    OnceBlockComponent, RenderComponent,
};
pub use crate::diagnostic::{Diagnostic, Label, LabelStyle};
pub use crate::document::{Document, Node};
pub use crate::emitter::{default_stylesheet, emit_commands, Config, DefaultConfig, DiagnosticData};
pub use crate::helpers::{repeat, Each, Join, Line, PadItem, Section};
pub use crate::models::{LabelledLine, SourceLine};
pub use crate::render::{Combine, Empty, IfSome, Render, RenderExt, SomeValue};
pub use crate::selector::{GlobSelector, IntoSelector, Segment, Selector};
pub use crate::severity::Severity;
pub use crate::simple::{SimpleFile, SimpleReportingFiles, SimpleSpan};
pub use crate::span::{FileName, Location, ReportingFiles, ReportingSpan};
pub use crate::style::{IntoStyle, Style};
pub use crate::stylesheet::Stylesheet;
pub use crate::writer::Command;
