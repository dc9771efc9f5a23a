use language_reporting::diagnostic::{Diagnostic, Label, LabelStyle};
use language_reporting::emitter::{
    default_stylesheet, emit_commands, Config, DefaultConfig, DiagnosticData,
};
use language_reporting::models::{display_name, Header, LabelledLine, SourceLine};
use language_reporting::severity::Severity;
use language_reporting::simple::{SimpleReportingFiles, SimpleSpan};
use language_reporting::span::{FileName, Location, ReportingFiles, ReportingSpan};
use language_reporting::writer::Command;
use language_reporting::{Color, Style};
use unindent::unindent;

fn test_files() -> (SimpleReportingFiles, usize) {
    let mut files = SimpleReportingFiles::default();

    let source = unindent(
        r##"
            (define test 123)
            (+ test "")
            ()
        "##,
    );

    let file = files.add("test", &source);
    (files, file)
}

fn test_diagnostics(files: &SimpleReportingFiles, file: usize) -> Vec<Diagnostic<SimpleSpan>> {
    let str_start = files.byte_index(file, 1, 8).unwrap();
    let error = Diagnostic::new(Severity::Error, "Unexpected type in `+` application")
        .with_label(
            Label::new_primary(SimpleSpan::new(file, str_start, str_start + 2))
                .with_message("Expected integer but got string"),
        )
        .with_label(
            Label::new_secondary(SimpleSpan::new(file, str_start, str_start + 2))
                .with_message("Expected integer but got string"),
        )
        .with_code("E0001");

    let line_start = files.byte_index(file, 1, 0).unwrap();
    let warning = Diagnostic::new(
        Severity::Warning,
        "`+` function has no effect unless its result is used",
    )
    .with_label(Label::new_primary(SimpleSpan::new(
        file,
        line_start,
        line_start + 11,
    )));

    vec![error, warning]
}

fn emit_plain() -> String {
    let (files, file) = test_files();
    let mut out = String::new();
    for diagnostic in &test_diagnostics(&files, file) {
        let data = DiagnosticData::new(&files, diagnostic, &DefaultConfig).unwrap();
        for command in emit_commands(&data, false) {
            if let Command::Write(text) = command {
                out.push_str(&text);
            }
        }
    }
    out
}

#[test]
fn test_no_color() {
    assert_eq!(
        emit_plain(),
        unindent(&format!(
            r##"
                error[E0001]: Unexpected type in `+` application
                - test:2:9
                2 | (+ test "")
                  |         ^^ Expected integer but got string
                - test:2:9
                2 | (+ test "")
                  |         -- Expected integer but got string
                warning: `+` function has no effect unless its result is used
                - test:2:1
                2 | (+ test "")
                  | ^^^^^^^^^^^
            "##,
        )),
    );
}

#[test]
fn one_error_with_a_primary_label() {
    let (files, file) = test_files();
    let start = files.byte_index(file, 1, 8).unwrap();
    let error = Diagnostic::new(Severity::Error, "Unexpected type in `+` application")
        .with_label(
            Label::new_primary(SimpleSpan::new(file, start, start + 2))
                .with_message("Expected integer but got string"),
        )
        .with_code("E0001");
    let data = DiagnosticData::new(&files, &error, &DefaultConfig).unwrap();
    let document = data.document();
    assert!(document.is_balanced());
    assert_eq!(
        document.to_string().unwrap(),
        "error[E0001]: Unexpected type in `+` application\n\
         - test:2:9\n\
         2 | (+ test \"\")\n  \
         |         ^^ Expected integer but got string\n"
    );
}

#[test]
fn commands_style_the_header_by_severity() {
    let (files, file) = test_files();
    let diagnostics = test_diagnostics(&files, file);
    let data = DiagnosticData::new(&files, &diagnostics[0], &DefaultConfig).unwrap();
    let commands = emit_commands(&data, false);
    let red_bold = Style::new().fg(Color::Red).bold();
    let bold = Style::new().bold();
    assert_eq!(
        commands[..14],
        [
            Command::Reset,
            Command::SetStyle(red_bold),
            Command::Write("error".to_string()),
            Command::SetStyle(red_bold),
            Command::Write("[".to_string()),
            Command::SetStyle(red_bold),
            Command::Write("E0001".to_string()),
            Command::SetStyle(red_bold),
            Command::Write("]".to_string()),
            Command::SetStyle(bold),
            Command::Write(": ".to_string()),
            Command::SetStyle(bold),
            Command::Write("Unexpected type in `+` application".to_string()),
            Command::Reset,
        ]
    );
    assert_eq!(commands[commands.len() - 1], Command::Reset);
    assert!(commands.contains(&Command::SetStyle(Style::new().fg(Color::Blue))));

    let traced = emit_commands(&data, true);
    assert!(traced.len() > commands.len());
    assert_eq!(traced[traced.len() - commands.len()..], commands[..]);
    assert_eq!(
        traced[traced.len() - commands.len() - 1],
        Command::Write("\n\n".to_string())
    );
}

#[test]
fn default_stylesheet_has_the_rules_for_diagnostics() {
    let sheet = default_stylesheet();
    assert_eq!(sheet.get(&["error", "header", "primary"]), Some(Style("weight: bold; fg: red")));
    assert_eq!(sheet.get(&["bug", "header", "primary"]), Some(Style("weight: bold; fg: red")));
    assert_eq!(
        sheet.get(&["warning", "header", "primary"]),
        Some(Style("weight: bold; fg: yellow"))
    );
    assert_eq!(sheet.get(&["note", "header", "primary"]), Some(Style("weight: bold; fg: green")));
    assert_eq!(sheet.get(&["help", "header", "primary"]), Some(Style("weight: bold; fg: cyan")));
    assert_eq!(sheet.get(&["error", "header"]), Some(Style("weight: bold")));
    assert_eq!(sheet.get(&["error", "gutter"]), Some(Style("fg: blue")));
    assert_eq!(sheet.get(&["error", "underline", "secondary"]), Some(Style("fg: blue")));
    assert_eq!(sheet.get(&["error", "source-code-location"]), None);
}

#[test]
fn lookups_in_simple_files() {
    let (files, file) = test_files();
    assert_eq!(files.byte_index(file, 0, 0), Some(0));
    assert_eq!(files.byte_index(file, 1, 8), Some(26));
    assert_eq!(files.byte_index(file, 2, 1), Some(31));
    assert_eq!(files.byte_index(file, 3, 0), None);
    assert_eq!(files.byte_index(file + 1, 0, 0), None);
    assert_eq!(files.find_byte_index(file, 1, 0), Some(18));

    assert_eq!(files.location(file, 0), Some(Location::new(0, 0)));
    assert_eq!(files.location(file, 5), Some(Location::new(0, 5)));
    assert_eq!(files.location(file, 17), Some(Location::new(1, 0)));
    assert_eq!(files.location(file, 26), Some(Location::new(1, 9)));
    assert_eq!(files.location(file, 32), None);
    assert_eq!(files.location(file, 1000), None);

    let line = files.line_span(file, 1).unwrap();
    assert_eq!((line.start(), line.end()), (18, 29));
    assert_eq!(files.source(line), Some("(+ test \"\")".to_string()));
    assert_eq!(files.source(line.with_start(26)), Some("\"\")".to_string()));
    assert_eq!(files.source(line.with_end(26)), Some("(+ test ".to_string()));
    assert!(files.line_span(file, 3).is_none());
    assert_eq!(files.source(SimpleSpan::new(file, 30, 40)), None);
    assert_eq!(files.source(SimpleSpan::new(file + 1, 0, 0)), None);
    assert_eq!(files.file_id(line), file);
    match files.file_name(file) {
        FileName::Verbatim(name) => assert_eq!(name, "test"),
        other => panic!("unexpected name {:?}", other),
    }
    let span = files.byte_span(file, 3, 5).unwrap();
    assert_eq!((span.start(), span.end()), (3, 5));
    assert!(files.byte_span(file, 5, 3).is_none());
}

#[test]
fn source_is_cut_at_character_boundaries_only() {
    let mut files = SimpleReportingFiles::default();
    let file = files.add("umlaut", "gr\u{fc}n\n");
    assert_eq!(files.source(SimpleSpan::new(file, 0, 4)), Some("gr\u{fc}".to_string()));
    assert_eq!(files.source(SimpleSpan::new(file, 0, 3)), None);
    assert_eq!(files.source(SimpleSpan::new(file, 3, 4)), None);
    assert_eq!(files.source(SimpleSpan::new(file, 4, 5)), Some("n".to_string()));
}

#[test]
fn labels_that_cannot_be_resolved_give_no_data() {
    let (files, file) = test_files();
    let beyond = Diagnostic::new(Severity::Note, "beyond the last line feed")
        .with_label(Label::new_primary(SimpleSpan::new(file, 32, 33)));
    assert!(DiagnosticData::new(&files, &beyond, &DefaultConfig).is_none());
    let across = Diagnostic::new(Severity::Note, "across two lines")
        .with_label(Label::new_primary(SimpleSpan::new(file, 10, 20)));
    assert!(DiagnosticData::new(&files, &across, &DefaultConfig).is_none());
    let unknown = Diagnostic::new(Severity::Note, "unknown file")
        .with_label(Label::new_primary(SimpleSpan::new(file + 7, 0, 1)));
    assert!(DiagnosticData::new(&files, &unknown, &DefaultConfig).is_none());
    let bare: Diagnostic<SimpleSpan> = Diagnostic::new_help("Great job!");
    let data = DiagnosticData::new(&files, &bare, &DefaultConfig).unwrap();
    assert_eq!(data.document().to_string().unwrap(), "help: Great job!\n");
}

#[test]
fn severities_are_ordered_and_named() {
    assert!(Severity::Bug > Severity::Error);
    assert!(Severity::Error > Severity::Warning);
    assert!(Severity::Warning > Severity::Note);
    assert!(Severity::Note > Severity::Help);
    assert!(!(Severity::Note > Severity::Note));
    assert_eq!(Severity::Bug.to_str(), "error: internal compiler error");
    assert_eq!(Severity::Error.to_str(), "error");
    assert_eq!(Severity::Warning.to_str(), "warning");
    assert_eq!(Severity::Note.to_string(), "note");
    assert_eq!(Severity::Help.to_str(), "help");
    assert_eq!(Severity::Bug.section_name(), "bug");
}

#[test]
fn diagnostics_are_built_step_by_step() {
    let span = SimpleSpan::new(0, 1, 2);
    let label = Label::new(span, LabelStyle::Secondary);
    assert_eq!(label.style, LabelStyle::Secondary);
    assert_eq!(label.message(), &None);
    let label = label.with_message("here");
    assert_eq!(label.message(), &Some("here".to_string()));
    assert_eq!(Label::new_primary(span).style, LabelStyle::Primary);
    assert_eq!(Label::new_secondary(span).style, LabelStyle::Secondary);
    assert_eq!(LabelStyle::Primary.mark(), "^");
    assert_eq!(LabelStyle::Secondary.mark(), "-");
    assert_eq!(LabelStyle::Primary.style(), "primary");
    assert_eq!(LabelStyle::Secondary.style(), "secondary");

    let diagnostic: Diagnostic<SimpleSpan> = Diagnostic::new_bug("broken");
    assert_eq!(diagnostic.severity, Severity::Bug);
    assert_eq!(diagnostic.code, None);
    assert_eq!(diagnostic.message, "broken");
    assert!(diagnostic.labels.is_empty());
    let diagnostic = diagnostic
        .with_code("B1")
        .with_label(label.clone())
        .with_labels(vec![Label::new_primary(span), Label::new_secondary(span)]);
    assert_eq!(diagnostic.code, Some("B1".to_string()));
    assert_eq!(diagnostic.labels.len(), 3);
    assert_eq!(diagnostic.labels[0].message, Some("here".to_string()));
    assert_eq!(diagnostic.labels[2].style, LabelStyle::Secondary);
    assert_eq!(Diagnostic::<SimpleSpan>::new_error("e").severity, Severity::Error);
    assert_eq!(Diagnostic::<SimpleSpan>::new_warning("w").severity, Severity::Warning);
    assert_eq!(Diagnostic::<SimpleSpan>::new_note("n").severity, Severity::Note);
    assert_eq!(Diagnostic::<SimpleSpan>::new_help("h").severity, Severity::Help);

    let header = Header::new(&diagnostic);
    assert_eq!(header.severity(), "bug");
    assert_eq!(header.code(), &Some("B1"));
    assert_eq!(header.message(), "broken");
    assert_eq!(language_reporting::models::severity(&diagnostic), "bug");
}

#[test]
fn file_names_are_shown_by_kind() {
    struct Shouting;

    impl Config for Shouting {
        fn filename(&self, path: &str) -> String {
            path.to_uppercase()
        }
    }

    assert_eq!(
        display_name(FileName::Virtual("repl".to_string()), &DefaultConfig),
        "<repl>"
    );
    assert_eq!(
        display_name(FileName::Real("src/main.rs".to_string()), &DefaultConfig),
        "src/main.rs"
    );
    assert_eq!(
        display_name(FileName::Real("src/main.rs".to_string()), &Shouting),
        "SRC/MAIN.RS"
    );
    assert_eq!(
        display_name(FileName::Verbatim("test".to_string()), &Shouting),
        "test"
    );
}

#[test]
fn source_lines_are_assembled_from_their_pieces() {
    let line = SourceLine::from_parts(
        Location::new(9, 4),
        "lib.rs".to_string(),
        "let ".to_string(),
        "x".to_string(),
        " = 1;\r\n",
    );
    assert_eq!(line.location(), Location::new(9, 4));
    assert_eq!(line.line_number(), 10);
    assert_eq!(line.line_number_len(), 2);
    assert_eq!(line.filename(), "lib.rs");
    assert_eq!(line.before_marked(), "let ");
    assert_eq!(line.marked(), "x");
    assert_eq!(line.after_marked(), " = 1;");

    let label = Label::new_secondary(SimpleSpan::new(0, 4, 5));
    let labelled = LabelledLine::new(line, &label);
    assert_eq!(labelled.mark(), "-");
    assert_eq!(labelled.style(), "secondary");
    assert_eq!(labelled.message(), &None);
    assert_eq!(labelled.source_line().marked(), "x");

    let data = DiagnosticData::from_parts(
        Severity::Warning,
        None,
        "unused".to_string(),
        vec![labelled],
    );
    assert_eq!(
        data.document().to_string().unwrap(),
        "warning: unused\n- lib.rs:10:4\n10 | let x = 1;\n   |     -\n"
    );
}
