use language_reporting::component::{Component, OnceBlock};
use language_reporting::document::{add, Document, Node};
use language_reporting::helpers::{repeat, Each, Join, Line, Section};
use language_reporting::render::{Empty, IfSome, Render, RenderExt, SomeValue};
use language_reporting::writer::Command;
use language_reporting::{Color, CurriedBlockComponent, Style, Stylesheet};

fn texts(document: &Document) -> Vec<String> {
    let mut out = Vec::new();
    if let Some(nodes) = document.tree() {
        for node in nodes {
            if let Node::Text(text) = node {
                out.push(text.clone());
            }
        }
    }
    out
}

fn node_count(document: &Document) -> usize {
    document.tree().map_or(0, |nodes| nodes.len())
}

fn written(commands: &[Command]) -> String {
    let mut out = String::new();
    for command in commands {
        if let Command::Write(text) = command {
            out.push_str(text);
        }
    }
    out
}

#[test]
fn join_puts_the_joiner_between_neighbours_only() {
    let items = vec!["A", "B", "C"];
    let document = Document::with(Join(
        (items, ", "),
        |item: &'static str, document: Document| document.add(item),
    ));

    assert_eq!(texts(&document), vec!["A", ", ", "B", ", ", "C"]);
    assert_eq!(document.to_string().unwrap(), "A, B, C");
}

#[test]
fn join_of_one_or_no_item_has_no_joiner() {
    let one = Document::with(Join(
        (vec!["A"], ", "),
        |item: &'static str, document: Document| document.add(item),
    ));
    assert_eq!(texts(&one), vec!["A"]);

    let none = Document::with(Join(
        (Vec::<&'static str>::new(), ", "),
        |item: &'static str, document: Document| document.add(item),
    ));
    assert_eq!(node_count(&none), 0);
    assert!(none.tree().is_none());
}

#[test]
fn each_renders_the_items_in_order() {
    let document = Document::with(Each(vec![1, 2, 3], |item: i32, document: Document| {
        document.add(item).add(";")
    }));
    assert_eq!(texts(&document), vec!["1", ";", "2", ";", "3", ";"]);

    let empty = Document::with(Each(Vec::<i32>::new(), |item: i32, document: Document| {
        document.add(item)
    }));
    assert_eq!(node_count(&empty), 0);
}

#[test]
fn if_some_renders_nothing_for_an_absent_value() {
    let absent: Option<u32> = None;
    let document = Document::with(IfSome(&absent, |code: &u32| "[".add(*code).add("]")));
    assert_eq!(node_count(&document), 0);

    let present = Some(7u32);
    let document = Document::with(IfSome(&present, |code: &u32| "[".add(*code).add("]")));
    assert_eq!(texts(&document), vec!["[", "7", "]"]);
    assert_eq!(node_count(&document), 3);
}

#[test]
fn some_value_renders_the_value_if_there_is_one() {
    let absent: Option<&'static str> = None;
    assert_eq!(node_count(&Document::with(SomeValue(&absent))), 0);
    let present = Some("x");
    assert_eq!(texts(&Document::with(SomeValue(&present))), vec!["x"]);
}

#[test]
fn empty_is_the_identity_of_sequencing() {
    assert_eq!(node_count(&Document::with(Empty)), 0);
    let left = Document::with(Empty.add("a"));
    let right = Document::with("a".add(Empty));
    assert_eq!(texts(&left), vec!["a"]);
    assert_eq!(texts(&right), vec!["a"]);
    assert_eq!(texts(&Document::with(add("a", "b"))), vec!["a", "b"]);
    assert_eq!(Document::empty().to_string().unwrap(), "");
    assert_eq!(Empty.into_fragment().to_string().unwrap(), "");
}

#[test]
fn empty_text_is_kept_as_a_node_but_not_written() {
    let document = Document::with("".add("x").add(""));
    assert_eq!(node_count(&document), 3);
    assert_eq!(document.clone().to_string().unwrap(), "x");
    assert_eq!(
        document.commands(&Stylesheet::new()),
        vec![
            Command::Reset,
            Command::Reset,
            Command::Write("x".to_string()),
            Command::Reset
        ]
    );
}

#[test]
fn repeat_writes_the_value_several_times_in_one_run() {
    let document = Document::with(repeat("ab", 3).add(repeat(7, 2)).add(repeat("x", 0)));
    assert_eq!(texts(&document), vec!["ababab", "77", ""]);
}

#[test]
fn sections_are_opened_and_closed_around_their_content() {
    let document = Section("code", |document: Document| document.add("[E").add(1000).add("]"));
    let nodes = document.tree().unwrap();
    assert_eq!(nodes.len(), 5);
    assert!(matches!(nodes[0], Node::OpenSection("code")));
    assert!(matches!(nodes[4], Node::CloseSection));
    assert!(document.is_balanced());
    assert!(document.never_underflows());
    assert_eq!(document.clone().to_string().unwrap(), "[E1000]");

    let nested = Document::with(CurriedBlockComponent::with(
        Section { name: "outer" },
        |document: Document| {
            document
                .add("a")
                .add(Section("inner", |document: Document| document.add("b")))
        },
    ));
    assert!(nested.is_balanced());
    assert_eq!(node_count(&nested), 6);
}

#[test]
fn documents_notice_sections_that_do_not_match() {
    let open = Document::empty().add(Node::OpenSection("a"));
    assert!(!open.is_balanced());
    assert!(open.never_underflows());

    let closed = Document::empty()
        .add(Node::CloseSection)
        .add(Node::OpenSection("a"));
    assert!(!closed.is_balanced());
    assert!(!closed.never_underflows());

    assert!(Document::empty().is_balanced());
    assert!(open.clone().add(Node::CloseSection).is_balanced());
}

#[test]
fn lines_end_in_a_newline() {
    let document = Document::empty()
        .add(Line("Hello"))
        .add(Line(1.add(".").add(10)))
        .add(Section("code", |doc: Document| {
            doc.add("[E").add(1000).add("]")
        }));

    assert_eq!(document.to_string().unwrap(), "Hello\n1.10\n[E1000]");
}

#[test]
fn documents_are_rendered_by_extending() {
    let first = Document::with("a".add(Node::Newline));
    let second = Document::with("b");
    let both = first.clone().add(second.clone());
    assert_eq!(both.to_string().unwrap(), "a\nb");
    assert_eq!(first.clone().extend(Document::empty()).to_string().unwrap(), "a\n");
    assert_eq!(Document::empty().extend(second.clone()).to_string().unwrap(), "b");
    assert_eq!(Document::empty().extend(Document::empty()).to_string().unwrap(), "");
    assert_eq!(
        second
            .extend_nodes(vec![Node::Newline, Node::Text("c".to_string())])
            .add_node(Node::Newline)
            .to_string()
            .unwrap(),
        "b\nc\n"
    );
}

#[test]
fn components_call_their_function_with_the_data() {
    fn message(args: (usize, &'static str), into: Document) -> Document {
        into.add(Line(args.0.add(": ").add(args.1)))
    }

    let document = Document::with(Component(message, (200, "Hello world")));
    assert_eq!(document.to_string().unwrap(), "200: Hello world\n");

    let block = Document::with(OnceBlock(|document: Document| document.add("once")));
    assert_eq!(block.to_string().unwrap(), "once");
}

#[test]
fn text_is_styled_by_the_sections_around_it() {
    let document = Document::empty()
        .add(Line(
            Section("hello-world", |doc: Document| {
                doc.add(Section("greeting", |doc: Document| doc.add("Hello")))
                    .add("world")
            }),
        ))
        .add("plain");

    let stylesheet = Stylesheet::new()
        .add("** greeting", "weight: bold")
        .add("hello-world greeting", "fg: red")
        .add("hello-world", "underline: true");

    assert_eq!(
        document.commands(&stylesheet),
        vec![
            Command::Reset,
            Command::SetStyle(Style::new().bold().fg(Color::Red)),
            Command::Write("Hello".to_string()),
            Command::Reset,
            Command::Write("world".to_string()),
            Command::Reset,
            Command::Write("\n".to_string()),
            Command::Reset,
            Command::Write("plain".to_string()),
            Command::Reset,
        ]
    );
    assert_eq!(
        written(&document.commands(&stylesheet)),
        document.clone().to_string().unwrap()
    );
}

#[test]
fn the_trace_shows_sections_with_their_styles() {
    let document = Section("a", |doc: Document| doc.add("hi").add(Node::Newline));
    let stylesheet = Stylesheet::new().add("a", "fg: red; weight: bold; underline: true");

    let commands = document.debug_commands(&stylesheet);
    assert_eq!(
        written(&commands),
        "\n<a weight=bold fg=red \u{a7}>\n |hi\\n\n</a>\n\n"
    );
    assert_eq!(commands[0], Command::Reset);
    assert_eq!(
        commands[3..6],
        [
            Command::SetStyle(Style("fg: blue; weight: bold")),
            Command::Write("a".to_string()),
            Command::Reset
        ]
    );
    assert!(commands.contains(&Command::SetStyle(Style("fg: black; weight: bold"))));
    assert!(commands.contains(&Command::SetStyle(Style("fg: cyan; weight: dim"))));
    assert!(commands.contains(&Command::SetStyle(Style(
        "fg: red; weight: bold; underline: true"
    ))));

    assert_eq!(Document::empty().debug_commands(&stylesheet), vec![]);
}

#[test]
fn the_trace_indents_by_depth() {
    let document = Document::empty()
        .add(Node::Newline)
        .add(Section("a", |doc: Document| {
            doc.add(Node::Newline)
                .add(Section("b", |doc: Document| doc.add("x").add("y")))
        }));

    assert_eq!(
        written(&document.debug_commands(&Stylesheet::new())),
        "\n\\n\n<a>\n  \\n\n <b>\n  |xy\n </b>\n</a>\n\n"
    );

    let underline_only = Section("u", |doc: Document| doc);
    let stylesheet = Stylesheet::new().add("u", "underline: false");
    assert_eq!(
        written(&underline_only.debug_commands(&stylesheet)),
        "\n<u  \u{a7}>\n</u>\n\n"
    );
}
