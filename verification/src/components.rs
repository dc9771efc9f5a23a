//! The components that lay a diagnostic out as a document.
//!
//! ```text
//! error[E0001]: Unexpected type in `+` application
//! - test:2:9
//! 2 | (+ test "")
//!   |         ^^ Expected integer but got string
//! ```

use crate::document::{Document, Node, NodeView};
use crate::emitter::DiagnosticData;
use crate::models::{Header as HeaderModel, HeaderView, LabelledLine, LabelledLineView};
use crate::models::{SourceLine, SourceLineView};
use crate::text::{decimal_string, repeat_str};
use vstd::prelude::*;
use vstd::string::*;
use vstd::utf8::*;

verus! {

/// A run of text.
pub open spec fn text(text: Seq<char>) -> Seq<NodeView> {
    seq![NodeView::Text(text)]
}

/// The nodes of `body` inside a section named `name`.
pub open spec fn section(name: Seq<char>, body: Seq<NodeView>) -> Seq<NodeView> {
    seq![NodeView::OpenSection(name)] + body + seq![NodeView::CloseSection]
}

/// The nodes of `body`, followed by a newline.
pub open spec fn line(body: Seq<NodeView>) -> Seq<NodeView> {
    body + seq![NodeView::Newline]
}

/// The header: the severity and, in brackets, the code, both as the
/// primary part; then a colon and the message.
pub open spec fn header_nodes(header: HeaderView) -> Seq<NodeView> {
    section(
        "header"@,
        line(
            section(
                "primary"@,
                text(header.severity.section()) + match header.code {
                    Some(code) => text("["@) + text(code) + text("]"@),
                    None => Seq::empty(),
                },
            ) + text(": "@) + text(header.message),
        ),
    )
}

/// Where the marked code is: file name, line number and column.
pub open spec fn location_nodes(source_line: SourceLineView) -> Seq<NodeView> {
    section(
        "source-code-location"@,
        line(
            text("- "@) + text(source_line.filename) + text(":"@) + text(
                crate::text::decimal(source_line.line_number as nat),
            ) + text(":"@) + text(crate::text::decimal(source_line.location.column as nat)),
        ),
    )
}

/// The line of source with the marked code in a section of its own, and
/// under it the marks and the message of the label.
pub open spec fn source_line_nodes(model: LabelledLineView) -> Seq<NodeView> {
    let source_line = model.source_line;
    let number = crate::text::decimal(source_line.line_number as nat);
    line(
        section("gutter"@, text(number) + text(" | "@)) + section(
            "before-marked"@,
            text(source_line.before_marked),
        ) + section(model.style.section(), text(source_line.marked)) + section(
            "after-marked"@,
            text(source_line.after_marked),
        ),
    ) + line(
        section(
            "underline"@,
            section(
                "gutter"@,
                text(crate::text::repeated(" "@, encode_utf8(number).len())) + text(" | "@),
            ) + text(crate::text::repeated(" "@, encode_utf8(source_line.before_marked).len()))
                + section(
                model.style.section(),
                text(
                    crate::text::repeated(
                        model.style.mark_text(),
                        encode_utf8(source_line.marked).len(),
                    ),
                ) + match model.message {
                    Some(message) => text(" "@) + text(message),
                    None => Seq::empty(),
                },
            ),
        ),
    )
}

/// For each label, where it points and the line it points into.
pub open spec fn body_nodes(lines: Seq<LabelledLineView>) -> Seq<NodeView>
    decreases lines.len(),
{
    if lines.len() == 0 {
        Seq::empty()
    } else {
        body_nodes(lines.drop_last()) + location_nodes(lines.last().source_line)
            + source_line_nodes(lines.last())
    }
}

/// The whole diagnostic: header and body in a section named after the
/// severity.
pub open spec fn diagnostic_nodes(header: HeaderView, lines: Seq<LabelledLineView>) -> Seq<
    NodeView,
> {
    section(header.severity.section(), header_nodes(header) + body_nodes(lines))
}

/// A section around a balanced run is balanced.
pub proof fn lemma_section_balanced(name: Seq<char>, body: Seq<NodeView>)
    requires
        crate::document::balanced(body),
    ensures
        crate::document::balanced(section(name, body)),
{
    crate::document::lemma_balanced_section(name, body);
}

/// A line of a balanced run is balanced.
pub proof fn lemma_line_balanced(body: Seq<NodeView>)
    requires
        crate::document::balanced(body),
    ensures
        crate::document::balanced(line(body)),
{
    crate::document::lemma_balanced_flat(seq![NodeView::Newline]);
    crate::document::lemma_balanced_concat(body, seq![NodeView::Newline]);
}

/// A run of text is balanced.
pub proof fn lemma_text_balanced(t: Seq<char>)
    ensures
        crate::document::balanced(text(t)),
{
    crate::document::lemma_balanced_flat(text(t));
}

/// The header opens and closes its sections in pairs.
pub proof fn lemma_header_balanced(header: HeaderView)
    ensures
        crate::document::balanced(header_nodes(header)),
{
    let severity = text(header.severity.section());
    let code = match header.code {
        Some(code) => text("["@) + text(code) + text("]"@),
        None => Seq::<NodeView>::empty(),
    };
    crate::document::lemma_balanced_flat(severity + code);
    lemma_section_balanced("primary"@, severity + code);
    crate::document::lemma_balanced_flat(text(": "@) + text(header.message));
    let primary = section("primary"@, severity + code);
    crate::document::lemma_balanced_concat(primary, text(": "@) + text(header.message));
    assert(primary + (text(": "@) + text(header.message)) =~= primary + text(": "@) + text(
        header.message,
    ));
    lemma_line_balanced(primary + text(": "@) + text(header.message));
    lemma_section_balanced("header"@, line(primary + text(": "@) + text(header.message)));
}

/// The location opens and closes its section in a pair.
pub proof fn lemma_location_balanced(source_line: SourceLineView)
    ensures
        crate::document::balanced(location_nodes(source_line)),
{
    let body = text("- "@) + text(source_line.filename) + text(":"@) + text(
        crate::text::decimal(source_line.line_number as nat),
    ) + text(":"@) + text(crate::text::decimal(source_line.location.column as nat));
    crate::document::lemma_balanced_flat(body);
    lemma_line_balanced(body);
    lemma_section_balanced("source-code-location"@, line(body));
}

/// The source line opens and closes its sections in pairs.
pub proof fn lemma_source_line_balanced(model: LabelledLineView)
    ensures
        crate::document::balanced(source_line_nodes(model)),
{
    let source_line = model.source_line;
    let number = crate::text::decimal(source_line.line_number as nat);
    let gutter = section("gutter"@, text(number) + text(" | "@));
    let before = section("before-marked"@, text(source_line.before_marked));
    let marked = section(model.style.section(), text(source_line.marked));
    let after = section("after-marked"@, text(source_line.after_marked));
    crate::document::lemma_balanced_flat(text(number) + text(" | "@));
    lemma_section_balanced("gutter"@, text(number) + text(" | "@));
    lemma_text_balanced(source_line.before_marked);
    lemma_section_balanced("before-marked"@, text(source_line.before_marked));
    lemma_text_balanced(source_line.marked);
    lemma_section_balanced(model.style.section(), text(source_line.marked));
    lemma_text_balanced(source_line.after_marked);
    lemma_section_balanced("after-marked"@, text(source_line.after_marked));
    crate::document::lemma_balanced_concat(gutter, before);
    crate::document::lemma_balanced_concat(gutter + before, marked);
    crate::document::lemma_balanced_concat(gutter + before + marked, after);
    lemma_line_balanced(gutter + before + marked + after);

    let pad = text(crate::text::repeated(" "@, encode_utf8(number).len())) + text(" | "@);
    let indent = text(crate::text::repeated(" "@, encode_utf8(source_line.before_marked).len()));
    let marks = text(
        crate::text::repeated(model.style.mark_text(), encode_utf8(source_line.marked).len()),
    ) + match model.message {
        Some(message) => text(" "@) + text(message),
        None => Seq::<NodeView>::empty(),
    };
    crate::document::lemma_balanced_flat(pad);
    lemma_section_balanced("gutter"@, pad);
    crate::document::lemma_balanced_flat(indent);
    crate::document::lemma_balanced_flat(marks);
    lemma_section_balanced(model.style.section(), marks);
    crate::document::lemma_balanced_concat(section("gutter"@, pad), indent);
    crate::document::lemma_balanced_concat(
        section("gutter"@, pad) + indent,
        section(model.style.section(), marks),
    );
    let under = section("gutter"@, pad) + indent + section(model.style.section(), marks);
    lemma_section_balanced("underline"@, under);
    lemma_line_balanced(section("underline"@, under));
    crate::document::lemma_balanced_concat(
        line(gutter + before + marked + after),
        line(section("underline"@, under)),
    );
}

/// The body opens and closes its sections in pairs.
pub proof fn lemma_body_balanced(lines: Seq<LabelledLineView>)
    ensures
        crate::document::balanced(body_nodes(lines)),
    decreases lines.len(),
{
    if lines.len() == 0 {
        crate::document::lemma_balanced_flat(body_nodes(lines));
    } else {
        lemma_body_balanced(lines.drop_last());
        lemma_location_balanced(lines.last().source_line);
        lemma_source_line_balanced(lines.last());
        crate::document::lemma_balanced_concat(
            body_nodes(lines.drop_last()),
            location_nodes(lines.last().source_line),
        );
        crate::document::lemma_balanced_concat(
            body_nodes(lines.drop_last()) + location_nodes(lines.last().source_line),
            source_line_nodes(lines.last()),
        );
    }
}

/// Every diagnostic is laid out as a balanced run of nodes.
pub proof fn lemma_diagnostic_balanced(header: HeaderView, lines: Seq<LabelledLineView>)
    ensures
        crate::document::balanced(diagnostic_nodes(header, lines)),
{
    lemma_header_balanced(header);
    lemma_body_balanced(lines);
    crate::document::lemma_balanced_concat(header_nodes(header), body_nodes(lines));
    lemma_section_balanced(header.severity.section(), header_nodes(header) + body_nodes(lines));
}

fn add_text(document: Document, content: &str) -> (out: Document)
    ensures
        out@ == document@ + text(content@),
{
    let out = document.add_node(Node::Text(String::from_str(content)));
    assert(out@ =~= document@ + text(content@));
    out
}

fn open(document: Document, name: &'static str) -> (out: Document)
    ensures
        out@ == document@.push(NodeView::OpenSection(name@)),
{
    document.add_node(Node::OpenSection(name))
}

fn close(document: Document) -> (out: Document)
    ensures
        out@ == document@.push(NodeView::CloseSection),
{
    document.add_node(Node::CloseSection)
}

fn newline(document: Document) -> (out: Document)
    ensures
        out@ == document@.push(NodeView::Newline),
{
    document.add_node(Node::Newline)
}

/// The whole diagnostic, added to `into`.
#[allow(non_snake_case)]
pub fn Diagnostic(data: &DiagnosticData, into: Document) -> (out: Document)
    ensures
        out@ == into@ + diagnostic_nodes(data.header_view(), data.lines_view()),
{
    let header = data.header();
    let mut document = open(into, data.section_name());
    document = Header(header, document);
    document = Body(data, document);
    document = close(document);
    assert(document@ =~= into@ + diagnostic_nodes(data.header_view(), data.lines_view()));
    document
}

/// The header line, added to `into`.
#[allow(non_snake_case)]
pub fn Header<'args>(header: HeaderModel<'args>, into: Document) -> (out: Document)
    ensures
        out@ == into@ + header_nodes(header@),
{
    let mut document = open(into, "header");
    document = open(document, "primary");
    document = add_text(document, header.severity());
    match header.code() {
        Some(code) => {
            document = add_text(document, "[");
            document = add_text(document, code);
            document = add_text(document, "]");
        },
        None => {},
    }
    document = close(document);
    document = add_text(document, ": ");
    let message = header.message();
    document = add_text(document, message.as_str());
    document = newline(document);
    document = close(document);
    assert(document@ =~= into@ + header_nodes(header@));
    document
}

/// For each label, where it points and the line it points into, added to
/// `into`.
#[allow(non_snake_case)]
pub fn Body(data: &DiagnosticData, into: Document) -> (out: Document)
    ensures
        out@ == into@ + body_nodes(data.lines_view()),
{
    let lines = data.lines();
    let ghost views = data.lines_view();
    let mut document = into;
    let mut i: usize = 0;
    proof {
        assert(views.take(0) =~= Seq::<LabelledLineView>::empty());
        assert(into@ + body_nodes(views.take(0)) =~= into@);
    }
    while i < lines.len()
        invariant
            i <= lines.len(),
            views.len() == lines.len(),
            forall|k: int| 0 <= k < lines.len() ==> views[k] == lines@[k]@,
            document@ == into@ + body_nodes(views.take(i as int)),
        decreases lines.len() - i,
    {
        let ghost before = document@;
        proof {
            assert(views.take(i + 1).drop_last() =~= views.take(i as int));
            assert(views.take(i + 1).last() == lines@[i as int]@);
        }
        document = SourceCodeLocation(lines[i].source_line(), document);
        document = SourceCodeLine(&lines[i], document);
        proof {
            assert(document@ =~= into@ + body_nodes(views.take(i + 1)));
        }
        i += 1;
    }
    assert(views.take(lines.len() as int) =~= views);
    document
}

/// Where the marked code is, added to `into`.
#[allow(non_snake_case)]
pub fn SourceCodeLocation(source_line: &SourceLine, into: Document) -> (out: Document)
    ensures
        out@ == into@ + location_nodes(source_line@),
{
    let location = source_line.location();
    let filename = source_line.filename();
    let line = decimal_string(source_line.line_number());
    let column = decimal_string(location.column);
    let mut document = open(into, "source-code-location");
    document = add_text(document, "- ");
    document = add_text(document, filename.as_str());
    document = add_text(document, ":");
    document = add_text(document, line.as_str());
    document = add_text(document, ":");
    document = add_text(document, column.as_str());
    document = newline(document);
    document = close(document);
    assert(document@ =~= into@ + location_nodes(source_line@));
    document
}

/// The line of source and the marks under it, added to `into`.
#[allow(non_snake_case)]
pub fn SourceCodeLine(model: &LabelledLine, into: Document) -> (out: Document)
    ensures
        out@ == into@ + source_line_nodes(model@),
{
    let source_line = model.source_line();
    let number = decimal_string(source_line.line_number());
    let before = source_line.before_marked();
    let marked = source_line.marked();
    let after = source_line.after_marked();

    let mut document = open(into, "gutter");
    document = add_text(document, number.as_str());
    document = add_text(document, " | ");
    document = close(document);
    document = open(document, "before-marked");
    document = add_text(document, before.as_str());
    document = close(document);
    document = open(document, model.style());
    document = add_text(document, marked.as_str());
    document = close(document);
    document = open(document, "after-marked");
    document = add_text(document, after.as_str());
    document = close(document);
    document = newline(document);
    let ghost first = document@;
    assert(first =~= into@ + line(
        section("gutter"@, text(number@) + text(" | "@)) + section(
            "before-marked"@,
            text(before@),
        ) + section(model@.style.section(), text(marked@)) + section(
            "after-marked"@,
            text(after@),
        ),
    ));

    let pad = repeat_str(" ", number.as_str().as_bytes().len());
    let indent = repeat_str(" ", before.as_str().as_bytes().len());
    let marks = repeat_str(model.mark(), marked.as_str().as_bytes().len());
    document = open(document, "underline");
    document = open(document, "gutter");
    document = add_text(document, pad.as_str());
    document = add_text(document, " | ");
    document = close(document);
    document = add_text(document, indent.as_str());
    document = open(document, model.style());
    document = add_text(document, marks.as_str());
    match model.message() {
        Some(message) => {
            document = add_text(document, " ");
            document = add_text(document, message.as_str());
        },
        None => {},
    }
    document = close(document);
    document = close(document);
    document = newline(document);
    assert(document@ =~= into@ + source_line_nodes(model@));
    document
}

} // verus!
