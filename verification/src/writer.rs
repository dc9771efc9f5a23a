//! What a color-capable terminal is told in order to show a document: the
//! styled text itself, and a structural trace of the tree for debugging.
//!
//! Both are computed as a list of commands. Carrying the commands out on a
//! stream is left to the caller, who stops at the first one that fails.

use crate::color::Color;
use crate::document::{Document, Node, NodeView};
use crate::style::{AttributeName, Style, StyleView};
use crate::style::{ColorAttribute, WeightAttribute};
use crate::stylesheet::{Stylesheet, Trie};
use crate::text::repeat_str;
use vstd::prelude::*;
use vstd::string::*;

verus! {

/// One instruction for the terminal.
#[derive(Debug, Clone, PartialEq)]
pub enum Command {
    /// Go back to the terminal's own colors and weight.
    Reset,
    /// Show what follows in this style.
    SetStyle(Style),
    /// Write this text.
    Write(String),
}

/// A command with its contents by their views.
pub enum CommandView {
    Reset,
    SetStyle(StyleView),
    Write(Seq<char>),
}

impl View for Command {
    type V = CommandView;

    open spec fn view(&self) -> CommandView {
        match self {
            Command::Reset => CommandView::Reset,
            Command::SetStyle(style) => CommandView::SetStyle(style@),
            Command::Write(text) => CommandView::Write(text@),
        }
    }
}

/// The commands of a list, each by its view.
pub open spec fn command_views(commands: Seq<Command>) -> Seq<CommandView> {
    commands.map_values(|command: Command| command@)
}

/// The command that sets the style found for a nesting, or resets where
/// none is found.
pub open spec fn style_command(style: Option<StyleView>) -> CommandView {
    match style {
        Some(style) => CommandView::SetStyle(style),
        None => CommandView::Reset,
    }
}

/// What one node makes the terminal do, inside the sections `nesting`.
///
/// A run of text that is not empty sets the style that the stylesheet has
/// for the nesting, or resets, and is then written. A newline resets and
/// writes a line feed. Section markers do nothing visible.
pub open spec fn node_commands(node: NodeView, nesting: Seq<Seq<char>>, sheet: Trie) -> Seq<
    CommandView,
> {
    match node {
        NodeView::Text(text) => if text.len() == 0 {
            Seq::empty()
        } else {
            seq![style_command(sheet.find(nesting)), CommandView::Write(text)]
        },
        NodeView::Newline => seq![CommandView::Reset, CommandView::Write(seq!['\n'])],
        _ => Seq::empty(),
    }
}

/// What the nodes make the terminal do, one after the other.
pub open spec fn written(nodes: Seq<NodeView>, sheet: Trie) -> Seq<CommandView>
    decreases nodes.len(),
{
    if nodes.len() == 0 {
        Seq::empty()
    } else {
        written(nodes.drop_last(), sheet) + node_commands(
            nodes.last(),
            crate::document::nesting(nodes.drop_last()),
            sheet,
        )
    }
}

/// All that the terminal is told for a document: a reset, the nodes, and a
/// reset.
pub open spec fn styled_commands(nodes: Seq<NodeView>, sheet: Trie) -> Seq<CommandView> {
    seq![CommandView::Reset] + written(nodes, sheet) + seq![CommandView::Reset]
}

/// The style of section names in a trace.
pub open spec fn name_style() -> StyleView {
    StyleView {
        fg: ColorAttribute::Color(Color::Blue),
        weight: WeightAttribute::Bold,
        ..StyleView::empty()
    }
}

/// The style of attribute names and of the marker before text in a trace.
pub open spec fn mark_style() -> StyleView {
    StyleView {
        fg: ColorAttribute::Color(Color::Black),
        weight: WeightAttribute::Bold,
        ..StyleView::empty()
    }
}

/// The style of attribute values in a trace.
pub open spec fn value_style() -> StyleView {
    StyleView {
        fg: ColorAttribute::Color(Color::Cyan),
        weight: WeightAttribute::Dim,
        ..StyleView::empty()
    }
}

/// Text shown in a style, with a reset after it.
pub open spec fn styled(text: Seq<char>, style: StyleView) -> Seq<CommandView> {
    seq![CommandView::SetStyle(style), CommandView::Write(text), CommandView::Reset]
}

/// A new line of a trace, indented by one space for each open section.
pub open spec fn start_line(depth: nat) -> Seq<CommandView> {
    seq![CommandView::Write(seq!['\n'] + crate::text::repeated(seq![' '], depth))]
}

/// The attributes of a section in a trace: each name, `=` and the value
/// where there is one, with single spaces between attributes.
pub open spec fn attribute_commands(attributes: Seq<(AttributeName, Option<Seq<char>>)>) -> Seq<
    CommandView,
>
    decreases attributes.len(),
{
    if attributes.len() == 0 {
        Seq::empty()
    } else {
        let before = attribute_commands(attributes.drop_last());
        let (name, value) = attributes.last();
        (if attributes.len() == 1 {
            before
        } else {
            before + seq![CommandView::Write(seq![' '])]
        }) + styled(name.text(), mark_style()) + (match value {
            Some(value) => seq![CommandView::Write(seq!['='])] + styled(value, value_style()),
            None => Seq::empty(),
        })
    }
}

/// Whether a trace is at the start of a line after `nodes`: it is unless
/// the last node is a run of text.
pub open spec fn line_start(nodes: Seq<NodeView>) -> bool {
    nodes.len() == 0 || !(nodes.last() is Text)
}

/// What one node adds to a trace, inside the sections `nesting`.
pub open spec fn trace_commands(
    node: NodeView,
    nesting: Seq<Seq<char>>,
    at_line_start: bool,
    sheet: Trie,
) -> Seq<CommandView> {
    match node {
        NodeView::Text(text) => (if at_line_start {
            start_line(nesting.len()) + styled(seq!['|'], mark_style())
        } else {
            Seq::empty()
        }) + seq![CommandView::Write(text)],
        NodeView::OpenSection(name) => {
            let style = sheet.find(nesting.push(name));
            start_line(nesting.len()) + seq![CommandView::Write(seq!['<'])] + styled(
                name,
                name_style(),
            ) + (match style {
                Some(style) => if style.is_default() {
                    Seq::empty()
                } else {
                    seq![CommandView::Write(seq![' '])] + attribute_commands(
                        style.debug_attributes(),
                    ) + styled(seq![' ', '\u{a7}'], style)
                },
                None => Seq::empty(),
            }) + seq![CommandView::Reset, CommandView::Write(seq!['>'])]
        },
        NodeView::CloseSection => start_line((nesting.len() - 1) as nat) + seq![
            CommandView::Write(seq!['<', '/']),
            CommandView::SetStyle(name_style()),
            CommandView::Write(nesting.last()),
            CommandView::Reset,
            CommandView::Write(seq!['>']),
        ],
        NodeView::Newline => seq![CommandView::Reset] + (if at_line_start {
            seq![
                CommandView::Write(
                    seq!['\n'] + crate::text::repeated(seq![' ', ' '], nesting.len()),
                ),
            ]
        } else {
            Seq::empty()
        }) + seq![CommandView::Write(seq!['\\', 'n'])],
    }
}

/// What the nodes add to a trace, one after the other.
pub open spec fn traced(nodes: Seq<NodeView>, sheet: Trie) -> Seq<CommandView>
    decreases nodes.len(),
{
    if nodes.len() == 0 {
        Seq::empty()
    } else {
        traced(nodes.drop_last(), sheet) + trace_commands(
            nodes.last(),
            crate::document::nesting(nodes.drop_last()),
            line_start(nodes.drop_last()),
            sheet,
        )
    }
}

/// The whole trace of a document: nothing for a document without nodes,
/// else a reset, the nodes, and two line feeds.
pub open spec fn debug_commands(nodes: Seq<NodeView>, sheet: Trie) -> Seq<CommandView> {
    if nodes.len() == 0 {
        Seq::empty()
    } else {
        seq![CommandView::Reset] + traced(nodes, sheet) + seq![
            CommandView::Write(seq!['\n', '\n']),
        ]
    }
}

/// The names of a nesting, each by its view.
pub open spec fn names_view(names: Seq<&'static str>) -> Seq<Seq<char>> {
    names.map_values(|name: &'static str| name@)
}

/// While no prefix underflows, as many sections are open as the depth says.
pub proof fn lemma_nesting_depth(nodes: Seq<NodeView>)
    requires
        crate::document::never_underflows(nodes),
    ensures
        crate::document::nesting(nodes).len() == crate::document::depth(nodes),
    decreases nodes.len(),
{
    if nodes.len() > 0 {
        let before = nodes.drop_last();
        assert forall|k: int| 0 <= k <= before.len() implies crate::document::depth(
            #[trigger] before.take(k),
        ) >= 0 by {
            assert(before.take(k) =~= nodes.take(k));
        }
        lemma_nesting_depth(before);
        assert(nodes.take(nodes.len() as int) =~= nodes);
        assert(before =~= nodes.take(nodes.len() - 1));
    }
}

fn literal(text: &str) -> (r: Command)
    ensures
        r@ == CommandView::Write(text@),
{
    Command::Write(String::from_str(text))
}

fn push_styled(out: &mut Vec<Command>, text: &str, style: Style)
    ensures
        command_views(final(out)@) == command_views(old(out)@) + styled(text@, style@),
{
    out.push(Command::SetStyle(style));
    out.push(literal(text));
    out.push(Command::Reset);
    assert(command_views(out@) =~= command_views(old(out)@) + styled(text@, style@));
}

fn push_start_line(out: &mut Vec<Command>, depth: usize)
    ensures
        command_views(final(out)@) == command_views(old(out)@) + start_line(depth as nat),
{
    proof {
        reveal_strlit("\n");
        reveal_strlit(" ");
        assert("\n"@ =~= seq!['\n']);
        assert(" "@ =~= seq![' ']);
    }
    let mut line = String::from_str("\n");
    let pad = repeat_str(" ", depth);
    line.append(pad.as_str());
    out.push(Command::Write(line));
    assert(command_views(out@) =~= command_views(old(out)@) + start_line(depth as nat));
}

fn name_style_exec() -> (r: Style)
    ensures
        r@ == name_style(),
{
    Style::new().fg(Color::Blue).bold()
}

fn mark_style_exec() -> (r: Style)
    ensures
        r@ == mark_style(),
{
    Style::new().fg(Color::Black).bold()
}

fn value_style_exec() -> (r: Style)
    ensures
        r@ == value_style(),
{
    Style::new().fg(Color::Cyan).dim()
}

fn push_attributes(out: &mut Vec<Command>, attributes: &Vec<(AttributeName, Option<String>)>)
    ensures
        command_views(final(out)@) == command_views(old(out)@) + attribute_commands(
            attributes@.map_values(
                |a: (AttributeName, Option<String>)| (a.0, crate::text::option_view(a.1)),
            ),
        ),
{
    let ghost all = attributes@.map_values(
        |a: (AttributeName, Option<String>)| (a.0, crate::text::option_view(a.1)),
    );
    let ghost start = command_views(out@);
    let mut i: usize = 0;
    proof {
        reveal_strlit(" ");
        reveal_strlit("=");
        assert(" "@ =~= seq![' ']);
        assert("="@ =~= seq!['=']);
        assert(all.take(0) =~= Seq::<(AttributeName, Option<Seq<char>>)>::empty());
        assert(start + attribute_commands(all.take(0)) =~= start);
    }
    while i < attributes.len()
        invariant
            i <= attributes.len(),
            all == attributes@.map_values(
                |a: (AttributeName, Option<String>)| (a.0, crate::text::option_view(a.1)),
            ),
            " "@ == seq![' '],
            "="@ == seq!['='],
            command_views(out@) == start + attribute_commands(all.take(i as int)),
        decreases attributes.len() - i,
    {
        let ghost before = command_views(out@);
        proof {
            assert(all.take(i + 1).drop_last() =~= all.take(i as int));
            assert(all.take(i + 1).last() == all[i as int]);
        }
        if i > 0 {
            out.push(literal(" "));
        }
        let ghost spaced = command_views(out@);
        proof {
            if i > 0 {
                assert(spaced =~= before + seq![CommandView::Write(seq![' '])]);
            }
        }
        let name = attributes[i].0.as_str();
        push_styled(out, name, mark_style_exec());
        let ghost named = command_views(out@);
        match &attributes[i].1 {
            Some(value) => {
                out.push(literal("="));
                assert(command_views(out@) =~= named + seq![CommandView::Write(seq!['='])]);
                push_styled(out, value.as_str(), value_style_exec());
            },
            None => {},
        }
        proof {
            let (n, v) = all[i as int];
            let tail = match v {
                Some(value) => seq![CommandView::Write(seq!['='])] + styled(value, value_style()),
                None => Seq::<CommandView>::empty(),
            };
            assert(command_views(out@) =~= spaced + styled(n.text(), mark_style()) + tail);
            assert(command_views(out@) =~= start + attribute_commands(all.take(i + 1)));
        }
        i += 1;
    }
    assert(all.take(attributes.len() as int) =~= all);
}

impl Node {
    /// What the node makes the terminal do, inside the sections `nesting`.
    pub fn commands(&self, nesting: &Vec<&'static str>, stylesheet: &Stylesheet) -> (r: Vec<
        Command,
    >)
        ensures
            command_views(r@) == node_commands(self@, names_view(nesting@), stylesheet@),
    {
        let mut out: Vec<Command> = Vec::new();
        proof {
            reveal_strlit("\n");
            assert("\n"@ =~= seq!['\n']);
        }
        match self {
            Node::Text(text) => {
                if !text.as_str().is_empty() {
                    let style = stylesheet.get(nesting.as_slice());
                    match style {
                        None => out.push(Command::Reset),
                        Some(style) => out.push(Command::SetStyle(style)),
                    }
                    out.push(Command::Write(text.clone()));
                }
            },
            Node::Newline => {
                out.push(Command::Reset);
                out.push(literal("\n"));
            },
            _ => {},
        }
        assert(command_views(out@) =~= node_commands(
            self@,
            names_view(nesting@),
            stylesheet@,
        ));
        out
    }

    /// What the node adds to a trace, inside the sections `nesting`.
    pub fn trace(
        &self,
        nesting: &Vec<&'static str>,
        at_line_start: bool,
        stylesheet: &Stylesheet,
    ) -> (r: Vec<Command>)
        requires
            self is CloseSection ==> nesting@.len() > 0,
        ensures
            command_views(r@) == trace_commands(
                self@,
                names_view(nesting@),
                at_line_start,
                stylesheet@,
            ),
    {
        let mut out: Vec<Command> = Vec::new();
        let ghost names = names_view(nesting@);
        proof {
            reveal_strlit("\n");
            reveal_strlit("\\n");
            reveal_strlit("|");
            reveal_strlit("<");
            reveal_strlit("</");
            reveal_strlit(">");
            reveal_strlit(" ");
            reveal_strlit("  ");
            reveal_strlit(" \u{a7}");
            assert("\n"@ =~= seq!['\n']);
            assert("\\n"@ =~= seq!['\\', 'n']);
            assert("|"@ =~= seq!['|']);
            assert("<"@ =~= seq!['<']);
            assert("</"@ =~= seq!['<', '/']);
            assert(">"@ =~= seq!['>']);
            assert(" "@ =~= seq![' ']);
            assert("  "@ =~= seq![' ', ' ']);
            assert(" \u{a7}"@ =~= seq![' ', '\u{a7}']);
        }
        match self {
            Node::Text(text) => {
                if at_line_start {
                    push_start_line(&mut out, nesting.len());
                    push_styled(&mut out, "|", mark_style_exec());
                }
                out.push(Command::Write(text.clone()));
            },
            Node::OpenSection(section) => {
                push_start_line(&mut out, nesting.len());
                out.push(literal("<"));
                let mut inner = nesting.clone();
                inner.push(*section);
                assert(names_view(inner@) =~= names.push(section@));
                let style = stylesheet.get(inner.as_slice());
                push_styled(&mut out, section, name_style_exec());
                let ghost head = command_views(out@);
                assert(head =~= start_line(names.len()) + seq![CommandView::Write(seq!['<'])]
                    + styled(section@, name_style()));
                if let Some(style) = style {
                    if style.has_value() {
                        out.push(literal(" "));
                        let attributes = style.debug_attributes();
                        push_attributes(&mut out, &attributes);
                        push_styled(&mut out, " \u{a7}", style);
                        assert(command_views(out@) =~= head + (seq![
                            CommandView::Write(seq![' ']),
                        ] + attribute_commands(style@.debug_attributes()) + styled(
                            seq![' ', '\u{a7}'],
                            style@,
                        )));
                    }
                }
                let ghost middle = command_views(out@);
                out.push(Command::Reset);
                out.push(literal(">"));
                assert(command_views(out@) =~= middle + seq![
                    CommandView::Reset,
                    CommandView::Write(seq!['>']),
                ]);
            },
            Node::CloseSection => {
                let popped = nesting[nesting.len() - 1];
                assert(popped@ == names.last());
                push_start_line(&mut out, nesting.len() - 1);
                out.push(literal("</"));
                out.push(Command::SetStyle(name_style_exec()));
                out.push(literal(popped));
                out.push(Command::Reset);
                out.push(literal(">"));
            },
            Node::Newline => {
                out.push(Command::Reset);
                if at_line_start {
                    let mut line = String::from_str("\n");
                    let pad = repeat_str("  ", nesting.len());
                    line.append(pad.as_str());
                    out.push(Command::Write(line));
                }
                out.push(literal("\\n"));
            },
        }
        assert(command_views(out@) =~= trace_commands(
            self@,
            names,
            at_line_start,
            stylesheet@,
        ));
        out
    }
}

impl Document {
    /// What the terminal is told in order to show the document in the
    /// styles of `stylesheet`.
    pub fn commands(&self, stylesheet: &Stylesheet) -> (r: Vec<Command>)
        requires
            crate::document::never_underflows(self@),
        ensures
            command_views(r@) == styled_commands(self@, stylesheet@),
    {
        let mut out: Vec<Command> = Vec::new();
        out.push(Command::Reset);
        let nodes = match self.tree() {
            None => {
                out.push(Command::Reset);
                assert(command_views(out@) =~= styled_commands(self@, stylesheet@));
                return out;
            },
            Some(nodes) => nodes,
        };
        let ghost views = self@;
        let mut nesting: Vec<&'static str> = Vec::new();
        let mut i: usize = 0;
        proof {
            assert(views.take(0) =~= Seq::<NodeView>::empty());
            assert(names_view(nesting@) =~= crate::document::nesting(views.take(0)));
            assert(command_views(out@) =~= seq![CommandView::Reset] + written(
                views.take(0),
                stylesheet@,
            ));
        }
        while i < nodes.len()
            invariant
                i <= nodes.len(),
                views == crate::document::node_views(nodes@),
                crate::document::never_underflows(views),
                names_view(nesting@) == crate::document::nesting(views.take(i as int)),
                command_views(out@) == seq![CommandView::Reset] + written(
                    views.take(i as int),
                    stylesheet@,
                ),
            decreases nodes.len() - i,
        {
            let ghost before = views.take(i as int);
            let ghost after = views.take(i + 1);
            proof {
                assert(after.drop_last() =~= before);
                assert(after.last() == nodes@[i as int]@);
                lemma_prefix_never_underflows(views, i as int);
                lemma_prefix_never_underflows(views, i + 1);
                lemma_nesting_depth(before);
                lemma_nesting_depth(after);
            }
            let mut step = nodes[i].commands(&nesting, stylesheet);
            let ghost so_far = command_views(out@);
            out.append(&mut step);
            proof {
                assert(command_views(out@) =~= so_far + node_commands(
                    after.last(),
                    crate::document::nesting(before),
                    stylesheet@,
                ));
                assert(command_views(out@) =~= seq![CommandView::Reset] + written(
                    after,
                    stylesheet@,
                ));
            }
            match &nodes[i] {
                Node::OpenSection(section) => {
                    nesting.push(*section);
                    assert(names_view(nesting@) =~= crate::document::nesting(after));
                },
                Node::CloseSection => {
                    nesting.pop();
                    assert(names_view(nesting@) =~= crate::document::nesting(after));
                },
                _ => {},
            }
            i += 1;
        }
        assert(views.take(nodes.len() as int) =~= views);
        let ghost body = command_views(out@);
        out.push(Command::Reset);
        assert(command_views(out@) =~= body + seq![CommandView::Reset]);
        out
    }

    /// What the terminal is told in order to show a structural trace of
    /// the document, with the styles that `stylesheet` has for its
    /// sections.
    pub fn debug_commands(&self, stylesheet: &Stylesheet) -> (r: Vec<Command>)
        requires
            crate::document::never_underflows(self@),
        ensures
            command_views(r@) == debug_commands(self@, stylesheet@),
    {
        let mut out: Vec<Command> = Vec::new();
        let nodes = match self.tree() {
            None => {
                assert(command_views(out@) =~= debug_commands(self@, stylesheet@));
                return out;
            },
            Some(nodes) => nodes,
        };
        if nodes.len() == 0 {
            assert(command_views(out@) =~= debug_commands(self@, stylesheet@));
            return out;
        }
        out.push(Command::Reset);
        let ghost views = self@;
        let mut nesting: Vec<&'static str> = Vec::new();
        let mut at_line_start = true;
        let mut i: usize = 0;
        proof {
            assert(views.take(0) =~= Seq::<NodeView>::empty());
            assert(names_view(nesting@) =~= crate::document::nesting(views.take(0)));
            assert(command_views(out@) =~= seq![CommandView::Reset] + traced(
                views.take(0),
                stylesheet@,
            ));
        }
        while i < nodes.len()
            invariant
                i <= nodes.len(),
                views == crate::document::node_views(nodes@),
                crate::document::never_underflows(views),
                names_view(nesting@) == crate::document::nesting(views.take(i as int)),
                at_line_start == line_start(views.take(i as int)),
                command_views(out@) == seq![CommandView::Reset] + traced(
                    views.take(i as int),
                    stylesheet@,
                ),
            decreases nodes.len() - i,
        {
            let ghost before = views.take(i as int);
            let ghost after = views.take(i + 1);
            proof {
                assert(after.drop_last() =~= before);
                assert(after.last() == nodes@[i as int]@);
                lemma_prefix_never_underflows(views, i as int);
                lemma_prefix_never_underflows(views, i + 1);
                lemma_nesting_depth(before);
                lemma_nesting_depth(after);
            }
            let mut step = nodes[i].trace(&nesting, at_line_start, stylesheet);
            let ghost so_far = command_views(out@);
            out.append(&mut step);
            proof {
                assert(command_views(out@) =~= so_far + trace_commands(
                    after.last(),
                    crate::document::nesting(before),
                    line_start(before),
                    stylesheet@,
                ));
                assert(command_views(out@) =~= seq![CommandView::Reset] + traced(
                    after,
                    stylesheet@,
                ));
            }
            match &nodes[i] {
                Node::Text(_) => {
                    at_line_start = false;
                },
                Node::OpenSection(section) => {
                    nesting.push(*section);
                    assert(names_view(nesting@) =~= crate::document::nesting(after));
                    at_line_start = true;
                },
                Node::CloseSection => {
                    nesting.pop();
                    assert(names_view(nesting@) =~= crate::document::nesting(after));
                    at_line_start = true;
                },
                Node::Newline => {
                    at_line_start = true;
                },
            }
            i += 1;
        }
        assert(views.take(nodes.len() as int) =~= views);
        let ghost body = command_views(out@);
        proof {
            reveal_strlit("\n\n");
            assert("\n\n"@ =~= seq!['\n', '\n']);
        }
        out.push(literal("\n\n"));
        assert(command_views(out@) =~= body + seq![CommandView::Write(seq!['\n', '\n'])]);
        out
    }
}

/// Every prefix of a run that never underflows never underflows.
pub proof fn lemma_prefix_never_underflows(nodes: Seq<NodeView>, k: int)
    requires
        crate::document::never_underflows(nodes),
        0 <= k <= nodes.len(),
    ensures
        crate::document::never_underflows(nodes.take(k)),
        crate::document::depth(nodes.take(k)) >= 0,
{
    assert forall|j: int| 0 <= j <= nodes.take(k).len() implies crate::document::depth(
        #[trigger] nodes.take(k).take(j),
    ) >= 0 by {
        assert(nodes.take(k).take(j) =~= nodes.take(j));
    }
}

/// The text that the commands write is the plain text of the document,
/// whatever the stylesheet.
pub proof fn lemma_commands_write_plain_text(nodes: Seq<NodeView>, sheet: Trie)
    ensures
        written_text(written(nodes, sheet)) == crate::document::plain_text(nodes),
    decreases nodes.len(),
{
    if nodes.len() > 0 {
        let before = nodes.drop_last();
        let step = node_commands(nodes.last(), crate::document::nesting(before), sheet);
        lemma_commands_write_plain_text(before, sheet);
        lemma_written_text_concat(written(before, sheet), step);
        match nodes.last() {
            NodeView::Text(text) => {
                if text.len() == 0 {
                    assert(written_text(step) =~= text);
                } else {
                    lemma_written_text_two(step);
                    assert(written_text(step) =~= text);
                }
            },
            NodeView::Newline => {
                lemma_written_text_two(step);
                assert(written_text(step) =~= seq!['\n']);
            },
            _ => {},
        }
    }
}

/// The text that all commands for a document write is the plain text of
/// the document, whatever the stylesheet.
pub proof fn lemma_styled_commands_write_plain_text(nodes: Seq<NodeView>, sheet: Trie)
    ensures
        written_text(styled_commands(nodes, sheet)) == crate::document::plain_text(nodes),
{
    let reset = seq![CommandView::Reset];
    assert(reset.drop_last() =~= Seq::<CommandView>::empty());
    assert(written_text(reset.drop_last()) =~= Seq::<char>::empty());
    assert(written_text(reset) =~= Seq::<char>::empty());
    lemma_commands_write_plain_text(nodes, sheet);
    lemma_written_text_concat(reset, written(nodes, sheet));
    lemma_written_text_concat(reset + written(nodes, sheet), reset);
    assert(written_text(styled_commands(nodes, sheet)) =~= crate::document::plain_text(nodes));
}

/// The text that a list of commands writes, in order.
pub open spec fn written_text(commands: Seq<CommandView>) -> Seq<char>
    decreases commands.len(),
{
    if commands.len() == 0 {
        Seq::empty()
    } else {
        written_text(commands.drop_last()) + match commands.last() {
            CommandView::Write(text) => text,
            _ => Seq::empty(),
        }
    }
}

/// The text that two lists of commands write one after the other.
pub proof fn lemma_written_text_concat(a: Seq<CommandView>, b: Seq<CommandView>)
    ensures
        written_text(a + b) == written_text(a) + written_text(b),
    decreases b.len(),
{
    if b.len() == 0 {
        assert(a + b =~= a);
        assert(written_text(a) + written_text(b) =~= written_text(a));
    } else {
        assert((a + b).drop_last() =~= a + b.drop_last());
        lemma_written_text_concat(a, b.drop_last());
        assert(written_text(a + b) =~= written_text(a) + written_text(b));
    }
}

proof fn lemma_written_text_two(commands: Seq<CommandView>)
    requires
        commands.len() == 2,
        !(commands[0] is Write),
    ensures
        written_text(commands) == match commands[1] {
            CommandView::Write(text) => text,
            _ => Seq::<char>::empty(),
        },
{
    let first = commands.drop_last();
    assert(first.drop_last() =~= Seq::<CommandView>::empty());
    assert(written_text(first.drop_last()) =~= Seq::<char>::empty());
    assert(written_text(first) =~= Seq::<char>::empty());
    assert(written_text(commands) =~= match commands[1] {
        CommandView::Write(text) => text,
        _ => Seq::<char>::empty(),
    });
}

} // verus!
