//! Writing a document into an in-memory buffer of the `termcolor` crate.
//!
//! The buffer is not verified. What is taken on trust of it is stated on
//! the functions of this module that call it; everything above them is
//! proved from those statements.

use crate::document::Document;
use crate::document::NodeView;
use crate::stylesheet::{Stylesheet, Trie};
use crate::writer::{Command, CommandView};
use std::io::Write;
use vstd::prelude::*;
use vstd::string::*;
use vstd::utf8::*;

verus! {

#[verifier::external_type_specification]
#[verifier::external_body]
pub struct ExBuffer(termcolor::Buffer);

#[verifier::external_type_specification]
#[verifier::external_body]
pub struct ExIoError(std::io::Error);

/// The bytes that a buffer holds.
pub uninterp spec fn buffer_bytes(buffer: termcolor::Buffer) -> Seq<u8>;

/// Whether a buffer was made to drop all color information.
pub uninterp spec fn drops_color(buffer: termcolor::Buffer) -> bool;

/// Calls `termcolor::Buffer::no_color`, which makes an empty buffer that
/// drops all color information.
#[verifier::external_body]
fn no_color() -> (buffer: termcolor::Buffer)
    ensures
        buffer_bytes(buffer) == Seq::<u8>::empty(),
        drops_color(buffer),
{
    termcolor::Buffer::no_color()
}

/// Calls `termcolor::WriteColor::reset` on a buffer. A buffer that drops
/// color information succeeds and is left as it was; of other buffers
/// nothing is claimed.
#[verifier::external_body]
fn reset(buffer: &mut termcolor::Buffer) -> (r: Result<(), std::io::Error>)
    ensures
        drops_color(*old(buffer)) ==> r is Ok && drops_color(*final(buffer)) && buffer_bytes(
            *final(buffer),
        ) == buffer_bytes(*old(buffer)),
{
    termcolor::WriteColor::reset(buffer)
}

/// Writes `text` to a buffer through `std::io::Write`. Every buffer keeps
/// its bytes in a vector: the write succeeds and puts the bytes of `text`
/// after those that the buffer held.
#[verifier::external_body]
fn write_str(buffer: &mut termcolor::Buffer, text: &str) -> (r: Result<(), std::io::Error>)
    ensures
        r is Ok,
        drops_color(*final(buffer)) == drops_color(*old(buffer)),
        buffer_bytes(*final(buffer)) == buffer_bytes(*old(buffer)) + text.spec_bytes(),
{
    write!(buffer, "{}", text)
}

/// Calls `termcolor::Buffer::as_slice` and copies the bytes that the
/// buffer holds.
#[verifier::external_body]
fn contents(buffer: &termcolor::Buffer) -> (r: Vec<u8>)
    ensures
        r@ == buffer_bytes(*buffer),
{
    buffer.as_slice().to_vec()
}

/// Calls `String::from_utf8_lossy`. Bytes that are valid UTF-8 give the
/// string that they encode; of other bytes nothing is claimed.
#[verifier::external_body]
fn from_utf8_lossy(bytes: &[u8]) -> (r: String)
    ensures
        valid_utf8(bytes@) ==> r@ == decode_utf8(bytes@),
{
    String::from_utf8_lossy(bytes).into_owned()
}

/// The encoding of a text in two parts is the encoding of the first part
/// followed by that of the second.
pub proof fn lemma_encode_concat(a: Seq<char>, b: Seq<char>)
    ensures
        encode_utf8(a + b) == encode_utf8(a) + encode_utf8(b),
    decreases a.len(),
{
    if a.len() == 0 {
        assert(a + b =~= b);
        assert(encode_utf8(a) + encode_utf8(b) =~= encode_utf8(b));
    } else {
        assert((a + b).drop_first() =~= a.drop_first() + b);
        assert((a + b)[0] == a[0]);
        lemma_encode_concat(a.drop_first(), b);
        assert(encode_utf8(a + b) =~= encode_utf8(a) + encode_utf8(b));
    }
}

/// Carries out on a buffer a command that sets no style.
fn perform(buffer: &mut termcolor::Buffer, command: &Command) -> (r: Result<(), std::io::Error>)
    requires
        !(command is SetStyle),
    ensures
        drops_color(*old(buffer)) ==> r is Ok && drops_color(*final(buffer)) && buffer_bytes(
            *final(buffer),
        ) == buffer_bytes(*old(buffer)) + encode_utf8(
            crate::writer::written_text(seq![command@]),
        ),
{
    proof {
        let one = seq![command@];
        assert(one.drop_last() =~= Seq::<CommandView>::empty());
        assert(crate::writer::written_text(one.drop_last()) =~= Seq::<char>::empty());
        assert(crate::writer::written_text(one) =~= match command@ {
            CommandView::Write(text) => text,
            _ => Seq::<char>::empty(),
        });
        assert(buffer_bytes(*buffer) + encode_utf8(Seq::<char>::empty()) =~= buffer_bytes(
            *buffer,
        ));
    }
    match command {
        Command::Reset => reset(buffer),
        Command::SetStyle(_) => Ok(()),
        Command::Write(text) => write_str(buffer, text.as_str()),
    }
}

/// A stylesheet without rules has no style for any nesting.
pub proof fn lemma_no_rules_no_style(names: Seq<Seq<char>>)
    ensures
        Trie::root().find(names) is None,
{
    let root = Trie::root();
    assert(root.children.len() == 0);
    assert(root.find_glob(names) is None);
    assert(root.find_star(names) is None);
    assert(root.find_skipped_glob(names) is None);
    assert(root.find_literal(names) is None);
}

/// Without rules, no command sets a style.
pub proof fn lemma_no_rules_no_set_style(nodes: Seq<NodeView>)
    ensures
        forall|i: int|
            0 <= i < crate::writer::written(nodes, Trie::root()).len() ==> !(
            #[trigger] crate::writer::written(nodes, Trie::root())[i] is SetStyle),
    decreases nodes.len(),
{
    if nodes.len() > 0 {
        lemma_no_rules_no_set_style(nodes.drop_last());
        lemma_no_rules_no_style(crate::document::nesting(nodes.drop_last()));
    }
}

impl Document {
    /// The text of the document without any styling: what a buffer that
    /// drops color information holds after the document was written into
    /// it without a stylesheet.
    pub fn to_string(self) -> (r: Result<String, std::io::Error>)
        requires
            crate::document::never_underflows(self@),
        ensures
            r matches Ok(text) && text@ == crate::document::plain_text(self@),
    {
        let mut writer = no_color();
        let stylesheet = Stylesheet::new();
        let commands = self.commands(&stylesheet);
        let ghost views = crate::writer::command_views(commands@);
        let mut i: usize = 0;
        proof {
            lemma_no_rules_no_set_style(self@);
            assert(views.take(0) =~= Seq::<CommandView>::empty());
        }
        while i < commands.len()
            invariant
                i <= commands.len(),
                views == crate::writer::command_views(commands@),
                forall|k: int| 0 <= k < views.len() ==> !(#[trigger] views[k] is SetStyle),
                drops_color(writer),
                buffer_bytes(writer) == encode_utf8(
                    crate::writer::written_text(views.take(i as int)),
                ),
            decreases commands.len() - i,
        {
            assert(commands@[i as int]@ == views[i as int]);
            match perform(&mut writer, &commands[i]) {
                Ok(()) => {},
                Err(error) => {
                    return Err(error);
                },
            }
            proof {
                let done = views.take(i as int);
                let one = seq![views[i as int]];
                assert(views.take(i + 1) =~= done + one);
                crate::writer::lemma_written_text_concat(done, one);
                lemma_encode_concat(
                    crate::writer::written_text(done),
                    crate::writer::written_text(one),
                );
            }
            i += 1;
        }
        let bytes = contents(&writer);
        proof {
            let text = crate::document::plain_text(self@);
            assert(views.take(commands.len() as int) =~= views);
            crate::writer::lemma_styled_commands_write_plain_text(self@, stylesheet@);
            encode_utf8_valid_utf8(text);
            encode_utf8_decode_utf8(text);
        }
        Ok(from_utf8_lossy(bytes.as_slice()))
    }
}

} // verus!
