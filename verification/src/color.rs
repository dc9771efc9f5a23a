//! The fixed palette of eight colors and the names they are written with.

use crate::text::eq_ignoring_case;
use vstd::prelude::*;
use vstd::string::*;

verus! {

/// One of the eight portable terminal colors.
#[derive(Copy, Clone, Debug, PartialEq, Eq, Structural)]
pub enum Color {
    Black,
    Blue,
    Green,
    Red,
    Cyan,
    Magenta,
    Yellow,
    White,
}

impl Color {
    /// The lowercase name of the color.
    pub open spec fn spec_name(self) -> Seq<char> {
        match self {
            Color::Black => "black"@,
            Color::Blue => "blue"@,
            Color::Green => "green"@,
            Color::Red => "red"@,
            Color::Cyan => "cyan"@,
            Color::Magenta => "magenta"@,
            Color::Yellow => "yellow"@,
            Color::White => "white"@,
        }
    }

    /// The color that `s` names, without regard to the case of its letters.
    pub open spec fn named(s: Seq<char>) -> Option<Color> {
        if crate::text::matches_ignoring_case(s, "black"@) {
            Some(Color::Black)
        } else if crate::text::matches_ignoring_case(s, "blue"@) {
            Some(Color::Blue)
        } else if crate::text::matches_ignoring_case(s, "green"@) {
            Some(Color::Green)
        } else if crate::text::matches_ignoring_case(s, "red"@) {
            Some(Color::Red)
        } else if crate::text::matches_ignoring_case(s, "cyan"@) {
            Some(Color::Cyan)
        } else if crate::text::matches_ignoring_case(s, "magenta"@) {
            Some(Color::Magenta)
        } else if crate::text::matches_ignoring_case(s, "yellow"@) {
            Some(Color::Yellow)
        } else if crate::text::matches_ignoring_case(s, "white"@) {
            Some(Color::White)
        } else {
            None
        }
    }

    /// The lowercase name of the color.
    pub fn name(self) -> (r: &'static str)
        ensures
            r@ == self.spec_name(),
    {
        match self {
            Color::Black => "black",
            Color::Blue => "blue",
            Color::Green => "green",
            Color::Red => "red",
            Color::Cyan => "cyan",
            Color::Magenta => "magenta",
            Color::Yellow => "yellow",
            Color::White => "white",
        }
    }

    /// The lowercase name of the color, as an owned string.
    pub fn to_string(&self) -> (r: String)
        ensures
            r@ == self.spec_name(),
    {
        String::from_str(self.name())
    }

    /// Reads a color name in any letter case. A string that names no color
    /// is handed back with the reason.
    pub fn from_str(s: &str) -> (r: Result<Color, (&'static str, String)>)
        ensures
            match Color::named(s@) {
                Some(color) => r == Ok::<Color, (&'static str, String)>(color),
                None => r is Err && r->Err_0.0@ == "invalid color"@ && r->Err_0.1@ == s@,
            },
    {
        if eq_ignoring_case(s, "black") {
            Ok(Color::Black)
        } else if eq_ignoring_case(s, "blue") {
            Ok(Color::Blue)
        } else if eq_ignoring_case(s, "green") {
            Ok(Color::Green)
        } else if eq_ignoring_case(s, "red") {
            Ok(Color::Red)
        } else if eq_ignoring_case(s, "cyan") {
            Ok(Color::Cyan)
        } else if eq_ignoring_case(s, "magenta") {
            Ok(Color::Magenta)
        } else if eq_ignoring_case(s, "yellow") {
            Ok(Color::Yellow)
        } else if eq_ignoring_case(s, "white") {
            Ok(Color::White)
        } else {
            Err(("invalid color", String::from_str(s)))
        }
    }

    /// Reads a color name that is known to be valid.
    pub fn from(s: &str) -> (r: Color)
        requires
            Color::named(s@) is Some,
        ensures
            Color::named(s@) == Some(r),
    {
        match Color::from_str(s) {
            Ok(color) => color,
            Err(_) => Color::Black,
        }
    }
}

/// Every color is named by its own name.
pub proof fn lemma_color_name_round_trip(color: Color)
    ensures
        Color::named(color.spec_name()) == Some(color),
{
    lemma_color_names();
    let name = color.spec_name();
    assert(name[0] == name[0]);
    assert(crate::text::matches_ignoring_case(name, name));
}

/// The eight names, character by character.
pub proof fn lemma_color_names()
    ensures
        "black"@ == seq!['b', 'l', 'a', 'c', 'k'],
        "blue"@ == seq!['b', 'l', 'u', 'e'],
        "green"@ == seq!['g', 'r', 'e', 'e', 'n'],
        "red"@ == seq!['r', 'e', 'd'],
        "cyan"@ == seq!['c', 'y', 'a', 'n'],
        "magenta"@ == seq!['m', 'a', 'g', 'e', 'n', 't', 'a'],
        "yellow"@ == seq!['y', 'e', 'l', 'l', 'o', 'w'],
        "white"@ == seq!['w', 'h', 'i', 't', 'e'],
{
    reveal_strlit("black");
    reveal_strlit("blue");
    reveal_strlit("green");
    reveal_strlit("red");
    reveal_strlit("cyan");
    reveal_strlit("magenta");
    reveal_strlit("yellow");
    reveal_strlit("white");
    assert("black"@ =~= seq!['b', 'l', 'a', 'c', 'k']);
    assert("blue"@ =~= seq!['b', 'l', 'u', 'e']);
    assert("green"@ =~= seq!['g', 'r', 'e', 'e', 'n']);
    assert("red"@ =~= seq!['r', 'e', 'd']);
    assert("cyan"@ =~= seq!['c', 'y', 'a', 'n']);
    assert("magenta"@ =~= seq!['m', 'a', 'g', 'e', 'n', 't', 'a']);
    assert("yellow"@ =~= seq!['y', 'e', 'l', 'l', 'o', 'w']);
    assert("white"@ =~= seq!['w', 'h', 'i', 't', 'e']);
}

} // verus!
