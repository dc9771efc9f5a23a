//! Writing a style and reading it back: the style string of a style
//! declares exactly that style.

use crate::color::Color;
use crate::style::{AttributeName, AttributeValue, BooleanAttribute, ColorAttribute};
use crate::style::{StepView, StyleView, WeightAttribute};
use vstd::prelude::*;

verus! {

/// Whether `s` is made of one or more of the letters `a` to `z`.
pub open spec fn is_word(s: Seq<char>) -> bool {
    &&& s.len() > 0
    &&& forall|i: int| 0 <= i < s.len() ==> 'a' <= #[trigger] s[i] <= 'z'
}

/// A declaration as it is written: the key, a colon and a space, the value.
pub open spec fn written(pair: (AttributeName, Seq<char>)) -> Seq<char> {
    pair.0.text() + seq![':', ' '] + pair.1
}

/// The style after the declarations `pairs`, in order; `None` where one of
/// them gives its attribute a value that it cannot take.
pub open spec fn declare_all(style: StyleView, pairs: Seq<(AttributeName, Seq<char>)>) -> Option<
    StyleView,
>
    decreases pairs.len(),
{
    if pairs.len() == 0 {
        Some(style)
    } else {
        match style.declare(pairs[0].0, pairs[0].1) {
            Some(next) => declare_all(next, pairs.drop_first()),
            None => None,
        }
    }
}

/// The declarations that write a style, as pairs of key and value.
pub open spec fn pairs_of(style: StyleView) -> Seq<(AttributeName, Seq<char>)> {
    (if style.fg is Inherit {
        Seq::<(AttributeName, Seq<char>)>::empty()
    } else {
        seq![(AttributeName::Fg, style.fg.text())]
    }) + (if style.bg is Inherit {
        Seq::<(AttributeName, Seq<char>)>::empty()
    } else {
        seq![(AttributeName::Bg, style.bg.text())]
    }) + (if style.weight is Inherit {
        Seq::<(AttributeName, Seq<char>)>::empty()
    } else {
        seq![(AttributeName::Weight, style.weight.text())]
    }) + (if style.underline is Inherit {
        Seq::<(AttributeName, Seq<char>)>::empty()
    } else {
        seq![(AttributeName::Underline, style.underline.text())]
    })
}

/// The literals of the style grammar, character by character.
pub proof fn lemma_literals()
    ensures
        "fg"@ == seq!['f', 'g'],
        "bg"@ == seq!['b', 'g'],
        "weight"@ == seq!['w', 'e', 'i', 'g', 'h', 't'],
        "underline"@ == seq!['u', 'n', 'd', 'e', 'r', 'l', 'i', 'n', 'e'],
        "reset"@ == seq!['r', 'e', 's', 'e', 't'],
        "normal"@ == seq!['n', 'o', 'r', 'm', 'a', 'l'],
        "bold"@ == seq!['b', 'o', 'l', 'd'],
        "dim"@ == seq!['d', 'i', 'm'],
        "true"@ == seq!['t', 'r', 'u', 'e'],
        "false"@ == seq!['f', 'a', 'l', 's', 'e'],
        ": "@ == seq![':', ' '],
        "; "@ == seq![';', ' '],
{
    reveal_strlit("fg");
    reveal_strlit("bg");
    reveal_strlit("weight");
    reveal_strlit("underline");
    reveal_strlit("reset");
    reveal_strlit("normal");
    reveal_strlit("bold");
    reveal_strlit("dim");
    reveal_strlit("true");
    reveal_strlit("false");
    reveal_strlit(": ");
    reveal_strlit("; ");
    assert("fg"@ =~= seq!['f', 'g']);
    assert("bg"@ =~= seq!['b', 'g']);
    assert("weight"@ =~= seq!['w', 'e', 'i', 'g', 'h', 't']);
    assert("underline"@ =~= seq!['u', 'n', 'd', 'e', 'r', 'l', 'i', 'n', 'e']);
    assert("reset"@ =~= seq!['r', 'e', 's', 'e', 't']);
    assert("normal"@ =~= seq!['n', 'o', 'r', 'm', 'a', 'l']);
    assert("bold"@ =~= seq!['b', 'o', 'l', 'd']);
    assert("dim"@ =~= seq!['d', 'i', 'm']);
    assert("true"@ =~= seq!['t', 'r', 'u', 'e']);
    assert("false"@ =~= seq!['f', 'a', 'l', 's', 'e']);
    assert(": "@ =~= seq![':', ' ']);
    assert("; "@ =~= seq![';', ' ']);
}

/// Every key is a word, and names its own attribute.
pub proof fn lemma_key(key: AttributeName)
    ensures
        is_word(key.text()),
        AttributeName::named(key.text()) == Some(key),
{
    lemma_literals();
    let text = key.text();
    assert(text[0] == text[0]);
}

/// The text of a color that is declared is a word, and is read back as
/// that color.
pub proof fn lemma_color_value(value: ColorAttribute)
    requires
        !(value is Inherit),
    ensures
        is_word(value.text()),
        ColorAttribute::parsed(value.text()) == Some(value),
{
    lemma_literals();
    crate::color::lemma_color_names();
    let text = value.text();
    assert(text[0] == text[0]);
    match value {
        ColorAttribute::Color(color) => {
            crate::color::lemma_color_name_round_trip(color);
        },
        _ => {},
    }
}

/// The text of a weight that is declared is a word, and is read back as
/// that weight.
pub proof fn lemma_weight_value(value: WeightAttribute)
    requires
        !(value is Inherit),
    ensures
        is_word(value.text()),
        WeightAttribute::parsed(value.text()) == Some(value),
{
    lemma_literals();
    let text = value.text();
    assert(text[0] == text[0]);
}

/// The text of an underline that is declared is a word, and is read back
/// as that underline.
pub proof fn lemma_boolean_value(value: BooleanAttribute)
    requires
        !(value is Inherit),
    ensures
        is_word(value.text()),
        BooleanAttribute::parsed(value.text()) == Some(value),
{
    lemma_literals();
    let text = value.text();
    assert(text[0] == text[0]);
}

/// A word with at most a space before it is trimmed to the word.
pub proof fn lemma_trim_word(space: bool, word: Seq<char>)
    requires
        is_word(word),
    ensures
        crate::text::trim(
            (if space {
                seq![' ']
            } else {
                Seq::<char>::empty()
            }) + word,
        ) == word,
{
    let pre = if space {
        seq![' ']
    } else {
        Seq::<char>::empty()
    };
    let s = pre + word;
    assert(s[pre.len() as int] == word[0]);
    crate::text::lemma_trim_start_skips(s, pre.len() as int);
    assert(s.subrange(pre.len() as int, s.len() as int) =~= word);
    assert(!crate::text::is_whitespace(word.last()));
}

/// Reading the first of several declarations that are written with words:
/// the key names the attribute, the value is the word after the colon, and
/// what follows the semicolon remains.
pub proof fn lemma_first_declaration(
    space: bool,
    key: AttributeName,
    value: Seq<char>,
    more: Option<Seq<char>>,
)
    requires
        is_word(value),
    ensures
        crate::style::next_declaration(
            (if space {
                seq![' ']
            } else {
                Seq::<char>::empty()
            }) + written((key, value)) + match more {
                Some(rest) => seq![';', ' '] + rest,
                None => Seq::<char>::empty(),
            },
        ) == StepView::Declared(
            key,
            value,
            match more {
                Some(rest) => seq![' '] + rest,
                None => Seq::<char>::empty(),
            },
        ),
{
    lemma_key(key);
    let pre = if space {
        seq![' ']
    } else {
        Seq::<char>::empty()
    };
    let name = key.text();
    let tail = match more {
        Some(rest) => seq![';', ' '] + rest,
        None => Seq::<char>::empty(),
    };
    let input = pre + written((key, value)) + tail;
    let p = (pre.len() + name.len()) as int;
    assert(input =~= pre + name + seq![':', ' '] + value + tail);
    assert(input[p] == ':');
    assert forall|j: int| 0 <= j < p implies input[j] != ':' by {
        if j >= pre.len() {
            assert(input[j] == name[j - pre.len()]);
        }
    }
    crate::text::lemma_first_index_at(input, ':', p);
    assert(input.subrange(0, p) =~= pre + name);
    lemma_trim_word(space, name);

    let after = input.subrange(p + 1, input.len() as int);
    assert(after =~= seq![' '] + value + tail);
    let q = (1 + value.len()) as int;
    assert forall|j: int| 0 <= j < q implies after[j] != ';' by {
        if j >= 1 {
            assert(after[j] == value[j - 1]);
        }
    }
    lemma_trim_word(true, value);
    match more {
        Some(rest) => {
            assert(after[q] == ';');
            crate::text::lemma_first_index_at(after, ';', q);
            assert(after.subrange(0, q) =~= seq![' '] + value);
            assert(after.subrange(q + 1, after.len() as int) =~= seq![' '] + rest);
        },
        None => {
            assert(after =~= seq![' '] + value);
            crate::text::lemma_first_index_absent(after, ';');
        },
    }
}

/// The first piece of a joined list, then the separator, then the rest.
pub proof fn lemma_joined_front(parts: Seq<Seq<char>>, sep: Seq<char>)
    requires
        parts.len() >= 2,
    ensures
        crate::text::joined(parts, sep) == parts[0] + sep + crate::text::joined(
            parts.drop_first(),
            sep,
        ),
    decreases parts.len(),
{
    let front = parts.drop_last();
    let back = parts.drop_first();
    if parts.len() == 2 {
        assert(front.len() == 1 && back.len() == 1);
        assert(front[0] == parts[0] && back[0] == parts[1]);
        assert(parts.last() == parts[1]);
        assert(crate::text::joined(front, sep) == front[0]);
        assert(crate::text::joined(back, sep) == back[0]);
        assert(crate::text::joined(parts, sep) == crate::text::joined(front, sep) + sep
            + parts.last());
    } else {
        lemma_joined_front(front, sep);
        assert(front.drop_first() =~= back.drop_last());
        assert(back.last() == parts.last());
        assert(front[0] == parts[0]);
        assert(crate::text::joined(parts, sep) =~= parts[0] + sep + crate::text::joined(
            back,
            sep,
        ));
    }
}

/// Reading declarations that are written with words, joined by a
/// semicolon and a space, declares them in order.
pub proof fn lemma_parse_pairs(
    style: StyleView,
    pairs: Seq<(AttributeName, Seq<char>)>,
    space: bool,
)
    requires
        forall|i: int| 0 <= i < pairs.len() ==> is_word(#[trigger] pairs[i].1),
        space ==> pairs.len() > 0,
    ensures
        crate::style::parse_declarations(
            style,
            (if space {
                seq![' ']
            } else {
                Seq::<char>::empty()
            }) + crate::text::joined(
                pairs.map_values(|pair: (AttributeName, Seq<char>)| written(pair)),
                seq![';', ' '],
            ),
        ) == declare_all(style, pairs),
    decreases pairs.len(),
{
    let pre = if space {
        seq![' ']
    } else {
        Seq::<char>::empty()
    };
    let sep = seq![';', ' '];
    let texts = pairs.map_values(|pair: (AttributeName, Seq<char>)| written(pair));
    let input = pre + crate::text::joined(texts, sep);
    if pairs.len() == 0 {
        assert(input =~= Seq::<char>::empty());
    } else {
        let head = pairs[0];
        let tail = pairs.drop_first();
        let tail_texts = tail.map_values(|pair: (AttributeName, Seq<char>)| written(pair));
        assert(texts.drop_first() =~= tail_texts);
        assert(texts[0] == written(head));
        assert(is_word(head.1));
        assert forall|i: int| 0 <= i < tail.len() implies is_word(#[trigger] tail[i].1) by {
            assert(tail[i] == pairs[i + 1]);
        }
        if tail.len() == 0 {
            assert(crate::text::joined(texts, sep) == written(head));
            lemma_first_declaration(space, head.0, head.1, None);
            assert(input =~= pre + written(head) + Seq::<char>::empty());
            match style.declare(head.0, head.1) {
                Some(next) => {
                    assert(declare_all(next, tail) == Some(next));
                    assert(crate::style::parse_declarations(next, Seq::<char>::empty()) == Some(
                        next,
                    ));
                },
                None => {},
            }
        } else {
            let rest = crate::text::joined(tail_texts, sep);
            lemma_joined_front(texts, sep);
            lemma_first_declaration(space, head.0, head.1, Some(rest));
            assert(input =~= pre + written(head) + (sep + rest));
            match style.declare(head.0, head.1) {
                Some(next) => {
                    lemma_parse_pairs(next, tail, true);
                },
                None => {},
            }
        }
    }
}

/// Declaring two lists of declarations one after the other is declaring
/// their concatenation.
pub proof fn lemma_declare_all_concat(
    style: StyleView,
    first: Seq<(AttributeName, Seq<char>)>,
    second: Seq<(AttributeName, Seq<char>)>,
)
    ensures
        declare_all(style, first + second) == match declare_all(style, first) {
            Some(next) => declare_all(next, second),
            None => None,
        },
    decreases first.len(),
{
    if first.len() == 0 {
        assert(first + second =~= second);
    } else {
        assert((first + second)[0] == first[0]);
        assert((first + second).drop_first() =~= first.drop_first() + second);
        match style.declare(first[0].0, first[0].1) {
            Some(next) => {
                lemma_declare_all_concat(next, first.drop_first(), second);
            },
            None => {},
        }
    }
}

/// The declarations that write a style declare that style.
pub proof fn lemma_pairs_declare(style: StyleView)
    ensures
        declare_all(StyleView::empty(), pairs_of(style)) == Some(style),
        forall|i: int| 0 <= i < pairs_of(style).len() ==> is_word(#[trigger] pairs_of(style)[i].1),
{
    let none = Seq::<(AttributeName, Seq<char>)>::empty();
    let fg = if style.fg is Inherit {
        none
    } else {
        seq![(AttributeName::Fg, style.fg.text())]
    };
    let bg = if style.bg is Inherit {
        none
    } else {
        seq![(AttributeName::Bg, style.bg.text())]
    };
    let weight = if style.weight is Inherit {
        none
    } else {
        seq![(AttributeName::Weight, style.weight.text())]
    };
    let underline = if style.underline is Inherit {
        none
    } else {
        seq![(AttributeName::Underline, style.underline.text())]
    };
    if !(style.fg is Inherit) {
        lemma_color_value(style.fg);
    }
    if !(style.bg is Inherit) {
        lemma_color_value(style.bg);
    }
    if !(style.weight is Inherit) {
        lemma_weight_value(style.weight);
    }
    if !(style.underline is Inherit) {
        lemma_boolean_value(style.underline);
    }
    let s0 = StyleView::empty();
    let s1 = StyleView { fg: style.fg, ..s0 };
    let s2 = StyleView { bg: style.bg, ..s1 };
    let s3 = StyleView { weight: style.weight, ..s2 };
    lemma_declare_one(s0, fg, s1);
    lemma_declare_one(s1, bg, s2);
    lemma_declare_one(s2, weight, s3);
    lemma_declare_one(s3, underline, style);
    lemma_declare_all_concat(s0, fg, bg);
    lemma_declare_all_concat(s0, fg + bg, weight);
    lemma_declare_all_concat(s0, fg + bg + weight, underline);
    assert(pairs_of(style) == fg + bg + weight + underline);
}

proof fn lemma_declare_one(
    before: StyleView,
    pairs: Seq<(AttributeName, Seq<char>)>,
    after: StyleView,
)
    requires
        pairs.len() <= 1,
        pairs.len() == 0 ==> after == before,
        pairs.len() == 1 ==> before.declare(pairs[0].0, pairs[0].1) == Some(after),
    ensures
        declare_all(before, pairs) == Some(after),
{
    if pairs.len() == 1 {
        assert(pairs.drop_first().len() == 0);
        assert(declare_all(after, pairs.drop_first()) == Some(after));
    }
}

/// Round trip: the style string that writes a style is read back as that
/// style.
pub proof fn lemma_style_string_round_trip(style: StyleView)
    ensures
        crate::style::parse_style(style.stylesheet_text()) == Some(style),
{
    lemma_literals();
    lemma_pairs_declare(style);
    let pairs = pairs_of(style);
    lemma_parse_pairs(StyleView::empty(), pairs, false);
    let texts = pairs.map_values(|pair: (AttributeName, Seq<char>)| written(pair));
    assert(texts =~= style.declarations());
    assert(Seq::<char>::empty() + crate::text::joined(texts, seq![';', ' '])
        =~= style.stylesheet_text());
}

/// Round trip: a style string that is read, written and read again
/// declares the style that it declared at first.
pub proof fn lemma_parse_write_parse(input: Seq<char>)
    requires
        crate::style::parse_style(input) is Some,
    ensures
        crate::style::parse_style(crate::style::parse_style(input)->0.stylesheet_text())
            == crate::style::parse_style(input),
{
    lemma_style_string_round_trip(crate::style::parse_style(input)->0);
}

} // verus!
