use language_reporting::style::{
    AttributeName, AttributeValue, BooleanAttribute, ColorAttribute, ColorSpec, WeightAttribute,
};
use language_reporting::{Color, GlobSelector, Segment, Selector, Style, Stylesheet};

#[test]
fn test_basic_lookup() {
    let stylesheet =
        Stylesheet::new().add("message header error code", "fg: red; underline: false");

    let style = stylesheet.get(&["message", "header", "error", "code"]);

    assert_eq!(style, Some(Style("fg: red; underline: false")))
}

#[test]
fn test_basic_with_typed_style() {
    let stylesheet = Stylesheet::new().add(
        "message header error code",
        Style::new().bold().fg(Color::Red),
    );

    assert_eq!(
        stylesheet.get(&["message", "header", "error", "code"]),
        Some(Style("weight: bold; fg: red"))
    )
}

#[test]
fn test_star() {
    let stylesheet = Stylesheet::new().add("message header * code", "fg: red; underline: false");

    let style = stylesheet.get(&["message", "header", "error", "code"]);

    assert_eq!(style, Some(Style("fg: red; underline: false")))
}

#[test]
fn test_star_with_typed_style() {
    let stylesheet =
        Stylesheet::new().add("message header * code", Style::new().bold().fg(Color::Red));

    assert_eq!(
        stylesheet.get(&["message", "header", "error", "code"]),
        Some(Style("weight: bold; fg: red"))
    )
}

#[test]
fn test_glob() {
    let stylesheet = Stylesheet::new().add("message ** code", "fg: red; underline: false");

    let style = stylesheet.get(&["message", "header", "error", "code"]);

    assert_eq!(style, Some(Style("fg: red; underline: false")))
}

#[test]
fn test_glob_with_typed_style() {
    let stylesheet =
        Stylesheet::new().add("message ** code", Style::new().nounderline().fg(Color::Red));

    let style = stylesheet.get(&["message", "header", "error", "code"]);

    assert_eq!(style, Some(Style("fg: red; underline: false")))
}

#[test]
fn test_glob_matches_no_segments() {
    let stylesheet =
        Stylesheet::new().add("message ** header error code", "fg: red; underline: false");

    let style = stylesheet.get(&["message", "header", "error", "code"]);

    assert_eq!(style, Some(Style("fg: red; underline: false")))
}

#[test]
fn test_glob_matches_no_segments_with_typed_style() {
    let stylesheet = Stylesheet::new().add(
        "message ** header error code",
        Style::new().nounderline().fg(Color::Red),
    );

    let style = stylesheet.get(&["message", "header", "error", "code"]);

    assert_eq!(style, Some(Style("fg: red; underline: false")))
}

#[test]
fn test_trailing_glob_is_terminal() {
    let stylesheet = Stylesheet::new().add(
        "message header error **",
        Style::new().nounderline().fg(Color::Red),
    );

    let style = stylesheet.get(&["message", "header", "error", "code"]);

    assert_eq!(style, Some(Style("fg: red; underline: false")))
}

#[test]
fn test_trailing_glob_is_terminal_with_typed_styles() {
    let stylesheet = Stylesheet::new().add(
        "message header error **",
        Style::new().nounderline().fg(Color::Red),
    );

    let style = stylesheet.get(&["message", "header", "error", "code"]);

    assert_eq!(style, Some(Style::new().fg(Color::Red).nounderline()))
}

#[test]
fn test_trailing_glob_is_terminal_and_matches_nothing() {
    let stylesheet =
        Stylesheet::new().add("message header error code **", "fg: red; underline: false");

    let style = stylesheet.get(&["message", "header", "error", "code"]);

    assert_eq!(style, Some(Style::new().fg(Color::Red).nounderline()))
}

#[test]
fn test_trailing_glob_is_terminal_and_matches_nothing_with_typed_style() {
    let stylesheet = Stylesheet::new().add(
        "message header error code **",
        Style::new().nounderline().fg(Color::Red),
    );

    let style = stylesheet.get(&["message", "header", "error", "code"]);

    assert_eq!(style, Some(Style::new().fg(Color::Red).nounderline()))
}

#[test]
fn test_priority() {
    let stylesheet = Stylesheet::new()
        .add("message ** code", "fg: blue; weight: bold")
        .add("message header * code", "underline: true; bg: black")
        .add("message header error code", "fg: red; underline: false");

    let style = stylesheet.get(&["message", "header", "error", "code"]);

    assert_eq!(
        style,
        Some(
            Style::new()
                .fg(Color::Red)
                .bg(Color::Black)
                .nounderline()
                .bold()
        )
    )
}

#[test]
fn test_priority_with_typed_style() {
    let stylesheet = Stylesheet::new()
        .add("message ** code", Style::new().fg(Color::Blue).bold())
        .add(
            "message header * code",
            Style::new().underline().bg(Color::Black),
        )
        .add(
            "message header error code",
            Style::new().fg(Color::Red).nounderline(),
        );

    let style = stylesheet.get(&["message", "header", "error", "code"]);

    assert_eq!(
        style,
        Some(
            Style::new()
                .fg(Color::Red)
                .bg(Color::Black)
                .nounderline()
                .bold()
        )
    )
}

#[test]
fn glob_matches_zero_segments() {
    let stylesheet = Stylesheet::new().add("message ** code", "fg: green");

    assert_eq!(
        stylesheet.get(&["message", "code"]),
        Some(Style::new().fg(Color::Green))
    );
}

#[test]
fn trailing_glob_absorbs_nothing_and_everything() {
    let stylesheet = Stylesheet::new().add("a b c **", "weight: dim");

    assert_eq!(stylesheet.get(&["a", "b", "c"]), Some(Style::new().dim()));
    assert_eq!(
        stylesheet.get(&["a", "b", "c", "d", "e"]),
        Some(Style::new().dim())
    );
    assert_eq!(stylesheet.get(&["a", "b"]), None);
}

#[test]
fn glob_then_star_matches_one_segment() {
    let stylesheet = Stylesheet::new().add("** *", "fg: cyan");

    assert_eq!(stylesheet.get(&["x"]), Some(Style::new().fg(Color::Cyan)));
    assert_eq!(
        stylesheet.get(&["x", "y", "z"]),
        Some(Style::new().fg(Color::Cyan))
    );
}

#[test]
fn empty_stylesheet_has_no_style() {
    let stylesheet = Stylesheet::new();

    assert_eq!(stylesheet.get(&[]), None);
    assert_eq!(stylesheet.get(&["anything"]), None);
}

#[test]
fn path_that_ends_inside_a_rule_has_no_style() {
    let stylesheet = Stylesheet::new()
        .add("a", "fg: red")
        .add("a b", "fg: blue");

    assert_eq!(stylesheet.get(&["a"]), None);
    assert_eq!(stylesheet.get(&["a", "b"]), Some(Style::new().fg(Color::Blue)));
}

#[test]
fn later_rule_for_the_same_selector_replaces_the_earlier() {
    let stylesheet = Stylesheet::new()
        .add("a b", "fg: red; weight: bold")
        .add("a b", "bg: white");

    assert_eq!(stylesheet.get(&["a", "b"]), Some(Style::new().bg(Color::White)));
}

#[test]
fn attributes_of_weaker_rules_show_through() {
    let stylesheet = Stylesheet::new()
        .add("** code", "fg: blue")
        .add("header * code", "underline: true");

    assert_eq!(
        stylesheet.get(&["header", "error", "code"]),
        Some(Style::new().fg(Color::Blue).underline())
    );
}

#[test]
fn selectors_can_be_built_segment_by_segment() {
    let stylesheet = Stylesheet::new()
        .add(Selector::glob().add("greeting"), Style::new().bold())
        .add(
            Selector::name("hello-world").add("greeting"),
            Style::new().fg(Color::Red),
        )
        .add(Selector::star().add_star(), &Style::new().underline());

    assert_eq!(
        stylesheet.get(&["hello-world", "greeting"]),
        Some(Style::new().bold().fg(Color::Red).underline())
    );
    let trailing: GlobSelector = Selector::new().add("a").add_glob();
    let stylesheet = Stylesheet::new().add(trailing, "fg: red");
    assert_eq!(stylesheet.get(&["a", "b"]), Some(Style::new().fg(Color::Red)));
}

#[test]
fn selector_strings_are_split_at_single_spaces() {
    assert_eq!(
        Selector::from("a ** * b").into_segments(),
        vec![
            Segment::Name("a"),
            Segment::Glob,
            Segment::Star,
            Segment::Name("b")
        ]
    );
    assert_eq!(
        Selector::from("a  b").into_segments(),
        vec![Segment::Name("a"), Segment::Name(""), Segment::Name("b")]
    );
    assert_eq!(Selector::from("").into_segments(), vec![Segment::Name("")]);
    assert_eq!(Segment::from("***"), Segment::Name("***"));
    assert_eq!(Segment::Root.to_string(), "\u{3b5}");
    assert_eq!(Segment::Glob.to_string(), "**");
    assert!(Segment::Name("a").same(&Segment::Name("a")));
    assert!(!Segment::Name("a").same(&Segment::Star));
}

#[test]
fn style_strings_round_trip() {
    let inputs = [
        "",
        "fg: red",
        "bg: reset",
        "weight: dim; underline: true",
        "fg: cyan; bg: magenta; weight: normal; underline: false",
        "fg: reset; bg: yellow; weight: bold",
    ];
    for input in inputs {
        let style = Style(input);
        assert_eq!(style.to_stylesheet(), input);
        assert_eq!(Style(&style.to_stylesheet()), style);
    }
    let style = Style("  underline :true ;fg:  BLUE;");
    assert_eq!(style.to_stylesheet(), "fg: blue; underline: true");
    assert_eq!(Style(&style.to_stylesheet()), style);
}

#[test]
fn later_declarations_replace_earlier_ones() {
    assert_eq!(
        Style("fg: red; fg: blue"),
        Style::new().fg(Color::Blue)
    );
}

#[test]
fn malformed_style_strings_are_rejected() {
    assert_eq!(Style::parse("fg red"), None);
    assert_eq!(Style::parse("color: red"), None);
    assert_eq!(Style::parse("fg: purple"), None);
    assert_eq!(Style::parse("weight: heavy"), None);
    assert_eq!(Style::parse("underline: yes"), None);
    assert_eq!(Style::parse("fg: red; "), None);
    assert_eq!(Style::parse("fg: inherit"), None);
    assert_eq!(Style::parse("fg: red;"), Some(Style::new().fg(Color::Red)));
}

#[test]
fn colors_are_read_in_any_case() {
    assert_eq!(Color::from_str("red"), Ok(Color::Red));
    assert_eq!(Color::from_str("Magenta"), Ok(Color::Magenta));
    assert_eq!(Color::from_str("BLAC\u{212a}"), Ok(Color::Black));
    assert_eq!(
        Color::from_str("Purple"),
        Err(("invalid color", "Purple".to_string()))
    );
    assert_eq!(Color::from("yellow"), Color::Yellow);
    assert_eq!(Color::White.to_string(), "white");
    assert_eq!(Color::Cyan.name(), "cyan");
}

#[test]
fn union_lets_the_second_style_win() {
    let lower = Style("fg: blue; weight: bold");
    let higher = Style("fg: red; underline: true");

    assert_eq!(
        lower.union(higher),
        Style("fg: red; weight: bold; underline: true")
    );
    assert_eq!(
        higher.union(lower),
        Style("fg: blue; weight: bold; underline: true")
    );
    assert_eq!(lower.union(Style::empty()), lower);
    assert_eq!(Style::empty().union(lower), lower);
    assert_eq!(
        language_reporting::stylesheet::union(None, Some(higher)),
        Some(higher)
    );
    assert_eq!(language_reporting::stylesheet::union(None, None), None);
}

#[test]
fn default_style_declares_nothing() {
    assert!(Style::new().is_default());
    assert!(!Style::new().has_value());
    assert!(Style::empty().is_default());
    assert!(!Style::new().nounderline().is_default());
    assert!(Style::new().normal().has_value());
    assert_eq!(Style::new().weight(WeightAttribute::Bold), Style::new().bold());
}

#[test]
fn styles_are_displayed_by_their_declared_attributes() {
    assert_eq!(Style::new().to_string(), "Style {}");
    assert_eq!(Style("fg: red").to_string(), "Style {fg=red}");
    assert_eq!(
        Style("underline: false; weight: dim; bg: reset; fg: white").to_string(),
        "Style {fg=white bg=reset weight=dim underline=false}"
    );
}

#[test]
fn debug_attributes_leave_out_underline() {
    let style = Style("underline: true; bg: blue; weight: bold; fg: reset");
    assert_eq!(
        style.debug_attributes(),
        vec![
            (AttributeName::Weight, Some("bold".to_string())),
            (AttributeName::Fg, Some("reset".to_string())),
            (AttributeName::Bg, Some("blue".to_string())),
        ]
    );
    assert_eq!(Style("underline: true").debug_attributes(), vec![]);
}

#[test]
fn weights_map_to_bold_and_intense() {
    let spec = |bold, intense| ColorSpec {
        fg: None,
        bg: None,
        bold,
        intense,
        underline: false,
    };
    assert_eq!(Style::new().bold().to_color_spec(), spec(true, true));
    assert_eq!(Style::new().normal().to_color_spec(), spec(false, true));
    assert_eq!(Style::new().dim().to_color_spec(), spec(false, false));
    assert_eq!(Style::new().to_color_spec(), spec(false, false));
    assert_eq!(
        Style("fg: red; bg: reset; underline: true").to_color_spec(),
        ColorSpec {
            fg: Some(Color::Red),
            bg: None,
            bold: false,
            intense: false,
            underline: true
        }
    );
    assert_eq!(Style::from_color_spec(spec(true, true)), Style::new().bold());
    assert_eq!(Style::from_color_spec(spec(false, true)), Style::new().normal());
    assert_eq!(Style::from_color_spec(spec(false, false)), Style::new().dim());
    let full = ColorSpec {
        fg: Some(Color::Green),
        bg: Some(Color::White),
        bold: true,
        intense: true,
        underline: true,
    };
    assert_eq!(Style::from_color_spec(full).to_color_spec(), full);
}

#[test]
fn attribute_values_update_unless_the_later_inherits() {
    assert_eq!(
        ColorAttribute::Reset.update(ColorAttribute::Inherit),
        ColorAttribute::Reset
    );
    assert_eq!(
        ColorAttribute::Reset.update(ColorAttribute::Color(Color::Red)),
        ColorAttribute::Color(Color::Red)
    );
    assert_eq!(
        WeightAttribute::Bold.update(WeightAttribute::Inherit),
        WeightAttribute::Bold
    );
    assert_eq!(
        WeightAttribute::Bold.update(WeightAttribute::Dim),
        WeightAttribute::Dim
    );
    assert_eq!(
        BooleanAttribute::On.update(BooleanAttribute::Off),
        BooleanAttribute::Off
    );
    assert_eq!(
        BooleanAttribute::On.update(BooleanAttribute::Inherit),
        BooleanAttribute::On
    );
    assert!(BooleanAttribute::default().is_default());
    assert_eq!(WeightAttribute::parse("dim"), WeightAttribute::Dim);
    assert_eq!(BooleanAttribute::try_parse("on"), None);
    assert_eq!(ColorAttribute::parse("reset"), ColorAttribute::Reset);
    assert_eq!(AttributeName::parse("weight"), Some(AttributeName::Weight));
    assert_eq!(AttributeName::parse("Weight"), None);
    assert_eq!(AttributeName::from("underline"), AttributeName::Underline);
}
