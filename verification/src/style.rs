//! The style algebra: four attributes that each either declare a value or
//! inherit, the update rule that merges them, and the flat `key: value`
//! grammar that styles are written in.

use crate::color::Color;
use crate::text::{find_char, join_strings, str_eq, trim_str};
use vstd::prelude::*;
use vstd::string::*;

verus! {

/// The values an attribute can take, and how two of them combine.
pub trait AttributeValue: Sized {
    /// What a declared value hands to a consumer.
    type ApplyValue;

    /// What `set` takes.
    type SetValue;

    /// Whether the value defers to an earlier declaration.
    spec fn inherits(self) -> bool;

    /// The value that `s` is read as, if it is one.
    spec fn parsed(s: Seq<char>) -> Option<Self>;

    /// What a declared value hands to a consumer; nothing when it inherits.
    spec fn applied(self) -> Option<Self::ApplyValue>;

    /// The value after `set`.
    spec fn replaced(self, value: Self::SetValue) -> Self;

    /// How the value is written.
    spec fn text(self) -> Seq<char>;

    /// How the value is shown in a structural trace, if it is shown.
    spec fn debug_text(self) -> Option<Seq<char>>;

    /// The inheriting value.
    fn inherit() -> (r: Self)
        ensures
            r.inherits(),
    ;

    /// Reads a value from its written form, or reports that it is none.
    fn try_parse(s: &str) -> (r: Option<Self>)
        ensures
            r == Self::parsed(s@),
    ;

    /// Reads a value from a written form that is known to be valid.
    fn parse(s: &str) -> (r: Self)
        requires
            Self::parsed(s@) is Some,
        ensures
            Self::parsed(s@) == Some(r),
    ;

    /// `other` where it declares a value, `self` where `other` inherits.
    fn update(self, other: Self) -> (r: Self)
        ensures
            r == if other.inherits() {
                self
            } else {
                other
            },
    ;

    /// Hands a declared value to `f`; does nothing when the value inherits.
    fn apply<F: FnOnce(Self::ApplyValue)>(&self, f: F)
        requires
            self.applied() matches Some(v) ==> call_requires(f, (v,)),
        ensures
            self.applied() matches Some(v) ==> call_ensures(f, (v,), ()),
    ;

    fn is_default(&self) -> (b: bool)
        ensures
            b == self.inherits(),
    ;

    fn set(self, value: Self::SetValue) -> (r: Self)
        ensures
            r == self.replaced(value),
    ;

    fn debug_value(&self) -> (r: Option<String>)
        ensures
            match self.debug_text() {
                Some(t) => r is Some && r->0@ == t,
                None => r is None,
            },
    ;

    fn to_string(&self) -> (r: String)
        ensures
            r@ == self.text(),
    ;
}

/// The update rule: the later value wins unless it inherits.
pub open spec fn updated<V: AttributeValue>(earlier: V, later: V) -> V {
    if later.inherits() {
        earlier
    } else {
        later
    }
}

#[derive(Debug, Copy, Clone, Eq, PartialEq)]
pub enum ColorAttribute {
    Reset,
    Inherit,
    Color(Color),
}

impl AttributeValue for ColorAttribute {
    type ApplyValue = Option<Color>;

    type SetValue = ColorAttribute;

    open spec fn inherits(self) -> bool {
        self is Inherit
    }

    open spec fn parsed(s: Seq<char>) -> Option<ColorAttribute> {
        if s == "reset"@ {
            Some(ColorAttribute::Reset)
        } else {
            match Color::named(s) {
                Some(color) => Some(ColorAttribute::Color(color)),
                None => None,
            }
        }
    }

    open spec fn applied(self) -> Option<Option<Color>> {
        match self {
            ColorAttribute::Color(color) => Some(Some(color)),
            ColorAttribute::Reset => Some(None),
            ColorAttribute::Inherit => None,
        }
    }

    open spec fn replaced(self, value: ColorAttribute) -> ColorAttribute {
        value
    }

    open spec fn text(self) -> Seq<char> {
        match self {
            ColorAttribute::Reset => "reset"@,
            ColorAttribute::Inherit => "inherit"@,
            ColorAttribute::Color(color) => color.spec_name(),
        }
    }

    open spec fn debug_text(self) -> Option<Seq<char>> {
        Some(self.text())
    }

    fn inherit() -> (r: ColorAttribute) {
        ColorAttribute::Inherit
    }

    fn try_parse(s: &str) -> (r: Option<ColorAttribute>) {
        if str_eq(s, "reset") {
            Some(ColorAttribute::Reset)
        } else {
            match Color::from_str(s) {
                Ok(color) => Some(ColorAttribute::Color(color)),
                Err(_) => None,
            }
        }
    }

    fn parse(s: &str) -> (r: ColorAttribute) {
        if str_eq(s, "reset") {
            ColorAttribute::Reset
        } else {
            ColorAttribute::Color(Color::from(s))
        }
    }

    fn update(self, attribute: ColorAttribute) -> (r: ColorAttribute) {
        match attribute {
            ColorAttribute::Inherit => self,
            other => other,
        }
    }

    fn apply<F: FnOnce(Option<Color>)>(&self, f: F) {
        match self {
            ColorAttribute::Color(color) => f(Some(*color)),
            ColorAttribute::Reset => f(None),
            ColorAttribute::Inherit => {},
        }
    }

    fn is_default(&self) -> (b: bool) {
        match self {
            ColorAttribute::Inherit => true,
            _ => false,
        }
    }

    fn set(self, color: ColorAttribute) -> (r: ColorAttribute) {
        color
    }

    fn debug_value(&self) -> (r: Option<String>) {
        Some(self.to_string())
    }

    fn to_string(&self) -> (r: String) {
        match self {
            ColorAttribute::Reset => String::from_str("reset"),
            ColorAttribute::Inherit => String::from_str("inherit"),
            ColorAttribute::Color(color) => color.to_string(),
        }
    }
}

impl ColorAttribute {
    /// The attribute that declares the color `name` names.
    pub fn from_name(name: &str) -> (r: ColorAttribute)
        requires
            Color::named(name@) is Some,
        ensures
            Color::named(name@) == Some(r->Color_0),
            r is Color,
    {
        ColorAttribute::Color(Color::from(name))
    }

    /// The attribute that declares `color`.
    pub fn from_color(color: Color) -> (r: ColorAttribute)
        ensures
            r == ColorAttribute::Color(color),
    {
        ColorAttribute::Color(color)
    }

    /// The attribute for a terminal color that is set or left alone.
    pub fn from_terminal(color: Option<Color>) -> (r: ColorAttribute)
        ensures
            r == match color {
                None => ColorAttribute::Inherit,
                Some(color) => ColorAttribute::Color(color),
            },
    {
        match color {
            None => ColorAttribute::Inherit,
            Some(color) => ColorAttribute::Color(color),
        }
    }
}

impl Default for ColorAttribute {
    fn default() -> (r: ColorAttribute)
        ensures
            r == ColorAttribute::Inherit,
    {
        ColorAttribute::Inherit
    }
}

#[derive(Debug, Copy, Clone, Eq, PartialEq)]
pub enum WeightAttribute {
    /// Bright.
    Normal,
    /// Bright and bold.
    Bold,
    /// Neither.
    Dim,
    Inherit,
}

#[derive(Debug, Copy, Clone, Eq, PartialEq)]
pub enum SetWeight {
    Normal,
    Bold,
    Dim,
}

impl Default for WeightAttribute {
    fn default() -> (r: WeightAttribute)
        ensures
            r == WeightAttribute::Inherit,
    {
        WeightAttribute::Inherit
    }
}

impl AttributeValue for WeightAttribute {
    type ApplyValue = SetWeight;

    type SetValue = WeightAttribute;

    open spec fn inherits(self) -> bool {
        self is Inherit
    }

    open spec fn parsed(s: Seq<char>) -> Option<WeightAttribute> {
        if s == "normal"@ {
            Some(WeightAttribute::Normal)
        } else if s == "bold"@ {
            Some(WeightAttribute::Bold)
        } else if s == "dim"@ {
            Some(WeightAttribute::Dim)
        } else {
            None
        }
    }

    open spec fn applied(self) -> Option<SetWeight> {
        match self {
            WeightAttribute::Normal => Some(SetWeight::Normal),
            WeightAttribute::Bold => Some(SetWeight::Bold),
            WeightAttribute::Dim => Some(SetWeight::Dim),
            WeightAttribute::Inherit => None,
        }
    }

    open spec fn replaced(self, value: WeightAttribute) -> WeightAttribute {
        value
    }

    open spec fn text(self) -> Seq<char> {
        match self {
            WeightAttribute::Normal => "normal"@,
            WeightAttribute::Bold => "bold"@,
            WeightAttribute::Dim => "dim"@,
            WeightAttribute::Inherit => "inherit"@,
        }
    }

    open spec fn debug_text(self) -> Option<Seq<char>> {
        match self {
            WeightAttribute::Inherit => None,
            other => Some(other.text()),
        }
    }

    fn inherit() -> (r: WeightAttribute) {
        WeightAttribute::Inherit
    }

    fn try_parse(s: &str) -> (r: Option<WeightAttribute>) {
        if str_eq(s, "normal") {
            Some(WeightAttribute::Normal)
        } else if str_eq(s, "bold") {
            Some(WeightAttribute::Bold)
        } else if str_eq(s, "dim") {
            Some(WeightAttribute::Dim)
        } else {
            None
        }
    }

    fn parse(s: &str) -> (r: WeightAttribute) {
        if str_eq(s, "normal") {
            WeightAttribute::Normal
        } else if str_eq(s, "bold") {
            WeightAttribute::Bold
        } else {
            WeightAttribute::Dim
        }
    }

    fn update(self, attribute: WeightAttribute) -> (r: WeightAttribute) {
        match attribute {
            WeightAttribute::Normal => WeightAttribute::Normal,
            WeightAttribute::Bold => WeightAttribute::Bold,
            WeightAttribute::Dim => WeightAttribute::Dim,
            WeightAttribute::Inherit => self,
        }
    }

    fn apply<F: FnOnce(SetWeight)>(&self, f: F) {
        match self {
            WeightAttribute::Normal => f(SetWeight::Normal),
            WeightAttribute::Bold => f(SetWeight::Bold),
            WeightAttribute::Dim => f(SetWeight::Dim),
            WeightAttribute::Inherit => {},
        }
    }

    fn is_default(&self) -> (b: bool) {
        match self {
            WeightAttribute::Inherit => true,
            _ => false,
        }
    }

    fn set(self, weight: WeightAttribute) -> (r: WeightAttribute) {
        weight
    }

    fn debug_value(&self) -> (r: Option<String>) {
        match self {
            WeightAttribute::Inherit => None,
            other => Some(other.to_string()),
        }
    }

    fn to_string(&self) -> (r: String) {
        match self {
            WeightAttribute::Normal => String::from_str("normal"),
            WeightAttribute::Bold => String::from_str("bold"),
            WeightAttribute::Dim => String::from_str("dim"),
            WeightAttribute::Inherit => String::from_str("inherit"),
        }
    }
}

#[derive(Debug, Copy, Clone, PartialEq, Eq)]
pub enum BooleanAttribute {
    On,
    Off,
    Inherit,
}

impl Default for BooleanAttribute {
    fn default() -> (r: BooleanAttribute)
        ensures
            r == BooleanAttribute::Inherit,
    {
        BooleanAttribute::Inherit
    }
}

impl AttributeValue for BooleanAttribute {
    type ApplyValue = bool;

    type SetValue = BooleanAttribute;

    open spec fn inherits(self) -> bool {
        self is Inherit
    }

    open spec fn parsed(s: Seq<char>) -> Option<BooleanAttribute> {
        if s == "true"@ {
            Some(BooleanAttribute::On)
        } else if s == "false"@ {
            Some(BooleanAttribute::Off)
        } else {
            None
        }
    }

    open spec fn applied(self) -> Option<bool> {
        match self {
            BooleanAttribute::On => Some(true),
            BooleanAttribute::Off => Some(false),
            BooleanAttribute::Inherit => None,
        }
    }

    open spec fn replaced(self, value: BooleanAttribute) -> BooleanAttribute {
        value
    }

    open spec fn text(self) -> Seq<char> {
        match self {
            BooleanAttribute::On => "true"@,
            BooleanAttribute::Off => "false"@,
            BooleanAttribute::Inherit => "inherit"@,
        }
    }

    open spec fn debug_text(self) -> Option<Seq<char>> {
        None
    }

    fn inherit() -> (r: BooleanAttribute) {
        BooleanAttribute::Inherit
    }

    fn try_parse(s: &str) -> (r: Option<BooleanAttribute>) {
        if str_eq(s, "true") {
            Some(BooleanAttribute::On)
        } else if str_eq(s, "false") {
            Some(BooleanAttribute::Off)
        } else {
            None
        }
    }

    fn parse(s: &str) -> (r: BooleanAttribute) {
        if str_eq(s, "true") {
            BooleanAttribute::On
        } else {
            BooleanAttribute::Off
        }
    }

    fn update(self, attribute: BooleanAttribute) -> (r: BooleanAttribute) {
        match attribute {
            BooleanAttribute::On => BooleanAttribute::On,
            BooleanAttribute::Off => BooleanAttribute::Off,
            BooleanAttribute::Inherit => self,
        }
    }

    fn apply<F: FnOnce(bool)>(&self, f: F) {
        match self {
            BooleanAttribute::On => f(true),
            BooleanAttribute::Off => f(false),
            BooleanAttribute::Inherit => {},
        }
    }

    fn is_default(&self) -> (b: bool) {
        match self {
            BooleanAttribute::Inherit => true,
            _ => false,
        }
    }

    fn set(self, boolean: BooleanAttribute) -> (r: BooleanAttribute) {
        boolean
    }

    fn debug_value(&self) -> (r: Option<String>) {
        None
    }

    fn to_string(&self) -> (r: String) {
        match self {
            BooleanAttribute::On => String::from_str("true"),
            BooleanAttribute::Off => String::from_str("false"),
            BooleanAttribute::Inherit => String::from_str("inherit"),
        }
    }
}

#[derive(Debug, Clone, Copy, PartialEq, Eq)]
pub enum AttributeName {
    Fg,
    Bg,
    Weight,
    Underline,
}

impl AttributeName {
    /// The key that the attribute is declared under.
    pub open spec fn text(self) -> Seq<char> {
        match self {
            AttributeName::Fg => "fg"@,
            AttributeName::Bg => "bg"@,
            AttributeName::Weight => "weight"@,
            AttributeName::Underline => "underline"@,
        }
    }

    /// The attribute that the key `s` names, if it names one.
    pub open spec fn named(s: Seq<char>) -> Option<AttributeName> {
        if s == "fg"@ {
            Some(AttributeName::Fg)
        } else if s == "bg"@ {
            Some(AttributeName::Bg)
        } else if s == "weight"@ {
            Some(AttributeName::Weight)
        } else if s == "underline"@ {
            Some(AttributeName::Underline)
        } else {
            None
        }
    }

    /// Reads a key, or reports that it names no attribute.
    pub fn parse(from: &str) -> (r: Option<AttributeName>)
        ensures
            r == AttributeName::named(from@),
    {
        if str_eq(from, "fg") {
            Some(AttributeName::Fg)
        } else if str_eq(from, "bg") {
            Some(AttributeName::Bg)
        } else if str_eq(from, "weight") {
            Some(AttributeName::Weight)
        } else if str_eq(from, "underline") {
            Some(AttributeName::Underline)
        } else {
            None
        }
    }

    /// Reads a key that is known to name an attribute.
    pub fn from(from: &str) -> (r: AttributeName)
        requires
            AttributeName::named(from@) is Some,
        ensures
            AttributeName::named(from@) == Some(r),
    {
        match AttributeName::parse(from) {
            Some(name) => name,
            None => AttributeName::Fg,
        }
    }

    /// The key that the attribute is declared under.
    pub fn as_str(&self) -> (r: &'static str)
        ensures
            r@ == self.text(),
    {
        match self {
            AttributeName::Fg => "fg",
            AttributeName::Bg => "bg",
            AttributeName::Weight => "weight",
            AttributeName::Underline => "underline",
        }
    }

    /// The key that the attribute is declared under, as an owned string.
    pub fn to_string(&self) -> (r: String)
        ensures
            r@ == self.text(),
    {
        String::from_str(self.as_str())
    }
}

/// An attribute name paired with its value.
#[derive(Debug, Clone, Copy, PartialEq, Eq)]
pub struct Attribute<Value: AttributeValue> {
    name: AttributeName,
    value: Value,
}

impl<Value: AttributeValue> View for Attribute<Value> {
    type V = (AttributeName, Value);

    closed spec fn view(&self) -> (AttributeName, Value) {
        (self.name, self.value)
    }
}

/// How an attribute is written: its name, `=`, its value.
pub open spec fn attribute_text<Value: AttributeValue>(name: AttributeName, value: Value) -> Seq<
    char,
> {
    name.text() + "="@ + value.text()
}

impl<Value: AttributeValue> Attribute<Value> {
    /// The attribute `name` with nothing declared.
    pub fn inherit(name: AttributeName) -> (r: Attribute<Value>)
        ensures
            r@.0 == name,
            r@.1.inherits(),
    {
        Attribute { name, value: Value::inherit() }
    }

    /// The attribute `name` with the value `value`.
    pub fn new(name: AttributeName, value: Value) -> (r: Attribute<Value>)
        ensures
            r@ == (name, value),
    {
        Attribute { name, value }
    }

    /// The name, and the value as a structural trace shows it.
    pub fn tuple(&self) -> (r: (AttributeName, Option<String>))
        ensures
            r.0 == self@.0,
            match self@.1.debug_text() {
                Some(t) => r.1 is Some && r.1->0@ == t,
                None => r.1 is None,
            },
    {
        (self.name, self.value.debug_value())
    }

    /// Keeps the name and updates the value by `attribute`'s.
    pub fn update(self, attribute: Attribute<Value>) -> (r: Attribute<Value>)
        ensures
            r@ == (self@.0, updated(self@.1, attribute@.1)),
    {
        Attribute { name: self.name, value: self.value.update(attribute.value) }
    }

    /// Hands a declared value to `f`; does nothing when the value inherits.
    pub fn apply<F: FnOnce(Value::ApplyValue)>(&self, f: F)
        requires
            self@.1.applied() matches Some(v) ==> call_requires(f, (v,)),
        ensures
            self@.1.applied() matches Some(v) ==> call_ensures(f, (v,), ()),
    {
        self.value.apply(f)
    }

    pub fn is_default(&self) -> (b: bool)
        ensures
            b == self@.1.inherits(),
    {
        self.value.is_default()
    }

    pub fn has_value(&self) -> (b: bool)
        ensures
            b == !self@.1.inherits(),
    {
        !self.is_default()
    }

    pub fn mutate(&mut self, value: Value)
        ensures
            final(self)@ == (old(self)@.0, value),
    {
        self.value = value
    }

    /// The attribute as `name=value`.
    pub fn to_string(&self) -> (r: String)
        ensures
            r@ == attribute_text(self@.0, self@.1),
    {
        let mut r = self.name.to_string();
        r.append("=");
        let value = self.value.to_string();
        r.append(value.as_str());
        r
    }
}

/// What a terminal is asked to do for a run of text.
#[derive(Debug, Clone, Copy, PartialEq, Eq)]
pub struct ColorSpec {
    pub fg: Option<Color>,
    pub bg: Option<Color>,
    pub bold: bool,
    pub intense: bool,
    pub underline: bool,
}

/// What a style declares, attribute by attribute.
pub struct StyleView {
    pub fg: ColorAttribute,
    pub bg: ColorAttribute,
    pub weight: WeightAttribute,
    pub underline: BooleanAttribute,
}

/// A declaration as it is written in a style string: `key: value`.
pub open spec fn declaration_text<Value: AttributeValue>(name: AttributeName, value: Value) -> Seq<
    char,
> {
    name.text() + ": "@ + value.text()
}

impl StyleView {
    /// The style that declares nothing.
    pub open spec fn empty() -> StyleView {
        StyleView {
            fg: ColorAttribute::Inherit,
            bg: ColorAttribute::Inherit,
            weight: WeightAttribute::Inherit,
            underline: BooleanAttribute::Inherit,
        }
    }

    /// Whether the style declares nothing.
    pub open spec fn is_default(self) -> bool {
        &&& self.weight is Inherit
        &&& self.underline is Inherit
        &&& self.fg is Inherit
        &&& self.bg is Inherit
    }

    /// The style that `other` makes of `self`: each attribute is `other`'s
    /// where `other` declares it, and `self`'s where `other` inherits.
    pub open spec fn union(self, other: StyleView) -> StyleView {
        StyleView {
            fg: updated(self.fg, other.fg),
            bg: updated(self.bg, other.bg),
            weight: updated(self.weight, other.weight),
            underline: updated(self.underline, other.underline),
        }
    }

    /// The style after the declaration `key: value`, if `value` is a value
    /// of the attribute `key`.
    pub open spec fn declare(self, key: AttributeName, value: Seq<char>) -> Option<StyleView> {
        match key {
            AttributeName::Fg => match ColorAttribute::parsed(value) {
                Some(fg) => Some(StyleView { fg, ..self }),
                None => None,
            },
            AttributeName::Bg => match ColorAttribute::parsed(value) {
                Some(bg) => Some(StyleView { bg, ..self }),
                None => None,
            },
            AttributeName::Weight => match WeightAttribute::parsed(value) {
                Some(weight) => Some(StyleView { weight, ..self }),
                None => None,
            },
            AttributeName::Underline => match BooleanAttribute::parsed(value) {
                Some(underline) => Some(StyleView { underline, ..self }),
                None => None,
            },
        }
    }

    /// The declarations that write this style, in the order `fg`, `bg`,
    /// `weight`, `underline`; an attribute that inherits is left out.
    pub open spec fn declarations(self) -> Seq<Seq<char>> {
        (if self.fg is Inherit {
            Seq::<Seq<char>>::empty()
        } else {
            seq![declaration_text(AttributeName::Fg, self.fg)]
        }) + (if self.bg is Inherit {
            Seq::<Seq<char>>::empty()
        } else {
            seq![declaration_text(AttributeName::Bg, self.bg)]
        }) + (if self.weight is Inherit {
            Seq::<Seq<char>>::empty()
        } else {
            seq![declaration_text(AttributeName::Weight, self.weight)]
        }) + (if self.underline is Inherit {
            Seq::<Seq<char>>::empty()
        } else {
            seq![declaration_text(AttributeName::Underline, self.underline)]
        })
    }

    /// The style string that writes this style.
    pub open spec fn stylesheet_text(self) -> Seq<char> {
        crate::text::joined(self.declarations(), "; "@)
    }

    /// The declared attributes as `name=value`, in the order `fg`, `bg`,
    /// `weight`, `underline`.
    pub open spec fn shown(self) -> Seq<Seq<char>> {
        (if self.fg is Inherit {
            Seq::<Seq<char>>::empty()
        } else {
            seq![attribute_text(AttributeName::Fg, self.fg)]
        }) + (if self.bg is Inherit {
            Seq::<Seq<char>>::empty()
        } else {
            seq![attribute_text(AttributeName::Bg, self.bg)]
        }) + (if self.weight is Inherit {
            Seq::<Seq<char>>::empty()
        } else {
            seq![attribute_text(AttributeName::Weight, self.weight)]
        }) + (if self.underline is Inherit {
            Seq::<Seq<char>>::empty()
        } else {
            seq![attribute_text(AttributeName::Underline, self.underline)]
        })
    }

    /// How the style is displayed.
    pub open spec fn text(self) -> Seq<char> {
        "Style {"@ + crate::text::joined(self.shown(), " "@) + "}"@
    }

    /// What a structural trace shows of the style: weight, foreground and
    /// background, each only where it is declared.
    pub open spec fn debug_attributes(self) -> Seq<(AttributeName, Option<Seq<char>>)> {
        (if self.weight is Inherit {
            Seq::<(AttributeName, Option<Seq<char>>)>::empty()
        } else {
            seq![(AttributeName::Weight, self.weight.debug_text())]
        }) + (if self.fg is Inherit {
            Seq::<(AttributeName, Option<Seq<char>>)>::empty()
        } else {
            seq![(AttributeName::Fg, self.fg.debug_text())]
        }) + (if self.bg is Inherit {
            Seq::<(AttributeName, Option<Seq<char>>)>::empty()
        } else {
            seq![(AttributeName::Bg, self.bg.debug_text())]
        })
    }

    /// What a terminal is asked to do for this style. Bold weight is bold
    /// and intense, normal weight is intense only, dim weight is neither; a
    /// color that is reset or inherited is left unset.
    pub open spec fn color_spec(self) -> ColorSpec {
        ColorSpec {
            fg: match self.fg {
                ColorAttribute::Color(color) => Some(color),
                _ => None,
            },
            bg: match self.bg {
                ColorAttribute::Color(color) => Some(color),
                _ => None,
            },
            bold: self.weight is Bold,
            intense: self.weight is Bold || self.weight is Normal,
            underline: self.underline is On,
        }
    }

    /// The style that a terminal setting stands for.
    pub open spec fn of_color_spec(spec: ColorSpec) -> StyleView {
        StyleView {
            fg: match spec.fg {
                None => ColorAttribute::Inherit,
                Some(color) => ColorAttribute::Color(color),
            },
            bg: match spec.bg {
                None => ColorAttribute::Inherit,
                Some(color) => ColorAttribute::Color(color),
            },
            weight: if spec.bold && spec.intense {
                WeightAttribute::Bold
            } else if spec.intense {
                WeightAttribute::Normal
            } else {
                WeightAttribute::Dim
            },
            underline: if spec.underline {
                BooleanAttribute::On
            } else {
                BooleanAttribute::Inherit
            },
        }
    }
}

/// One step of reading a style string.
pub enum StepView {
    /// Nothing is left to read.
    Done,
    /// What is left is no declaration.
    Invalid,
    /// A declaration: its attribute, its value, and what follows it.
    Declared(AttributeName, Seq<char>, Seq<char>),
}

/// Reads the first declaration of `rest`. A declaration is a key, `:`, a
/// value, and `;` unless it is the last; key and value are trimmed.
pub open spec fn next_declaration(rest: Seq<char>) -> StepView {
    if rest.len() == 0 {
        StepView::Done
    } else {
        match crate::text::first_index(rest, ':') {
            None => StepView::Invalid,
            Some(i) => {
                let after = rest.subrange(i + 1, rest.len() as int);
                match AttributeName::named(crate::text::trim(rest.subrange(0, i))) {
                    None => StepView::Invalid,
                    Some(key) => match crate::text::first_index(after, ';') {
                        Some(j) => StepView::Declared(
                            key,
                            crate::text::trim(after.subrange(0, j)),
                            after.subrange(j + 1, after.len() as int),
                        ),
                        None => StepView::Declared(key, crate::text::trim(after), Seq::empty()),
                    },
                }
            },
        }
    }
}

/// The style that the declarations of `rest` make of `style`, each one
/// replacing what was declared for its attribute before; `None` where `rest`
/// is not a list of declarations.
pub open spec fn parse_declarations(style: StyleView, rest: Seq<char>) -> Option<StyleView>
    decreases rest.len(),
{
    match next_declaration(rest) {
        StepView::Done => Some(style),
        StepView::Invalid => None,
        StepView::Declared(key, value, remaining) => if remaining.len() < rest.len() {
            match style.declare(key, value) {
                Some(next) => parse_declarations(next, remaining),
                None => None,
            }
        } else {
            None
        },
    }
}

/// The style that a style string declares, if it is well formed.
pub open spec fn parse_style(input: Seq<char>) -> Option<StyleView> {
    parse_declarations(StyleView::empty(), input)
}

/// A declaration leaves less to read than there was.
pub proof fn lemma_next_declaration_shrinks(rest: Seq<char>)
    ensures
        next_declaration(rest) matches StepView::Declared(_, _, remaining) ==> remaining.len()
            < rest.len(),
{
    if rest.len() > 0 {
        crate::text::lemma_first_index(rest, ':');
        if let Some(i) = crate::text::first_index(rest, ':') {
            let after = rest.subrange(i + 1, rest.len() as int);
            crate::text::lemma_first_index(after, ';');
        }
    }
}

/// One step of reading a style string.
pub enum Step<'a> {
    /// Nothing is left to read.
    Done,
    /// What is left is no declaration.
    Invalid,
    /// A declaration: its attribute and its value.
    Declared(AttributeName, &'a str),
}

/// A style string that is being read, declaration by declaration.
pub struct StyleString<'a> {
    rest: &'a str,
}

impl<'a> View for StyleString<'a> {
    type V = Seq<char>;

    closed spec fn view(&self) -> Seq<char> {
        self.rest@
    }
}

impl<'a> StyleString<'a> {
    pub fn new(input: &'a str) -> (r: StyleString<'a>)
        ensures
            r@ == input@,
    {
        StyleString { rest: input }
    }

    /// Reads the next declaration and moves past it.
    pub fn next(&mut self) -> (r: Step<'a>)
        ensures
            match next_declaration(old(self)@) {
                StepView::Done => r is Done && final(self)@ == old(self)@,
                StepView::Invalid => r is Invalid,
                StepView::Declared(key, value, remaining) => {
                    &&& r matches Step::Declared(k, v)
                    &&& k == key
                    &&& v@ == value
                    &&& final(self)@ == remaining
                },
            },
    {
        let rest = self.rest;
        let n = rest.unicode_len();
        if n == 0 {
            return Step::Done;
        }
        let i = match find_char(rest, ':') {
            Some(i) => i,
            None => {
                return Step::Invalid;
            },
        };
        proof {
            crate::text::lemma_first_index(rest@, ':');
        }
        let name = trim_str(rest.substring_char(0, i));
        let after = rest.substring_char(i + 1, n);
        let key = match AttributeName::parse(name) {
            Some(key) => key,
            None => {
                return Step::Invalid;
            },
        };
        match find_char(after, ';') {
            Some(j) => {
                proof {
                    crate::text::lemma_first_index(after@, ';');
                }
                let m = after.unicode_len();
                let value = trim_str(after.substring_char(0, j));
                self.rest = after.substring_char(j + 1, m);
                Step::Declared(key, value)
            },
            None => {
                let value = trim_str(after);
                self.rest = after.substring_char(0, 0);
                assert(after@.subrange(0, 0) =~= Seq::<char>::empty());
                Step::Declared(key, value)
            },
        }
    }
}

/// Four attributes, each of which declares a value or inherits.
#[derive(Debug, Clone, Copy, PartialEq)]
pub struct Style {
    weight: Attribute<WeightAttribute>,
    underline: Attribute<BooleanAttribute>,
    fg: Attribute<ColorAttribute>,
    bg: Attribute<ColorAttribute>,
}

impl View for Style {
    type V = StyleView;

    closed spec fn view(&self) -> StyleView {
        StyleView {
            fg: self.fg.value,
            bg: self.bg.value,
            weight: self.weight.value,
            underline: self.underline.value,
        }
    }
}

/// The style that a style string declares.
#[allow(non_snake_case)]
pub fn Style(input: &str) -> (r: Style)
    requires
        parse_style(input@) is Some,
    ensures
        parse_style(input@) == Some(r@),
{
    Style::from_stylesheet(input)
}

impl Style {
    #[verifier::type_invariant]
    closed spec fn named(&self) -> bool {
        &&& self.weight.name == AttributeName::Weight
        &&& self.underline.name == AttributeName::Underline
        &&& self.fg.name == AttributeName::Fg
        &&& self.bg.name == AttributeName::Bg
    }

    fn build(
        fg: ColorAttribute,
        bg: ColorAttribute,
        weight: WeightAttribute,
        underline: BooleanAttribute,
    ) -> (r: Style)
        ensures
            r@ == (StyleView { fg, bg, weight, underline }),
    {
        Style {
            fg: Attribute::new(AttributeName::Fg, fg),
            bg: Attribute::new(AttributeName::Bg, bg),
            weight: Attribute::new(AttributeName::Weight, weight),
            underline: Attribute::new(AttributeName::Underline, underline),
        }
    }

    /// The style that declares nothing.
    pub fn empty() -> (r: Style)
        ensures
            r@ == StyleView::empty(),
    {
        Style::build(
            ColorAttribute::Inherit,
            ColorAttribute::Inherit,
            WeightAttribute::Inherit,
            BooleanAttribute::Inherit,
        )
    }

    /// The style that declares nothing.
    pub fn new() -> (r: Style)
        ensures
            r@ == StyleView::empty(),
    {
        Style::empty()
    }

    /// The style after the declaration `key: value`, or `None` where `value`
    /// is no value of the attribute `key`.
    pub fn declare(&self, key: AttributeName, value: &str) -> (r: Option<Style>)
        ensures
            match self@.declare(key, value@) {
                Some(next) => r is Some && r->0@ == next,
                None => r is None,
            },
    {
        let fg = self.fg.value;
        let bg = self.bg.value;
        let weight = self.weight.value;
        let underline = self.underline.value;
        match key {
            AttributeName::Fg => match ColorAttribute::try_parse(value) {
                Some(fg) => Some(Style::build(fg, bg, weight, underline)),
                None => None,
            },
            AttributeName::Bg => match ColorAttribute::try_parse(value) {
                Some(bg) => Some(Style::build(fg, bg, weight, underline)),
                None => None,
            },
            AttributeName::Weight => match WeightAttribute::try_parse(value) {
                Some(weight) => Some(Style::build(fg, bg, weight, underline)),
                None => None,
            },
            AttributeName::Underline => match BooleanAttribute::try_parse(value) {
                Some(underline) => Some(Style::build(fg, bg, weight, underline)),
                None => None,
            },
        }
    }

    /// Reads a style string; `None` where it is malformed, names an unknown
    /// attribute, or gives an attribute a value it cannot take.
    pub fn parse(input: &str) -> (r: Option<Style>)
        ensures
            match parse_style(input@) {
                Some(style) => r is Some && r->0@ == style,
                None => r is None,
            },
    {
        let mut style = Style::empty();
        let mut rest = StyleString::new(input);
        loop
            invariant
                parse_style(input@) == parse_declarations(style@, rest@),
            decreases rest@.len(),
        {
            proof {
                lemma_next_declaration_shrinks(rest@);
            }
            match rest.next() {
                Step::Done => {
                    return Some(style);
                },
                Step::Invalid => {
                    return None;
                },
                Step::Declared(key, value) => match style.declare(key, value) {
                    Some(next) => {
                        style = next;
                    },
                    None => {
                        return None;
                    },
                },
            }
        }
    }

    /// Reads a style string that is known to be well formed.
    pub fn from_stylesheet(input: &str) -> (r: Style)
        requires
            parse_style(input@) is Some,
        ensures
            parse_style(input@) == Some(r@),
    {
        match Style::parse(input) {
            Some(style) => style,
            None => Style::empty(),
        }
    }

    /// The style string that writes this style.
    pub fn to_stylesheet(&self) -> (r: String)
        ensures
            r@ == self@.stylesheet_text(),
    {
        proof {
            use_type_invariant(self);
        }
        let mut parts: Vec<String> = Vec::new();
        if self.fg.has_value() {
            parts.push(declaration(AttributeName::Fg, &self.fg.value));
        }
        if self.bg.has_value() {
            parts.push(declaration(AttributeName::Bg, &self.bg.value));
        }
        if self.weight.has_value() {
            parts.push(declaration(AttributeName::Weight, &self.weight.value));
        }
        if self.underline.has_value() {
            parts.push(declaration(AttributeName::Underline, &self.underline.value));
        }
        assert(parts@.map_values(|p: String| p@) =~= self@.declarations());
        join_strings(&parts, "; ")
    }

    /// The style that a terminal setting stands for.
    pub fn from_color_spec(spec: ColorSpec) -> (r: Style)
        requires
            spec.bold ==> spec.intense,
        ensures
            r@ == StyleView::of_color_spec(spec),
    {
        let weight = if spec.bold && spec.intense {
            WeightAttribute::Bold
        } else if spec.intense {
            WeightAttribute::Normal
        } else {
            WeightAttribute::Dim
        };
        let underline = if spec.underline {
            BooleanAttribute::On
        } else {
            BooleanAttribute::Inherit
        };
        Style::build(
            ColorAttribute::from_terminal(spec.fg),
            ColorAttribute::from_terminal(spec.bg),
            weight,
            underline,
        )
    }

    /// What a structural trace shows of the style.
    pub fn debug_attributes(&self) -> (attrs: Vec<(AttributeName, Option<String>)>)
        ensures
            attrs@.map_values(|a: (AttributeName, Option<String>)| (a.0, crate::text::option_view(a.1)))
                == self@.debug_attributes(),
    {
        proof {
            use_type_invariant(self);
        }
        let mut attrs: Vec<(AttributeName, Option<String>)> = Vec::new();
        if self.weight.has_value() {
            attrs.push(self.weight.tuple());
        }
        if self.fg.has_value() {
            attrs.push(self.fg.tuple());
        }
        if self.bg.has_value() {
            attrs.push(self.bg.tuple());
        }
        assert(attrs@.map_values(|a: (AttributeName, Option<String>)| (a.0, crate::text::option_view(a.1)))
            =~= self@.debug_attributes());
        attrs
    }

    /// Merges `other` over `self`, attribute by attribute.
    pub fn union(self, other: Style) -> (r: Style)
        ensures
            r@ == self@.union(other@),
    {
        proof {
            use_type_invariant(&self);
        }
        Style {
            weight: self.weight.update(other.weight),
            underline: self.underline.update(other.underline),
            fg: self.fg.update(other.fg),
            bg: self.bg.update(other.bg),
        }
    }

    /// What a terminal is asked to do for this style.
    pub fn to_color_spec(&self) -> (r: ColorSpec)
        ensures
            r == self@.color_spec(),
    {
        let (bold, intense) = match self.weight.value {
            WeightAttribute::Normal => (false, true),
            WeightAttribute::Bold => (true, true),
            WeightAttribute::Dim => (false, false),
            WeightAttribute::Inherit => (false, false),
        };
        let underline = match self.underline.value {
            BooleanAttribute::On => true,
            _ => false,
        };
        let fg = match self.fg.value {
            ColorAttribute::Color(color) => Some(color),
            _ => None,
        };
        let bg = match self.bg.value {
            ColorAttribute::Color(color) => Some(color),
            _ => None,
        };
        ColorSpec { fg, bg, bold, intense, underline }
    }

    pub fn has_value(&self) -> (b: bool)
        ensures
            b == !self@.is_default(),
    {
        !self.is_default()
    }

    pub fn is_default(&self) -> (b: bool)
        ensures
            b == self@.is_default(),
    {
        self.weight.is_default() && self.underline.is_default() && self.fg.is_default()
            && self.bg.is_default()
    }

    /// The same style with the foreground `color`.
    pub fn fg(&self, color: Color) -> (r: Style)
        ensures
            r@ == (StyleView { fg: ColorAttribute::Color(color), ..self@ }),
    {
        Style::build(
            ColorAttribute::Color(color),
            self.bg.value,
            self.weight.value,
            self.underline.value,
        )
    }

    /// The same style with the background `color`.
    pub fn bg(&self, color: Color) -> (r: Style)
        ensures
            r@ == (StyleView { bg: ColorAttribute::Color(color), ..self@ }),
    {
        Style::build(
            self.fg.value,
            ColorAttribute::Color(color),
            self.weight.value,
            self.underline.value,
        )
    }

    /// The same style with the weight `weight`.
    pub fn weight(&self, weight: WeightAttribute) -> (r: Style)
        ensures
            r@ == (StyleView { weight, ..self@ }),
    {
        Style::build(self.fg.value, self.bg.value, weight, self.underline.value)
    }

    pub fn bold(&self) -> (r: Style)
        ensures
            r@ == (StyleView { weight: WeightAttribute::Bold, ..self@ }),
    {
        self.weight(WeightAttribute::Bold)
    }

    pub fn dim(&self) -> (r: Style)
        ensures
            r@ == (StyleView { weight: WeightAttribute::Dim, ..self@ }),
    {
        self.weight(WeightAttribute::Dim)
    }

    pub fn normal(&self) -> (r: Style)
        ensures
            r@ == (StyleView { weight: WeightAttribute::Normal, ..self@ }),
    {
        self.weight(WeightAttribute::Normal)
    }

    pub fn underline(&self) -> (r: Style)
        ensures
            r@ == (StyleView { underline: BooleanAttribute::On, ..self@ }),
    {
        Style::build(self.fg.value, self.bg.value, self.weight.value, BooleanAttribute::On)
    }

    pub fn nounderline(&self) -> (r: Style)
        ensures
            r@ == (StyleView { underline: BooleanAttribute::Off, ..self@ }),
    {
        Style::build(self.fg.value, self.bg.value, self.weight.value, BooleanAttribute::Off)
    }

    /// How the style is displayed: `Style {`, the declared attributes as
    /// `name=value` with single spaces between them, `}`.
    pub fn to_string(&self) -> (r: String)
        ensures
            r@ == self@.text(),
    {
        proof {
            use_type_invariant(self);
        }
        let mut parts: Vec<String> = Vec::new();
        if self.fg.has_value() {
            parts.push(self.fg.to_string());
        }
        if self.bg.has_value() {
            parts.push(self.bg.to_string());
        }
        if self.weight.has_value() {
            parts.push(self.weight.to_string());
        }
        if self.underline.has_value() {
            parts.push(self.underline.to_string());
        }
        assert(parts@.map_values(|p: String| p@) =~= self@.shown());
        let body = join_strings(&parts, " ");
        let mut r = String::from_str("Style {");
        r.append(body.as_str());
        r.append("}");
        r
    }
}

/// What can be handed to a stylesheet as a style.
pub trait IntoStyle: Sized {
    /// Whether the value stands for a style.
    spec fn is_style(self) -> bool;

    /// The style that the value stands for.
    spec fn style(self) -> StyleView;

    fn into_style(self) -> (r: Style)
        requires
            self.is_style(),
        ensures
            r@ == self.style(),
    ;
}

impl IntoStyle for Style {
    open spec fn is_style(self) -> bool {
        true
    }

    open spec fn style(self) -> StyleView {
        self@
    }

    fn into_style(self) -> (r: Style) {
        self
    }
}

impl<'a> IntoStyle for &'a Style {
    open spec fn is_style(self) -> bool {
        true
    }

    open spec fn style(self) -> StyleView {
        self@
    }

    fn into_style(self) -> (r: Style) {
        *self
    }
}

impl<'a> IntoStyle for &'a str {
    open spec fn is_style(self) -> bool {
        parse_style(self@) is Some
    }

    open spec fn style(self) -> StyleView {
        parse_style(self@)->0
    }

    fn into_style(self) -> (r: Style) {
        Style::from_stylesheet(self)
    }
}

fn declaration<Value: AttributeValue>(name: AttributeName, value: &Value) -> (r: String)
    ensures
        r@ == declaration_text(name, *value),
{
    let mut r = name.to_string();
    r.append(": ");
    let value = value.to_string();
    r.append(value.as_str());
    r
}

/// A terminal setting that a style was read from gives that setting back.
pub proof fn lemma_color_spec_round_trip(spec: ColorSpec)
    requires
        spec.bold ==> spec.intense,
    ensures
        StyleView::of_color_spec(spec).color_spec() == spec,
{
}

/// Merging is associative, and the empty style is its identity on both
/// sides.
pub proof fn lemma_union_laws(a: StyleView, b: StyleView, c: StyleView)
    ensures
        a.union(b).union(c) == a.union(b.union(c)),
        a.union(StyleView::empty()) == a,
        StyleView::empty().union(a) == a,
        a.union(a) == a,
{
}

} // verus!
