//! Reads the settings of components from the elements of a layout file.
//!
//! A layout file is a tree of elements. What reads the file hands the
//! children of a component's settings element over as a sequence, each with
//! its tag name and the text it holds; this module gives the texts their
//! meaning.

pub mod reset_chance;

use crate::settings::{Color, Gradient};
use vstd::prelude::*;
use vstd::string::is_ascii_spec_bytes;
use vstd::utf8::encode_utf8_decode_utf8;

verus! {

/// One element of a layout file: its tag name and the text it holds.
#[derive(Clone, Debug, PartialEq, Eq)]
pub struct Element {
    pub name: String,
    pub text: String,
}

/// What an element says.
pub struct ElementView {
    pub name: Seq<char>,
    pub text: Seq<char>,
}

impl View for Element {
    type V = ElementView;

    open spec fn view(&self) -> ElementView {
        ElementView { name: self.name@, text: self.text@ }
    }
}

/// Why the text of an element could not be read.
#[derive(Clone, Copy, Debug, PartialEq, Eq, Structural)]
pub enum ParseError {
    /// The text is neither `True` nor `False`.
    Bool,
    /// The text is not a color.
    Color,
    /// The text does not name a kind of gradient.
    GradientKind,
}

/// Whether two texts are the same.
pub fn text_equals(left: &str, right: &str) -> (equal: bool)
    ensures
        equal == (left@ == right@),
{
    let left_bytes = left.as_bytes();
    let right_bytes = right.as_bytes();
    proof {
        encode_utf8_decode_utf8(left@);
        encode_utf8_decode_utf8(right@);
    }
    if left_bytes.len() != right_bytes.len() {
        return false;
    }
    let mut i: usize = 0;
    while i < left_bytes.len()
        invariant
            i <= left_bytes.len(),
            left_bytes.len() == right_bytes.len(),
            forall|j: int| 0 <= j < i ==> left_bytes@[j] == right_bytes@[j],
            left@ == right@ ==> left_bytes@ == right_bytes@,
        decreases left_bytes.len() - i,
    {
        if left_bytes[i] != right_bytes[i] {
            return false;
        }
        i = i + 1;
    }
    assert(left_bytes@ =~= right_bytes@);
    true
}

/// The boolean that a text stands for: `True` or `False`, and nothing else.
pub open spec fn spec_parse_bool(text: Seq<char>) -> Result<bool, ParseError> {
    if text == "True"@ {
        Ok(true)
    } else if text == "False"@ {
        Ok(false)
    } else {
        Err(ParseError::Bool)
    }
}

/// Reads a boolean.
pub fn parse_bool(text: &str) -> (flag: Result<bool, ParseError>)
    ensures
        flag == spec_parse_bool(text@),
{
    if text_equals(text, "True") {
        Ok(true)
    } else if text_equals(text, "False") {
        Ok(false)
    } else {
        Err(ParseError::Bool)
    }
}

/// The value of a hexadecimal digit, in either case.
pub open spec fn hex_digit(c: char) -> Option<nat> {
    if '0' <= c && c <= '9' {
        Some((c as u32 - '0' as u32) as nat)
    } else if 'a' <= c && c <= 'f' {
        Some((c as u32 - 'a' as u32 + 10) as nat)
    } else if 'A' <= c && c <= 'F' {
        Some((c as u32 - 'A' as u32 + 10) as nat)
    } else {
        None
    }
}

/// The number that a sequence of hexadecimal digits stands for, the most
/// significant first, if all of them are such digits.
pub open spec fn hex_value(digits: Seq<char>) -> Option<nat>
    decreases digits.len(),
{
    if digits.len() == 0 {
        Some(0)
    } else {
        match (hex_value(digits.drop_last()), hex_digit(digits.last())) {
            (Some(value), Some(digit)) => Some(16 * value + digit),
            _ => None,
        }
    }
}

/// The color that a number of 32 bits stands for: alpha, red, green and
/// blue, from the highest byte down.
pub open spec fn color_of(argb: nat) -> Color {
    Color {
        red: ((argb / 0x1_0000) % 0x100) as u8,
        green: ((argb / 0x100) % 0x100) as u8,
        blue: (argb % 0x100) as u8,
        alpha: ((argb / 0x100_0000) % 0x100) as u8,
    }
}

/// The digits of a text that holds a number: the text without the plus
/// sign that may stand before them.
pub open spec fn unsigned_digits(text: Seq<char>) -> Seq<char> {
    if text.len() > 0 && text[0] == '+' {
        text.drop_first()
    } else {
        text
    }
}

/// The color that a text stands for: a number in hexadecimal that fits in
/// 32 bits, of at least one digit, with or without a plus sign before it.
pub open spec fn spec_color(text: Seq<char>) -> Result<Color, ParseError> {
    let digits = unsigned_digits(text);
    if digits.len() == 0 {
        Err(ParseError::Color)
    } else {
        match hex_value(digits) {
            Some(argb) => if argb <= u32::MAX {
                Ok(color_of(argb))
            } else {
                Err(ParseError::Color)
            },
            None => Err(ParseError::Color),
        }
    }
}

/// A number that has outgrown 32 bits does not come back into them with
/// more digits.
proof fn lemma_hex_value_grows(digits: Seq<char>, len: int)
    requires
        0 <= len <= digits.len(),
        hex_value(digits.take(len)) matches Some(value) && value > u32::MAX,
    ensures
        hex_value(digits) matches Some(value) ==> value > u32::MAX,
    decreases digits.len() - len,
{
    if len == digits.len() {
        assert(digits.take(len) == digits);
    } else {
        assert(digits.take(len + 1).drop_last() == digits.take(len));
        if hex_value(digits.take(len + 1)) is Some {
            lemma_hex_value_grows(digits, len + 1);
        } else {
            lemma_hex_value_fails(digits, len + 1);
        }
    }
}

/// Digits that are no number are none with more digits after them.
proof fn lemma_hex_value_fails(digits: Seq<char>, len: int)
    requires
        0 <= len <= digits.len(),
        hex_value(digits.take(len)) is None,
    ensures
        hex_value(digits) is None,
    decreases digits.len() - len,
{
    if len == digits.len() {
        assert(digits.take(len) == digits);
    } else {
        assert(digits.take(len + 1).drop_last() == digits.take(len));
        lemma_hex_value_fails(digits, len + 1);
    }
}

/// The codes of the characters `+`, `0`, `9`, `A`, `F`, `a` and `f`.
const PLUS: u8 = 43;

const DIGIT_0: u8 = 48;

const DIGIT_9: u8 = 57;

const UPPER_A: u8 = 65;

const UPPER_F: u8 = 70;

const LOWER_A: u8 = 97;

const LOWER_F: u8 = 102;

/// Reads a color.
pub fn color(text: &str) -> (color: Result<Color, ParseError>)
    ensures
        color == spec_color(text@),
{
    if !text.is_ascii() {
        proof {
            lemma_not_ascii_not_hex(text@);
        }
        return Err(ParseError::Color);
    }
    let bytes = text.as_bytes();
    proof {
        is_ascii_spec_bytes(text);
    }
    let start: usize = if bytes.len() > 0 && bytes[0] == PLUS {
        1
    } else {
        0
    };
    let ghost digits = unsigned_digits(text@);
    if start == bytes.len() {
        return Err(ParseError::Color);
    }
    let mut argb: u64 = 0;
    let mut i: usize = start;
    while i < bytes.len()
        invariant
            start <= i <= bytes.len(),
            bytes@.len() == text@.len(),
            digits == unsigned_digits(text@),
            digits == text@.subrange(start as int, text@.len() as int),
            forall|j: int| 0 <= j < text@.len() ==> bytes@[j] == text@[j] as u8,
            vstd::utf8::is_ascii_chars(text@),
            hex_value(digits.take(i - start)) == Some(argb as nat),
            argb <= u32::MAX,
        decreases bytes.len() - i,
    {
        let byte = bytes[i];
        assert(digits.take(i - start + 1).drop_last() == digits.take(i - start));
        let digit: u64 = if DIGIT_0 <= byte && byte <= DIGIT_9 {
            (byte - DIGIT_0) as u64
        } else if LOWER_A <= byte && byte <= LOWER_F {
            (byte - LOWER_A + 10) as u64
        } else if UPPER_A <= byte && byte <= UPPER_F {
            (byte - UPPER_A + 10) as u64
        } else {
            proof {
                lemma_hex_value_fails(digits, i - start + 1);
            }
            return Err(ParseError::Color);
        };
        argb = 16 * argb + digit;
        if argb > 0xffff_ffff {
            proof {
                lemma_hex_value_grows(digits, i - start + 1);
            }
            return Err(ParseError::Color);
        }
        i = i + 1;
    }
    assert(digits.take(i - start) == digits);
    Ok(
        Color {
            red: ((argb / 0x1_0000) % 0x100) as u8,
            green: ((argb / 0x100) % 0x100) as u8,
            blue: (argb % 0x100) as u8,
            alpha: ((argb / 0x100_0000) % 0x100) as u8,
        },
    )
}

/// A text with a character outside ASCII is no color.
proof fn lemma_not_ascii_not_hex(text: Seq<char>)
    requires
        !vstd::utf8::is_ascii_chars(text),
    ensures
        spec_color(text) == Err::<Color, ParseError>(ParseError::Color),
{
    let digits = unsigned_digits(text);
    let i = choose|i: int| 0 <= i < text.len() && !('\0' <= #[trigger] text[i] <= '\u{7f}');
    if digits.len() > 0 {
        let at = if digits.len() == text.len() {
            i
        } else {
            i - 1
        };
        lemma_hex_value_fails(digits, at + 1);
    }
}

/// The kind of a gradient, as a layout file names it.
#[derive(Clone, Copy, Debug, PartialEq, Eq, Structural)]
pub enum GradientKind {
    Transparent,
    Plain,
    Vertical,
    Horizontal,
}

/// The kind of gradient that a text names: `Plain`, `Vertical` or
/// `Horizontal`, and nothing else.
pub open spec fn spec_gradient_kind(text: Seq<char>) -> Result<GradientKind, ParseError> {
    if text == "Plain"@ {
        Ok(GradientKind::Plain)
    } else if text == "Vertical"@ {
        Ok(GradientKind::Vertical)
    } else if text == "Horizontal"@ {
        Ok(GradientKind::Horizontal)
    } else {
        Err(ParseError::GradientKind)
    }
}

/// Reads the kind of a gradient.
pub fn gradient_kind(text: &str) -> (kind: Result<GradientKind, ParseError>)
    ensures
        kind == spec_gradient_kind(text@),
{
    if text_equals(text, "Plain") {
        Ok(GradientKind::Plain)
    } else if text_equals(text, "Vertical") {
        Ok(GradientKind::Vertical)
    } else if text_equals(text, "Horizontal") {
        Ok(GradientKind::Horizontal)
    } else {
        Err(ParseError::GradientKind)
    }
}

/// Collects what the elements `BackgroundColor`, `BackgroundColor2` and
/// `BackgroundGradient` say, in whatever order they come, and builds the
/// background from it.
#[derive(Clone, Copy, Debug, PartialEq, Eq, Structural)]
pub struct GradientBuilder {
    pub kind: GradientKind,
    pub first: Color,
    pub second: Color,
}

impl GradientBuilder {
    /// The builder before any element: a transparent background.
    pub open spec fn spec_new() -> GradientBuilder {
        GradientBuilder {
            kind: GradientKind::Transparent,
            first: Color::spec_transparent(),
            second: Color::spec_transparent(),
        }
    }

    /// Creates a builder.
    #[verifier::when_used_as_spec(spec_new)]
    pub fn new() -> (builder: GradientBuilder)
        ensures
            builder == GradientBuilder::spec_new(),
    {
        GradientBuilder {
            kind: GradientKind::Transparent,
            first: Color::transparent(),
            second: Color::transparent(),
        }
    }

    /// The builder after an element of the background, `None` for any
    /// other element, and the error where the text of an element of the
    /// background cannot be read.
    pub open spec fn parsed(self, element: ElementView) -> Result<
        Option<GradientBuilder>,
        ParseError,
    > {
        if element.name == "BackgroundColor"@ {
            match spec_color(element.text) {
                Ok(first) => Ok(Some(GradientBuilder { first, ..self })),
                Err(error) => Err(error),
            }
        } else if element.name == "BackgroundColor2"@ {
            match spec_color(element.text) {
                Ok(second) => Ok(Some(GradientBuilder { second, ..self })),
                Err(error) => Err(error),
            }
        } else if element.name == "BackgroundGradient"@ {
            match spec_gradient_kind(element.text) {
                Ok(kind) => Ok(Some(GradientBuilder { kind, ..self })),
                Err(error) => Err(error),
            }
        } else {
            Ok(None)
        }
    }

    /// Takes in an element if it is one of the background, and says
    /// whether it was one.
    pub fn parse_background(&mut self, element: &Element) -> (handled: Result<bool, ParseError>)
        ensures
            match old(self).parsed(element@) {
                Ok(Some(builder)) => handled == Ok::<bool, ParseError>(true) && *final(self)
                    == builder,
                Ok(None) => handled == Ok::<bool, ParseError>(false) && *final(self) == *old(self),
                Err(error) => handled == Err::<bool, ParseError>(error) && *final(self) == *old(
                    self,
                ),
            },
    {
        if text_equals(element.name.as_str(), "BackgroundColor") {
            match color(element.text.as_str()) {
                Ok(first) => {
                    self.first = first;
                    Ok(true)
                },
                Err(error) => Err(error),
            }
        } else if text_equals(element.name.as_str(), "BackgroundColor2") {
            match color(element.text.as_str()) {
                Ok(second) => {
                    self.second = second;
                    Ok(true)
                },
                Err(error) => Err(error),
            }
        } else if text_equals(element.name.as_str(), "BackgroundGradient") {
            match gradient_kind(element.text.as_str()) {
                Ok(kind) => {
                    self.kind = kind;
                    Ok(true)
                },
                Err(error) => Err(error),
            }
        } else {
            Ok(false)
        }
    }

    /// The background that the builder stands for. A plain background of
    /// the transparent color is a transparent one.
    pub open spec fn built(self) -> Gradient {
        match self.kind {
            GradientKind::Transparent => Gradient::Transparent,
            GradientKind::Plain => if self.first == Color::spec_transparent() {
                Gradient::Transparent
            } else {
                Gradient::Plain(self.first)
            },
            GradientKind::Vertical => Gradient::Vertical(self.first, self.second),
            GradientKind::Horizontal => Gradient::Horizontal(self.first, self.second),
        }
    }

    /// Builds the background.
    pub fn build(self) -> (gradient: Gradient)
        ensures
            gradient == self.built(),
    {
        match self.kind {
            GradientKind::Transparent => Gradient::Transparent,
            GradientKind::Plain => if self.first == Color::transparent() {
                Gradient::Transparent
            } else {
                Gradient::Plain(self.first)
            },
            GradientKind::Vertical => Gradient::Vertical(self.first, self.second),
            GradientKind::Horizontal => Gradient::Horizontal(self.first, self.second),
        }
    }
}

} // verus!
