//! The values that settings hold, and the description of the settings of a
//! component for a user interface.

use vstd::prelude::*;

verus! {

/// A color with an alpha channel, of eight bits each.
#[derive(Clone, Copy, Debug, PartialEq, Eq, Structural)]
pub struct Color {
    pub red: u8,
    pub green: u8,
    pub blue: u8,
    pub alpha: u8,
}

impl Color {
    /// The color whose channels are all zero.
    pub open spec fn spec_transparent() -> Color {
        Color { red: 0, green: 0, blue: 0, alpha: 0 }
    }

    /// The color whose channels are all zero.
    #[verifier::when_used_as_spec(spec_transparent)]
    pub fn transparent() -> (color: Color)
        ensures
            color == Color::spec_transparent(),
    {
        Color { red: 0, green: 0, blue: 0, alpha: 0 }
    }
}

/// How an area is filled.
#[derive(Clone, Copy, Debug, PartialEq, Eq, Structural)]
pub enum Gradient {
    /// Nothing is drawn.
    Transparent,
    /// One color.
    Plain(Color),
    /// From the first color at the top to the second at the bottom.
    Vertical(Color, Color),
    /// From the first color at the left to the second at the right.
    Horizontal(Color, Color),
}

/// A color that a layout picks by what a value means.
#[derive(Clone, Copy, Debug, PartialEq, Eq, Structural)]
pub enum SemanticColor {
    /// No meaning: the color of ordinary text.
    Default,
    AheadGainingTime,
    AheadLosingTime,
    BehindLosingTime,
    BehindGainingTime,
    BestSegment,
    NotRunning,
    Paused,
    PersonalBest,
}

/// The value of one setting.
#[derive(Clone, Copy, Debug, PartialEq, Eq)]
pub enum Value {
    Bool(bool),
    UInt(u64),
    Int(i64),
    Color(Color),
    OptionalColor(Option<Color>),
    Gradient(Gradient),
}

impl Value {
    /// The boolean that the value holds, if it holds one.
    pub open spec fn as_bool(self) -> Option<bool> {
        match self {
            Value::Bool(flag) => Some(flag),
            _ => None,
        }
    }

    /// The optional color that the value holds, if it holds one.
    pub open spec fn as_optional_color(self) -> Option<Option<Color>> {
        match self {
            Value::OptionalColor(color) => Some(color),
            _ => None,
        }
    }

    /// The gradient that the value holds, if it holds one.
    pub open spec fn as_gradient(self) -> Option<Gradient> {
        match self {
            Value::Gradient(gradient) => Some(gradient),
            _ => None,
        }
    }

    /// Takes the boolean out of the value. A value of another type gives
    /// `None`.
    pub fn into_bool(self) -> (flag: Option<bool>)
        ensures
            flag == self.as_bool(),
    {
        match self {
            Value::Bool(flag) => Some(flag),
            _ => None,
        }
    }

    /// Takes the optional color out of the value. A value of another type
    /// gives `None`.
    pub fn into_optional_color(self) -> (color: Option<Option<Color>>)
        ensures
            color == self.as_optional_color(),
    {
        match self {
            Value::OptionalColor(color) => Some(color),
            _ => None,
        }
    }

    /// Takes the gradient out of the value. A value of another type gives
    /// `None`.
    pub fn into_gradient(self) -> (gradient: Option<Gradient>)
        ensures
            gradient == self.as_gradient(),
    {
        match self {
            Value::Gradient(gradient) => Some(gradient),
            _ => None,
        }
    }
}

/// One setting as a user interface shows it: its name, an explanation, and
/// its current value.
#[derive(Clone, Debug, PartialEq, Eq)]
pub struct Field {
    pub text: String,
    pub tooltip: String,
    pub value: Value,
}

/// What a field says.
pub struct FieldView {
    pub text: Seq<char>,
    pub tooltip: Seq<char>,
    pub value: Value,
}

impl View for Field {
    type V = FieldView;

    open spec fn view(&self) -> FieldView {
        FieldView { text: self.text@, tooltip: self.tooltip@, value: self.value }
    }
}

impl Field {
    /// Creates a field.
    pub fn new(text: String, tooltip: String, value: Value) -> (field: Field)
        ensures
            field@ == (FieldView { text: text@, tooltip: tooltip@, value }),
    {
        Field { text, tooltip, value }
    }
}

/// The settings of a component, in the order in which they are set by index.
#[derive(Clone, Debug, PartialEq, Eq)]
pub struct SettingsDescription {
    pub fields: Vec<Field>,
}

impl View for SettingsDescription {
    type V = Seq<FieldView>;

    open spec fn view(&self) -> Seq<FieldView> {
        self.fields@.map_values(|field: Field| field@)
    }
}

impl SettingsDescription {
    /// Creates a description from its fields.
    pub fn with_fields(fields: Vec<Field>) -> (description: SettingsDescription)
        ensures
            description.fields == fields,
            description@ == fields@.map_values(|field: Field| field@),
    {
        SettingsDescription { fields }
    }
}

} // verus!
