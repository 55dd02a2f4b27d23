//! What every component that shows a key and a value hands to a renderer.

use crate::settings::{Color, Gradient, SemanticColor};
use vstd::prelude::*;

verus! {

/// The background of a key value component, unless its settings say
/// otherwise: white, faint at the top and fainter at the bottom.
pub open spec fn spec_default_gradient() -> Gradient {
    Gradient::Vertical(
        Color { red: 255, green: 255, blue: 255, alpha: 15 },
        Color { red: 255, green: 255, blue: 255, alpha: 1 },
    )
}

/// The background of a key value component, unless its settings say
/// otherwise.
#[verifier::when_used_as_spec(spec_default_gradient)]
pub fn default_gradient() -> (gradient: Gradient)
    ensures
        gradient == spec_default_gradient(),
{
    Gradient::Vertical(
        Color { red: 255, green: 255, blue: 255, alpha: 15 },
        Color { red: 255, green: 255, blue: 255, alpha: 1 },
    )
}

/// The state of a key value component, ready to be drawn.
#[derive(Clone, Debug, PartialEq, Eq)]
pub struct State {
    /// The background shown behind the component.
    pub background: Gradient,
    /// The color of the key. If `None`, the color is taken from the layout.
    pub key_color: Option<Color>,
    /// The color of the value. If `None`, the color is taken from the layout.
    pub value_color: Option<Color>,
    /// The meaning that the color of the value stands for.
    pub semantic_color: SemanticColor,
    /// The key to show.
    pub key: String,
    /// The value to show.
    pub value: String,
    /// Shorter forms of the key, for where the key does not fit.
    pub key_abbreviations: Vec<String>,
    /// Whether key and value are shown in two rows.
    pub display_two_rows: bool,
    /// Whether the value changes often enough to be drawn apart from the
    /// rest.
    pub updates_frequently: bool,
}

/// What a state says.
pub struct StateView {
    pub background: Gradient,
    pub key_color: Option<Color>,
    pub value_color: Option<Color>,
    pub semantic_color: SemanticColor,
    pub key: Seq<char>,
    pub value: Seq<char>,
    pub key_abbreviations: Seq<Seq<char>>,
    pub display_two_rows: bool,
    pub updates_frequently: bool,
}

impl View for State {
    type V = StateView;

    open spec fn view(&self) -> StateView {
        StateView {
            background: self.background,
            key_color: self.key_color,
            value_color: self.value_color,
            semantic_color: self.semantic_color,
            key: self.key@,
            value: self.value@,
            key_abbreviations: self.key_abbreviations@.map_values(|text: String| text@),
            display_two_rows: self.display_two_rows,
            updates_frequently: self.updates_frequently,
        }
    }
}

impl StateView {
    /// The state that shows nothing.
    pub open spec fn empty() -> StateView {
        StateView {
            background: Gradient::Transparent,
            key_color: None,
            value_color: None,
            semantic_color: SemanticColor::Default,
            key: Seq::empty(),
            value: Seq::empty(),
            key_abbreviations: Seq::empty(),
            display_two_rows: false,
            updates_frequently: false,
        }
    }
}

impl Default for State {
    fn default() -> (state: Self)
        ensures
            state@ == StateView::empty(),
    {
        let state = State {
            background: Gradient::Transparent,
            key_color: None,
            value_color: None,
            semantic_color: SemanticColor::Default,
            key: String::new(),
            value: String::new(),
            key_abbreviations: Vec::new(),
            display_two_rows: false,
            updates_frequently: false,
        };
        assert(state@.key_abbreviations =~= Seq::empty());
        state
    }
}

} // verus!
