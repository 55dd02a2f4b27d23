//! Reads the settings of the reset chance component.
//!
//! The elements `TextColor` and `ChanceColor` hold the colors of label and
//! value. Each counts only if its companion, `OverrideTextColor` or
//! `OverrideChanceColor`, says `True`: without it the color is taken from
//! the layout. `Display2Rows` holds a boolean, and the elements of the
//! background build the background. Every other element is passed over.

pub use crate::component::reset_chance::Component;
use crate::component::reset_chance::{ComponentView, Settings};
use crate::layout::parser::{
    color,
    parse_bool,
    spec_color,
    spec_parse_bool,
    text_equals,
    Element,
    ElementView,
    GradientBuilder,
    ParseError,
};
use vstd::prelude::*;

verus! {

/// What has been read of the settings so far.
#[derive(Clone, Copy, Debug)]
pub struct Parsing {
    /// The settings, with the colors as the elements gave them.
    pub settings: Settings,
    /// What the elements of the background said.
    pub background: GradientBuilder,
    /// Whether the color of the label counts.
    pub override_label: bool,
    /// Whether the color of the value counts.
    pub override_value: bool,
}

impl Parsing {
    /// The state before any element.
    pub open spec fn spec_start(settings: Settings) -> Parsing {
        Parsing {
            settings,
            background: GradientBuilder::spec_new(),
            override_label: false,
            override_value: false,
        }
    }

    /// Starts to read into the given settings.
    #[verifier::when_used_as_spec(spec_start)]
    pub fn start(settings: Settings) -> (parsing: Parsing)
        ensures
            parsing == Parsing::spec_start(settings),
    {
        Parsing {
            settings,
            background: GradientBuilder::new(),
            override_label: false,
            override_value: false,
        }
    }

    /// The state after one more element, or the error where its text
    /// cannot be read.
    pub open spec fn after(self, element: ElementView) -> Result<Parsing, ParseError> {
        match self.background.parsed(element) {
            Err(error) => Err(error),
            Ok(Some(background)) => Ok(Parsing { background, ..self }),
            Ok(None) => if element.name == "TextColor"@ {
                match spec_color(element.text) {
                    Ok(color) => Ok(
                        Parsing {
                            settings: Settings { label_color: Some(color), ..self.settings },
                            ..self
                        },
                    ),
                    Err(error) => Err(error),
                }
            } else if element.name == "OverrideTextColor"@ {
                match spec_parse_bool(element.text) {
                    Ok(override_label) => Ok(Parsing { override_label, ..self }),
                    Err(error) => Err(error),
                }
            } else if element.name == "ChanceColor"@ {
                match spec_color(element.text) {
                    Ok(color) => Ok(
                        Parsing {
                            settings: Settings { value_color: Some(color), ..self.settings },
                            ..self
                        },
                    ),
                    Err(error) => Err(error),
                }
            } else if element.name == "OverrideChanceColor"@ {
                match spec_parse_bool(element.text) {
                    Ok(override_value) => Ok(Parsing { override_value, ..self }),
                    Err(error) => Err(error),
                }
            } else if element.name == "Display2Rows"@ {
                match spec_parse_bool(element.text) {
                    Ok(display_two_rows) => Ok(
                        Parsing {
                            settings: Settings { display_two_rows, ..self.settings },
                            ..self
                        },
                    ),
                    Err(error) => Err(error),
                }
            } else {
                Ok(self)
            },
        }
    }

    /// The state after a sequence of elements, read in order up to the
    /// first whose text cannot be read, and the error of that element if
    /// there is one.
    pub open spec fn after_all(self, elements: Seq<ElementView>) -> (Parsing, Option<ParseError>)
        decreases elements.len(),
    {
        if elements.len() == 0 {
            (self, None)
        } else {
            let (before, failed) = self.after_all(elements.drop_last());
            match failed {
                Some(error) => (before, Some(error)),
                None => match before.after(elements.last()) {
                    Ok(next) => (next, None),
                    Err(error) => (before, Some(error)),
                },
            }
        }
    }

    /// The settings once every element has been read: a color whose
    /// companion did not say `True` gives way to the color of the layout,
    /// and the background is built.
    pub open spec fn finished(self) -> Settings {
        Settings {
            background: self.background.built(),
            label_color: if self.override_label {
                self.settings.label_color
            } else {
                None
            },
            value_color: if self.override_value {
                self.settings.value_color
            } else {
                None
            },
            ..self.settings
        }
    }

    /// Reads one more element.
    pub fn parse(&mut self, element: &Element) -> (result: Result<(), ParseError>)
        ensures
            match old(self).after(element@) {
                Ok(next) => result is Ok && *final(self) == next,
                Err(error) => result == Err::<(), ParseError>(error) && *final(self) == *old(
                    self,
                ),
            },
    {
        let mut background = self.background;
        match background.parse_background(element) {
            Err(error) => {
                return Err(error);
            },
            Ok(true) => {
                self.background = background;
                return Ok(());
            },
            Ok(false) => {},
        }
        let name = element.name.as_str();
        let text = element.text.as_str();
        if text_equals(name, "TextColor") {
            match color(text) {
                Ok(color) => {
                    self.settings.label_color = Some(color);
                    Ok(())
                },
                Err(error) => Err(error),
            }
        } else if text_equals(name, "OverrideTextColor") {
            match parse_bool(text) {
                Ok(flag) => {
                    self.override_label = flag;
                    Ok(())
                },
                Err(error) => Err(error),
            }
        } else if text_equals(name, "ChanceColor") {
            match color(text) {
                Ok(color) => {
                    self.settings.value_color = Some(color);
                    Ok(())
                },
                Err(error) => Err(error),
            }
        } else if text_equals(name, "OverrideChanceColor") {
            match parse_bool(text) {
                Ok(flag) => {
                    self.override_value = flag;
                    Ok(())
                },
                Err(error) => Err(error),
            }
        } else if text_equals(name, "Display2Rows") {
            match parse_bool(text) {
                Ok(flag) => {
                    self.settings.display_two_rows = flag;
                    Ok(())
                },
                Err(error) => Err(error),
            }
        } else {
            Ok(())
        }
    }

    /// Finishes reading.
    pub fn finish(self) -> (settings: Settings)
        ensures
            settings == self.finished(),
    {
        let mut settings = self.settings;
        if !self.override_label {
            settings.label_color = None;
        }
        if !self.override_value {
            settings.value_color = None;
        }
        settings.background = self.background.build();
        settings
    }
}

/// What a sequence of elements says.
pub open spec fn views(children: Seq<Element>) -> Seq<ElementView> {
    children.map_values(|element: Element| element@)
}

/// Reads the settings of the component from the children of its settings
/// element. Where the text of an element cannot be read, reading stops with
/// the error, and the settings keep what was read before that element, with
/// the background as it was.
pub fn settings(children: &Vec<Element>, component: &mut Component) -> (result: Result<
    (),
    ParseError,
>)
    ensures
        ({
            let (parsing, failed) = Parsing::spec_start(old(component)@.settings).after_all(
                views(children@),
            );
            match failed {
                None => result is Ok && final(component)@ == (ComponentView {
                    settings: parsing.finished(),
                    ..old(component)@
                }),
                Some(error) => result == Err::<(), ParseError>(error) && final(component)@ == (
                ComponentView { settings: parsing.settings, ..old(component)@ }),
            }
        }),
        old(component)@.wf() ==> final(component)@.wf(),
{
    let mut parsing = Parsing::start(*component.settings());
    let ghost elements = views(children@);
    let ghost start = parsing;
    let mut i: usize = 0;
    while i < children.len()
        invariant
            i <= children.len(),
            component@ == old(component)@,
            start == Parsing::spec_start(old(component)@.settings),
            elements == views(children@),
            start.after_all(elements.take(i as int)) == (parsing, None::<ParseError>),
        decreases children.len() - i,
    {
        assert(elements.take(i + 1).drop_last() == elements.take(i as int));
        match parsing.parse(&children[i]) {
            Ok(()) => {},
            Err(error) => {
                proof {
                    lemma_after_all_stops(start, elements, i + 1);
                }
                *component.settings_mut() = parsing.settings;
                return Err(error);
            },
        }
        i = i + 1;
    }
    assert(elements.take(i as int) == elements);
    *component.settings_mut() = parsing.finish();
    Ok(())
}

/// Once the text of an element could not be read, the elements after it
/// change nothing.
pub proof fn lemma_after_all_stops(start: Parsing, elements: Seq<ElementView>, len: int)
    requires
        0 <= len <= elements.len(),
        start.after_all(elements.take(len)).1 is Some,
    ensures
        start.after_all(elements) == start.after_all(elements.take(len)),
    decreases elements.len() - len,
{
    if len == elements.len() {
        assert(elements.take(len) == elements);
    } else {
        assert(elements.take(len + 1).drop_last() == elements.take(len));
        lemma_after_all_stops(start, elements, len + 1);
    }
}

/// Whether the settings of the component have an element of the name.
pub open spec fn is_known(name: Seq<char>) -> bool {
    ||| name == "BackgroundColor"@
    ||| name == "BackgroundColor2"@
    ||| name == "BackgroundGradient"@
    ||| name == "TextColor"@
    ||| name == "OverrideTextColor"@
    ||| name == "ChanceColor"@
    ||| name == "OverrideChanceColor"@
    ||| name == "Display2Rows"@
}

/// An element that the component does not know is passed over, whatever
/// its text: it is no error and changes nothing.
pub proof fn lemma_unknown_elements_are_passed_over(parsing: Parsing, element: ElementView)
    requires
        !is_known(element.name),
    ensures
        parsing.after(element) == Ok::<Parsing, ParseError>(parsing),
{
}

/// No element sets whether the success chance is shown, or the attempt
/// details: these settings stay as they are.
pub proof fn lemma_show_settings_stay(settings: Settings, elements: Seq<ElementView>)
    ensures
        ({
            let parsing = Parsing::spec_start(settings).after_all(elements).0;
            &&& parsing.settings.show_successes == settings.show_successes
            &&& parsing.settings.show_attempt_details == settings.show_attempt_details
            &&& parsing.finished().show_successes == settings.show_successes
            &&& parsing.finished().show_attempt_details == settings.show_attempt_details
        }),
    decreases elements.len(),
{
    if elements.len() > 0 {
        lemma_show_settings_stay(settings, elements.drop_last());
    }
}

/// The color of the label is read from the layout file only where an
/// element `OverrideTextColor` stands beside it: without one the color is
/// taken from the layout, whatever an element `TextColor` says.
pub proof fn lemma_label_color_needs_override(settings: Settings, elements: Seq<ElementView>)
    requires
        forall|i: int| 0 <= i < elements.len() ==> elements[i].name != "OverrideTextColor"@,
    ensures
        !Parsing::spec_start(settings).after_all(elements).0.override_label,
        Parsing::spec_start(settings).after_all(elements).0.finished().label_color is None,
    decreases elements.len(),
{
    if elements.len() > 0 {
        lemma_label_color_needs_override(settings, elements.drop_last());
    }
}

/// The color of the value is read from the layout file only where an
/// element `OverrideChanceColor` stands beside it.
pub proof fn lemma_value_color_needs_override(settings: Settings, elements: Seq<ElementView>)
    requires
        forall|i: int| 0 <= i < elements.len() ==> elements[i].name != "OverrideChanceColor"@,
    ensures
        !Parsing::spec_start(settings).after_all(elements).0.override_value,
        Parsing::spec_start(settings).after_all(elements).0.finished().value_color is None,
    decreases elements.len(),
{
    if elements.len() > 0 {
        lemma_value_color_needs_override(settings, elements.drop_last());
    }
}

} // verus!
