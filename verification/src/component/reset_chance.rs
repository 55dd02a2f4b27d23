//! The reset chance component shows the chance of giving up the attempt on
//! the current split, or, if so set, the chance of completing the split. With
//! no active attempt it shows the chance for a whole run.

use crate::analysis::reset_chance::{calculate, success_counts, SuccessCounts};
use crate::chance::{append_percent, percent_tenths, percent_text, spec_percent_tenths};
use crate::component::key_value;
use crate::component::key_value::StateView;
use crate::decimal::{append_decimal, decimal};
use crate::settings::{
    Color,
    Field,
    FieldView,
    Gradient,
    SemanticColor,
    SettingsDescription,
    Value,
};
use crate::timing::{Snapshot, TimerPhase};
use vstd::prelude::*;
use vstd::string::StringExecFns;

verus! {

/// The settings of the component.
#[derive(Clone, Copy, Debug, PartialEq, Eq)]
pub struct Settings {
    /// The background shown behind the component.
    pub background: Gradient,
    /// Whether to show the name of the component and its value in two
    /// separate rows.
    pub display_two_rows: bool,
    /// The color of the label. If `None`, the color is taken from the layout.
    pub label_color: Option<Color>,
    /// The color of the value. If `None`, the color is taken from the layout.
    pub value_color: Option<Color>,
    /// Show the success chance instead of the reset chance: a hundred
    /// percent less the reset chance.
    pub show_successes: bool,
    /// Show the attempt counts that the chance is calculated from as well.
    pub show_attempt_details: bool,
}

/// Why a setting was not set.
#[derive(Clone, Copy, Debug, PartialEq, Eq, Structural)]
pub enum SetValueError {
    /// There is no setting with the index.
    IndexOutOfRange,
    /// The value is not of the type of the setting.
    TypeMismatch,
}

/// The number of settings of the component.
pub const SETTINGS_COUNT: usize = 6;

impl Settings {
    /// The settings of a new component.
    pub open spec fn spec_default() -> Settings {
        Settings {
            background: key_value::default_gradient(),
            display_two_rows: false,
            label_color: None,
            value_color: None,
            show_successes: false,
            show_attempt_details: false,
        }
    }

    /// The settings with the one at `index` set to `value`. An index that
    /// no setting has is an error whatever the value; a value of another
    /// type than the setting is an error.
    pub open spec fn with_value(self, index: int, value: Value) -> Result<Settings, SetValueError> {
        if index == 0 {
            match value.as_gradient() {
                Some(background) => Ok(Settings { background, ..self }),
                None => Err(SetValueError::TypeMismatch),
            }
        } else if index == 1 {
            match value.as_bool() {
                Some(display_two_rows) => Ok(Settings { display_two_rows, ..self }),
                None => Err(SetValueError::TypeMismatch),
            }
        } else if index == 2 {
            match value.as_optional_color() {
                Some(label_color) => Ok(Settings { label_color, ..self }),
                None => Err(SetValueError::TypeMismatch),
            }
        } else if index == 3 {
            match value.as_optional_color() {
                Some(value_color) => Ok(Settings { value_color, ..self }),
                None => Err(SetValueError::TypeMismatch),
            }
        } else if index == 4 {
            match value.as_bool() {
                Some(show_successes) => Ok(Settings { show_successes, ..self }),
                None => Err(SetValueError::TypeMismatch),
            }
        } else if index == 5 {
            match value.as_bool() {
                Some(show_attempt_details) => Ok(Settings { show_attempt_details, ..self }),
                None => Err(SetValueError::TypeMismatch),
            }
        } else {
            Err(SetValueError::IndexOutOfRange)
        }
    }

    /// The settings as a user interface shows them, in the order of their
    /// indices.
    pub open spec fn description(self) -> Seq<FieldView> {
        seq![
            FieldView {
                text: "Background"@,
                tooltip: "The background shown behind the component."@,
                value: Value::Gradient(self.background),
            },
            FieldView {
                text: "Display in Two Rows"@,
                tooltip: "Specifies whether to display the name of the component and the reset chance in two separate rows."@,
                value: Value::Bool(self.display_two_rows),
            },
            FieldView {
                text: "Label Color"@,
                tooltip: "The color of the component's name. If not specified, the color is taken from the layout."@,
                value: Value::OptionalColor(self.label_color),
            },
            FieldView {
                text: "Value Color"@,
                tooltip: "The color of the PB chance. If not specified, the color is taken from the layout."@,
                value: Value::OptionalColor(self.value_color),
            },
            FieldView {
                text: "Show Successes"@,
                tooltip: "Instead of showing the reset chance, show the success chance for the current split."@,
                value: Value::Bool(self.show_successes),
            },
            FieldView {
                text: "Show Attempt Details"@,
                tooltip: "In addition to showing the reset chance, show the attempt counts used for the calculation."@,
                value: Value::Bool(self.show_attempt_details),
            },
        ]
    }
}

impl Default for Settings {
    fn default() -> (settings: Self)
        ensures
            settings == Settings::spec_default(),
    {
        Settings {
            background: key_value::default_gradient(),
            display_two_rows: false,
            label_color: None,
            value_color: None,
            show_successes: false,
            show_attempt_details: false,
        }
    }
}

/// The reset chance component. It keeps the counts it has last taken from
/// the history, with the phase and the split they were taken for, and takes
/// them anew only when the phase or the split has changed, or when there is
/// no active attempt.
#[derive(Clone, Debug)]
pub struct Component {
    settings: Settings,
    timer_phase: Option<TimerPhase>,
    split_index: Option<usize>,
    success_counts: Option<SuccessCounts>,
}

/// What a component holds: its settings and what it has kept from the last
/// refresh.
pub struct ComponentView {
    pub settings: Settings,
    pub timer_phase: Option<TimerPhase>,
    pub split_index: Option<usize>,
    pub success_counts: Option<SuccessCounts>,
}

impl View for Component {
    type V = ComponentView;

    closed spec fn view(&self) -> ComponentView {
        ComponentView {
            settings: self.settings,
            timer_phase: self.timer_phase,
            split_index: self.split_index,
            success_counts: self.success_counts,
        }
    }
}

impl ComponentView {
    /// A component that has kept nothing yet.
    pub open spec fn fresh(settings: Settings) -> ComponentView {
        ComponentView { settings, timer_phase: None, split_index: None, success_counts: None }
    }

    /// The counts that are kept are bounded: no more attempts succeeded than
    /// there were.
    pub open spec fn wf(self) -> bool {
        self.success_counts matches Some(counts) ==> counts.is_bounded()
    }

    /// Whether the counts that are kept stay for the snapshot: they were
    /// taken in the same phase and on the same split, and there is an
    /// attempt. With no attempt the totals can grow between two refreshes
    /// without a change of phase or split, so the counts are never kept.
    pub open spec fn keeps_counts_for(self, timer: &Snapshot) -> bool {
        &&& self.timer_phase == Some(timer.phase)
        &&& timer.phase != TimerPhase::NotRunning
        &&& self.split_index == timer.current_split_index
        &&& self.success_counts is Some
    }

    /// Whether a refresh can take what it needs from the snapshot: where the
    /// counts are taken anew, the snapshot is well formed and its counts are
    /// bounded.
    pub open spec fn accepts(self, timer: &Snapshot) -> bool {
        self.keeps_counts_for(timer) || (timer.wf() && success_counts(timer).is_bounded())
    }

    /// The component after a refresh with the snapshot.
    pub open spec fn refreshed(self, timer: &Snapshot) -> ComponentView {
        ComponentView {
            settings: self.settings,
            timer_phase: Some(timer.phase),
            split_index: timer.current_split_index,
            success_counts: if self.keeps_counts_for(timer) {
                self.success_counts
            } else {
                Some(success_counts(timer))
            },
        }
    }

    /// The counts that are kept, and zeros where none are.
    pub open spec fn counts(self) -> SuccessCounts {
        match self.success_counts {
            Some(counts) => counts,
            None => SuccessCounts { successful_attempts: 0, total_attempts: 0 },
        }
    }

    /// The counts as they are shown: for the success chance as they are
    /// kept, for the reset chance with the attempts that did not succeed in
    /// place of those that did.
    pub open spec fn shown_counts(self) -> SuccessCounts {
        let counts = self.counts();
        if self.settings.show_successes {
            counts
        } else {
            SuccessCounts {
                successful_attempts: (counts.total_attempts - counts.successful_attempts) as u32,
                total_attempts: counts.total_attempts,
            }
        }
    }

    /// The chance that is shown, in tenths of a percent. Without any attempt
    /// the success chance is a hundred percent and the reset chance zero.
    pub open spec fn shown_tenths(self) -> nat {
        let shown = self.shown_counts();
        if shown.total_attempts == 0 {
            if self.settings.show_successes {
                1000
            } else {
                0
            }
        } else {
            spec_percent_tenths(shown.successful_attempts as nat, shown.total_attempts as nat)
        }
    }

    /// The label of the component.
    pub open spec fn key_text(self) -> Seq<char> {
        if self.settings.show_successes {
            "Success Chance"@
        } else {
            "Reset Chance"@
        }
    }

    /// The value of the component: the chance as a percentage with one
    /// decimal and, if so set, before it the counts it is calculated from.
    pub open spec fn value_text(self) -> Seq<char> {
        let shown = self.shown_counts();
        let percent = percent_text(self.shown_tenths());
        if self.settings.show_attempt_details {
            decimal(shown.successful_attempts as nat) + seq!['/'] + decimal(
                shown.total_attempts as nat,
            ) + seq![' ', '('] + percent + seq![')']
        } else {
            percent
        }
    }

    /// What the component hands to a renderer.
    pub open spec fn rendered(self) -> StateView {
        StateView {
            background: self.settings.background,
            key_color: self.settings.label_color,
            value_color: self.settings.value_color,
            semantic_color: SemanticColor::Default,
            key: self.key_text(),
            value: self.value_text(),
            key_abbreviations: Seq::empty(),
            display_two_rows: self.settings.display_two_rows,
            updates_frequently: false,
        }
    }
}

impl Default for Component {
    fn default() -> (component: Self)
        ensures
            component@ == ComponentView::fresh(Settings::spec_default()),
            component@.wf(),
    {
        Component::with_settings(Settings::default())
    }
}

impl Component {
    /// Creates a new reset chance component.
    pub fn new() -> (component: Self)
        ensures
            component@ == ComponentView::fresh(Settings::spec_default()),
            component@.wf(),
    {
        Component::with_settings(Settings::default())
    }

    /// Creates a new reset chance component with the given settings.
    pub fn with_settings(settings: Settings) -> (component: Self)
        ensures
            component@ == ComponentView::fresh(settings),
            component@.wf(),
    {
        Component { settings, timer_phase: None, split_index: None, success_counts: None }
    }

    /// Accesses the settings of the component.
    pub fn settings(&self) -> (settings: &Settings)
        ensures
            *settings == self@.settings,
    {
        &self.settings
    }

    /// Grants mutable access to the settings of the component. What the
    /// component has kept from the last refresh stays as it is.
    pub fn settings_mut(&mut self) -> (settings: &mut Settings)
        ensures
            *settings == old(self)@.settings,
            final(self)@ == (ComponentView { settings: *final(settings), ..old(self)@ }),
    {
        &mut self.settings
    }

    /// Whether a refresh can take what it needs from the snapshot. A refresh
    /// with a snapshot that is not accepted is not allowed.
    pub fn accepts(&self, timer: &Snapshot) -> (accepted: bool)
        ensures
            accepted == self@.accepts(timer),
    {
        if Some(timer.phase) == self.timer_phase && timer.phase != TimerPhase::NotRunning
            && timer.current_split_index == self.split_index && self.success_counts.is_some() {
            return true;
        }
        if !timer.is_well_formed() {
            return false;
        }
        let counts = calculate(timer);
        counts.successful_attempts <= counts.total_attempts
    }

    /// Accesses the name of the component.
    pub fn name(&self) -> (name: &'static str)
        ensures
            name@ == "Reset Chance"@,
    {
        "Reset Chance"
    }

    /// Updates the state of the component for the timer, and writes what is
    /// to be shown into `state`.
    pub fn update_state(&mut self, state: &mut key_value::State, timer: &Snapshot)
        requires
            old(self)@.wf(),
            old(self)@.accepts(timer),
        ensures
            final(self)@ == old(self)@.refreshed(timer),
            final(self)@.wf(),
            final(state)@ == final(self)@.rendered(),
    {
        state.background = self.settings.background;
        state.key_color = self.settings.label_color;
        state.value_color = self.settings.value_color;
        state.semantic_color = SemanticColor::Default;

        state.key = String::from_str(
            if self.settings.show_successes {
                "Success Chance"
            } else {
                "Reset Chance"
            },
        );

        if Some(timer.phase) != self.timer_phase || timer.phase == TimerPhase::NotRunning {
            self.timer_phase = Some(timer.phase);
            self.success_counts = None;
        }
        if timer.current_split_index != self.split_index {
            self.split_index = timer.current_split_index;
            self.success_counts = None;
        }
        if self.success_counts.is_none() {
            self.success_counts = Some(calculate(timer));
        }
        let mut counts = match self.success_counts {
            Some(counts) => counts,
            None => SuccessCounts::default(),
        };
        if !self.settings.show_successes {
            counts.successful_attempts = counts.total_attempts - counts.successful_attempts;
        }
        let tenths: u32 = if counts.total_attempts == 0 {
            if self.settings.show_successes {
                1000
            } else {
                0
            }
        } else {
            percent_tenths(counts.successful_attempts, counts.total_attempts)
        };

        let mut value = String::new();
        if self.settings.show_attempt_details {
            proof {
                reveal_strlit("/");
                reveal_strlit(" (");
                reveal_strlit(")");
            }
            append_decimal(&mut value, counts.successful_attempts);
            value.append("/");
            append_decimal(&mut value, counts.total_attempts);
            value.append(" (");
            append_percent(&mut value, tenths);
            value.append(")");
        } else {
            append_percent(&mut value, tenths);
        }
        assert(value@ =~= self@.value_text());
        state.value = value;

        state.key_abbreviations.clear();
        state.display_two_rows = self.settings.display_two_rows;
        state.updates_frequently = false;
        assert(state@.key_abbreviations =~= Seq::empty());
    }

    /// Updates the state of the component for the timer, and returns what
    /// is to be shown.
    pub fn state(&mut self, timer: &Snapshot) -> (state: key_value::State)
        requires
            old(self)@.wf(),
            old(self)@.accepts(timer),
        ensures
            final(self)@ == old(self)@.refreshed(timer),
            final(self)@.wf(),
            state@ == final(self)@.rendered(),
    {
        let mut state = key_value::State::default();
        self.update_state(&mut state, timer);
        state
    }

    /// Describes the settings of the component and their current values,
    /// for a user interface.
    pub fn settings_description(&self) -> (description: SettingsDescription)
        ensures
            description@ == self@.settings.description(),
            description@.len() == SETTINGS_COUNT,
    {
        let mut fields: Vec<Field> = Vec::new();
        fields.push(
            Field::new(
                String::from_str("Background"),
                String::from_str("The background shown behind the component."),
                Value::Gradient(self.settings.background),
            ),
        );
        fields.push(
            Field::new(
                String::from_str("Display in Two Rows"),
                String::from_str(
                    "Specifies whether to display the name of the component and the reset chance in two separate rows.",
                ),
                Value::Bool(self.settings.display_two_rows),
            ),
        );
        fields.push(
            Field::new(
                String::from_str("Label Color"),
                String::from_str(
                    "The color of the component's name. If not specified, the color is taken from the layout.",
                ),
                Value::OptionalColor(self.settings.label_color),
            ),
        );
        fields.push(
            Field::new(
                String::from_str("Value Color"),
                String::from_str(
                    "The color of the PB chance. If not specified, the color is taken from the layout.",
                ),
                Value::OptionalColor(self.settings.value_color),
            ),
        );
        fields.push(
            Field::new(
                String::from_str("Show Successes"),
                String::from_str(
                    "Instead of showing the reset chance, show the success chance for the current split.",
                ),
                Value::Bool(self.settings.show_successes),
            ),
        );
        fields.push(
            Field::new(
                String::from_str("Show Attempt Details"),
                String::from_str(
                    "In addition to showing the reset chance, show the attempt counts used for the calculation.",
                ),
                Value::Bool(self.settings.show_attempt_details),
            ),
        );
        let description = SettingsDescription::with_fields(fields);
        description
    }

    /// Sets the setting at `index` to `value`. Where that fails, the
    /// settings stay as they are.
    pub fn set_value(&mut self, index: usize, value: Value) -> (result: Result<(), SetValueError>)
        ensures
            match old(self)@.settings.with_value(index as int, value) {
                Ok(settings) => result is Ok && final(self)@ == (ComponentView {
                    settings,
                    ..old(self)@
                }),
                Err(error) => result == Err::<(), SetValueError>(error) && final(self)@ == old(
                    self,
                )@,
            },
            index >= SETTINGS_COUNT ==> result == Err::<(), SetValueError>(
                SetValueError::IndexOutOfRange,
            ),
            old(self)@.wf() ==> final(self)@.wf(),
    {
        match index {
            0 => match value.into_gradient() {
                Some(background) => {
                    self.settings.background = background;
                    Ok(())
                },
                None => Err(SetValueError::TypeMismatch),
            },
            1 => match value.into_bool() {
                Some(flag) => {
                    self.settings.display_two_rows = flag;
                    Ok(())
                },
                None => Err(SetValueError::TypeMismatch),
            },
            2 => match value.into_optional_color() {
                Some(color) => {
                    self.settings.label_color = color;
                    Ok(())
                },
                None => Err(SetValueError::TypeMismatch),
            },
            3 => match value.into_optional_color() {
                Some(color) => {
                    self.settings.value_color = color;
                    Ok(())
                },
                None => Err(SetValueError::TypeMismatch),
            },
            4 => match value.into_bool() {
                Some(flag) => {
                    self.settings.show_successes = flag;
                    Ok(())
                },
                None => Err(SetValueError::TypeMismatch),
            },
            5 => match value.into_bool() {
                Some(flag) => {
                    self.settings.show_attempt_details = flag;
                    Ok(())
                },
                None => Err(SetValueError::TypeMismatch),
            },
            _ => Err(SetValueError::IndexOutOfRange),
        }
    }
}

/// What is set by index is what is described at that index, and the other
/// settings are described as before.
pub proof fn lemma_set_value_is_described(settings: Settings, index: int, value: Value)
    requires
        settings.with_value(index, value) is Ok,
    ensures
        0 <= index < SETTINGS_COUNT,
        settings.with_value(index, value)->Ok_0.description()[index].value == value,
        forall|other: int|
            0 <= other < SETTINGS_COUNT && other != index ==> settings.with_value(
                index,
                value,
            )->Ok_0.description()[other] == settings.description()[other],
{
}

/// Every value that a description holds can be set at its index, and
/// settings that are described alike are the same.
pub proof fn lemma_described_values_can_be_set(settings: Settings, described: Settings)
    ensures
        forall|index: int|
            0 <= index < SETTINGS_COUNT ==> settings.with_value(
                index,
                #[trigger] described.description()[index].value,
            ) is Ok,
        settings.description() == described.description() ==> settings == described,
{
}

/// A refresh that follows another in the same phase and on the same split
/// keeps the counts of the first, whatever has become of the history in
/// between, as long as there is an attempt.
pub proof fn lemma_refresh_keeps_counts(
    component: ComponentView,
    first: &Snapshot,
    second: &Snapshot,
)
    requires
        first.phase == second.phase,
        first.current_split_index == second.current_split_index,
        first.phase != TimerPhase::NotRunning,
    ensures
        component.refreshed(first).refreshed(second).success_counts == component.refreshed(
            first,
        ).success_counts,
        component.refreshed(first).refreshed(second) == component.refreshed(first),
{
}

/// A refresh in another phase or on another split than the one before, or
/// without an attempt, takes the counts anew from its snapshot.
pub proof fn lemma_refresh_takes_counts_anew(
    component: ComponentView,
    first: &Snapshot,
    second: &Snapshot,
)
    requires
        first.phase != second.phase || first.current_split_index != second.current_split_index
            || second.phase == TimerPhase::NotRunning,
    ensures
        component.refreshed(first).refreshed(second).success_counts == Some(
            success_counts(second),
        ),
{
}

/// A refresh that the component accepts leaves bounded counts behind.
pub proof fn lemma_refresh_preserves_wf(component: ComponentView, timer: &Snapshot)
    requires
        component.wf(),
        component.accepts(timer),
    ensures
        component.refreshed(timer).wf(),
{
}

} // verus!
