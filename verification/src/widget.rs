//! The renderable unit that a block exposes: text, severity, spacing, and the
//! identity of the block that owns it.

use crate::severity::State;
use vstd::prelude::*;

verus! {

/// Whether a widget is shown.
#[derive(Clone, Copy, Debug, PartialEq, Eq, Structural)]
pub enum Spacing {
    /// Shown with its text.
    Normal,
    /// Collapsed: nothing of it is shown.
    Hidden,
}

/// A widget of the bar.
#[derive(Debug)]
pub struct Widget {
    id: String,
    icon: String,
    text: String,
    state: State,
    spacing: Spacing,
}

/// Mathematical value of a [`Widget`].
pub ghost struct WidgetModel {
    pub id: Seq<char>,
    pub icon: Seq<char>,
    pub text: Seq<char>,
    pub state: State,
    pub spacing: Spacing,
}

impl View for Widget {
    type V = WidgetModel;

    closed spec fn view(&self) -> WidgetModel {
        WidgetModel {
            id: self.id@,
            icon: self.icon@,
            text: self.text@,
            state: self.state,
            spacing: self.spacing,
        }
    }
}

impl Widget {
    /// A widget of the block `id`: no icon, no text, idle, shown.
    pub fn new(id: &str) -> (w: Widget)
        ensures
            w@ == (WidgetModel {
                id: id@,
                icon: Seq::empty(),
                text: Seq::empty(),
                state: State::Idle,
                spacing: Spacing::Normal,
            }),
    {
        Widget {
            id: String::from_str(id),
            icon: String::new(),
            text: String::new(),
            state: State::Idle,
            spacing: Spacing::Normal,
        }
    }

    /// The same widget with the icon named `name`.
    pub fn with_icon(self, name: &str) -> (w: Widget)
        ensures
            w@ == (WidgetModel { icon: name@, ..self@ }),
    {
        let mut w = self;
        w.icon = String::from_str(name);
        w
    }

    /// The same widget with the text `text`.
    pub fn with_text(self, text: &str) -> (w: Widget)
        ensures
            w@ == (WidgetModel { text: text@, ..self@ }),
    {
        let mut w = self;
        w.text = String::from_str(text);
        w
    }

    /// The same widget with the severity `state`.
    pub fn with_state(self, state: State) -> (w: Widget)
        ensures
            w@ == (WidgetModel { state: state, ..self@ }),
    {
        let mut w = self;
        w.state = state;
        w
    }

    /// The same widget with the spacing `spacing`.
    pub fn with_spacing(self, spacing: Spacing) -> (w: Widget)
        ensures
            w@ == (WidgetModel { spacing: spacing, ..self@ }),
    {
        let mut w = self;
        w.spacing = spacing;
        w
    }

    /// Replaces the text.
    pub fn set_text(&mut self, text: String)
        ensures
            final(self)@ == (WidgetModel { text: text@, ..old(self)@ }),
    {
        self.text = text;
    }

    /// Replaces the severity.
    pub fn set_state(&mut self, state: State)
        ensures
            final(self)@ == (WidgetModel { state: state, ..old(self)@ }),
    {
        self.state = state;
    }

    /// Replaces the spacing.
    pub fn set_spacing(&mut self, spacing: Spacing)
        ensures
            final(self)@ == (WidgetModel { spacing: spacing, ..old(self)@ }),
    {
        self.spacing = spacing;
    }

    /// Identity of the owning block.
    pub fn id(&self) -> (r: &str)
        ensures
            r@ == self@.id,
    {
        self.id.as_str()
    }

    /// Name of the icon.
    pub fn icon(&self) -> (r: &str)
        ensures
            r@ == self@.icon,
    {
        self.icon.as_str()
    }

    /// The text on display.
    pub fn text(&self) -> (r: &str)
        ensures
            r@ == self@.text,
    {
        self.text.as_str()
    }

    /// The severity.
    pub fn state(&self) -> (r: State)
        ensures
            r == self@.state,
    {
        self.state
    }

    /// The spacing.
    pub fn spacing(&self) -> (r: Spacing)
        ensures
            r == self@.spacing,
    {
        self.spacing
    }
}

} // verus!
