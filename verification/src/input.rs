//! Pointer events that the bar reports.

use crate::text::str_equal;
use vstd::prelude::*;

verus! {

/// The button of a click.
#[derive(Clone, Copy, Debug, PartialEq, Eq, Structural)]
pub enum MouseButton {
    Left,
    Middle,
    Right,
    WheelUp,
    WheelDown,
    Forward,
    Back,
    Unknown,
}

/// A click on the bar.
#[derive(Debug)]
pub struct I3BarEvent {
    /// Identity of the block that was clicked, where the bar knows it.
    pub name: Option<String>,
    /// The button that was pressed.
    pub button: MouseButton,
}

impl I3BarEvent {
    /// The event names the block `id` as its target.
    pub open spec fn targets(&self, id: Seq<char>) -> bool {
        self.name matches Some(name) && name@ == id
    }

    /// The event is a left click on the block `id`.
    pub open spec fn activates(&self, id: Seq<char>) -> bool {
        self.targets(id) && self.button == MouseButton::Left
    }

    /// Whether the event is a left click on the block `id`.
    pub fn is_left_click_on(&self, id: &str) -> (r: bool)
        ensures
            r == self.activates(id@),
    {
        match &self.name {
            Some(name) => str_equal(name.as_str(), id) && self.button == MouseButton::Left,
            None => false,
        }
    }
}

} // verus!
