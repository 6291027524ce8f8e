//! The contract between a block and whoever drives it.

use crate::blocks::temperature::Temperature;
use crate::blocks::time::Time;
use crate::errors::BlockError;
use crate::input::I3BarEvent;
use crate::reading::Reading;
use crate::widget::{Widget, WidgetModel};
use vstd::prelude::*;

pub mod temperature;
pub mod time;

verus! {

/// A span of time, in nanoseconds.
#[derive(Clone, Copy, Debug, PartialEq, Eq, Structural)]
pub struct Interval {
    pub nanos: u128,
}

impl Interval {
    /// The span of `secs` seconds.
    pub fn from_secs(secs: u64) -> (r: Interval)
        ensures
            r.nanos == secs * 1_000_000_000,
    {
        Interval { nanos: secs as u128 * 1_000_000_000 }
    }

    /// The span of `millis` milliseconds.
    pub fn from_millis(millis: u64) -> (r: Interval)
        ensures
            r.nanos == millis * 1_000_000,
    {
        Interval { nanos: millis as u128 * 1_000_000 }
    }
}

/// A command for the outside world to run.
#[derive(Debug)]
pub struct CommandLine {
    pub program: String,
    pub args: Vec<String>,
}

/// Mathematical value of a [`CommandLine`].
pub ghost struct CommandModel {
    pub program: Seq<char>,
    pub args: Seq<Seq<char>>,
}

impl DeepView for CommandLine {
    type V = CommandModel;

    open spec fn deep_view(&self) -> CommandModel {
        CommandModel { program: self.program@, args: self.args.deep_view() }
    }
}

/// What one polling cycle of a block hands back.
#[derive(Debug)]
pub struct Update {
    /// Delay before the next automatic update; `None` ends automatic updates.
    pub next: Option<Interval>,
    /// Readings that the cycle discarded as out of range, for a notice each.
    pub rejected: Vec<Reading>,
}

/// A unit of the bar: it is polled, renders widgets and takes clicks.
///
/// A block does no outside work of its own that could block: where an update
/// needs the output of a command, `probe` names the command, the driver runs
/// it, and `update` is given what it printed. A command that a click asks for
/// is launched by the driver, which does not wait for it.
pub trait Block: Sized {
    /// The identity of the block.
    spec fn identity(&self) -> Seq<char>;

    /// The widgets of the block, in display order.
    spec fn widgets(&self) -> Seq<WidgetModel>;

    /// The invariant of the block.
    spec fn well_formed(&self) -> bool;

    /// The command whose output an update of the block is to be given.
    spec fn wanted(&self) -> Option<CommandModel>;

    /// A cycle on `report` may turn the block into `after` and hand back `r`.
    spec fn polled(&self, report: Seq<char>, after: Self, r: Result<Update, BlockError>) -> bool;

    /// The click `event` may turn the block into `after` and hand back `r`.
    spec fn clicked(&self, event: I3BarEvent, after: Self, r: Option<CommandLine>) -> bool;

    /// The identity of the block, the same for its whole life.
    fn id(&self) -> (r: &str)
        ensures
            r@ == self.identity(),
    ;

    /// The widgets of the block, in display order.
    fn view(&self) -> (r: Vec<&Widget>)
        ensures
            r@.len() == self.widgets().len(),
            forall|i: int| 0 <= i < r@.len() ==> (#[trigger] r@[i])@ == self.widgets()[i],
    ;

    /// The command whose output the next update is to be given, if any.
    fn probe(&self) -> (r: Option<CommandLine>)
        ensures
            r.deep_view() == self.wanted(),
    ;

    /// Runs one polling cycle on `report`, the output of the command that
    /// `probe` asked for (empty where it asked for none). A cycle that fails
    /// leaves the widgets as they were.
    fn update(&mut self, report: &str) -> (r: Result<Update, BlockError>)
        requires
            old(self).well_formed(),
        ensures
            final(self).well_formed(),
            final(self).identity() == old(self).identity(),
            r is Err ==> final(self).widgets() == old(self).widgets(),
            old(self).polled(report@, *final(self), r),
    ;

    /// Takes a click. An event aimed at another block changes nothing and asks
    /// for nothing. The result is a command to launch without waiting for it.
    fn click(&mut self, event: &I3BarEvent) -> (r: Option<CommandLine>)
        requires
            old(self).well_formed(),
        ensures
            final(self).well_formed(),
            final(self).identity() == old(self).identity(),
            !event.targets(old(self).identity()) ==> *final(self) == *old(self) && r is None,
            old(self).clicked(*event, *final(self), r),
    ;
}

/// Any of the blocks of this library, so that one scheduler can hold blocks
/// of both kinds.
#[derive(Debug)]
pub enum BarBlock {
    Temperature(Temperature),
    Time(Time),
}

impl Block for BarBlock {
    open spec fn identity(&self) -> Seq<char> {
        match self {
            BarBlock::Temperature(block) => block.identity(),
            BarBlock::Time(block) => block.identity(),
        }
    }

    open spec fn widgets(&self) -> Seq<WidgetModel> {
        match self {
            BarBlock::Temperature(block) => block.widgets(),
            BarBlock::Time(block) => block.widgets(),
        }
    }

    open spec fn well_formed(&self) -> bool {
        match self {
            BarBlock::Temperature(block) => block.well_formed(),
            BarBlock::Time(block) => block.well_formed(),
        }
    }

    open spec fn wanted(&self) -> Option<CommandModel> {
        match self {
            BarBlock::Temperature(block) => block.wanted(),
            BarBlock::Time(block) => block.wanted(),
        }
    }

    /// The block stays of its kind and is polled as a block of that kind.
    open spec fn polled(&self, report: Seq<char>, after: Self, r: Result<Update, BlockError>) -> bool {
        match (self, after) {
            (BarBlock::Temperature(before), BarBlock::Temperature(after)) => before.polled(
                report,
                after,
                r,
            ),
            (BarBlock::Time(before), BarBlock::Time(after)) => before.polled(report, after, r),
            _ => false,
        }
    }

    /// The block stays of its kind and is clicked as a block of that kind.
    open spec fn clicked(&self, event: I3BarEvent, after: Self, r: Option<CommandLine>) -> bool {
        match (self, after) {
            (BarBlock::Temperature(before), BarBlock::Temperature(after)) => before.clicked(
                event,
                after,
                r,
            ),
            (BarBlock::Time(before), BarBlock::Time(after)) => before.clicked(event, after, r),
            _ => false,
        }
    }

    fn id(&self) -> (r: &str) {
        match self {
            BarBlock::Temperature(block) => block.id(),
            BarBlock::Time(block) => block.id(),
        }
    }

    fn view(&self) -> (r: Vec<&Widget>) {
        match self {
            BarBlock::Temperature(block) => block.view(),
            BarBlock::Time(block) => block.view(),
        }
    }

    fn probe(&self) -> (r: Option<CommandLine>) {
        match self {
            BarBlock::Temperature(block) => block.probe(),
            BarBlock::Time(block) => block.probe(),
        }
    }

    fn update(&mut self, report: &str) -> (r: Result<Update, BlockError>) {
        match self {
            BarBlock::Temperature(block) => block.update(report),
            BarBlock::Time(block) => block.update(report),
        }
    }

    fn click(&mut self, event: &I3BarEvent) -> (r: Option<CommandLine>) {
        match self {
            BarBlock::Temperature(block) => block.click(event),
            BarBlock::Time(block) => block.click(event),
        }
    }
}

} // verus!
