//! The five severity levels of a widget and the threshold ladder that picks one.

use vstd::prelude::*;

verus! {

/// Urgency of a widget, from the least to the most urgent.
#[derive(Clone, Copy, Debug, PartialEq, Eq, Structural)]
pub enum State {
    Good,
    Idle,
    Info,
    Warning,
    Critical,
}

impl State {
    /// Position of the level in the ascending order of urgency.
    pub open spec fn rank(self) -> nat {
        match self {
            State::Good => 0,
            State::Idle => 1,
            State::Info => 2,
            State::Warning => 3,
            State::Critical => 4,
        }
    }

    /// Position of the level in the ascending order of urgency.
    pub fn urgency(self) -> (r: u8)
        ensures
            r == self.rank(),
    {
        match self {
            State::Good => 0,
            State::Idle => 1,
            State::Info => 2,
            State::Warning => 3,
            State::Critical => 4,
        }
    }
}

/// The largest reading that still counts as each of the four lower levels.
#[derive(Clone, Copy, Debug, PartialEq, Eq, Structural)]
pub struct Thresholds {
    pub good: i64,
    pub idle: i64,
    pub info: i64,
    pub warning: i64,
}

impl Thresholds {
    /// The four limits do not decrease from `good` to `warning`.
    pub open spec fn ascending(self) -> bool {
        self.good <= self.idle <= self.info <= self.warning
    }
}

/// The level of `value`: the first limit, from `good` upwards, that `value`
/// does not exceed names it; a value above all four is critical.
pub open spec fn classify_spec(value: int, limits: Thresholds) -> State {
    if value <= limits.good {
        State::Good
    } else if value <= limits.idle {
        State::Idle
    } else if value <= limits.info {
        State::Info
    } else if value <= limits.warning {
        State::Warning
    } else {
        State::Critical
    }
}

/// Classifies `value` against `limits`. The limits are taken as they are: when
/// they are not ascending the same ladder is walked, first match wins.
pub fn classify(value: i64, limits: &Thresholds) -> (state: State)
    ensures
        state == classify_spec(value as int, *limits),
{
    if value <= limits.good {
        State::Good
    } else if value <= limits.idle {
        State::Idle
    } else if value <= limits.info {
        State::Info
    } else if value <= limits.warning {
        State::Warning
    } else {
        State::Critical
    }
}

/// A value equal to a limit gets the level that the limit closes, or a less
/// urgent one; it never gets a more urgent level.
pub proof fn lemma_limit_stays_below(limits: Thresholds)
    ensures
        classify_spec(limits.good as int, limits) == State::Good,
        classify_spec(limits.idle as int, limits).rank() <= State::Idle.rank(),
        classify_spec(limits.info as int, limits).rank() <= State::Info.rank(),
        classify_spec(limits.warning as int, limits).rank() <= State::Warning.rank(),
{
}

/// With strictly ascending limits a value equal to a limit gets exactly the
/// level that the limit closes, and the next integer gets the level above.
pub proof fn lemma_limit_is_inclusive(limits: Thresholds)
    requires
        limits.good < limits.idle < limits.info < limits.warning,
    ensures
        classify_spec(limits.good as int, limits) == State::Good,
        classify_spec(limits.good + 1, limits) == State::Idle,
        classify_spec(limits.idle as int, limits) == State::Idle,
        classify_spec(limits.idle + 1, limits) == State::Info,
        classify_spec(limits.info as int, limits) == State::Info,
        classify_spec(limits.info + 1, limits) == State::Warning,
        classify_spec(limits.warning as int, limits) == State::Warning,
        classify_spec(limits.warning + 1, limits) == State::Critical,
{
}

/// With ascending limits a larger value is never classified as less urgent.
pub proof fn lemma_classify_monotonic(a: int, b: int, limits: Thresholds)
    requires
        limits.ascending(),
        a <= b,
    ensures
        classify_spec(a, limits).rank() <= classify_spec(b, limits).rank(),
{
}

} // verus!
