//! When rating periods are closed.
//!
//! A timer ticks once per period. A tick may call for closing the period; while the
//! close is under way, no other one is called for. Whatever comes of it, the timer
//! goes on.

use vstd::prelude::*;

verus! {

/// The length of a rating period in seconds.
pub const PERIOD_SECS: u64 = 3600;

/// What a tick of the timer calls for.
#[derive(Debug, Clone, Copy, PartialEq, Eq, Structural)]
pub enum TickAction {
    /// Nothing.
    Wait,
    /// Closing the rating period.
    Close,
}

/// What came of closing a period.
#[derive(Debug, Clone, Copy, PartialEq, Eq, Structural)]
pub enum CloseOutcome {
    /// So many matches were applied and so many players rewritten.
    Closed { matches: usize, players: usize },
    /// The period could not be closed.
    Failed,
    /// The task that was to close it broke off.
    Aborted,
}

/// What is worth a line in the log.
#[derive(Debug, Clone, Copy, PartialEq, Eq, Structural)]
pub enum Report {
    /// Nothing.
    Nothing,
    /// That a period was closed.
    Closed,
    /// That closing it went wrong.
    Error,
}

/// The timer of the rating periods.
#[derive(Debug, Clone, Copy, PartialEq, Eq, Structural)]
pub struct PeriodTimer {
    /// Whether the timer has ticked yet.
    pub started: bool,
    /// Whether a close is under way.
    pub closing: bool,
}

impl PeriodTimer {
    /// A timer that has not ticked.
    pub open spec fn fresh() -> PeriodTimer {
        PeriodTimer { started: false, closing: false }
    }

    /// What the next tick calls for: the first one only starts the first period;
    /// each later one ends a period, unless a close is still under way.
    pub open spec fn tick_action(self) -> TickAction {
        if self.started && !self.closing {
            TickAction::Close
        } else {
            TickAction::Wait
        }
    }

    /// The timer after a tick.
    pub open spec fn ticked(self) -> PeriodTimer {
        PeriodTimer { started: true, closing: self.started }
    }

    /// The timer after a close has ended, whatever came of it.
    pub open spec fn ended(self) -> PeriodTimer {
        PeriodTimer { closing: false, ..self }
    }

    /// A timer that has not ticked.
    pub fn new() -> (r: Self)
        ensures
            r == PeriodTimer::fresh(),
    {
        PeriodTimer { started: false, closing: false }
    }

    /// Take in a tick.
    pub fn on_tick(self) -> (r: (Self, TickAction))
        ensures
            r.0 == self.ticked(),
            r.1 == self.tick_action(),
    {
        let action = if self.started && !self.closing {
            TickAction::Close
        } else {
            TickAction::Wait
        };
        (PeriodTimer { started: true, closing: self.started }, action)
    }

    /// Take in what came of a close. Nothing that can come of it stops the timer.
    pub fn on_end(self, outcome: CloseOutcome) -> (r: (Self, Report))
        ensures
            r.0 == self.ended(),
            r.1 == report_of(outcome),
    {
        let report = match outcome {
            CloseOutcome::Closed { matches, players } => {
                if matches > 0 || players > 0 {
                    Report::Closed
                } else {
                    Report::Nothing
                }
            },
            CloseOutcome::Failed => Report::Error,
            CloseOutcome::Aborted => Report::Error,
        };
        (PeriodTimer { started: self.started, closing: false }, report)
    }
}

/// What is reported of a close: that it went wrong, or that it did anything.
pub open spec fn report_of(outcome: CloseOutcome) -> Report {
    match outcome {
        CloseOutcome::Closed { matches, players } => if matches > 0 || players > 0 {
            Report::Closed
        } else {
            Report::Nothing
        },
        CloseOutcome::Failed => Report::Error,
        CloseOutcome::Aborted => Report::Error,
    }
}

} // verus!
