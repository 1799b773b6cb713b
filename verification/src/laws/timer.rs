//! The timer of the rating periods.

use crate::rating_period::{CloseOutcome, PeriodTimer, TickAction, PERIOD_SECS};
use vstd::prelude::*;

verus! {

/// Something that happens to the timer.
pub enum TimerEvent {
    /// It ticks.
    Tick,
    /// A close has ended.
    End(CloseOutcome),
}

/// A new timer after a row of events.
pub open spec fn timer_after(events: Seq<TimerEvent>) -> PeriodTimer
    decreases events.len(),
{
    if events.len() == 0 {
        PeriodTimer::fresh()
    } else {
        let before = timer_after(events.drop_last());
        match events.last() {
            TimerEvent::Tick => before.ticked(),
            TimerEvent::End(_) => before.ended(),
        }
    }
}

/// Whether the event at a place of the row calls for a close.
pub open spec fn closes_at(events: Seq<TimerEvent>, i: int) -> bool {
    0 <= i < events.len() && events[i] is Tick && timer_after(events.take(i)).tick_action()
        == TickAction::Close
}

/// The events of `n` ticks, each close that they call for ending before the next
/// tick with the outcome given for its tick.
pub open spec fn ticks(n: nat, outcomes: spec_fn(nat) -> CloseOutcome) -> Seq<TimerEvent>
    decreases n,
{
    if n == 0 {
        Seq::empty()
    } else {
        let before = ticks((n - 1) as nat, outcomes);
        let row = before.push(TimerEvent::Tick);
        if timer_after(before).tick_action() == TickAction::Close {
            row.push(TimerEvent::End(outcomes((n - 1) as nat)))
        } else {
            row
        }
    }
}

/// Of the ticks of a new timer, counted from 0, the first calls for nothing and
/// each later one for one close, whatever came of the closes before it.
pub proof fn every_tick_but_the_first_closes(n: nat, outcomes: spec_fn(nat) -> CloseOutcome)
    ensures
        timer_after(ticks(n, outcomes)).tick_action() == (if n == 0 {
            TickAction::Wait
        } else {
            TickAction::Close
        }),
{
    after_ticks(n, outcomes);
}

proof fn after_ticks(n: nat, outcomes: spec_fn(nat) -> CloseOutcome)
    ensures
        timer_after(ticks(n, outcomes)) == (PeriodTimer { started: n > 0, closing: false }),
    decreases n,
{
    if n > 0 {
        let before = ticks((n - 1) as nat, outcomes);
        after_ticks((n - 1) as nat, outcomes);
        let row = before.push(TimerEvent::Tick);
        assert(row.drop_last() =~= before);
        assert(timer_after(row) == timer_after(before).ticked());
        if timer_after(before).tick_action() == TickAction::Close {
            let ended = row.push(TimerEvent::End(outcomes((n - 1) as nat)));
            assert(ended.drop_last() =~= row);
        }
    }
}

/// How many closes a row of events calls for.
pub open spec fn close_count(events: Seq<TimerEvent>) -> nat
    decreases events.len(),
{
    if events.len() == 0 {
        0
    } else {
        close_count(events.drop_last()) + (if closes_at(events, events.len() - 1) {
            1nat
        } else {
            0nat
        })
    }
}

/// `n` ticks of a new timer call for `n - 1` closes.
pub proof fn closes_of_ticks(n: nat, outcomes: spec_fn(nat) -> CloseOutcome)
    ensures
        close_count(ticks(n, outcomes)) == (if n == 0 {
            0int
        } else {
            n - 1
        }),
    decreases n,
{
    if n > 0 {
        let before = ticks((n - 1) as nat, outcomes);
        closes_of_ticks((n - 1) as nat, outcomes);
        every_tick_but_the_first_closes((n - 1) as nat, outcomes);
        let row = before.push(TimerEvent::Tick);
        assert(row.drop_last() =~= before);
        assert(row.take(row.len() - 1) =~= before);
        assert(closes_at(row, row.len() - 1) == (n > 1));
        assert(close_count(row) == n - 1);
        if n > 1 {
            let ended = row.push(TimerEvent::End(outcomes((n - 1) as nat)));
            assert(ended.drop_last() =~= row);
            assert(!closes_at(ended, ended.len() - 1));
        }
    }
}

/// One close at a time: between two closes that any row of events calls for, the
/// first one has ended.
pub proof fn one_close_at_a_time(events: Seq<TimerEvent>, i: int, j: int)
    requires
        closes_at(events, i),
        closes_at(events, j),
        i < j,
    ensures
        exists|k: int| i < k < j && (#[trigger] events[k]) is End,
{
    if forall|k: int| i < k < j ==> !((#[trigger] events[k]) is End) {
        stays_closing(events, i, j);
    }
}

proof fn stays_closing(events: Seq<TimerEvent>, i: int, j: int)
    requires
        closes_at(events, i),
        i < j <= events.len(),
        forall|k: int| i < k < j ==> !((#[trigger] events[k]) is End),
    ensures
        timer_after(events.take(j)).closing,
        timer_after(events.take(j)).started,
    decreases j - i,
{
    assert(events.take(j).drop_last() =~= events.take(j - 1));
    assert(events.take(j).last() == events[j - 1]);
    if j - 1 > i {
        stays_closing(events, i, j - 1);
        assert(!(events[j - 1] is End));
    }
}

/// Whether the times are those of ticks from time 0 on, at least a period apart.
pub open spec fn spaced(times: Seq<int>) -> bool {
    &&& times.len() > 0 ==> times[0] >= 0
    &&& forall|a: int, b: int|
        0 <= a < times.len() && b == a + 1 && b < times.len() ==> #[trigger] times[b]
            >= #[trigger] times[a] + PERIOD_SECS
}

/// If ticks come from time 0 on and at least a period apart, a tick that calls for
/// a close comes no earlier than after one whole period, and at least a period
/// after every tick before it.
pub proof fn closes_are_a_period_apart(
    times: Seq<int>,
    n: nat,
    outcomes: spec_fn(nat) -> CloseOutcome,
)
    requires
        spaced(times),
        n < times.len(),
        timer_after(ticks(n, outcomes)).tick_action() == TickAction::Close,
    ensures
        times[n as int] >= PERIOD_SECS,
        forall|i: int| 0 <= i < n ==> times[n as int] >= #[trigger] times[i] + PERIOD_SECS,
{
    every_tick_but_the_first_closes(n, outcomes);
    assert forall|i: int| 0 <= i < n implies times[n as int] >= #[trigger] times[i] + PERIOD_SECS by {
        later_by_a_period(times, i, n as int);
    }
    assert(times[n as int] >= times[0] + PERIOD_SECS);
}

proof fn later_by_a_period(times: Seq<int>, i: int, j: int)
    requires
        spaced(times),
        0 <= i < j < times.len(),
    ensures
        times[j] >= times[i] + PERIOD_SECS,
    decreases j,
{
    assert(times[j] >= times[j - 1] + PERIOD_SECS);
    if j - 1 > i {
        later_by_a_period(times, i, j - 1);
    }
}

} // verus!
