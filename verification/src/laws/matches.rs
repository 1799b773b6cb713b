//! Recorded matches and counters.

use crate::db::period::{rating_before, results_of};
use crate::db::rows::{GhostView, MatchView, PlayerView, ReplayView};
use crate::db::DbView;
use crate::glicko::{loss_against, win_against, Rating};
use vstd::prelude::*;

verus! {

/// Posting a match of a room that has one already, between known players,
/// changes nothing.
pub proof fn repost_changes_nothing(v: DbView, m: MatchView)
    requires
        v.has_match(m.room_id),
        v.players.contains_key(m.winner_id),
        v.players.contains_key(m.loser_id),
    ensures
        v.after_result(m) == v,
{
}

/// Posting a match again, whatever the second post says of the scores and the
/// time, comes to the same as posting it once.
pub proof fn post_is_idempotent(v: DbView, first: MatchView, again: MatchView)
    requires
        again.room_id == first.room_id,
        again.winner_id == first.winner_id,
        again.loser_id == first.loser_id,
    ensures
        v.after_result(first).after_result(again) == v.after_result(first),
{
    let once = v.after_result(first);
    if !v.has_match(first.room_id) {
        assert(once.matches[v.matches.len() as int] == first);
    }
    assert(once.has_match(first.room_id));
    repost_changes_nothing(once, again);
}

/// A second post for a room never counts: no known player changes and no match
/// is added, whoever it names.
pub proof fn repost_never_counts(v: DbView, m: MatchView)
    requires
        v.has_match(m.room_id),
    ensures
        v.after_result(m).matches == v.matches,
        forall|id: Seq<char>| #[trigger]
            v.players.contains_key(id) ==> v.after_result(m).players.contains_key(id)
                && v.after_result(m).players[id] == v.players[id],
{
}

/// A post leaves every rating as it is, and a player who was unknown has the
/// rating of a new one.
pub proof fn post_keeps_ratings(v: DbView, m: MatchView, id: Seq<char>)
    requires
        v.after_result(m).players.contains_key(id),
    ensures
        v.after_result(m).players[id].rating == rating_before(v.players, id),
{
}

/// The first post for a room counts one win for the winner and one loss for the
/// loser, and touches no other player's counters.
pub proof fn post_counts_once(v: DbView, m: MatchView, id: Seq<char>)
    requires
        !v.has_match(m.room_id),
        v.count_room(m.winner_id),
        v.count_room(m.loser_id),
        v.players.contains_key(id),
    ensures
        v.after_result(m).players[id].wins == v.players[id].wins + (if id == m.winner_id {
            1int
        } else {
            0
        }),
        v.after_result(m).players[id].losses == v.players[id].losses + (if id == m.loser_id {
            1int
        } else {
            0
        }),
        v.after_result(m).players[id].draws == v.players[id].draws,
{
}

/// How many of the matches a player won.
pub open spec fn wins_in(matches: Seq<MatchView>, id: Seq<char>) -> nat {
    matches.filter(|m: MatchView| m.winner_id == id).len()
}

/// How many of the matches a player lost.
pub open spec fn losses_in(matches: Seq<MatchView>, id: Seq<char>) -> nat {
    matches.filter(|m: MatchView| m.loser_id == id).len()
}

/// The counters of every player say what the recorded matches do, and nobody
/// outside the table has played.
pub open spec fn counters_true(v: DbView) -> bool {
    forall|id: Seq<char>|
        #![trigger v.players.contains_key(id)]
        #![trigger wins_in(v.matches, id)]
        #![trigger losses_in(v.matches, id)]
        if v.players.contains_key(id) {
            v.players[id].wins == wins_in(v.matches, id) && v.players[id].losses == losses_in(
                v.matches,
                id,
            ) && v.players[id].draws == 0
        } else {
            wins_in(v.matches, id) == 0 && losses_in(v.matches, id) == 0
        }
}

/// Empty tables have true counters, and no match with unknown players.
pub proof fn empty_tables_are_sound()
    ensures
        counters_true(DbView::empty()),
        players_known(DbView::empty()),
{
    reveal(Seq::filter);
}

proof fn filter_push<T>(s: Seq<T>, x: T, keep: spec_fn(T) -> bool)
    ensures
        s.push(x).filter(keep).len() == s.filter(keep).len() + (if keep(x) {
            1nat
        } else {
            0nat
        }),
{
    reveal(Seq::filter);
    assert(s.push(x).drop_last() =~= s);
}

/// A post keeps the counters true.
pub proof fn post_keeps_counters_true(v: DbView, m: MatchView)
    requires
        counters_true(v),
        v.has_match(m.room_id) || (v.count_room(m.winner_id) && v.count_room(m.loser_id)),
    ensures
        counters_true(v.after_result(m)),
{
    let after = v.after_result(m);
    assert forall|id: Seq<char>|
        #![trigger after.players.contains_key(id)]
        #![trigger wins_in(after.matches, id)]
        #![trigger losses_in(after.matches, id)]
        if after.players.contains_key(id) {
            after.players[id].wins == wins_in(after.matches, id) && after.players[id].losses
                == losses_in(after.matches, id) && after.players[id].draws == 0
        } else {
            wins_in(after.matches, id) == 0 && losses_in(after.matches, id) == 0
        } by {
        assert(v.players.contains_key(id) || !v.players.contains_key(id));
        assert(wins_in(v.matches, id) >= 0);
        if !v.has_match(m.room_id) {
            filter_push(v.matches, m, |x: MatchView| x.winner_id == id);
            filter_push(v.matches, m, |x: MatchView| x.loser_id == id);
        }
    }
}

/// A change of a player's name, a claim of a name and uploads keep the counters
/// true.
pub proof fn other_changes_keep_counters_true(
    v: DbView,
    id: Seq<char>,
    name: Seq<char>,
    now: Seq<char>,
    ghost_row: GhostView,
    replay: ReplayView,
)
    requires
        counters_true(v),
    ensures
        counters_true(v.after_rename(id, name)),
        counters_true(v.after_claim(name, id, now)),
        counters_true(v.after_ghost(ghost_row)),
        counters_true(v.after_replay(replay)),
{
    let renamed = v.after_rename(id, name);
    assert forall|p: Seq<char>|
        #![trigger renamed.players.contains_key(p)]
        #![trigger wins_in(renamed.matches, p)]
        #![trigger losses_in(renamed.matches, p)]
        if renamed.players.contains_key(p) {
            renamed.players[p].wins == wins_in(renamed.matches, p) && renamed.players[p].losses
                == losses_in(renamed.matches, p) && renamed.players[p].draws == 0
        } else {
            wins_in(renamed.matches, p) == 0 && losses_in(renamed.matches, p) == 0
        } by {
        assert(v.players.contains_key(p) || !v.players.contains_key(p));
    }
}

/// Both players of every recorded match are known.
pub open spec fn players_known(v: DbView) -> bool {
    forall|i: int|
        0 <= i < v.matches.len() ==> v.players.contains_key((#[trigger] v.matches[i]).winner_id)
            && v.players.contains_key(v.matches[i].loser_id)
}

/// The players of every match stay known, whatever is done to the tables.
pub proof fn players_stay_known(
    v: DbView,
    m: MatchView,
    outcomes: Map<Seq<char>, Rating>,
    id: Seq<char>,
    name: Seq<char>,
    now: Seq<char>,
    ghost_row: GhostView,
    replay: ReplayView,
)
    requires
        players_known(v),
    ensures
        players_known(v.after_result(m)),
        players_known(v.after_period(outcomes, now)),
        players_known(v.after_rename(id, name)),
        players_known(v.after_claim(name, id, now)),
        players_known(v.after_ghost(ghost_row)),
        players_known(v.after_replay(replay)),
{
    let posted = v.after_result(m);
    assert forall|i: int| 0 <= i < posted.matches.len() implies posted.players.contains_key(
        (#[trigger] posted.matches[i]).winner_id,
    ) && posted.players.contains_key(posted.matches[i].loser_id) by {
        if i < v.matches.len() {
            assert(posted.matches[i] == v.matches[i]);
        }
    }
    let closed = v.after_period(outcomes, now);
    assert forall|i: int| 0 <= i < closed.matches.len() implies closed.players.contains_key(
        (#[trigger] closed.matches[i]).winner_id,
    ) && closed.players.contains_key(closed.matches[i].loser_id) by {
        assert(v.players.contains_key(v.matches[i].winner_id));
    }
    let renamed = v.after_rename(id, name);
    assert forall|i: int| 0 <= i < renamed.matches.len() implies renamed.players.contains_key(
        (#[trigger] renamed.matches[i]).winner_id,
    ) && renamed.players.contains_key(renamed.matches[i].loser_id) by {
        assert(v.players.contains_key(v.matches[i].winner_id));
    }
}

/// The results of a period rest on nothing of the players but their ratings.
pub proof fn results_rest_on_ratings(
    matches: Seq<MatchView>,
    a: Map<Seq<char>, PlayerView>,
    b: Map<Seq<char>, PlayerView>,
    id: Seq<char>,
)
    requires
        forall|p: Seq<char>| #[trigger] rating_before(a, p) == rating_before(b, p),
    ensures
        results_of(matches, a, id) == results_of(matches, b, id),
    decreases matches.len(),
{
    if matches.len() > 0 {
        results_rest_on_ratings(matches.drop_last(), a, b, id);
    }
}

/// A newly posted match waits for the next close: it is pending, and adds a win
/// to what that close holds for the winner and a loss to what it holds for the
/// loser, against the rating that the opponent has now. What it holds for
/// everyone else stays.
pub proof fn post_is_queued(v: DbView, m: MatchView, id: Seq<char>)
    requires
        !v.has_match(m.room_id),
        m.pending(),
    ensures
        v.after_result(m).pending_count() == v.pending_count() + 1,
        ({
            let before = results_of(v.matches, v.players, id);
            let after = results_of(v.after_result(m).matches, v.after_result(m).players, id);
            let won = if id == m.winner_id {
                before.push(win_against(rating_before(v.players, m.loser_id)))
            } else {
                before
            };
            after == (if id == m.loser_id {
                won.push(loss_against(rating_before(v.players, m.winner_id)))
            } else {
                won
            })
        }),
{
    let after = v.after_result(m);
    filter_push(v.matches, m, |x: MatchView| x.pending());
    assert forall|p: Seq<char>| #[trigger] rating_before(after.players, p) == rating_before(v.players, p) by {
        if after.players.contains_key(p) {
            post_keeps_ratings(v, m, p);
        }
    }
    assert(after.matches.drop_last() =~= v.matches);
    results_rest_on_ratings(v.matches, after.players, v.players, id);
}

} // verus!
