//! Rating periods.

use crate::db::period::{applied, results_of};
use crate::db::rows::{MatchView, PlayerView};
use crate::db::DbView;
use crate::double::Double;
use crate::glicko::{capped, PeriodResult, Rating, DEFAULT_PHI};
use crate::laws::matches::{counters_true, losses_in, wins_in};
use vstd::prelude::*;

verus! {

/// A player is active exactly if a pending match was played by the player.
pub proof fn active_means_pending_match(v: DbView, id: Seq<char>)
    ensures
        v.active(id) <==> exists|i: int|
            0 <= i < v.matches.len() && (#[trigger] v.matches[i]).pending() && v.matches[i].involves(
                id,
            ),
{
    results_nonempty(v.matches, v.players, id);
}

proof fn results_nonempty(
    matches: Seq<MatchView>,
    players: Map<Seq<char>, PlayerView>,
    id: Seq<char>,
)
    ensures
        results_of(matches, players, id).len() > 0 <==> exists|i: int|
            0 <= i < matches.len() && (#[trigger] matches[i]).pending() && matches[i].involves(id),
    decreases matches.len(),
{
    if matches.len() > 0 {
        let rest = matches.drop_last();
        results_nonempty(rest, players, id);
        let m = matches.last();
        assert(m == matches[matches.len() - 1]);
        if exists|i: int| 0 <= i < rest.len() && (#[trigger] rest[i]).pending() && rest[i].involves(id) {
            let i = choose|i: int| 0 <= i < rest.len() && (#[trigger] rest[i]).pending() && rest[i].involves(id);
            assert(matches[i] == rest[i]);
        }
        if exists|i: int| 0 <= i < matches.len() && (#[trigger] matches[i]).pending() && matches[i].involves(id) {
            let i = choose|i: int| 0 <= i < matches.len() && (#[trigger] matches[i]).pending() && matches[i].involves(id);
            if i < rest.len() {
                assert(rest[i] == matches[i]);
            }
        }
    }
}

/// Every pending match counts exactly once for its winner and once for its loser.
pub proof fn pending_matches_count_once(
    matches: Seq<MatchView>,
    players: Map<Seq<char>, PlayerView>,
    id: Seq<char>,
)
    ensures
        results_of(matches, players, id).len() == matches.filter(
            |m: MatchView| m.pending() && m.winner_id == id,
        ).len() + matches.filter(|m: MatchView| m.pending() && m.loser_id == id).len(),
    decreases matches.len(),
{
    reveal(Seq::filter);
    if matches.len() > 0 {
        pending_matches_count_once(matches.drop_last(), players, id);
    }
}

/// Whether a result is a win against an opponent: its score is 1.0, and it holds the
/// rating and deviation that the opponent's row holds, or those of a new player.
pub open spec fn beat(r: PeriodResult, players: Map<Seq<char>, PlayerView>, opponent: Seq<char>) -> bool {
    &&& r.score.bits == 0x3FF0_0000_0000_0000
    &&& faced(r, players, opponent)
}

/// Whether a result is a loss to an opponent: its score is 0.0, and it holds the
/// rating and deviation that the opponent's row holds, or those of a new player.
pub open spec fn lost_to(
    r: PeriodResult,
    players: Map<Seq<char>, PlayerView>,
    opponent: Seq<char>,
) -> bool {
    &&& r.score.bits == 0
    &&& faced(r, players, opponent)
}

/// Whether a result holds the rating and deviation of an opponent.
pub open spec fn faced(
    r: PeriodResult,
    players: Map<Seq<char>, PlayerView>,
    opponent: Seq<char>,
) -> bool {
    if players.contains_key(opponent) {
        r.opponent_mu == players[opponent].rating.mu && r.opponent_phi
            == players[opponent].rating.phi
    } else {
        r.opponent_mu.bits == 0x4097_7000_0000_0000 && r.opponent_phi.bits
            == 0x4075_E000_0000_0000
    }
}

/// Every pending match gives its winner a win against the loser's rating from before
/// the period, and its loser a loss to the winner's.
pub proof fn pending_match_gives_win_and_loss(
    matches: Seq<MatchView>,
    players: Map<Seq<char>, PlayerView>,
    i: int,
)
    requires
        0 <= i < matches.len(),
        matches[i].applied_at is None,
    ensures
        exists|k: int|
            0 <= k < results_of(matches, players, matches[i].winner_id).len() && beat(
                #[trigger] results_of(matches, players, matches[i].winner_id)[k],
                players,
                matches[i].loser_id,
            ),
        exists|k: int|
            0 <= k < results_of(matches, players, matches[i].loser_id).len() && lost_to(
                #[trigger] results_of(matches, players, matches[i].loser_id)[k],
                players,
                matches[i].winner_id,
            ),
    decreases matches.len(),
{
    let m = matches[i];
    let rest = matches.drop_last();
    let won = results_of(matches, players, m.winner_id);
    let lost = results_of(matches, players, m.loser_id);
    if i < rest.len() {
        assert(rest[i] == m);
        pending_match_gives_win_and_loss(rest, players, i);
        let before = results_of(rest, players, m.winner_id);
        let k = choose|k: int|
            0 <= k < before.len() && beat(#[trigger] before[k], players, m.loser_id);
        assert(won[k] == before[k]);
        let before = results_of(rest, players, m.loser_id);
        let k = choose|k: int|
            0 <= k < before.len() && lost_to(#[trigger] before[k], players, m.winner_id);
        assert(lost[k] == before[k]);
    } else {
        let n = results_of(rest, players, m.winner_id).len() as int;
        assert(beat(won[n], players, m.loser_id));
        let l = lost.len() - 1;
        assert(lost_to(lost[l], players, m.winner_id));
    }
}

/// One more match leaves the results before it as they are. It adds nothing if it is
/// applied, or if the player has no part in it; else a win if the player won it, and
/// a loss if the player lost it.
pub proof fn one_more_match(
    matches: Seq<MatchView>,
    m: MatchView,
    players: Map<Seq<char>, PlayerView>,
    id: Seq<char>,
)
    ensures
        results_of(Seq::empty(), players, id).len() == 0,
        ({
            let before = results_of(matches, players, id);
            let after = results_of(matches.push(m), players, id);
            &&& before.is_prefix_of(after)
            &&& m.applied_at is Some || (m.winner_id != id && m.loser_id != id) ==> after == before
            &&& m.applied_at is None && m.winner_id == id ==> after.len() > before.len() && beat(
                after[before.len() as int],
                players,
                m.loser_id,
            )
            &&& m.applied_at is None && m.loser_id == id ==> after.len() > before.len() && lost_to(
                after.last(),
                players,
                m.winner_id,
            )
            &&& m.applied_at is None ==> after.len() == before.len() + (if m.winner_id == id {
                1int
            } else {
                0
            }) + (if m.loser_id == id {
                1int
            } else {
                0
            })
        }),
{
    assert(matches.push(m).drop_last() =~= matches);
    let before = results_of(matches, players, id);
    let after = results_of(matches.push(m), players, id);
    assert(before =~= after.subrange(0, before.len() as int));
}

/// Scores do not count: matches that differ in nothing else give the same results.
pub proof fn scores_do_not_count(
    a: Seq<MatchView>,
    b: Seq<MatchView>,
    players: Map<Seq<char>, PlayerView>,
    id: Seq<char>,
)
    requires
        a.len() == b.len(),
        forall|i: int|
            0 <= i < a.len() ==> #[trigger] a[i] == (MatchView {
                winner_score: a[i].winner_score,
                loser_score: a[i].loser_score,
                ..b[i]
            }),
    ensures
        results_of(a, players, id) == results_of(b, players, id),
    decreases a.len(),
{
    if a.len() > 0 {
        let n = a.len() - 1;
        assert(a[n].winner_id == b[n].winner_id && a[n].loser_id == b[n].loser_id
            && a[n].applied_at == b[n].applied_at);
        scores_do_not_count(a.drop_last(), b.drop_last(), players, id);
    }
}

proof fn none_pending(matches: Seq<MatchView>)
    requires
        forall|i: int| 0 <= i < matches.len() ==> !(#[trigger] matches[i]).pending(),
    ensures
        matches.filter(|m: MatchView| m.pending()).len() == 0,
    decreases matches.len(),
{
    reveal(Seq::filter);
    if matches.len() > 0 {
        none_pending(matches.drop_last());
    }
}

/// A close counts every pending match: afterwards none is pending and nobody is
/// active.
pub proof fn close_leaves_nothing_pending(
    v: DbView,
    outcomes: Map<Seq<char>, Rating>,
    now: Seq<char>,
)
    ensures
        v.after_period(outcomes, now).pending_count() == 0,
        forall|id: Seq<char>| !#[trigger] v.after_period(outcomes, now).active(id),
{
    let after = v.after_period(outcomes, now);
    assert forall|i: int| 0 <= i < after.matches.len() implies !(#[trigger] after.matches[i]).pending() by {
        assert(after.matches[i] == applied(v.matches[i], now));
    }
    none_pending(after.matches);
    assert forall|id: Seq<char>| !#[trigger] after.active(id) by {
        active_means_pending_match(after, id);
    }
}

/// No match is counted twice: a second close applies no match, and leaves every
/// match as the first one did.
pub proof fn close_counts_no_match_twice(
    v: DbView,
    first: Map<Seq<char>, Rating>,
    now: Seq<char>,
    second: Map<Seq<char>, Rating>,
    later: Seq<char>,
)
    ensures
        v.after_period(first, now).after_period(second, later).matches == v.after_period(
            first,
            now,
        ).matches,
        v.after_period(first, now).after_period(second, later).periods.last().match_count == 0,
{
    let once = v.after_period(first, now);
    let twice = once.after_period(second, later);
    close_leaves_nothing_pending(v, first, now);
    assert forall|i: int| 0 <= i < twice.matches.len() implies #[trigger] twice.matches[i] == once.matches[i] by {
        assert(once.matches[i] == applied(v.matches[i], now));
    }
    assert(twice.matches =~= once.matches);
}

/// A match that was counted before keeps the time at which it was.
pub proof fn close_skips_applied_matches(
    v: DbView,
    outcomes: Map<Seq<char>, Rating>,
    now: Seq<char>,
    i: int,
)
    requires
        0 <= i < v.matches.len(),
        !v.matches[i].pending(),
    ensures
        v.after_period(outcomes, now).matches[i] == v.matches[i],
{
}

/// A close changes nothing of a player but the rating and the time of the last
/// change: no player comes or goes, and nobody's name or counters change.
pub proof fn close_keeps_counters(
    v: DbView,
    outcomes: Map<Seq<char>, Rating>,
    now: Seq<char>,
    id: Seq<char>,
)
    ensures
        v.after_period(outcomes, now).players.contains_key(id) == v.players.contains_key(id),
        v.players.contains_key(id) ==> {
            let p = v.after_period(outcomes, now).players[id];
            p == PlayerView { rating: p.rating, updated_at: p.updated_at, ..v.players[id] }
        },
{
}

/// An inactive player keeps rating and volatility, and the deviation does not
/// end above 350.
pub proof fn inactivity_is_capped(
    v: DbView,
    outcomes: Map<Seq<char>, Rating>,
    now: Seq<char>,
    id: Seq<char>,
)
    requires
        v.wf(),
        v.players.contains_key(id),
        !v.active(id),
        v.storable(id, outcomes[id]),
    ensures
        ({
            let before = v.players[id].rating;
            let after = v.after_period(outcomes, now).players[id].rating;
            &&& after.mu == before.mu
            &&& after.sigma == before.sigma
            &&& !after.phi.exceeds(Double { bits: DEFAULT_PHI })
        }),
{
}

/// An inactive player whose capped deviation is the stored one is left alone.
pub proof fn inactivity_at_the_cap_changes_nothing(
    v: DbView,
    outcomes: Map<Seq<char>, Rating>,
    now: Seq<char>,
    id: Seq<char>,
)
    requires
        v.players.contains_key(id),
        !v.active(id),
        v.players[id].rating.phi == (Double { bits: DEFAULT_PHI }),
        outcomes[id].phi.exceeds(Double { bits: DEFAULT_PHI }),
    ensures
        v.after_period(outcomes, now).players[id] == v.players[id],
{
}

/// What becomes of a player rests on the tables from before the close and on the
/// player's own outcome, not on what becomes of the others.
pub proof fn close_settles_each_player_alone(
    v: DbView,
    a: Map<Seq<char>, Rating>,
    b: Map<Seq<char>, Rating>,
    now: Seq<char>,
    id: Seq<char>,
)
    requires
        v.players.contains_key(id),
        a[id] == b[id],
    ensures
        v.after_period(a, now).players[id] == v.after_period(b, now).players[id],
{
}

/// If nothing is pending and every deviation stays, a close only adds its line to
/// the list of periods.
pub proof fn idle_close_changes_nothing(
    v: DbView,
    outcomes: Map<Seq<char>, Rating>,
    now: Seq<char>,
)
    requires
        forall|i: int| 0 <= i < v.matches.len() ==> !(#[trigger] v.matches[i]).pending(),
        forall|id: Seq<char>| #[trigger]
            v.players.contains_key(id) ==> capped(outcomes[id].phi).equals(v.players[id].rating.phi),
    ensures
        v.after_period(outcomes, now).players == v.players,
        v.after_period(outcomes, now).matches == v.matches,
{
    let after = v.after_period(outcomes, now);
    assert forall|id: Seq<char>| #[trigger] v.players.contains_key(id) implies after.players[id] == v.players[id] by {
        active_means_pending_match(v, id);
    }
    assert(after.players =~= v.players);
    assert(after.matches =~= v.matches);
}

/// An active player has the rating that the formula gave.
pub proof fn active_players_are_updated(
    v: DbView,
    outcomes: Map<Seq<char>, Rating>,
    now: Seq<char>,
    id: Seq<char>,
)
    requires
        v.players.contains_key(id),
        v.active(id),
    ensures
        v.after_period(outcomes, now).players[id].rating == outcomes[id],
        v.rewritten_players(outcomes).contains(id),
{
}

proof fn applied_filter(matches: Seq<MatchView>, now: Seq<char>, id: Seq<char>)
    ensures
        wins_in(matches.map_values(|m: MatchView| applied(m, now)), id) == wins_in(matches, id),
        losses_in(matches.map_values(|m: MatchView| applied(m, now)), id) == losses_in(matches, id),
    decreases matches.len(),
{
    reveal(Seq::filter);
    let after = matches.map_values(|m: MatchView| applied(m, now));
    if matches.len() > 0 {
        applied_filter(matches.drop_last(), now, id);
        assert(after.drop_last() =~= matches.drop_last().map_values(|m: MatchView| applied(m, now)));
    }
}

/// A close keeps the counters true.
pub proof fn close_keeps_counters_true(
    v: DbView,
    outcomes: Map<Seq<char>, Rating>,
    now: Seq<char>,
)
    requires
        counters_true(v),
    ensures
        counters_true(v.after_period(outcomes, now)),
{
    let after = v.after_period(outcomes, now);
    assert forall|id: Seq<char>|
        #![trigger after.players.contains_key(id)]
        #![trigger wins_in(after.matches, id)]
        #![trigger losses_in(after.matches, id)]
        if after.players.contains_key(id) {
            after.players[id].wins == wins_in(after.matches, id) && after.players[id].losses
                == losses_in(after.matches, id) && after.players[id].draws == 0
        } else {
            wins_in(after.matches, id) == 0 && losses_in(after.matches, id) == 0
        } by {
        applied_filter(v.matches, now, id);
        assert(v.players.contains_key(id) || !v.players.contains_key(id));
        assert(wins_in(v.matches, id) >= 0);
    }
}

} // verus!
