//! What each operation does to the tables, column by column.

use crate::db::matches::new_match;
use crate::db::names::{normalized, NameClaimOutcome};
use crate::db::open::StoredRows;
use crate::db::period::{applied, rating_before};
use crate::db::rows::{GhostView, MatchView, PlayerView, ReplayView};
use crate::db::uploads::asked_for;
use crate::db::{Db, DbView};
use crate::double::Double;
use crate::glicko::{capped, Rating};
use crate::laws::periods::active_means_pending_match;
use crate::models::MatchResult;
use crate::order::{clamped, is_top};
use crate::table::{Row, Table};
use crate::text::text_lt;
use vstd::prelude::*;

verus! {

// ── Tables ─────────────────────────────────────────────────────────────────

/// A table holds a row under its key, and nothing under a key that no row has.
pub proof fn table_holds_its_rows<R: Row>(t: Table<R>, i: int, key: Seq<char>)
    requires
        t.wf(),
        0 <= i < t.rows@.len(),
    ensures
        t@.contains_key(t.rows@[i].key()),
        t@[t.rows@[i].key()] == t.rows@[i]@,
        t@.contains_key(key) <==> exists|j: int|
            0 <= j < t.rows@.len() && (#[trigger] t.rows@[j]).key() == key,
        forall|j: int|
            0 <= j < t.rows@.len() && j != i ==> (#[trigger] t.rows@[j]).key() != t.rows@[i].key(),
{
    t.row_in_view(i);
    if t@.contains_key(key) {
        t.key_in_rows(key);
        assert(t.rows@[t.position(key)].key() == key);
    }
    if exists|j: int| 0 <= j < t.rows@.len() && (#[trigger] t.rows@[j]).key() == key {
        let j = choose|j: int| 0 <= j < t.rows@.len() && (#[trigger] t.rows@[j]).key() == key;
        t.row_in_view(j);
    }
}

/// Stored rows are taken up exactly if no key occurs twice, every rating is made of
/// numbers and every player's counters can be summed.
pub proof fn rows_that_are_taken_up(s: StoredRows)
    ensures
        s.consistent() <==> {
            &&& forall|i: int, j: int|
                0 <= i < j < s.players@.len() ==> (#[trigger] s.players@[i]).discord_id@ != (
                #[trigger] s.players@[j]).discord_id@
            &&& forall|i: int, j: int|
                0 <= i < j < s.matches@.len() ==> (#[trigger] s.matches@[i]).room_id@ != (
                #[trigger] s.matches@[j]).room_id@
            &&& forall|i: int, j: int|
                0 <= i < j < s.ghosts@.len() ==> (#[trigger] s.ghosts@[i]).ghost_id@ != (
                #[trigger] s.ghosts@[j]).ghost_id@
            &&& forall|i: int, j: int|
                0 <= i < j < s.replays@.len() ==> (#[trigger] s.replays@[i]).meta.replay_id@ != (
                #[trigger] s.replays@[j]).meta.replay_id@
            &&& forall|i: int, j: int|
                0 <= i < j < s.names@.len() ==> (#[trigger] s.names@[i]).name_norm@ != (
                #[trigger] s.names@[j]).name_norm@
            &&& forall|i: int|
                0 <= i < s.players@.len() ==> !(#[trigger] s.players@[i]).rating.mu.is_nan()
                    && !s.players@[i].rating.phi.is_nan() && !s.players@[i].rating.sigma.is_nan()
            &&& forall|i: int|
                0 <= i < s.players@.len() ==> (#[trigger] s.players@[i]).wins + s.players@[i].losses
                    + s.players@[i].draws <= u64::MAX
        },
{
    if s.consistent() {
        assert forall|i: int, j: int| 0 <= i < j < s.players@.len() implies (#[trigger] s.players@[i]).discord_id@ != (
        #[trigger] s.players@[j]).discord_id@ by {
            assert(s.players@[i].key() != s.players@[j].key());
        }
        assert forall|i: int, j: int| 0 <= i < j < s.matches@.len() implies (#[trigger] s.matches@[i]).room_id@ != (
        #[trigger] s.matches@[j]).room_id@ by {
            assert(s.matches@[i].key() != s.matches@[j].key());
        }
        assert forall|i: int, j: int| 0 <= i < j < s.ghosts@.len() implies (#[trigger] s.ghosts@[i]).ghost_id@ != (
        #[trigger] s.ghosts@[j]).ghost_id@ by {
            assert(s.ghosts@[i].key() != s.ghosts@[j].key());
        }
        assert forall|i: int, j: int| 0 <= i < j < s.replays@.len() implies (#[trigger] s.replays@[i]).meta.replay_id@ != (
        #[trigger] s.replays@[j]).meta.replay_id@ by {
            assert(s.replays@[i].key() != s.replays@[j].key());
        }
        assert forall|i: int, j: int| 0 <= i < j < s.names@.len() implies (#[trigger] s.names@[i]).name_norm@ != (
        #[trigger] s.names@[j]).name_norm@ by {
            assert(s.names@[i].key() != s.names@[j].key());
        }
    }
}

/// The value of the tables is that of their rows: matches and periods in their order,
/// the rest by key.
pub proof fn tables_are_their_rows(db: Db, i: int)
    ensures
        db@.players == db.players@,
        db@.ghosts == db.ghosts@,
        db@.replays == db.replays@,
        db@.names == db.names@,
        db@.matches.len() == db.matches.rows@.len(),
        0 <= i < db.matches.rows@.len() ==> db@.matches[i] == db.matches.rows@[i]@,
        db@.periods.len() == db.periods@.len(),
        0 <= i < db.periods@.len() ==> db@.periods[i] == db.periods@[i]@,
{
}

/// Empty tables hold nothing.
pub proof fn empty_tables_hold_nothing(key: Seq<char>)
    ensures
        DbView::empty().matches.len() == 0,
        DbView::empty().periods.len() == 0,
        !DbView::empty().players.contains_key(key),
        !DbView::empty().ghosts.contains_key(key),
        !DbView::empty().replays.contains_key(key),
        !DbView::empty().names.contains_key(key),
{
}

// ── Lists ──────────────────────────────────────────────────────────────────

/// A top list has no more items than asked for, none twice and none from outside the
/// pool. No item stands behind one that it precedes. An item of the pool is left out
/// only if the list is full, and then it precedes none in it.
pub proof fn top_list_is_the_top<T>(
    list: Seq<T>,
    pool: spec_fn(T) -> bool,
    precedes: spec_fn(T, T) -> bool,
    limit: nat,
    i: int,
    j: int,
    x: T,
)
    requires
        is_top(list, pool, precedes, limit),
        0 <= i < j < list.len(),
    ensures
        list.len() <= limit,
        pool(list[i]) && pool(list[j]),
        list[i] != list[j],
        !precedes(list[j], list[i]),
        pool(x) && !list.contains(x) ==> list.len() == limit && !precedes(x, list[j]),
{
}

/// A top list takes in every item of a pool, as long as it is not full.
pub proof fn short_top_list_is_complete<T>(
    list: Seq<T>,
    pool: spec_fn(T) -> bool,
    precedes: spec_fn(T, T) -> bool,
    limit: nat,
    x: T,
)
    requires
        is_top(list, pool, precedes, limit),
        list.len() < limit,
    ensures
        pool(x) <==> list.contains(x),
{
    if list.contains(x) {
        let i = choose|i: int| 0 <= i < list.len() && list[i] == x;
        assert(pool(list[i]));
    }
}

/// A limit below 1 is taken as 1, and one above 100 as 100.
pub proof fn limit_is_clamped(limit: u32)
    ensures
        limit == 0 ==> clamped(limit) == 1,
        1 <= limit <= 100 ==> clamped(limit) == limit,
        limit > 100 ==> clamped(limit) == 100,
{
}

// ── Players ────────────────────────────────────────────────────────────────

/// The leaderboard takes in the players with at least one counted result, and ranks
/// them by rating.
pub proof fn who_is_placed(v: DbView, a: Seq<char>, b: Seq<char>)
    ensures
        v.placed(a) <==> v.players.contains_key(a) && v.players[a].wins + v.players[a].losses
            + v.players[a].draws >= 1,
        !v.players[a].rating.mu.is_nan() && !v.players[b].rating.mu.is_nan() ==> (v.outranks(a, b)
            <==> v.players[a].rating.mu.exceeds(v.players[b].rating.mu)),
{
}

/// A change of name changes the name of a known player and nothing else.
pub proof fn rename_columns(v: DbView, id: Seq<char>, username: Seq<char>, other: Seq<char>)
    ensures
        ({
            let after = v.after_rename(id, username);
            &&& after.players.contains_key(other) == v.players.contains_key(other)
            &&& v.players.contains_key(id) ==> after.players[id] == (PlayerView {
                username,
                ..v.players[id]
            })
            &&& other != id && v.players.contains_key(other) ==> after.players[other]
                == v.players[other]
            &&& !v.players.contains_key(id) ==> after == v
            &&& after.matches == v.matches
            &&& after.periods == v.periods
            &&& after.ghosts == v.ghosts
            &&& after.replays == v.replays
            &&& after.names == v.names
        }),
{
}

/// The stored name of a player is the column, if it is not empty; an unknown player
/// has none.
pub proof fn stored_names(v: DbView, id: Seq<char>)
    ensures
        v.players.contains_key(id) && v.players[id].username.len() > 0 ==> v.stored_name(id)
            == Some(v.players[id].username) && v.username_of(id) == v.players[id].username,
        v.players.contains_key(id) && v.players[id].username.len() == 0 ==> v.stored_name(id)
            is None && v.username_of(id).len() == 0,
        !v.players.contains_key(id) ==> v.stored_name(id) is None && v.username_of(id).len() == 0,
{
}

// ── Results ────────────────────────────────────────────────────────────────

/// A room has a match exactly if one of the recorded matches was played in it, and
/// that match is the one that is found for it.
pub proof fn rooms_have_matches(v: DbView, room: Seq<char>)
    ensures
        v.has_match(room) <==> exists|i: int|
            0 <= i < v.matches.len() && (#[trigger] v.matches[i]).room_id == room,
        v.has_match(room) ==> v.matches.contains(v.match_in(room)) && v.match_in(room).room_id
            == room,
{
    if v.has_match(room) {
        let i = choose|i: int| 0 <= i < v.matches.len() && (#[trigger] v.matches[i]).room_id == room;
        assert(v.matches[i].room_id == room);
    }
}

/// A player has played in a room if its match was won or lost by the player, and
/// matches are ordered by the times at which they were played.
pub proof fn matches_in_a_history(v: DbView, id: Seq<char>, a: Seq<char>, b: Seq<char>)
    ensures
        v.played_in(id, a) <==> v.has_match(a) && (v.match_in(a).winner_id == id || v.match_in(
            a,
        ).loser_id == id),
        v.later(a, b) <==> text_lt(v.match_in(b).played_at, v.match_in(a).played_at),
{
}

/// A recorded result holds what was reported, the time at which it came, and no time
/// at which it was applied.
pub proof fn new_match_columns(
    room_id: Seq<char>,
    winner_id: Seq<char>,
    loser_id: Seq<char>,
    winner_score: u16,
    loser_score: u16,
    rom_hash: Seq<char>,
    now: Seq<char>,
)
    ensures
        ({
            let m = new_match(
                room_id,
                winner_id,
                loser_id,
                winner_score,
                loser_score,
                rom_hash,
                now,
            );
            &&& m.room_id == room_id
            &&& m.winner_id == winner_id
            &&& m.loser_id == loser_id
            &&& m.winner_score == winner_score
            &&& m.loser_score == loser_score
            &&& m.rom_hash == rom_hash
            &&& m.played_at == now
            &&& m.applied_at is None
            &&& m.pending()
        }),
{
}

/// A result for a new room is recorded behind all others; one for a room that has a
/// match is not. Nothing else than matches and players changes.
pub proof fn result_is_recorded(v: DbView, m: MatchView)
    ensures
        ({
            let after = v.after_result(m);
            let known = exists|i: int|
                0 <= i < v.matches.len() && (#[trigger] v.matches[i]).room_id == m.room_id;
            &&& known ==> after.matches == v.matches
            &&& !known ==> after.matches == v.matches.push(m)
            &&& after.periods == v.periods
            &&& after.ghosts == v.ghosts
            &&& after.replays == v.replays
            &&& after.names == v.names
        }),
{
}

/// After a result both of its players are known, and nobody else becomes so. A new
/// room's result adds one to the winner's wins and one to the loser's losses and notes
/// its time for both; a player who was known keeps the name, the rating and the draws.
pub proof fn result_is_counted(v: DbView, m: MatchView, id: Seq<char>)
    requires
        forall|p: Seq<char>| #[trigger]
            v.players.contains_key(p) && (p == m.winner_id || p == m.loser_id) ==> v.players[p].wins
                < u64::MAX && v.players[p].losses < u64::MAX,
    ensures
        ({
            let after = v.after_result(m);
            let known = exists|i: int|
                0 <= i < v.matches.len() && (#[trigger] v.matches[i]).room_id == m.room_id;
            let won: int = if !known && id == m.winner_id {
                1
            } else {
                0
            };
            let lost: int = if !known && id == m.loser_id {
                1
            } else {
                0
            };
            let p = after.players[id];
            &&& after.players.contains_key(id) <==> v.players.contains_key(id) || id == m.winner_id
                || id == m.loser_id
            &&& v.players.contains_key(id) ==> {
                let q = v.players[id];
                &&& p.discord_id == q.discord_id
                &&& p.username == q.username
                &&& p.rating == q.rating
                &&& p.wins == q.wins + won
                &&& p.losses == q.losses + lost
                &&& p.draws == q.draws
                &&& p.updated_at == (if won + lost > 0 {
                    m.played_at
                } else {
                    q.updated_at
                })
            }
            &&& !v.players.contains_key(id) && (id == m.winner_id || id == m.loser_id) ==> {
                &&& p.discord_id == id
                &&& p.username.len() == 0
                &&& p.rating.mu.bits == 0x4097_7000_0000_0000
                &&& p.rating.phi.bits == 0x4075_E000_0000_0000
                &&& p.rating.sigma.bits == 0x3FAE_B851_EB85_1EB8
                &&& p.wins == won
                &&& p.losses == lost
                &&& p.draws == 0
                &&& p.updated_at == (if won + lost > 0 {
                    m.played_at
                } else {
                    Seq::empty()
                })
            }
        }),
{
}

/// Two more results fit a player's counters if their sum stays within 64 bits; those
/// of an unknown player always do.
pub proof fn room_in_the_counters(v: DbView, id: Seq<char>)
    ensures
        v.count_room(id) <==> !v.players.contains_key(id) || v.players[id].wins
            + v.players[id].losses + v.players[id].draws <= 0xFFFF_FFFF_FFFF_FFFD,
{
}

/// The match of a first post is stored with what the post says, at the time of the
/// post, and waits to be applied.
pub proof fn post_stores_what_it_says(v: DbView, m: MatchResult, now: Seq<char>)
    requires
        forall|i: int|
            0 <= i < v.matches.len() ==> (#[trigger] v.matches[i]).room_id != m.room_id@,
    ensures
        ({
            let after = v.after_post(m, now);
            let stored = after.matches.last();
            &&& after.matches.len() == v.matches.len() + 1
            &&& after.matches.drop_last() == v.matches
            &&& stored.room_id == m.room_id@
            &&& stored.winner_id == m.winner_id@
            &&& stored.loser_id == m.loser_id@
            &&& stored.winner_score == m.winner_score
            &&& stored.loser_score == m.loser_score
            &&& stored.rom_hash == m.rom_hash@
            &&& stored.played_at == now
            &&& stored.applied_at is None
            &&& after.players[m.winner_id@].updated_at == now
            &&& after.players[m.loser_id@].updated_at == now
        }),
{
    let recorded = new_match(
        m.room_id@,
        m.winner_id@,
        m.loser_id@,
        m.winner_score,
        m.loser_score,
        m.rom_hash@,
        now,
    );
    assert(v.after_post(m, now).matches == v.matches.push(recorded));
    assert(v.matches.push(recorded).drop_last() =~= v.matches);
}

/// A first post changes of the players what its result does, and their names.
pub proof fn post_counts_what_it_says(v: DbView, m: MatchResult, now: Seq<char>, id: Seq<char>)
    requires
        forall|i: int|
            0 <= i < v.matches.len() ==> (#[trigger] v.matches[i]).room_id != m.room_id@,
    ensures
        ({
            let after = v.after_post(m, now);
            let result = v.after_result(
                new_match(
                    m.room_id@,
                    m.winner_id@,
                    m.loser_id@,
                    m.winner_score,
                    m.loser_score,
                    m.rom_hash@,
                    now,
                ),
            );
            let p = after.players[id];
            let q = result.players[id];
            &&& after.players.contains_key(id) == result.players.contains_key(id)
            &&& result.players.contains_key(id) ==> {
                &&& p.discord_id == q.discord_id
                &&& p.rating == q.rating
                &&& p.wins == q.wins
                &&& p.losses == q.losses
                &&& p.draws == q.draws
                &&& p.updated_at == q.updated_at
                &&& id != m.winner_id@ && id != m.loser_id@ ==> p.username == q.username
                &&& id == m.winner_id@ && m.winner_username@.len() == 0 && id != m.loser_id@
                    ==> p.username == q.username
                &&& id == m.loser_id@ && m.loser_username@.len() == 0 && id != m.winner_id@
                    ==> p.username == q.username
                &&& id == m.loser_id@ && m.loser_username@.len() > 0 ==> p.username
                    == m.loser_username@
                &&& id == m.winner_id@ && m.winner_username@.len() > 0 && id != m.loser_id@
                    ==> p.username == m.winner_username@
            }
            &&& after.periods == v.periods
            &&& after.ghosts == v.ghosts
            &&& after.replays == v.replays
            &&& after.names == v.names
        }),
{
}

/// A later post gives a later time: of two rooms posted one after the other the second
/// comes first in a history if its time is the later one.
pub proof fn later_posts_are_later(
    v: DbView,
    first: MatchResult,
    earlier: Seq<char>,
    second: MatchResult,
    later: Seq<char>,
)
    requires
        !v.has_match(first.room_id@),
        !v.has_match(second.room_id@),
        first.room_id@ != second.room_id@,
        text_lt(earlier, later),
    ensures
        ({
            let after = v.after_post(first, earlier).after_post(second, later);
            &&& after.has_match(first.room_id@)
            &&& after.has_match(second.room_id@)
            &&& after.later(second.room_id@, first.room_id@)
        }),
{
    let one = v.after_post(first, earlier);
    post_stores_what_it_says(v, first, earlier);
    let n = v.matches.len() as int;
    assert(one.matches[n].room_id == first.room_id@);
    assert forall|i: int| 0 <= i < one.matches.len() implies (#[trigger] one.matches[i]).room_id
        != second.room_id@ by {
        if i < n {
            assert(one.matches.drop_last()[i] == v.matches[i]);
        }
    }
    post_stores_what_it_says(one, second, later);
    let two = one.after_post(second, later);
    assert(two.matches.drop_last()[n] == one.matches[n]);
    assert(two.matches[n].room_id == first.room_id@);
    assert(two.matches[n + 1].room_id == second.room_id@);
    let a = choose|i: int|
        0 <= i < two.matches.len() && (#[trigger] two.matches[i]).room_id == first.room_id@;
    if a < n {
        assert(two.matches.drop_last()[a] == one.matches[a]);
        assert(one.matches.drop_last()[a] == v.matches[a]);
    }
    let b = choose|i: int|
        0 <= i < two.matches.len() && (#[trigger] two.matches[i]).room_id == second.room_id@;
    if b <= n {
        assert(two.matches.drop_last()[b] == one.matches[b]);
    }
}

// ── Rating periods ─────────────────────────────────────────────────────────

/// The rating from before a period is the stored one, or that of a new player.
pub proof fn rating_from_before(players: Map<Seq<char>, PlayerView>, id: Seq<char>)
    ensures
        players.contains_key(id) ==> rating_before(players, id) == players[id].rating,
        !players.contains_key(id) ==> rating_before(players, id).mu.bits == 0x4097_7000_0000_0000
            && rating_before(players, id).phi.bits == 0x4075_E000_0000_0000 && rating_before(
            players,
            id,
        ).sigma.bits == 0x3FAE_B851_EB85_1EB8,
{
}

/// The outcome at the place of a player's row is the player's.
pub proof fn outcomes_go_to_their_players(db: Db, outcomes: Seq<Rating>, i: int, id: Seq<char>)
    requires
        db.wf(),
        0 <= i < db.players.rows@.len(),
    ensures
        db.outcomes_by_player(outcomes).contains_key(id) <==> db@.players.contains_key(id),
        db.outcomes_by_player(outcomes)[db.players.rows@[i].discord_id@] == outcomes[i],
{
    db.players.row_in_view(i);
    assert(db.players.rows@[i].key() == db.players.rows@[i].discord_id@);
}

/// The pending matches are those without a time at which they were applied.
pub proof fn pending_matches_are_counted(v: DbView)
    ensures
        v.pending_count() == v.matches.filter(|m: MatchView| m.applied_at is None).len(),
{
    let a = |m: MatchView| m.applied_at is None;
    let b = |m: MatchView| m.pending();
    assert(a =~= b);
}

/// A close notes its time for each match that had none, and changes nothing else of
/// any match.
pub proof fn close_marks_matches(
    v: DbView,
    outcomes: Map<Seq<char>, Rating>,
    now: Seq<char>,
    i: int,
)
    requires
        0 <= i < v.matches.len(),
    ensures
        ({
            let before = v.matches[i];
            let after = v.after_period(outcomes, now).matches[i];
            &&& v.after_period(outcomes, now).matches.len() == v.matches.len()
            &&& after.room_id == before.room_id
            &&& after.winner_id == before.winner_id
            &&& after.loser_id == before.loser_id
            &&& after.winner_score == before.winner_score
            &&& after.loser_score == before.loser_score
            &&& after.rom_hash == before.rom_hash
            &&& after.played_at == before.played_at
            &&& before.applied_at is None ==> after.applied_at == Some(now)
            &&& before.applied_at is Some ==> after.applied_at == before.applied_at
        }),
{
    assert(v.after_period(outcomes, now).matches[i] == applied(v.matches[i], now));
}

/// A player with a pending match gets the new rating and the time of the close. One
/// without keeps rating and volatility and gets the new deviation, but none above
/// 350.0; if that is the stored deviation, the row stays as it is.
pub proof fn close_rewrites_players(
    v: DbView,
    outcomes: Map<Seq<char>, Rating>,
    now: Seq<char>,
    id: Seq<char>,
)
    requires
        v.players.contains_key(id),
    ensures
        ({
            let p = v.players[id];
            let q = v.after_period(outcomes, now).players[id];
            let played = exists|i: int|
                0 <= i < v.matches.len() && (#[trigger] v.matches[i]).applied_at is None && (
                v.matches[i].winner_id == id || v.matches[i].loser_id == id);
            let phi: u64 = if 0x4075_E000_0000_0000 < outcomes[id].phi.bits
                <= 0x7FF0_0000_0000_0000 {
                0x4075_E000_0000_0000
            } else {
                outcomes[id].phi.bits
            };
            &&& q.discord_id == p.discord_id
            &&& q.username == p.username
            &&& q.wins == p.wins
            &&& q.losses == p.losses
            &&& q.draws == p.draws
            &&& played ==> q.rating == outcomes[id] && q.updated_at == now
            &&& !played ==> q.rating.mu == p.rating.mu && q.rating.sigma == p.rating.sigma
            &&& !played && (Double { bits: phi }).equals(p.rating.phi) ==> q == p
            &&& !played && !(Double { bits: phi }).equals(p.rating.phi) ==> q.rating.phi.bits == phi
                && q.updated_at == now
        }),
{
    active_means_pending_match(v, id);
    let played = exists|i: int|
        0 <= i < v.matches.len() && (#[trigger] v.matches[i]).applied_at is None && (
        v.matches[i].winner_id == id || v.matches[i].loser_id == id);
    if played {
        let i = choose|i: int|
            0 <= i < v.matches.len() && (#[trigger] v.matches[i]).applied_at is None && (
            v.matches[i].winner_id == id || v.matches[i].loser_id == id);
        assert(v.matches[i].pending() && v.matches[i].involves(id));
        assert(v.active(id));
    }
    if v.active(id) {
        let i = choose|i: int|
            0 <= i < v.matches.len() && (#[trigger] v.matches[i]).pending() && v.matches[i].involves(
                id,
            );
        assert(v.matches[i].applied_at is None);
    }
}

/// A close adds a line with its time, the number of matches that were pending and the
/// number of players that it rewrites, and leaves everything else alone.
pub proof fn close_is_noted(v: DbView, outcomes: Map<Seq<char>, Rating>, now: Seq<char>)
    ensures
        ({
            let after = v.after_period(outcomes, now);
            &&& after.periods.len() == v.periods.len() + 1
            &&& after.periods.drop_last() == v.periods
            &&& after.periods.last().closed_at == now
            &&& after.periods.last().match_count == v.matches.filter(
                |m: MatchView| m.applied_at is None,
            ).len()
            &&& after.periods.last().player_count == v.rewritten_players(outcomes).len()
            &&& after.ghosts == v.ghosts
            &&& after.replays == v.replays
            &&& after.names == v.names
            &&& after.players.dom() == v.players.dom()
        }),
{
    let after = v.after_period(outcomes, now);
    assert(after.periods.drop_last() =~= v.periods);
    assert(after.players.dom() =~= v.players.dom());
    let a = |m: MatchView| m.applied_at is None;
    let b = |m: MatchView| m.pending();
    assert(a =~= b);
}

/// A close rewrites a known player exactly if the player has a pending match or the
/// capped deviation is another number than the stored one.
pub proof fn who_is_rewritten(v: DbView, outcomes: Map<Seq<char>, Rating>, id: Seq<char>)
    ensures
        v.rewritten_players(outcomes).contains(id) <==> v.players.contains_key(id) && (v.active(id)
            || !capped(outcomes[id].phi).equals(v.players[id].rating.phi)),
        v.active(id) ==> (v.storable(id, outcomes[id]) <==> !outcomes[id].mu.is_nan()
            && !outcomes[id].phi.is_nan() && !outcomes[id].sigma.is_nan()),
        !v.active(id) ==> (v.storable(id, outcomes[id]) <==> !outcomes[id].phi.is_nan()),
{
}

// ── Names ──────────────────────────────────────────────────────────────────

/// A claim of a name that nobody holds is new, one of an own name affirms it, and one
/// of another's is refused.
pub proof fn claims_come_to(v: DbView, name: Seq<char>, owner_id: Seq<char>)
    ensures
        !v.names.contains_key(normalized(name)) ==> v.claim_outcome(name, owner_id)
            == NameClaimOutcome::Claimed,
        v.names.contains_key(normalized(name)) && v.names[normalized(name)].owner_id == owner_id
            ==> v.claim_outcome(name, owner_id) == NameClaimOutcome::Owned,
        v.names.contains_key(normalized(name)) && v.names[normalized(name)].owner_id != owner_id
            ==> v.claim_outcome(name, owner_id) == NameClaimOutcome::Taken,
{
}

/// A new claim leaves the reservations of everyone else and adds one with the spelling,
/// the owner and the time of the claim. An affirmed one changes the spelling and the
/// time of the last change. Nothing else changes.
pub proof fn claim_columns(
    v: DbView,
    name: Seq<char>,
    owner_id: Seq<char>,
    now: Seq<char>,
    norm: Seq<char>,
)
    ensures
        ({
            let after = v.after_claim(name, owner_id, now);
            let own = normalized(name);
            &&& !v.names.contains_key(own) ==> {
                &&& after.names.contains_key(norm) <==> norm == own || (v.names.contains_key(norm)
                    && v.names[norm].owner_id != owner_id)
                &&& norm != own && after.names.contains_key(norm) ==> after.names[norm]
                    == v.names[norm]
                &&& after.names[own].name_norm == own
                &&& after.names[own].name == name
                &&& after.names[own].owner_id == owner_id
                &&& after.names[own].claimed_at == now
                &&& after.names[own].updated_at == now
            }
            &&& v.names.contains_key(own) ==> after.names.contains_key(norm)
                == v.names.contains_key(norm)
            &&& v.names.contains_key(own) && norm != own && v.names.contains_key(norm)
                ==> after.names[norm] == v.names[norm]
            &&& v.names.contains_key(own) && v.names[own].owner_id == owner_id ==> {
                &&& after.names[own].name_norm == v.names[own].name_norm
                &&& after.names[own].name == name
                &&& after.names[own].owner_id == owner_id
                &&& after.names[own].claimed_at == v.names[own].claimed_at
                &&& after.names[own].updated_at == now
            }
            &&& v.names.contains_key(own) && v.names[own].owner_id != owner_id ==> after == v
            &&& after.players == v.players
            &&& after.matches == v.matches
            &&& after.periods == v.periods
        }),
{
}

/// A check says that a free name is available and nobody's, that an own one is
/// available and one's own, and that any other is neither.
pub proof fn checks_come_to(v: DbView, name: Seq<char>, asking: Option<Seq<char>>)
    ensures
        ({
            let r = v.check_outcome(name, asking);
            &&& !v.names.contains_key(normalized(name)) ==> r.available && !r.owned_by_you
            &&& v.names.contains_key(normalized(name)) && asking == Some(
                v.names[normalized(name)].owner_id,
            ) ==> r.available && r.owned_by_you
            &&& v.names.contains_key(normalized(name)) && asking != Some(
                v.names[normalized(name)].owner_id,
            ) ==> !r.available && !r.owned_by_you
        }),
{
}

// ── Uploads ────────────────────────────────────────────────────────────────

/// An upload of a ghost stores its row under its id and leaves all else as it is.
pub proof fn ghost_upload_columns(v: DbView, g: GhostView, id: Seq<char>)
    ensures
        ({
            let after = v.after_ghost(g);
            &&& after.ghosts.contains_key(id) <==> id == g.ghost_id || v.ghosts.contains_key(id)
            &&& after.ghosts[g.ghost_id] == g
            &&& id != g.ghost_id && v.ghosts.contains_key(id) ==> after.ghosts[id] == v.ghosts[id]
            &&& after.players == v.players
            &&& after.matches == v.matches
            &&& after.periods == v.periods
            &&& after.replays == v.replays
            &&& after.names == v.names
        }),
{
}

/// An upload of a replay stores its row under its id and leaves all else as it is.
pub proof fn replay_upload_columns(v: DbView, r: ReplayView, id: Seq<char>)
    ensures
        ({
            let after = v.after_replay(r);
            &&& after.replays.contains_key(id) <==> id == r.replay_id || v.replays.contains_key(id)
            &&& after.replays[r.replay_id] == r
            &&& id != r.replay_id && v.replays.contains_key(id) ==> after.replays[id]
                == v.replays[id]
            &&& after.players == v.players
            &&& after.matches == v.matches
            &&& after.periods == v.periods
            &&& after.ghosts == v.ghosts
            &&& after.names == v.names
        }),
{
}

/// A list for a ROM takes in what was uploaded for that ROM, and a list for no ROM
/// takes in everything; the later upload is the newer one.
pub proof fn what_is_listed(v: DbView, rom: Seq<char>, a: Seq<char>, b: Seq<char>)
    ensures
        v.ghost_listed(rom, a) <==> v.ghosts.contains_key(a) && (rom.len() == 0
            || v.ghosts[a].rom_hash == rom),
        v.replay_listed(rom, a) <==> v.replays.contains_key(a) && (rom.len() == 0
            || v.replays[a].rom_hash == rom),
        v.ghost_newer(a, b) <==> text_lt(v.ghosts[b].uploaded_at, v.ghosts[a].uploaded_at),
        v.replay_newer(a, b) <==> text_lt(v.replays[b].uploaded_at, v.replays[a].uploaded_at),
        asked_for(rom, a) <==> rom.len() == 0 || a == rom,
{
}

/// A known ghost is delivered from the file kept for it, compressed; without one from
/// its row, uncompressed; and with neither not at all. An unknown one never is.
pub proof fn what_is_delivered(v: DbView, id: Seq<char>, file: Seq<u8>)
    ensures
        !v.ghosts.contains_key(id) ==> v.ghost_download(id, Some(file)) is None
            && v.ghost_download(id, None) is None,
        v.ghosts.contains_key(id) ==> v.ghost_download(id, Some(file)) == Some(
            (v.ghosts[id].filename, "gzip"@, file),
        ),
        v.ghosts.contains_key(id) && v.ghosts[id].file_data.len() > 0 ==> v.ghost_download(id, None)
            == Some((v.ghosts[id].filename, "raw"@, v.ghosts[id].file_data)),
        v.ghosts.contains_key(id) && v.ghosts[id].file_data.len() == 0 ==> v.ghost_download(
            id,
            None,
        ) is None,
{
}

} // verus!
