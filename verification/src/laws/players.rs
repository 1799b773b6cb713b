//! What is read of players.

use crate::db::matches::new_match;
use crate::db::rows::MatchView;
use crate::db::DbView;
use crate::models::{MatchHistoryEntry, MatchResult};
use crate::order::is_top;
use vstd::prelude::*;

verus! {

/// Refreshing a known player's name is what a later read finds, and it touches
/// nothing else of the player and no other player.
pub proof fn renamed_player_is_found(v: DbView, id: Seq<char>, username: Seq<char>, other: Seq<char>)
    requires
        v.players.contains_key(id),
        username.len() > 0,
        other != id,
    ensures
        v.after_rename(id, username).stored_name(id) == Some(username),
        v.after_rename(id, username).players[id].rating == v.players[id].rating,
        v.after_rename(id, username).players[id].played() == v.players[id].played(),
        v.after_rename(id, username).stored_name(other) == v.stored_name(other),
{
}

/// Players without a counted result are not on the leaderboard, and every entry
/// ranks no lower than the one after it.
pub proof fn leaderboard_is_placed_and_descending(v: DbView, ids: Seq<Seq<char>>, limit: nat)
    requires
        is_top(
            ids,
            |id: Seq<char>| v.placed(id),
            |a: Seq<char>, b: Seq<char>| v.outranks(a, b),
            limit,
        ),
    ensures
        forall|i: int|
            0 <= i < ids.len() ==> v.players.contains_key(#[trigger] ids[i])
                && v.players[ids[i]].played() >= 1,
        forall|i: int, j: int|
            0 <= i < j < ids.len() ==> v.players[#[trigger] ids[i]].rating.mu.place()
                >= v.players[#[trigger] ids[j]].rating.mu.place(),
{
    let pool = |id: Seq<char>| v.placed(id);
    let precedes = |a: Seq<char>, b: Seq<char>| v.outranks(a, b);
    assert forall|i: int| 0 <= i < ids.len() implies v.players.contains_key(#[trigger] ids[i])
        && v.players[ids[i]].played() >= 1 by {
        assert(pool(ids[i]));
    }
    assert forall|i: int, j: int| 0 <= i < j < ids.len() implies v.players[#[trigger] ids[i]].rating.mu.place()
        >= v.players[#[trigger] ids[j]].rating.mu.place() by {
        assert(!precedes(ids[j], ids[i]));
    }
}

/// One match, told from both sides: a win for one and a loss for the other, with
/// the scores and the opponents exchanged.
pub proof fn history_mirrors(
    m: MatchView,
    winner_entry: MatchHistoryEntry,
    loser_entry: MatchHistoryEntry,
    loser_name: Seq<char>,
    winner_name: Seq<char>,
)
    requires
        m.winner_id != m.loser_id,
        winner_entry.tells(m, m.winner_id, loser_name),
        loser_entry.tells(m, m.loser_id, winner_name),
    ensures
        winner_entry.result@ == "win"@,
        loser_entry.result@ == "loss"@,
        winner_entry.our_score == loser_entry.opponent_score,
        winner_entry.opponent_score == loser_entry.our_score,
        winner_entry.opponent_id@ == m.loser_id,
        loser_entry.opponent_id@ == m.winner_id,
{
}

/// The first post for a room is what is read back of that room, and it stands in
/// the histories of both players.
pub proof fn posted_match_is_found(v: DbView, m: MatchView)
    requires
        !v.has_match(m.room_id),
    ensures
        v.after_result(m).match_in(m.room_id) == m,
        v.after_result(m).played_in(m.winner_id, m.room_id),
        v.after_result(m).played_in(m.loser_id, m.room_id),
{
    let after = v.after_result(m);
    let n = v.matches.len() as int;
    assert(after.matches[n] == m);
    let i = choose|i: int|
        0 <= i < after.matches.len() && (#[trigger] after.matches[i]).room_id == m.room_id;
    if i < n {
        assert(v.matches[i] == after.matches[i]);
    }
}

/// A match keeps its place in the histories when others are posted.
pub proof fn post_keeps_other_matches(v: DbView, m: MatchView, room: Seq<char>)
    requires
        v.wf(),
        v.has_match(room),
    ensures
        v.after_result(m).has_match(room),
        v.after_result(m).match_in(room) == v.match_in(room),
{
    let after = v.after_result(m);
    let i = choose|i: int| 0 <= i < v.matches.len() && (#[trigger] v.matches[i]).room_id == room;
    assert(after.matches[i] == v.matches[i]);
    let j = choose|j: int|
        0 <= j < after.matches.len() && (#[trigger] after.matches[j]).room_id == room;
    if j < v.matches.len() {
        assert(v.matches[j] == after.matches[j]);
    } else {
        assert(v.matches[i].room_id == m.room_id);
    }
}

/// A first post brings both players onto the leaderboard.
pub proof fn posted_players_are_placed(v: DbView, m: MatchView)
    requires
        !v.has_match(m.room_id),
        v.count_room(m.winner_id),
        v.count_room(m.loser_id),
    ensures
        v.after_result(m).placed(m.winner_id),
        v.after_result(m).placed(m.loser_id),
{
}

/// A player who is posted with a name is stored under it, if the room is new. Of
/// two names for one player the loser's stays.
pub proof fn posted_names_are_stored(v: DbView, m: MatchResult, now: Seq<char>)
    requires
        !v.has_match(m.room_id@),
    ensures
        m.loser_username@.len() > 0 ==> v.after_post(m, now).stored_name(m.loser_id@) == Some(
            m.loser_username@,
        ),
        m.winner_username@.len() > 0 && (m.winner_id@ != m.loser_id@ || m.loser_username@.len()
            == 0) ==> v.after_post(m, now).stored_name(m.winner_id@) == Some(m.winner_username@),
{
}

/// A post without names leaves every stored name as it is.
pub proof fn nameless_post_keeps_names(v: DbView, m: MatchResult, now: Seq<char>, id: Seq<char>)
    requires
        m.winner_username@.len() == 0,
        m.loser_username@.len() == 0,
    ensures
        v.after_post(m, now).stored_name(id) == v.stored_name(id),
{
}

/// A post for a room that has a match already changes nothing, whatever it says
/// of players, names, scores and ROM, and whenever it comes.
pub proof fn second_post_changes_nothing(v: DbView, m: MatchResult, now: Seq<char>)
    requires
        v.has_match(m.room_id@),
    ensures
        v.after_post(m, now) == v,
{
}

/// Only the first post for a room counts: once it is recorded, any later one comes
/// to nothing.
pub proof fn first_post_is_final(
    v: DbView,
    first: MatchResult,
    now: Seq<char>,
    second: MatchResult,
    later: Seq<char>,
)
    requires
        second.room_id@ == first.room_id@,
    ensures
        v.after_post(first, now).has_match(first.room_id@),
        v.after_post(first, now).after_post(second, later) == v.after_post(first, now),
{
    if !v.has_match(first.room_id@) {
        let m = new_match(
            first.room_id@,
            first.winner_id@,
            first.loser_id@,
            first.winner_score,
            first.loser_score,
            first.rom_hash@,
            now,
        );
        let n = v.matches.len() as int;
        assert(v.after_post(first, now).matches == v.after_result(m).matches);
        assert(v.after_post(first, now).matches[n].room_id == first.room_id@);
    }
}

} // verus!
