//! What is shown of a row is what stands in it, column by column.

use crate::db::rows::{
    new_player, GhostRow, GhostView, MatchRow, MatchView, NameRow, PeriodRow, PlayerRow,
    PlayerView, ReplayRow, ReplayView,
};
use crate::db::DbView;
use crate::laws::matches::{counters_true, losses_in, wins_in};
use crate::models::{
    GhostEntry, LeaderboardEntry, MatchHistoryEntry, PlayerProfile, ReplayEntry,
};
use crate::table::Row;
use vstd::prelude::*;

verus! {

/// A leaderboard entry shows the columns of the player's row.
pub proof fn leaderboard_entry_shows_the_row(e: LeaderboardEntry, p: PlayerView, rank: int)
    requires
        e.shows(p, rank),
    ensures
        e.rank == rank,
        e.discord_id@ == p.discord_id,
        e.username@ == p.username,
        e.rating == p.rating.mu,
        e.wins == p.wins,
        e.losses == p.losses,
        e.matches_played == p.wins + p.losses + p.draws,
{
}

/// In tables whose counters are true, a leaderboard entry shows how many recorded
/// matches its player won, lost and played.
pub proof fn leaderboard_entry_counts_matches(v: DbView, e: LeaderboardEntry, rank: int)
    requires
        counters_true(v),
        v.players.contains_key(e.discord_id@),
        e.shows(v.players[e.discord_id@], rank),
    ensures
        e.wins == wins_in(v.matches, e.discord_id@),
        e.losses == losses_in(v.matches, e.discord_id@),
        e.matches_played == wins_in(v.matches, e.discord_id@) + losses_in(
            v.matches,
            e.discord_id@,
        ),
{
}

/// A profile shows the columns of the player's row.
pub proof fn profile_shows_the_row(e: PlayerProfile, p: PlayerView)
    requires
        e.describes(p),
    ensures
        e.discord_id@ == p.discord_id,
        e.username@ == p.username,
        e.rating == p.rating.mu,
        e.deviation == p.rating.phi,
        e.volatility == p.rating.sigma,
        e.wins == p.wins,
        e.losses == p.losses,
        e.draws == p.draws,
        e.matches_played == p.wins + p.losses + p.draws,
{
}

/// In tables whose counters are true, a profile shows how many recorded matches its
/// player won and lost.
pub proof fn profile_counts_matches(v: DbView, e: PlayerProfile)
    requires
        counters_true(v),
        v.players.contains_key(e.discord_id@),
        e.describes(v.players[e.discord_id@]),
    ensures
        e.wins == wins_in(v.matches, e.discord_id@),
        e.losses == losses_in(v.matches, e.discord_id@),
        e.draws == 0,
{
}

/// A history entry of a player who won tells of a win, with the winner's score as
/// the player's and the loser as the opponent; any other one tells of a loss.
pub proof fn history_entry_tells_the_row(
    e: MatchHistoryEntry,
    m: MatchView,
    id: Seq<char>,
    name: Seq<char>,
)
    requires
        e.tells(m, id, name),
    ensures
        e.room_id@ == m.room_id,
        e.played_at@ == m.played_at,
        e.opponent_username@ == name,
        m.winner_id == id ==> e.result@ == "win"@ && e.our_score == m.winner_score
            && e.opponent_score == m.loser_score && e.opponent_id@ == m.loser_id,
        m.winner_id != id ==> e.result@ == "loss"@ && e.our_score == m.loser_score
            && e.opponent_score == m.winner_score && e.opponent_id@ == m.winner_id,
{
}

/// A listed ghost shows the columns of its row.
pub proof fn ghost_entry_shows_the_row(e: GhostEntry, g: GhostView)
    requires
        e.lists(g),
    ensures
        e.ghost_id@ == g.ghost_id,
        e.discord_id@ == g.discord_id,
        e.username@ == g.username,
        e.rom_hash@ == g.rom_hash,
        e.filename@ == g.filename,
        e.frame_count == g.frame_count,
        e.uploaded_at@ == g.uploaded_at,
{
}

/// A listed replay shows the columns of its row, and an empty address.
pub proof fn replay_entry_shows_the_row(e: ReplayEntry, r: ReplayView)
    requires
        e.lists(r),
    ensures
        e.replay_id@ == r.replay_id,
        e.discord_id@ == r.discord_id,
        e.username@ == r.username,
        e.rom_hash@ == r.rom_hash,
        e.filename@ == r.filename,
        e.url@ == Seq::<char>::empty(),
        e.p1_name@ == r.p1_name,
        e.p2_name@ == r.p2_name,
        e.p1_score == r.p1_score,
        e.p2_score == r.p2_score,
        e.winner@ == r.winner,
        e.frame_count == r.frame_count,
        e.duration@ == r.duration,
        e.recorded_at@ == r.recorded_at,
        e.session_id@ == r.session_id,
        e.completed_games == r.completed_games,
        e.completed_set == r.completed_set,
        e.uploaded_at@ == r.uploaded_at,
{
}

/// The value of a player row is its columns, and its key the Discord id.
pub proof fn player_row_columns(row: PlayerRow)
    ensures
        row.key() == row.discord_id@,
        row@.discord_id == row.discord_id@,
        row@.username == row.username@,
        row@.rating == row.rating,
        row@.wins == row.wins,
        row@.losses == row.losses,
        row@.draws == row.draws,
        row@.updated_at == row.updated_at@,
        row@.played() == row.wins + row.losses + row.draws,
{
}

/// A new player has played nothing and has no name.
pub proof fn new_player_columns(id: Seq<char>)
    ensures
        new_player(id).discord_id == id,
        new_player(id).username == Seq::<char>::empty(),
        new_player(id).rating.mu.bits == 0x4097_7000_0000_0000,
        new_player(id).rating.phi.bits == 0x4075_E000_0000_0000,
        new_player(id).rating.sigma.bits == 0x3FAE_B851_EB85_1EB8,
        new_player(id).wins == 0,
        new_player(id).losses == 0,
        new_player(id).draws == 0,
        new_player(id).updated_at == Seq::<char>::empty(),
{
}

/// The value of a match row is its columns, and its key the room. It is pending
/// until a time is noted at which it was applied.
pub proof fn match_row_columns(row: MatchRow, id: Seq<char>)
    ensures
        row.key() == row.room_id@,
        row@.room_id == row.room_id@,
        row@.winner_id == row.winner_id@,
        row@.loser_id == row.loser_id@,
        row@.winner_score == row.winner_score,
        row@.loser_score == row.loser_score,
        row@.rom_hash == row.rom_hash@,
        row@.played_at == row.played_at@,
        row@.pending() <==> row.applied_at is None,
        row.applied_at is None ==> row@.applied_at is None,
        row.applied_at is Some ==> row@.applied_at == Some(row.applied_at->0@),
        row@.involves(id) <==> row.winner_id@ == id || row.loser_id@ == id,
{
}

/// The value of a period row is its columns.
pub proof fn period_row_columns(row: PeriodRow)
    ensures
        row@.closed_at == row.closed_at@,
        row@.match_count == row.match_count,
        row@.player_count == row.player_count,
{
}

/// The value of a ghost row is its columns, and its key the id.
pub proof fn ghost_row_columns(row: GhostRow)
    ensures
        row.key() == row.ghost_id@,
        row@.ghost_id == row.ghost_id@,
        row@.discord_id == row.discord_id@,
        row@.username == row.username@,
        row@.rom_hash == row.rom_hash@,
        row@.filename == row.filename@,
        row@.file_data == row.file_data@,
        row@.frame_count == row.frame_count,
        row@.uploaded_at == row.uploaded_at@,
{
}

/// The value of a replay row is its columns, and its key the id.
pub proof fn replay_row_columns(row: ReplayRow)
    ensures
        row.key() == row.meta.replay_id@,
        row@.replay_id == row.meta.replay_id@,
        row@.discord_id == row.meta.discord_id@,
        row@.username == row.meta.username@,
        row@.rom_hash == row.meta.rom_hash@,
        row@.filename == row.meta.filename@,
        row@.p1_name == row.meta.p1_name@,
        row@.p2_name == row.meta.p2_name@,
        row@.p1_score == row.meta.p1_score,
        row@.p2_score == row.meta.p2_score,
        row@.winner == row.meta.winner@,
        row@.frame_count == row.meta.frame_count,
        row@.duration == row.meta.duration@,
        row@.recorded_at == row.meta.recorded_at@,
        row@.session_id == row.meta.session_id@,
        row@.completed_games == row.meta.completed_games,
        row@.completed_set == row.meta.completed_set,
        row@.uploaded_at == row.uploaded_at@,
{
}

/// The value of a reservation is its columns, and its key the normalized name.
pub proof fn name_row_columns(row: NameRow)
    ensures
        row.key() == row.name_norm@,
        row@.name_norm == row.name_norm@,
        row@.name == row.name@,
        row@.owner_id == row.owner_id@,
        row@.claimed_at == row.claimed_at@,
        row@.updated_at == row.updated_at@,
{
}

} // verus!
