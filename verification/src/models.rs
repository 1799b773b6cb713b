//! What comes in from the signaling server and what goes out to clients.

use crate::db::rows::{GhostView, MatchView, PlayerView, ReplayView};
use crate::double::Double;
use vstd::prelude::*;

verus! {

// ── Inbound from the signaling server ──────────────────────────────────────

/// A finished match. The usernames may be empty.
#[derive(Debug, Clone)]
pub struct MatchResult {
    pub room_id: String,
    pub winner_id: String,
    pub loser_id: String,
    pub winner_score: u16,
    pub loser_score: u16,
    pub rom_hash: String,
    pub winner_username: String,
    pub loser_username: String,
}

// ── Responses ──────────────────────────────────────────────────────────────

#[derive(Debug, Clone)]
pub struct PlayerProfile {
    pub discord_id: String,
    pub username: String,
    pub rating: Double,
    pub deviation: Double,
    pub volatility: Double,
    pub wins: u64,
    pub losses: u64,
    pub draws: u64,
    pub matches_played: u64,
}

impl PlayerProfile {
    /// Whether the profile is that of the player.
    pub open spec fn describes(&self, p: PlayerView) -> bool {
        &&& self.discord_id@ == p.discord_id
        &&& self.username@ == p.username
        &&& self.rating == p.rating.mu
        &&& self.deviation == p.rating.phi
        &&& self.volatility == p.rating.sigma
        &&& self.wins == p.wins
        &&& self.losses == p.losses
        &&& self.draws == p.draws
        &&& self.matches_played == p.played()
    }
}

#[derive(Debug, Clone)]
pub struct LeaderboardEntry {
    pub rank: u64,
    pub discord_id: String,
    pub username: String,
    pub rating: Double,
    pub wins: u64,
    pub losses: u64,
    pub matches_played: u64,
}

impl LeaderboardEntry {
    /// Whether the entry shows the player at a rank.
    pub open spec fn shows(&self, p: PlayerView, rank: int) -> bool {
        &&& self.rank == rank
        &&& self.discord_id@ == p.discord_id
        &&& self.username@ == p.username
        &&& self.rating == p.rating.mu
        &&& self.wins == p.wins
        &&& self.losses == p.losses
        &&& self.matches_played == p.played()
    }
}

#[derive(Debug, Clone)]
pub struct MatchHistoryEntry {
    pub room_id: String,
    pub opponent_id: String,
    pub opponent_username: String,
    pub result: String,
    pub our_score: u16,
    pub opponent_score: u16,
    pub played_at: String,
}

impl MatchHistoryEntry {
    /// Whether the entry tells of the match from the side of one player, given
    /// the name under which the opponent is known.
    pub open spec fn tells(&self, m: MatchView, id: Seq<char>, opponent_username: Seq<char>) -> bool {
        let won = m.winner_id == id;
        &&& self.room_id@ == m.room_id
        &&& self.opponent_id@ == (if won { m.loser_id } else { m.winner_id })
        &&& self.opponent_username@ == opponent_username
        &&& self.result@ == (if won { "win"@ } else { "loss"@ })
        &&& self.our_score == (if won { m.winner_score } else { m.loser_score })
        &&& self.opponent_score == (if won { m.loser_score } else { m.winner_score })
        &&& self.played_at@ == m.played_at
    }
}

#[derive(Debug, Clone)]
pub struct LeaderboardResponse {
    pub entries: Vec<LeaderboardEntry>,
}

#[derive(Debug, Clone)]
pub struct HistoryResponse {
    pub matches: Vec<MatchHistoryEntry>,
}

// ── Ghost files ────────────────────────────────────────────────────────────

#[derive(Debug, Clone)]
pub struct GhostEntry {
    pub ghost_id: String,
    pub discord_id: String,
    pub username: String,
    pub rom_hash: String,
    pub filename: String,
    pub frame_count: u32,
    pub uploaded_at: String,
}

impl GhostEntry {
    /// Whether the entry lists the ghost.
    pub open spec fn lists(&self, g: GhostView) -> bool {
        &&& self.ghost_id@ == g.ghost_id
        &&& self.discord_id@ == g.discord_id
        &&& self.username@ == g.username
        &&& self.rom_hash@ == g.rom_hash
        &&& self.filename@ == g.filename
        &&& self.frame_count == g.frame_count
        &&& self.uploaded_at@ == g.uploaded_at
    }
}

#[derive(Debug, Clone)]
pub struct GhostListResponse {
    pub ghosts: Vec<GhostEntry>,
}

/// Which ghosts to list: those of one ROM, or of all if the hash is empty.
#[derive(Debug, Clone)]
pub struct GhostListQuery {
    pub rom_hash: String,
    pub limit: u32,
}

/// How many ghosts are listed when the client does not say.
pub fn default_ghost_limit() -> (r: u32)
    ensures
        r == 50,
{
    50
}

// ── Full match replays ─────────────────────────────────────────────────────

#[derive(Debug, Clone)]
pub struct ReplayEntry {
    pub replay_id: String,
    pub discord_id: String,
    pub username: String,
    pub rom_hash: String,
    pub filename: String,
    pub url: String,
    pub p1_name: String,
    pub p2_name: String,
    pub p1_score: Option<u16>,
    pub p2_score: Option<u16>,
    pub winner: String,
    pub frame_count: u32,
    pub duration: String,
    pub recorded_at: String,
    pub session_id: String,
    pub completed_games: u32,
    pub completed_set: bool,
    pub uploaded_at: String,
}

impl ReplayEntry {
    /// Whether the entry lists the replay; its address is filled in later.
    pub open spec fn lists(&self, v: ReplayView) -> bool {
        &&& self.replay_id@ == v.replay_id
        &&& self.discord_id@ == v.discord_id
        &&& self.username@ == v.username
        &&& self.rom_hash@ == v.rom_hash
        &&& self.filename@ == v.filename
        &&& self.url@.len() == 0
        &&& self.p1_name@ == v.p1_name
        &&& self.p2_name@ == v.p2_name
        &&& self.p1_score == v.p1_score
        &&& self.p2_score == v.p2_score
        &&& self.winner@ == v.winner
        &&& self.frame_count == v.frame_count
        &&& self.duration@ == v.duration
        &&& self.recorded_at@ == v.recorded_at
        &&& self.session_id@ == v.session_id
        &&& self.completed_games == v.completed_games
        &&& self.completed_set == v.completed_set
        &&& self.uploaded_at@ == v.uploaded_at
    }
}

#[derive(Debug, Clone)]
pub struct ReplayListResponse {
    pub replays: Vec<ReplayEntry>,
}

/// Which replays to list: those of one ROM, or of all if the hash is empty.
#[derive(Debug, Clone)]
pub struct ReplayListQuery {
    pub rom_hash: String,
    pub limit: u32,
}

/// What a client says of a replay that it uploads.
#[derive(Debug, Clone)]
pub struct ReplayMetaInsert {
    pub replay_id: String,
    pub discord_id: String,
    pub username: String,
    pub rom_hash: String,
    pub filename: String,
    pub p1_name: String,
    pub p2_name: String,
    pub p1_score: Option<u16>,
    pub p2_score: Option<u16>,
    pub winner: String,
    pub frame_count: u32,
    pub duration: String,
    pub recorded_at: String,
    pub session_id: String,
    pub completed_games: u32,
    pub completed_set: bool,
}

impl ReplayMetaInsert {
    /// The same once more.
    pub fn copy(&self) -> (r: ReplayMetaInsert)
        ensures
            r == *self,
    {
        ReplayMetaInsert {
            replay_id: self.replay_id.clone(),
            discord_id: self.discord_id.clone(),
            username: self.username.clone(),
            rom_hash: self.rom_hash.clone(),
            filename: self.filename.clone(),
            p1_name: self.p1_name.clone(),
            p2_name: self.p2_name.clone(),
            p1_score: self.p1_score,
            p2_score: self.p2_score,
            winner: self.winner.clone(),
            frame_count: self.frame_count,
            duration: self.duration.clone(),
            recorded_at: self.recorded_at.clone(),
            session_id: self.session_id.clone(),
            completed_games: self.completed_games,
            completed_set: self.completed_set,
        }
    }
}

/// How many replays are listed when the client does not say.
pub fn default_replay_limit() -> (r: u32)
    ensures
        r == 50,
{
    50
}

} // verus!
