//! The rows of the tables and their values.

use crate::glicko::{default_rating, Rating};
use crate::models::ReplayMetaInsert;
use crate::table::Row;
use vstd::prelude::*;

verus! {

/// The text of an optional column.
pub open spec fn optional_text(s: Option<String>) -> Option<Seq<char>> {
    match s {
        Some(t) => Some(t@),
        None => None,
    }
}

// ── players ────────────────────────────────────────────────────────────────

/// A player, by Discord id.
pub struct PlayerRow {
    pub discord_id: String,
    pub username: String,
    pub rating: Rating,
    pub wins: u64,
    pub losses: u64,
    pub draws: u64,
    pub updated_at: String,
}

#[verifier::ext_equal]
pub struct PlayerView {
    pub discord_id: Seq<char>,
    pub username: Seq<char>,
    pub rating: Rating,
    pub wins: u64,
    pub losses: u64,
    pub draws: u64,
    pub updated_at: Seq<char>,
}

impl PlayerView {
    /// How many results are counted for the player.
    pub open spec fn played(self) -> int {
        self.wins + self.losses + self.draws
    }
}

/// A player of whom only the id is known.
pub open spec fn new_player(id: Seq<char>) -> PlayerView {
    PlayerView {
        discord_id: id,
        username: Seq::empty(),
        rating: default_rating(),
        wins: 0,
        losses: 0,
        draws: 0,
        updated_at: Seq::empty(),
    }
}

impl View for PlayerRow {
    type V = PlayerView;

    open spec fn view(&self) -> PlayerView {
        PlayerView {
            discord_id: self.discord_id@,
            username: self.username@,
            rating: self.rating,
            wins: self.wins,
            losses: self.losses,
            draws: self.draws,
            updated_at: self.updated_at@,
        }
    }
}

impl Row for PlayerRow {
    open spec fn key(&self) -> Seq<char> {
        self.discord_id@
    }

    fn key_text(&self) -> (r: &String) {
        &self.discord_id
    }
}

impl PlayerRow {
    /// A player of whom only the id is known.
    pub fn new(discord_id: &str) -> (r: PlayerRow)
        ensures
            r@ == new_player(discord_id@),
    {
        PlayerRow {
            discord_id: discord_id.to_owned(),
            username: String::new(),
            rating: Rating::default(),
            wins: 0,
            losses: 0,
            draws: 0,
            updated_at: String::new(),
        }
    }

    /// Another row with the same values.
    pub fn copy(&self) -> (r: PlayerRow)
        ensures
            r == *self,
    {
        PlayerRow {
            discord_id: self.discord_id.clone(),
            username: self.username.clone(),
            rating: self.rating,
            wins: self.wins,
            losses: self.losses,
            draws: self.draws,
            updated_at: self.updated_at.clone(),
        }
    }
}

// ── matches ────────────────────────────────────────────────────────────────

/// A recorded match, by room. `applied_at` is the time of the rating period
/// that counted it, and is missing until then.
pub struct MatchRow {
    pub room_id: String,
    pub winner_id: String,
    pub loser_id: String,
    pub winner_score: u16,
    pub loser_score: u16,
    pub rom_hash: String,
    pub played_at: String,
    pub applied_at: Option<String>,
}

#[verifier::ext_equal]
pub struct MatchView {
    pub room_id: Seq<char>,
    pub winner_id: Seq<char>,
    pub loser_id: Seq<char>,
    pub winner_score: u16,
    pub loser_score: u16,
    pub rom_hash: Seq<char>,
    pub played_at: Seq<char>,
    pub applied_at: Option<Seq<char>>,
}

impl MatchView {
    /// Whether no rating period has counted the match yet.
    pub open spec fn pending(self) -> bool {
        self.applied_at is None
    }

    /// Whether the player took part.
    pub open spec fn involves(self, id: Seq<char>) -> bool {
        self.winner_id == id || self.loser_id == id
    }
}

impl View for MatchRow {
    type V = MatchView;

    open spec fn view(&self) -> MatchView {
        MatchView {
            room_id: self.room_id@,
            winner_id: self.winner_id@,
            loser_id: self.loser_id@,
            winner_score: self.winner_score,
            loser_score: self.loser_score,
            rom_hash: self.rom_hash@,
            played_at: self.played_at@,
            applied_at: optional_text(self.applied_at),
        }
    }
}

impl Row for MatchRow {
    open spec fn key(&self) -> Seq<char> {
        self.room_id@
    }

    fn key_text(&self) -> (r: &String) {
        &self.room_id
    }
}

impl MatchRow {
    /// Another row with the same values.
    pub fn copy(&self) -> (r: MatchRow)
        ensures
            r == *self,
    {
        MatchRow {
            room_id: self.room_id.clone(),
            winner_id: self.winner_id.clone(),
            loser_id: self.loser_id.clone(),
            winner_score: self.winner_score,
            loser_score: self.loser_score,
            rom_hash: self.rom_hash.clone(),
            played_at: self.played_at.clone(),
            applied_at: match &self.applied_at {
                Some(t) => Some(t.clone()),
                None => None,
            },
        }
    }
}

// ── rating periods ─────────────────────────────────────────────────────────

/// A closed rating period.
pub struct PeriodRow {
    pub closed_at: String,
    pub match_count: usize,
    pub player_count: usize,
}

#[verifier::ext_equal]
pub struct PeriodView {
    pub closed_at: Seq<char>,
    pub match_count: nat,
    pub player_count: nat,
}

impl View for PeriodRow {
    type V = PeriodView;

    open spec fn view(&self) -> PeriodView {
        PeriodView {
            closed_at: self.closed_at@,
            match_count: self.match_count as nat,
            player_count: self.player_count as nat,
        }
    }
}

// ── ghosts ─────────────────────────────────────────────────────────────────

/// An uploaded ghost. `file_data` holds the file of an old upload; a new one
/// is kept outside the table and has none here.
pub struct GhostRow {
    pub ghost_id: String,
    pub discord_id: String,
    pub username: String,
    pub rom_hash: String,
    pub filename: String,
    pub file_data: Vec<u8>,
    pub frame_count: u32,
    pub uploaded_at: String,
}

#[verifier::ext_equal]
pub struct GhostView {
    pub ghost_id: Seq<char>,
    pub discord_id: Seq<char>,
    pub username: Seq<char>,
    pub rom_hash: Seq<char>,
    pub filename: Seq<char>,
    pub file_data: Seq<u8>,
    pub frame_count: u32,
    pub uploaded_at: Seq<char>,
}

impl View for GhostRow {
    type V = GhostView;

    open spec fn view(&self) -> GhostView {
        GhostView {
            ghost_id: self.ghost_id@,
            discord_id: self.discord_id@,
            username: self.username@,
            rom_hash: self.rom_hash@,
            filename: self.filename@,
            file_data: self.file_data@,
            frame_count: self.frame_count,
            uploaded_at: self.uploaded_at@,
        }
    }
}

impl Row for GhostRow {
    open spec fn key(&self) -> Seq<char> {
        self.ghost_id@
    }

    fn key_text(&self) -> (r: &String) {
        &self.ghost_id
    }
}

// ── replays ────────────────────────────────────────────────────────────────

/// An uploaded match replay.
pub struct ReplayRow {
    pub meta: ReplayMetaInsert,
    pub uploaded_at: String,
}

#[verifier::ext_equal]
pub struct ReplayView {
    pub replay_id: Seq<char>,
    pub discord_id: Seq<char>,
    pub username: Seq<char>,
    pub rom_hash: Seq<char>,
    pub filename: Seq<char>,
    pub p1_name: Seq<char>,
    pub p2_name: Seq<char>,
    pub p1_score: Option<u16>,
    pub p2_score: Option<u16>,
    pub winner: Seq<char>,
    pub frame_count: u32,
    pub duration: Seq<char>,
    pub recorded_at: Seq<char>,
    pub session_id: Seq<char>,
    pub completed_games: u32,
    pub completed_set: bool,
    pub uploaded_at: Seq<char>,
}

/// A replay as it is stored at a time of upload.
pub open spec fn uploaded_replay(meta: ReplayMetaInsert, uploaded_at: Seq<char>) -> ReplayView {
    ReplayView {
        replay_id: meta.replay_id@,
        discord_id: meta.discord_id@,
        username: meta.username@,
        rom_hash: meta.rom_hash@,
        filename: meta.filename@,
        p1_name: meta.p1_name@,
        p2_name: meta.p2_name@,
        p1_score: meta.p1_score,
        p2_score: meta.p2_score,
        winner: meta.winner@,
        frame_count: meta.frame_count,
        duration: meta.duration@,
        recorded_at: meta.recorded_at@,
        session_id: meta.session_id@,
        completed_games: meta.completed_games,
        completed_set: meta.completed_set,
        uploaded_at,
    }
}

impl View for ReplayRow {
    type V = ReplayView;

    open spec fn view(&self) -> ReplayView {
        uploaded_replay(self.meta, self.uploaded_at@)
    }
}

impl Row for ReplayRow {
    open spec fn key(&self) -> Seq<char> {
        self.meta.replay_id@
    }

    fn key_text(&self) -> (r: &String) {
        &self.meta.replay_id
    }
}

// ── name registry ──────────────────────────────────────────────────────────

/// A reserved display name, by its normalized spelling.
pub struct NameRow {
    pub name_norm: String,
    pub name: String,
    pub owner_id: String,
    pub claimed_at: String,
    pub updated_at: String,
}

#[verifier::ext_equal]
pub struct NameView {
    pub name_norm: Seq<char>,
    pub name: Seq<char>,
    pub owner_id: Seq<char>,
    pub claimed_at: Seq<char>,
    pub updated_at: Seq<char>,
}

impl View for NameRow {
    type V = NameView;

    open spec fn view(&self) -> NameView {
        NameView {
            name_norm: self.name_norm@,
            name: self.name@,
            owner_id: self.owner_id@,
            claimed_at: self.claimed_at@,
            updated_at: self.updated_at@,
        }
    }
}

impl Row for NameRow {
    open spec fn key(&self) -> Seq<char> {
        self.name_norm@
    }

    fn key_text(&self) -> (r: &String) {
        &self.name_norm
    }
}

} // verus!
