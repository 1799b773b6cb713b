//! Reading players: profiles, ratings, names and the leaderboard.

use crate::db::rows::PlayerView;
use crate::db::{Db, DbView};
use crate::double::Double;
use crate::glicko::Rating;
use crate::models::{LeaderboardEntry, PlayerProfile};
use crate::order::{is_top, picks_are_top, top, RankKey};
use crate::table::Row;
use vstd::prelude::*;

verus! {

/// How many counted results bring a player onto the leaderboard.
pub const MIN_PLACEMENT_MATCHES: u64 = 1;

/// Why a player could not be read.
#[derive(Debug, Clone, Copy, PartialEq, Eq, Structural)]
pub enum DbError {
    /// There is no such player.
    UnknownPlayer,
}

impl DbView {
    /// Whether the player has played enough to be on the leaderboard.
    pub open spec fn placed(self, id: Seq<char>) -> bool {
        self.players.contains_key(id) && self.players[id].played() >= MIN_PLACEMENT_MATCHES
    }

    /// Whether one player has a higher rating than another.
    pub open spec fn outranks(self, a: Seq<char>, b: Seq<char>) -> bool {
        self.players[a].rating.mu.place() > self.players[b].rating.mu.place()
    }

    /// The tables after a known player's name is refreshed; an unknown player
    /// stays unknown.
    pub open spec fn after_rename(self, id: Seq<char>, username: Seq<char>) -> DbView {
        if self.players.contains_key(id) {
            DbView {
                players: self.players.insert(
                    id,
                    PlayerView { username, ..self.players[id] },
                ),
                ..self
            }
        } else {
            self
        }
    }

    /// The name stored for a player, if there is one.
    pub open spec fn stored_name(self, id: Seq<char>) -> Option<Seq<char>> {
        if self.players.contains_key(id) && self.players[id].username.len() > 0 {
            Some(self.players[id].username)
        } else {
            None
        }
    }
}

impl Db {
    /// How many results are counted for the player of a row.
    fn played_at_row(&self, i: usize) -> (r: u64)
        requires
            self.wf(),
            i < self.players.rows@.len(),
        ensures
            r == self.players.rows@[i as int]@.played(),
    {
        proof {
            self.players.row_in_view(i as int);
            assert(self@.players.contains_key(self.players.rows@[i as int].key()));
        }
        let p = &self.players.rows[i];
        p.wins + p.losses + p.draws
    }

    /// A player's profile, if the player is known.
    pub fn get_player(&self, discord_id: &str) -> (r: Option<PlayerProfile>)
        requires
            self.wf(),
        ensures
            match r {
                Some(profile) => self@.players.contains_key(discord_id@) && profile.describes(
                    self@.players[discord_id@],
                ),
                None => !self@.players.contains_key(discord_id@),
            },
    {
        match self.players.find(discord_id) {
            Some(i) => {
                let matches_played = self.played_at_row(i);
                let p = &self.players.rows[i];
                Some(
                    PlayerProfile {
                        discord_id: p.discord_id.clone(),
                        username: p.username.clone(),
                        rating: p.rating.mu,
                        deviation: p.rating.phi,
                        volatility: p.rating.sigma,
                        wins: p.wins,
                        losses: p.losses,
                        draws: p.draws,
                        matches_played,
                    },
                )
            },
            None => None,
        }
    }

    /// A player's rating as of the last closed period.
    pub fn get_rating(&self, discord_id: &str) -> (r: Result<Rating, DbError>)
        requires
            self.wf(),
        ensures
            r == (if self@.players.contains_key(discord_id@) {
                Ok::<Rating, DbError>(self@.players[discord_id@].rating)
            } else {
                Err(DbError::UnknownPlayer)
            }),
    {
        match self.players.find(discord_id) {
            Some(i) => Ok(self.players.rows[i].rating),
            None => Err(DbError::UnknownPlayer),
        }
    }

    /// The name stored for a player, if it is not empty.
    pub fn get_username(&self, discord_id: &str) -> (r: Option<String>)
        requires
            self.wf(),
        ensures
            match r {
                Some(name) => self@.stored_name(discord_id@) == Some(name@),
                None => self@.stored_name(discord_id@) is None,
            },
    {
        match self.players.find(discord_id) {
            Some(i) => {
                let p = &self.players.rows[i];
                if p.username.as_str().is_empty() {
                    None
                } else {
                    Some(p.username.clone())
                }
            },
            None => None,
        }
    }

    /// Refresh the stored name of a known player.
    pub fn update_username(&mut self, discord_id: &str, username: &str)
        requires
            old(self).wf(),
        ensures
            final(self).wf(),
            final(self)@ == old(self)@.after_rename(discord_id@, username@),
    {
        match self.players.find(discord_id) {
            Some(i) => {
                let mut row = self.players.rows[i].copy();
                row.username = username.to_owned();
                self.players.set(i, row);
                assert(old(self)@.players.contains_key(discord_id@));
                assert(self@.matches == old(self)@.matches);
            },
            None => {},
        }
    }

    /// The placed players with the highest ratings, best first and numbered
    /// from one.
    pub fn get_leaderboard(&self, limit: u32) -> (r: Vec<LeaderboardEntry>)
        requires
            self.wf(),
        ensures
            is_top(
                Seq::new(r@.len(), |i: int| r@[i].discord_id@),
                |id: Seq<char>| self@.placed(id),
                |a: Seq<char>, b: Seq<char>| self@.outranks(a, b),
                limit as nat,
            ),
            forall|i: int|
                0 <= i < r@.len() ==> (#[trigger] r@[i]).shows(
                    self@.players[r@[i].discord_id@],
                    i + 1,
                ),
    {
        let mut found: Vec<usize> = Vec::new();
        let mut keys: Vec<Double> = Vec::new();
        let ghost mut ids: Seq<Seq<char>> = Seq::empty();
        let mut n: usize = 0;
        while n < self.players.rows.len()
            invariant
                self.wf(),
                n <= self.players.rows.len(),
                found@.len() == keys@.len(),
                found@.len() == ids.len(),
                found@.len() <= n,
                ids.no_duplicates(),
                forall|i: int|
                    0 <= i < found@.len() ==> (#[trigger] found@[i]) < n
                        && ids[i] == self.players.rows@[found@[i] as int].key()
                        && keys@[i] == self.players.rows@[found@[i] as int].rating.mu,
                forall|i: int| 0 <= i < ids.len() ==> self@.placed(#[trigger] ids[i]),
                forall|i: int|
                    0 <= i < n && self@.placed((#[trigger] self.players.rows@[i]).key())
                        ==> ids.contains(self.players.rows@[i].key()),
            decreases self.players.rows.len() - n,
        {
            proof {
                self.players.row_in_view(n as int);
            }
            let ghost id = self.players.rows@[n as int].key();
            if self.played_at_row(n) >= MIN_PLACEMENT_MATCHES {
                found.push(n);
                keys.push(self.players.rows[n].rating.mu);
                proof {
                    let before = ids;
                    ids = ids.push(id);
                    assert forall|i: int| 0 <= i < before.len() implies before[i] != id by {
                        assert(self.players.rows@[found@[i] as int].key() != self.players.rows@[n as int].key());
                    }
                    assert(ids[before.len() as int] == id);
                    assert forall|i: int|
                        0 <= i < n + 1 && self@.placed((#[trigger] self.players.rows@[i]).key())
                        implies ids.contains(self.players.rows@[i].key()) by {
                        if i < n {
                            let j = choose|j: int| 0 <= j < before.len() && before[j] == self.players.rows@[i].key();
                            assert(ids[j] == self.players.rows@[i].key());
                        }
                    }
                }
            }
            n = n + 1;
        }
        let picks = top(&keys, limit);
        let mut out: Vec<LeaderboardEntry> = Vec::new();
        let mut k: usize = 0;
        while k < picks.len()
            invariant
                self.wf(),
                k <= picks.len(),
                out@.len() == k,
                found@.len() == keys@.len(),
                found@.len() == ids.len(),
                forall|i: int| 0 <= i < picks@.len() ==> #[trigger] picks@[i] < keys@.len(),
                forall|i: int|
                    0 <= i < found@.len() ==> (#[trigger] found@[i]) < self.players.rows@.len()
                        && ids[i] == self.players.rows@[found@[i] as int].key(),
                forall|i: int|
                    0 <= i < k ==> (#[trigger] out@[i]).discord_id@ == ids[picks@[i] as int]
                        && out@[i].shows(self@.players[out@[i].discord_id@], i + 1),
            decreases picks.len() - k,
        {
            let at = found[picks[k]];
            proof {
                self.players.row_in_view(at as int);
            }
            let matches_played = self.played_at_row(at);
            let p = &self.players.rows[at];
            out.push(
                LeaderboardEntry {
                    rank: (k + 1) as u64,
                    discord_id: p.discord_id.clone(),
                    username: p.username.clone(),
                    rating: p.rating.mu,
                    wins: p.wins,
                    losses: p.losses,
                    matches_played,
                },
            );
            k = k + 1;
        }
        proof {
            let list = Seq::new(out@.len(), |i: int| out@[i].discord_id@);
            assert forall|id: Seq<char>| #[trigger] self@.placed(id) implies ids.contains(id) by {
                self.players.key_in_rows(id);
                assert(self.players.rows@[self.players.position(id)].key() == id);
            }
            assert forall|i: int, j: int| 0 <= i < ids.len() && 0 <= j < ids.len() implies self@.outranks(#[trigger] ids[i], #[trigger] ids[j])
                == keys@[i].ahead(&keys@[j]) by {
                self.players.row_in_view(found@[i] as int);
                self.players.row_in_view(found@[j] as int);
            }
            picks_are_top(
                ids,
                keys@,
                picks@,
                list,
                |id: Seq<char>| self@.placed(id),
                |a: Seq<char>, b: Seq<char>| self@.outranks(a, b),
                limit as nat,
            );
        }
        out
    }
}

} // verus!
