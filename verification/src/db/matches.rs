//! Recording results.

use crate::clock::{clock_read, is_utc_time, read_clock};
use crate::db::rows::{new_player, MatchRow, MatchView, PlayerRow, PlayerView};
use crate::db::{Db, DbView};
use crate::glicko::Rating;
use vstd::prelude::*;

verus! {

/// The players once the id is known, too: a new id gets a new player.
pub open spec fn with_player(
    players: Map<Seq<char>, PlayerView>,
    id: Seq<char>,
) -> Map<Seq<char>, PlayerView> {
    if players.contains_key(id) {
        players
    } else {
        players.insert(id, new_player(id))
    }
}

/// The players once a win is counted for a known player.
pub open spec fn with_win(
    players: Map<Seq<char>, PlayerView>,
    id: Seq<char>,
    now: Seq<char>,
) -> Map<Seq<char>, PlayerView> {
    let p = players[id];
    players.insert(id, PlayerView { wins: (p.wins + 1) as u64, updated_at: now, ..p })
}

/// The players once a loss is counted for a known player.
pub open spec fn with_loss(
    players: Map<Seq<char>, PlayerView>,
    id: Seq<char>,
    now: Seq<char>,
) -> Map<Seq<char>, PlayerView> {
    let p = players[id];
    players.insert(id, PlayerView { losses: (p.losses + 1) as u64, updated_at: now, ..p })
}

/// A match that no rating period has counted yet.
pub open spec fn new_match(
    room_id: Seq<char>,
    winner_id: Seq<char>,
    loser_id: Seq<char>,
    winner_score: u16,
    loser_score: u16,
    rom_hash: Seq<char>,
    now: Seq<char>,
) -> MatchView {
    MatchView {
        room_id,
        winner_id,
        loser_id,
        winner_score,
        loser_score,
        rom_hash,
        played_at: now,
        applied_at: None,
    }
}

impl DbView {
    /// The players once both players of a match are known.
    pub open spec fn players_of_match(
        self,
        winner_id: Seq<char>,
        loser_id: Seq<char>,
    ) -> Map<Seq<char>, PlayerView> {
        with_player(with_player(self.players, winner_id), loser_id)
    }

    /// The tables after a result is posted. Both players become known. A new
    /// room's match is recorded as pending and counted for both; of a room that
    /// has a match already, nothing more is recorded.
    pub open spec fn after_result(self, m: MatchView) -> DbView {
        let players = self.players_of_match(m.winner_id, m.loser_id);
        if self.has_match(m.room_id) {
            DbView { players, ..self }
        } else {
            DbView {
                players: with_loss(
                    with_win(players, m.winner_id, m.played_at),
                    m.loser_id,
                    m.played_at,
                ),
                matches: self.matches.push(m),
                ..self
            }
        }
    }

    /// Whether two more results can be counted for a player.
    pub open spec fn count_room(self, id: Seq<char>) -> bool {
        self.players.contains_key(id) ==> self.players[id].played() + 2 <= u64::MAX
    }
}

impl Db {
    /// Whether two more results can be counted for a player.
    pub fn can_count(&self, id: &str) -> (r: bool)
        requires
            self.wf(),
        ensures
            r == self@.count_room(id@),
    {
        match self.players.find(id) {
            Some(i) => {
                let p = &self.players.rows[i];
                assert(self@.players.contains_key(id@));
                let total: u64 = p.wins + p.losses + p.draws;
                total <= u64::MAX - 2
            },
            None => true,
        }
    }

    /// Add the player if the id is new.
    fn ensure_player(&mut self, id: &str)
        requires
            old(self).wf(),
        ensures
            final(self).wf(),
            final(self)@ == (DbView { players: with_player(old(self)@.players, id@), ..old(self)@ }),
    {
        if self.players.find(id).is_none() {
            self.players.push(PlayerRow::new(id));
        }
    }

    /// Whether a match was recorded for the room.
    pub fn match_known(&self, room_id: &str) -> (r: bool)
        requires
            self.wf(),
        ensures
            r == self@.has_match(room_id@),
            r == self.matches@.contains_key(room_id@),
    {
        let found = self.matches.find(room_id);
        proof {
            match found {
                Some(i) => {
                    assert(self@.matches[i as int].room_id == room_id@);
                },
                None => {
                    if self@.has_match(room_id@) {
                        let i = choose|i: int|
                            0 <= i < self@.matches.len() && (#[trigger] self@.matches[i]).room_id
                                == room_id@;
                        self.matches.row_in_view(i);
                    }
                },
            }
        }
        found.is_some()
    }

    /// The rating of a known player.
    fn rating_of(&self, id: &str) -> (r: Rating)
        requires
            self.wf(),
            self@.players.contains_key(id@),
        ensures
            r == self@.players[id@].rating,
    {
        match self.players.find(id) {
            Some(i) => self.players.rows[i].rating,
            None => Rating::default(),
        }
    }

    /// Count a win for a known player.
    fn count_win(&mut self, id: &str, now: &str)
        requires
            old(self).wf(),
            old(self)@.players.contains_key(id@),
            old(self)@.players[id@].played() < u64::MAX,
        ensures
            final(self).wf(),
            final(self)@ == (DbView { players: with_win(old(self)@.players, id@, now@), ..old(self)@ }),
    {
        match self.players.find(id) {
            Some(i) => {
                let mut row = self.players.rows[i].copy();
                row.wins = row.wins + 1;
                row.updated_at = now.to_owned();
                self.players.set(i, row);
                assert(self@.players =~= with_win(old(self)@.players, id@, now@));
            },
            None => {},
        }
    }

    /// Count a loss for a known player.
    fn count_loss(&mut self, id: &str, now: &str)
        requires
            old(self).wf(),
            old(self)@.players.contains_key(id@),
            old(self)@.players[id@].played() < u64::MAX,
        ensures
            final(self).wf(),
            final(self)@ == (DbView { players: with_loss(old(self)@.players, id@, now@), ..old(self)@ }),
    {
        match self.players.find(id) {
            Some(i) => {
                let mut row = self.players.rows[i].copy();
                row.losses = row.losses + 1;
                row.updated_at = now.to_owned();
                self.players.set(i, row);
                assert(self@.players =~= with_loss(old(self)@.players, id@, now@));
            },
            None => {},
        }
    }

    /// Record a match result at a time. The rating update waits for the next
    /// close of a rating period; wins and losses are counted at once, unless the
    /// room's match was recorded before. Returns the current ratings of winner
    /// and loser.
    pub fn process_result_at(
        &mut self,
        winner_id: &str,
        loser_id: &str,
        winner_score: u16,
        loser_score: u16,
        room_id: &str,
        rom_hash: &str,
        now: &str,
    ) -> (r: (Rating, Rating))
        requires
            old(self).wf(),
            old(self)@.has_match(room_id@) || (old(self)@.count_room(winner_id@) && old(
                self,
            )@.count_room(loser_id@)),
        ensures
            final(self).wf(),
            final(self)@ == old(self)@.after_result(
                new_match(room_id@, winner_id@, loser_id@, winner_score, loser_score, rom_hash@, now@),
            ),
            r.0 == final(self)@.players[winner_id@].rating,
            r.1 == final(self)@.players[loser_id@].rating,
    {
        let ghost m = new_match(
            room_id@,
            winner_id@,
            loser_id@,
            winner_score,
            loser_score,
            rom_hash@,
            now@,
        );
        self.ensure_player(winner_id);
        self.ensure_player(loser_id);
        let winner_rating = self.rating_of(winner_id);
        let loser_rating = self.rating_of(loser_id);
        if !self.match_known(room_id) {
            let ghost before = *self;
            self.matches.push(
                MatchRow {
                    room_id: room_id.to_owned(),
                    winner_id: winner_id.to_owned(),
                    loser_id: loser_id.to_owned(),
                    winner_score,
                    loser_score,
                    rom_hash: rom_hash.to_owned(),
                    played_at: now.to_owned(),
                    applied_at: None,
                },
            );
            assert(self@.matches =~= before@.matches.push(m));
            self.count_win(winner_id, now);
            self.count_loss(loser_id, now);
        }
        (winner_rating, loser_rating)
    }

    /// Record a match result now.
    pub fn process_result(
        &mut self,
        winner_id: &str,
        loser_id: &str,
        winner_score: u16,
        loser_score: u16,
        room_id: &str,
        rom_hash: &str,
    ) -> (r: (Rating, Rating))
        requires
            old(self).wf(),
            old(self)@.has_match(room_id@) || (old(self)@.count_room(winner_id@) && old(
                self,
            )@.count_room(loser_id@)),
        ensures
            final(self).wf(),
            exists|now: Seq<char>|
                clock_read(now) && is_utc_time(now) && final(self)@ == #[trigger] old(self)@.after_result(
                    new_match(room_id@, winner_id@, loser_id@, winner_score, loser_score, rom_hash@, now),
                ),
            r.0 == final(self)@.players[winner_id@].rating,
            r.1 == final(self)@.players[loser_id@].rating,
    {
        let now = read_clock();
        self.process_result_at(
            winner_id,
            loser_id,
            winner_score,
            loser_score,
            room_id,
            rom_hash,
            now.as_str(),
        )
    }
}

} // verus!
