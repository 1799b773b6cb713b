//! A player's recent matches.

use crate::db::rows::MatchView;
use crate::db::{Db, DbView};
use crate::models::MatchHistoryEntry;
use crate::order::{is_top, picks_are_top, top, RankKey};
use crate::table::Row;
use crate::text::text_lt;
use vstd::prelude::*;

verus! {

impl DbView {
    /// The match recorded for a room.
    pub open spec fn match_in(self, room: Seq<char>) -> MatchView {
        self.matches[choose|i: int|
            0 <= i < self.matches.len() && (#[trigger] self.matches[i]).room_id == room]
    }

    /// Whether the room's match was played by the player.
    pub open spec fn played_in(self, id: Seq<char>, room: Seq<char>) -> bool {
        self.has_match(room) && self.match_in(room).involves(id)
    }

    /// Whether one room's match was played later than another's.
    pub open spec fn later(self, a: Seq<char>, b: Seq<char>) -> bool {
        text_lt(self.match_in(b).played_at, self.match_in(a).played_at)
    }

    /// The name of a player; that of an unknown one is empty.
    pub open spec fn username_of(self, id: Seq<char>) -> Seq<char> {
        if self.players.contains_key(id) {
            self.players[id].username
        } else {
            Seq::empty()
        }
    }
}

impl Db {
    /// A match row is the match of its room.
    proof fn row_is_match(&self, i: int)
        requires
            self.wf(),
            0 <= i < self.matches.rows@.len(),
        ensures
            self@.has_match(self.matches.rows@[i].key()),
            self@.match_in(self.matches.rows@[i].key()) == self.matches.rows@[i]@,
    {
        let room = self.matches.rows@[i].key();
        assert(self@.matches[i].room_id == room);
        let j = choose|j: int|
            0 <= j < self@.matches.len() && (#[trigger] self@.matches[j]).room_id == room;
        assert(self.matches.rows@[j].key() == self.matches.rows@[i].key());
    }

    /// The name stored for a player; that of an unknown one is empty.
    fn name_or_empty(&self, id: &str) -> (r: String)
        requires
            self.wf(),
        ensures
            r@ == self@.username_of(id@),
    {
        match self.players.find(id) {
            Some(i) => self.players.rows[i].username.clone(),
            None => String::new(),
        }
    }

    /// The match of a row from the side of one player.
    fn history_entry(&self, at: usize, discord_id: &str) -> (r: MatchHistoryEntry)
        requires
            self.wf(),
            at < self.matches.rows@.len(),
        ensures
            r.tells(
                self.matches.rows@[at as int]@,
                discord_id@,
                self@.username_of(r.opponent_id@),
            ),
    {
        let m = &self.matches.rows[at];
        let id = discord_id.to_owned();
        let won = m.winner_id == id;
        let (result, our_score, opponent_score, opponent_id) = if won {
            ("win".to_owned(), m.winner_score, m.loser_score, m.loser_id.clone())
        } else {
            ("loss".to_owned(), m.loser_score, m.winner_score, m.winner_id.clone())
        };
        let opponent_username = self.name_or_empty(opponent_id.as_str());
        MatchHistoryEntry {
            room_id: m.room_id.clone(),
            opponent_id,
            opponent_username,
            result,
            our_score,
            opponent_score,
            played_at: m.played_at.clone(),
        }
    }

    /// A player's matches, the latest first, each told from the player's side.
    pub fn get_match_history(&self, discord_id: &str, limit: u32) -> (r: Vec<MatchHistoryEntry>)
        requires
            self.wf(),
        ensures
            is_top(
                Seq::new(r@.len(), |i: int| r@[i].room_id@),
                |room: Seq<char>| self@.played_in(discord_id@, room),
                |a: Seq<char>, b: Seq<char>| self@.later(a, b),
                limit as nat,
            ),
            forall|i: int|
                0 <= i < r@.len() ==> (#[trigger] r@[i]).tells(
                    self@.match_in(r@[i].room_id@),
                    discord_id@,
                    self@.username_of(r@[i].opponent_id@),
                ),
    {
        let id = discord_id.to_owned();
        let mut found: Vec<usize> = Vec::new();
        let mut keys: Vec<String> = Vec::new();
        let ghost mut rooms: Seq<Seq<char>> = Seq::empty();
        let mut n: usize = 0;
        while n < self.matches.rows.len()
            invariant
                self.wf(),
                id@ == discord_id@,
                n <= self.matches.rows.len(),
                found@.len() == keys@.len(),
                found@.len() == rooms.len(),
                found@.len() <= n,
                rooms.no_duplicates(),
                forall|i: int|
                    0 <= i < found@.len() ==> (#[trigger] found@[i]) < n
                        && rooms[i] == self.matches.rows@[found@[i] as int].key()
                        && keys@[i]@ == self.matches.rows@[found@[i] as int]@.played_at,
                forall|i: int| 0 <= i < rooms.len() ==> self@.played_in(discord_id@, #[trigger] rooms[i]),
                forall|i: int|
                    0 <= i < n && self@.played_in(discord_id@, (#[trigger] self.matches.rows@[i]).key())
                        ==> rooms.contains(self.matches.rows@[i].key()),
            decreases self.matches.rows.len() - n,
        {
            proof {
                self.row_is_match(n as int);
            }
            let m = &self.matches.rows[n];
            if m.winner_id == id || m.loser_id == id {
                found.push(n);
                keys.push(m.played_at.clone());
                proof {
                    let room = self.matches.rows@[n as int].key();
                    let before = rooms;
                    rooms = rooms.push(room);
                    assert forall|i: int| 0 <= i < before.len() implies before[i] != room by {
                        assert(self.matches.rows@[found@[i] as int].key() != self.matches.rows@[n as int].key());
                    }
                    assert(rooms[before.len() as int] == room);
                    assert forall|i: int|
                        0 <= i < n + 1 && self@.played_in(discord_id@, (#[trigger] self.matches.rows@[i]).key())
                        implies rooms.contains(self.matches.rows@[i].key()) by {
                        if i < n {
                            let j = choose|j: int| 0 <= j < before.len() && before[j] == self.matches.rows@[i].key();
                            assert(rooms[j] == self.matches.rows@[i].key());
                        }
                    }
                }
            }
            n = n + 1;
        }
        let picks = top(&keys, limit);
        let mut out: Vec<MatchHistoryEntry> = Vec::new();
        let mut k: usize = 0;
        while k < picks.len()
            invariant
                self.wf(),
                k <= picks.len(),
                out@.len() == k,
                found@.len() == keys@.len(),
                found@.len() == rooms.len(),
                forall|i: int| 0 <= i < picks@.len() ==> #[trigger] picks@[i] < keys@.len(),
                forall|i: int|
                    0 <= i < found@.len() ==> (#[trigger] found@[i]) < self.matches.rows@.len()
                        && rooms[i] == self.matches.rows@[found@[i] as int].key(),
                forall|i: int|
                    0 <= i < k ==> (#[trigger] out@[i]).room_id@ == rooms[picks@[i] as int]
                        && out@[i].tells(
                        self@.match_in(out@[i].room_id@),
                        discord_id@,
                        self@.username_of(out@[i].opponent_id@),
                    ),
            decreases picks.len() - k,
        {
            let at = found[picks[k]];
            proof {
                self.row_is_match(at as int);
            }
            out.push(self.history_entry(at, discord_id));
            k = k + 1;
        }
        proof {
            let list = Seq::new(out@.len(), |i: int| out@[i].room_id@);
            assert forall|room: Seq<char>| #[trigger] self@.played_in(discord_id@, room) implies rooms.contains(room) by {
                let i = choose|i: int|
                    0 <= i < self@.matches.len() && (#[trigger] self@.matches[i]).room_id == room;
                assert(self.matches.rows@[i].key() == room);
            }
            assert forall|i: int, j: int| 0 <= i < rooms.len() && 0 <= j < rooms.len() implies self@.later(#[trigger] rooms[i], #[trigger] rooms[j])
                == keys@[i].ahead(&keys@[j]) by {
                self.row_is_match(found@[i] as int);
                self.row_is_match(found@[j] as int);
            }
            picks_are_top(
                rooms,
                keys@,
                picks@,
                list,
                |room: Seq<char>| self@.played_in(discord_id@, room),
                |a: Seq<char>, b: Seq<char>| self@.later(a, b),
                limit as nat,
            );
        }
        out
    }
}

} // verus!
