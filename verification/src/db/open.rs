//! Taking up stored rows.

use crate::db::rows::{GhostRow, MatchRow, NameRow, PeriodRow, PlayerRow, ReplayRow};
use crate::db::Db;
use crate::table::{unique_keys, Row, Table};
use vstd::prelude::*;

verus! {

/// The rows of all tables, as they were read from storage.
pub struct StoredRows {
    pub players: Vec<PlayerRow>,
    pub matches: Vec<MatchRow>,
    pub periods: Vec<PeriodRow>,
    pub ghosts: Vec<GhostRow>,
    pub replays: Vec<ReplayRow>,
    pub names: Vec<NameRow>,
}

/// Why stored rows could not be taken up.
#[derive(Debug, Clone, Copy, PartialEq, Eq, Structural)]
pub enum OpenError {
    /// A key occurs twice, a rating is not a number, or a player's counters cannot
    /// be summed.
    Inconsistent,
}

impl StoredRows {
    /// Whether the rows can stand in the tables together.
    pub open spec fn consistent(&self) -> bool {
        &&& unique_keys(self.players@)
        &&& unique_keys(self.matches@)
        &&& unique_keys(self.ghosts@)
        &&& unique_keys(self.replays@)
        &&& unique_keys(self.names@)
        &&& forall|i: int|
            0 <= i < self.players@.len() ==> (#[trigger] self.players@[i]).rating.is_number()
                && self.players@[i]@.played() <= u64::MAX
    }
}

/// Whether all ratings are numbers and all counters can be summed.
fn players_sound(players: &Vec<PlayerRow>) -> (r: bool)
    ensures
        r == forall|i: int|
            0 <= i < players@.len() ==> (#[trigger] players@[i]).rating.is_number()
                && players@[i]@.played() <= u64::MAX,
{
    let mut n: usize = 0;
    while n < players.len()
        invariant
            n <= players.len(),
            forall|i: int|
                0 <= i < n ==> (#[trigger] players@[i]).rating.is_number() && players@[i]@.played()
                    <= u64::MAX,
        decreases players.len() - n,
    {
        let p = &players[n];
        let total: u128 = p.wins as u128 + p.losses as u128 + p.draws as u128;
        if !p.rating.numeric() || total > u64::MAX as u128 {
            assert(!(players@[n as int].rating.is_number() && players@[n as int]@.played() <= u64::MAX));
            return false;
        }
        n = n + 1;
    }
    true
}

impl Db {
    /// Take up stored rows, if they can stand in the tables together.
    pub fn open(stored: StoredRows) -> (r: Result<Db, OpenError>)
        ensures
            match r {
                Ok(db) => {
                    &&& stored.consistent()
                    &&& db.wf()
                    &&& db.players.rows@ == stored.players@
                    &&& db.matches.rows@ == stored.matches@
                    &&& db.periods@ == stored.periods@
                    &&& db.ghosts.rows@ == stored.ghosts@
                    &&& db.replays.rows@ == stored.replays@
                    &&& db.names.rows@ == stored.names@
                },
                Err(_) => !stored.consistent(),
            },
    {
        if !players_sound(&stored.players) {
            return Err(OpenError::Inconsistent);
        }
        let players = match Table::from_rows(stored.players) {
            Some(table) => table,
            None => {
                return Err(OpenError::Inconsistent);
            },
        };
        let matches = match Table::from_rows(stored.matches) {
            Some(table) => table,
            None => {
                return Err(OpenError::Inconsistent);
            },
        };
        let ghosts = match Table::from_rows(stored.ghosts) {
            Some(table) => table,
            None => {
                return Err(OpenError::Inconsistent);
            },
        };
        let replays = match Table::from_rows(stored.replays) {
            Some(table) => table,
            None => {
                return Err(OpenError::Inconsistent);
            },
        };
        let names = match Table::from_rows(stored.names) {
            Some(table) => table,
            None => {
                return Err(OpenError::Inconsistent);
            },
        };
        let db = Db { players, matches, periods: stored.periods, ghosts, replays, names };
        proof {
            let v = db@;
            assert forall|id: Seq<char>| #[trigger] v.players.contains_key(id) implies v.players[id].discord_id == id
                && v.players[id].rating.is_number() && v.players[id].played() <= u64::MAX by {
                db.players.key_in_rows(id);
            }
            assert forall|i: int, j: int| 0 <= i < j < v.matches.len() implies (#[trigger] v.matches[i]).room_id != (
            #[trigger] v.matches[j]).room_id by {
                assert(db.matches.rows@[i].key() != db.matches.rows@[j].key());
            }
            assert forall|id: Seq<char>| #[trigger] v.ghosts.contains_key(id) implies v.ghosts[id].ghost_id == id by {
                db.ghosts.key_in_rows(id);
            }
            assert forall|id: Seq<char>| #[trigger] v.replays.contains_key(id) implies v.replays[id].replay_id == id by {
                db.replays.key_in_rows(id);
            }
            assert forall|norm: Seq<char>| #[trigger] v.names.contains_key(norm) implies v.names[norm].name_norm == norm by {
                db.names.key_in_rows(norm);
            }
        }
        Ok(db)
    }
}

} // verus!
