//! The tables of the service and what each operation does to them.
//!
//! `Db` holds the rows; `DbView` is their mathematical value. Every operation
//! states the value after it as a function of the value before it.

pub mod history;
pub mod matches;
pub mod names;
pub mod open;
pub mod period;
pub mod players;
pub mod rows;
pub mod uploads;

pub use crate::db::names::{NameCheckOutcome, NameClaimOutcome};

use crate::db::rows::{
    GhostRow, GhostView, MatchRow, MatchView, NameRow, NameView, PeriodRow, PeriodView, PlayerRow,
    PlayerView, ReplayRow, ReplayView,
};
use crate::table::Table;
use vstd::prelude::*;

verus! {

/// All tables.
pub struct Db {
    pub players: Table<PlayerRow>,
    pub matches: Table<MatchRow>,
    pub periods: Vec<PeriodRow>,
    pub ghosts: Table<GhostRow>,
    pub replays: Table<ReplayRow>,
    pub names: Table<NameRow>,
}

/// The value of all tables. Matches and periods are in the order in which they
/// were recorded.
#[verifier::ext_equal]
pub struct DbView {
    pub players: Map<Seq<char>, PlayerView>,
    pub matches: Seq<MatchView>,
    pub periods: Seq<PeriodView>,
    pub ghosts: Map<Seq<char>, GhostView>,
    pub replays: Map<Seq<char>, ReplayView>,
    pub names: Map<Seq<char>, NameView>,
}

impl View for Db {
    type V = DbView;

    open spec fn view(&self) -> DbView {
        DbView {
            players: self.players@,
            matches: self.matches.rows@.map_values(|m: MatchRow| m@),
            periods: self.periods@.map_values(|p: PeriodRow| p@),
            ghosts: self.ghosts@,
            replays: self.replays@,
            names: self.names@,
        }
    }
}

impl DbView {
    /// No table holds anything.
    pub open spec fn empty() -> DbView {
        DbView {
            players: Map::empty(),
            matches: Seq::empty(),
            periods: Seq::empty(),
            ghosts: Map::empty(),
            replays: Map::empty(),
            names: Map::empty(),
        }
    }

    /// Whether a match was recorded for the room.
    pub open spec fn has_match(self, room: Seq<char>) -> bool {
        exists|i: int| 0 <= i < self.matches.len() && (#[trigger] self.matches[i]).room_id == room
    }

    /// What holds of the tables between any two operations: each row stands
    /// under its own key, every match was played in a room of its own, ratings
    /// are numbers, and a player's counters can be summed.
    pub open spec fn wf(self) -> bool {
        &&& forall|id: Seq<char>| #[trigger]
            self.players.contains_key(id) ==> self.players[id].discord_id == id
                && self.players[id].rating.is_number() && self.players[id].played() <= u64::MAX
        &&& forall|i: int, j: int|
            0 <= i < j < self.matches.len() ==> (#[trigger] self.matches[i]).room_id != (
            #[trigger] self.matches[j]).room_id
        &&& forall|id: Seq<char>| #[trigger]
            self.ghosts.contains_key(id) ==> self.ghosts[id].ghost_id == id
        &&& forall|id: Seq<char>| #[trigger]
            self.replays.contains_key(id) ==> self.replays[id].replay_id == id
        &&& forall|norm: Seq<char>| #[trigger]
            self.names.contains_key(norm) ==> self.names[norm].name_norm == norm
    }
}

impl Db {
    /// The tables have unique keys and a well-formed value.
    pub open spec fn wf(&self) -> bool {
        &&& self.players.wf()
        &&& self.matches.wf()
        &&& self.ghosts.wf()
        &&& self.replays.wf()
        &&& self.names.wf()
        &&& self@.wf()
    }

    /// Empty tables.
    pub fn new() -> (r: Db)
        ensures
            r.wf(),
            r@ == DbView::empty(),
    {
        let r = Db {
            players: Table::new(),
            matches: Table::new(),
            periods: Vec::new(),
            ghosts: Table::new(),
            replays: Table::new(),
            names: Table::new(),
        };
        assert(r@ =~= DbView::empty());
        r
    }
}

} // verus!
