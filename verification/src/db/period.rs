//! Closing a rating period.
//!
//! A period is closed in two steps. `rating_period_plan` lists every player
//! with the results that the pending matches hold for the player. The rating
//! formula turns each of them into a new rating: an update from the results, or
//! an inflated deviation if there are none. `close_rating_period` takes those
//! ratings, stores what changes and marks the matches as applied.

use crate::clock::{clock_read, is_utc_time, read_clock};
use crate::db::rows::{MatchRow, MatchView, PeriodRow, PeriodView, PlayerRow, PlayerView};
use crate::db::{Db, DbView};
use crate::double::Double;
use crate::glicko::{
    cap_deviation, capped, default_rating, loss_against, win_against, PeriodResult, Rating,
    LOSS_SCORE, WIN_SCORE,
};
use crate::table::Row;
use vstd::prelude::*;

verus! {

/// Why a period could not be closed.
#[derive(Debug, Clone, Copy, PartialEq, Eq, Structural)]
pub enum PeriodError {
    /// A value to be stored is not a number.
    NotANumber,
}

/// A player at the close of a period: the rating from before it, and the
/// results within it.
pub struct PlayerPeriod {
    pub discord_id: String,
    pub rating: Rating,
    pub results: Vec<PeriodResult>,
}

/// The rating of a player from before the period.
pub open spec fn rating_before(players: Map<Seq<char>, PlayerView>, id: Seq<char>) -> Rating {
    if players.contains_key(id) {
        players[id].rating
    } else {
        default_rating()
    }
}

/// What the pending matches hold for a player: for each of them in turn a win
/// if the player won it, and a loss if the player lost it.
pub open spec fn results_of(
    matches: Seq<MatchView>,
    players: Map<Seq<char>, PlayerView>,
    id: Seq<char>,
) -> Seq<PeriodResult>
    decreases matches.len(),
{
    if matches.len() == 0 {
        Seq::empty()
    } else {
        let m = matches.last();
        let earlier = results_of(matches.drop_last(), players, id);
        if !m.pending() {
            earlier
        } else {
            let won = if m.winner_id == id {
                earlier.push(win_against(rating_before(players, m.loser_id)))
            } else {
                earlier
            };
            if m.loser_id == id {
                won.push(loss_against(rating_before(players, m.winner_id)))
            } else {
                won
            }
        }
    }
}

/// A match once the period is closed.
pub open spec fn applied(m: MatchView, now: Seq<char>) -> MatchView {
    if m.pending() {
        MatchView { applied_at: Some(now), ..m }
    } else {
        m
    }
}

impl DbView {
    /// Whether a pending match was played by the player.
    pub open spec fn active(self, id: Seq<char>) -> bool {
        results_of(self.matches, self.players, id).len() > 0
    }

    /// How many matches are pending.
    pub open spec fn pending_count(self) -> nat {
        self.matches.filter(|m: MatchView| m.pending()).len()
    }

    /// Whether the rating formula's outcome for a player changes what is stored:
    /// always for an active player, and for an inactive one if the capped
    /// deviation differs from the stored one.
    pub open spec fn rewritten(self, id: Seq<char>, outcome: Rating) -> bool {
        self.active(id) || !capped(outcome.phi).equals(self.players[id].rating.phi)
    }

    /// Whether what the outcome would store for a player are numbers.
    pub open spec fn storable(self, id: Seq<char>, outcome: Rating) -> bool {
        if self.active(id) {
            outcome.is_number()
        } else {
            !capped(outcome.phi).is_nan()
        }
    }

    /// A player once the period is closed. An active player has the new rating;
    /// an inactive one keeps all but the deviation.
    pub open spec fn player_after(self, id: Seq<char>, outcome: Rating, now: Seq<char>) -> PlayerView {
        let p = self.players[id];
        if self.active(id) {
            PlayerView { rating: outcome, updated_at: now, ..p }
        } else if self.rewritten(id, outcome) {
            PlayerView {
                rating: Rating { phi: capped(outcome.phi), ..p.rating },
                updated_at: now,
                ..p
            }
        } else {
            p
        }
    }

    /// The players that a close of the period rewrites.
    pub open spec fn rewritten_players(self, outcomes: Map<Seq<char>, Rating>) -> Set<Seq<char>> {
        Set::new(|id: Seq<char>| self.players.contains_key(id) && self.rewritten(id, outcomes[id]))
    }

    /// The tables after the period is closed with the given outcomes.
    pub open spec fn after_period(
        self,
        outcomes: Map<Seq<char>, Rating>,
        now: Seq<char>,
    ) -> DbView {
        DbView {
            players: Map::new(
                |id: Seq<char>| self.players.contains_key(id),
                |id: Seq<char>| self.player_after(id, outcomes[id], now),
            ),
            matches: self.matches.map_values(|m: MatchView| applied(m, now)),
            periods: self.periods.push(
                PeriodView {
                    closed_at: now,
                    match_count: self.pending_count(),
                    player_count: self.rewritten_players(outcomes).len(),
                },
            ),
            ..self
        }
    }
}

impl Db {
    /// Outcomes in the order of the player rows, by player.
    pub open spec fn outcomes_by_player(&self, outcomes: Seq<Rating>) -> Map<Seq<char>, Rating> {
        Map::new(
            |id: Seq<char>| self.players.holds(id),
            |id: Seq<char>| outcomes[self.players.position(id)],
        )
    }

    /// The rating of a player, or that of a new one if the player is unknown.
    fn rating_or_default(&self, id: &str) -> (r: Rating)
        requires
            self.wf(),
        ensures
            r == rating_before(self@.players, id@),
    {
        match self.players.find(id) {
            Some(i) => self.players.rows[i].rating,
            None => Rating::default(),
        }
    }

    /// What the pending matches hold for each player, in the order of the rows.
    fn period_results(&self) -> (r: Vec<Vec<PeriodResult>>)
        requires
            self.wf(),
        ensures
            r@.len() == self.players.rows@.len(),
            forall|i: int|
                0 <= i < r@.len() ==> (#[trigger] r@[i])@ == results_of(
                    self@.matches,
                    self@.players,
                    self.players.rows@[i].key(),
                ),
    {
        let mut buckets: Vec<Vec<PeriodResult>> = Vec::new();
        let mut k: usize = 0;
        while k < self.players.rows.len()
            invariant
                k <= self.players.rows.len(),
                buckets@.len() == k,
                forall|i: int| 0 <= i < k ==> (#[trigger] buckets@[i])@.len() == 0,
            decreases self.players.rows.len() - k,
        {
            buckets.push(Vec::new());
            k = k + 1;
        }
        let mut n: usize = 0;
        assert(self@.matches.take(0).len() == 0);
        while n < self.matches.rows.len()
            invariant
                self.wf(),
                n <= self.matches.rows.len(),
                buckets@.len() == self.players.rows@.len(),
                forall|i: int|
                    0 <= i < buckets@.len() ==> (#[trigger] buckets@[i])@ == results_of(
                        self@.matches.take(n as int),
                        self@.players,
                        self.players.rows@[i].key(),
                    ),
            decreases self.matches.rows.len() - n,
        {
            let m = &self.matches.rows[n];
            proof {
                assert(self@.matches.take(n + 1).drop_last() =~= self@.matches.take(n as int));
                assert(self@.matches.take(n + 1).last() == m@);
                assert(self@.matches[n as int] == m@);
                assert forall|i: int| 0 <= i < self.players.rows@.len() implies self.players.position(
                    (#[trigger] self.players.rows@[i]).key(),
                ) == i && self@.players.contains_key(self.players.rows@[i].key()) by {
                    self.players.row_in_view(i);
                }
            }
            if m.applied_at.is_none() {
                let winner = self.rating_or_default(m.winner_id.as_str());
                let loser = self.rating_or_default(m.loser_id.as_str());
                match self.players.find(m.winner_id.as_str()) {
                    Some(w) => {
                        buckets[w].push(
                            PeriodResult {
                                opponent_mu: loser.mu,
                                opponent_phi: loser.phi,
                                score: Double { bits: WIN_SCORE },
                            },
                        );
                    },
                    None => {},
                }
                match self.players.find(m.loser_id.as_str()) {
                    Some(l) => {
                        buckets[l].push(
                            PeriodResult {
                                opponent_mu: winner.mu,
                                opponent_phi: winner.phi,
                                score: Double { bits: LOSS_SCORE },
                            },
                        );
                    },
                    None => {},
                }
            }
            n = n + 1;
        }
        assert(self@.matches.take(n as int) =~= self@.matches);
        buckets
    }

    /// Every player, in the order of the rows, with the rating from before the
    /// period and the results of the pending matches.
    pub fn rating_period_plan(&self) -> (r: Vec<PlayerPeriod>)
        requires
            self.wf(),
        ensures
            r@.len() == self.players.rows@.len(),
            forall|i: int|
                0 <= i < r@.len() ==> (#[trigger] r@[i]).discord_id@ == self.players.rows@[i].key()
                    && r@[i].rating == self@.players[r@[i].discord_id@].rating && r@[i].results@
                    == results_of(self@.matches, self@.players, r@[i].discord_id@),
    {
        let mut buckets = self.period_results();
        let mut out: Vec<PlayerPeriod> = Vec::new();
        let mut n: usize = 0;
        while n < self.players.rows.len()
            invariant
                self.wf(),
                n <= self.players.rows.len(),
                buckets@.len() == self.players.rows@.len(),
                forall|i: int|
                    n <= i < buckets@.len() ==> (#[trigger] buckets@[i])@ == results_of(
                        self@.matches,
                        self@.players,
                        self.players.rows@[i].key(),
                    ),
                out@.len() == n,
                forall|i: int|
                    0 <= i < n ==> (#[trigger] out@[i]).discord_id@ == self.players.rows@[i].key()
                        && out@[i].rating == self@.players[out@[i].discord_id@].rating
                        && out@[i].results@ == results_of(
                        self@.matches,
                        self@.players,
                        out@[i].discord_id@,
                    ),
            decreases self.players.rows.len() - n,
        {
            proof {
                self.players.row_in_view(n as int);
            }
            let p = &self.players.rows[n];
            let mut results: Vec<PeriodResult> = Vec::new();
            std::mem::swap(&mut results, &mut buckets[n]);
            out.push(
                PlayerPeriod { discord_id: p.discord_id.clone(), rating: p.rating, results },
            );
            n = n + 1;
        }
        out
    }

    /// The row of a player once the period is closed, if it is rewritten, or the
    /// reason why it cannot be.
    fn player_row_after(&self, i: usize, active: bool, outcome: Rating, now: &str) -> (r: Result<
        Option<PlayerRow>,
        PeriodError,
    >)
        requires
            self.wf(),
            i < self.players.rows@.len(),
            active == self@.active(self.players.rows@[i as int].key()),
        ensures
            ({
                let id = self.players.rows@[i as int].key();
                match r {
                    Ok(Some(row)) => {
                        &&& self@.storable(id, outcome)
                        &&& self@.rewritten(id, outcome)
                        &&& row@ == self@.player_after(id, outcome, now@)
                    },
                    Ok(None) => {
                        &&& self@.storable(id, outcome)
                        &&& !self@.rewritten(id, outcome)
                    },
                    Err(_) => !self@.storable(id, outcome),
                }
            }),
    {
        proof {
            self.players.row_in_view(i as int);
        }
        let p = &self.players.rows[i];
        if active {
            if !outcome.numeric() {
                return Err(PeriodError::NotANumber);
            }
            let mut row = p.copy();
            row.rating = outcome;
            row.updated_at = now.to_owned();
            Ok(Some(row))
        } else {
            let phi = cap_deviation(outcome.phi);
            if phi.not_a_number() {
                return Err(PeriodError::NotANumber);
            }
            if phi.equal_to(p.rating.phi) {
                Ok(None)
            } else {
                let mut row = p.copy();
                row.rating = Rating { mu: p.rating.mu, phi, sigma: p.rating.sigma };
                row.updated_at = now.to_owned();
                Ok(Some(row))
            }
        }
    }

    /// Whether the outcome for a row can be stored and leaves the player with the
    /// given value.
    spec fn settles(&self, i: int, outcome: Rating, now: Seq<char>, p: PlayerView) -> bool {
        let id = self.players.rows@[i].key();
        self@.storable(id, outcome) && p == self@.player_after(id, outcome, now)
    }

    /// All player rows once the period is closed, and how many of them are
    /// rewritten.
    fn player_rows_after(&self, outcomes: &Vec<Rating>, now: &str) -> (r: Result<
        (Vec<PlayerRow>, usize),
        PeriodError,
    >)
        requires
            self.wf(),
            outcomes@.len() == self.players.rows@.len(),
        ensures
            match r {
                Ok((rows, count)) => {
                    &&& rows@.len() == self.players.rows@.len()
                    &&& forall|i: int|
                        0 <= i < rows@.len() ==> self.settles(
                            i,
                            outcomes@[i],
                            now@,
                            (#[trigger] rows@[i])@,
                        )
                    &&& count == self@.rewritten_players(self.outcomes_by_player(outcomes@)).len()
                },
                Err(_) => exists|i: int|
                    0 <= i < outcomes@.len() && !self@.storable(
                        self.players.rows@[i].key(),
                        #[trigger] outcomes@[i],
                    ),
            },
    {
        let ghost by_player = self.outcomes_by_player(outcomes@);
        let results = self.period_results();
        let mut rows: Vec<PlayerRow> = Vec::new();
        let mut count: usize = 0;
        let ghost mut done: Set<Seq<char>> = Set::empty();
        let mut n: usize = 0;
        while n < self.players.rows.len()
            invariant
                self.wf(),
                outcomes@.len() == self.players.rows@.len(),
                by_player == self.outcomes_by_player(outcomes@),
                n <= self.players.rows.len(),
                results@.len() == self.players.rows@.len(),
                forall|i: int|
                    0 <= i < results@.len() ==> (#[trigger] results@[i])@ == results_of(
                        self@.matches,
                        self@.players,
                        self.players.rows@[i].key(),
                    ),
                rows@.len() == n,
                forall|i: int|
                    0 <= i < rows@.len() ==> self.settles(
                        i,
                        outcomes@[i],
                        now@,
                        (#[trigger] rows@[i])@,
                    ),
                done.finite(),
                done.len() == count,
                count <= n,
                forall|id: Seq<char>| #[trigger]
                    done.contains(id) ==> self@.rewritten_players(by_player).contains(id)
                        && self.players.position(id) < n,
                forall|i: int|
                    0 <= i < n && self@.rewritten_players(by_player).contains(
                        (#[trigger] self.players.rows@[i]).key(),
                    ) ==> done.contains(self.players.rows@[i].key()),
            decreases self.players.rows.len() - n,
        {
            proof {
                self.players.row_in_view(n as int);
            }
            let ghost id = self.players.rows@[n as int].key();
            assert(by_player[id] == outcomes@[n as int]);
            match self.player_row_after(n, results[n].len() > 0, outcomes[n], now) {
                Ok(Some(row)) => {
                    rows.push(row);
                    count = count + 1;
                    proof {
                        done = done.insert(id);
                    }
                },
                Ok(None) => {
                    rows.push(self.players.rows[n].copy());
                },
                Err(e) => {
                    return Err(e);
                },
            }
            n = n + 1;
        }
        proof {
            assert forall|id: Seq<char>| #[trigger] self@.rewritten_players(by_player).contains(id) implies done.contains(id) by {
                self.players.key_in_rows(id);
            }
            assert(done =~= self@.rewritten_players(by_player));
        }
        Ok((rows, count))
    }

    /// Mark the pending matches as applied, and say how many there were.
    fn mark_applied(&mut self, now: &str) -> (r: usize)
        requires
            old(self).wf(),
        ensures
            final(self).wf(),
            final(self)@ == (DbView {
                matches: old(self)@.matches.map_values(|m: MatchView| applied(m, now@)),
                ..old(self)@
            }),
            final(self).players == old(self).players,
            r == old(self)@.pending_count(),
    {
        let ghost is_pending = |m: MatchView| m.pending();
        let ghost before = self@.matches;
        let mut rows: Vec<MatchRow> = Vec::new();
        let mut count: usize = 0;
        let mut n: usize = 0;
        assert(before.take(0).filter(is_pending).len() == 0) by {
            reveal(Seq::filter);
        }
        while n < self.matches.rows.len()
            invariant
                self.wf(),
                before == self@.matches,
                is_pending == (|m: MatchView| m.pending()),
                n <= self.matches.rows.len(),
                rows@.len() == n,
                count <= n,
                count == before.take(n as int).filter(is_pending).len(),
                forall|i: int|
                    0 <= i < n ==> (#[trigger] rows@[i])@ == applied(self.matches.rows@[i]@, now@),
            decreases self.matches.rows.len() - n,
        {
            let mut row = self.matches.rows[n].copy();
            proof {
                let longer = before.take(n + 1);
                assert(longer.drop_last() =~= before.take(n as int));
                assert(longer.last() == row@);
                reveal(Seq::filter);
            }
            if row.applied_at.is_none() {
                row.applied_at = Some(now.to_owned());
                count = count + 1;
            }
            rows.push(row);
            n = n + 1;
        }
        assert(before.take(n as int) =~= before);
        assert(forall|i: int| 0 <= i < n ==> (#[trigger] rows@[i]).key() == self.matches.rows@[i].key());
        self.matches.replace_all(rows);
        assert(self@.matches =~= before.map_values(|m: MatchView| applied(m, now@)));
        assert(self@.players == old(self)@.players);
        count
    }

    /// Close a rating period at a time, with the outcomes of the rating formula
    /// for the players in the order of the plan. Every pending match is marked
    /// as applied. Returns how many matches were, and how many players were
    /// rewritten. If a value to be stored is not a number, nothing changes.
    pub fn close_rating_period_at(&mut self, outcomes: &Vec<Rating>, now: &str) -> (r: Result<
        (usize, usize),
        PeriodError,
    >)
        requires
            old(self).wf(),
            outcomes@.len() == old(self).players.rows@.len(),
        ensures
            final(self).wf(),
            match r {
                Ok((matches, players)) => {
                    &&& forall|i: int|
                        0 <= i < outcomes@.len() ==> old(self)@.storable(
                            old(self).players.rows@[i].key(),
                            #[trigger] outcomes@[i],
                        )
                    &&& final(self)@ == old(self)@.after_period(
                        old(self).outcomes_by_player(outcomes@),
                        now@,
                    )
                    &&& matches == old(self)@.pending_count()
                    &&& players == old(self)@.rewritten_players(
                        old(self).outcomes_by_player(outcomes@),
                    ).len()
                },
                Err(_) => {
                    &&& exists|i: int|
                        0 <= i < outcomes@.len() && !old(self)@.storable(
                            old(self).players.rows@[i].key(),
                            #[trigger] outcomes@[i],
                        )
                    &&& final(self)@ == old(self)@
                },
            },
    {
        let ghost by_player = self.outcomes_by_player(outcomes@);
        match self.player_rows_after(outcomes, now) {
            Err(e) => Err(e),
            Ok((rows, players)) => {
                let ghost before = *self;
                proof {
                    assert forall|i: int| 0 <= i < outcomes@.len() implies before@.storable(
                        before.players.rows@[i].key(),
                        #[trigger] outcomes@[i],
                    ) by {
                        assert(before.settles(i, outcomes@[i], now@, rows@[i]@));
                    }
                    assert forall|i: int| 0 <= i < rows@.len() implies (#[trigger] rows@[i]).key() == before.players.rows@[i].key() by {
                        before.players.row_in_view(i);
                        assert(before@.players.contains_key(before.players.rows@[i].key()));
                    }
                }
                self.players.replace_all(rows);
                proof {
                    let after = before@.after_period(by_player, now@);
                    assert forall|id: Seq<char>| #[trigger] self@.players.contains_key(id) == after.players.contains_key(id) by {
                        if self@.players.contains_key(id) {
                            self.players.key_in_rows(id);
                            before.players.row_in_view(self.players.position(id));
                        }
                        if before@.players.contains_key(id) {
                            before.players.key_in_rows(id);
                            self.players.row_in_view(before.players.position(id));
                        }
                    }
                    assert forall|id: Seq<char>| #[trigger] self@.players.contains_key(id) implies self@.players[id] == after.players[id] by {
                        self.players.key_in_rows(id);
                        before.players.row_in_view(self.players.position(id));
                    }
                    assert(self@.players =~= after.players);
                    assert(self@.matches == before@.matches);
                    assert forall|id: Seq<char>| #[trigger] self@.players.contains_key(id) implies self@.players[id].discord_id == id
                        && self@.players[id].rating.is_number() && self@.players[id].played() <= u64::MAX by {
                        self.players.key_in_rows(id);
                        let i = self.players.position(id);
                        before.players.row_in_view(i);
                        assert(before@.players.contains_key(id));
                        assert(before.settles(i, outcomes@[i], now@, self.players.rows@[i]@));
                    }
                }
                let matches = self.mark_applied(now);
                let ghost marked = self@;
                self.periods.push(
                    PeriodRow {
                        closed_at: now.to_owned(),
                        match_count: matches,
                        player_count: players,
                    },
                );
                proof {
                    assert(self@.periods =~= before@.after_period(by_player, now@).periods);
                    assert(self@.matches == marked.matches);
                }
                Ok((matches, players))
            },
        }
    }

    /// Close a rating period now.
    pub fn close_rating_period(&mut self, outcomes: &Vec<Rating>) -> (r: Result<
        (usize, usize),
        PeriodError,
    >)
        requires
            old(self).wf(),
            outcomes@.len() == old(self).players.rows@.len(),
        ensures
            final(self).wf(),
            match r {
                Ok((matches, players)) => {
                    &&& forall|i: int|
                        0 <= i < outcomes@.len() ==> old(self)@.storable(
                            old(self).players.rows@[i].key(),
                            #[trigger] outcomes@[i],
                        )
                    &&& exists|now: Seq<char>|
                        clock_read(now) && is_utc_time(now) && final(self)@ == #[trigger] old(self)@.after_period(
                            old(self).outcomes_by_player(outcomes@),
                            now,
                        )
                    &&& matches == old(self)@.pending_count()
                    &&& players == old(self)@.rewritten_players(
                        old(self).outcomes_by_player(outcomes@),
                    ).len()
                },
                Err(_) => {
                    &&& exists|i: int|
                        0 <= i < outcomes@.len() && !old(self)@.storable(
                            old(self).players.rows@[i].key(),
                            #[trigger] outcomes@[i],
                        )
                    &&& final(self)@ == old(self)@
                },
            },
    {
        let now = read_clock();
        self.close_rating_period_at(outcomes, now.as_str())
    }
}

} // verus!
