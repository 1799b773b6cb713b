//! The registry of display names.
//!
//! A name is reserved for one owner, whatever its spelling in upper and lower
//! case, and an owner has one reservation: the next one releases it.

use crate::clock::{clock_read, is_utc_time, read_clock};
use crate::db::rows::{NameRow, NameView};
use crate::db::{Db, DbView};
use crate::table::{Row, Table};
use crate::text::{lower_case, to_lower_case, trim, trimmed};
use vstd::prelude::*;

verus! {

/// Result of [`Db::claim_name`].
#[derive(Debug, Clone, Copy, PartialEq, Eq, Structural)]
pub enum NameClaimOutcome {
    /// Newly reserved for this owner.
    Claimed,
    /// Already held by this same owner, and affirmed.
    Owned,
    /// Held by a different owner.
    Taken,
}

/// Result of [`Db::check_name`].
#[derive(Debug, Clone, Copy, PartialEq, Eq, Structural)]
pub struct NameCheckOutcome {
    pub available: bool,
    pub owned_by_you: bool,
}

/// The spelling by which a name is reserved.
pub open spec fn normalized(name: Seq<char>) -> Seq<char> {
    lower_case(trimmed(name))
}

/// The spelling by which a name is reserved.
pub fn normalize_name(name: &str) -> (r: String)
    ensures
        r@ == normalized(name@),
{
    to_lower_case(trim(name))
}

/// The reservations without those of one owner.
pub open spec fn released(
    names: Map<Seq<char>, NameView>,
    owner_id: Seq<char>,
) -> Map<Seq<char>, NameView> {
    Map::new(
        |norm: Seq<char>| names.contains_key(norm) && names[norm].owner_id != owner_id,
        |norm: Seq<char>| names[norm],
    )
}

impl DbView {
    /// What a claim comes to.
    pub open spec fn claim_outcome(self, name: Seq<char>, owner_id: Seq<char>) -> NameClaimOutcome {
        let norm = normalized(name);
        if !self.names.contains_key(norm) {
            NameClaimOutcome::Claimed
        } else if self.names[norm].owner_id == owner_id {
            NameClaimOutcome::Owned
        } else {
            NameClaimOutcome::Taken
        }
    }

    /// The tables after a claim. A free name is reserved, and whatever the owner
    /// had reserved before is released; an own name gets the new spelling; of a
    /// name that someone else holds nothing changes.
    pub open spec fn after_claim(
        self,
        name: Seq<char>,
        owner_id: Seq<char>,
        now: Seq<char>,
    ) -> DbView {
        let norm = normalized(name);
        let names = match self.claim_outcome(name, owner_id) {
            NameClaimOutcome::Claimed => released(self.names, owner_id).insert(
                norm,
                NameView { name_norm: norm, name, owner_id, claimed_at: now, updated_at: now },
            ),
            NameClaimOutcome::Owned => self.names.insert(
                norm,
                NameView { name, updated_at: now, ..self.names[norm] },
            ),
            NameClaimOutcome::Taken => self.names,
        };
        DbView { names, ..self }
    }

    /// What a check of a name says to someone, or to nobody in particular.
    pub open spec fn check_outcome(
        self,
        name: Seq<char>,
        owner_id: Option<Seq<char>>,
    ) -> NameCheckOutcome {
        let norm = normalized(name);
        if !self.names.contains_key(norm) {
            NameCheckOutcome { available: true, owned_by_you: false }
        } else {
            let mine = owner_id == Some(self.names[norm].owner_id);
            NameCheckOutcome { available: mine, owned_by_you: mine }
        }
    }
}

impl Db {
    /// Release whatever an owner has reserved.
    fn release_names(&mut self, owner_id: &str)
        requires
            old(self).wf(),
        ensures
            final(self).wf(),
            final(self)@ == (DbView { names: released(old(self)@.names, owner_id@), ..old(self)@ }),
    {
        let owner = owner_id.to_owned();
        let mut kept: Table<NameRow> = Table::new();
        let mut n: usize = 0;
        while n < self.names.rows.len()
            invariant
                self.wf(),
                owner@ == owner_id@,
                n <= self.names.rows.len(),
                kept.wf(),
                forall|norm: Seq<char>| #[trigger]
                    kept@.contains_key(norm) ==> self.names@.contains_key(norm)
                        && self.names.position(norm) < n && self.names@[norm].owner_id != owner_id@
                        && kept@[norm] == self.names@[norm],
                forall|i: int|
                    0 <= i < n && (#[trigger] self.names.rows@[i])@.owner_id != owner_id@
                        ==> kept@.contains_key(self.names.rows@[i].key()),
            decreases self.names.rows.len() - n,
        {
            proof {
                self.names.row_in_view(n as int);
            }
            let row = &self.names.rows[n];
            if row.owner_id != owner {
                kept.push(
                    NameRow {
                        name_norm: row.name_norm.clone(),
                        name: row.name.clone(),
                        owner_id: row.owner_id.clone(),
                        claimed_at: row.claimed_at.clone(),
                        updated_at: row.updated_at.clone(),
                    },
                );
            }
            n = n + 1;
        }
        proof {
            let after = released(self@.names, owner_id@);
            assert forall|norm: Seq<char>| #[trigger] after.contains_key(norm) implies kept@.contains_key(norm) by {
                self.names.key_in_rows(norm);
            }
            assert(kept@ =~= after);
        }
        self.names = kept;
        assert(self@.players == old(self)@.players);
        assert(self@.matches == old(self)@.matches);
    }

    /// Reserve a name for an owner at a time.
    pub fn claim_name_at(&mut self, name: &str, owner_id: &str, now: &str) -> (r: NameClaimOutcome)
        requires
            old(self).wf(),
        ensures
            final(self).wf(),
            final(self)@ == old(self)@.after_claim(name@, owner_id@, now@),
            r == old(self)@.claim_outcome(name@, owner_id@),
    {
        let norm = normalize_name(name);
        match self.names.find(norm.as_str()) {
            Some(i) => {
                if self.names.rows[i].owner_id == owner_id.to_owned() {
                    let row = &self.names.rows[i];
                    let affirmed = NameRow {
                        name_norm: row.name_norm.clone(),
                        name: name.to_owned(),
                        owner_id: row.owner_id.clone(),
                        claimed_at: row.claimed_at.clone(),
                        updated_at: now.to_owned(),
                    };
                    self.names.set(i, affirmed);
                    assert(self@.players == old(self)@.players);
                    assert(self@.matches == old(self)@.matches);
                    NameClaimOutcome::Owned
                } else {
                    NameClaimOutcome::Taken
                }
            },
            None => {
                self.release_names(owner_id);
                let row = NameRow {
                    name_norm: norm,
                    name: name.to_owned(),
                    owner_id: owner_id.to_owned(),
                    claimed_at: now.to_owned(),
                    updated_at: now.to_owned(),
                };
                self.names.push(row);
                assert(self@.players == old(self)@.players);
                assert(self@.matches == old(self)@.matches);
                NameClaimOutcome::Claimed
            },
        }
    }

    /// Reserve a name for an owner. Names are unique whatever their case. An
    /// owner holds one name: a new one releases the one before.
    pub fn claim_name(&mut self, name: &str, owner_id: &str) -> (r: NameClaimOutcome)
        requires
            old(self).wf(),
        ensures
            final(self).wf(),
            exists|now: Seq<char>|
                clock_read(now) && is_utc_time(now) && final(self)@ == #[trigger] old(self)@.after_claim(name@, owner_id@, now),
            r == old(self)@.claim_outcome(name@, owner_id@),
    {
        let now = read_clock();
        self.claim_name_at(name, owner_id, now.as_str())
    }

    /// Is a name available? It is if nobody has reserved it, or if the one who
    /// asks has.
    pub fn check_name(&self, name: &str, owner_id: Option<&str>) -> (r: NameCheckOutcome)
        requires
            self.wf(),
        ensures
            r == self@.check_outcome(
                name@,
                match owner_id {
                    Some(id) => Some(id@),
                    None => None,
                },
            ),
    {
        let norm = normalize_name(name);
        match self.names.find(norm.as_str()) {
            Some(i) => {
                let mine = match owner_id {
                    Some(id) => self.names.rows[i].owner_id == id.to_owned(),
                    None => false,
                };
                NameCheckOutcome { available: mine, owned_by_you: mine }
            },
            None => NameCheckOutcome { available: true, owned_by_you: false },
        }
    }
}

} // verus!
