//! Reserved names.

use crate::db::names::{normalized, NameCheckOutcome, NameClaimOutcome};
use crate::db::rows::{GhostView, ReplayView};
use crate::db::DbView;
use crate::glicko::Rating;
use crate::models::MatchResult;
use crate::text::{ascii_lower, is_ascii, trimmed};
use vstd::prelude::*;

verus! {

/// No owner holds two names.
pub open spec fn one_name_each(v: DbView) -> bool {
    forall|a: Seq<char>, b: Seq<char>|
        #![trigger v.names.contains_key(a), v.names.contains_key(b)]
        v.names.contains_key(a) && v.names.contains_key(b) && v.names[a].owner_id
            == v.names[b].owner_id ==> a == b
}

/// Every reservation stands under the normalized form of the name it shows.
pub open spec fn keys_normalized(v: DbView) -> bool {
    forall|norm: Seq<char>| #[trigger]
        v.names.contains_key(norm) ==> norm == normalized(v.names[norm].name)
}

/// Nobody holds a name at first.
pub proof fn no_names_at_first()
    ensures
        one_name_each(DbView::empty()),
        keys_normalized(DbView::empty()),
{
}

/// A claim gives no owner a second name.
pub proof fn claim_keeps_one_name_each(
    v: DbView,
    name: Seq<char>,
    owner_id: Seq<char>,
    now: Seq<char>,
)
    requires
        one_name_each(v),
    ensures
        one_name_each(v.after_claim(name, owner_id, now)),
{
}

/// A claim keeps every reservation under the normalized form of its name.
pub proof fn claim_keeps_keys_normalized(
    v: DbView,
    name: Seq<char>,
    owner_id: Seq<char>,
    now: Seq<char>,
)
    requires
        keys_normalized(v),
    ensures
        keys_normalized(v.after_claim(name, owner_id, now)),
{
}

/// After a claim that is not refused the name is the owner's, in the spelling of
/// the claim.
pub proof fn claim_reserves(v: DbView, name: Seq<char>, owner_id: Seq<char>, now: Seq<char>)
    requires
        v.claim_outcome(name, owner_id) != NameClaimOutcome::Taken,
    ensures
        ({
            let after = v.after_claim(name, owner_id, now);
            &&& after.names.contains_key(normalized(name))
            &&& after.names[normalized(name)].owner_id == owner_id
            &&& after.names[normalized(name)].name == name
        }),
{
}

/// A newly claimed name is the only one that its owner holds: whatever the owner
/// had before is free for everyone.
pub proof fn claim_releases(
    v: DbView,
    name: Seq<char>,
    owner_id: Seq<char>,
    now: Seq<char>,
    earlier: Seq<char>,
    anyone: Option<Seq<char>>,
)
    requires
        v.claim_outcome(name, owner_id) == NameClaimOutcome::Claimed,
        v.names.contains_key(normalized(earlier)),
        v.names[normalized(earlier)].owner_id == owner_id,
    ensures
        v.after_claim(name, owner_id, now).check_outcome(earlier, anyone) == (NameCheckOutcome {
            available: true,
            owned_by_you: false,
        }),
        forall|norm: Seq<char>| #[trigger]
            v.after_claim(name, owner_id, now).names.contains_key(norm) && v.after_claim(
                name,
                owner_id,
                now,
            ).names[norm].owner_id == owner_id ==> norm == normalized(name),
{
}

/// A claim touches no reservation of anyone else.
pub proof fn claim_spares_others(
    v: DbView,
    name: Seq<char>,
    owner_id: Seq<char>,
    now: Seq<char>,
    norm: Seq<char>,
)
    requires
        v.names.contains_key(norm),
        v.names[norm].owner_id != owner_id,
    ensures
        v.after_claim(name, owner_id, now).names.contains_key(norm),
        v.after_claim(name, owner_id, now).names[norm] == v.names[norm],
{
}

/// A refused claim changes nothing.
pub proof fn refused_claim_changes_nothing(
    v: DbView,
    name: Seq<char>,
    owner_id: Seq<char>,
    now: Seq<char>,
)
    requires
        v.claim_outcome(name, owner_id) == NameClaimOutcome::Taken,
    ensures
        v.after_claim(name, owner_id, now) == v,
{
}

/// Once a name is someone's, every spelling of it that is normalized alike is
/// theirs: they may affirm it, everyone else's claim is refused, and a check
/// says so.
pub proof fn claim_covers_every_spelling(
    v: DbView,
    name: Seq<char>,
    owner_id: Seq<char>,
    now: Seq<char>,
    spelling: Seq<char>,
    other: Seq<char>,
)
    requires
        v.claim_outcome(name, owner_id) != NameClaimOutcome::Taken,
        normalized(spelling) == normalized(name),
        other != owner_id,
    ensures
        ({
            let after = v.after_claim(name, owner_id, now);
            &&& after.claim_outcome(spelling, owner_id) == NameClaimOutcome::Owned
            &&& after.claim_outcome(spelling, other) == NameClaimOutcome::Taken
            &&& after.check_outcome(spelling, Some(owner_id)) == (NameCheckOutcome {
                available: true,
                owned_by_you: true,
            })
            &&& after.check_outcome(spelling, Some(other)) == (NameCheckOutcome {
                available: false,
                owned_by_you: false,
            })
            &&& after.check_outcome(spelling, None) == (NameCheckOutcome {
                available: false,
                owned_by_you: false,
            })
        }),
{
}

/// The case of ASCII letters and white space at the ends are ignored.
pub proof fn case_is_ignored(a: Seq<char>, b: Seq<char>)
    requires
        is_ascii(trimmed(a)),
        is_ascii(trimmed(b)),
    ensures
        normalized(a) == normalized(b) <==> ascii_lower(trimmed(a)) == ascii_lower(trimmed(b)),
{
}

/// Nothing but a claim touches reservations.
pub proof fn only_claims_touch_names(
    v: DbView,
    m: MatchResult,
    outcomes: Map<Seq<char>, Rating>,
    id: Seq<char>,
    username: Seq<char>,
    now: Seq<char>,
    ghost_row: GhostView,
    replay: ReplayView,
)
    ensures
        v.after_post(m, now).names == v.names,
        v.after_period(outcomes, now).names == v.names,
        v.after_rename(id, username).names == v.names,
        v.after_ghost(ghost_row).names == v.names,
        v.after_replay(replay).names == v.names,
{
}

/// A name reads as available to someone exactly if that one's claim would not be
/// refused, and to nobody in particular exactly if anyone's claim would be new.
pub proof fn available_means_claimable(v: DbView, name: Seq<char>, owner_id: Seq<char>)
    ensures
        v.check_outcome(name, Some(owner_id)).available <==> v.claim_outcome(name, owner_id)
            != NameClaimOutcome::Taken,
        v.check_outcome(name, Some(owner_id)).owned_by_you <==> v.claim_outcome(name, owner_id)
            == NameClaimOutcome::Owned,
        v.check_outcome(name, None).available <==> v.claim_outcome(name, owner_id)
            == NameClaimOutcome::Claimed,
        !v.check_outcome(name, None).owned_by_you,
{
}

} // verus!
