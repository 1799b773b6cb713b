//! Numbers and ratings, by their bit patterns.

use crate::double::Double;
use crate::glicko::{capped, default_rating, loss_against, win_against, Rating};
use vstd::prelude::*;

verus! {

/// The patterns that encode no number are those above the two infinities.
pub proof fn patterns_without_a_number(a: Double)
    ensures
        a.is_nan() <==> 0x7FF0_0000_0000_0000 < a.bits < 0x8000_0000_0000_0000 || a.bits
            > 0xFFF0_0000_0000_0000,
{
}

/// Numbers without a sign are ordered as their patterns, those with a sign the
/// other way round and below, and both zeros are one number.
pub proof fn numbers_are_ordered(a: Double, b: Double)
    requires
        !a.is_nan(),
        !b.is_nan(),
    ensures
        a.bits < 0x8000_0000_0000_0000 && b.bits < 0x8000_0000_0000_0000 ==> (a.exceeds(b)
            <==> a.bits > b.bits),
        a.bits >= 0x8000_0000_0000_0000 && b.bits >= 0x8000_0000_0000_0000 ==> (a.exceeds(b)
            <==> a.bits < b.bits),
        a.bits < 0x8000_0000_0000_0000 && b.bits >= 0x8000_0000_0000_0000 ==> (a.exceeds(b)
            <==> !(a.bits == 0 && b.bits == 0x8000_0000_0000_0000)),
        a.bits >= 0x8000_0000_0000_0000 && b.bits < 0x8000_0000_0000_0000 ==> !a.exceeds(b),
        a.exceeds(b) <==> a.place() > b.place(),
        a.equals(b) <==> !a.exceeds(b) && !b.exceeds(a),
        a.equals(b) <==> a.bits == b.bits || (a.bits == 0 && b.bits == 0x8000_0000_0000_0000) || (
        a.bits == 0x8000_0000_0000_0000 && b.bits == 0),
{
}

/// What is no number exceeds nothing, is exceeded by nothing and equals nothing.
pub proof fn no_number_compares(a: Double, b: Double)
    requires
        a.is_nan() || b.is_nan(),
    ensures
        !a.exceeds(b),
        !a.equals(b),
{
}

/// A new player is rated 1500, with a deviation of 350 and a volatility of 0.06.
pub proof fn new_players_are_rated()
    ensures
        default_rating().mu.bits == 0x4097_7000_0000_0000,
        default_rating().phi.bits == 0x4075_E000_0000_0000,
        default_rating().sigma.bits == 0x3FAE_B851_EB85_1EB8,
{
}

/// A win scores 1.0 and a loss 0.0, whoever the opponent is, and both count against
/// the opponent's rating and deviation.
pub proof fn scores_of_results(opponent: Rating)
    ensures
        win_against(opponent).score.bits == 0x3FF0_0000_0000_0000,
        loss_against(opponent).score.bits == 0,
        win_against(opponent).opponent_mu == opponent.mu,
        win_against(opponent).opponent_phi == opponent.phi,
        loss_against(opponent).opponent_mu == opponent.mu,
        loss_against(opponent).opponent_phi == opponent.phi,
{
}

/// A number above 350.0 is capped to it; everything else stays.
pub proof fn cap_is_350(phi: Double)
    ensures
        0x4075_E000_0000_0000 < phi.bits <= 0x7FF0_0000_0000_0000 ==> capped(phi).bits
            == 0x4075_E000_0000_0000,
        !(0x4075_E000_0000_0000 < phi.bits <= 0x7FF0_0000_0000_0000) ==> capped(phi) == phi,
{
}

/// A rating is made of numbers exactly if none of its three values is none.
pub proof fn ratings_are_numbers(r: Rating)
    ensures
        r.is_number() <==> !(r.mu.is_nan() || r.phi.is_nan() || r.sigma.is_nan()),
{
}

} // verus!
