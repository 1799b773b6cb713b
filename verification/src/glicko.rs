//! Ratings and what happened to a player in one rating period.
//!
//! A rating is updated once per period, from all the results of that period.
//! Players without results only have their deviation inflated.

use crate::double::Double;
use vstd::prelude::*;

verus! {

/// 1500.0, the rating of a player who has not played.
pub const DEFAULT_MU: u64 = 0x4097_7000_0000_0000;

/// 350.0, the deviation of a player who has not played, and the largest one
/// that inactivity leads to.
pub const DEFAULT_PHI: u64 = 0x4075_E000_0000_0000;

/// 0.06, the volatility of a player who has not played.
pub const DEFAULT_SIGMA: u64 = 0x3FAE_B851_EB85_1EB8;

/// 1.0, the score of a win.
pub const WIN_SCORE: u64 = 0x3FF0_0000_0000_0000;

/// 0.0, the score of a loss.
pub const LOSS_SCORE: u64 = 0;

/// A Glicko-2 rating on the original scale.
#[derive(Debug, Clone, Copy, PartialEq, Eq, Structural)]
pub struct Rating {
    pub mu: Double,
    pub phi: Double,
    pub sigma: Double,
}

/// One encounter within a rating period, with the opponent's rating and
/// deviation from before the period and the score: 1.0 for a win, 0.0 for a
/// loss.
#[derive(Debug, Clone, Copy, PartialEq, Eq, Structural)]
pub struct PeriodResult {
    pub opponent_mu: Double,
    pub opponent_phi: Double,
    pub score: Double,
}

/// The rating of a player who has not played.
pub open spec fn default_rating() -> Rating {
    Rating {
        mu: Double { bits: DEFAULT_MU },
        phi: Double { bits: DEFAULT_PHI },
        sigma: Double { bits: DEFAULT_SIGMA },
    }
}

impl Default for Rating {
    fn default() -> (r: Self)
        ensures
            r == default_rating(),
    {
        Rating {
            mu: Double { bits: DEFAULT_MU },
            phi: Double { bits: DEFAULT_PHI },
            sigma: Double { bits: DEFAULT_SIGMA },
        }
    }
}

impl Rating {
    /// Whether all three values are numbers; no other rating can be stored.
    pub open spec fn is_number(self) -> bool {
        !self.mu.is_nan() && !self.phi.is_nan() && !self.sigma.is_nan()
    }

    /// Whether all three values are numbers.
    pub fn numeric(self) -> (r: bool)
        ensures
            r == self.is_number(),
    {
        !self.mu.not_a_number() && !self.phi.not_a_number() && !self.sigma.not_a_number()
    }
}

/// A deviation after the cap on inactivity.
pub open spec fn capped(phi: Double) -> Double {
    if phi.exceeds(Double { bits: DEFAULT_PHI }) {
        Double { bits: DEFAULT_PHI }
    } else {
        phi
    }
}

/// Bring a deviation that grew by inactivity back to the cap.
pub fn cap_deviation(phi: Double) -> (r: Double)
    ensures
        r == capped(phi),
{
    let cap = Double { bits: DEFAULT_PHI };
    if phi.greater_than(cap) {
        cap
    } else {
        phi
    }
}

/// What a win against an opponent counts as.
pub open spec fn win_against(opponent: Rating) -> PeriodResult {
    PeriodResult {
        opponent_mu: opponent.mu,
        opponent_phi: opponent.phi,
        score: Double { bits: WIN_SCORE },
    }
}

/// What a loss against an opponent counts as.
pub open spec fn loss_against(opponent: Rating) -> PeriodResult {
    PeriodResult {
        opponent_mu: opponent.mu,
        opponent_phi: opponent.phi,
        score: Double { bits: LOSS_SCORE },
    }
}

} // verus!
