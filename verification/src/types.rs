//! The data model: principals, projects, investments, derived statistics,
//! and the spec-level notions the contracts are stated over.

use vstd::prelude::*;
use vstd::arithmetic::div_mod::{lemma_div_is_ordered, lemma_div_pos_is_pos};
use vstd::arithmetic::mul::{lemma_mul_inequality, lemma_mul_nonnegative};

verus! {

/// An authenticated identity (owner, investor or admin). The hosting
/// environment resolves real addresses to these opaque handles; the core
/// only ever compares them for equality.
#[derive(Clone, Copy, Debug, PartialEq, Eq, Hash, Structural)]
pub struct Principal(pub u64);

/// Basis points in one whole: an `expected_roi` of 1800 is 18.00 %.
pub const BPS_DENOMINATOR: u32 = 10000;

/// Seconds in one 30-day month, the unit maturity is measured in.
pub const SECONDS_PER_MONTH: u64 = 30 * 24 * 3600;

/// A crowd-funded project. `id` is assigned once and never reused;
/// `current_funding` only ever grows, and never past `funding_goal`.
pub struct Project {
    pub id: u64,
    pub owner: Principal,
    pub name: String,
    pub description: String,
    pub funding_goal: i128,
    pub current_funding: i128,
    pub min_investment: i128,
    pub expected_roi: u32,
    pub duration_months: u32,
    pub is_active: bool,
    pub is_funded: bool,
    pub created_at: u64,
}

/// The aggregate position of one investor in one project; at most one
/// record exists per (investor, project) pair, and repeated contributions
/// accumulate into it.
pub struct Investment {
    pub investor: Principal,
    pub project_id: u64,
    pub amount: i128,
    pub timestamp: u64,
    pub claimed_returns: i128,
}

/// Derived, non-persisted figures about a project.
#[derive(Clone, Copy, Debug, PartialEq, Eq, Structural)]
pub struct ProjectStats {
    pub total_investors: u32,
    pub funding_percentage: u32,
    pub days_remaining: u32,
}

impl Project {
    /// The field invariants every stored project satisfies: parameter
    /// ranges as validated at creation, funding within `[0, funding_goal]`,
    /// and `is_funded` true exactly when the goal is reached.
    pub open spec fn valid(self) -> bool {
        &&& self.funding_goal > 0
        &&& 0 < self.min_investment <= self.funding_goal
        &&& self.expected_roi <= BPS_DENOMINATOR
        &&& 1 <= self.duration_months <= 60
        &&& 0 <= self.current_funding <= self.funding_goal
        &&& (self.is_funded <==> self.current_funding >= self.funding_goal)
    }
}

/// The total return an investment of `amount` is entitled to under a
/// rate of `roi_bps` basis points: `floor(amount * roi_bps / 10000)`.
pub open spec fn entitled(amount: i128, roi_bps: u32) -> int {
    amount * roi_bps / (BPS_DENOMINATOR as int)
}

/// A project's funding progress in basis points:
/// `current_funding * 10000 / funding_goal`, floored.
pub open spec fn spec_funding_percentage(p: Project) -> int {
    if p.funding_goal > 0 {
        p.current_funding * BPS_DENOMINATOR / (p.funding_goal as int)
    } else {
        0
    }
}

/// Entitlement is never negative and grows (weakly) with the aggregate
/// amount, so claims recorded against a smaller aggregate stay within the
/// entitlement of a larger one.
pub proof fn lemma_entitled_monotone(a1: i128, a2: i128, roi_bps: u32)
    requires
        0 <= a1 <= a2,
    ensures
        0 <= entitled(a1, roi_bps) <= entitled(a2, roi_bps),
{
    lemma_mul_nonnegative(a1 as int, roi_bps as int);
    lemma_mul_inequality(a1 as int, a2 as int, roi_bps as int);
    lemma_div_is_ordered(a1 * roi_bps, a2 * roi_bps, BPS_DENOMINATOR as int);
    lemma_div_pos_is_pos(a1 * roi_bps, BPS_DENOMINATOR as int);
}

/// Whether an investment record belongs to the given (investor, project) key.
pub open spec fn inv_matches(inv: Investment, investor: Principal, project_id: u64) -> bool {
    inv.investor == investor && inv.project_id == project_id
}

/// Whether a contribution of `amount` is accepted against the pre-state of
/// a project: the project is open and the amount fits the remaining capacity.
pub open spec fn invest_accepted(p: Project, amount: i128) -> bool {
    &&& p.is_active
    &&& !p.is_funded
    &&& amount >= p.min_investment
    &&& p.current_funding + amount <= p.funding_goal
}

/// The project after an accepted contribution of `amount`: funding grows by
/// exactly `amount`, and `is_funded` is set (never cleared) once the goal is
/// reached. Every other field is untouched.
pub open spec fn funding_step(p: Project, amount: i128) -> Project {
    Project {
        current_funding: (p.current_funding + amount) as i128,
        is_funded: p.is_funded || p.current_funding + amount >= p.funding_goal,
        ..p
    }
}

/// The investment record after an accepted contribution: a fresh record
/// stamped `now` with nothing claimed yet, or the prior record with its
/// amount grown by `amount` and its timestamp and claims untouched.
pub open spec fn upsert_contribution(
    prior: Option<Investment>,
    investor: Principal,
    project_id: u64,
    amount: i128,
    now: u64,
) -> Investment {
    match prior {
        Some(prev) => Investment { amount: (prev.amount + amount) as i128, ..prev },
        None => Investment { investor, project_id, amount, timestamp: now, claimed_returns: 0 },
    }
}

} // verus!
