//! The library's laws: properties that hold across whole sequences of
//! contribution attempts, and at every well-formed state, proved from the
//! same spec functions the operations' contracts are stated over
//! (`funding_step`, `upsert_contribution`, the decision functions and the
//! well-formedness invariant).

use vstd::prelude::*;
use crate::errors::Error;
use crate::ops::claim_decision;
use crate::state::AgroCoinContract;
use crate::types::{
    entitled, funding_step, inv_matches, invest_accepted, upsert_contribution, Investment,
    Principal, Project, SECONDS_PER_MONTH,
};

verus! {

/// One attempted contribution, as the funding state machine sees it: who
/// contributes, how much, and the clock reading at the call.
pub struct InvestCall {
    pub investor: Principal,
    pub amount: i128,
    pub now: u64,
}

/// Whether an attempt is accepted against the pre-state of the project:
/// exactly the conditions under which `invest` commits (authorization and
/// existence aside, which concern the caller and the key, not the project).
pub open spec fn call_accepted(p: Project, amount: i128) -> bool {
    amount > 0 && invest_accepted(p, amount)
}

/// The project after a sequence of attempts: each accepted one applies
/// `funding_step`, each rejected one changes nothing.
pub open spec fn run_project(p: Project, calls: Seq<InvestCall>) -> Project
    decreases calls.len(),
{
    if calls.len() == 0 {
        p
    } else {
        let prior = run_project(p, calls.drop_last());
        if call_accepted(prior, calls.last().amount) {
            funding_step(prior, calls.last().amount)
        } else {
            prior
        }
    }
}

/// The sum of the amounts of exactly the accepted attempts.
pub open spec fn accepted_total(p: Project, calls: Seq<InvestCall>) -> int
    decreases calls.len(),
{
    if calls.len() == 0 {
        0
    } else {
        accepted_total(p, calls.drop_last()) + if call_accepted(
            run_project(p, calls.drop_last()),
            calls.last().amount,
        ) {
            calls.last().amount as int
        } else {
            0
        }
    }
}

/// The sum of the amounts of the accepted attempts made by `target`.
pub open spec fn target_total(p: Project, target: Principal, calls: Seq<InvestCall>) -> int
    decreases calls.len(),
{
    if calls.len() == 0 {
        0
    } else {
        let c = calls.last();
        target_total(p, target, calls.drop_last()) + if c.investor == target && call_accepted(
            run_project(p, calls.drop_last()),
            c.amount,
        ) {
            c.amount as int
        } else {
            0
        }
    }
}

/// The clock reading of the first accepted attempt by `target`, if any.
pub open spec fn first_target_time(p: Project, target: Principal, calls: Seq<InvestCall>) -> Option<
    u64,
>
    decreases calls.len(),
{
    if calls.len() == 0 {
        None
    } else {
        match first_target_time(p, target, calls.drop_last()) {
            Some(t) => Some(t),
            None => {
                let c = calls.last();
                if c.investor == target && call_accepted(
                    run_project(p, calls.drop_last()),
                    c.amount,
                ) {
                    Some(c.now)
                } else {
                    None
                }
            }
        }
    }
}

/// The (investor, project) pair's record after a sequence of attempts,
/// starting from `inv` (`None`: no record yet): each accepted attempt by
/// `target` applies `upsert_contribution`, everything else leaves it alone.
pub open spec fn run_pair_record(
    p: Project,
    inv: Option<Investment>,
    target: Principal,
    project_id: u64,
    calls: Seq<InvestCall>,
) -> Option<Investment>
    decreases calls.len(),
{
    if calls.len() == 0 {
        inv
    } else {
        let prior = run_pair_record(p, inv, target, project_id, calls.drop_last());
        let c = calls.last();
        if c.investor == target && call_accepted(run_project(p, calls.drop_last()), c.amount) {
            Some(upsert_contribution(prior, target, project_id, c.amount, c.now))
        } else {
            prior
        }
    }
}

/// Law: across any sequence of attempted contributions, a project's funding
/// equals its starting funding plus the sum of exactly the accepted amounts;
/// it never decreases, never exceeds the goal, stays valid — funded exactly
/// when the goal is reached — and every field the state machine treats as
/// immutable stays put.
pub proof fn lemma_funding_is_sum_of_accepted(p: Project, calls: Seq<InvestCall>)
    requires
        p.valid(),
    ensures
        run_project(p, calls).valid(),
        run_project(p, calls).current_funding == p.current_funding + accepted_total(p, calls),
        accepted_total(p, calls) >= 0,
        p.current_funding <= run_project(p, calls).current_funding,
        run_project(p, calls).current_funding <= p.funding_goal,
        run_project(p, calls).id == p.id,
        run_project(p, calls).owner == p.owner,
        run_project(p, calls).funding_goal == p.funding_goal,
        run_project(p, calls).min_investment == p.min_investment,
        run_project(p, calls).expected_roi == p.expected_roi,
        run_project(p, calls).duration_months == p.duration_months,
        run_project(p, calls).created_at == p.created_at,
    decreases calls.len(),
{
    if calls.len() > 0 {
        lemma_funding_is_sum_of_accepted(p, calls.drop_last());
    }
}

/// Law: for a fixed (investor, project) pair starting with no record, after
/// any sequence of attempted contributions the record exists exactly when
/// some contribution by that investor was accepted. Its `amount` is then the
/// sum of exactly those accepted contributions, its `timestamp` the clock
/// reading of the *first* of them — later top-ups never move it — and its
/// claims are still zero.
pub proof fn lemma_investment_aggregates(
    p: Project,
    target: Principal,
    project_id: u64,
    calls: Seq<InvestCall>,
)
    requires
        p.valid(),
    ensures
        run_pair_record(p, None, target, project_id, calls) is Some <==> first_target_time(
            p,
            target,
            calls,
        ) is Some,
        0 <= target_total(p, target, calls) <= accepted_total(p, calls),
        run_pair_record(p, None, target, project_id, calls) is None ==> target_total(
            p,
            target,
            calls,
        ) == 0,
        run_pair_record(p, None, target, project_id, calls) matches Some(inv) ==> {
            &&& inv.investor == target
            &&& inv.project_id == project_id
            &&& inv.amount == target_total(p, target, calls)
            &&& Some(inv.timestamp) == first_target_time(p, target, calls)
            &&& inv.claimed_returns == 0
        },
    decreases calls.len(),
{
    if calls.len() > 0 {
        let prefix = calls.drop_last();
        lemma_investment_aggregates(p, target, project_id, prefix);
        lemma_funding_is_sum_of_accepted(p, prefix);
        lemma_funding_is_sum_of_accepted(p, calls);
        let c = calls.last();
        let prior_p = run_project(p, prefix);
        if c.investor == target && call_accepted(prior_p, c.amount) {
            assert(target_total(p, target, calls) == target_total(p, target, prefix)
                + c.amount);
            assert(accepted_total(p, calls) == accepted_total(p, prefix) + c.amount);
            assert(accepted_total(p, calls) <= p.funding_goal - p.current_funding);
        }
    }
}

/// Law: at every well-formed state, a project is marked funded exactly when
/// its funding has reached its goal.
pub proof fn lemma_funded_iff_goal_reached(s: AgroCoinContract, project_id: u64)
    requires
        s.wf(),
        s.spec_has_project(project_id),
    ensures
        s.spec_project(project_id).is_funded <==> s.spec_project(project_id).current_funding
            >= s.spec_project(project_id).funding_goal,
{
    assert(s.projects@[project_id - 1].valid());
}

/// Law: at every well-formed state, what an investment has claimed lies
/// between zero and its entitlement
/// `floor(amount * expected_roi / 10000)`. Together with the contracts of
/// `claim_returns` (claims only rise, to exactly the entitlement) and
/// `invest` (top-ups leave claims alone), claims are monotone and never
/// exceed the entitlement.
pub proof fn lemma_claims_within_entitlement(
    s: AgroCoinContract,
    investor: Principal,
    project_id: u64,
)
    requires
        s.wf(),
        s.spec_has_investment(investor, project_id),
    ensures
        ({
            let inv = s.spec_investment(investor, project_id);
            0 <= inv.claimed_returns <= entitled(
                inv.amount,
                s.spec_project(project_id).expected_roi,
            )
        }),
{
    let k = s.spec_investment_index(investor, project_id);
    assert(0 <= k < s.investments@.len() && inv_matches(s.investments@[k], investor, project_id));
    assert(s.investment_valid(s.investments@[k]));
}

/// Law: a claim fails with DurationNotComplete whenever fewer 30-day months
/// than the project's duration have elapsed since the investment's original
/// timestamp — however much funding the project has gathered and however
/// often the claim is retried — provided anything is available to claim at
/// all (an exhausted entitlement is reported as NoReturnsAvailable first).
pub proof fn lemma_duration_gates_claims(
    s: AgroCoinContract,
    investor: Principal,
    project_id: u64,
    now: u64,
)
    requires
        s.wf(),
        s.spec_has_project(project_id),
        s.spec_project(project_id).is_funded,
        s.spec_has_investment(investor, project_id),
        entitled(
            s.spec_investment(investor, project_id).amount,
            s.spec_project(project_id).expected_roi,
        ) > s.spec_investment(investor, project_id).claimed_returns,
        now >= s.spec_investment(investor, project_id).timestamp,
        (now - s.spec_investment(investor, project_id).timestamp) / (SECONDS_PER_MONTH as int)
            < s.spec_project(project_id).duration_months,
    ensures
        claim_decision(s, investor, true, project_id, now) == Some(Error::DurationNotComplete),
{
}

/// Law: at every well-formed state the stored project ids are exactly
/// `1..=project_count`, in order — strictly increasing from 1, never reused.
/// A failed `create_project` allocates nothing (its contract leaves the
/// state untouched on every error).
pub proof fn lemma_ids_strictly_increasing(s: AgroCoinContract)
    requires
        s.wf(),
    ensures
        s.projects@.len() == s.project_count,
        forall|i: int| 0 <= i < s.projects@.len() ==> (#[trigger] s.projects@[i]).id == i + 1,
        forall|i: int, j: int| 0 <= i < j < s.projects@.len()
            ==> (#[trigger] s.projects@[i]).id < (#[trigger] s.projects@[j]).id,
{
}

} // verus!
