//! The state-changing operations. Each one takes the acting principal, the
//! host authorizer's verdict for that principal, and — where the operation
//! reads the clock — the current timestamp. Each operation either commits
//! its whole effect or returns an error and leaves the state exactly as it
//! was; the `*_decision` spec functions pin down, input by input, which
//! error that is.

use vstd::prelude::*;
use crate::errors::Error;
use crate::indexes::{
    elem_mut, ids_wf, index_append, lemma_index_wf_grow, lemma_push_contains, spec_user_ids,
};
use crate::state::AgroCoinContract;
use crate::types::{
    entitled, funding_step, inv_matches, lemma_entitled_monotone, upsert_contribution, Investment,
    Principal, Project, BPS_DENOMINATOR, SECONDS_PER_MONTH,
};
use vstd::arithmetic::div_mod::{lemma_div_nonincreasing, lemma_div_pos_is_pos};
use vstd::arithmetic::mul::lemma_mul_nonnegative;

verus! {

/// The outcome of `create_project`'s validation: an unauthorized owner is
/// refused, then each parameter is checked against its documented range.
pub open spec fn create_decision(
    owner_authorized: bool,
    funding_goal: i128,
    min_investment: i128,
    expected_roi: u32,
    duration_months: u32,
) -> Option<Error> {
    if !owner_authorized {
        Some(Error::Unauthorized)
    } else if funding_goal <= 0 {
        Some(Error::InvalidParameter)
    } else if min_investment <= 0 || min_investment > funding_goal {
        Some(Error::InvalidParameter)
    } else if expected_roi > BPS_DENOMINATOR {
        Some(Error::InvalidParameter)
    } else if duration_months == 0 || duration_months > 60 {
        Some(Error::InvalidParameter)
    } else {
        None
    }
}

/// The outcome of `initialize`: refused while an admin is already recorded,
/// then refused to an unauthorized caller, otherwise accepted.
pub open spec fn initialize_decision(pre: AgroCoinContract, admin_authorized: bool) -> Option<
    Error,
> {
    if pre.admin is Some {
        Some(Error::AlreadyInitialized)
    } else if !admin_authorized {
        Some(Error::Unauthorized)
    } else {
        None
    }
}

/// A contribution the funding state machine accepts: positive, against an
/// open project, at least the minimum, and within the remaining capacity.
pub open spec fn invest_accepted_at(
    pre: AgroCoinContract,
    project_id: u64,
    amount: i128,
) -> bool {
    amount > 0 && crate::types::invest_accepted(pre.spec_project(project_id), amount)
}

/// The outcome of `invest`'s validation, checked in this order against the
/// pre-update project: the contribution must be authorized and positive, the
/// project must exist, be active and not yet funded, the amount must reach
/// the per-contribution minimum, and the result must fit under the goal.
pub open spec fn invest_decision(
    pre: AgroCoinContract,
    investor: Principal,
    investor_authorized: bool,
    project_id: u64,
    amount: i128,
) -> Option<Error> {
    if !investor_authorized {
        Some(Error::Unauthorized)
    } else if amount <= 0 {
        Some(Error::InvalidParameter)
    } else if !pre.spec_has_project(project_id) {
        Some(Error::NotFound)
    } else if !pre.spec_project(project_id).is_active {
        Some(Error::InactiveProject)
    } else if pre.spec_project(project_id).is_funded {
        Some(Error::AlreadyFunded)
    } else if amount < pre.spec_project(project_id).min_investment {
        Some(Error::BelowMinimum)
    } else if pre.spec_project(project_id).current_funding + amount
        > pre.spec_project(project_id).funding_goal {
        Some(Error::ExceedsGoal)
    } else {
        None
    }
}

/// The outcome of `claim_returns`, checked in this order: the caller must be
/// authorized, the project must exist and be funded, the caller must hold an
/// investment record, something of the entitlement
/// (`floor(amount * expected_roi / 10000)`) must still be unclaimed, and the
/// project's duration in 30-day months must have elapsed since the
/// investment's original timestamp.
pub open spec fn claim_decision(
    pre: AgroCoinContract,
    investor: Principal,
    investor_authorized: bool,
    project_id: u64,
    now: u64,
) -> Option<Error> {
    if !investor_authorized {
        Some(Error::Unauthorized)
    } else if !pre.spec_has_project(project_id) {
        Some(Error::NotFound)
    } else if !pre.spec_project(project_id).is_funded {
        Some(Error::NotYetFunded)
    } else if !pre.spec_has_investment(investor, project_id) {
        Some(Error::NotFound)
    } else {
        let p = pre.spec_project(project_id);
        let inv = pre.spec_investment(investor, project_id);
        if entitled(inv.amount, p.expected_roi) - inv.claimed_returns <= 0 {
            Some(Error::NoReturnsAvailable)
        } else if (now - inv.timestamp) / (SECONDS_PER_MONTH as int) < p.duration_months {
            Some(Error::DurationNotComplete)
        } else {
            None
        }
    }
}

/// The machine limits a claim must respect before the entitlement can be
/// computed: the product `amount * expected_roi` fits the 128-bit result,
/// and — the clock being monotone — `now` is not before the timestamp the
/// record was created with.
pub open spec fn claim_within_limits(
    pre: AgroCoinContract,
    investor: Principal,
    project_id: u64,
    now: u64,
) -> bool {
    pre.spec_has_project(project_id) && pre.spec_project(project_id).is_funded
        && pre.spec_has_investment(investor, project_id) ==> {
        let p = pre.spec_project(project_id);
        let inv = pre.spec_investment(investor, project_id);
        &&& inv.amount * p.expected_roi <= i128::MAX
        &&& (entitled(inv.amount, p.expected_roi) > inv.claimed_returns ==> now >= inv.timestamp)
    }
}

/// The outcome of `pause_project`: only the recorded admin, authorized by
/// the host, may pause an existing project.
pub open spec fn pause_decision(
    pre: AgroCoinContract,
    caller: Principal,
    caller_authorized: bool,
    project_id: u64,
) -> Option<Error> {
    if !caller_authorized {
        Some(Error::Unauthorized)
    } else if pre.admin is None {
        Some(Error::NotInitialized)
    } else if pre.admin != Some(caller) {
        Some(Error::Unauthorized)
    } else if !pre.spec_has_project(project_id) {
        Some(Error::NotFound)
    } else {
        None
    }
}

/// The outcome of `withdraw_funds`: only the project's owner, authorized by
/// the host, may withdraw, and only once the project is funded.
pub open spec fn withdraw_decision(
    pre: AgroCoinContract,
    caller: Principal,
    caller_authorized: bool,
    project_id: u64,
) -> Option<Error> {
    if !caller_authorized {
        Some(Error::Unauthorized)
    } else if !pre.spec_has_project(project_id) {
        Some(Error::NotFound)
    } else if pre.spec_project(project_id).owner != caller {
        Some(Error::Unauthorized)
    } else if !pre.spec_project(project_id).is_funded {
        Some(Error::NotYetFunded)
    } else {
        None
    }
}

impl AgroCoinContract {
    /// Records the admin singleton, exactly once: a second call fails with
    /// AlreadyInitialized and never silently overwrites. Also sets the
    /// project counter to zero, as the interface has always done.
    pub fn initialize(&mut self, admin: Principal, admin_authorized: bool) -> (r: Result<
        (),
        Error,
    >)
        requires
            old(self).wf(),
        ensures
            match r {
                Ok(()) => {
                    &&& initialize_decision(*old(self), admin_authorized) is None
                    &&& *final(self) == (AgroCoinContract {
                        admin: Some(admin),
                        project_count: 0,
                        ..*old(self)
                    })
                },
                Err(e) => {
                    &&& Some(e) == initialize_decision(*old(self), admin_authorized)
                    &&& *final(self) == *old(self)
                },
            },
            old(self).project_count == 0 ==> final(self).wf(),
    {
        if self.admin.is_some() {
            return Err(Error::AlreadyInitialized);
        }
        if !admin_authorized {
            return Err(Error::Unauthorized);
        }
        self.admin = Some(admin);
        self.project_count = 0;
        Ok(())
    }

    /// Creates a project under the next id (the counter incremented, so ids
    /// start at 1 and are strictly increasing with no reuse), with no
    /// funding yet, active and unfunded, stamped with the clock's `now`,
    /// and appends the id to the owner's created-projects index. A failed
    /// validation allocates nothing and changes nothing.
    pub fn create_project(
        &mut self,
        owner: Principal,
        owner_authorized: bool,
        name: String,
        description: String,
        funding_goal: i128,
        min_investment: i128,
        expected_roi: u32,
        duration_months: u32,
        now: u64,
    ) -> (r: Result<u64, Error>)
        requires
            old(self).wf(),
            old(self).project_count < u64::MAX,
        ensures
            final(self).wf(),
            match r {
                Ok(id) => {
                    &&& create_decision(owner_authorized, funding_goal, min_investment,
                        expected_roi, duration_months) is None
                    &&& id == old(self).project_count + 1
                    &&& final(self).project_count == old(self).project_count + 1
                    &&& final(self).projects@ == old(self).projects@.push(Project {
                        id,
                        owner,
                        name,
                        description,
                        funding_goal,
                        current_funding: 0,
                        min_investment,
                        expected_roi,
                        duration_months,
                        is_active: true,
                        is_funded: false,
                        created_at: now,
                    })
                    &&& final(self).admin == old(self).admin
                    &&& final(self).investments@ == old(self).investments@
                    &&& final(self).user_investments@ == old(self).user_investments@
                    &&& spec_user_ids(final(self).user_projects@, owner) == spec_user_ids(
                        old(self).user_projects@,
                        owner,
                    ).push(id)
                    &&& forall|u: Principal| u != owner
                        ==> #[trigger] spec_user_ids(final(self).user_projects@, u)
                            == spec_user_ids(old(self).user_projects@, u)
                },
                Err(e) => {
                    &&& Some(e) == create_decision(owner_authorized, funding_goal, min_investment,
                        expected_roi, duration_months)
                    &&& *final(self) == *old(self)
                },
            },
    {
        if !owner_authorized {
            return Err(Error::Unauthorized);
        }
        if funding_goal <= 0 {
            return Err(Error::InvalidParameter);
        }
        if min_investment <= 0 || min_investment > funding_goal {
            return Err(Error::InvalidParameter);
        }
        if expected_roi > BPS_DENOMINATOR {
            return Err(Error::InvalidParameter);
        }
        if duration_months == 0 || duration_months > 60 {
            return Err(Error::InvalidParameter);
        }

        let new_id = self.project_count + 1;
        let project = Project {
            id: new_id,
            owner,
            name,
            description,
            funding_goal,
            current_funding: 0,
            min_investment,
            expected_roi,
            duration_months,
            is_active: true,
            is_funded: false,
            created_at: now,
        };
        self.projects.push(project);
        self.project_count = new_id;

        proof {
            assert(ids_wf(spec_user_ids(self.user_projects@, owner), old(self).project_count));
            assert(!spec_user_ids(self.user_projects@, owner).contains(new_id));
        }
        index_append(&mut self.user_projects, owner, new_id);

        proof {
            let pre = *old(self);
            assert forall|i: int| 0 <= i < self.projects@.len()
                implies (#[trigger] self.projects@[i]).valid() && self.projects@[i].id == i
                + 1 by {
                if i < pre.projects@.len() {
                    assert(self.projects@[i] == pre.projects@[i]);
                    assert(pre.projects@[i].valid());
                }
            }
            assert forall|i: int| 0 <= i < self.investments@.len()
                implies self.investment_valid(#[trigger] self.investments@[i]) by {
                assert(pre.investment_valid(pre.investments@[i]));
                let pid = self.investments@[i].project_id;
                assert(self.projects@[pid - 1] == pre.projects@[pid - 1]);
            }
            lemma_index_wf_grow(self.user_investments@, pre.project_count, new_id);
            assert forall|u: Principal|
                ids_wf(#[trigger] spec_user_ids(self.user_projects@, u), new_id) by {
                if u == owner {
                    let old_ids = spec_user_ids(pre.user_projects@, owner);
                    assert(ids_wf(old_ids, pre.project_count));
                    let new_ids = spec_user_ids(self.user_projects@, owner);
                    assert(new_ids == old_ids.push(new_id));
                    assert forall|a: int| 0 <= a < new_ids.len()
                        implies 1 <= #[trigger] new_ids[a] <= new_id by {
                        if a < old_ids.len() {
                            assert(new_ids[a] == old_ids[a]);
                        }
                    }
                    assert forall|a: int, b: int| 0 <= a < b < new_ids.len()
                        implies new_ids[a] != new_ids[b] by {
                        if b < old_ids.len() {
                            assert(new_ids[a] == old_ids[a] && new_ids[b] == old_ids[b]);
                        } else {
                            assert(new_ids[a] == old_ids[a]);
                            assert(old_ids[a] <= pre.project_count);
                            assert(new_ids[b] == new_id);
                        }
                    }
                } else {
                    assert(spec_user_ids(self.user_projects@, u) == spec_user_ids(
                        pre.user_projects@,
                        u,
                    ));
                    assert(ids_wf(spec_user_ids(pre.user_projects@, u), pre.project_count));
                }
            }
        }
        Ok(new_id)
    }

    /// Contributes `amount` to a project. On success the project's funding
    /// grows by exactly `amount` (marking it funded once the goal is
    /// reached), the contribution is folded into the investor's aggregate
    /// record — created and stamped with `now` on their first contribution,
    /// with its original timestamp and claims untouched on a top-up — and
    /// the project id is recorded in the investor's invested-index once.
    /// Any rejection leaves the whole state exactly as it was.
    pub fn invest(
        &mut self,
        investor: Principal,
        investor_authorized: bool,
        project_id: u64,
        amount: i128,
        now: u64,
    ) -> (r: Result<(), Error>)
        requires
            old(self).wf(),
        ensures
            final(self).wf(),
            match r {
                Ok(()) => {
                    &&& invest_decision(*old(self), investor, investor_authorized, project_id,
                        amount) is None
                    &&& final(self).projects@ == old(self).projects@.update(
                        project_id - 1,
                        funding_step(old(self).spec_project(project_id), amount),
                    )
                    &&& final(self).admin == old(self).admin
                    &&& final(self).project_count == old(self).project_count
                    &&& final(self).user_projects@ == old(self).user_projects@
                    &&& final(self).spec_has_investment(investor, project_id)
                    &&& final(self).spec_investment(investor, project_id) == upsert_contribution(
                        if old(self).spec_has_investment(investor, project_id) {
                            Some(old(self).spec_investment(investor, project_id))
                        } else {
                            None
                        },
                        investor,
                        project_id,
                        amount,
                        now,
                    )
                    &&& if old(self).spec_has_investment(investor, project_id) {
                        &&& final(self).investments@ == old(self).investments@.update(
                            old(self).spec_investment_index(investor, project_id),
                            upsert_contribution(
                                Some(old(self).spec_investment(investor, project_id)),
                                investor,
                                project_id,
                                amount,
                                now,
                            ),
                        )
                        &&& final(self).user_investments@ == old(self).user_investments@
                    } else {
                        &&& final(self).investments@ == old(self).investments@.push(
                            upsert_contribution(None, investor, project_id, amount, now),
                        )
                        &&& spec_user_ids(final(self).user_investments@, investor)
                            == spec_user_ids(old(self).user_investments@, investor).push(
                            project_id,
                        )
                        &&& forall|u: Principal| u != investor
                            ==> #[trigger] spec_user_ids(final(self).user_investments@, u)
                                == spec_user_ids(old(self).user_investments@, u)
                    }
                },
                Err(e) => {
                    &&& Some(e) == invest_decision(*old(self), investor, investor_authorized,
                        project_id, amount)
                    &&& *final(self) == *old(self)
                },
            },
    {
        if !investor_authorized {
            return Err(Error::Unauthorized);
        }
        if amount <= 0 {
            return Err(Error::InvalidParameter);
        }
        if !(1 <= project_id && project_id <= self.projects.len() as u64) {
            return Err(Error::NotFound);
        }
        let idx = (project_id - 1) as usize;
        proof {
            assert(old(self).projects@[idx as int].valid());
        }
        if !self.projects[idx].is_active {
            return Err(Error::InactiveProject);
        }
        if self.projects[idx].is_funded {
            return Err(Error::AlreadyFunded);
        }
        if amount < self.projects[idx].min_investment {
            return Err(Error::BelowMinimum);
        }
        if amount > self.projects[idx].funding_goal - self.projects[idx].current_funding {
            return Err(Error::ExceedsGoal);
        }

        let p = elem_mut(&mut self.projects, idx);
        p.current_funding = p.current_funding + amount;
        if p.current_funding >= p.funding_goal {
            p.is_funded = true;
        }
        proof {
            assert(self.projects@[idx as int] == funding_step(
                old(self).spec_project(project_id),
                amount,
            ));
            assert(self.projects@ == old(self).projects@.update(
                project_id - 1,
                funding_step(old(self).spec_project(project_id), amount),
            ));
        }

        match self.find_investment(investor, project_id) {
            Some(i) => {
                proof {
                    old(self).lemma_investment_index_is(investor, project_id, i as int);
                    assert(old(self).investment_valid(old(self).investments@[i as int]));
                }
                let inv = elem_mut(&mut self.investments, i);
                inv.amount = inv.amount + amount;
                proof {
                    self.invest_wf_after_topup(*old(self), investor, project_id, amount, i as int);
                    self.lemma_investment_index_is(investor, project_id, i as int);
                }
            }
            None => {
                proof {
                    assert(!old(self).spec_has_investment(investor, project_id)) by {
                        if old(self).spec_has_investment(investor, project_id) {
                            let w = choose|w: int| 0 <= w < old(self).investments@.len()
                                && inv_matches(#[trigger] old(self).investments@[w], investor,
                                project_id,
                            );
                            assert(inv_matches(self.investments@[w], investor, project_id));
                            assert(self.spec_has_investment(investor, project_id));
                        }
                    };
                }
                self.investments.push(
                    Investment {
                        investor,
                        project_id,
                        amount,
                        timestamp: now,
                        claimed_returns: 0,
                    },
                );
                let ghost mid = *self;
                proof {
                    assert(!spec_user_ids(old(self).user_investments@, investor).contains(
                        project_id,
                    ));
                    assert(self.user_investments@ == old(self).user_investments@);
                }
                index_append(&mut self.user_investments, investor, project_id);
                proof {
                    self.invest_wf_after_first(*old(self), mid, investor, project_id, amount, now);
                    let n = old(self).investments@.len() as int;
                    assert(inv_matches(self.investments@[n], investor, project_id));
                    self.lemma_investment_index_is(investor, project_id, n);
                }
            }
        }
        Ok(())
    }

    /// After a top-up of an existing record, the state is well-formed again.
    proof fn invest_wf_after_topup(
        self,
        pre: AgroCoinContract,
        investor: Principal,
        project_id: u64,
        amount: i128,
        k: int,
    )
        requires
            pre.wf(),
            pre.spec_has_project(project_id),
            invest_accepted_at(pre, project_id, amount),
            0 <= k < pre.investments@.len(),
            inv_matches(pre.investments@[k], investor, project_id),
            self.projects@ == pre.projects@.update(
                project_id - 1,
                funding_step(pre.spec_project(project_id), amount),
            ),
            self.investments@ == pre.investments@.update(
                k,
                (Investment {
                    amount: (pre.investments@[k].amount + amount) as i128,
                    ..pre.investments@[k]
                }),
            ),
            self.project_count == pre.project_count,
            self.user_projects@ == pre.user_projects@,
            self.user_investments@ == pre.user_investments@,
        ensures
            self.wf(),
    {
        let pj = pre.spec_project(project_id);
        assert forall|t: int| 0 <= t < self.projects@.len()
            implies (#[trigger] self.projects@[t]).valid() && self.projects@[t].id == t + 1 by {
            assert(pre.projects@[t].valid());
        }
        assert forall|t: int| 0 <= t < self.investments@.len()
            implies self.investment_valid(#[trigger] self.investments@[t]) by {
            assert(pre.investment_valid(pre.investments@[t]));
            let q = self.investments@[t].project_id;
            assert(self.investments@[t].investor == pre.investments@[t].investor);
            assert(q == pre.investments@[t].project_id);
            if q == project_id {
                assert(self.spec_project(q).expected_roi == pj.expected_roi);
                assert(self.spec_project(q).current_funding == pj.current_funding + amount);
            } else {
                assert(self.spec_project(q) == pre.spec_project(q));
            }
            if t == k {
                lemma_entitled_monotone(
                    pre.investments@[t].amount,
                    self.investments@[t].amount,
                    pj.expected_roi,
                );
            }
        }
        assert forall|a: int, b: int| 0 <= a < b < self.investments@.len()
            implies !((#[trigger] self.investments@[a]).investor
                == (#[trigger] self.investments@[b]).investor && self.investments@[a].project_id
                == self.investments@[b].project_id) by {
            assert(self.investments@[a].investor == pre.investments@[a].investor);
            assert(self.investments@[b].investor == pre.investments@[b].investor);
            assert(self.investments@[a].project_id == pre.investments@[a].project_id);
            assert(self.investments@[b].project_id == pre.investments@[b].project_id);
        }
        AgroCoinContract::lemma_keys_preserved(pre, self);
        assert(self.invested_index_consistent()) by {
            assert forall|u: Principal, p: u64|
                #![trigger spec_user_ids(self.user_investments@, u).contains(p)]
                #![trigger self.spec_has_investment(u, p)]
                spec_user_ids(self.user_investments@, u).contains(p) <==> self.spec_has_investment(
                    u,
                    p,
                ) by {
                assert(spec_user_ids(pre.user_investments@, u).contains(p)
                    <==> pre.spec_has_investment(u, p));
            }
        }
    }

    /// After a first contribution — record pushed, id appended to the
    /// invested-index — the state is well-formed again.
    proof fn invest_wf_after_first(
        self,
        pre: AgroCoinContract,
        mid: AgroCoinContract,
        investor: Principal,
        project_id: u64,
        amount: i128,
        now: u64,
    )
        requires
            pre.wf(),
            pre.spec_has_project(project_id),
            invest_accepted_at(pre, project_id, amount),
            !pre.spec_has_investment(investor, project_id),
            mid.projects@ == pre.projects@.update(
                project_id - 1,
                funding_step(pre.spec_project(project_id), amount),
            ),
            mid.investments@ == pre.investments@.push(
                (Investment { investor, project_id, amount, timestamp: now, claimed_returns: 0 }),
            ),
            mid.project_count == pre.project_count,
            mid.user_projects@ == pre.user_projects@,
            mid.user_investments@ == pre.user_investments@,
            self.admin == mid.admin,
            self.project_count == mid.project_count,
            self.projects@ == mid.projects@,
            self.investments@ == mid.investments@,
            self.user_projects@ == mid.user_projects@,
            spec_user_ids(self.user_investments@, investor) == spec_user_ids(
                pre.user_investments@,
                investor,
            ).push(project_id),
            forall|u: Principal| u != investor
                ==> #[trigger] spec_user_ids(self.user_investments@, u) == spec_user_ids(
                    pre.user_investments@,
                    u,
                ),
            crate::indexes::users_distinct(self.user_investments@),
        ensures
            self.wf(),
    {
        let pj = pre.spec_project(project_id);
        let n = pre.investments@.len() as int;
        assert forall|t: int| 0 <= t < self.projects@.len()
            implies (#[trigger] self.projects@[t]).valid() && self.projects@[t].id == t + 1 by {
            assert(pre.projects@[t].valid());
        }
        assert forall|t: int| 0 <= t < self.investments@.len()
            implies self.investment_valid(#[trigger] self.investments@[t]) by {
            if t < n {
                assert(self.investments@[t] == pre.investments@[t]);
                assert(pre.investment_valid(pre.investments@[t]));
                let q = self.investments@[t].project_id;
                if q == project_id {
                    assert(self.spec_project(q).expected_roi == pj.expected_roi);
                    assert(self.spec_project(q).current_funding == pj.current_funding + amount);
                } else {
                    assert(self.spec_project(q) == pre.spec_project(q));
                }
            } else {
                assert(self.investments@[t] == (Investment {
                    investor,
                    project_id,
                    amount,
                    timestamp: now,
                    claimed_returns: 0,
                }));
                lemma_entitled_monotone(amount, amount, pj.expected_roi);
                assert(self.spec_project(project_id).current_funding == pj.current_funding
                    + amount);
            }
        }
        assert forall|a: int, b: int| 0 <= a < b < self.investments@.len()
            implies !((#[trigger] self.investments@[a]).investor
                == (#[trigger] self.investments@[b]).investor && self.investments@[a].project_id
                == self.investments@[b].project_id) by {
            if b < n {
                assert(self.investments@[a] == pre.investments@[a]);
                assert(self.investments@[b] == pre.investments@[b]);
            } else {
                assert(self.investments@[a] == pre.investments@[a]);
                if self.investments@[a].investor == investor && self.investments@[a].project_id
                    == project_id {
                    assert(pre.spec_has_investment(investor, project_id));
                }
            }
        }
        assert forall|u: Principal|
            ids_wf(#[trigger] spec_user_ids(self.user_investments@, u), self.project_count) by {
            if u == investor {
                let old_ids = spec_user_ids(pre.user_investments@, investor);
                assert(ids_wf(old_ids, pre.project_count));
                let new_ids = spec_user_ids(self.user_investments@, investor);
                assert(new_ids == old_ids.push(project_id));
                assert(!old_ids.contains(project_id)) by {
                    assert(spec_user_ids(pre.user_investments@, investor).contains(project_id)
                        <==> pre.spec_has_investment(investor, project_id));
                }
                assert forall|a: int| 0 <= a < new_ids.len()
                    implies 1 <= #[trigger] new_ids[a] <= self.project_count by {
                    if a < old_ids.len() {
                        assert(new_ids[a] == old_ids[a]);
                    }
                }
                assert forall|a: int, b: int| 0 <= a < b < new_ids.len()
                    implies new_ids[a] != new_ids[b] by {
                    assert(new_ids[a] == old_ids[a]);
                    if b < old_ids.len() {
                        assert(new_ids[b] == old_ids[b]);
                    } else {
                        assert(new_ids[b] == project_id);
                        if old_ids[a] == project_id {
                            assert(old_ids.contains(project_id));
                        }
                    }
                }
            } else {
                assert(spec_user_ids(self.user_investments@, u) == spec_user_ids(
                    pre.user_investments@,
                    u,
                ));
                assert(ids_wf(spec_user_ids(pre.user_investments@, u), pre.project_count));
            }
        }
        assert(self.invested_index_consistent()) by {
            assert forall|u: Principal, p: u64|
                #![trigger spec_user_ids(self.user_investments@, u).contains(p)]
                #![trigger self.spec_has_investment(u, p)]
                spec_user_ids(self.user_investments@, u).contains(p) <==> self.spec_has_investment(
                    u,
                    p,
                ) by {
                assert(spec_user_ids(pre.user_investments@, u).contains(p)
                    <==> pre.spec_has_investment(u, p));
                if u == investor {
                    lemma_push_contains(
                        spec_user_ids(pre.user_investments@, investor),
                        project_id,
                        p,
                    );
                }
                if self.spec_has_investment(u, p) {
                    let w = choose|w: int| 0 <= w < self.investments@.len()
                        && inv_matches(#[trigger] self.investments@[w], u, p);
                    if w < n {
                        assert(inv_matches(pre.investments@[w], u, p));
                    } else {
                        assert(u == investor && p == project_id);
                    }
                }
                if pre.spec_has_investment(u, p) {
                    let w = choose|w: int| 0 <= w < pre.investments@.len()
                        && inv_matches(#[trigger] pre.investments@[w], u, p);
                    assert(inv_matches(self.investments@[w], u, p));
                }
                if u == investor && p == project_id {
                    assert(inv_matches(self.investments@[n], u, p));
                }
            }
        }
    }

    /// Pays out the investor's newly available returns: the entitlement
    /// `floor(amount * expected_roi / 10000)` less what was already claimed.
    /// The claim is gated on the project being funded and on maturity —
    /// measured from the record's original timestamp, the one set by the
    /// first contribution — and raises `claimed_returns` to exactly the
    /// entitlement, so an immediate second claim finds nothing available.
    pub fn claim_returns(
        &mut self,
        investor: Principal,
        investor_authorized: bool,
        project_id: u64,
        now: u64,
    ) -> (r: Result<i128, Error>)
        requires
            old(self).wf(),
            claim_within_limits(*old(self), investor, project_id, now),
        ensures
            final(self).wf(),
            match r {
                Ok(paid) => {
                    &&& claim_decision(*old(self), investor, investor_authorized, project_id, now)
                        is None
                    &&& paid == entitled(
                        old(self).spec_investment(investor, project_id).amount,
                        old(self).spec_project(project_id).expected_roi,
                    ) - old(self).spec_investment(investor, project_id).claimed_returns
                    &&& paid > 0
                    &&& final(self).investments@ == old(self).investments@.update(
                        old(self).spec_investment_index(investor, project_id),
                        (Investment {
                            claimed_returns: entitled(
                                old(self).spec_investment(investor, project_id).amount,
                                old(self).spec_project(project_id).expected_roi,
                            ) as i128,
                            ..old(self).spec_investment(investor, project_id)
                        }),
                    )
                    &&& final(self).spec_has_investment(investor, project_id)
                    &&& final(self).spec_investment(investor, project_id) == (Investment {
                        claimed_returns: entitled(
                            old(self).spec_investment(investor, project_id).amount,
                            old(self).spec_project(project_id).expected_roi,
                        ) as i128,
                        ..old(self).spec_investment(investor, project_id)
                    })
                    &&& final(self).admin == old(self).admin
                    &&& final(self).project_count == old(self).project_count
                    &&& final(self).projects@ == old(self).projects@
                    &&& final(self).user_projects@ == old(self).user_projects@
                    &&& final(self).user_investments@ == old(self).user_investments@
                },
                Err(e) => {
                    &&& Some(e) == claim_decision(*old(self), investor, investor_authorized,
                        project_id, now)
                    &&& *final(self) == *old(self)
                },
            },
    {
        if !investor_authorized {
            return Err(Error::Unauthorized);
        }
        if !(1 <= project_id && project_id <= self.projects.len() as u64) {
            return Err(Error::NotFound);
        }
        let idx = (project_id - 1) as usize;
        if !self.projects[idx].is_funded {
            return Err(Error::NotYetFunded);
        }
        let roi = self.projects[idx].expected_roi;
        let duration = self.projects[idx].duration_months;
        let i = match self.find_investment(investor, project_id) {
            Some(i) => i,
            None => {
                return Err(Error::NotFound);
            }
        };
        proof {
            self.lemma_investment_index_is(investor, project_id, i as int);
            assert(self.investment_valid(self.investments@[i as int]));
            lemma_mul_nonnegative(self.investments@[i as int].amount as int, roi as int);
            lemma_div_pos_is_pos(
                self.investments@[i as int].amount * roi,
                BPS_DENOMINATOR as int,
            );
            lemma_div_nonincreasing(
                self.investments@[i as int].amount * roi,
                BPS_DENOMINATOR as int,
            );
        }
        let amount = self.investments[i].amount;
        let claimed = self.investments[i].claimed_returns;
        let ts = self.investments[i].timestamp;
        let total = (amount * (roi as i128)) / (BPS_DENOMINATOR as i128);
        proof {
            assert(total == entitled(amount, roi));
        }
        let available = total - claimed;
        if available <= 0 {
            return Err(Error::NoReturnsAvailable);
        }
        let elapsed = now - ts;
        let months = elapsed / SECONDS_PER_MONTH;
        if months < duration as u64 {
            return Err(Error::DurationNotComplete);
        }
        let inv = elem_mut(&mut self.investments, i);
        inv.claimed_returns = inv.claimed_returns + available;
        proof {
            let pre = *old(self);
            let k = i as int;
            assert(self.investments@[k].claimed_returns == entitled(amount, roi));
            assert forall|t: int| 0 <= t < self.investments@.len()
                implies self.investment_valid(#[trigger] self.investments@[t]) by {
                assert(pre.investment_valid(pre.investments@[t]));
                if t != k {
                    assert(self.investments@[t] == pre.investments@[t]);
                }
                assert(self.spec_project(self.investments@[t].project_id) == pre.spec_project(
                    pre.investments@[t].project_id,
                ));
            }
            assert forall|a: int, b: int| 0 <= a < b < self.investments@.len()
                implies !((#[trigger] self.investments@[a]).investor
                    == (#[trigger] self.investments@[b]).investor
                    && self.investments@[a].project_id == self.investments@[b].project_id) by {
                assert(self.investments@[a].investor == pre.investments@[a].investor);
                assert(self.investments@[b].investor == pre.investments@[b].investor);
                assert(self.investments@[a].project_id == pre.investments@[a].project_id);
                assert(self.investments@[b].project_id == pre.investments@[b].project_id);
            }
            AgroCoinContract::lemma_keys_preserved(pre, *self);
            assert(self.invested_index_consistent()) by {
                assert forall|u: Principal, p: u64|
                    #![trigger spec_user_ids(self.user_investments@, u).contains(p)]
                    #![trigger self.spec_has_investment(u, p)]
                    spec_user_ids(self.user_investments@, u).contains(p)
                        <==> self.spec_has_investment(u, p) by {
                    assert(spec_user_ids(pre.user_investments@, u).contains(p)
                        <==> pre.spec_has_investment(u, p));
                }
            }
            self.lemma_investment_index_is(investor, project_id, k);
        }
        Ok(available)
    }

    /// Pauses a project: sets `is_active` to false and touches nothing
    /// else. Irreversible through this interface.
    pub fn pause_project(&mut self, caller: Principal, caller_authorized: bool, project_id: u64)
        -> (r: Result<(), Error>)
        requires
            old(self).wf(),
        ensures
            final(self).wf(),
            match r {
                Ok(()) => {
                    &&& pause_decision(*old(self), caller, caller_authorized, project_id) is None
                    &&& final(self).projects@ == old(self).projects@.update(
                        project_id - 1,
                        (Project { is_active: false, ..old(self).spec_project(project_id) }),
                    )
                    &&& final(self).admin == old(self).admin
                    &&& final(self).project_count == old(self).project_count
                    &&& final(self).investments@ == old(self).investments@
                    &&& final(self).user_projects@ == old(self).user_projects@
                    &&& final(self).user_investments@ == old(self).user_investments@
                },
                Err(e) => {
                    &&& Some(e) == pause_decision(*old(self), caller, caller_authorized, project_id)
                    &&& *final(self) == *old(self)
                },
            },
    {
        if !caller_authorized {
            return Err(Error::Unauthorized);
        }
        let stored = match self.admin {
            Some(a) => a,
            None => {
                return Err(Error::NotInitialized);
            }
        };
        if caller != stored {
            return Err(Error::Unauthorized);
        }
        if !(1 <= project_id && project_id <= self.projects.len() as u64) {
            return Err(Error::NotFound);
        }
        let idx = (project_id - 1) as usize;
        let p = elem_mut(&mut self.projects, idx);
        p.is_active = false;
        proof {
            assert forall|i: int| 0 <= i < self.projects@.len()
                implies (#[trigger] self.projects@[i]).valid() && self.projects@[i].id == i
                + 1 by {
                assert(old(self).projects@[i].valid());
            }
            assert forall|i: int| 0 <= i < self.investments@.len()
                implies self.investment_valid(#[trigger] self.investments@[i]) by {
                assert(old(self).investment_valid(old(self).investments@[i]));
                let pid = self.investments@[i].project_id;
                assert(self.spec_project(pid).current_funding == old(self).spec_project(
                    pid,
                ).current_funding);
                assert(self.spec_project(pid).expected_roi == old(self).spec_project(
                    pid,
                ).expected_roi);
            }
        }
        Ok(())
    }

    /// Reports the amount the funded project's owner may withdraw: its full
    /// `current_funding`. The interface keeps no record of withdrawals
    /// already made, so repeated calls report the same figure — a known gap
    /// of the design, preserved here.
    pub fn withdraw_funds(&self, caller: Principal, caller_authorized: bool, project_id: u64)
        -> (r: Result<i128, Error>)
        ensures
            match r {
                Ok(amount) => {
                    &&& withdraw_decision(*self, caller, caller_authorized, project_id) is None
                    &&& amount == self.spec_project(project_id).current_funding
                },
                Err(e) => Some(e) == withdraw_decision(*self, caller, caller_authorized, project_id),
            },
    {
        if !caller_authorized {
            return Err(Error::Unauthorized);
        }
        let project = match self.get_project(project_id) {
            Ok(p) => p,
            Err(e) => {
                return Err(e);
            }
        };
        if project.owner != caller {
            return Err(Error::Unauthorized);
        }
        if !project.is_funded {
            return Err(Error::NotYetFunded);
        }
        Ok(project.current_funding)
    }
}

} // verus!
