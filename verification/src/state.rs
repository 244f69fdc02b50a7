//! The contract state: admin singleton, sequential id allocator, project
//! store, investment ledger and the two user indexes, with the
//! well-formedness invariant every operation preserves, and the read-only
//! queries.

use vstd::prelude::*;
use crate::errors::Error;
use crate::types::{
    entitled, inv_matches, spec_funding_percentage, Investment, Principal, Project, ProjectStats,
    BPS_DENOMINATOR,
};
use vstd::arithmetic::div_mod::{
    lemma_div_is_ordered, lemma_div_multiples_vanish, lemma_div_pos_is_pos,
};
use crate::indexes::{
    copy_ids, find_user, index_wf, lemma_user_entry_index_is, spec_user_ids, users_distinct,
    UserIndex,
};

verus! {

/// The whole persisted state of the contract. The project with id `n`
/// stands at position `n - 1` of `projects`; ids are allocated by
/// incrementing `project_count`, so they are unique and strictly increasing
/// starting at 1.
pub struct AgroCoinContract {
    pub admin: Option<Principal>,
    pub project_count: u64,
    pub projects: Vec<Project>,
    pub investments: Vec<Investment>,
    pub user_projects: Vec<UserIndex>,
    pub user_investments: Vec<UserIndex>,
}

impl AgroCoinContract {
    /// Whether a project with this id has been allocated.
    pub open spec fn spec_has_project(self, project_id: u64) -> bool {
        1 <= project_id <= self.projects@.len()
    }

    /// The project stored under `project_id`.
    pub open spec fn spec_project(self, project_id: u64) -> Project {
        self.projects@[project_id - 1]
    }

    /// Whether an investment record exists for the (investor, project) pair.
    pub open spec fn spec_has_investment(self, investor: Principal, project_id: u64) -> bool {
        exists|i: int| 0 <= i < self.investments@.len()
            && inv_matches(#[trigger] self.investments@[i], investor, project_id)
    }

    /// The ledger position of the pair's record (meaningful when it exists;
    /// well-formedness makes it unique).
    pub open spec fn spec_investment_index(self, investor: Principal, project_id: u64) -> int {
        choose|i: int| 0 <= i < self.investments@.len()
            && inv_matches(#[trigger] self.investments@[i], investor, project_id)
    }

    /// The investment record for the (investor, project) pair.
    pub open spec fn spec_investment(self, investor: Principal, project_id: u64) -> Investment {
        self.investments@[self.spec_investment_index(investor, project_id)]
    }

    /// Projects: the counter matches the store, each stored project is
    /// valid and sits at the position its id names.
    pub open spec fn projects_wf(self) -> bool {
        &&& self.projects@.len() == self.project_count
        &&& forall|i: int| 0 <= i < self.projects@.len()
            ==> (#[trigger] self.projects@[i]).valid() && self.projects@[i].id == i + 1
    }

    /// One investment record's relation to the rest of the state: it names
    /// an allocated project, carries a positive aggregate no larger than
    /// that project's funding, and its claims stay within the entitlement.
    pub open spec fn investment_valid(self, inv: Investment) -> bool {
        &&& self.spec_has_project(inv.project_id)
        &&& 0 < inv.amount <= self.spec_project(inv.project_id).current_funding
        &&& 0 <= inv.claimed_returns
            <= entitled(inv.amount, self.spec_project(inv.project_id).expected_roi)
    }

    /// Ledger: every record valid, at most one record per (investor,
    /// project) pair.
    pub open spec fn investments_wf(self) -> bool {
        &&& forall|i: int| 0 <= i < self.investments@.len()
            ==> self.investment_valid(#[trigger] self.investments@[i])
        &&& forall|i: int, j: int| 0 <= i < j < self.investments@.len()
            ==> !((#[trigger] self.investments@[i]).investor
                    == (#[trigger] self.investments@[j]).investor
                && self.investments@[i].project_id == self.investments@[j].project_id)
    }

    /// The invested-index records exactly the pairs the ledger holds.
    pub open spec fn invested_index_consistent(self) -> bool {
        forall|u: Principal, p: u64|
            #![trigger spec_user_ids(self.user_investments@, u).contains(p)]
            #![trigger self.spec_has_investment(u, p)]
            spec_user_ids(self.user_investments@, u).contains(p)
                <==> self.spec_has_investment(u, p)
    }

    /// The invariant every operation requires and re-establishes.
    pub open spec fn wf(self) -> bool {
        &&& self.projects_wf()
        &&& self.investments_wf()
        &&& index_wf(self.user_projects@, self.project_count)
        &&& index_wf(self.user_investments@, self.project_count)
        &&& self.invested_index_consistent()
    }

    /// The state as deployed, before initialization: no admin, no projects,
    /// no investments, empty indexes.
    pub fn new() -> (r: AgroCoinContract)
        ensures
            r.wf(),
            r.admin is None,
            r.project_count == 0,
            r.projects@ == Seq::<Project>::empty(),
            r.investments@ == Seq::<Investment>::empty(),
            r.user_projects@ == Seq::<UserIndex>::empty(),
            r.user_investments@ == Seq::<UserIndex>::empty(),
    {
        AgroCoinContract {
            admin: None,
            project_count: 0,
            projects: Vec::new(),
            investments: Vec::new(),
            user_projects: Vec::new(),
            user_investments: Vec::new(),
        }
    }

    /// A matching ledger position pins down the spec-level index.
    pub proof fn lemma_investment_index_is(self, investor: Principal, project_id: u64, i: int)
        requires
            self.investments_wf(),
            0 <= i < self.investments@.len(),
            inv_matches(self.investments@[i], investor, project_id),
        ensures
            self.spec_has_investment(investor, project_id),
            self.spec_investment_index(investor, project_id) == i,
            self.spec_investment(investor, project_id) == self.investments@[i],
    {
        assert(self.spec_has_investment(investor, project_id));
        let k = self.spec_investment_index(investor, project_id);
        assert(0 <= k < self.investments@.len()
            && inv_matches(self.investments@[k], investor, project_id));
        if k != i {
            if k < i {
                assert(!(self.investments@[k].investor == self.investments@[i].investor
                    && self.investments@[k].project_id == self.investments@[i].project_id));
            } else {
                assert(!(self.investments@[i].investor == self.investments@[k].investor
                    && self.investments@[i].project_id == self.investments@[k].project_id));
            }
            assert(false);
        }
    }

    /// Two ledgers of equal length whose records carry the same keys
    /// position by position record exactly the same (investor, project)
    /// pairs.
    pub proof fn lemma_keys_preserved(a: AgroCoinContract, b: AgroCoinContract)
        requires
            a.investments@.len() == b.investments@.len(),
            forall|i: int| 0 <= i < a.investments@.len()
                ==> (#[trigger] b.investments@[i]).investor
                        == (#[trigger] a.investments@[i]).investor
                    && b.investments@[i].project_id == a.investments@[i].project_id,
        ensures
            forall|u: Principal, p: u64|
                #![trigger a.spec_has_investment(u, p)]
                #![trigger b.spec_has_investment(u, p)]
                a.spec_has_investment(u, p) <==> b.spec_has_investment(u, p),
    {
        assert forall|u: Principal, p: u64|
            #![trigger a.spec_has_investment(u, p)]
            #![trigger b.spec_has_investment(u, p)]
            a.spec_has_investment(u, p) <==> b.spec_has_investment(u, p) by {
            if a.spec_has_investment(u, p) {
                let i = choose|i: int| 0 <= i < a.investments@.len()
                    && inv_matches(#[trigger] a.investments@[i], u, p);
                assert(inv_matches(b.investments@[i], u, p));
            }
            if b.spec_has_investment(u, p) {
                let i = choose|i: int| 0 <= i < b.investments@.len()
                    && inv_matches(#[trigger] b.investments@[i], u, p);
                assert(inv_matches(a.investments@[i], u, p));
            }
        }
    }

    /// The ledger position of the pair's record, if it exists.
    pub(crate) fn find_investment(&self, investor: Principal, project_id: u64) -> (r: Option<
        usize,
    >)
        ensures
            match r {
                Some(i) => i < self.investments@.len()
                    && inv_matches(self.investments@[i as int], investor, project_id),
                None => !self.spec_has_investment(investor, project_id),
            },
    {
        let mut i: usize = 0;
        while i < self.investments.len()
            invariant
                i <= self.investments@.len(),
                forall|j: int| 0 <= j < i
                    ==> !inv_matches(#[trigger] self.investments@[j], investor, project_id),
            decreases self.investments@.len() - i,
        {
            if self.investments[i].investor == investor
                && self.investments[i].project_id == project_id {
                return Some(i);
            }
            i += 1;
        }
        None
    }

    /// The project stored under `project_id`; NotFound when no project was
    /// ever allocated under it.
    pub fn get_project(&self, project_id: u64) -> (r: Result<&Project, Error>)
        ensures
            match r {
                Ok(p) => self.spec_has_project(project_id) && *p == self.spec_project(project_id),
                Err(e) => !self.spec_has_project(project_id) && e == Error::NotFound,
            },
    {
        if 1 <= project_id && project_id <= self.projects.len() as u64 {
            Ok(&self.projects[(project_id - 1) as usize])
        } else {
            Err(Error::NotFound)
        }
    }

    /// How many projects have been created so far.
    pub fn get_project_count(&self) -> (r: u64)
        ensures
            r == self.project_count,
    {
        self.project_count
    }

    /// The aggregate investment record for the pair; NotFound when the
    /// investor never contributed to the project.
    pub fn get_investment(&self, investor: Principal, project_id: u64) -> (r: Result<
        &Investment,
        Error,
    >)
        requires
            self.investments_wf(),
        ensures
            match r {
                Ok(inv) => self.spec_has_investment(investor, project_id)
                    && *inv == self.spec_investment(investor, project_id),
                Err(e) => !self.spec_has_investment(investor, project_id) && e == Error::NotFound,
            },
    {
        match self.find_investment(investor, project_id) {
            Some(i) => {
                proof {
                    self.lemma_investment_index_is(investor, project_id, i as int);
                }
                Ok(&self.investments[i])
            }
            None => Err(Error::NotFound),
        }
    }

    /// Derived figures for a project; NotFound when it does not exist.
    /// `total_investors` reports the fixed figure the interface has always
    /// returned rather than a true count — a known gap of the query surface.
    pub fn get_project_stats(&self, project_id: u64) -> (r: Result<ProjectStats, Error>)
        requires
            self.wf(),
            self.spec_has_project(project_id)
                ==> self.spec_project(project_id).current_funding * BPS_DENOMINATOR <= i128::MAX,
        ensures
            match r {
                Ok(s) => self.spec_has_project(project_id) && s.total_investors == 1
                    && s.funding_percentage == spec_funding_percentage(
                    self.spec_project(project_id),
                ) && s.days_remaining == self.spec_project(project_id).duration_months * 30,
                Err(e) => !self.spec_has_project(project_id) && e == Error::NotFound,
            },
    {
        let project = match self.get_project(project_id) {
            Ok(p) => p,
            Err(e) => {
                return Err(e);
            }
        };
        let total_investors: u32 = 1;
        let funding_percentage: u32 = if project.funding_goal > 0 {
            proof {
                let cf = project.current_funding as int;
                let goal = project.funding_goal as int;
                lemma_div_pos_is_pos(cf * BPS_DENOMINATOR, goal);
                lemma_div_is_ordered(cf * BPS_DENOMINATOR, goal * BPS_DENOMINATOR, goal);
                lemma_div_multiples_vanish(BPS_DENOMINATOR as int, goal);
            }
            ((project.current_funding * (BPS_DENOMINATOR as i128)) / project.funding_goal) as u32
        } else {
            0
        };
        let days_remaining: u32 = project.duration_months * 30;
        Ok(ProjectStats { total_investors, funding_percentage, days_remaining })
    }

    /// The ids of the projects `user` created, in creation order; empty when
    /// the user never created one.
    pub fn get_user_projects(&self, user: Principal) -> (r: Vec<u64>)
        requires
            users_distinct(self.user_projects@),
        ensures
            r@ == spec_user_ids(self.user_projects@, user),
    {
        match find_user(&self.user_projects, user) {
            Some(i) => {
                proof {
                    lemma_user_entry_index_is(self.user_projects@, user, i as int);
                }
                copy_ids(&self.user_projects[i].ids)
            }
            None => Vec::new(),
        }
    }

    /// The ids of the projects `user` invested in, in first-contribution
    /// order; empty when the user never invested.
    pub fn get_user_investments(&self, user: Principal) -> (r: Vec<u64>)
        requires
            users_distinct(self.user_investments@),
        ensures
            r@ == spec_user_ids(self.user_investments@, user),
    {
        match find_user(&self.user_investments, user) {
            Some(i) => {
                proof {
                    lemma_user_entry_index_is(self.user_investments@, user, i as int);
                }
                copy_ids(&self.user_investments[i].ids)
            }
            None => Vec::new(),
        }
    }
}

} // verus!
