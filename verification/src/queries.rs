//! Read-only projections over the records of the engine: the identifiers
//! of the bounties or projects that meet a condition, in ascending order,
//! and single fields of a bounty.

use vstd::prelude::*;
use crate::bounty::{Bounty, BountyView};
use crate::contract::StallionContract;
use crate::project::{Project, ProjectView};
use crate::types::{link_of, texts, Address, Error, ProjectStatus, Status, Submissions};

verus! {

/// The model of a condition on bounties.
pub enum BountyFilterView {
    Any,
    Applicant(Seq<char>),
    Owner(Seq<char>),
    Token(Seq<char>),
    InStatus(Status),
}

/// A condition on bounties.
#[derive(Debug, PartialEq, Eq)]
pub enum BountyFilter {
    /// Every bounty.
    Any,
    /// The bounties to which the account has a submission on file.
    Applicant(Address),
    /// The bounties of the owner.
    Owner(Address),
    /// The bounties that pay in the token.
    Token(Address),
    /// The bounties in the status.
    InStatus(Status),
}

impl View for BountyFilter {
    type V = BountyFilterView;

    open spec fn view(&self) -> BountyFilterView {
        match self {
            BountyFilter::Any => BountyFilterView::Any,
            BountyFilter::Applicant(a) => BountyFilterView::Applicant(a@),
            BountyFilter::Owner(a) => BountyFilterView::Owner(a@),
            BountyFilter::Token(a) => BountyFilterView::Token(a@),
            BountyFilter::InStatus(s) => BountyFilterView::InStatus(*s),
        }
    }
}

impl BountyFilterView {
    /// Whether the bounty meets the condition.
    pub open spec fn accepts(self, b: BountyView) -> bool {
        match self {
            BountyFilterView::Any => true,
            BountyFilterView::Applicant(who) => link_of(b.submissions, who) is Some,
            BountyFilterView::Owner(who) => b.owner == who,
            BountyFilterView::Token(token) => b.token == token,
            BountyFilterView::InStatus(status) => b.status == status,
        }
    }
}

impl BountyFilter {
    /// Whether the bounty meets the condition.
    pub fn accepts(&self, b: &Bounty) -> (r: bool)
        ensures
            r == self@.accepts(b@),
    {
        match self {
            BountyFilter::Any => true,
            BountyFilter::Applicant(who) => b.submissions.contains_key(who),
            BountyFilter::Owner(who) => b.owner.same(who),
            BountyFilter::Token(token) => b.token.same(token),
            BountyFilter::InStatus(status) => b.status == *status,
        }
    }
}

/// The identifiers of the bounties that exist and meet the condition, in
/// ascending order.
pub open spec fn bounty_ids(slots: Seq<Option<BountyView>>, filter: BountyFilterView) -> Seq<u32>
    decreases slots.len(),
{
    if slots.len() == 0 {
        seq![]
    } else {
        bounty_ids(slots.drop_last(), filter) + (if slots.last() is Some && filter.accepts(
            slots.last()->0,
        ) {
            seq![slots.len() as u32]
        } else {
            seq![]
        })
    }
}

/// The model of a condition on projects.
pub enum ProjectFilterView {
    Any,
    Owner(Seq<char>),
    InStatus(ProjectStatus),
}

/// A condition on projects.
#[derive(Debug, PartialEq, Eq)]
pub enum ProjectFilter {
    /// Every project.
    Any,
    /// The projects of the owner.
    Owner(Address),
    /// The projects in the status.
    InStatus(ProjectStatus),
}

impl View for ProjectFilter {
    type V = ProjectFilterView;

    open spec fn view(&self) -> ProjectFilterView {
        match self {
            ProjectFilter::Any => ProjectFilterView::Any,
            ProjectFilter::Owner(a) => ProjectFilterView::Owner(a@),
            ProjectFilter::InStatus(s) => ProjectFilterView::InStatus(*s),
        }
    }
}

impl ProjectFilterView {
    /// Whether the project meets the condition.
    pub open spec fn accepts(self, p: ProjectView) -> bool {
        match self {
            ProjectFilterView::Any => true,
            ProjectFilterView::Owner(who) => p.owner == who,
            ProjectFilterView::InStatus(status) => p.status == status,
        }
    }
}

impl ProjectFilter {
    /// Whether the project meets the condition.
    pub fn accepts(&self, p: &Project) -> (r: bool)
        ensures
            r == self@.accepts(p@),
    {
        match self {
            ProjectFilter::Any => true,
            ProjectFilter::Owner(who) => p.owner.same(who),
            ProjectFilter::InStatus(status) => p.status == *status,
        }
    }
}

/// The identifiers of the projects that meet the condition, in ascending
/// order.
pub open spec fn project_ids(projects: Seq<ProjectView>, filter: ProjectFilterView) -> Seq<u32>
    decreases projects.len(),
{
    if projects.len() == 0 {
        seq![]
    } else {
        project_ids(projects.drop_last(), filter) + (if filter.accepts(projects.last()) {
            seq![projects.len() as u32]
        } else {
            seq![]
        })
    }
}

/// An identifier is listed exactly when its bounty exists and meets the
/// condition; no more identifiers are listed than there are slots.
pub proof fn lemma_bounty_ids(slots: Seq<Option<BountyView>>, filter: BountyFilterView, id: u32)
    requires
        slots.len() <= u32::MAX,
    ensures
        bounty_ids(slots, filter).len() <= slots.len(),
        bounty_ids(slots, filter).contains(id) <==> (1 <= id <= slots.len() && slots[id - 1] is Some
            && filter.accepts(slots[id - 1]->0)),
    decreases slots.len(),
{
    if slots.len() > 0 {
        let init = slots.drop_last();
        lemma_bounty_ids(init, filter, id);
        let here = if slots.last() is Some && filter.accepts(slots.last()->0) {
            seq![slots.len() as u32]
        } else {
            seq![]
        };
        let before = bounty_ids(init, filter);
        let all = before + here;
        if before.contains(id) {
            let i = choose|i: int| 0 <= i < before.len() && before[i] == id;
            assert(all[i] == id);
        }
        if here.len() > 0 && id == slots.len() {
            assert(all[before.len() as int] == id);
        }
        if all.contains(id) {
            let i = choose|i: int| 0 <= i < all.len() && all[i] == id;
            if i < before.len() {
                assert(before[i] == id);
            } else {
                assert(here[i - before.len()] == id);
            }
        }
    }
}

/// An identifier is listed exactly when its project meets the condition;
/// no more identifiers are listed than there are projects.
pub proof fn lemma_project_ids(projects: Seq<ProjectView>, filter: ProjectFilterView, id: u32)
    requires
        projects.len() <= u32::MAX,
    ensures
        project_ids(projects, filter).len() <= projects.len(),
        project_ids(projects, filter).contains(id) <==> (1 <= id <= projects.len()
            && filter.accepts(projects[id - 1])),
    decreases projects.len(),
{
    if projects.len() > 0 {
        let init = projects.drop_last();
        lemma_project_ids(init, filter, id);
        let here = if filter.accepts(projects.last()) {
            seq![projects.len() as u32]
        } else {
            seq![]
        };
        let before = project_ids(init, filter);
        let all = before + here;
        if before.contains(id) {
            let i = choose|i: int| 0 <= i < before.len() && before[i] == id;
            assert(all[i] == id);
        }
        if here.len() > 0 && id == projects.len() {
            assert(all[before.len() as int] == id);
        }
        if all.contains(id) {
            let i = choose|i: int| 0 <= i < all.len() && all[i] == id;
            if i < before.len() {
                assert(before[i] == id);
            } else {
                assert(here[i - before.len()] == id);
            }
        }
    }
}

impl StallionContract {
    /// The identifiers of the bounties that meet the condition.
    pub fn find_bounties(&self, filter: &BountyFilter) -> (ids: Vec<u32>)
        requires
            self@.wf(),
        ensures
            ids@ == bounty_ids(self@.bounties, filter@),
            ids@.len() < u32::MAX,
    {
        let mut ids: Vec<u32> = Vec::new();
        let mut i: usize = 0;
        let ghost slots = self@.bounties;
        while i < self.bounties.len()
            invariant
                i <= self.bounties.len(),
                self.bounties.len() < u32::MAX,
                slots == self@.bounties,
                ids@ == bounty_ids(slots.take(i as int), filter@),
            decreases self.bounties.len() - i,
        {
            proof {
                assert(slots.take(i + 1).drop_last() =~= slots.take(i as int));
                assert(slots.take(i + 1).last() == slots[i as int]);
            }
            match &self.bounties[i] {
                Some(b) => {
                    if filter.accepts(b) {
                        ids.push((i + 1) as u32);
                    }
                },
                None => {},
            }
            i = i + 1;
        }
        proof {
            assert(slots.take(i as int) =~= slots);
            lemma_bounty_ids(slots, filter@, 0);
        }
        ids
    }

    /// The identifiers of the projects that meet the condition.
    pub fn find_projects(&self, filter: &ProjectFilter) -> (ids: Vec<u32>)
        requires
            self@.wf(),
        ensures
            ids@ == project_ids(self@.projects, filter@),
            ids@.len() < u32::MAX,
    {
        let mut ids: Vec<u32> = Vec::new();
        let mut i: usize = 0;
        let ghost all = self@.projects;
        while i < self.projects.len()
            invariant
                i <= self.projects.len(),
                self.projects.len() < u32::MAX,
                all == self@.projects,
                ids@ == project_ids(all.take(i as int), filter@),
            decreases self.projects.len() - i,
        {
            proof {
                assert(all.take(i + 1).drop_last() =~= all.take(i as int));
                assert(all.take(i + 1).last() == all[i as int]);
            }
            if filter.accepts(&self.projects[i]) {
                ids.push((i + 1) as u32);
            }
            i = i + 1;
        }
        proof {
            assert(all.take(i as int) =~= all);
            lemma_project_ids(all, filter@, 0);
        }
        ids
    }

    /// The identifiers of all bounties that exist.
    pub fn get_bounties(&self) -> (ids: Vec<u32>)
        requires
            self@.wf(),
        ensures
            ids@ == bounty_ids(self@.bounties, BountyFilterView::Any),
    {
        self.find_bounties(&BountyFilter::Any)
    }

    /// The number of bounties that exist.
    pub fn get_bounties_count(&self) -> (n: u32)
        requires
            self@.wf(),
        ensures
            n == bounty_ids(self@.bounties, BountyFilterView::Any).len(),
    {
        self.find_bounties(&BountyFilter::Any).len() as u32
    }

    /// The identifiers of the bounties to which `user` has a submission on
    /// file.
    pub fn get_user_bounties(&self, user: Address) -> (ids: Vec<u32>)
        requires
            self@.wf(),
        ensures
            ids@ == bounty_ids(self@.bounties, BountyFilterView::Applicant(user@)),
    {
        self.find_bounties(&BountyFilter::Applicant(user))
    }

    /// The number of bounties to which `user` has a submission on file.
    pub fn get_user_bounties_count(&self, user: Address) -> (n: u32)
        requires
            self@.wf(),
        ensures
            n == bounty_ids(self@.bounties, BountyFilterView::Applicant(user@)).len(),
    {
        self.find_bounties(&BountyFilter::Applicant(user)).len() as u32
    }

    /// The identifiers of the bounties of `owner`.
    pub fn get_owner_bounties(&self, owner: Address) -> (ids: Vec<u32>)
        requires
            self@.wf(),
        ensures
            ids@ == bounty_ids(self@.bounties, BountyFilterView::Owner(owner@)),
    {
        self.find_bounties(&BountyFilter::Owner(owner))
    }

    /// The number of bounties of `owner`.
    pub fn get_owner_bounties_count(&self, owner: Address) -> (n: u32)
        requires
            self@.wf(),
        ensures
            n == bounty_ids(self@.bounties, BountyFilterView::Owner(owner@)).len(),
    {
        self.find_bounties(&BountyFilter::Owner(owner)).len() as u32
    }

    /// The identifiers of the bounties that pay in `token`.
    pub fn get_bounties_by_token(&self, token: Address) -> (ids: Vec<u32>)
        requires
            self@.wf(),
        ensures
            ids@ == bounty_ids(self@.bounties, BountyFilterView::Token(token@)),
    {
        self.find_bounties(&BountyFilter::Token(token))
    }

    /// The number of bounties that pay in `token`.
    pub fn get_bounties_by_token_count(&self, token: Address) -> (n: u32)
        requires
            self@.wf(),
        ensures
            n == bounty_ids(self@.bounties, BountyFilterView::Token(token@)).len(),
    {
        self.find_bounties(&BountyFilter::Token(token)).len() as u32
    }

    /// The identifiers of the active bounties.
    pub fn get_active_bounties(&self) -> (ids: Vec<u32>)
        requires
            self@.wf(),
        ensures
            ids@ == bounty_ids(self@.bounties, BountyFilterView::InStatus(Status::Active)),
    {
        self.find_bounties(&BountyFilter::InStatus(Status::Active))
    }

    /// The identifiers of the bounties in `status`.
    pub fn get_bounties_by_status(&self, status: Status) -> (ids: Vec<u32>)
        requires
            self@.wf(),
        ensures
            ids@ == bounty_ids(self@.bounties, BountyFilterView::InStatus(status)),
    {
        self.find_bounties(&BountyFilter::InStatus(status))
    }

    /// The number of bounties in `status`.
    pub fn get_bounties_by_status_count(&self, status: Status) -> (n: u32)
        requires
            self@.wf(),
        ensures
            n == bounty_ids(self@.bounties, BountyFilterView::InStatus(status)).len(),
    {
        self.find_bounties(&BountyFilter::InStatus(status)).len() as u32
    }

    /// The submission reference that `user` has on file with a bounty.
    pub fn get_submission(&self, bounty_id: u32, user: Address) -> (r: Result<String, Error>)
        ensures
            match r {
                Ok(link) => {
                    &&& self@.bounty(bounty_id) matches Some(b)
                    &&& link_of(b.submissions, user@) == Some(link@)
                },
                Err(e) => match self@.bounty(bounty_id) {
                    None => e == Error::BountyNotFound,
                    Some(b) => e == Error::SubmissionNotFound && link_of(b.submissions, user@)
                        is None,
                },
            },
    {
        let bounty = match self.get_bounty(bounty_id) {
            Ok(b) => b,
            Err(e) => {
                return Err(e);
            },
        };
        match bounty.submissions.get(&user) {
            Some(link) => Ok(link),
            None => Err(Error::SubmissionNotFound),
        }
    }

    /// The submissions to a bounty.
    pub fn get_bounty_submissions(&self, bounty_id: u32) -> (r: Result<Submissions, Error>)
        ensures
            match r {
                Ok(submissions) => {
                    &&& self@.bounty(bounty_id) matches Some(b)
                    &&& submissions@ == b.submissions
                },
                Err(e) => e == Error::BountyNotFound && self@.bounty(bounty_id) is None,
            },
    {
        match self.get_bounty(bounty_id) {
            Ok(b) => Ok(b.submissions),
            Err(e) => Err(e),
        }
    }

    /// The applicants of a bounty, in the order in which they first applied.
    pub fn get_bounty_applicants(&self, bounty_id: u32) -> (r: Result<Vec<Address>, Error>)
        ensures
            match r {
                Ok(applicants) => {
                    &&& self@.bounty(bounty_id) matches Some(b)
                    &&& texts(applicants@) == b.applicants
                },
                Err(e) => e == Error::BountyNotFound && self@.bounty(bounty_id) is None,
            },
    {
        match self.get_bounty(bounty_id) {
            Ok(b) => Ok(b.applicants),
            Err(e) => Err(e),
        }
    }

    /// The winners of a bounty, by rank; empty until the owner has settled it.
    pub fn get_bounty_winners(&self, bounty_id: u32) -> (r: Result<Vec<Address>, Error>)
        ensures
            match r {
                Ok(winners) => {
                    &&& self@.bounty(bounty_id) matches Some(b)
                    &&& texts(winners@) == b.winners
                },
                Err(e) => e == Error::BountyNotFound && self@.bounty(bounty_id) is None,
            },
    {
        match self.get_bounty(bounty_id) {
            Ok(b) => Ok(b.winners),
            Err(e) => Err(e),
        }
    }

    /// The status of a bounty.
    pub fn get_bounty_status(&self, bounty_id: u32) -> (r: Result<Status, Error>)
        ensures
            match r {
                Ok(status) => {
                    &&& self@.bounty(bounty_id) matches Some(b)
                    &&& status == b.status
                },
                Err(e) => e == Error::BountyNotFound && self@.bounty(bounty_id) is None,
            },
    {
        match self.get_bounty(bounty_id) {
            Ok(b) => Ok(b.status),
            Err(e) => Err(e),
        }
    }

    /// The identifiers of all projects.
    pub fn get_projects(&self) -> (ids: Vec<u32>)
        requires
            self@.wf(),
        ensures
            ids@ == project_ids(self@.projects, ProjectFilterView::Any),
    {
        self.find_projects(&ProjectFilter::Any)
    }

    /// The identifiers of the projects of `owner`.
    pub fn get_owner_projects(&self, owner: Address) -> (ids: Vec<u32>)
        requires
            self@.wf(),
        ensures
            ids@ == project_ids(self@.projects, ProjectFilterView::Owner(owner@)),
    {
        self.find_projects(&ProjectFilter::Owner(owner))
    }

    /// The identifiers of the projects in `status`.
    pub fn get_projects_by_status(&self, status: ProjectStatus) -> (ids: Vec<u32>)
        requires
            self@.wf(),
        ensures
            ids@ == project_ids(self@.projects, ProjectFilterView::InStatus(status)),
    {
        self.find_projects(&ProjectFilter::InStatus(status))
    }
}

} // verus!
