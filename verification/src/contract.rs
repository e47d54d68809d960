//! The engine as a whole: its configuration, every bounty and project by
//! identifier, and a journal of the transfers and events that its operations
//! have produced. An operation either succeeds, changes the state and
//! extends the journal, or fails and leaves all of it as it was.

use vstd::prelude::*;
use crate::bounty::{
    applied, apply_error, auto_settled, auto_settlement_due, auto_settlement_transfers, close_error,
    create_error, created, creation_transfers, deadline_view, delete_error, deletion_transfers,
    full_refund, select_winners_error, settled, settlement_transfers, update_error,
    update_submission_error, updated, updated_fields, Bounty, BountyView,
};
use crate::events::{Event, EventView, Events};
use crate::ledger::{payout, transfer_views, FeePolicy, Transfer, TransferView};
use crate::project::{
    cancel_error, cancellation_transfers, cancelled, create_gig_error, create_job_error,
    created_gig, created_job, project_funding, release_error, released, Project, ProjectView,
};
use crate::types::{
    copy_addresses, texts, zero_address_text, Address, Error, MilestoneData, ProjectStatus, Status,
};
use crate::utils::{base_units, fits_i128, is_zero_address};

verus! {

/// The model of the engine. The bounty with identifier `id`
/// stands at position `id - 1`, as `None` once it is deleted; likewise the
/// projects, which are never deleted.
pub struct ContractView {
    pub admin: Seq<char>,
    pub fee_account: Seq<char>,
    pub policy: FeePolicy,
    pub bounties: Seq<Option<BountyView>>,
    pub projects: Seq<ProjectView>,
    pub transfers: Seq<TransferView>,
    pub events: Seq<EventView>,
}

impl ContractView {
    /// The invariant of the engine.
    pub open spec fn wf(self) -> bool {
        &&& self.policy.wf()
        &&& self.admin != zero_address_text()
        &&& self.fee_account != zero_address_text()
        &&& self.bounties.len() < u32::MAX
        &&& self.projects.len() < u32::MAX
        &&& forall|i: int|
            0 <= i < self.bounties.len() ==> ((#[trigger] self.bounties[i]) matches Some(b)
                ==> b.wf())
        &&& forall|i: int| 0 <= i < self.projects.len() ==> (#[trigger] self.projects[i]).wf()
    }

    /// The bounty with the given identifier, if it exists.
    pub open spec fn bounty(self, id: u32) -> Option<BountyView> {
        if 1 <= id <= self.bounties.len() {
            self.bounties[id - 1]
        } else {
            None
        }
    }

    /// The project with the given identifier, if it exists.
    pub open spec fn project(self, id: u32) -> Option<ProjectView> {
        if 1 <= id <= self.projects.len() {
            Some(self.projects[id - 1])
        } else {
            None
        }
    }

    /// The identifier that the next bounty gets.
    pub open spec fn next_bounty_id(self) -> int {
        self.bounties.len() as int + 1
    }

    /// The identifier that the next project gets.
    pub open spec fn next_project_id(self) -> int {
        self.projects.len() as int + 1
    }

    /// The engine with the bounty `id` replaced by `b`.
    pub open spec fn with_bounty(self, id: u32, b: Option<BountyView>) -> ContractView {
        ContractView { bounties: self.bounties.update(id - 1, b), ..self }
    }

    /// The engine with `b` added under the next identifier.
    pub open spec fn with_new_bounty(self, b: BountyView) -> ContractView {
        ContractView { bounties: self.bounties.push(Some(b)), ..self }
    }

    /// The engine with the project `id` replaced by `p`.
    pub open spec fn with_project(self, id: u32, p: ProjectView) -> ContractView {
        ContractView { projects: self.projects.update(id - 1, p), ..self }
    }

    /// The engine with `p` added under the next identifier.
    pub open spec fn with_new_project(self, p: ProjectView) -> ContractView {
        ContractView { projects: self.projects.push(p), ..self }
    }

    /// The engine with the journal extended by the given transfers and events.
    pub open spec fn with_effects(
        self,
        transfers: Seq<TransferView>,
        events: Seq<EventView>,
    ) -> ContractView {
        ContractView {
            transfers: self.transfers + transfers,
            events: self.events + events,
            ..self
        }
    }
}

/// The model of the bounty in a slot; `None` for a deleted one.
pub open spec fn bounty_slot_view(slot: Option<Bounty>) -> Option<BountyView> {
    match slot {
        Some(b) => Some(b@),
        None => None,
    }
}

/// The models of the bounties in the slots.
pub open spec fn bounty_views(slots: Seq<Option<Bounty>>) -> Seq<Option<BountyView>> {
    slots.map_values(|s: Option<Bounty>| bounty_slot_view(s))
}

/// The models of the projects.
pub open spec fn project_views(projects: Seq<Project>) -> Seq<ProjectView> {
    projects.map_values(|p: Project| p@)
}

/// The escrow and reward-distribution engine.
#[derive(Debug, PartialEq, Eq)]
pub struct StallionContract {
    pub admin: Address,
    pub fee_account: Address,
    pub policy: FeePolicy,
    pub bounties: Vec<Option<Bounty>>,
    pub projects: Vec<Project>,
    pub transfers: Vec<Transfer>,
    pub events: Events,
}

impl View for StallionContract {
    type V = ContractView;

    open spec fn view(&self) -> ContractView {
        ContractView {
            admin: self.admin@,
            fee_account: self.fee_account@,
            policy: self.policy,
            bounties: bounty_views(self.bounties@),
            projects: project_views(self.projects@),
            transfers: transfer_views(self.transfers@),
            events: self.events@,
        }
    }
}

/// Why the engine cannot be set up with these accounts, if it cannot.
pub open spec fn setup_error(admin: Seq<char>, fee_account: Seq<char>, policy: FeePolicy) -> Option<
    Error,
> {
    if admin == zero_address_text() {
        Some(Error::AdminCannotBeZero)
    } else if fee_account == zero_address_text() {
        Some(Error::FeeAccountCannotBeZero)
    } else if !policy.wf() {
        Some(Error::InvalidAmount)
    } else {
        None
    }
}

/// Why the administrator cannot be replaced, if it cannot.
pub open spec fn update_admin_error(c: ContractView, caller: Seq<char>, new_admin: Seq<char>)
    -> Option<Error> {
    if caller != c.admin {
        Some(Error::NotAdmin)
    } else if new_admin == zero_address_text() {
        Some(Error::AdminCannotBeZero)
    } else {
        None
    }
}

/// Why the fee account cannot be replaced, if it cannot.
pub open spec fn update_fee_account_error(
    c: ContractView,
    caller: Seq<char>,
    new_fee_account: Seq<char>,
) -> Option<Error> {
    if caller != c.admin {
        Some(Error::NotAdmin)
    } else if new_fee_account == zero_address_text() {
        Some(Error::FeeAccountCannotBeZero)
    } else if new_fee_account == c.fee_account {
        Some(Error::SameFeeAccount)
    } else {
        None
    }
}

impl StallionContract {
    /// Sets up an engine without bounties or projects, and announces its
    /// administrator and its fee account.
    pub fn new(admin: Address, fee_account: Address, policy: FeePolicy) -> (r: Result<
        StallionContract,
        Error,
    >)
        ensures
            match r {
                Ok(c) => {
                    &&& setup_error(admin@, fee_account@, policy) is None
                    &&& c@.wf()
                    &&& c@ == (ContractView {
                        admin: admin@,
                        fee_account: fee_account@,
                        policy,
                        bounties: Seq::empty(),
                        projects: Seq::empty(),
                        transfers: Seq::empty(),
                        events: seq![
                            EventView::AdminUpdated { admin: admin@ },
                            EventView::FeeAccountUpdated { fee_account: fee_account@ },
                        ],
                    })
                },
                Err(e) => setup_error(admin@, fee_account@, policy) == Some(e),
            },
    {
        if is_zero_address(&admin) {
            return Err(Error::AdminCannotBeZero);
        }
        if is_zero_address(&fee_account) {
            return Err(Error::FeeAccountCannotBeZero);
        }
        if !policy.is_valid() {
            return Err(Error::InvalidAmount);
        }
        let mut events = Events::new();
        events.emit_admin_updated(admin.clone());
        events.emit_fee_account_updated(fee_account.clone());
        let c = StallionContract {
            admin,
            fee_account,
            policy,
            bounties: Vec::new(),
            projects: Vec::new(),
            transfers: Vec::new(),
            events,
        };
        proof {
            assert(c@.bounties =~= Seq::empty());
            assert(c@.projects =~= Seq::empty());
            assert(c@.transfers =~= Seq::empty());
            assert(c@.events =~= seq![
                EventView::AdminUpdated { admin: admin@ },
                EventView::FeeAccountUpdated { fee_account: fee_account@ },
            ]);
        }
        Ok(c)
    }

    /// The administrator.
    pub fn get_admin(&self) -> (r: Address)
        ensures
            r@ == self@.admin,
    {
        self.admin.clone()
    }

    /// The account that collects fees.
    pub fn get_fee_account(&self) -> (r: Address)
        ensures
            r@ == self@.fee_account,
    {
        self.fee_account.clone()
    }

    /// Replaces the administrator. Only the administrator may do so.
    pub fn update_admin(&mut self, caller: &Address, new_admin: Address) -> (r: Result<(), Error>)
        requires
            old(self)@.wf(),
        ensures
            final(self)@.wf(),
            match r {
                Ok(_) => {
                    &&& update_admin_error(old(self)@, caller@, new_admin@) is None
                    &&& final(self)@ == (ContractView { admin: new_admin@, ..old(self)@ }).with_effects(
                        seq![],
                        seq![EventView::AdminUpdated { admin: new_admin@ }],
                    )
                },
                Err(e) => {
                    &&& update_admin_error(old(self)@, caller@, new_admin@) == Some(e)
                    &&& *final(self) == *old(self)
                },
            },
    {
        if !self.admin.same(caller) {
            return Err(Error::NotAdmin);
        }
        if is_zero_address(&new_admin) {
            return Err(Error::AdminCannotBeZero);
        }
        let ghost before = self@;
        self.admin = new_admin.clone();
        self.events.emit_admin_updated(new_admin);
        proof {
            assert(self@.transfers =~= before.transfers + Seq::<TransferView>::empty());
            assert(self@.events =~= before.events + seq![
                EventView::AdminUpdated { admin: new_admin@ },
            ]);
        }
        Ok(())
    }

    /// Replaces the account that collects fees. Only the administrator may
    /// do so.
    pub fn update_fee_account(&mut self, caller: &Address, new_fee_account: Address) -> (r: Result<
        (),
        Error,
    >)
        requires
            old(self)@.wf(),
        ensures
            final(self)@.wf(),
            match r {
                Ok(_) => {
                    &&& update_fee_account_error(old(self)@, caller@, new_fee_account@) is None
                    &&& final(self)@ == (ContractView {
                        fee_account: new_fee_account@,
                        ..old(self)@
                    }).with_effects(
                        seq![],
                        seq![EventView::FeeAccountUpdated { fee_account: new_fee_account@ }],
                    )
                },
                Err(e) => {
                    &&& update_fee_account_error(old(self)@, caller@, new_fee_account@) == Some(e)
                    &&& *final(self) == *old(self)
                },
            },
    {
        if !self.admin.same(caller) {
            return Err(Error::NotAdmin);
        }
        if is_zero_address(&new_fee_account) {
            return Err(Error::FeeAccountCannotBeZero);
        }
        if self.fee_account.same(&new_fee_account) {
            return Err(Error::SameFeeAccount);
        }
        let ghost before = self@;
        self.fee_account = new_fee_account.clone();
        self.events.emit_fee_account_updated(new_fee_account);
        proof {
            assert(self@.transfers =~= before.transfers + Seq::<TransferView>::empty());
            assert(self@.events =~= before.events + seq![
                EventView::FeeAccountUpdated { fee_account: new_fee_account@ },
            ]);
        }
        Ok(())
    }
}

// ---------------------------------------------------------------------
// Bounties
// ---------------------------------------------------------------------

/// Why the engine cannot create a bounty with these terms, if it cannot:
/// the terms are refused, or the identifiers are used up.
pub open spec fn create_bounty_error(
    c: ContractView,
    reward: int,
    distribution: Seq<(u32, u32)>,
    submission_deadline: int,
    judging_deadline: Option<int>,
    decimals: nat,
) -> Option<Error> {
    match create_error(
        reward,
        distribution,
        submission_deadline,
        judging_deadline,
        c.policy,
        decimals,
    ) {
        Some(e) => Some(e),
        None => if c.next_bounty_id() >= u32::MAX {
            Some(Error::InternalError)
        } else {
            None
        },
    }
}

impl StallionContract {
    /// A copy of the bounty with the given identifier.
    pub fn get_bounty(&self, bounty_id: u32) -> (r: Result<Bounty, Error>)
        ensures
            match r {
                Ok(b) => self@.bounty(bounty_id) == Some(b@),
                Err(e) => e == Error::BountyNotFound && self@.bounty(bounty_id) is None,
            },
    {
        if bounty_id == 0 || bounty_id as usize > self.bounties.len() {
            return Err(Error::BountyNotFound);
        }
        match &self.bounties[(bounty_id - 1) as usize] {
            Some(b) => Ok(b.clone()),
            None => Err(Error::BountyNotFound),
        }
    }

    /// Puts `slot` in the place of the bounty with the given identifier.
    fn put_bounty(&mut self, bounty_id: u32, slot: Option<Bounty>)
        requires
            old(self)@.wf(),
            1 <= bounty_id <= old(self).bounties.len(),
            slot matches Some(b) ==> b@.wf(),
        ensures
            final(self)@.wf(),
            final(self)@ == old(self)@.with_bounty(bounty_id, bounty_slot_view(slot)),
    {
        self.bounties.set((bounty_id - 1) as usize, slot);
        proof {
            assert(self@.bounties =~= old(self)@.bounties.update(
                bounty_id - 1,
                bounty_slot_view(slot),
            ));
        }
    }

    /// Extends the journal by the given transfers and one event.
    fn journal(&mut self, transfers: Vec<Transfer>, event: Event)
        requires
            old(self)@.wf(),
        ensures
            final(self)@.wf(),
            final(self)@ == old(self)@.with_effects(transfer_views(transfers@), seq![event@]),
    {
        let mut moved = transfers;
        let ghost added = transfer_views(moved@);
        self.transfers.append(&mut moved);
        self.events.emit(event);
        proof {
            assert(self@.transfers =~= old(self)@.transfers + added);
            assert(self@.events =~= old(self)@.events + seq![event@]);
        }
    }

    /// Creates a bounty under the next identifier and commands its funding.
    /// Returns the identifier.
    pub fn create_bounty(
        &mut self,
        owner: Address,
        token: Address,
        reward: i128,
        distribution: Vec<(u32, u32)>,
        submission_deadline: u64,
        judging_deadline: Option<u64>,
        title: String,
        decimals: u32,
    ) -> (r: Result<u32, Error>)
        requires
            old(self)@.wf(),
        ensures
            final(self)@.wf(),
            match r {
                Ok(id) => {
                    &&& create_bounty_error(
                        old(self)@,
                        reward as int,
                        distribution@,
                        submission_deadline as int,
                        deadline_view(judging_deadline),
                        decimals as nat,
                    ) is None
                    &&& id == old(self)@.next_bounty_id()
                    &&& final(self)@ == old(self)@.with_new_bounty(
                        created(
                            owner@,
                            token@,
                            reward as int,
                            distribution@,
                            submission_deadline as int,
                            deadline_view(judging_deadline),
                            title@,
                        ),
                    ).with_effects(
                        creation_transfers(
                            owner@,
                            token@,
                            reward as int,
                            old(self)@.policy,
                            old(self)@.fee_account,
                            decimals as nat,
                        ),
                        seq![EventView::BountyCreated { bounty_id: id }],
                    )
                },
                Err(e) => {
                    &&& *final(self) == *old(self)
                    &&& create_bounty_error(
                        old(self)@,
                        reward as int,
                        distribution@,
                        submission_deadline as int,
                        deadline_view(judging_deadline),
                        decimals as nat,
                    ) == Some(e)
                },
            },
    {
        let (bounty, transfers) = match Bounty::create(
            owner,
            token,
            reward,
            &distribution,
            submission_deadline,
            judging_deadline,
            title,
            &self.policy,
            &self.fee_account,
            decimals,
        ) {
            Ok(made) => made,
            Err(e) => {
                return Err(e);
            },
        };
        if self.bounties.len() >= 0xffff_fffe {
            return Err(Error::InternalError);
        }
        let id: u32 = (self.bounties.len() + 1) as u32;
        self.bounties.push(Some(bounty));
        proof {
            assert(self@.bounties =~= old(self)@.bounties.push(Some(bounty@)));
        }
        self.journal(transfers, Event::BountyCreated { bounty_id: id });
        Ok(id)
    }

    /// Changes the title, the distribution or the submission deadline of an
    /// active bounty. Only its owner may do so.
    pub fn update_bounty(
        &mut self,
        owner: &Address,
        bounty_id: u32,
        new_title: Option<String>,
        new_distribution: Vec<(u32, u32)>,
        new_submission_deadline: Option<u64>,
        now: u64,
    ) -> (r: Result<(), Error>)
        requires
            old(self)@.wf(),
        ensures
            final(self)@.wf(),
            match r {
                Ok(_) => {
                    &&& old(self)@.bounty(bounty_id) matches Some(b)
                    &&& update_error(
                        b,
                        owner@,
                        new_distribution@,
                        deadline_view(new_submission_deadline),
                        now as int,
                    ) is None
                    &&& final(self)@ == old(self)@.with_bounty(
                        bounty_id,
                        Some(
                            updated(
                                b,
                                match new_title {
                                    Some(t) => Some(t@),
                                    None => None,
                                },
                                new_distribution@,
                                deadline_view(new_submission_deadline),
                            ),
                        ),
                    ).with_effects(
                        seq![],
                        seq![
                            EventView::BountyUpdated {
                                bounty_id,
                                updated_fields: updated_fields(
                                    new_title is Some,
                                    new_distribution@.len() > 0,
                                    new_submission_deadline is Some,
                                ),
                            },
                        ],
                    )
                },
                Err(e) => {
                    &&& *final(self) == *old(self)
                    &&& match old(self)@.bounty(bounty_id) {
                        None => e == Error::BountyNotFound,
                        Some(b) => update_error(
                            b,
                            owner@,
                            new_distribution@,
                            deadline_view(new_submission_deadline),
                            now as int,
                        ) == Some(e),
                    }
                },
            },
    {
        let mut bounty = match self.get_bounty(bounty_id) {
            Ok(b) => b,
            Err(e) => {
                return Err(e);
            },
        };
        let fields = match bounty.update(
            owner,
            new_title,
            &new_distribution,
            new_submission_deadline,
            now,
        ) {
            Ok(fields) => fields,
            Err(e) => {
                return Err(e);
            },
        };
        self.put_bounty(bounty_id, Some(bounty));
        let none: Vec<Transfer> = Vec::new();
        proof {
            assert(transfer_views(none@) =~= Seq::<TransferView>::empty());
        }
        self.journal(none, Event::BountyUpdated { bounty_id, updated_fields: fields });
        Ok(())
    }

    /// Deletes a bounty that has no submissions and commands the refund of
    /// its reward while the escrow still holds it. Only its owner may do so.
    pub fn delete_bounty(&mut self, owner: &Address, bounty_id: u32, decimals: u32) -> (r: Result<
        (),
        Error,
    >)
        requires
            old(self)@.wf(),
        ensures
            final(self)@.wf(),
            match r {
                Ok(_) => {
                    &&& old(self)@.bounty(bounty_id) matches Some(b)
                    &&& delete_error(b, owner@, decimals as nat) is None
                    &&& final(self)@ == old(self)@.with_bounty(bounty_id, None).with_effects(
                        deletion_transfers(b, decimals as nat),
                        seq![EventView::BountyDeleted { bounty_id }],
                    )
                },
                Err(e) => {
                    &&& *final(self) == *old(self)
                    &&& match old(self)@.bounty(bounty_id) {
                        None => e == Error::BountyNotFound,
                        Some(b) => delete_error(b, owner@, decimals as nat) == Some(e),
                    }
                },
            },
    {
        let bounty = match self.get_bounty(bounty_id) {
            Ok(b) => b,
            Err(e) => {
                return Err(e);
            },
        };
        let transfers = match bounty.delete(owner, decimals) {
            Ok(transfers) => transfers,
            Err(e) => {
                return Err(e);
            },
        };
        self.put_bounty(bounty_id, None);
        self.journal(transfers, Event::BountyDeleted { bounty_id });
        Ok(())
    }

    /// Closes an active bounty that has no submissions and commands the
    /// refund of its reward. Only its owner may do so.
    pub fn close_bounty(&mut self, owner: &Address, bounty_id: u32, decimals: u32) -> (r: Result<
        (),
        Error,
    >)
        requires
            old(self)@.wf(),
        ensures
            final(self)@.wf(),
            match r {
                Ok(_) => {
                    &&& old(self)@.bounty(bounty_id) matches Some(b)
                    &&& close_error(b, owner@, decimals as nat) is None
                    &&& final(self)@ == old(self)@.with_bounty(
                        bounty_id,
                        Some(BountyView { status: Status::Closed, ..b }),
                    ).with_effects(
                        full_refund(b, decimals as nat),
                        seq![EventView::BountyClosed { bounty_id }],
                    )
                },
                Err(e) => {
                    &&& *final(self) == *old(self)
                    &&& match old(self)@.bounty(bounty_id) {
                        None => e == Error::BountyNotFound,
                        Some(b) => close_error(b, owner@, decimals as nat) == Some(e),
                    }
                },
            },
    {
        let mut bounty = match self.get_bounty(bounty_id) {
            Ok(b) => b,
            Err(e) => {
                return Err(e);
            },
        };
        let transfers = match bounty.close(owner, decimals) {
            Ok(transfers) => transfers,
            Err(e) => {
                return Err(e);
            },
        };
        self.put_bounty(bounty_id, Some(bounty));
        self.journal(transfers, Event::BountyClosed { bounty_id });
        Ok(())
    }

    /// Takes a submission to an active bounty before its submission deadline.
    pub fn apply_to_bounty(
        &mut self,
        applicant: Address,
        bounty_id: u32,
        submission_link: String,
        now: u64,
    ) -> (r: Result<(), Error>)
        requires
            old(self)@.wf(),
        ensures
            final(self)@.wf(),
            match r {
                Ok(_) => {
                    &&& old(self)@.bounty(bounty_id) matches Some(b)
                    &&& apply_error(b, now as int) is None
                    &&& final(self)@ == old(self)@.with_bounty(
                        bounty_id,
                        Some(applied(b, applicant@, submission_link@)),
                    ).with_effects(
                        seq![],
                        seq![EventView::SubmissionAdded { bounty_id, applicant: applicant@ }],
                    )
                },
                Err(e) => {
                    &&& *final(self) == *old(self)
                    &&& match old(self)@.bounty(bounty_id) {
                        None => e == Error::BountyNotFound,
                        Some(b) => apply_error(b, now as int) == Some(e),
                    }
                },
            },
    {
        let mut bounty = match self.get_bounty(bounty_id) {
            Ok(b) => b,
            Err(e) => {
                return Err(e);
            },
        };
        let who = applicant.clone();
        match bounty.apply(applicant, submission_link, now) {
            Ok(_) => {},
            Err(e) => {
                return Err(e);
            },
        }
        self.put_bounty(bounty_id, Some(bounty));
        let none: Vec<Transfer> = Vec::new();
        proof {
            assert(transfer_views(none@) =~= Seq::<TransferView>::empty());
        }
        self.journal(none, Event::SubmissionAdded { bounty_id, applicant: who });
        Ok(())
    }

    /// Replaces the submission that an applicant has on file.
    pub fn update_submission(
        &mut self,
        applicant: Address,
        bounty_id: u32,
        new_submission_link: String,
        now: u64,
    ) -> (r: Result<(), Error>)
        requires
            old(self)@.wf(),
        ensures
            final(self)@.wf(),
            match r {
                Ok(_) => {
                    &&& old(self)@.bounty(bounty_id) matches Some(b)
                    &&& update_submission_error(b, applicant@, now as int) is None
                    &&& final(self)@ == old(self)@.with_bounty(
                        bounty_id,
                        Some(applied(b, applicant@, new_submission_link@)),
                    ).with_effects(
                        seq![],
                        seq![EventView::SubmissionUpdated { bounty_id, applicant: applicant@ }],
                    )
                },
                Err(e) => {
                    &&& *final(self) == *old(self)
                    &&& match old(self)@.bounty(bounty_id) {
                        None => e == Error::BountyNotFound,
                        Some(b) => update_submission_error(b, applicant@, now as int) == Some(e),
                    }
                },
            },
    {
        let mut bounty = match self.get_bounty(bounty_id) {
            Ok(b) => b,
            Err(e) => {
                return Err(e);
            },
        };
        let who = applicant.clone();
        match bounty.update_submission(applicant, new_submission_link, now) {
            Ok(_) => {},
            Err(e) => {
                return Err(e);
            },
        }
        self.put_bounty(bounty_id, Some(bounty));
        let none: Vec<Transfer> = Vec::new();
        proof {
            assert(transfer_views(none@) =~= Seq::<TransferView>::empty());
        }
        self.journal(none, Event::SubmissionUpdated { bounty_id, applicant: who });
        Ok(())
    }

    /// Settles a bounty on its owner's choice of winners.
    pub fn select_winners(
        &mut self,
        owner: &Address,
        bounty_id: u32,
        winners: Vec<Address>,
        now: u64,
        decimals: u32,
    ) -> (r: Result<(), Error>)
        requires
            old(self)@.wf(),
        ensures
            final(self)@.wf(),
            match r {
                Ok(_) => {
                    &&& old(self)@.bounty(bounty_id) matches Some(b)
                    &&& select_winners_error(
                        b,
                        owner@,
                        texts(winners@),
                        now as int,
                        decimals as nat,
                    ) is None
                    &&& final(self)@ == old(self)@.with_bounty(
                        bounty_id,
                        Some(settled(b, texts(winners@))),
                    ).with_effects(
                        settlement_transfers(
                            b,
                            texts(winners@),
                            old(self)@.policy,
                            old(self)@.fee_account,
                            decimals as nat,
                        ),
                        seq![EventView::WinnersSelected { bounty_id, winners: texts(winners@) }],
                    )
                },
                Err(e) => {
                    &&& *final(self) == *old(self)
                    &&& match old(self)@.bounty(bounty_id) {
                        None => e == Error::BountyNotFound,
                        Some(b) => select_winners_error(
                            b,
                            owner@,
                            texts(winners@),
                            now as int,
                            decimals as nat,
                        ) == Some(e),
                    }
                },
            },
    {
        let mut bounty = match self.get_bounty(bounty_id) {
            Ok(b) => b,
            Err(e) => {
                return Err(e);
            },
        };
        let named = copy_addresses(&winners);
        let transfers = match bounty.select_winners(
            owner,
            winners,
            now,
            &self.policy,
            &self.fee_account,
            decimals,
        ) {
            Ok(transfers) => transfers,
            Err(e) => {
                return Err(e);
            },
        };
        self.put_bounty(bounty_id, Some(bounty));
        self.journal(transfers, Event::WinnersSelected { bounty_id, winners: named });
        Ok(())
    }

    /// Settles a bounty whose final deadline has passed. Succeeds without
    /// any effect while the bounty is not due: before the deadline, and once
    /// it has left the active state.
    pub fn check_judging(&mut self, bounty_id: u32, now: u64, decimals: u32) -> (r: Result<
        (),
        Error,
    >)
        requires
            old(self)@.wf(),
        ensures
            final(self)@.wf(),
            match r {
                Ok(_) => {
                    &&& old(self)@.bounty(bounty_id) matches Some(b)
                    &&& if auto_settlement_due(b, now as int) {
                        &&& fits_i128(base_units(b.reward, decimals as nat))
                        &&& final(self)@ == old(self)@.with_bounty(
                            bounty_id,
                            Some(auto_settled(b)),
                        ).with_effects(
                            auto_settlement_transfers(
                                b,
                                old(self)@.policy,
                                old(self)@.fee_account,
                                decimals as nat,
                            ),
                            seq![EventView::AutoDistributed { bounty_id }],
                        )
                    } else {
                        *final(self) == *old(self)
                    }
                },
                Err(e) => {
                    &&& *final(self) == *old(self)
                    &&& match old(self)@.bounty(bounty_id) {
                        None => e == Error::BountyNotFound,
                        Some(b) => {
                            &&& e == Error::InternalError
                            &&& auto_settlement_due(b, now as int)
                            &&& !fits_i128(base_units(b.reward, decimals as nat))
                        },
                    }
                },
            },
    {
        let mut bounty = match self.get_bounty(bounty_id) {
            Ok(b) => b,
            Err(e) => {
                return Err(e);
            },
        };
        let was_active: bool = bounty.status == Status::Active;
        let transfers = match bounty.check_judging(
            now,
            &self.policy,
            &self.fee_account,
            decimals,
        ) {
            Ok(transfers) => transfers,
            Err(e) => {
                return Err(e);
            },
        };
        if !was_active || bounty.status == Status::Active {
            return Ok(());
        }
        self.put_bounty(bounty_id, Some(bounty));
        self.journal(transfers, Event::AutoDistributed { bounty_id });
        Ok(())
    }
}

// ---------------------------------------------------------------------
// Projects
// ---------------------------------------------------------------------

/// Why the engine cannot create a gig with these terms, if it cannot: the
/// terms are refused, or the identifiers are used up.
pub open spec fn create_project_gig_error(
    c: ContractView,
    total_reward: int,
    milestones: Seq<MilestoneData>,
    deadline: int,
    platform_fee: int,
    now: int,
    decimals: nat,
) -> Option<Error> {
    match create_gig_error(total_reward, milestones, deadline, platform_fee, now, decimals) {
        Some(e) => Some(e),
        None => if c.next_project_id() >= u32::MAX {
            Some(Error::InternalError)
        } else {
            None
        },
    }
}

/// Why the engine cannot create a job with these terms, if it cannot: the
/// terms are refused, or the identifiers are used up.
pub open spec fn create_project_job_error(
    c: ContractView,
    reward_amount: int,
    platform_fee: int,
    deadline: int,
    now: int,
    decimals: nat,
) -> Option<Error> {
    match create_job_error(reward_amount, platform_fee, deadline, now, decimals) {
        Some(e) => Some(e),
        None => if c.next_project_id() >= u32::MAX {
            Some(Error::InternalError)
        } else {
            None
        },
    }
}

/// The events of a milestone release: the completion of the project, where
/// the release completes it, and then the payment.
pub open spec fn release_events(
    after: ProjectView,
    project_id: u32,
    milestone_order: u32,
    contributor: Seq<char>,
    amount: i128,
) -> Seq<EventView> {
    (if after.status == ProjectStatus::Completed {
        seq![EventView::ProjectCompleted { project_id }]
    } else {
        seq![]
    }) + seq![EventView::MilestonePaid { project_id, milestone_order, contributor, amount }]
}

impl StallionContract {
    /// A copy of the project with the given identifier.
    pub fn get_project(&self, project_id: u32) -> (r: Result<Project, Error>)
        ensures
            match r {
                Ok(p) => self@.project(project_id) == Some(p@),
                Err(e) => e == Error::ProjectNotFound && self@.project(project_id) is None,
            },
    {
        if project_id == 0 || project_id as usize > self.projects.len() {
            return Err(Error::ProjectNotFound);
        }
        Ok(self.projects[(project_id - 1) as usize].clone())
    }

    /// Puts `project` in the place of the project with the given identifier.
    fn put_project(&mut self, project_id: u32, project: Project)
        requires
            old(self)@.wf(),
            1 <= project_id <= old(self).projects.len(),
            project@.wf(),
        ensures
            final(self)@.wf(),
            final(self)@ == old(self)@.with_project(project_id, project@),
    {
        self.projects.set((project_id - 1) as usize, project);
        proof {
            assert(self@.projects =~= old(self)@.projects.update(project_id - 1, project@));
        }
    }

    /// Adds `project` under the next identifier, which it returns, and
    /// extends the journal. Returns `None`, with nothing changed, where the
    /// identifiers are used up.
    fn add_project(&mut self, project: Project, transfers: Vec<Transfer>, gig: bool) -> (r: Option<
        u32,
    >)
        requires
            old(self)@.wf(),
            project@.wf(),
        ensures
            final(self)@.wf(),
            match r {
                Some(id) => {
                    &&& id == old(self)@.next_project_id()
                    &&& id < u32::MAX
                    &&& final(self)@ == old(self)@.with_new_project(project@).with_effects(
                        transfer_views(transfers@),
                        seq![
                            if gig {
                                EventView::ProjectGigCreated {
                                    project_id: id,
                                    total_reward: project.total_reward,
                                }
                            } else {
                                EventView::ProjectJobCreated { project_id: id }
                            },
                        ],
                    )
                },
                None => {
                    &&& old(self)@.next_project_id() >= u32::MAX
                    &&& *final(self) == *old(self)
                },
            },
    {
        if self.projects.len() >= 0xffff_fffe {
            return None;
        }
        let id: u32 = (self.projects.len() + 1) as u32;
        let event = if gig {
            Event::ProjectGigCreated { project_id: id, total_reward: project.total_reward }
        } else {
            Event::ProjectJobCreated { project_id: id }
        };
        self.projects.push(project);
        proof {
            assert(self@.projects =~= old(self)@.projects.push(project@));
        }
        self.journal(transfers, event);
        Some(id)
    }

    /// Creates a gig under the next identifier and commands its funding:
    /// the reward stays in escrow, the platform fee goes on to the fee
    /// account. Returns the identifier.
    pub fn create_project_gig(
        &mut self,
        owner: Address,
        token: Address,
        total_reward: i128,
        milestones: Vec<MilestoneData>,
        deadline: u64,
        platform_fee: i128,
        now: u64,
        decimals: u32,
    ) -> (r: Result<u32, Error>)
        requires
            old(self)@.wf(),
        ensures
            final(self)@.wf(),
            match r {
                Ok(id) => {
                    &&& create_project_gig_error(
                        old(self)@,
                        total_reward as int,
                        milestones@,
                        deadline as int,
                        platform_fee as int,
                        now as int,
                        decimals as nat,
                    ) is None
                    &&& id == old(self)@.next_project_id()
                    &&& final(self)@ == old(self)@.with_new_project(
                        created_gig(
                            owner@,
                            token@,
                            total_reward as int,
                            milestones@,
                            deadline as int,
                        ),
                    ).with_effects(
                        project_funding(
                            owner@,
                            token@,
                            total_reward as int,
                            platform_fee as int,
                            old(self)@.fee_account,
                            decimals as nat,
                        ),
                        seq![EventView::ProjectGigCreated { project_id: id, total_reward }],
                    )
                },
                Err(e) => {
                    &&& *final(self) == *old(self)
                    &&& create_project_gig_error(
                        old(self)@,
                        total_reward as int,
                        milestones@,
                        deadline as int,
                        platform_fee as int,
                        now as int,
                        decimals as nat,
                    ) == Some(e)
                },
            },
    {
        let (project, transfers) = match Project::create_gig(
            owner,
            token,
            total_reward,
            &milestones,
            deadline,
            platform_fee,
            now,
            &self.fee_account,
            decimals,
        ) {
            Ok(made) => made,
            Err(e) => {
                return Err(e);
            },
        };
        match self.add_project(project, transfers, true) {
            Some(id) => Ok(id),
            None => Err(Error::InternalError),
        }
    }

    /// Creates a job under the next identifier and commands the payment of
    /// its platform fee. Returns the identifier.
    pub fn create_project_job(
        &mut self,
        owner: Address,
        token: Address,
        reward_amount: i128,
        platform_fee: i128,
        deadline: u64,
        now: u64,
        decimals: u32,
    ) -> (r: Result<u32, Error>)
        requires
            old(self)@.wf(),
        ensures
            final(self)@.wf(),
            match r {
                Ok(id) => {
                    &&& create_project_job_error(
                        old(self)@,
                        reward_amount as int,
                        platform_fee as int,
                        deadline as int,
                        now as int,
                        decimals as nat,
                    ) is None
                    &&& id == old(self)@.next_project_id()
                    &&& final(self)@ == old(self)@.with_new_project(
                        created_job(owner@, token@, reward_amount as int, deadline as int),
                    ).with_effects(
                        project_funding(
                            owner@,
                            token@,
                            0,
                            platform_fee as int,
                            old(self)@.fee_account,
                            decimals as nat,
                        ),
                        seq![EventView::ProjectJobCreated { project_id: id }],
                    )
                },
                Err(e) => {
                    &&& *final(self) == *old(self)
                    &&& create_project_job_error(
                        old(self)@,
                        reward_amount as int,
                        platform_fee as int,
                        deadline as int,
                        now as int,
                        decimals as nat,
                    ) == Some(e)
                },
            },
    {
        let (project, transfers) = match Project::create_job(
            owner,
            token,
            reward_amount,
            platform_fee,
            deadline,
            now,
            &self.fee_account,
            decimals,
        ) {
            Ok(made) => made,
            Err(e) => {
                return Err(e);
            },
        };
        match self.add_project(project, transfers, false) {
            Some(id) => Ok(id),
            None => Err(Error::InternalError),
        }
    }

    /// Releases a milestone of an active gig to `contributor`. Only the
    /// owner of the project may do so.
    pub fn release_milestone_payment(
        &mut self,
        owner: &Address,
        project_id: u32,
        milestone_order: u32,
        contributor: Address,
        amount: i128,
        decimals: u32,
    ) -> (r: Result<(), Error>)
        requires
            old(self)@.wf(),
        ensures
            final(self)@.wf(),
            match r {
                Ok(_) => {
                    &&& old(self)@.project(project_id) matches Some(p)
                    &&& release_error(
                        p,
                        owner@,
                        milestone_order,
                        amount as int,
                        decimals as nat,
                    ) is None
                    &&& final(self)@ == old(self)@.with_project(
                        project_id,
                        released(p, milestone_order),
                    ).with_effects(
                        seq![payout(p.token, contributor@, amount as int, decimals as nat)],
                        release_events(
                            released(p, milestone_order),
                            project_id,
                            milestone_order,
                            contributor@,
                            amount,
                        ),
                    )
                },
                Err(e) => {
                    &&& *final(self) == *old(self)
                    &&& match old(self)@.project(project_id) {
                        None => e == Error::ProjectNotFound,
                        Some(p) => release_error(
                            p,
                            owner@,
                            milestone_order,
                            amount as int,
                            decimals as nat,
                        ) == Some(e),
                    }
                },
            },
    {
        let mut project = match self.get_project(project_id) {
            Ok(p) => p,
            Err(e) => {
                return Err(e);
            },
        };
        let transfers = match project.release_milestone_payment(
            owner,
            milestone_order,
            &contributor,
            amount,
            decimals,
        ) {
            Ok(transfers) => transfers,
            Err(e) => {
                return Err(e);
            },
        };
        let completed: bool = project.status == ProjectStatus::Completed;
        let ghost after = project@;
        self.put_project(project_id, project);
        if completed {
            self.events.emit_project_completed(project_id);
        }
        let ghost mid = self@;
        self.journal(
            transfers,
            Event::MilestonePaid { project_id, milestone_order, contributor, amount },
        );
        proof {
            assert(self@.events =~= old(self)@.events + release_events(
                after,
                project_id,
                milestone_order,
                contributor@,
                amount,
            ));
        }
        Ok(())
    }

    /// Cancels an active gig and commands the refund of what is left in
    /// escrow. Only the owner of the project may do so. Returns the refunded
    /// amount, in display units.
    pub fn cancel_project_gig(&mut self, owner: &Address, project_id: u32, decimals: u32) -> (r:
        Result<i128, Error>)
        requires
            old(self)@.wf(),
        ensures
            final(self)@.wf(),
            match r {
                Ok(refund) => {
                    &&& old(self)@.project(project_id) matches Some(p)
                    &&& cancel_error(p, owner@, decimals as nat) is None
                    &&& refund == p.remaining_escrow
                    &&& final(self)@ == old(self)@.with_project(
                        project_id,
                        cancelled(p),
                    ).with_effects(
                        cancellation_transfers(p, decimals as nat),
                        seq![EventView::ProjectCancelled { project_id, refunded_amount: refund }],
                    )
                },
                Err(e) => {
                    &&& *final(self) == *old(self)
                    &&& match old(self)@.project(project_id) {
                        None => e == Error::ProjectNotFound,
                        Some(p) => cancel_error(p, owner@, decimals as nat) == Some(e),
                    }
                },
            },
    {
        let mut project = match self.get_project(project_id) {
            Ok(p) => p,
            Err(e) => {
                return Err(e);
            },
        };
        let (refund, transfers) = match project.cancel(owner, decimals) {
            Ok(done) => done,
            Err(e) => {
                return Err(e);
            },
        };
        self.put_project(project_id, project);
        self.journal(transfers, Event::ProjectCancelled { project_id, refunded_amount: refund });
        Ok(refund)
    }
}

} // verus!
