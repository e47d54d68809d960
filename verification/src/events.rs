//! The events that the engine announces, kept as a log in the order in
//! which they were emitted.

use vstd::prelude::*;
use crate::bounty::BountyField;
use crate::types::{texts, Address};

verus! {

/// The model of an event.
pub enum EventView {
    BountyCreated { bounty_id: u32 },
    BountyUpdated { bounty_id: u32, updated_fields: Seq<BountyField> },
    BountyDeleted { bounty_id: u32 },
    SubmissionAdded { bounty_id: u32, applicant: Seq<char> },
    SubmissionUpdated { bounty_id: u32, applicant: Seq<char> },
    WinnersSelected { bounty_id: u32, winners: Seq<Seq<char>> },
    AutoDistributed { bounty_id: u32 },
    AdminUpdated { admin: Seq<char> },
    FeeAccountUpdated { fee_account: Seq<char> },
    BountyClosed { bounty_id: u32 },
    ProjectGigCreated { project_id: u32, total_reward: i128 },
    ProjectJobCreated { project_id: u32 },
    MilestonePaid { project_id: u32, milestone_order: u32, contributor: Seq<char>, amount: i128 },
    ProjectCancelled { project_id: u32, refunded_amount: i128 },
    ProjectCompleted { project_id: u32 },
}

/// Something that happened to a bounty, a project or the configuration.
#[derive(Debug, PartialEq, Eq)]
pub enum Event {
    BountyCreated { bounty_id: u32 },
    BountyUpdated { bounty_id: u32, updated_fields: Vec<BountyField> },
    BountyDeleted { bounty_id: u32 },
    SubmissionAdded { bounty_id: u32, applicant: Address },
    SubmissionUpdated { bounty_id: u32, applicant: Address },
    WinnersSelected { bounty_id: u32, winners: Vec<Address> },
    AutoDistributed { bounty_id: u32 },
    AdminUpdated { admin: Address },
    FeeAccountUpdated { fee_account: Address },
    BountyClosed { bounty_id: u32 },
    ProjectGigCreated { project_id: u32, total_reward: i128 },
    ProjectJobCreated { project_id: u32 },
    MilestonePaid { project_id: u32, milestone_order: u32, contributor: Address, amount: i128 },
    ProjectCancelled { project_id: u32, refunded_amount: i128 },
    ProjectCompleted { project_id: u32 },
}

impl View for Event {
    type V = EventView;

    open spec fn view(&self) -> EventView {
        match self {
            Event::BountyCreated { bounty_id } => EventView::BountyCreated { bounty_id: *bounty_id },
            Event::BountyUpdated { bounty_id, updated_fields } => EventView::BountyUpdated {
                bounty_id: *bounty_id,
                updated_fields: updated_fields@,
            },
            Event::BountyDeleted { bounty_id } => EventView::BountyDeleted { bounty_id: *bounty_id },
            Event::SubmissionAdded { bounty_id, applicant } => EventView::SubmissionAdded {
                bounty_id: *bounty_id,
                applicant: applicant@,
            },
            Event::SubmissionUpdated { bounty_id, applicant } => EventView::SubmissionUpdated {
                bounty_id: *bounty_id,
                applicant: applicant@,
            },
            Event::WinnersSelected { bounty_id, winners } => EventView::WinnersSelected {
                bounty_id: *bounty_id,
                winners: texts(winners@),
            },
            Event::AutoDistributed { bounty_id } => EventView::AutoDistributed {
                bounty_id: *bounty_id,
            },
            Event::AdminUpdated { admin } => EventView::AdminUpdated { admin: admin@ },
            Event::FeeAccountUpdated { fee_account } => EventView::FeeAccountUpdated {
                fee_account: fee_account@,
            },
            Event::BountyClosed { bounty_id } => EventView::BountyClosed { bounty_id: *bounty_id },
            Event::ProjectGigCreated { project_id, total_reward } => EventView::ProjectGigCreated {
                project_id: *project_id,
                total_reward: *total_reward,
            },
            Event::ProjectJobCreated { project_id } => EventView::ProjectJobCreated {
                project_id: *project_id,
            },
            Event::MilestonePaid {
                project_id,
                milestone_order,
                contributor,
                amount,
            } => EventView::MilestonePaid {
                project_id: *project_id,
                milestone_order: *milestone_order,
                contributor: contributor@,
                amount: *amount,
            },
            Event::ProjectCancelled { project_id, refunded_amount } => EventView::ProjectCancelled {
                project_id: *project_id,
                refunded_amount: *refunded_amount,
            },
            Event::ProjectCompleted { project_id } => EventView::ProjectCompleted {
                project_id: *project_id,
            },
        }
    }
}

impl EventView {
    /// The topic under which the event is published.
    pub open spec fn topic(self) -> Seq<char> {
        match self {
            EventView::BountyCreated { .. } => "bounty_created"@,
            EventView::BountyUpdated { .. } => "bounty_updated"@,
            EventView::BountyDeleted { .. } => "bounty_deleted"@,
            EventView::SubmissionAdded { .. } => "submission_added"@,
            EventView::SubmissionUpdated { .. } => "submission_updated"@,
            EventView::WinnersSelected { .. } => "winners_selected"@,
            EventView::AutoDistributed { .. } => "auto_distributed"@,
            EventView::AdminUpdated { .. } => "admin_updated"@,
            EventView::FeeAccountUpdated { .. } => "fee_account_updated"@,
            EventView::BountyClosed { .. } => "bounty_closed"@,
            EventView::ProjectGigCreated { .. } => "project_gig_created"@,
            EventView::ProjectJobCreated { .. } => "project_job_created"@,
            EventView::MilestonePaid { .. } => "milestone_paid"@,
            EventView::ProjectCancelled { .. } => "project_cancelled"@,
            EventView::ProjectCompleted { .. } => "project_completed"@,
        }
    }
}

impl Event {
    /// The topic under which the event is published.
    pub fn topic(&self) -> (s: &'static str)
        ensures
            s@ == self@.topic(),
    {
        match self {
            Event::BountyCreated { .. } => "bounty_created",
            Event::BountyUpdated { .. } => "bounty_updated",
            Event::BountyDeleted { .. } => "bounty_deleted",
            Event::SubmissionAdded { .. } => "submission_added",
            Event::SubmissionUpdated { .. } => "submission_updated",
            Event::WinnersSelected { .. } => "winners_selected",
            Event::AutoDistributed { .. } => "auto_distributed",
            Event::AdminUpdated { .. } => "admin_updated",
            Event::FeeAccountUpdated { .. } => "fee_account_updated",
            Event::BountyClosed { .. } => "bounty_closed",
            Event::ProjectGigCreated { .. } => "project_gig_created",
            Event::ProjectJobCreated { .. } => "project_job_created",
            Event::MilestonePaid { .. } => "milestone_paid",
            Event::ProjectCancelled { .. } => "project_cancelled",
            Event::ProjectCompleted { .. } => "project_completed",
        }
    }
}

/// The views of a sequence of events.
pub open spec fn event_views(events: Seq<Event>) -> Seq<EventView> {
    events.map_values(|e: Event| e@)
}

/// The log of the events emitted so far, oldest first.
#[derive(Debug, PartialEq, Eq)]
pub struct Events {
    pub log: Vec<Event>,
}

impl View for Events {
    type V = Seq<EventView>;

    open spec fn view(&self) -> Seq<EventView> {
        event_views(self.log@)
    }
}

impl Events {
    /// An empty log.
    pub fn new() -> (r: Events)
        ensures
            r@ == Seq::<EventView>::empty(),
    {
        let r = Events { log: Vec::new() };
        proof {
            assert(r@ =~= Seq::<EventView>::empty());
        }
        r
    }

    /// The number of events in the log.
    pub fn len(&self) -> (n: usize)
        ensures
            n == self@.len(),
    {
        self.log.len()
    }

    /// Appends `event` to the log.
    pub fn emit(&mut self, event: Event)
        ensures
            final(self)@ == old(self)@.push(event@),
    {
        self.log.push(event);
        proof {
            assert(self@ =~= old(self)@.push(event@));
        }
    }

    /// Logs: a bounty was created.
    pub fn emit_bounty_created(&mut self, bounty_id: u32)
        ensures
            final(self)@ == old(self)@.push(EventView::BountyCreated { bounty_id }),
    {
        self.emit(Event::BountyCreated { bounty_id });
    }

    /// Logs: fields of a bounty were updated.
    pub fn emit_bounty_updated(&mut self, bounty_id: u32, updated_fields: Vec<BountyField>)
        ensures
            final(self)@ == old(self)@.push(
                EventView::BountyUpdated { bounty_id, updated_fields: updated_fields@ },
            ),
    {
        self.emit(Event::BountyUpdated { bounty_id, updated_fields });
    }

    /// Logs: a bounty was deleted.
    pub fn emit_bounty_deleted(&mut self, bounty_id: u32)
        ensures
            final(self)@ == old(self)@.push(EventView::BountyDeleted { bounty_id }),
    {
        self.emit(Event::BountyDeleted { bounty_id });
    }

    /// Logs: an applicant handed in a submission.
    pub fn emit_submission_added(&mut self, bounty_id: u32, applicant: Address)
        ensures
            final(self)@ == old(self)@.push(
                EventView::SubmissionAdded { bounty_id, applicant: applicant@ },
            ),
    {
        self.emit(Event::SubmissionAdded { bounty_id, applicant });
    }

    /// Logs: an applicant replaced their submission.
    pub fn emit_submission_updated(&mut self, bounty_id: u32, applicant: Address)
        ensures
            final(self)@ == old(self)@.push(
                EventView::SubmissionUpdated { bounty_id, applicant: applicant@ },
            ),
    {
        self.emit(Event::SubmissionUpdated { bounty_id, applicant });
    }

    /// Logs: the owner settled a bounty on these winners.
    pub fn emit_winners_selected(&mut self, bounty_id: u32, winners: Vec<Address>)
        ensures
            final(self)@ == old(self)@.push(
                EventView::WinnersSelected { bounty_id, winners: texts(winners@) },
            ),
    {
        self.emit(Event::WinnersSelected { bounty_id, winners });
    }

    /// Logs: a bounty settled itself after its final deadline.
    pub fn emit_auto_distributed(&mut self, bounty_id: u32)
        ensures
            final(self)@ == old(self)@.push(EventView::AutoDistributed { bounty_id }),
    {
        self.emit(Event::AutoDistributed { bounty_id });
    }

    /// Logs: the administrator was set.
    pub fn emit_admin_updated(&mut self, new_admin: Address)
        ensures
            final(self)@ == old(self)@.push(EventView::AdminUpdated { admin: new_admin@ }),
    {
        self.emit(Event::AdminUpdated { admin: new_admin });
    }

    /// Logs: the fee account was set.
    pub fn emit_fee_account_updated(&mut self, new_fee_account: Address)
        ensures
            final(self)@ == old(self)@.push(
                EventView::FeeAccountUpdated { fee_account: new_fee_account@ },
            ),
    {
        self.emit(Event::FeeAccountUpdated { fee_account: new_fee_account });
    }

    /// Logs: a bounty was closed.
    pub fn emit_bounty_closed(&mut self, bounty_id: u32)
        ensures
            final(self)@ == old(self)@.push(EventView::BountyClosed { bounty_id }),
    {
        self.emit(Event::BountyClosed { bounty_id });
    }

    /// Logs: a gig was created.
    pub fn emit_project_gig_created(&mut self, project_id: u32, total_reward: i128)
        ensures
            final(self)@ == old(self)@.push(
                EventView::ProjectGigCreated { project_id, total_reward },
            ),
    {
        self.emit(Event::ProjectGigCreated { project_id, total_reward });
    }

    /// Logs: a job was created.
    pub fn emit_project_job_created(&mut self, project_id: u32)
        ensures
            final(self)@ == old(self)@.push(EventView::ProjectJobCreated { project_id }),
    {
        self.emit(Event::ProjectJobCreated { project_id });
    }

    /// Logs: a milestone was released.
    pub fn emit_milestone_paid(
        &mut self,
        project_id: u32,
        milestone_order: u32,
        contributor: Address,
        amount: i128,
    )
        ensures
            final(self)@ == old(self)@.push(
                EventView::MilestonePaid {
                    project_id,
                    milestone_order,
                    contributor: contributor@,
                    amount,
                },
            ),
    {
        self.emit(Event::MilestonePaid { project_id, milestone_order, contributor, amount });
    }

    /// Logs: a gig was cancelled.
    pub fn emit_project_cancelled(&mut self, project_id: u32, refunded_amount: i128)
        ensures
            final(self)@ == old(self)@.push(
                EventView::ProjectCancelled { project_id, refunded_amount },
            ),
    {
        self.emit(Event::ProjectCancelled { project_id, refunded_amount });
    }

    /// Logs: the last milestone of a gig was released.
    pub fn emit_project_completed(&mut self, project_id: u32)
        ensures
            final(self)@ == old(self)@.push(EventView::ProjectCompleted { project_id }),
    {
        self.emit(Event::ProjectCompleted { project_id });
    }
}

} // verus!
