//! The project record and its lifecycle: a gig holds its reward in escrow
//! and releases it milestone by milestone; a job escrows nothing but the
//! platform fee.

use vstd::prelude::*;
use crate::ledger::{deposit, pay_in, pay_out, payout, transfer_views, Transfer, TransferView};
use crate::types::{Address, Error, MilestoneData, MilestoneInfo, ProjectStatus, ProjectType};
use crate::utils::{
    base_units, fits_i128, lemma_base_units_fits_below, lemma_base_units_grow, to_base_units,
};

verus! {

/// The model of a project: texts for addresses, a sequence for the milestones.
pub struct ProjectView {
    pub owner: Seq<char>,
    pub project_type: ProjectType,
    pub token: Seq<char>,
    pub total_reward: int,
    pub remaining_escrow: int,
    pub deadline: int,
    pub status: ProjectStatus,
    pub milestones: Seq<MilestoneInfo>,
}

/// A funded task that is paid out by milestones (`Gig`), or one of which
/// only the platform fee passes through the engine (`Job`). Amounts are held
/// in display units.
#[derive(Debug, PartialEq, Eq)]
pub struct Project {
    pub owner: Address,
    pub project_type: ProjectType,
    pub token: Address,
    pub total_reward: i128,
    pub remaining_escrow: i128,
    pub deadline: u64,
    pub status: ProjectStatus,
    pub milestones: Vec<MilestoneInfo>,
}

impl View for Project {
    type V = ProjectView;

    open spec fn view(&self) -> ProjectView {
        ProjectView {
            owner: self.owner@,
            project_type: self.project_type,
            token: self.token@,
            total_reward: self.total_reward as int,
            remaining_escrow: self.remaining_escrow as int,
            deadline: self.deadline as int,
            status: self.status,
            milestones: self.milestones@,
        }
    }
}

/// Sum of the amounts of all milestones.
pub open spec fn total_amount(milestones: Seq<MilestoneInfo>) -> int
    decreases milestones.len(),
{
    if milestones.len() == 0 {
        0
    } else {
        total_amount(milestones.drop_last()) + milestones.last().amount
    }
}

/// Sum of the amounts of the paid milestones.
pub open spec fn paid_amount(milestones: Seq<MilestoneInfo>) -> int
    decreases milestones.len(),
{
    if milestones.len() == 0 {
        0
    } else {
        paid_amount(milestones.drop_last()) + (if milestones.last().is_paid {
            milestones.last().amount as int
        } else {
            0
        })
    }
}

/// Every milestone is paid.
pub open spec fn all_paid(milestones: Seq<MilestoneInfo>) -> bool {
    forall|i: int| 0 <= i < milestones.len() ==> (#[trigger] milestones[i]).is_paid
}

/// Every milestone has a positive amount.
pub open spec fn amounts_positive(milestones: Seq<MilestoneInfo>) -> bool {
    forall|i: int| 0 <= i < milestones.len() ==> (#[trigger] milestones[i]).amount > 0
}

/// No order number is used twice.
pub open spec fn orders_unique(milestones: Seq<MilestoneInfo>) -> bool {
    forall|i: int, j: int|
        0 <= i < j < milestones.len() ==> milestones[i].order != milestones[j].order
}

/// The position of the first milestone at or after `from` with the given
/// order number, or the number of milestones where there is none.
pub open spec fn find_order(milestones: Seq<MilestoneInfo>, order: u32, from: int) -> int
    decreases milestones.len() - from,
{
    if from < 0 || from >= milestones.len() {
        milestones.len() as int
    } else if milestones[from].order == order {
        from
    } else {
        find_order(milestones, order, from + 1)
    }
}

/// The milestones as a new gig records them: none of them paid.
pub open spec fn planned(milestones: Seq<MilestoneData>) -> Seq<MilestoneInfo> {
    milestones.map_values(
        |m: MilestoneData| MilestoneInfo { amount: m.amount, order: m.order, is_paid: false },
    )
}

impl ProjectView {
    /// The invariant of a project. What a gig still holds in escrow is its
    /// reward less the paid milestones, until a cancellation empties it.
    pub open spec fn wf(self) -> bool {
        &&& self.total_reward > 0
        &&& match self.project_type {
            ProjectType::Gig => {
                &&& self.milestones.len() > 0
                &&& amounts_positive(self.milestones)
                &&& orders_unique(self.milestones)
                &&& total_amount(self.milestones) == self.total_reward
                &&& match self.status {
                    ProjectStatus::Active => {
                        &&& !all_paid(self.milestones)
                        &&& self.remaining_escrow == self.total_reward - paid_amount(
                            self.milestones,
                        )
                    },
                    ProjectStatus::Completed => {
                        &&& all_paid(self.milestones)
                        &&& self.remaining_escrow == self.total_reward - paid_amount(
                            self.milestones,
                        )
                    },
                    ProjectStatus::Cancelled => self.remaining_escrow == 0,
                }
            },
            ProjectType::Job => {
                &&& self.milestones.len() == 0
                &&& self.remaining_escrow == 0
            },
        }
    }
}

// ---------------------------------------------------------------------
// Creation
// ---------------------------------------------------------------------

/// Why a gig with these terms cannot be created, if it cannot.
pub open spec fn create_gig_error(
    total_reward: int,
    milestones: Seq<MilestoneData>,
    deadline: int,
    platform_fee: int,
    now: int,
    decimals: nat,
) -> Option<Error> {
    if total_reward <= 0 {
        Some(Error::InvalidReward)
    } else if platform_fee < 0 {
        Some(Error::InvalidAmount)
    } else if milestones.len() == 0 {
        Some(Error::InvalidMilestones)
    } else if deadline <= now {
        Some(Error::DeadlinePassed)
    } else if !amounts_positive(planned(milestones)) {
        Some(Error::InvalidAmount)
    } else if total_amount(planned(milestones)) != total_reward || !orders_unique(
        planned(milestones),
    ) {
        Some(Error::InvalidMilestones)
    } else if !fits_i128(base_units(total_reward + platform_fee, decimals)) {
        Some(Error::InternalError)
    } else {
        None
    }
}

/// The gig that creation yields: active, with the whole reward in escrow.
pub open spec fn created_gig(
    owner: Seq<char>,
    token: Seq<char>,
    total_reward: int,
    milestones: Seq<MilestoneData>,
    deadline: int,
) -> ProjectView {
    ProjectView {
        owner,
        project_type: ProjectType::Gig,
        token,
        total_reward,
        remaining_escrow: total_reward,
        deadline,
        status: ProjectStatus::Active,
        milestones: planned(milestones),
    }
}

/// Why a job with these terms cannot be created, if it cannot.
pub open spec fn create_job_error(
    reward_amount: int,
    platform_fee: int,
    deadline: int,
    now: int,
    decimals: nat,
) -> Option<Error> {
    if reward_amount <= 0 {
        Some(Error::InvalidReward)
    } else if platform_fee < 0 {
        Some(Error::InvalidAmount)
    } else if deadline <= now {
        Some(Error::DeadlinePassed)
    } else if !fits_i128(base_units(platform_fee, decimals)) {
        Some(Error::InternalError)
    } else {
        None
    }
}

/// The job that creation yields: active, with nothing in escrow.
pub open spec fn created_job(
    owner: Seq<char>,
    token: Seq<char>,
    reward_amount: int,
    deadline: int,
) -> ProjectView {
    ProjectView {
        owner,
        project_type: ProjectType::Job,
        token,
        total_reward: reward_amount,
        remaining_escrow: 0,
        deadline,
        status: ProjectStatus::Active,
        milestones: Seq::empty(),
    }
}

/// The transfers of a creation: the owner pays `escrowed + platform_fee`
/// into escrow, and the fee is forwarded to the fee account at once.
pub open spec fn project_funding(
    owner: Seq<char>,
    token: Seq<char>,
    escrowed: int,
    platform_fee: int,
    fee_account: Seq<char>,
    decimals: nat,
) -> Seq<TransferView> {
    seq![
        deposit(token, owner, escrowed + platform_fee, decimals),
        payout(token, fee_account, platform_fee, decimals),
    ]
}

// ---------------------------------------------------------------------
// Milestone release
// ---------------------------------------------------------------------

/// Why a milestone cannot be released, if it cannot.
pub open spec fn release_error(
    p: ProjectView,
    caller: Seq<char>,
    order: u32,
    amount: int,
    decimals: nat,
) -> Option<Error> {
    let at = find_order(p.milestones, order, 0);
    if caller != p.owner {
        Some(Error::Unauthorized)
    } else if p.project_type != ProjectType::Gig {
        Some(Error::InvalidProjectType)
    } else if p.status != ProjectStatus::Active {
        Some(Error::ProjectNotActive)
    } else if at >= p.milestones.len() {
        Some(Error::MilestoneNotFound)
    } else if p.milestones[at].is_paid {
        Some(Error::MilestoneAlreadyPaid)
    } else if p.milestones[at].amount != amount {
        Some(Error::InvalidAmount)
    } else if p.remaining_escrow < amount {
        Some(Error::InsufficientEscrow)
    } else if !fits_i128(base_units(amount, decimals)) {
        Some(Error::InternalError)
    } else {
        None
    }
}

/// The milestones with the one at position `at` marked as paid.
pub open spec fn with_paid(milestones: Seq<MilestoneInfo>, at: int) -> Seq<MilestoneInfo> {
    milestones.update(
        at,
        MilestoneInfo { amount: milestones[at].amount, order: milestones[at].order, is_paid: true },
    )
}

/// The project after the release of the milestone with the given order
/// number: the milestone is paid, the escrow is smaller by its amount, and
/// the project is completed once no milestone is left unpaid.
pub open spec fn released(p: ProjectView, order: u32) -> ProjectView {
    let at = find_order(p.milestones, order, 0);
    let after = with_paid(p.milestones, at);
    ProjectView {
        milestones: after,
        remaining_escrow: p.remaining_escrow - p.milestones[at].amount,
        status: if all_paid(after) {
            ProjectStatus::Completed
        } else {
            ProjectStatus::Active
        },
        ..p
    }
}

// ---------------------------------------------------------------------
// Cancellation
// ---------------------------------------------------------------------

/// Why a gig cannot be cancelled, if it cannot.
pub open spec fn cancel_error(p: ProjectView, caller: Seq<char>, decimals: nat) -> Option<Error> {
    if caller != p.owner {
        Some(Error::Unauthorized)
    } else if p.project_type != ProjectType::Gig {
        Some(Error::InvalidProjectType)
    } else if p.status != ProjectStatus::Active {
        Some(Error::ProjectNotActive)
    } else if p.remaining_escrow > 0 && !fits_i128(base_units(p.remaining_escrow, decimals)) {
        Some(Error::InternalError)
    } else {
        None
    }
}

/// The project after its cancellation.
pub open spec fn cancelled(p: ProjectView) -> ProjectView {
    ProjectView { status: ProjectStatus::Cancelled, remaining_escrow: 0, ..p }
}

/// The transfers of a cancellation: what is left in escrow goes back to
/// the owner, if anything is left.
pub open spec fn cancellation_transfers(p: ProjectView, decimals: nat) -> Seq<TransferView> {
    if p.remaining_escrow > 0 {
        seq![payout(p.token, p.owner, p.remaining_escrow, decimals)]
    } else {
        seq![]
    }
}

// ---------------------------------------------------------------------
// Lemmas on milestone sums
// ---------------------------------------------------------------------

/// Extending a prefix by one milestone adds that milestone to the sums.
pub proof fn lemma_total_amount_take_step(milestones: Seq<MilestoneInfo>, i: int)
    requires
        0 <= i < milestones.len(),
    ensures
        total_amount(milestones.take(i + 1)) == total_amount(milestones.take(i))
            + milestones[i].amount,
        paid_amount(milestones.take(i + 1)) == paid_amount(milestones.take(i)) + (
        if milestones[i].is_paid {
            milestones[i].amount as int
        } else {
            0
        }),
{
    assert(milestones.take(i + 1).drop_last() =~= milestones.take(i));
}

/// Where every amount is positive, the paid amounts of a prefix lie between
/// zero and the total of the prefix, and the total grows with the prefix.
pub proof fn lemma_amounts_bounded(milestones: Seq<MilestoneInfo>, i: int)
    requires
        amounts_positive(milestones),
        0 <= i <= milestones.len(),
    ensures
        0 <= paid_amount(milestones.take(i)) <= total_amount(milestones.take(i))
            <= total_amount(milestones),
        i < milestones.len() ==> total_amount(milestones.take(i)) < total_amount(milestones),
    decreases milestones.len() - i,
{
    lemma_paid_within_total(milestones.take(i));
    if i < milestones.len() {
        lemma_total_amount_take_step(milestones, i);
        lemma_amounts_bounded(milestones, i + 1);
    } else {
        assert(milestones.take(i) =~= milestones);
    }
}

/// Where every amount is positive, what is paid lies between zero and the
/// total.
pub proof fn lemma_paid_within_total(milestones: Seq<MilestoneInfo>)
    requires
        amounts_positive(milestones),
    ensures
        0 <= paid_amount(milestones) <= total_amount(milestones),
    decreases milestones.len(),
{
    if milestones.len() > 0 {
        let init = milestones.drop_last();
        assert forall|i: int| 0 <= i < init.len() implies (#[trigger] init[i]).amount > 0 by {
            assert(init[i] == milestones[i]);
        }
        assert(milestones.last() == milestones[milestones.len() - 1]);
        lemma_paid_within_total(init);
    }
}

/// Marking an unpaid milestone as paid adds its amount to the paid sum and
/// leaves the total as it is.
pub proof fn lemma_with_paid_sums(milestones: Seq<MilestoneInfo>, at: int)
    requires
        0 <= at < milestones.len(),
        !milestones[at].is_paid,
    ensures
        total_amount(with_paid(milestones, at)) == total_amount(milestones),
        paid_amount(with_paid(milestones, at)) == paid_amount(milestones) + milestones[at].amount,
    decreases milestones.len(),
{
    let after = with_paid(milestones, at);
    let init = milestones.drop_last();
    if at == milestones.len() - 1 {
        assert(after.drop_last() =~= init);
    } else {
        assert(after.drop_last() =~= with_paid(init, at));
        assert(after.last() == milestones.last());
        lemma_with_paid_sums(init, at);
    }
}

/// Where every milestone is paid, the paid sum is the total.
pub proof fn lemma_all_paid_sum(milestones: Seq<MilestoneInfo>)
    requires
        all_paid(milestones),
    ensures
        paid_amount(milestones) == total_amount(milestones),
    decreases milestones.len(),
{
    if milestones.len() > 0 {
        let init = milestones.drop_last();
        assert forall|i: int| 0 <= i < init.len() implies (#[trigger] init[i]).is_paid by {
            assert(init[i] == milestones[i]);
        }
        assert(milestones.last() == milestones[milestones.len() - 1]);
        lemma_all_paid_sum(init);
    }
}

/// What `find_order` returns is the first milestone with the order number.
pub proof fn lemma_find_order(milestones: Seq<MilestoneInfo>, order: u32, from: int)
    requires
        0 <= from <= milestones.len(),
    ensures
        from <= find_order(milestones, order, from) <= milestones.len(),
        find_order(milestones, order, from) < milestones.len() ==> milestones[find_order(
            milestones,
            order,
            from,
        )].order == order,
        forall|j: int|
            from <= j < find_order(milestones, order, from) ==> (#[trigger] milestones[j]).order
                != order,
    decreases milestones.len() - from,
{
    if from < milestones.len() && milestones[from].order != order {
        lemma_find_order(milestones, order, from + 1);
    }
}

/// Releasing a milestone keeps the invariant of a project.
pub proof fn lemma_released_wf(p: ProjectView, caller: Seq<char>, order: u32, decimals: nat)
    requires
        p.wf(),
        release_error(
            p,
            caller,
            order,
            p.milestones[find_order(p.milestones, order, 0)].amount as int,
            decimals,
        ) is None,
    ensures
        released(p, order).wf(),
{
    let at = find_order(p.milestones, order, 0);
    lemma_find_order(p.milestones, order, 0);
    let after = with_paid(p.milestones, at);
    lemma_with_paid_sums(p.milestones, at);
    assert forall|i: int| 0 <= i < after.len() implies (#[trigger] after[i]).amount > 0 by {
        assert(p.milestones[i].amount > 0);
    }
    assert forall|i: int, j: int| 0 <= i < j < after.len() implies after[i].order
        != after[j].order by {
        assert(p.milestones[i].order != p.milestones[j].order);
    }
}

// ---------------------------------------------------------------------
// Operations
// ---------------------------------------------------------------------

/// A copy of the milestones.
pub fn copy_milestones(milestones: &Vec<MilestoneInfo>) -> (r: Vec<MilestoneInfo>)
    ensures
        r@ == milestones@,
{
    let mut r: Vec<MilestoneInfo> = Vec::new();
    let mut i: usize = 0;
    while i < milestones.len()
        invariant
            i <= milestones.len(),
            r@ == milestones@.take(i as int),
        decreases milestones.len() - i,
    {
        r.push(milestones[i]);
        proof {
            assert(milestones@.take(i as int).push(milestones@[i as int]) =~= milestones@.take(
                i + 1,
            ));
        }
        i = i + 1;
    }
    proof {
        assert(milestones@.take(i as int) =~= milestones@);
    }
    r
}

/// Whether every milestone is paid.
pub fn are_all_paid(milestones: &Vec<MilestoneInfo>) -> (r: bool)
    ensures
        r == all_paid(milestones@),
{
    let mut i: usize = 0;
    while i < milestones.len()
        invariant
            i <= milestones.len(),
            forall|j: int| 0 <= j < i ==> (#[trigger] milestones@[j]).is_paid,
        decreases milestones.len() - i,
    {
        if !milestones[i].is_paid {
            return false;
        }
        i = i + 1;
    }
    true
}

/// Whether no order number is used twice.
pub fn have_unique_orders(milestones: &Vec<MilestoneInfo>) -> (ok: bool)
    ensures
        ok == orders_unique(milestones@),
{
    let mut j: usize = 0;
    while j < milestones.len()
        invariant
            j <= milestones.len(),
            forall|a: int, b: int| 0 <= a < b < j ==> milestones@[a].order != milestones@[b].order,
        decreases milestones.len() - j,
    {
        let mut i: usize = 0;
        while i < j
            invariant
                i <= j < milestones.len(),
                forall|a: int|
                    0 <= a < i ==> (#[trigger] milestones@[a]).order != milestones@[j as int].order,
            decreases j - i,
        {
            if milestones[i].order == milestones[j].order {
                return false;
            }
            i = i + 1;
        }
        j = j + 1;
    }
    true
}

/// Sums of a list of milestones whose amounts are all positive.
pub struct MilestoneSums {
    /// Sum of all amounts, `None` where it exceeds the range of `i128`.
    pub total: Option<i128>,
    /// Sum of the amounts of the paid milestones, meaningful where `total` is.
    pub paid: i128,
}

/// Checks that every amount is positive and sums the amounts up. Returns
/// `None` where some amount is zero or negative.
pub fn sum_milestones(milestones: &Vec<MilestoneInfo>) -> (r: Option<MilestoneSums>)
    ensures
        match r {
            None => !amounts_positive(milestones@),
            Some(sums) => {
                &&& amounts_positive(milestones@)
                &&& match sums.total {
                    Some(total) => {
                        &&& total == total_amount(milestones@)
                        &&& sums.paid == paid_amount(milestones@)
                    },
                    None => total_amount(milestones@) > i128::MAX,
                }
            },
        },
{
    let mut total: i128 = 0;
    let mut paid: i128 = 0;
    let mut overflow: bool = false;
    let mut i: usize = 0;
    proof {
        assert(milestones@.take(0) =~= Seq::<MilestoneInfo>::empty());
    }
    while i < milestones.len()
        invariant
            i <= milestones.len(),
            forall|j: int| 0 <= j < i ==> (#[trigger] milestones@[j]).amount > 0,
            !overflow ==> total == total_amount(milestones@.take(i as int)),
            !overflow ==> paid == paid_amount(milestones@.take(i as int)),
            !overflow ==> 0 <= paid <= total,
            overflow ==> total_amount(milestones@.take(i as int)) > i128::MAX,
        decreases milestones.len() - i,
    {
        let m: MilestoneInfo = milestones[i];
        if m.amount <= 0 {
            return None;
        }
        proof {
            lemma_total_amount_take_step(milestones@, i as int);
        }
        if !overflow {
            match total.checked_add(m.amount) {
                Some(next) => {
                    total = next;
                    if m.is_paid {
                        paid = paid + m.amount;
                    }
                },
                None => {
                    overflow = true;
                },
            }
        }
        i = i + 1;
    }
    proof {
        assert(milestones@.take(i as int) =~= milestones@);
    }
    Some(MilestoneSums { total: if overflow { None } else { Some(total) }, paid })
}

impl Clone for Project {
    fn clone(&self) -> (r: Project)
        ensures
            r@ == self@,
    {
        Project {
            owner: self.owner.clone(),
            project_type: self.project_type,
            token: self.token.clone(),
            total_reward: self.total_reward,
            remaining_escrow: self.remaining_escrow,
            deadline: self.deadline,
            status: self.status,
            milestones: copy_milestones(&self.milestones),
        }
    }
}

impl Project {
    /// Whether the record satisfies the invariant of a project.
    pub fn is_valid(&self) -> (ok: bool)
        ensures
            ok == self@.wf(),
    {
        if self.total_reward <= 0 {
            return false;
        }
        match self.project_type {
            ProjectType::Job => self.milestones.len() == 0 && self.remaining_escrow == 0,
            ProjectType::Gig => {
                if self.milestones.len() == 0 || !have_unique_orders(&self.milestones) {
                    return false;
                }
                let sums = match sum_milestones(&self.milestones) {
                    Some(sums) => sums,
                    None => {
                        return false;
                    },
                };
                let (total, paid) = match sums.total {
                    Some(total) => (total, sums.paid),
                    None => {
                        return false;
                    },
                };
                if total != self.total_reward {
                    return false;
                }
                proof {
                    lemma_paid_within_total(self.milestones@);
                }
                let done: bool = are_all_paid(&self.milestones);
                match self.status {
                    ProjectStatus::Active => !done && self.remaining_escrow == total - paid,
                    ProjectStatus::Completed => done && self.remaining_escrow == total - paid,
                    ProjectStatus::Cancelled => self.remaining_escrow == 0,
                }
            },
        }
    }

    /// Creates an active gig and commands its funding, or refuses the terms.
    pub fn create_gig(
        owner: Address,
        token: Address,
        total_reward: i128,
        milestones: &Vec<MilestoneData>,
        deadline: u64,
        platform_fee: i128,
        now: u64,
        fee_account: &Address,
        decimals: u32,
    ) -> (r: Result<(Project, Vec<Transfer>), Error>)
        ensures
            match r {
                Ok((project, transfers)) => {
                    &&& create_gig_error(
                        total_reward as int,
                        milestones@,
                        deadline as int,
                        platform_fee as int,
                        now as int,
                        decimals as nat,
                    ) is None
                    &&& project@ == created_gig(
                        owner@,
                        token@,
                        total_reward as int,
                        milestones@,
                        deadline as int,
                    )
                    &&& project@.wf()
                    &&& transfer_views(transfers@) == project_funding(
                        owner@,
                        token@,
                        total_reward as int,
                        platform_fee as int,
                        fee_account@,
                        decimals as nat,
                    )
                },
                Err(e) => create_gig_error(
                    total_reward as int,
                    milestones@,
                    deadline as int,
                    platform_fee as int,
                    now as int,
                    decimals as nat,
                ) == Some(e),
            },
    {
        if total_reward <= 0 {
            return Err(Error::InvalidReward);
        }
        if platform_fee < 0 {
            return Err(Error::InvalidAmount);
        }
        if milestones.len() == 0 {
            return Err(Error::InvalidMilestones);
        }
        if deadline <= now {
            return Err(Error::DeadlinePassed);
        }
        let mut infos: Vec<MilestoneInfo> = Vec::new();
        let mut i: usize = 0;
        while i < milestones.len()
            invariant
                i <= milestones.len(),
                infos@ == planned(milestones@).take(i as int),
            decreases milestones.len() - i,
        {
            let m: MilestoneData = milestones[i];
            infos.push(MilestoneInfo { amount: m.amount, order: m.order, is_paid: false });
            proof {
                assert(planned(milestones@).take(i as int).push(planned(milestones@)[i as int])
                    =~= planned(milestones@).take(i + 1));
            }
            i = i + 1;
        }
        proof {
            assert(planned(milestones@).take(i as int) =~= planned(milestones@));
        }
        let sums = match sum_milestones(&infos) {
            Some(sums) => sums,
            None => {
                return Err(Error::InvalidAmount);
            },
        };
        match sums.total {
            Some(total) => {
                if total != total_reward {
                    return Err(Error::InvalidMilestones);
                }
            },
            None => {
                return Err(Error::InvalidMilestones);
            },
        }
        if !have_unique_orders(&infos) {
            return Err(Error::InvalidMilestones);
        }
        let funding = match fund(&owner, &token, total_reward, platform_fee, fee_account, decimals) {
            Some(funding) => funding,
            None => {
                return Err(Error::InternalError);
            },
        };
        let project = Project {
            owner,
            project_type: ProjectType::Gig,
            token,
            total_reward,
            remaining_escrow: total_reward,
            deadline,
            status: ProjectStatus::Active,
            milestones: infos,
        };
        proof {
            let ms = planned(milestones@);
            lemma_unpaid_sum(ms);
            assert(!ms[0].is_paid);
        }
        Ok((project, funding))
    }

    /// Creates an active job and commands the payment of its fee, or
    /// refuses the terms.
    pub fn create_job(
        owner: Address,
        token: Address,
        reward_amount: i128,
        platform_fee: i128,
        deadline: u64,
        now: u64,
        fee_account: &Address,
        decimals: u32,
    ) -> (r: Result<(Project, Vec<Transfer>), Error>)
        ensures
            match r {
                Ok((project, transfers)) => {
                    &&& create_job_error(
                        reward_amount as int,
                        platform_fee as int,
                        deadline as int,
                        now as int,
                        decimals as nat,
                    ) is None
                    &&& project@ == created_job(
                        owner@,
                        token@,
                        reward_amount as int,
                        deadline as int,
                    )
                    &&& project@.wf()
                    &&& transfer_views(transfers@) == project_funding(
                        owner@,
                        token@,
                        0,
                        platform_fee as int,
                        fee_account@,
                        decimals as nat,
                    )
                },
                Err(e) => create_job_error(
                    reward_amount as int,
                    platform_fee as int,
                    deadline as int,
                    now as int,
                    decimals as nat,
                ) == Some(e),
            },
    {
        if reward_amount <= 0 {
            return Err(Error::InvalidReward);
        }
        if platform_fee < 0 {
            return Err(Error::InvalidAmount);
        }
        if deadline <= now {
            return Err(Error::DeadlinePassed);
        }
        let funding = match fund(&owner, &token, 0, platform_fee, fee_account, decimals) {
            Some(funding) => funding,
            None => {
                return Err(Error::InternalError);
            },
        };
        let project = Project {
            owner,
            project_type: ProjectType::Job,
            token,
            total_reward: reward_amount,
            remaining_escrow: 0,
            deadline,
            status: ProjectStatus::Active,
            milestones: Vec::new(),
        };
        proof {
            assert(project@.milestones =~= Seq::empty());
        }
        Ok((project, funding))
    }

    /// Releases the milestone with the given order number to `contributor`:
    /// commands its payment, marks it as paid, and completes the project once
    /// no milestone is left unpaid.
    pub fn release_milestone_payment(
        &mut self,
        caller: &Address,
        milestone_order: u32,
        contributor: &Address,
        amount: i128,
        decimals: u32,
    ) -> (r: Result<Vec<Transfer>, Error>)
        requires
            old(self)@.wf(),
        ensures
            final(self)@.wf(),
            match r {
                Ok(transfers) => {
                    &&& release_error(
                        old(self)@,
                        caller@,
                        milestone_order,
                        amount as int,
                        decimals as nat,
                    ) is None
                    &&& final(self)@ == released(old(self)@, milestone_order)
                    &&& transfer_views(transfers@) == seq![
                        payout(old(self)@.token, contributor@, amount as int, decimals as nat),
                    ]
                },
                Err(e) => {
                    &&& release_error(
                        old(self)@,
                        caller@,
                        milestone_order,
                        amount as int,
                        decimals as nat,
                    ) == Some(e)
                    &&& *final(self) == *old(self)
                },
            },
    {
        if !self.owner.same(caller) {
            return Err(Error::Unauthorized);
        }
        if self.project_type != ProjectType::Gig {
            return Err(Error::InvalidProjectType);
        }
        if self.status != ProjectStatus::Active {
            return Err(Error::ProjectNotActive);
        }
        let n: usize = self.milestones.len();
        let mut at: usize = 0;
        while at < n && self.milestones[at].order != milestone_order
            invariant
                at <= n,
                n == self.milestones.len(),
                find_order(self.milestones@, milestone_order, 0) == find_order(
                    self.milestones@,
                    milestone_order,
                    at as int,
                ),
            decreases n - at,
        {
            at = at + 1;
        }
        if at == n {
            return Err(Error::MilestoneNotFound);
        }
        let milestone: MilestoneInfo = self.milestones[at];
        if milestone.is_paid {
            return Err(Error::MilestoneAlreadyPaid);
        }
        if milestone.amount != amount {
            return Err(Error::InvalidAmount);
        }
        if self.remaining_escrow < amount {
            return Err(Error::InsufficientEscrow);
        }
        if to_base_units(amount, decimals).is_none() {
            return Err(Error::InternalError);
        }
        proof {
            lemma_released_wf(self@, caller@, milestone_order, decimals as nat);
        }
        let mut transfers: Vec<Transfer> = Vec::new();
        transfers.push(pay_out(&self.token, contributor, amount, decimals));
        self.milestones.set(
            at,
            MilestoneInfo { amount: milestone.amount, order: milestone.order, is_paid: true },
        );
        self.remaining_escrow = self.remaining_escrow - amount;
        if are_all_paid(&self.milestones) {
            self.status = ProjectStatus::Completed;
        }
        proof {
            assert(self.milestones@ =~= with_paid(old(self)@.milestones, at as int));
            assert(transfer_views(transfers@) =~= seq![
                payout(old(self)@.token, contributor@, amount as int, decimals as nat),
            ]);
        }
        Ok(transfers)
    }

    /// Cancels an active gig: commands the refund of what is left in escrow
    /// to the owner and returns the refunded amount, in display units.
    pub fn cancel(&mut self, caller: &Address, decimals: u32) -> (r: Result<
        (i128, Vec<Transfer>),
        Error,
    >)
        requires
            old(self)@.wf(),
        ensures
            final(self)@.wf(),
            match r {
                Ok((refund, transfers)) => {
                    &&& cancel_error(old(self)@, caller@, decimals as nat) is None
                    &&& refund == old(self)@.remaining_escrow
                    &&& final(self)@ == cancelled(old(self)@)
                    &&& transfer_views(transfers@) == cancellation_transfers(
                        old(self)@,
                        decimals as nat,
                    )
                },
                Err(e) => {
                    &&& cancel_error(old(self)@, caller@, decimals as nat) == Some(e)
                    &&& *final(self) == *old(self)
                },
            },
    {
        if !self.owner.same(caller) {
            return Err(Error::Unauthorized);
        }
        if self.project_type != ProjectType::Gig {
            return Err(Error::InvalidProjectType);
        }
        if self.status != ProjectStatus::Active {
            return Err(Error::ProjectNotActive);
        }
        let refund: i128 = self.remaining_escrow;
        let mut transfers: Vec<Transfer> = Vec::new();
        if refund > 0 {
            if to_base_units(refund, decimals).is_none() {
                return Err(Error::InternalError);
            }
            transfers.push(pay_out(&self.token, &self.owner, refund, decimals));
        }
        self.status = ProjectStatus::Cancelled;
        self.remaining_escrow = 0;
        proof {
            assert(transfer_views(transfers@) =~= cancellation_transfers(
                old(self)@,
                decimals as nat,
            ));
        }
        Ok((refund, transfers))
    }
}

/// Where no milestone is paid, nothing has been paid.
pub proof fn lemma_unpaid_sum(milestones: Seq<MilestoneInfo>)
    requires
        forall|i: int| 0 <= i < milestones.len() ==> !(#[trigger] milestones[i]).is_paid,
    ensures
        paid_amount(milestones) == 0,
    decreases milestones.len(),
{
    if milestones.len() > 0 {
        let init = milestones.drop_last();
        assert forall|i: int| 0 <= i < init.len() implies !(#[trigger] init[i]).is_paid by {
            assert(init[i] == milestones[i]);
        }
        assert(milestones.last() == milestones[milestones.len() - 1]);
        lemma_unpaid_sum(init);
    }
}

/// Commands the funding of a new project: `escrowed + platform_fee` from the
/// owner into escrow, and the fee on to the fee account. Returns `None`
/// where the deposit cannot be expressed in base units.
fn fund(
    owner: &Address,
    token: &Address,
    escrowed: i128,
    platform_fee: i128,
    fee_account: &Address,
    decimals: u32,
) -> (r: Option<Vec<Transfer>>)
    requires
        0 <= escrowed,
        0 <= platform_fee,
    ensures
        match r {
            Some(transfers) => {
                &&& fits_i128(base_units(escrowed + platform_fee, decimals as nat))
                &&& transfer_views(transfers@) == project_funding(
                    owner@,
                    token@,
                    escrowed as int,
                    platform_fee as int,
                    fee_account@,
                    decimals as nat,
                )
            },
            None => !fits_i128(base_units(escrowed + platform_fee, decimals as nat)),
        },
{
    let total: i128 = match escrowed.checked_add(platform_fee) {
        Some(total) => total,
        None => {
            proof {
                lemma_base_units_grow(escrowed + platform_fee, decimals as nat);
            }
            return None;
        },
    };
    if to_base_units(total, decimals).is_none() {
        return None;
    }
    proof {
        lemma_base_units_fits_below(platform_fee as int, total as int, decimals as nat);
    }
    let mut transfers: Vec<Transfer> = Vec::new();
    transfers.push(pay_in(token, owner, total, decimals));
    transfers.push(pay_out(token, fee_account, platform_fee, decimals));
    proof {
        assert(transfer_views(transfers@) =~= project_funding(
            owner@,
            token@,
            escrowed as int,
            platform_fee as int,
            fee_account@,
            decimals as nat,
        ));
    }
    Some(transfers)
}

} // verus!
