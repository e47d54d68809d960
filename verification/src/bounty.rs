//! The bounty record and its lifecycle: creation, applications, updates,
//! settlement by the owner, settlement by deadline, closing and deletion.
//!
//! Every operation is a function from the record and the caller's input to
//! either an error, with the record untouched, or the changed record and the
//! transfers that the token service has to carry out.

use vstd::prelude::*;
use crate::distribution::{
    covered, lemma_covered_bounded, lemma_percent_for_out_of_range, pairs_valid, percent_at,
    sum_percent, DistributionTable,
};
use crate::ledger::{
    pay_in, pay_out, deposit, payout, transfer_views, FeePolicy, FeeTiming, Transfer, TransferView,
};
use crate::types::{
    applicants_of, copy_addresses, lemma_link_of_some_iff, link_of, relinked,
    texts, Address, Error, Status, SubmissionView, Submissions,
};
use crate::utils::{
    base_units, fee, fits_i128, lemma_base_units_fits_below, lemma_base_units_grow,
    lemma_percent_of_bounds, lemma_percent_of_monotone, lemma_percent_of_superadditive, percent_of,
    to_base_units,
};

verus! {

/// The model of a bounty: texts for addresses and strings, sequences for lists.
pub struct BountyView {
    pub owner: Seq<char>,
    pub title: Seq<char>,
    pub reward: int,
    pub token: Seq<char>,
    pub distribution: Seq<(u32, u32)>,
    pub submission_deadline: int,
    pub judging_deadline: Option<int>,
    pub status: Status,
    pub applicants: Seq<Seq<char>>,
    pub submissions: Seq<SubmissionView>,
    pub winners: Seq<Seq<char>>,
}

/// A funded task open to many applicants. The reward is held in display
/// units; a judging deadline of `None` means that the submission deadline
/// also ends the judging.
#[derive(Debug, PartialEq, Eq)]
pub struct Bounty {
    pub owner: Address,
    pub title: String,
    pub reward: i128,
    pub token: Address,
    pub distribution: DistributionTable,
    pub submission_deadline: u64,
    pub judging_deadline: Option<u64>,
    pub status: Status,
    pub applicants: Vec<Address>,
    pub submissions: Submissions,
    pub winners: Vec<Address>,
}

/// A field of a bounty that an update can change.
#[derive(Copy, Clone, Debug, PartialEq, Eq, Structural)]
pub enum BountyField {
    Title,
    Distribution,
    SubmissionDeadline,
}

/// A deadline, where there is one, as an integer.
pub open spec fn deadline_view(deadline: Option<u64>) -> Option<int> {
    match deadline {
        Some(d) => Some(d as int),
        None => None,
    }
}

impl View for Bounty {
    type V = BountyView;

    open spec fn view(&self) -> BountyView {
        BountyView {
            owner: self.owner@,
            title: self.title@,
            reward: self.reward as int,
            token: self.token@,
            distribution: self.distribution@,
            submission_deadline: self.submission_deadline as int,
            judging_deadline: deadline_view(self.judging_deadline),
            status: self.status,
            applicants: texts(self.applicants@),
            submissions: self.submissions@,
            winners: texts(self.winners@),
        }
    }
}

impl BountyView {
    /// The invariant of a bounty.
    pub open spec fn wf(self) -> bool {
        &&& self.reward > 0
        &&& pairs_valid(self.distribution)
        &&& (self.judging_deadline matches Some(jd) ==> jd > self.submission_deadline)
        &&& self.applicants == applicants_of(self.submissions)
        &&& self.applicants.no_duplicates()
        &&& (self.status != Status::Completed ==> self.winners.len() == 0)
    }

    /// The moment after which the bounty settles itself: the judging
    /// deadline, or the submission deadline where there is no other.
    pub open spec fn final_deadline(self) -> int {
        match self.judging_deadline {
            Some(jd) => jd,
            None => self.submission_deadline,
        }
    }
}

// ---------------------------------------------------------------------
// Creation
// ---------------------------------------------------------------------

/// Why a bounty with these terms cannot be created, if it cannot.
pub open spec fn create_error(
    reward: int,
    distribution: Seq<(u32, u32)>,
    submission_deadline: int,
    judging_deadline: Option<int>,
    policy: FeePolicy,
    decimals: nat,
) -> Option<Error> {
    if reward <= 0 {
        Some(Error::InvalidReward)
    } else if !pairs_valid(distribution) {
        Some(Error::DistributionMustSumTo100)
    } else if judging_deadline is Some && judging_deadline->0 <= submission_deadline {
        Some(Error::JudgingDeadlineMustBeAfterSubmissionDeadline)
    } else if !fits_i128(base_units(reward + policy.fee_at_creation(reward), decimals)) {
        Some(Error::InternalError)
    } else {
        None
    }
}

/// The bounty that creation yields: active, without applicants or winners.
pub open spec fn created(
    owner: Seq<char>,
    token: Seq<char>,
    reward: int,
    distribution: Seq<(u32, u32)>,
    submission_deadline: int,
    judging_deadline: Option<int>,
    title: Seq<char>,
) -> BountyView {
    BountyView {
        owner,
        title,
        reward,
        token,
        distribution,
        submission_deadline,
        judging_deadline,
        status: Status::Active,
        applicants: Seq::empty(),
        submissions: Seq::empty(),
        winners: Seq::empty(),
    }
}

/// The transfers of a creation: the owner funds the escrow with the reward.
/// Where the fee is due at creation the owner pays it on top, and it is
/// forwarded to the fee account at once.
pub open spec fn creation_transfers(
    owner: Seq<char>,
    token: Seq<char>,
    reward: int,
    policy: FeePolicy,
    fee_account: Seq<char>,
    decimals: nat,
) -> Seq<TransferView> {
    let fee = policy.fee_at_creation(reward);
    match policy.timing {
        FeeTiming::AtSettlement => seq![deposit(token, owner, reward, decimals)],
        FeeTiming::AtCreation => seq![
            deposit(token, owner, reward + fee, decimals),
            payout(token, fee_account, fee, decimals),
        ],
    }
}

// ---------------------------------------------------------------------
// Applications
// ---------------------------------------------------------------------

/// Why an application cannot be taken, if it cannot.
pub open spec fn apply_error(b: BountyView, now: int) -> Option<Error> {
    if b.status != Status::Active {
        Some(Error::InactiveBounty)
    } else if now > b.submission_deadline {
        Some(Error::BountyDeadlinePassed)
    } else {
        None
    }
}

/// The bounty after `who` has handed in `link`: a first submission adds
/// `who` to the applicants, a later one replaces the reference on file.
pub open spec fn applied(b: BountyView, who: Seq<char>, link: Seq<char>) -> BountyView {
    if link_of(b.submissions, who) is Some {
        BountyView { submissions: relinked(b.submissions, who, link), ..b }
    } else {
        BountyView {
            applicants: b.applicants.push(who),
            submissions: b.submissions.push(SubmissionView { applicant: who, link }),
            ..b
        }
    }
}

/// Why a submission cannot be replaced, if it cannot.
pub open spec fn update_submission_error(b: BountyView, who: Seq<char>, now: int) -> Option<
    Error,
> {
    if b.status != Status::Active {
        Some(Error::InactiveBounty)
    } else if now > b.submission_deadline {
        Some(Error::BountyDeadlinePassed)
    } else if link_of(b.submissions, who) is None {
        Some(Error::SubmissionNotFound)
    } else {
        None
    }
}

// ---------------------------------------------------------------------
// Update
// ---------------------------------------------------------------------

/// Why an update cannot be made, if it cannot. An empty distribution and a
/// deadline of `None` ask for no change.
pub open spec fn update_error(
    b: BountyView,
    caller: Seq<char>,
    new_distribution: Seq<(u32, u32)>,
    new_submission_deadline: Option<int>,
    now: int,
) -> Option<Error> {
    if caller != b.owner {
        Some(Error::OnlyOwner)
    } else if b.status != Status::Active {
        Some(Error::InactiveBounty)
    } else if new_distribution.len() > 0 && !pairs_valid(new_distribution) {
        Some(Error::DistributionMustSumTo100)
    } else if new_submission_deadline is Some && new_submission_deadline->0 < now {
        Some(Error::InvalidDeadlineUpdate)
    } else if new_submission_deadline is Some && b.judging_deadline is Some
        && new_submission_deadline->0 >= b.judging_deadline->0 {
        Some(Error::JudgingDeadlineMustBeAfterSubmissionDeadline)
    } else {
        None
    }
}

/// The bounty after an update.
pub open spec fn updated(
    b: BountyView,
    new_title: Option<Seq<char>>,
    new_distribution: Seq<(u32, u32)>,
    new_submission_deadline: Option<int>,
) -> BountyView {
    BountyView {
        title: match new_title {
            Some(t) => t,
            None => b.title,
        },
        distribution: if new_distribution.len() > 0 {
            new_distribution
        } else {
            b.distribution
        },
        submission_deadline: match new_submission_deadline {
            Some(d) => d,
            None => b.submission_deadline,
        },
        ..b
    }
}

/// The fields that an update names as changed, in the order title,
/// distribution, submission deadline.
pub open spec fn updated_fields(
    title_given: bool,
    distribution_given: bool,
    deadline_given: bool,
) -> Seq<BountyField> {
    (if title_given {
        seq![BountyField::Title]
    } else {
        seq![]
    }) + (if distribution_given {
        seq![BountyField::Distribution]
    } else {
        seq![]
    }) + (if deadline_given {
        seq![BountyField::SubmissionDeadline]
    } else {
        seq![]
    })
}

// ---------------------------------------------------------------------
// Close and delete
// ---------------------------------------------------------------------

/// Why a bounty cannot be closed, if it cannot.
pub open spec fn close_error(b: BountyView, caller: Seq<char>, decimals: nat) -> Option<Error> {
    if caller != b.owner {
        Some(Error::OnlyOwner)
    } else if b.status != Status::Active {
        Some(Error::InactiveBounty)
    } else if b.submissions.len() > 0 {
        Some(Error::BountyHasSubmissions)
    } else if !fits_i128(base_units(b.reward, decimals)) {
        Some(Error::InternalError)
    } else {
        None
    }
}

/// Why a bounty cannot be deleted, if it cannot.
pub open spec fn delete_error(b: BountyView, caller: Seq<char>, decimals: nat) -> Option<Error> {
    if caller != b.owner {
        Some(Error::OnlyOwner)
    } else if b.submissions.len() > 0 {
        Some(Error::BountyHasSubmissions)
    } else if b.status == Status::Active && !fits_i128(base_units(b.reward, decimals)) {
        Some(Error::InternalError)
    } else {
        None
    }
}

/// The refund of the full reward to the owner.
pub open spec fn full_refund(b: BountyView, decimals: nat) -> Seq<TransferView> {
    seq![payout(b.token, b.owner, b.reward, decimals)]
}

/// The transfers of a deletion: the full reward goes back to the owner
/// while the escrow still holds it, that is while the bounty is active.
pub open spec fn deletion_transfers(b: BountyView, decimals: nat) -> Seq<TransferView> {
    if b.status == Status::Active {
        full_refund(b, decimals)
    } else {
        seq![]
    }
}

// ---------------------------------------------------------------------
// Settlement by the owner
// ---------------------------------------------------------------------

/// What the winner at `position` (from 0) receives of `net`: the share of
/// rank `position + 1`, nothing where the table declares no such rank.
pub open spec fn rank_amount(net: int, table: Seq<(u32, u32)>, position: int) -> int {
    percent_of(net, percent_at(table, position + 1))
}

/// What the first `n` winners receive together.
pub open spec fn distributed(net: int, table: Seq<(u32, u32)>, n: nat) -> int
    decreases n,
{
    if n == 0 {
        0
    } else {
        distributed(net, table, (n - 1) as nat) + rank_amount(net, table, n - 1)
    }
}

/// How many of the named winners are paid: no more than there are applicants.
pub open spec fn paid_winners(b: BountyView, winners: Seq<Seq<char>>) -> nat {
    if winners.len() <= b.applicants.len() {
        winners.len()
    } else {
        b.applicants.len()
    }
}

/// What is left of the reward once the fee due at settlement is taken.
pub open spec fn net_reward(b: BountyView, policy: FeePolicy) -> int {
    b.reward - policy.fee_at_settlement(b.reward)
}

/// What goes back to the owner: the net reward less what the winners get.
pub open spec fn settlement_remainder(
    b: BountyView,
    winners: Seq<Seq<char>>,
    policy: FeePolicy,
) -> int {
    net_reward(b, policy) - distributed(
        net_reward(b, policy),
        b.distribution,
        paid_winners(b, winners),
    )
}

/// The payments to the first `n` winners, by rank.
pub open spec fn winner_payouts(
    b: BountyView,
    winners: Seq<Seq<char>>,
    net: int,
    n: nat,
    decimals: nat,
) -> Seq<TransferView> {
    Seq::new(n, |i: int| payout(b.token, winners[i], rank_amount(net, b.distribution, i), decimals))
}

/// The fee payment of a settlement, where the fee is due then.
pub open spec fn fee_payout(
    b: BountyView,
    policy: FeePolicy,
    fee_account: Seq<char>,
    decimals: nat,
) -> Seq<TransferView> {
    match policy.timing {
        FeeTiming::AtSettlement => seq![
            payout(b.token, fee_account, policy.fee_at_settlement(b.reward), decimals),
        ],
        FeeTiming::AtCreation => seq![],
    }
}

/// The transfers of a settlement by the owner: the winners by rank, then
/// the remainder to the owner if there is one, then the fee.
pub open spec fn settlement_transfers(
    b: BountyView,
    winners: Seq<Seq<char>>,
    policy: FeePolicy,
    fee_account: Seq<char>,
    decimals: nat,
) -> Seq<TransferView> {
    let remainder = settlement_remainder(b, winners, policy);
    winner_payouts(b, winners, net_reward(b, policy), paid_winners(b, winners), decimals) + (
    if remainder > 0 {
        seq![payout(b.token, b.owner, remainder, decimals)]
    } else {
        seq![]
    }) + fee_payout(b, policy, fee_account, decimals)
}

/// Why the owner's settlement cannot be made, if it cannot.
pub open spec fn select_winners_error(
    b: BountyView,
    caller: Seq<char>,
    winners: Seq<Seq<char>>,
    now: int,
    decimals: nat,
) -> Option<Error> {
    if caller != b.owner {
        Some(Error::OnlyOwner)
    } else if b.status != Status::Active {
        Some(Error::InactiveBounty)
    } else if now < b.submission_deadline {
        Some(Error::CannotSelectWinnersBeforeSubmissionDeadline)
    } else if b.judging_deadline is Some && now > b.judging_deadline->0 {
        Some(Error::JudgingDeadlinePassed)
    } else if winners.len() < b.distribution.len() {
        Some(Error::NotEnoughWinners)
    } else if !fits_i128(base_units(b.reward, decimals)) {
        Some(Error::InternalError)
    } else {
        None
    }
}

/// The bounty after a settlement that names `winners`.
pub open spec fn settled(b: BountyView, winners: Seq<Seq<char>>) -> BountyView {
    BountyView { status: Status::Completed, winners, ..b }
}

// ---------------------------------------------------------------------
// Settlement by deadline
// ---------------------------------------------------------------------

/// Whether the bounty is due to settle itself: still active, and past its
/// final deadline.
pub open spec fn auto_settlement_due(b: BountyView, now: int) -> bool {
    b.status == Status::Active && now > b.final_deadline()
}

/// What each applicant receives in a settlement by deadline.
pub open spec fn equal_share(b: BountyView, policy: FeePolicy) -> int {
    net_reward(b, policy) / (b.applicants.len() as int)
}

/// The transfers of a settlement by deadline: the full reward back to the
/// owner where nobody applied; otherwise an equal share to every applicant,
/// then the fee. What the division leaves over stays in escrow.
pub open spec fn auto_settlement_transfers(
    b: BountyView,
    policy: FeePolicy,
    fee_account: Seq<char>,
    decimals: nat,
) -> Seq<TransferView> {
    if b.applicants.len() == 0 {
        full_refund(b, decimals)
    } else {
        Seq::new(
            b.applicants.len(),
            |i: int| payout(b.token, b.applicants[i], equal_share(b, policy), decimals),
        ) + fee_payout(b, policy, fee_account, decimals)
    }
}

/// The bounty after a settlement by deadline.
pub open spec fn auto_settled(b: BountyView) -> BountyView {
    BountyView { status: Status::Completed, ..b }
}

// ---------------------------------------------------------------------
// Lemmas on settlement amounts
// ---------------------------------------------------------------------

/// Taking one hundred percent takes everything.
pub proof fn lemma_percent_of_hundred(amount: int)
    ensures
        percent_of(amount, 100) == amount,
{
}

/// The winners together never receive more than the share of the ranks
/// they fill, and so never more than the net reward.
pub proof fn lemma_distributed_bounded(net: int, table: Seq<(u32, u32)>, n: nat)
    requires
        0 <= net,
        sum_percent(table) <= 100,
    ensures
        0 <= distributed(net, table, n) <= percent_of(net, covered(table, n)) <= net,
    decreases n,
{
    lemma_covered_bounded(table, n);
    lemma_percent_of_monotone(net, covered(table, n), 100);
    lemma_percent_of_hundred(net);
    if n == 0 {
        lemma_percent_of_bounds(net, 0);
    } else {
        let m = (n - 1) as nat;
        lemma_distributed_bounded(net, table, m);
        lemma_covered_bounded(table, m);
        let p = percent_at(table, n as int);
        assert(0 <= p <= 100);
        lemma_percent_of_bounds(net, p);
        lemma_percent_of_superadditive(net, covered(table, m), p);
    }
}

/// Every single winner's amount lies between zero and the net reward.
pub proof fn lemma_rank_amount_bounded(net: int, table: Seq<(u32, u32)>, position: nat)
    requires
        0 <= net,
        sum_percent(table) <= 100,
    ensures
        0 <= rank_amount(net, table, position as int) <= net,
{
    lemma_distributed_bounded(net, table, position);
    lemma_distributed_bounded(net, table, position + 1);
    lemma_covered_bounded(table, position + 1);
    lemma_covered_bounded(table, position);
    let p = percent_at(table, position as int + 1);
    assert(0 <= p <= 100);
    lemma_percent_of_bounds(net, p);
}

/// The net reward of a well-formed bounty lies between zero and the reward,
/// and so does the fee.
pub proof fn lemma_net_reward_bounded(b: BountyView, policy: FeePolicy)
    requires
        b.reward >= 0,
        policy.wf(),
    ensures
        0 <= policy.fee_at_settlement(b.reward) <= b.reward,
        0 <= net_reward(b, policy) <= b.reward,
{
    lemma_percent_of_bounds(b.reward, policy.percent as int);
}

// ---------------------------------------------------------------------
// Operations
// ---------------------------------------------------------------------

impl Clone for Bounty {
    fn clone(&self) -> (r: Bounty)
        ensures
            r@ == self@,
    {
        Bounty {
            owner: self.owner.clone(),
            title: self.title.clone(),
            reward: self.reward,
            token: self.token.clone(),
            distribution: self.distribution.clone(),
            submission_deadline: self.submission_deadline,
            judging_deadline: self.judging_deadline,
            status: self.status,
            applicants: copy_addresses(&self.applicants),
            submissions: self.submissions.clone(),
            winners: copy_addresses(&self.winners),
        }
    }
}

impl BountyField {
    /// The name under which the field is announced.
    pub fn name(&self) -> (s: &'static str)
        ensures
            s@ == (match *self {
                BountyField::Title => "title"@,
                BountyField::Distribution => "distribution"@,
                BountyField::SubmissionDeadline => "submission_deadline"@,
            }),
    {
        match self {
            BountyField::Title => "title",
            BountyField::Distribution => "distribution",
            BountyField::SubmissionDeadline => "submission_deadline",
        }
    }
}

impl Bounty {
    /// Creates an active bounty and commands its funding, or refuses the
    /// terms.
    pub fn create(
        owner: Address,
        token: Address,
        reward: i128,
        distribution: &Vec<(u32, u32)>,
        submission_deadline: u64,
        judging_deadline: Option<u64>,
        title: String,
        policy: &FeePolicy,
        fee_account: &Address,
        decimals: u32,
    ) -> (r: Result<(Bounty, Vec<Transfer>), Error>)
        requires
            policy.wf(),
        ensures
            match r {
                Ok((bounty, transfers)) => {
                    &&& create_error(
                        reward as int,
                        distribution@,
                        submission_deadline as int,
                        deadline_view(judging_deadline),
                        *policy,
                        decimals as nat,
                    ) is None
                    &&& bounty@ == created(
                        owner@,
                        token@,
                        reward as int,
                        distribution@,
                        submission_deadline as int,
                        deadline_view(judging_deadline),
                        title@,
                    )
                    &&& bounty@.wf()
                    &&& transfer_views(transfers@) == creation_transfers(
                        owner@,
                        token@,
                        reward as int,
                        *policy,
                        fee_account@,
                        decimals as nat,
                    )
                },
                Err(e) => create_error(
                    reward as int,
                    distribution@,
                    submission_deadline as int,
                    deadline_view(judging_deadline),
                    *policy,
                    decimals as nat,
                ) == Some(e),
            },
    {
        if reward <= 0 {
            return Err(Error::InvalidReward);
        }
        let table = match DistributionTable::from_pairs(distribution) {
            Ok(table) => table,
            Err(e) => {
                return Err(e);
            },
        };
        match judging_deadline {
            Some(jd) => {
                if jd <= submission_deadline {
                    return Err(Error::JudgingDeadlineMustBeAfterSubmissionDeadline);
                }
            },
            None => {},
        }
        let mut transfers: Vec<Transfer> = Vec::new();
        proof {
            lemma_percent_of_bounds(reward as int, policy.percent as int);
        }
        match policy.timing {
            FeeTiming::AtSettlement => {
                if to_base_units(reward, decimals).is_none() {
                    return Err(Error::InternalError);
                }
                transfers.push(pay_in(&token, &owner, reward, decimals));
            },
            FeeTiming::AtCreation => {
                let fee_amount: i128 = fee(reward, policy.percent);
                let total: i128 = match reward.checked_add(fee_amount) {
                    Some(total) => total,
                    None => {
                        proof {
                            lemma_base_units_grow(reward + fee_amount, decimals as nat);
                        }
                        return Err(Error::InternalError);
                    },
                };
                if to_base_units(total, decimals).is_none() {
                    return Err(Error::InternalError);
                }
                proof {
                    lemma_base_units_fits_below(fee_amount as int, total as int, decimals as nat);
                }
                transfers.push(pay_in(&token, &owner, total, decimals));
                transfers.push(pay_out(&token, fee_account, fee_amount, decimals));
            },
        }
        let bounty = Bounty {
            owner,
            title,
            reward,
            token,
            distribution: table,
            submission_deadline,
            judging_deadline,
            status: Status::Active,
            applicants: Vec::new(),
            submissions: Submissions::new(),
            winners: Vec::new(),
        };
        proof {
            assert(bounty@.applicants =~= Seq::empty());
            assert(bounty@.winners =~= Seq::empty());
            assert(bounty@.submissions =~= Seq::empty());
            assert(applicants_of(bounty@.submissions) =~= bounty@.applicants);
            assert(transfer_views(transfers@) =~= creation_transfers(
                owner@,
                token@,
                reward as int,
                *policy,
                fee_account@,
                decimals as nat,
            ));
        }
        Ok((bounty, transfers))
    }

    /// Whether the record satisfies the invariant of a bounty.
    pub fn is_valid(&self) -> (ok: bool)
        ensures
            ok == self@.wf(),
    {
        if self.reward <= 0 || !self.distribution.is_valid() {
            return false;
        }
        match self.judging_deadline {
            Some(jd) => {
                if jd <= self.submission_deadline {
                    return false;
                }
            },
            None => {},
        }
        if self.status != Status::Completed && self.winners.len() > 0 {
            return false;
        }
        let n: usize = self.applicants.len();
        if n != self.submissions.len() {
            proof {
                assert(applicants_of(self@.submissions).len() != self@.applicants.len());
            }
            return false;
        }
        let ghost names = self@.applicants;
        let ghost filed = applicants_of(self@.submissions);
        let mut i: usize = 0;
        while i < n
            invariant
                i <= n,
                n == self.applicants.len(),
                n == self.submissions.entries.len(),
                names == self@.applicants,
                filed == applicants_of(self@.submissions),
                forall|j: int| 0 <= j < i ==> names[j] == filed[j],
                forall|j: int, k: int| 0 <= j < k < i ==> names[j] != names[k],
            decreases n - i,
        {
            proof {
                assert(names[i as int] == self.applicants@[i as int]@);
                assert(filed[i as int] == self.submissions.entries@[i as int]@.applicant);
            }
            if !self.applicants[i].same(&self.submissions.entries[i].applicant) {
                return false;
            }
            let mut j: usize = 0;
            while j < i
                invariant
                    j <= i < n,
                    n == self.applicants.len(),
                    names == self@.applicants,
                    forall|k: int| 0 <= k < j ==> names[k] != names[i as int],
                decreases i - j,
            {
                proof {
                    assert(names[i as int] == self.applicants@[i as int]@);
                    assert(names[j as int] == self.applicants@[j as int]@);
                }
                if self.applicants[j].same(&self.applicants[i]) {
                    return false;
                }
                j = j + 1;
            }
            i = i + 1;
        }
        proof {
            assert(names =~= filed);
        }
        true
    }

    /// Takes the submission `link` of `applicant`: the first one makes them
    /// an applicant, a later one replaces the reference on file.
    pub fn apply(&mut self, applicant: Address, link: String, now: u64) -> (r: Result<(), Error>)
        requires
            old(self)@.wf(),
        ensures
            final(self)@.wf(),
            match r {
                Ok(_) => {
                    &&& apply_error(old(self)@, now as int) is None
                    &&& final(self)@ == applied(old(self)@, applicant@, link@)
                },
                Err(e) => {
                    &&& apply_error(old(self)@, now as int) == Some(e)
                    &&& *final(self) == *old(self)
                },
            },
    {
        if self.status != Status::Active {
            return Err(Error::InactiveBounty);
        }
        if now > self.submission_deadline {
            return Err(Error::BountyDeadlinePassed);
        }
        proof {
            lemma_link_of_some_iff(self@.submissions, applicant@);
            lemma_applied_wf(self@, applicant@, link@);
        }
        if !self.submissions.contains_key(&applicant) {
            self.applicants.push(applicant.clone());
            proof {
                assert(texts(self.applicants@) =~= old(self)@.applicants.push(applicant@));
            }
        }
        self.submissions.set(applicant, link);
        Ok(())
    }

    /// Replaces the submission that `applicant` has on file by `link`.
    pub fn update_submission(&mut self, applicant: Address, link: String, now: u64) -> (r: Result<
        (),
        Error,
    >)
        requires
            old(self)@.wf(),
        ensures
            final(self)@.wf(),
            match r {
                Ok(_) => {
                    &&& update_submission_error(old(self)@, applicant@, now as int) is None
                    &&& final(self)@ == applied(old(self)@, applicant@, link@)
                },
                Err(e) => {
                    &&& update_submission_error(old(self)@, applicant@, now as int) == Some(e)
                    &&& *final(self) == *old(self)
                },
            },
    {
        if self.status != Status::Active {
            return Err(Error::InactiveBounty);
        }
        if now > self.submission_deadline {
            return Err(Error::BountyDeadlinePassed);
        }
        if !self.submissions.contains_key(&applicant) {
            return Err(Error::SubmissionNotFound);
        }
        proof {
            lemma_applied_wf(self@, applicant@, link@);
        }
        self.submissions.set(applicant, link);
        Ok(())
    }

    /// Changes the title, the distribution or the submission deadline of an
    /// active bounty, and reports which of them were given.
    pub fn update(
        &mut self,
        caller: &Address,
        new_title: Option<String>,
        new_distribution: &Vec<(u32, u32)>,
        new_submission_deadline: Option<u64>,
        now: u64,
    ) -> (r: Result<Vec<BountyField>, Error>)
        requires
            old(self)@.wf(),
        ensures
            final(self)@.wf(),
            match r {
                Ok(fields) => {
                    &&& update_error(
                        old(self)@,
                        caller@,
                        new_distribution@,
                        deadline_view(new_submission_deadline),
                        now as int,
                    ) is None
                    &&& final(self)@ == updated(
                        old(self)@,
                        match new_title {
                            Some(t) => Some(t@),
                            None => None,
                        },
                        new_distribution@,
                        deadline_view(new_submission_deadline),
                    )
                    &&& fields@ == updated_fields(
                        new_title is Some,
                        new_distribution@.len() > 0,
                        new_submission_deadline is Some,
                    )
                },
                Err(e) => {
                    &&& update_error(
                        old(self)@,
                        caller@,
                        new_distribution@,
                        deadline_view(new_submission_deadline),
                        now as int,
                    ) == Some(e)
                    &&& *final(self) == *old(self)
                },
            },
    {
        if !self.owner.same(caller) {
            return Err(Error::OnlyOwner);
        }
        if self.status != Status::Active {
            return Err(Error::InactiveBounty);
        }
        let mut new_table: Option<DistributionTable> = None;
        if new_distribution.len() > 0 {
            match DistributionTable::from_pairs(new_distribution) {
                Ok(table) => {
                    new_table = Some(table);
                },
                Err(e) => {
                    return Err(e);
                },
            }
        }
        match new_submission_deadline {
            Some(sd) => {
                if sd < now {
                    return Err(Error::InvalidDeadlineUpdate);
                }
                match self.judging_deadline {
                    Some(jd) => {
                        if sd >= jd {
                            return Err(Error::JudgingDeadlineMustBeAfterSubmissionDeadline);
                        }
                    },
                    None => {},
                }
            },
            None => {},
        }
        let mut fields: Vec<BountyField> = Vec::new();
        match new_title {
            Some(title) => {
                self.title = title;
                fields.push(BountyField::Title);
            },
            None => {},
        }
        match new_table {
            Some(table) => {
                self.distribution = table;
                fields.push(BountyField::Distribution);
            },
            None => {},
        }
        match new_submission_deadline {
            Some(sd) => {
                self.submission_deadline = sd;
                fields.push(BountyField::SubmissionDeadline);
            },
            None => {},
        }
        proof {
            assert(fields@ =~= updated_fields(
                new_title is Some,
                new_distribution@.len() > 0,
                new_submission_deadline is Some,
            ));
        }
        Ok(fields)
    }

    /// Closes an active bounty that nobody has applied to and commands the
    /// refund of the full reward to the owner.
    pub fn close(&mut self, caller: &Address, decimals: u32) -> (r: Result<Vec<Transfer>, Error>)
        requires
            old(self)@.wf(),
        ensures
            final(self)@.wf(),
            match r {
                Ok(transfers) => {
                    &&& close_error(old(self)@, caller@, decimals as nat) is None
                    &&& final(self)@ == (BountyView { status: Status::Closed, ..old(self)@ })
                    &&& transfer_views(transfers@) == full_refund(old(self)@, decimals as nat)
                },
                Err(e) => {
                    &&& close_error(old(self)@, caller@, decimals as nat) == Some(e)
                    &&& *final(self) == *old(self)
                },
            },
    {
        if !self.owner.same(caller) {
            return Err(Error::OnlyOwner);
        }
        if self.status != Status::Active {
            return Err(Error::InactiveBounty);
        }
        if self.submissions.len() > 0 {
            return Err(Error::BountyHasSubmissions);
        }
        if to_base_units(self.reward, decimals).is_none() {
            return Err(Error::InternalError);
        }
        let mut transfers: Vec<Transfer> = Vec::new();
        transfers.push(pay_out(&self.token, &self.owner, self.reward, decimals));
        self.status = Status::Closed;
        proof {
            assert(transfer_views(transfers@) =~= full_refund(old(self)@, decimals as nat));
        }
        Ok(transfers)
    }

    /// Checks that the bounty may be deleted by `caller` and commands what
    /// its deletion refunds. The record itself is left as it is: removing it
    /// is up to whoever stores it.
    pub fn delete(&self, caller: &Address, decimals: u32) -> (r: Result<Vec<Transfer>, Error>)
        requires
            self@.wf(),
        ensures
            match r {
                Ok(transfers) => {
                    &&& delete_error(self@, caller@, decimals as nat) is None
                    &&& transfer_views(transfers@) == deletion_transfers(self@, decimals as nat)
                },
                Err(e) => delete_error(self@, caller@, decimals as nat) == Some(e),
            },
    {
        if !self.owner.same(caller) {
            return Err(Error::OnlyOwner);
        }
        if self.submissions.len() > 0 {
            return Err(Error::BountyHasSubmissions);
        }
        let mut transfers: Vec<Transfer> = Vec::new();
        if self.status == Status::Active {
            if to_base_units(self.reward, decimals).is_none() {
                return Err(Error::InternalError);
            }
            transfers.push(pay_out(&self.token, &self.owner, self.reward, decimals));
        }
        proof {
            assert(transfer_views(transfers@) =~= deletion_transfers(self@, decimals as nat));
        }
        Ok(transfers)
    }

    /// Settles the bounty on the owner's choice of winners: pays each paid
    /// winner the share of their rank, the remainder to the owner, and the
    /// fee where it is due at settlement.
    pub fn select_winners(
        &mut self,
        caller: &Address,
        winners: Vec<Address>,
        now: u64,
        policy: &FeePolicy,
        fee_account: &Address,
        decimals: u32,
    ) -> (r: Result<Vec<Transfer>, Error>)
        requires
            old(self)@.wf(),
            policy.wf(),
        ensures
            final(self)@.wf(),
            match r {
                Ok(transfers) => {
                    &&& select_winners_error(
                        old(self)@,
                        caller@,
                        texts(winners@),
                        now as int,
                        decimals as nat,
                    ) is None
                    &&& final(self)@ == settled(old(self)@, texts(winners@))
                    &&& transfer_views(transfers@) == settlement_transfers(
                        old(self)@,
                        texts(winners@),
                        *policy,
                        fee_account@,
                        decimals as nat,
                    )
                },
                Err(e) => {
                    &&& select_winners_error(
                        old(self)@,
                        caller@,
                        texts(winners@),
                        now as int,
                        decimals as nat,
                    ) == Some(e)
                    &&& *final(self) == *old(self)
                },
            },
    {
        if !self.owner.same(caller) {
            return Err(Error::OnlyOwner);
        }
        if self.status != Status::Active {
            return Err(Error::InactiveBounty);
        }
        if now < self.submission_deadline {
            return Err(Error::CannotSelectWinnersBeforeSubmissionDeadline);
        }
        match self.judging_deadline {
            Some(jd) => {
                if now > jd {
                    return Err(Error::JudgingDeadlinePassed);
                }
            },
            None => {},
        }
        if winners.len() < self.distribution.len() {
            return Err(Error::NotEnoughWinners);
        }
        if to_base_units(self.reward, decimals).is_none() {
            return Err(Error::InternalError);
        }
        let ghost b = self@;
        let ghost names = texts(winners@);
        let ghost d = decimals as nat;
        proof {
            lemma_net_reward_bounded(b, *policy);
        }
        let fee_amount: i128 = match policy.timing {
            FeeTiming::AtSettlement => fee(self.reward, policy.percent),
            FeeTiming::AtCreation => 0,
        };
        let net: i128 = self.reward - fee_amount;
        let count: usize = if winners.len() <= self.applicants.len() {
            winners.len()
        } else {
            self.applicants.len()
        };
        let mut transfers: Vec<Transfer> = Vec::new();
        let mut paid: i128 = 0;
        let mut i: usize = 0;
        while i < count
            invariant
                i <= count <= winners.len(),
                b == self@,
                names == texts(winners@),
                d == decimals as nat,
                b.wf(),
                policy.wf(),
                net == net_reward(b, *policy),
                0 <= net <= b.reward,
                fits_i128(base_units(b.reward, d)),
                paid == distributed(net as int, b.distribution, i as nat),
                transfer_views(transfers@) == winner_payouts(b, names, net as int, i as nat, d),
            decreases count - i,
        {
            proof {
                lemma_rank_amount_bounded(net as int, b.distribution, i as nat);
                lemma_distributed_bounded(net as int, b.distribution, (i + 1) as nat);
            }
            let share: Option<u32> = if i < 0xffff_ffff {
                self.distribution.get((i + 1) as u32)
            } else {
                proof {
                    lemma_percent_for_out_of_range(b.distribution, i + 1);
                }
                None
            };
            let amount: i128 = match share {
                Some(pct) => fee(net, pct),
                None => 0,
            };
            assert(amount == rank_amount(net as int, b.distribution, i as int));
            proof {
                lemma_base_units_fits_below(amount as int, b.reward, d);
            }
            let ghost before = transfer_views(transfers@);
            transfers.push(pay_out(&self.token, &winners[i], amount, decimals));
            paid = paid + amount;
            proof {
                assert(names[i as int] == winners@[i as int]@);
                assert(transfer_views(transfers@) =~= before.push(
                    payout(b.token, names[i as int], amount as int, d),
                ));
                assert(before.push(payout(b.token, names[i as int], amount as int, d))
                    =~= winner_payouts(b, names, net as int, (i + 1) as nat, d));
            }
            i = i + 1;
        }
        proof {
            lemma_distributed_bounded(net as int, b.distribution, count as nat);
            assert(count == paid_winners(b, names));
        }
        let remainder: i128 = net - paid;
        let ghost payouts = transfer_views(transfers@);
        if remainder > 0 {
            proof {
                lemma_base_units_fits_below(remainder as int, b.reward, d);
            }
            transfers.push(pay_out(&self.token, &self.owner, remainder, decimals));
        }
        let ghost with_remainder = transfer_views(transfers@);
        proof {
            assert(with_remainder =~= payouts + (if remainder > 0 {
                seq![payout(b.token, b.owner, remainder as int, d)]
            } else {
                seq![]
            }));
        }
        match policy.timing {
            FeeTiming::AtSettlement => {
                proof {
                    lemma_base_units_fits_below(fee_amount as int, b.reward, d);
                }
                transfers.push(pay_out(&self.token, fee_account, fee_amount, decimals));
            },
            FeeTiming::AtCreation => {},
        }
        proof {
            assert(transfer_views(transfers@) =~= with_remainder + fee_payout(
                b,
                *policy,
                fee_account@,
                d,
            ));
        }
        self.status = Status::Completed;
        self.winners = winners;
        Ok(transfers)
    }

    /// Settles the bounty once its final deadline has passed: refunds the
    /// owner where nobody applied, and otherwise pays every applicant an
    /// equal share. Does nothing, and says so by an empty list, while the
    /// bounty is not due.
    pub fn check_judging(
        &mut self,
        now: u64,
        policy: &FeePolicy,
        fee_account: &Address,
        decimals: u32,
    ) -> (r: Result<Vec<Transfer>, Error>)
        requires
            old(self)@.wf(),
            policy.wf(),
        ensures
            final(self)@.wf(),
            match r {
                Ok(transfers) => if auto_settlement_due(old(self)@, now as int) {
                    &&& fits_i128(base_units(old(self)@.reward, decimals as nat))
                    &&& final(self)@ == auto_settled(old(self)@)
                    &&& transfer_views(transfers@) == auto_settlement_transfers(
                        old(self)@,
                        *policy,
                        fee_account@,
                        decimals as nat,
                    )
                } else {
                    &&& *final(self) == *old(self)
                    &&& transfers@.len() == 0
                },
                Err(e) => {
                    &&& e == Error::InternalError
                    &&& auto_settlement_due(old(self)@, now as int)
                    &&& !fits_i128(base_units(old(self)@.reward, decimals as nat))
                    &&& *final(self) == *old(self)
                },
            },
    {
        let mut transfers: Vec<Transfer> = Vec::new();
        let deadline: u64 = match self.judging_deadline {
            Some(jd) => jd,
            None => self.submission_deadline,
        };
        if now <= deadline || self.status != Status::Active {
            return Ok(transfers);
        }
        if to_base_units(self.reward, decimals).is_none() {
            return Err(Error::InternalError);
        }
        let ghost b = self@;
        let ghost d = decimals as nat;
        let count: usize = self.applicants.len();
        if count == 0 {
            transfers.push(pay_out(&self.token, &self.owner, self.reward, decimals));
            proof {
                assert(transfer_views(transfers@) =~= full_refund(b, d));
            }
            self.status = Status::Completed;
            return Ok(transfers);
        }
        proof {
            lemma_net_reward_bounded(b, *policy);
        }
        let fee_amount: i128 = match policy.timing {
            FeeTiming::AtSettlement => fee(self.reward, policy.percent),
            FeeTiming::AtCreation => 0,
        };
        let net: i128 = self.reward - fee_amount;
        let share: i128 = net / (count as i128);
        proof {
            assert(share == equal_share(b, *policy));
            assert(0 <= share <= net) by (nonlinear_arith)
                requires
                    share == (net as int) / (count as int),
                    0 <= net,
                    count >= 1,
            ;
            lemma_base_units_fits_below(share as int, b.reward, d);
        }
        let mut i: usize = 0;
        while i < count
            invariant
                i <= count,
                count == self.applicants.len(),
                b == self@,
                d == decimals as nat,
                fits_i128(base_units(share as int, d)),
                transfer_views(transfers@) == Seq::new(
                    i as nat,
                    |k: int| payout(b.token, b.applicants[k], share as int, d),
                ),
            decreases count - i,
        {
            let ghost before = transfer_views(transfers@);
            transfers.push(pay_out(&self.token, &self.applicants[i], share, decimals));
            proof {
                assert(b.applicants[i as int] == self.applicants@[i as int]@);
                assert(transfer_views(transfers@) =~= before.push(
                    payout(b.token, b.applicants[i as int], share as int, d),
                ));
                assert(before.push(payout(b.token, b.applicants[i as int], share as int, d))
                    =~= Seq::new(
                    (i + 1) as nat,
                    |k: int| payout(b.token, b.applicants[k], share as int, d),
                ));
            }
            i = i + 1;
        }
        let ghost shares = transfer_views(transfers@);
        match policy.timing {
            FeeTiming::AtSettlement => {
                proof {
                    lemma_base_units_fits_below(fee_amount as int, b.reward, d);
                }
                transfers.push(pay_out(&self.token, fee_account, fee_amount, decimals));
            },
            FeeTiming::AtCreation => {},
        }
        proof {
            assert(transfer_views(transfers@) =~= shares + fee_payout(b, *policy, fee_account@, d));
        }
        self.status = Status::Completed;
        Ok(transfers)
    }
}

/// Taking a submission keeps the invariant of a bounty.
pub proof fn lemma_applied_wf(b: BountyView, who: Seq<char>, link: Seq<char>)
    requires
        b.wf(),
    ensures
        applied(b, who, link).wf(),
{
    lemma_link_of_some_iff(b.submissions, who);
    let after = applied(b, who, link);
    if link_of(b.submissions, who) is Some {
        assert(applicants_of(after.submissions) =~= b.applicants);
    } else {
        assert(applicants_of(after.submissions) =~= after.applicants);
        assert forall|i: int, j: int|
            0 <= i < after.applicants.len() && 0 <= j < after.applicants.len() && i
                != j implies after.applicants[i] != after.applicants[j] by {
            if i < b.applicants.len() {
                assert(b.applicants[i] == after.applicants[i]);
            }
            if j < b.applicants.len() {
                assert(b.applicants[j] == after.applicants[j]);
            }
        }
    }
}

} // verus!
