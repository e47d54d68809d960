//! What holds of the engine whatever its input: no settlement creates or
//! destroys value, rounding loss is bounded, escrow accounting matches the
//! milestones, and terminal states are final.

use vstd::prelude::*;
use crate::bounty::{
    applied, apply_error, auto_settled, auto_settlement_due, auto_settlement_transfers, close_error,
    create_error, creation_transfers, distributed, equal_share, fee_payout, full_refund,
    lemma_distributed_bounded, lemma_net_reward_bounded, net_reward, paid_winners, rank_amount,
    select_winners_error, settled, settlement_remainder, settlement_transfers, update_error,
    update_submission_error, winner_payouts, BountyView,
};
use crate::contract::{create_bounty_error, ContractView};
use crate::distribution::{pairs_valid, sum_percent};
use crate::ledger::{net_outflow, payout, FeePolicy, FeeTiming, TransferView};
use crate::project::{
    all_paid, cancel_error, cancelled, create_gig_error, created_gig, lemma_all_paid_sum,
    lemma_find_order, lemma_released_wf, lemma_unpaid_sum, paid_amount, planned, release_error,
    released, find_order, ProjectView,
};
use crate::types::{
    link_of, relinked, Error, MilestoneData, ProjectStatus, ProjectType, SubmissionView, Status,
};
use crate::utils::{base_units, lemma_base_units_add, lemma_base_units_monotone};

verus! {

// ---------------------------------------------------------------------
// Distribution tables
// ---------------------------------------------------------------------

/// The percentages of a distribution table sum to exactly one hundred.
pub proof fn law_valid_table_sums_to_hundred(pairs: Seq<(u32, u32)>)
    requires
        pairs_valid(pairs),
    ensures
        sum_percent(pairs) == 100,
{
}

/// The distribution of every bounty sums to exactly one hundred.
pub proof fn law_bounty_distribution_sums_to_hundred(b: BountyView)
    requires
        b.wf(),
    ensures
        sum_percent(b.distribution) == 100,
{
}

/// A distribution that does not sum to one hundred is rejected at creation:
/// as such, unless the reward is rejected before it is looked at.
pub proof fn law_bad_distribution_rejected_at_creation(
    c: ContractView,
    reward: int,
    distribution: Seq<(u32, u32)>,
    submission_deadline: int,
    judging_deadline: Option<int>,
    decimals: nat,
)
    requires
        sum_percent(distribution) != 100,
    ensures
        create_error(
            reward,
            distribution,
            submission_deadline,
            judging_deadline,
            c.policy,
            decimals,
        ) == Some(
            if reward <= 0 {
                Error::InvalidReward
            } else {
                Error::DistributionMustSumTo100
            },
        ),
        create_bounty_error(
            c,
            reward,
            distribution,
            submission_deadline,
            judging_deadline,
            decimals,
        ) is Some,
{
}

/// A distribution that does not sum to one hundred is rejected at update:
/// as such, where the owner updates an active bounty.
pub proof fn law_bad_distribution_rejected_at_update(
    b: BountyView,
    caller: Seq<char>,
    new_distribution: Seq<(u32, u32)>,
    new_submission_deadline: Option<int>,
    now: int,
)
    requires
        new_distribution.len() > 0,
        sum_percent(new_distribution) != 100,
    ensures
        update_error(b, caller, new_distribution, new_submission_deadline, now) is Some,
        caller == b.owner && b.status == Status::Active ==> update_error(
            b,
            caller,
            new_distribution,
            new_submission_deadline,
            now,
        ) == Some(Error::DistributionMustSumTo100),
{
}

// ---------------------------------------------------------------------
// Sums over transfers
// ---------------------------------------------------------------------

/// The net outflow of two lists of transfers is the sum of their outflows.
pub proof fn lemma_net_outflow_concat(a: Seq<TransferView>, b: Seq<TransferView>)
    ensures
        net_outflow(a + b) == net_outflow(a) + net_outflow(b),
    decreases b.len(),
{
    if b.len() == 0 {
        assert(a + b =~= a);
    } else {
        lemma_net_outflow_concat(a, b.drop_last());
        assert((a + b).drop_last() =~= a + b.drop_last());
        assert((a + b).last() == b.last());
    }
}

/// A single payment out of escrow is an outflow of its amount.
pub proof fn lemma_net_outflow_one(t: TransferView)
    ensures
        net_outflow(seq![t]) == (if t.from is Escrow {
            t.amount
        } else {
            0
        }) - (if t.to is Escrow {
            t.amount
        } else {
            0
        }),
        net_outflow(Seq::<TransferView>::empty()) == 0,
{
    assert(seq![t].drop_last() =~= Seq::<TransferView>::empty());
    assert(seq![t].last() == t);
    assert(net_outflow(seq![t].drop_last()) == 0);
}

/// The payments to the winners add up to what is distributed among them.
pub proof fn lemma_winner_payouts_total(
    b: BountyView,
    winners: Seq<Seq<char>>,
    net: int,
    n: nat,
    decimals: nat,
)
    ensures
        net_outflow(winner_payouts(b, winners, net, n, decimals)) == base_units(
            distributed(net, b.distribution, n),
            decimals,
        ),
    decreases n,
{
    let all = winner_payouts(b, winners, net, n, decimals);
    if n == 0 {
        assert(base_units(0, decimals) == 0) by (nonlinear_arith);
    } else {
        let m = (n - 1) as nat;
        lemma_winner_payouts_total(b, winners, net, m, decimals);
        assert(all.drop_last() =~= winner_payouts(b, winners, net, m, decimals));
        lemma_base_units_add(
            distributed(net, b.distribution, m),
            rank_amount(net, b.distribution, m as int),
            decimals,
        );
    }
}

/// Equal payments to `n` accounts add up to `n` times the payment.
pub proof fn lemma_equal_payouts_total(
    token: Seq<char>,
    accounts: Seq<Seq<char>>,
    share: int,
    n: nat,
    decimals: nat,
)
    ensures
        net_outflow(Seq::new(n, |i: int| payout(token, accounts[i], share, decimals)))
            == base_units(n * share, decimals),
    decreases n,
{
    let all = Seq::new(n, |i: int| payout(token, accounts[i], share, decimals));
    if n == 0 {
        assert(base_units(0, decimals) == 0) by (nonlinear_arith);
    } else {
        let m = (n - 1) as nat;
        lemma_equal_payouts_total(token, accounts, share, m, decimals);
        assert(all.drop_last() =~= Seq::new(
            m,
            |i: int| payout(token, accounts[i], share, decimals),
        ));
        lemma_base_units_add(m * share, share, decimals);
        assert(m * share + share == n * share) by (nonlinear_arith)
            requires
                m == n - 1,
        ;
    }
}

/// The fee payment of a settlement moves the fee that is due then.
pub proof fn lemma_fee_payout_total(
    b: BountyView,
    policy: FeePolicy,
    fee_account: Seq<char>,
    decimals: nat,
)
    ensures
        net_outflow(fee_payout(b, policy, fee_account, decimals)) == base_units(
            policy.fee_at_settlement(b.reward),
            decimals,
        ),
{
    match policy.timing {
        FeeTiming::AtSettlement => {
            lemma_net_outflow_one(
                payout(b.token, fee_account, policy.fee_at_settlement(b.reward), decimals),
            );
        },
        FeeTiming::AtCreation => {
            assert(base_units(0, decimals) == 0) by (nonlinear_arith);
        },
    }
}

// ---------------------------------------------------------------------
// Conservation of value
// ---------------------------------------------------------------------

/// Funding a bounty leaves exactly the reward in escrow, whenever the fee
/// is collected.
pub proof fn law_creation_escrows_reward(
    owner: Seq<char>,
    token: Seq<char>,
    reward: int,
    policy: FeePolicy,
    fee_account: Seq<char>,
    decimals: nat,
)
    ensures
        net_outflow(creation_transfers(owner, token, reward, policy, fee_account, decimals))
            == -base_units(reward, decimals),
{
    let fee = policy.fee_at_creation(reward);
    let all = creation_transfers(owner, token, reward, policy, fee_account, decimals);
    match policy.timing {
        FeeTiming::AtSettlement => {
            lemma_net_outflow_one(all[0]);
            assert(all =~= seq![all[0]]);
        },
        FeeTiming::AtCreation => {
            assert(all =~= seq![all[0]] + seq![all[1]]);
            lemma_net_outflow_concat(seq![all[0]], seq![all[1]]);
            lemma_net_outflow_one(all[0]);
            lemma_net_outflow_one(all[1]);
            lemma_base_units_add(reward, fee, decimals);
        },
    }
}

/// In a settlement by the owner, what the winners receive, what goes back
/// to the owner and the fee are each non-negative and add up to the
/// reward; and the transfers move exactly the reward out of escrow.
pub proof fn law_settlement_conserves_value(
    b: BountyView,
    winners: Seq<Seq<char>>,
    policy: FeePolicy,
    fee_account: Seq<char>,
    decimals: nat,
)
    requires
        b.wf(),
        policy.wf(),
    ensures
        distributed(net_reward(b, policy), b.distribution, paid_winners(b, winners))
            + settlement_remainder(b, winners, policy) + policy.fee_at_settlement(b.reward)
            == b.reward,
        0 <= distributed(net_reward(b, policy), b.distribution, paid_winners(b, winners)),
        0 <= settlement_remainder(b, winners, policy),
        0 <= policy.fee_at_settlement(b.reward),
        net_outflow(settlement_transfers(b, winners, policy, fee_account, decimals))
            == base_units(b.reward, decimals),
{
    let net = net_reward(b, policy);
    let k = paid_winners(b, winners);
    let paid = distributed(net, b.distribution, k);
    let remainder = settlement_remainder(b, winners, policy);
    let fee = policy.fee_at_settlement(b.reward);
    lemma_net_reward_bounded(b, policy);
    lemma_distributed_bounded(net, b.distribution, k);
    let payouts = winner_payouts(b, winners, net, k, decimals);
    let back = if remainder > 0 {
        seq![payout(b.token, b.owner, remainder, decimals)]
    } else {
        seq![]
    };
    let fees = fee_payout(b, policy, fee_account, decimals);
    lemma_winner_payouts_total(b, winners, net, k, decimals);
    lemma_fee_payout_total(b, policy, fee_account, decimals);
    lemma_net_outflow_one(payout(b.token, b.owner, remainder, decimals));
    assert(net_outflow(back) == base_units(remainder, decimals)) by {
        if remainder == 0 {
            assert(base_units(0, decimals) == 0) by (nonlinear_arith);
        }
    }
    lemma_net_outflow_concat(payouts, back);
    lemma_net_outflow_concat(payouts + back, fees);
    lemma_base_units_add(paid, remainder, decimals);
    lemma_base_units_add(paid + remainder, fee, decimals);
}

/// In a settlement by deadline with applicants, the equal shares and the
/// fee together never exceed the reward, and what stays behind is less than
/// one unit for each applicant; the transfers move exactly the shares and
/// the fee out of escrow.
pub proof fn law_equal_split_rounding_loss(
    b: BountyView,
    policy: FeePolicy,
    fee_account: Seq<char>,
    decimals: nat,
)
    requires
        b.wf(),
        policy.wf(),
        b.applicants.len() > 0,
    ensures
        0 <= equal_share(b, policy),
        0 <= b.reward - policy.fee_at_settlement(b.reward) - b.applicants.len() * equal_share(
            b,
            policy,
        ) <= b.applicants.len() - 1,
        net_outflow(auto_settlement_transfers(b, policy, fee_account, decimals)) == base_units(
            b.applicants.len() * equal_share(b, policy) + policy.fee_at_settlement(b.reward),
            decimals,
        ),
        0 <= net_outflow(auto_settlement_transfers(b, policy, fee_account, decimals))
            <= base_units(b.reward, decimals),
{
    let n = b.applicants.len();
    let net = net_reward(b, policy);
    let share = equal_share(b, policy);
    lemma_net_reward_bounded(b, policy);
    assert(0 <= share && 0 <= net - n * share <= n - 1) by (nonlinear_arith)
        requires
            share == net / (n as int),
            0 <= net,
            n >= 1,
    ;
    let shares = Seq::new(n, |i: int| payout(b.token, b.applicants[i], share, decimals));
    let fees = fee_payout(b, policy, fee_account, decimals);
    lemma_equal_payouts_total(b.token, b.applicants, share, n, decimals);
    lemma_fee_payout_total(b, policy, fee_account, decimals);
    lemma_net_outflow_concat(shares, fees);
    lemma_base_units_add(n * share, policy.fee_at_settlement(b.reward), decimals);
    assert(0 <= n * share) by (nonlinear_arith)
        requires
            0 <= share,
            0 <= n,
    ;
    lemma_base_units_monotone(n * share + policy.fee_at_settlement(b.reward), b.reward, decimals);
    lemma_base_units_monotone(0, n * share + policy.fee_at_settlement(b.reward), decimals);
}

/// A settlement by deadline without applicants, a closing and the deletion
/// of an active bounty move exactly the reward out of escrow.
pub proof fn law_refund_is_full(b: BountyView, policy: FeePolicy, fee_account: Seq<char>,
    decimals: nat)
    ensures
        net_outflow(full_refund(b, decimals)) == base_units(b.reward, decimals),
        b.applicants.len() == 0 ==> auto_settlement_transfers(b, policy, fee_account, decimals)
            == full_refund(b, decimals),
{
    lemma_net_outflow_one(payout(b.token, b.owner, b.reward, decimals));
}

// ---------------------------------------------------------------------
// Lifecycle of a bounty
// ---------------------------------------------------------------------

/// Once a bounty has settled itself it is never due again: a second check
/// of the deadline finds nothing to do, whenever it comes.
pub proof fn law_auto_settlement_happens_once(b: BountyView, later: int)
    ensures
        !auto_settlement_due(auto_settled(b), later),
{
}

/// A bounty that has left the active state stays as it is: it takes no
/// submission, no update, no settlement and no closing, and is never due.
pub proof fn law_terminal_bounty_is_final(
    b: BountyView,
    caller: Seq<char>,
    who: Seq<char>,
    winners: Seq<Seq<char>>,
    new_distribution: Seq<(u32, u32)>,
    new_submission_deadline: Option<int>,
    now: int,
    decimals: nat,
)
    requires
        b.status != Status::Active,
    ensures
        apply_error(b, now) == Some(Error::InactiveBounty),
        update_submission_error(b, who, now) == Some(Error::InactiveBounty),
        update_error(b, caller, new_distribution, new_submission_deadline, now) is Some,
        select_winners_error(b, caller, winners, now, decimals) is Some,
        close_error(b, caller, decimals) is Some,
        !auto_settlement_due(b, now),
{
}

/// Replacing the submissions of `who` sets what `who` has on file, where
/// they have anything on file, and leaves everybody else's as it is.
pub proof fn lemma_link_of_relinked(
    entries: Seq<SubmissionView>,
    who: Seq<char>,
    link: Seq<char>,
    other: Seq<char>,
)
    ensures
        link_of(relinked(entries, who, link), other) == (if other == who && link_of(
            entries,
            who,
        ) is Some {
            Some(link)
        } else {
            link_of(entries, other)
        }),
    decreases entries.len(),
{
    if entries.len() > 0 {
        let init = entries.drop_last();
        lemma_link_of_relinked(init, who, link, other);
        assert(relinked(entries, who, link).drop_last() =~= relinked(init, who, link));
    }
}

/// A submission overwrites the one that its applicant had on file and no
/// other: afterwards the applicant has the new reference on file, everybody
/// else has what they had, and the applicants stand in the order in which
/// they first applied.
pub proof fn law_latest_submission_counts(
    b: BountyView,
    who: Seq<char>,
    link: Seq<char>,
    other: Seq<char>,
)
    requires
        other != who,
    ensures
        link_of(applied(b, who, link).submissions, who) == Some(link),
        link_of(applied(b, who, link).submissions, other) == link_of(b.submissions, other),
        applied(b, who, link).applicants == (if link_of(b.submissions, who) is Some {
            b.applicants
        } else {
            b.applicants.push(who)
        }),
{
    lemma_link_of_relinked(b.submissions, who, link, who);
    lemma_link_of_relinked(b.submissions, who, link, other);
    let pushed = b.submissions.push(SubmissionView { applicant: who, link });
    assert(pushed.drop_last() =~= b.submissions);
}

/// Settling leaves the active state, and only settling by the owner names
/// winners.
pub proof fn law_settlement_completes(b: BountyView, winners: Seq<Seq<char>>)
    requires
        b.wf(),
    ensures
        settled(b, winners).status == Status::Completed,
        settled(b, winners).wf(),
        auto_settled(b).status == Status::Completed,
        b.status == Status::Active ==> auto_settled(b).wf() && auto_settled(b).winners.len() == 0,
{
}

// ---------------------------------------------------------------------
// Projects
// ---------------------------------------------------------------------

/// What a gig that has not been cancelled holds in escrow is its reward
/// less its paid milestones, and never negative.
pub proof fn law_escrow_matches_unpaid_milestones(p: ProjectView)
    requires
        p.wf(),
        p.project_type == ProjectType::Gig,
        p.status != ProjectStatus::Cancelled,
    ensures
        p.remaining_escrow == p.total_reward - paid_amount(p.milestones),
        0 <= p.remaining_escrow <= p.total_reward,
        p.status == ProjectStatus::Completed <==> all_paid(p.milestones),
        p.status == ProjectStatus::Completed ==> p.remaining_escrow == 0,
{
    crate::project::lemma_paid_within_total(p.milestones);
    if all_paid(p.milestones) {
        lemma_all_paid_sum(p.milestones);
    }
}

/// The escrow of every project is non-negative.
pub proof fn law_escrow_never_negative(p: ProjectView)
    requires
        p.wf(),
    ensures
        0 <= p.remaining_escrow,
{
    if p.project_type == ProjectType::Gig && p.status != ProjectStatus::Cancelled {
        law_escrow_matches_unpaid_milestones(p);
    }
}

/// A gig is created with its whole reward in escrow and satisfies the
/// invariant of a project.
pub proof fn law_created_gig_is_well_formed(
    owner: Seq<char>,
    token: Seq<char>,
    total_reward: int,
    milestones: Seq<MilestoneData>,
    deadline: int,
    platform_fee: int,
    now: int,
    decimals: nat,
)
    requires
        create_gig_error(total_reward, milestones, deadline, platform_fee, now, decimals) is None,
    ensures
        created_gig(owner, token, total_reward, milestones, deadline).wf(),
        created_gig(owner, token, total_reward, milestones, deadline).remaining_escrow
            == total_reward,
{
    let ms = planned(milestones);
    lemma_unpaid_sum(ms);
    assert(!ms[0].is_paid);
}

/// Releasing a milestone keeps the invariant of a project, lowers the
/// escrow by the milestone's amount, and never turns a paid milestone back.
pub proof fn law_release_keeps_accounting(
    p: ProjectView,
    caller: Seq<char>,
    order: u32,
    amount: int,
    decimals: nat,
)
    requires
        p.wf(),
        release_error(p, caller, order, amount, decimals) is None,
    ensures
        released(p, order).wf(),
        released(p, order).remaining_escrow == p.remaining_escrow - amount,
        released(p, order).milestones.len() == p.milestones.len(),
        forall|i: int|
            0 <= i < p.milestones.len() && (#[trigger] p.milestones[i]).is_paid ==> released(
                p,
                order,
            ).milestones[i].is_paid,
{
    lemma_find_order(p.milestones, order, 0);
    lemma_released_wf(p, caller, order, decimals);
}

/// A milestone that has been released cannot be released again.
pub proof fn law_milestone_is_paid_once(
    p: ProjectView,
    caller: Seq<char>,
    order: u32,
    amount: int,
    again: int,
    decimals: nat,
)
    requires
        p.wf(),
        release_error(p, caller, order, amount, decimals) is None,
    ensures
        release_error(released(p, order), caller, order, again, decimals) == Some(
            if released(p, order).status == ProjectStatus::Active {
                Error::MilestoneAlreadyPaid
            } else {
                Error::ProjectNotActive
            },
        ),
{
    lemma_find_order(p.milestones, order, 0);
    let at = find_order(p.milestones, order, 0);
    let after = released(p, order).milestones;
    lemma_find_order(after, order, 0);
    let at2 = find_order(after, order, 0);
    assert(after[at].order == order);
    if at2 < at {
        assert(after[at2].order == p.milestones[at2].order);
    }
}

/// Cancelling refunds exactly what is left in escrow, empties the escrow,
/// and keeps the invariant of a project.
pub proof fn law_cancellation_refunds_escrow(p: ProjectView, caller: Seq<char>, decimals: nat)
    requires
        p.wf(),
        cancel_error(p, caller, decimals) is None,
    ensures
        cancelled(p).wf(),
        cancelled(p).status == ProjectStatus::Cancelled,
        cancelled(p).remaining_escrow == 0,
        net_outflow(crate::project::cancellation_transfers(p, decimals)) == base_units(
            p.remaining_escrow,
            decimals,
        ),
        p.remaining_escrow == p.total_reward - paid_amount(p.milestones),
{
    lemma_net_outflow_one(payout(p.token, p.owner, p.remaining_escrow, decimals));
    if p.remaining_escrow <= 0 {
        law_escrow_never_negative(p);
        assert(base_units(0, decimals) == 0) by (nonlinear_arith);
    }
}

/// A project that has left the active state stays as it is.
pub proof fn law_terminal_project_is_final(
    p: ProjectView,
    caller: Seq<char>,
    order: u32,
    amount: int,
    decimals: nat,
)
    requires
        p.status != ProjectStatus::Active,
    ensures
        release_error(p, caller, order, amount, decimals) is Some,
        cancel_error(p, caller, decimals) is Some,
{
}

} // verus!
