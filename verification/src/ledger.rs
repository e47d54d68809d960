//! What the engine asks the token service to do: transfers between the
//! escrow it keeps and the accounts of the parties, and the fee policy that
//! decides when the platform's share is taken.

use vstd::prelude::*;
use crate::types::Address;
use crate::utils::{base_units, fits_i128, percent_of};

verus! {

/// When the platform fee on a bounty is collected.
#[derive(Copy, Clone, Debug, PartialEq, Eq, Structural)]
pub enum FeeTiming {
    /// Deducted from the escrowed reward when the bounty is settled.
    AtSettlement,
    /// Paid by the owner on top of the reward when the bounty is created.
    AtCreation,
}

/// The platform fee on bounties: its rate and when it is collected.
#[derive(Copy, Clone, Debug, PartialEq, Eq, Structural)]
pub struct FeePolicy {
    pub percent: u32,
    pub timing: FeeTiming,
}

impl FeePolicy {
    /// A rate is at most one hundred percent.
    pub open spec fn wf(self) -> bool {
        self.percent <= 100
    }

    /// The fee that a settlement deducts from `reward`.
    pub open spec fn fee_at_settlement(self, reward: int) -> int {
        match self.timing {
            FeeTiming::AtSettlement => percent_of(reward, self.percent as int),
            FeeTiming::AtCreation => 0,
        }
    }

    /// The fee that the owner pays on top of `reward` at creation.
    pub open spec fn fee_at_creation(self, reward: int) -> int {
        match self.timing {
            FeeTiming::AtSettlement => 0,
            FeeTiming::AtCreation => percent_of(reward, self.percent as int),
        }
    }

    /// The standard policy: five percent, deducted at settlement.
    pub fn standard() -> (p: FeePolicy)
        ensures
            p == (FeePolicy { percent: 5, timing: FeeTiming::AtSettlement }),
            p.wf(),
    {
        FeePolicy { percent: crate::utils::PLATFORM_FEE_PERCENT, timing: FeeTiming::AtSettlement }
    }

    /// Five percent, paid up front at creation.
    pub fn upfront() -> (p: FeePolicy)
        ensures
            p == (FeePolicy { percent: 5, timing: FeeTiming::AtCreation }),
            p.wf(),
    {
        FeePolicy { percent: crate::utils::PLATFORM_FEE_PERCENT, timing: FeeTiming::AtCreation }
    }

    /// Whether the rate is at most one hundred percent.
    pub fn is_valid(&self) -> (ok: bool)
        ensures
            ok == self.wf(),
    {
        self.percent <= 100
    }
}

/// The model of one side of a transfer.
pub enum PartyView {
    Escrow,
    Account(Seq<char>),
}

/// One side of a transfer: the engine's own escrow, or a party's account.
#[derive(Debug, PartialEq, Eq)]
pub enum Party {
    Escrow,
    Account(Address),
}

impl View for Party {
    type V = PartyView;

    open spec fn view(&self) -> PartyView {
        match self {
            Party::Escrow => PartyView::Escrow,
            Party::Account(a) => PartyView::Account(a@),
        }
    }
}

impl Clone for Party {
    fn clone(&self) -> (r: Party)
        ensures
            r == *self,
    {
        match self {
            Party::Escrow => Party::Escrow,
            Party::Account(a) => Party::Account(a.clone()),
        }
    }
}

/// The model of a transfer. The amount is in base units.
pub struct TransferView {
    pub token: Seq<char>,
    pub from: PartyView,
    pub to: PartyView,
    pub amount: int,
}

/// A transfer of `amount` base units of `token` that the engine commands.
#[derive(Debug, PartialEq, Eq)]
pub struct Transfer {
    pub token: Address,
    pub from: Party,
    pub to: Party,
    pub amount: i128,
}

impl View for Transfer {
    type V = TransferView;

    open spec fn view(&self) -> TransferView {
        TransferView {
            token: self.token@,
            from: self.from@,
            to: self.to@,
            amount: self.amount as int,
        }
    }
}

impl Clone for Transfer {
    fn clone(&self) -> (r: Transfer)
        ensures
            r == *self,
    {
        Transfer {
            token: self.token.clone(),
            from: self.from.clone(),
            to: self.to.clone(),
            amount: self.amount,
        }
    }
}

/// The views of a sequence of transfers.
pub open spec fn transfer_views(transfers: Seq<Transfer>) -> Seq<TransferView> {
    transfers.map_values(|t: Transfer| t@)
}

/// A payment of `amount` display units out of escrow to `to`.
pub open spec fn payout(token: Seq<char>, to: Seq<char>, amount: int, decimals: nat)
    -> TransferView {
    TransferView {
        token: token,
        from: PartyView::Escrow,
        to: PartyView::Account(to),
        amount: base_units(amount, decimals),
    }
}

/// A payment of `amount` display units from `from` into escrow.
pub open spec fn deposit(token: Seq<char>, from: Seq<char>, amount: int, decimals: nat)
    -> TransferView {
    TransferView {
        token: token,
        from: PartyView::Account(from),
        to: PartyView::Escrow,
        amount: base_units(amount, decimals),
    }
}

/// The base units that the transfers move out of escrow, less those they
/// move into it.
pub open spec fn net_outflow(transfers: Seq<TransferView>) -> int
    decreases transfers.len(),
{
    if transfers.len() == 0 {
        0
    } else {
        let t = transfers.last();
        net_outflow(transfers.drop_last()) + (if t.from is Escrow {
            t.amount
        } else {
            0
        }) - (if t.to is Escrow {
            t.amount
        } else {
            0
        })
    }
}

/// The base units that the transfers pay into the account `who`.
pub open spec fn received_by(transfers: Seq<TransferView>, who: Seq<char>) -> int
    decreases transfers.len(),
{
    if transfers.len() == 0 {
        0
    } else {
        let t = transfers.last();
        received_by(transfers.drop_last(), who) + (if t.to == PartyView::Account(who) {
            t.amount
        } else {
            0
        })
    }
}

/// Commands a payment of `amount` display units out of escrow.
pub fn pay_out(token: &Address, to: &Address, amount: i128, decimals: u32) -> (t: Transfer)
    requires
        fits_i128(base_units(amount as int, decimals as nat)),
    ensures
        t@ == payout(token@, to@, amount as int, decimals as nat),
{
    Transfer {
        token: token.clone(),
        from: Party::Escrow,
        to: Party::Account(to.clone()),
        amount: crate::utils::adjust_for_decimals(amount, decimals),
    }
}

/// Commands a payment of `amount` display units into escrow.
pub fn pay_in(token: &Address, from: &Address, amount: i128, decimals: u32) -> (t: Transfer)
    requires
        fits_i128(base_units(amount as int, decimals as nat)),
    ensures
        t@ == deposit(token@, from@, amount as int, decimals as nat),
{
    Transfer {
        token: token.clone(),
        from: Party::Account(from.clone()),
        to: Party::Escrow,
        amount: crate::utils::adjust_for_decimals(amount, decimals),
    }
}

} // verus!
