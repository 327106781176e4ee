//! The coin ledger: balances and credits as histories.
//!
//! Nothing is ever changed in a history. The current amount is the amount of
//! the last entry, and zero while there is no entry; every change appends an
//! entry that says which proposal caused it, when, and what the amount is
//! from then on.

use crate::participant::{CreditBalance, CreditBalanceModel, Participant, ParticipantModel};
use vstd::prelude::*;

verus! {

/// The current amount of a history.
pub open spec fn current_amount(history: Seq<CreditBalanceModel>) -> i64 {
    if history.len() == 0 {
        0
    } else {
        history.last().dg_coin_amount
    }
}

/// The entry that records a new amount.
pub open spec fn coin_entry(
    proposal_id: Seq<char>,
    timestamp: u64,
    amount: i64,
) -> CreditBalanceModel {
    CreditBalanceModel { proposal_id, timestamp, dg_coin_amount: amount }
}

/// A participant after its balance has changed.
pub open spec fn with_balance(
    p: ParticipantModel,
    proposal_id: Seq<char>,
    timestamp: u64,
    amount: i64,
) -> ParticipantModel {
    ParticipantModel {
        dg_coin_balances: p.dg_coin_balances.push(coin_entry(proposal_id, timestamp, amount)),
        ..p
    }
}

/// A participant after its credit has changed.
pub open spec fn with_credit(
    p: ParticipantModel,
    proposal_id: Seq<char>,
    timestamp: u64,
    amount: i64,
) -> ParticipantModel {
    ParticipantModel {
        dg_coin_credits: p.dg_coin_credits.push(coin_entry(proposal_id, timestamp, amount)),
        ..p
    }
}

/// Whether a participant can give `amount` out of balance and credit.
pub open spec fn covers_with_credit(p: ParticipantModel, amount: i64) -> bool {
    current_amount(p.dg_coin_balances) + current_amount(p.dg_coin_credits) >= amount
}

/// Whether a participant can give `amount` out of its balance alone.
pub open spec fn covers(p: ParticipantModel, amount: i64) -> bool {
    current_amount(p.dg_coin_balances) >= amount
}

/// The current amount is zero for an empty history; after a change it is the
/// amount of the entry that the change appended, whatever came before.
pub proof fn law_current_amount_is_last(history: Seq<CreditBalanceModel>, entry: CreditBalanceModel)
    ensures
        current_amount(Seq::empty()) == 0,
        current_amount(history.push(entry)) == entry.dg_coin_amount,
        history.len() > 0 ==> current_amount(history) == history[history.len() - 1].dg_coin_amount,
{
}

/// After a change of balance the current balance is the new amount, the
/// credit is what it was, and the history before the change is still there.
pub proof fn law_balance_change(
    p: ParticipantModel,
    proposal_id: Seq<char>,
    timestamp: u64,
    amount: i64,
)
    ensures
        current_amount(with_balance(p, proposal_id, timestamp, amount).dg_coin_balances) == amount,
        with_balance(p, proposal_id, timestamp, amount).dg_coin_credits == p.dg_coin_credits,
        with_balance(p, proposal_id, timestamp, amount).dg_coin_balances.drop_last()
            == p.dg_coin_balances,
        current_amount(with_credit(p, proposal_id, timestamp, amount).dg_coin_credits) == amount,
        with_credit(p, proposal_id, timestamp, amount).dg_coin_balances == p.dg_coin_balances,
        with_credit(p, proposal_id, timestamp, amount).dg_coin_credits.drop_last()
            == p.dg_coin_credits,
{
    assert(p.dg_coin_balances.push(coin_entry(proposal_id, timestamp, amount)).drop_last()
        =~= p.dg_coin_balances);
    assert(p.dg_coin_credits.push(coin_entry(proposal_id, timestamp, amount)).drop_last()
        =~= p.dg_coin_credits);
}

/// The current amount of a history.
pub fn current_amount_of(history: &Vec<CreditBalance>) -> (amount: i64)
    ensures
        amount == current_amount(history.deep_view()),
{
    if history.len() == 0 {
        0
    } else {
        history[history.len() - 1].dg_coin_amount
    }
}

impl Participant {
    /// The current balance.
    pub fn balance(&self) -> (amount: i64)
        ensures
            amount == current_amount(self@.dg_coin_balances),
    {
        current_amount_of(&self.dg_coin_balances)
    }

    /// The current credit.
    pub fn credit(&self) -> (amount: i64)
        ensures
            amount == current_amount(self@.dg_coin_credits),
    {
        current_amount_of(&self.dg_coin_credits)
    }

    /// Whether balance and credit together reach `amount`.
    pub fn covers_with_credit(&self, amount: i64) -> (r: bool)
        ensures
            r == covers_with_credit(self@, amount),
    {
        self.balance() as i128 + self.credit() as i128 >= amount as i128
    }

    /// Appends a balance entry.
    pub fn push_balance(&mut self, proposal_id: &str, timestamp: u64, amount: i64)
        ensures
            final(self)@ == with_balance(old(self)@, proposal_id@, timestamp, amount),
    {
        let entry = CreditBalance {
            proposal_id: proposal_id.to_owned(),
            timestamp,
            dg_coin_amount: amount,
        };
        self.dg_coin_balances.push(entry);
        assert(self@.dg_coin_balances =~= old(self)@.dg_coin_balances.push(entry@));
    }

    /// Appends a credit entry.
    pub fn push_credit(&mut self, proposal_id: &str, timestamp: u64, amount: i64)
        ensures
            final(self)@ == with_credit(old(self)@, proposal_id@, timestamp, amount),
    {
        let entry = CreditBalance {
            proposal_id: proposal_id.to_owned(),
            timestamp,
            dg_coin_amount: amount,
        };
        self.dg_coin_credits.push(entry);
        assert(self@.dg_coin_credits =~= old(self)@.dg_coin_credits.push(entry@));
    }
}

} // verus!
