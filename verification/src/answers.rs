//! Answering proposals.
//!
//! The issuer of a proposal can cancel it, and the participant it was made to
//! can reject or accept it. Accepting carries out what the proposal asks for.
//! An order on the coin market is answered by its own issuer: each fill moves
//! coins at once, and the last fill closes the order and stores the
//! exchanges that settled it.

use crate::error::{outcome, reject, rejection, ApplyError, ApplyErrorModel};
use crate::handler::TransactionHandlerDGC;
use crate::ledger::{covers, covers_with_credit, current_amount, with_balance, with_credit};
use crate::participant::{Participant, ParticipantModel};
use crate::payload::{AnswerProposalAction, AnswerProposalActionModel, Response};
use crate::property::{Property, PropertyModel, Reporter, ReporterModel};
use crate::proposal::{Exchange, ExchangeModel, Proposal, ProposalModel, Role, Status};
use crate::proposals::not_enough;
use crate::record::{Record, RecordModel};
use crate::records::{holder, make_holder};
use crate::schema::{PropertySchema, PropertySchemaModel};
use crate::state::{
    journal_with_exchange, journal_with_participant, journal_with_property,
    journal_with_proposal, journal_with_record, participant_at, property_at, proposal_at,
    record_at, table_at, CellModel, StateDGC, Step,
};
use crate::text::text_eq;
use vstd::prelude::*;
use vstd::string::*;

verus! {

/// A proposal with another status.
pub open spec fn with_status(proposal: ProposalModel, status: Status) -> ProposalModel {
    ProposalModel { status, ..proposal }
}

/// An order after a fill of `exchanged` coins in all.
pub open spec fn filled(proposal: ProposalModel, exchanged: i64, status: Status) -> ProposalModel {
    ProposalModel { dg_coin_exchanged: exchanged, status, ..proposal }
}

/// The rejection of an amount that cannot be written down.
pub open spec fn out_of_range(proposal_id: Seq<char>) -> ApplyErrorModel {
    rejection("The dg coin amount is out of range: "@, proposal_id)
}

/// What storing the exchanges from position `i` on does: each is stored under
/// its pair of proposals.
pub open spec fn exchanges_from(
    journal: Seq<CellModel>,
    exchanges: Seq<ExchangeModel>,
    i: int,
) -> Step
    decreases exchanges.len() - i,
{
    if i < 0 || i >= exchanges.len() {
        (journal, Ok(()))
    } else {
        let (next, r) = journal_with_exchange(
            journal,
            exchanges[i].buy_proposal_id,
            exchanges[i].sell_proposal_id,
            exchanges[i],
        );
        match r {
            Err(e) => (next, Err(e)),
            Ok(()) => exchanges_from(next, exchanges, i + 1),
        }
    }
}

/// The issuer's balance after a fill of its order, if the fill can be made:
/// a buy order adds the amount, a sell order takes it and must be covered by
/// balance and credit together.
pub open spec fn balance_after_fill(
    issuer: ParticipantModel,
    role: Role,
    amount: i64,
    signer: Seq<char>,
    proposal_id: Seq<char>,
) -> Result<i64, ApplyErrorModel> {
    let balance = current_amount(issuer.dg_coin_balances);
    if role == Role::SellDgc && !covers_with_credit(issuer, amount) {
        Err(not_enough(signer))
    } else {
        let moved = if role == Role::SellDgc {
            balance.checked_sub(amount)
        } else {
            balance.checked_add(amount)
        };
        match moved {
            Some(v) => Ok(v),
            None => Err(out_of_range(proposal_id)),
        }
    }
}

/// What a fill of a market order does. For a buy or a sell order the issuer
/// gets a new balance entry, the exchanges of the payload are stored where
/// the fill closes the order, and the order is stored with the amount added
/// to what was exchanged, open or closed. For every other role nothing
/// happens.
pub open spec fn fill_spec(
    journal: Seq<CellModel>,
    payload: AnswerProposalActionModel,
    proposal: ProposalModel,
    issuer: ParticipantModel,
    signer: Seq<char>,
    timestamp: u64,
    closing: bool,
) -> Step {
    if payload.role == Role::BuyDgc || payload.role == Role::SellDgc {
        match balance_after_fill(
            issuer,
            payload.role,
            payload.dg_coin_amount,
            signer,
            payload.proposal_id,
        ) {
            Err(e) => (journal, Err(e)),
            Ok(balance) => match proposal.dg_coin_exchanged.checked_add(payload.dg_coin_amount) {
                None => (journal, Err(out_of_range(payload.proposal_id))),
                Some(exchanged) => {
                    let (paid, r) = journal_with_participant(
                        journal,
                        signer,
                        with_balance(issuer, payload.proposal_id, timestamp, balance),
                    );
                    match r {
                        Err(e) => (paid, Err(e)),
                        Ok(()) => {
                            let (settled, r) = if closing {
                                exchanges_from(paid, payload.exchanges, 0)
                            } else {
                                (paid, Ok(()))
                            };
                            match r {
                                Err(e) => (settled, Err(e)),
                                Ok(()) => journal_with_proposal(
                                    settled,
                                    payload.proposal_id,
                                    filled(
                                        proposal,
                                        exchanged,
                                        if closing {
                                            Status::Closed
                                        } else {
                                            Status::Open
                                        },
                                    ),
                                ),
                            }
                        },
                    }
                },
            },
        }
    } else {
        (journal, Ok(()))
    }
}

/// What accepting a proposal does in the end: it is stored as accepted.
pub open spec fn accepted(
    journal: Seq<CellModel>,
    proposal_id: Seq<char>,
    proposal: ProposalModel,
) -> Step {
    journal_with_proposal(journal, proposal_id, with_status(proposal, Status::Accepted))
}

/// What accepting a credit does: the receiver's credit grows by the amount.
pub open spec fn credit_spec(
    journal: Seq<CellModel>,
    payload: AnswerProposalActionModel,
    proposal: ProposalModel,
    receiver: ParticipantModel,
    timestamp: u64,
) -> Step {
    match current_amount(receiver.dg_coin_credits).checked_add(payload.dg_coin_amount) {
        None => (journal, Err(out_of_range(payload.proposal_id))),
        Some(credit) => {
            let (stored, r) = journal_with_participant(
                journal,
                payload.receiving_participant,
                with_credit(receiver, payload.proposal_id, timestamp, credit),
            );
            match r {
                Err(e) => (stored, Err(e)),
                Ok(()) => accepted(stored, payload.proposal_id, proposal),
            }
        },
    }
}

/// What accepting a transfer of coins does: the participant that issued the
/// proposal must exist and its balance must cover the amount; its balance goes
/// down by the amount, and then the balance of the receiver goes up by it.
pub open spec fn transfer_spec(
    journal: Seq<CellModel>,
    payload: AnswerProposalActionModel,
    proposal: ProposalModel,
    timestamp: u64,
) -> Step {
    let amount = payload.dg_coin_amount;
    let giver = proposal.issuing_participant;
    match participant_at(journal, giver) {
        Err(e) => (journal, Err(e)),
        Ok(None) => (journal, Err(rejection("Issuing participant does not exist: "@, giver))),
        Ok(Some(issuer)) => if !covers(issuer, amount) {
            (journal, Err(not_enough(giver)))
        } else {
            match current_amount(issuer.dg_coin_balances).checked_sub(amount) {
                None => (journal, Err(out_of_range(payload.proposal_id))),
                Some(given) => {
                    let (paid, r) = journal_with_participant(
                        journal,
                        giver,
                        with_balance(issuer, payload.proposal_id, timestamp, given),
                    );
                    match r {
                        Err(e) => (paid, Err(e)),
                        Ok(()) => receive_spec(paid, payload, proposal, timestamp),
                    }
                },
            }
        },
    }
}

/// The second half of a transfer of coins: the balance of the receiver goes
/// up by the amount, and the proposal is accepted.
pub open spec fn receive_spec(
    journal: Seq<CellModel>,
    payload: AnswerProposalActionModel,
    proposal: ProposalModel,
    timestamp: u64,
) -> Step {
    match participant_at(journal, payload.receiving_participant) {
        Err(e) => (journal, Err(e)),
        Ok(None) => (
            journal,
            Err(
                rejection(
                    "Receiving participant does not exist: "@,
                    payload.receiving_participant,
                ),
            ),
        ),
        Ok(Some(receiver)) => match current_amount(receiver.dg_coin_balances).checked_add(
            payload.dg_coin_amount,
        ) {
            None => (journal, Err(out_of_range(payload.proposal_id))),
            Some(received) => {
                let (stored, r) = journal_with_participant(
                    journal,
                    payload.receiving_participant,
                    with_balance(receiver, payload.proposal_id, timestamp, received),
                );
                match r {
                    Err(e) => (stored, Err(e)),
                    Ok(()) => accepted(stored, payload.proposal_id, proposal),
                }
            },
        },
    }
}

/// A reporter as it is after the record has changed hands: the one of the
/// former owner loses its authorization, the one of the new owner gets it.
pub open spec fn handed_over(
    reporter: ReporterModel,
    former: Seq<char>,
    receiver: Seq<char>,
) -> ReporterModel {
    if reporter.public_key == former {
        ReporterModel { authorized: false, ..reporter }
    } else if reporter.public_key == receiver {
        ReporterModel { authorized: true, ..reporter }
    } else {
        reporter
    }
}

/// Whether one of the first `n` reporters is the new owner's, and not the
/// former owner's.
pub open spec fn receiver_listed(
    reporters: Seq<ReporterModel>,
    former: Seq<char>,
    receiver: Seq<char>,
    n: int,
) -> bool
    decreases n,
{
    if n <= 0 {
        false
    } else {
        receiver_listed(reporters, former, receiver, n - 1) || (reporters[n - 1].public_key
            != former && reporters[n - 1].public_key == receiver)
    }
}

/// A reporter that is added to a list of `count` reporters.
pub open spec fn added_reporter(receiver: Seq<char>, count: nat) -> ReporterModel {
    ReporterModel { public_key: receiver, authorized: true, index: count as u32 }
}

/// The reporters of a property after the record has changed hands: each as
/// [`handed_over`] says, and the new owner added where it was not listed.
pub open spec fn reporters_after_transfer(
    reporters: Seq<ReporterModel>,
    former: Seq<char>,
    receiver: Seq<char>,
) -> Seq<ReporterModel> {
    let kept = Seq::new(reporters.len(), |k: int| handed_over(reporters[k], former, receiver));
    if receiver_listed(reporters, former, receiver, reporters.len() as int) {
        kept
    } else {
        kept.push(added_reporter(receiver, reporters.len()))
    }
}

/// What the change of hands does to the properties of the schemas from
/// position `i` on: each must exist, and is stored with its reporters
/// changed as the change of hands asks.
pub open spec fn transfer_reporters_from(
    journal: Seq<CellModel>,
    record_id: Seq<char>,
    schemas: Seq<PropertySchemaModel>,
    former: Seq<char>,
    receiver: Seq<char>,
    i: int,
) -> Step
    decreases schemas.len() - i,
{
    if i < 0 || i >= schemas.len() {
        (journal, Ok(()))
    } else {
        match property_at(journal, record_id, schemas[i].name) {
            Err(e) => (journal, Err(e)),
            Ok(None) => (journal, Err(rejection("Property does not exist"@, ""@))),
            Ok(Some(property)) => {
                let (next, r) = journal_with_property(
                    journal,
                    record_id,
                    property.name,
                    PropertyModel {
                        reporters: reporters_after_transfer(property.reporters, former, receiver),
                        ..property
                    },
                );
                match r {
                    Err(e) => (next, Err(e)),
                    Ok(()) => transfer_reporters_from(
                        next,
                        record_id,
                        schemas,
                        former,
                        receiver,
                        i + 1,
                    ),
                }
            },
        }
    }
}

/// What accepting a transfer of ownership does: the receiver becomes the
/// current owner of the record, the reporters of all properties of the
/// record's table change hands, and the proposal is accepted.
pub open spec fn ownership_spec(
    journal: Seq<CellModel>,
    payload: AnswerProposalActionModel,
    proposal: ProposalModel,
    timestamp: u64,
) -> Step {
    let receiver = payload.receiving_participant;
    match record_at(journal, payload.record_id) {
        Err(e) => (journal, Err(e)),
        Ok(None) => (
            journal,
            Err(rejection("Record in proposal does not exist: "@, payload.record_id)),
        ),
        Ok(Some(record)) => if record.owners.len() == 0 {
            (journal, Err(rejection("Owner not found"@, ""@)))
        } else {
            let former = record.owners.last().participant_id;
            let (owned, r) = journal_with_record(
                journal,
                payload.record_id,
                RecordModel { owners: record.owners.push(holder(receiver, timestamp)), ..record },
            );
            match r {
                Err(e) => (owned, Err(e)),
                Ok(()) => match table_at(owned, record.table) {
                    Err(e) => (owned, Err(e)),
                    Ok(None) => (owned, Err(rejection("Table does not exist: "@, record.table))),
                    Ok(Some(table)) => {
                        let (handed, r) = transfer_reporters_from(
                            owned,
                            payload.record_id,
                            table.properties,
                            former,
                            receiver,
                            0,
                        );
                        match r {
                            Err(e) => (handed, Err(e)),
                            Ok(()) => accepted(handed, payload.proposal_id, proposal),
                        }
                    },
                },
            }
        },
    }
}

/// What accepting a transfer of custodianship does: the receiver becomes the
/// current custodian of the record, and the proposal is accepted.
pub open spec fn custodianship_spec(
    journal: Seq<CellModel>,
    payload: AnswerProposalActionModel,
    proposal: ProposalModel,
    timestamp: u64,
) -> Step {
    match record_at(journal, payload.record_id) {
        Err(e) => (journal, Err(e)),
        Ok(None) => (
            journal,
            Err(rejection("Record in proposal does not exist: "@, payload.record_id)),
        ),
        Ok(Some(record)) => if record.custodians.len() == 0 {
            (journal, Err(rejection("Custodian not found"@, ""@)))
        } else {
            let (held, r) = journal_with_record(
                journal,
                payload.record_id,
                RecordModel {
                    custodians: record.custodians.push(
                        holder(payload.receiving_participant, timestamp),
                    ),
                    ..record
                },
            );
            match r {
                Err(e) => (held, Err(e)),
                Ok(()) => accepted(held, payload.proposal_id, proposal),
            }
        },
    }
}

/// What authorizing the receiver for the properties named from position `i`
/// on does: each must exist, and is stored with the receiver added as a
/// reporter.
pub open spec fn authorize_from(
    journal: Seq<CellModel>,
    record_id: Seq<char>,
    names: Seq<Seq<char>>,
    receiver: Seq<char>,
    i: int,
) -> Step
    decreases names.len() - i,
{
    if i < 0 || i >= names.len() {
        (journal, Ok(()))
    } else {
        match property_at(journal, record_id, names[i]) {
            Err(e) => (journal, Err(e)),
            Ok(None) => (journal, Err(rejection("Property does not exist"@, ""@))),
            Ok(Some(property)) => {
                let (next, r) = journal_with_property(
                    journal,
                    record_id,
                    names[i],
                    PropertyModel {
                        reporters: property.reporters.push(
                            added_reporter(receiver, property.reporters.len()),
                        ),
                        ..property
                    },
                );
                match r {
                    Err(e) => (next, Err(e)),
                    Ok(()) => authorize_from(next, record_id, names, receiver, i + 1),
                }
            },
        }
    }
}

/// What accepting the authorization of a reporter does: the receiver becomes
/// a reporter of every property that the proposal names, and the proposal is
/// accepted.
pub open spec fn authorize_spec(
    journal: Seq<CellModel>,
    payload: AnswerProposalActionModel,
    proposal: ProposalModel,
) -> Step {
    match record_at(journal, payload.record_id) {
        Err(e) => (journal, Err(e)),
        Ok(None) => (
            journal,
            Err(rejection("Record in proposal does not exist: "@, payload.record_id)),
        ),
        Ok(Some(record)) => if record.owners.len() == 0 {
            (journal, Err(rejection("Owner not found"@, ""@)))
        } else {
            let (authorized, r) = authorize_from(
                journal,
                payload.record_id,
                proposal.properties,
                payload.receiving_participant,
                0,
            );
            match r {
                Err(e) => (authorized, Err(e)),
                Ok(()) => accepted(authorized, payload.proposal_id, proposal),
            }
        },
    }
}

/// What accepting a proposal does. Only the participant that the proposal
/// was made to can accept it, and the receiver that the payload names must
/// exist. What follows depends on the role; a market order is not accepted
/// by anyone, and nothing happens.
pub open spec fn accept_spec(
    journal: Seq<CellModel>,
    payload: AnswerProposalActionModel,
    proposal: ProposalModel,
    signer: Seq<char>,
    timestamp: u64,
) -> Step {
    if proposal.receiving_participant != signer {
        (journal, Err(rejection("Only the receiving participant can Accept a proposal"@, ""@)))
    } else {
        match participant_at(journal, payload.receiving_participant) {
            Err(e) => (journal, Err(e)),
            Ok(None) => (
                journal,
                Err(
                    rejection(
                        "Receiving participant does not exist: "@,
                        payload.receiving_participant,
                    ),
                ),
            ),
            Ok(Some(receiver)) => match payload.role {
                Role::CreditDgc => credit_spec(journal, payload, proposal, receiver, timestamp),
                Role::BuyDgc => (journal, Ok(())),
                Role::SellDgc => (journal, Ok(())),
                Role::TransferDgc => transfer_spec(journal, payload, proposal, timestamp),
                Role::TransferOwnership => ownership_spec(journal, payload, proposal, timestamp),
                Role::TransferCustodianship => custodianship_spec(
                    journal,
                    payload,
                    proposal,
                    timestamp,
                ),
                Role::AuthorizeReporter => authorize_spec(journal, payload, proposal),
            },
        }
    }
}

/// What answering a proposal does. The proposal must exist, and the signer
/// must be a participant.
#[verifier::opaque]
pub open spec fn answer_proposal_spec(
    journal: Seq<CellModel>,
    payload: AnswerProposalActionModel,
    signer: Seq<char>,
    timestamp: u64,
) -> Step {
    match proposal_at(journal, payload.proposal_id) {
        Err(e) => (journal, Err(e)),
        Ok(None) => (journal, Err(rejection("Proposal does not exist"@, ""@))),
        Ok(Some(proposal)) => match participant_at(journal, signer) {
            Err(e) => (journal, Err(e)),
            Ok(None) => (
                journal,
                Err(rejection("Issuing participant does not exist: "@, signer)),
            ),
            Ok(Some(acting)) => match payload.response {
                Response::Cancel => if proposal.issuing_participant != signer {
                    (
                        journal,
                        Err(
                            rejection(
                                "Only the issuing participant can cancel a proposal"@,
                                ""@,
                            ),
                        ),
                    )
                } else {
                    journal_with_proposal(
                        journal,
                        payload.proposal_id,
                        with_status(proposal, Status::Canceled),
                    )
                },
                Response::Reject => if proposal.receiving_participant != signer {
                    (
                        journal,
                        Err(
                            rejection(
                                "Only the receiving participant can reject a proposal"@,
                                ""@,
                            ),
                        ),
                    )
                } else {
                    journal_with_proposal(
                        journal,
                        payload.proposal_id,
                        with_status(proposal, Status::Rejected),
                    )
                },
                Response::AutoOpen => fill_spec(
                    journal,
                    payload,
                    proposal,
                    acting,
                    signer,
                    timestamp,
                    false,
                ),
                Response::AutoClose => fill_spec(
                    journal,
                    payload,
                    proposal,
                    acting,
                    signer,
                    timestamp,
                    true,
                ),
                Response::Accept => accept_spec(journal, payload, proposal, signer, timestamp),
            },
        },
    }
}

/// The reporters of a property after the record has changed hands.
pub fn hand_over(reporters: &Vec<Reporter>, former: &str, receiver: &str) -> (out: Vec<Reporter>)
    ensures
        out.deep_view() == reporters_after_transfer(reporters.deep_view(), former@, receiver@),
{
    let mut out: Vec<Reporter> = Vec::new();
    let mut listed = false;
    let mut i: usize = 0;
    while i < reporters.len()
        invariant
            i <= reporters.len(),
            out.len() == i,
            listed == receiver_listed(reporters.deep_view(), former@, receiver@, i as int),
            forall|k: int|
                0 <= k < i ==> (#[trigger] out[k]).deep_view() == handed_over(
                    reporters[k].deep_view(),
                    former@,
                    receiver@,
                ),
        decreases reporters.len() - i,
    {
        let reporter = &reporters[i];
        let key = reporter.public_key.as_str();
        let authorized = if text_eq(key, former) {
            false
        } else if text_eq(key, receiver) {
            listed = true;
            true
        } else {
            reporter.authorized
        };
        out.push(
            Reporter { public_key: reporter.public_key.clone(), authorized, index: reporter.index }
        );
        i = i + 1;
    }
    let ghost kept = out.deep_view();
    proof {
        assert(kept =~= Seq::new(
            reporters.deep_view().len(),
            |k: int| handed_over(reporters.deep_view()[k], former@, receiver@),
        ));
    }
    if !listed {
        let added = Reporter {
            public_key: receiver.to_owned(),
            authorized: true,
            index: #[verifier::truncate]
            (reporters.len() as u32),
        };
        out.push(added);
        proof {
            assert(out.deep_view() =~= kept.push(added@));
        }
    }
    out
}

/// A copy of an exchange.
pub fn copy_exchange(exchange: &Exchange) -> (copy: Exchange)
    ensures
        copy@ == exchange@,
{
    Exchange {
        buy_proposal_id: exchange.buy_proposal_id.clone(),
        sell_proposal_id: exchange.sell_proposal_id.clone(),
        timestamp: exchange.timestamp,
        currency_iso_codes: exchange.currency_iso_codes.clone(),
        last_currency_price: exchange.last_currency_price,
        last_dgc_price: exchange.last_dgc_price,
    }
}

impl TransactionHandlerDGC {
    /// Stores the exchanges that settled an order.
    pub fn store_exchanges(&self, state: &mut StateDGC, exchanges: &Vec<Exchange>) -> (r: Result<
        (),
        ApplyError,
    >)
        ensures
            (final(state)@, outcome(r)) == exchanges_from(old(state)@, exchanges.deep_view(), 0),
    {
        let mut i: usize = 0;
        while i < exchanges.len()
            invariant
                i <= exchanges.len(),
                exchanges_from(old(state)@, exchanges.deep_view(), 0) == exchanges_from(
                    state@,
                    exchanges.deep_view(),
                    i as int,
                ),
            decreases exchanges.len() - i,
        {
            let exchange = &exchanges[i];
            match state.set_exchange(
                exchange.buy_proposal_id.as_str(),
                exchange.sell_proposal_id.as_str(),
                copy_exchange(exchange),
            ) {
                Ok(()) => {},
                Err(e) => {
                    return Err(e);
                },
            }
            i = i + 1;
        }
        Ok(())
    }

    /// Makes a fill of a market order.
    pub fn fill(
        &self,
        state: &mut StateDGC,
        payload: &AnswerProposalAction,
        proposal: Proposal,
        issuer: Participant,
        signer: &str,
        timestamp: u64,
        closing: bool,
    ) -> (r: Result<(), ApplyError>)
        ensures
            (final(state)@, outcome(r)) == fill_spec(
                old(state)@,
                payload@,
                proposal@,
                issuer@,
                signer@,
                timestamp,
                closing,
            ),
    {
        let selling = payload.role == Role::SellDgc;
        if !selling && payload.role != Role::BuyDgc {
            return Ok(());
        }
        let amount = payload.dg_coin_amount;
        let proposal_id = payload.proposal_id.as_str();
        if selling && !issuer.covers_with_credit(amount) {
            return Err(
                reject("The dg coin balance of issuing participant is not enough: ", signer),
            );
        }
        let moved = if selling {
            issuer.balance().checked_sub(amount)
        } else {
            issuer.balance().checked_add(amount)
        };
        let balance = match moved {
            Some(v) => v,
            None => {
                return Err(reject("The dg coin amount is out of range: ", proposal_id));
            },
        };
        let exchanged = match proposal.dg_coin_exchanged.checked_add(amount) {
            Some(v) => v,
            None => {
                return Err(reject("The dg coin amount is out of range: ", proposal_id));
            },
        };
        let mut issuer = issuer;
        issuer.push_balance(proposal_id, timestamp, balance);
        match state.set_participant(signer, issuer) {
            Ok(()) => {},
            Err(e) => {
                return Err(e);
            },
        }
        if closing {
            match self.store_exchanges(state, &payload.exchanges) {
                Ok(()) => {},
                Err(e) => {
                    return Err(e);
                },
            }
        }
        let mut proposal = proposal;
        proposal.dg_coin_exchanged = exchanged;
        proposal.status = if closing {
            Status::Closed
        } else {
            Status::Open
        };
        state.set_proposal(proposal_id, proposal)
    }

    /// Stores a proposal as accepted.
    pub fn accept(&self, state: &mut StateDGC, proposal_id: &str, proposal: Proposal) -> (r: Result<
        (),
        ApplyError,
    >)
        ensures
            (final(state)@, outcome(r)) == accepted(old(state)@, proposal_id@, proposal@),
    {
        let mut proposal = proposal;
        proposal.status = Status::Accepted;
        state.set_proposal(proposal_id, proposal)
    }

    /// Accepts a credit.
    pub fn accept_credit(
        &self,
        state: &mut StateDGC,
        payload: &AnswerProposalAction,
        proposal: Proposal,
        receiver: Participant,
        timestamp: u64,
    ) -> (r: Result<(), ApplyError>)
        ensures
            (final(state)@, outcome(r)) == credit_spec(
                old(state)@,
                payload@,
                proposal@,
                receiver@,
                timestamp,
            ),
    {
        let proposal_id = payload.proposal_id.as_str();
        let credit = match receiver.credit().checked_add(payload.dg_coin_amount) {
            Some(v) => v,
            None => {
                return Err(reject("The dg coin amount is out of range: ", proposal_id));
            },
        };
        let mut receiver = receiver;
        receiver.push_credit(proposal_id, timestamp, credit);
        match state.set_participant(payload.receiving_participant.as_str(), receiver) {
            Ok(()) => {},
            Err(e) => {
                return Err(e);
            },
        }
        self.accept(state, proposal_id, proposal)
    }

    /// Credits the receiver of a transfer of coins and accepts the proposal.
    pub fn receive(
        &self,
        state: &mut StateDGC,
        payload: &AnswerProposalAction,
        proposal: Proposal,
        timestamp: u64,
    ) -> (r: Result<(), ApplyError>)
        ensures
            (final(state)@, outcome(r)) == receive_spec(
                old(state)@,
                payload@,
                proposal@,
                timestamp,
            ),
    {
        let proposal_id = payload.proposal_id.as_str();
        let receiver_id = payload.receiving_participant.as_str();
        let mut receiver = match state.get_participant(receiver_id) {
            Ok(Some(participant)) => participant,
            Ok(None) => {
                return Err(reject("Receiving participant does not exist: ", receiver_id));
            },
            Err(e) => {
                return Err(e);
            },
        };
        let received = match receiver.balance().checked_add(payload.dg_coin_amount) {
            Some(v) => v,
            None => {
                return Err(reject("The dg coin amount is out of range: ", proposal_id));
            },
        };
        receiver.push_balance(proposal_id, timestamp, received);
        match state.set_participant(receiver_id, receiver) {
            Ok(()) => {},
            Err(e) => {
                return Err(e);
            },
        }
        self.accept(state, proposal_id, proposal)
    }

    /// Accepts a transfer of coins.
    pub fn accept_transfer(
        &self,
        state: &mut StateDGC,
        payload: &AnswerProposalAction,
        proposal: Proposal,
        timestamp: u64,
    ) -> (r: Result<(), ApplyError>)
        ensures
            (final(state)@, outcome(r)) == transfer_spec(
                old(state)@,
                payload@,
                proposal@,
                timestamp,
            ),
    {
        let proposal_id = payload.proposal_id.as_str();
        let amount = payload.dg_coin_amount;
        let giver = proposal.issuing_participant.clone();
        let mut issuer = match state.get_participant(giver.as_str()) {
            Ok(Some(participant)) => participant,
            Ok(None) => {
                return Err(reject("Issuing participant does not exist: ", giver.as_str()));
            },
            Err(e) => {
                return Err(e);
            },
        };
        if issuer.balance() < amount {
            return Err(
                reject(
                    "The dg coin balance of issuing participant is not enough: ",
                    giver.as_str(),
                ),
            );
        }
        let given = match issuer.balance().checked_sub(amount) {
            Some(v) => v,
            None => {
                return Err(reject("The dg coin amount is out of range: ", proposal_id));
            },
        };
        issuer.push_balance(proposal_id, timestamp, given);
        match state.set_participant(giver.as_str(), issuer) {
            Ok(()) => {},
            Err(e) => {
                return Err(e);
            },
        }
        self.receive(state, payload, proposal, timestamp)
    }

    /// Hands the reporters of the properties of a record over to its new
    /// owner.
    pub fn transfer_reporters(
        &self,
        state: &mut StateDGC,
        record_id: &str,
        schemas: &Vec<PropertySchema>,
        former: &str,
        receiver: &str,
    ) -> (r: Result<(), ApplyError>)
        ensures
            (final(state)@, outcome(r)) == transfer_reporters_from(
                old(state)@,
                record_id@,
                schemas.deep_view(),
                former@,
                receiver@,
                0,
            ),
    {
        let mut i: usize = 0;
        while i < schemas.len()
            invariant
                i <= schemas.len(),
                transfer_reporters_from(
                    old(state)@,
                    record_id@,
                    schemas.deep_view(),
                    former@,
                    receiver@,
                    0,
                ) == transfer_reporters_from(
                    state@,
                    record_id@,
                    schemas.deep_view(),
                    former@,
                    receiver@,
                    i as int,
                ),
            decreases schemas.len() - i,
        {
            let mut property = match state.get_property(record_id, schemas[i].name.as_str()) {
                Ok(Some(property)) => property,
                Ok(None) => {
                    return Err(reject("Property does not exist", ""));
                },
                Err(e) => {
                    return Err(e);
                },
            };
            property.reporters = hand_over(&property.reporters, former, receiver);
            let name = property.name.clone();
            match state.set_property(record_id, name.as_str(), property) {
                Ok(()) => {},
                Err(e) => {
                    return Err(e);
                },
            }
            i = i + 1;
        }
        Ok(())
    }

    /// Accepts a transfer of ownership.
    pub fn accept_ownership(
        &self,
        state: &mut StateDGC,
        payload: &AnswerProposalAction,
        proposal: Proposal,
        timestamp: u64,
    ) -> (r: Result<(), ApplyError>)
        ensures
            (final(state)@, outcome(r)) == ownership_spec(
                old(state)@,
                payload@,
                proposal@,
                timestamp,
            ),
    {
        let record_id = payload.record_id.as_str();
        let receiver = payload.receiving_participant.as_str();
        let mut record = match state.get_record(record_id) {
            Ok(Some(record)) => record,
            Ok(None) => {
                return Err(reject("Record in proposal does not exist: ", record_id));
            },
            Err(e) => {
                return Err(e);
            },
        };
        if record.owners.len() == 0 {
            return Err(reject("Owner not found", ""));
        }
        let former = record.owners[record.owners.len() - 1].participant_id.clone();
        let table_name = record.table.clone();
        let ghost before = record@;
        record.owners.push(make_holder(receiver, timestamp));
        proof {
            assert(record@.owners =~= before.owners.push(holder(receiver@, timestamp)));
        }
        match state.set_record(record_id, record) {
            Ok(()) => {},
            Err(e) => {
                return Err(e);
            },
        }
        let table = match state.get_table(table_name.as_str()) {
            Ok(Some(table)) => table,
            Ok(None) => {
                return Err(reject("Table does not exist: ", table_name.as_str()));
            },
            Err(e) => {
                return Err(e);
            },
        };
        match self.transfer_reporters(
            state,
            record_id,
            &table.properties,
            former.as_str(),
            receiver,
        ) {
            Ok(()) => {},
            Err(e) => {
                return Err(e);
            },
        }
        self.accept(state, payload.proposal_id.as_str(), proposal)
    }

    /// Accepts a transfer of custodianship.
    pub fn accept_custodianship(
        &self,
        state: &mut StateDGC,
        payload: &AnswerProposalAction,
        proposal: Proposal,
        timestamp: u64,
    ) -> (r: Result<(), ApplyError>)
        ensures
            (final(state)@, outcome(r)) == custodianship_spec(
                old(state)@,
                payload@,
                proposal@,
                timestamp,
            ),
    {
        let record_id = payload.record_id.as_str();
        let mut record = match state.get_record(record_id) {
            Ok(Some(record)) => record,
            Ok(None) => {
                return Err(reject("Record in proposal does not exist: ", record_id));
            },
            Err(e) => {
                return Err(e);
            },
        };
        if record.custodians.len() == 0 {
            return Err(reject("Custodian not found", ""));
        }
        let ghost before = record@;
        record.custodians.push(make_holder(payload.receiving_participant.as_str(), timestamp));
        proof {
            assert(record@.custodians =~= before.custodians.push(
                holder(payload@.receiving_participant, timestamp),
            ));
        }
        match state.set_record(record_id, record) {
            Ok(()) => {},
            Err(e) => {
                return Err(e);
            },
        }
        self.accept(state, payload.proposal_id.as_str(), proposal)
    }

    /// Makes the receiver a reporter of the named properties.
    pub fn authorize(
        &self,
        state: &mut StateDGC,
        record_id: &str,
        names: &Vec<String>,
        receiver: &str,
    ) -> (r: Result<(), ApplyError>)
        ensures
            (final(state)@, outcome(r)) == authorize_from(
                old(state)@,
                record_id@,
                names.deep_view(),
                receiver@,
                0,
            ),
    {
        let mut i: usize = 0;
        while i < names.len()
            invariant
                i <= names.len(),
                authorize_from(old(state)@, record_id@, names.deep_view(), receiver@, 0)
                    == authorize_from(state@, record_id@, names.deep_view(), receiver@, i as int),
            decreases names.len() - i,
        {
            let name = names[i].as_str();
            let mut property = match state.get_property(record_id, name) {
                Ok(Some(property)) => property,
                Ok(None) => {
                    return Err(reject("Property does not exist", ""));
                },
                Err(e) => {
                    return Err(e);
                },
            };
            let ghost before = property@;
            let added = Reporter {
                public_key: receiver.to_owned(),
                authorized: true,
                index: #[verifier::truncate]
                (property.reporters.len() as u32),
            };
            property.reporters.push(added);
            proof {
                assert(property@.reporters =~= before.reporters.push(added@));
            }
            match state.set_property(record_id, name, property) {
                Ok(()) => {},
                Err(e) => {
                    return Err(e);
                },
            }
            i = i + 1;
        }
        Ok(())
    }

    /// Accepts the authorization of a reporter.
    pub fn accept_reporter(
        &self,
        state: &mut StateDGC,
        payload: &AnswerProposalAction,
        proposal: Proposal,
    ) -> (r: Result<(), ApplyError>)
        ensures
            (final(state)@, outcome(r)) == authorize_spec(old(state)@, payload@, proposal@),
    {
        let record_id = payload.record_id.as_str();
        let record = match state.get_record(record_id) {
            Ok(Some(record)) => record,
            Ok(None) => {
                return Err(reject("Record in proposal does not exist: ", record_id));
            },
            Err(e) => {
                return Err(e);
            },
        };
        if record.owners.len() == 0 {
            return Err(reject("Owner not found", ""));
        }
        match self.authorize(
            state,
            record_id,
            &proposal.properties,
            payload.receiving_participant.as_str(),
        ) {
            Ok(()) => {},
            Err(e) => {
                return Err(e);
            },
        }
        self.accept(state, payload.proposal_id.as_str(), proposal)
    }

    /// Accepts a proposal.
    pub fn accept_proposal(
        &self,
        state: &mut StateDGC,
        payload: &AnswerProposalAction,
        proposal: Proposal,
        signer: &str,
        timestamp: u64,
    ) -> (r: Result<(), ApplyError>)
        ensures
            (final(state)@, outcome(r)) == accept_spec(
                old(state)@,
                payload@,
                proposal@,
                signer@,
                timestamp,
            ),
    {
        if !text_eq(proposal.receiving_participant.as_str(), signer) {
            return Err(reject("Only the receiving participant can Accept a proposal", ""));
        }
        let receiver = match state.get_participant(payload.receiving_participant.as_str()) {
            Ok(Some(participant)) => participant,
            Ok(None) => {
                return Err(
                    reject(
                        "Receiving participant does not exist: ",
                        payload.receiving_participant.as_str(),
                    ),
                );
            },
            Err(e) => {
                return Err(e);
            },
        };
        match payload.role {
            Role::CreditDgc => self.accept_credit(state, payload, proposal, receiver, timestamp),
            Role::BuyDgc => Ok(()),
            Role::SellDgc => Ok(()),
            Role::TransferDgc => self.accept_transfer(state, payload, proposal, timestamp),
            Role::TransferOwnership => self.accept_ownership(state, payload, proposal, timestamp),
            Role::TransferCustodianship => self.accept_custodianship(
                state,
                payload,
                proposal,
                timestamp,
            ),
            Role::AuthorizeReporter => self.accept_reporter(state, payload, proposal),
        }
    }

    /// Answers a proposal.
    pub fn _answer_proposal(
        &self,
        payload: AnswerProposalAction,
        state: &mut StateDGC,
        signer: &str,
        timestamp: u64,
    ) -> (r: Result<(), ApplyError>)
        ensures
            (final(state)@, outcome(r)) == answer_proposal_spec(
                old(state)@,
                payload@,
                signer@,
                timestamp,
            ),
    {
        reveal(answer_proposal_spec);
        let proposal_id = payload.proposal_id.as_str();
        let mut proposal = match state.get_proposal(proposal_id) {
            Ok(Some(proposal)) => proposal,
            Ok(None) => {
                return Err(reject("Proposal does not exist", ""));
            },
            Err(e) => {
                return Err(e);
            },
        };
        let acting = match state.get_participant(signer) {
            Ok(Some(participant)) => participant,
            Ok(None) => {
                return Err(reject("Issuing participant does not exist: ", signer));
            },
            Err(e) => {
                return Err(e);
            },
        };
        match payload.response {
            Response::Cancel => {
                if !text_eq(proposal.issuing_participant.as_str(), signer) {
                    return Err(reject("Only the issuing participant can cancel a proposal", ""));
                }
                proposal.status = Status::Canceled;
                state.set_proposal(proposal_id, proposal)
            },
            Response::Reject => {
                if !text_eq(proposal.receiving_participant.as_str(), signer) {
                    return Err(
                        reject("Only the receiving participant can reject a proposal", ""),
                    );
                }
                proposal.status = Status::Rejected;
                state.set_proposal(proposal_id, proposal)
            },
            Response::AutoOpen => self.fill(
                state,
                &payload,
                proposal,
                acting,
                signer,
                timestamp,
                false,
            ),
            Response::AutoClose => self.fill(
                state,
                &payload,
                proposal,
                acting,
                signer,
                timestamp,
                true,
            ),
            Response::Accept => self.accept_proposal(state, &payload, proposal, signer, timestamp),
        }
    }
}

} // verus!
