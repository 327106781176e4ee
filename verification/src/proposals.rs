//! Opening proposals.
//!
//! A proposal asks another participant to take over a record, to hold it, to
//! report on it, or to accept coins; or it is an order on the coin market.
//! Opening one checks what can be checked at once: that the participants
//! exist, that the signer may dispose of the record, and that it has the
//! coins that it offers.

use crate::error::{outcome, reject, rejection, ApplyError, ApplyErrorModel};
use crate::handler::TransactionHandlerDGC;
use crate::ledger::{covers, covers_with_credit};
use crate::participant::ParticipantModel;
use crate::payload::{CreateProposalAction, CreateProposalActionModel};
use crate::proposal::{Proposal, ProposalModel, Role, Status};
use crate::record::{Record, RecordModel};
use crate::registry::{is_custodian, is_owner};
use crate::state::{
    journal_with_proposal, participant_at, record_at, CellModel, StateDGC, Step,
};
use crate::text::text_eq;
use vstd::prelude::*;
use vstd::string::*;

verus! {

/// Whether a proposal of the role is made to a participant that must exist.
pub open spec fn needs_receiver(role: Role) -> bool {
    role == Role::TransferOwnership || role == Role::AuthorizeReporter || role
        == Role::TransferCustodianship || role == Role::CreditDgc || role == Role::TransferDgc
}

/// The rejection of an offer of more coins than the signer has.
pub open spec fn not_enough(signer: Seq<char>) -> ApplyErrorModel {
    rejection("The dg coin balance of issuing participant is not enough: "@, signer)
}

/// Whether the participant that a proposal is made to exists, where the role
/// asks for it.
pub open spec fn receiver_check(
    journal: Seq<CellModel>,
    role: Role,
    receiver: Seq<char>,
) -> Result<(), ApplyErrorModel> {
    if needs_receiver(role) {
        match participant_at(journal, receiver) {
            Err(e) => Err(e),
            Ok(None) => Err(rejection("Receiving participant does not exist: "@, receiver)),
            Ok(Some(_)) => Ok(()),
        }
    } else {
        Ok(())
    }
}

/// Why the signer cannot dispose of a record as its owner, if it cannot.
pub open spec fn owner_fault(record: RecordModel, signer: Seq<char>) -> Option<ApplyErrorModel> {
    if record.field_final {
        Some(rejection("Record is final: "@, record.record_id))
    } else if record.owners.len() == 0 {
        Some(rejection("Owner not found"@, ""@))
    } else if !is_owner(record, signer) {
        Some(rejection("Only the owner can create a proposal to change ownership"@, ""@))
    } else {
        None
    }
}

/// Why the signer cannot dispose of a record as its custodian, if it cannot.
pub open spec fn custodian_fault(record: RecordModel, signer: Seq<char>) -> Option<
    ApplyErrorModel,
> {
    if record.field_final {
        Some(rejection("Record is final: "@, record.record_id))
    } else if record.custodians.len() == 0 {
        Some(rejection("Custodian not found"@, ""@))
    } else if !is_custodian(record, signer) {
        Some(
            rejection("Only the custodian can create a proposal to change custodianship"@, ""@),
        )
    } else {
        None
    }
}

/// Whether a role disposes of a record as its owner does.
pub open spec fn needs_owner(role: Role) -> bool {
    role == Role::TransferOwnership || role == Role::AuthorizeReporter
}

/// Whether the signer may dispose of the record, where the role asks for it:
/// the record must exist and must not be final, and the signer must be its
/// current owner, or for a transfer of custodianship its current custodian.
pub open spec fn holder_check(
    journal: Seq<CellModel>,
    role: Role,
    record_id: Seq<char>,
    signer: Seq<char>,
) -> Result<(), ApplyErrorModel> {
    if needs_owner(role) || role == Role::TransferCustodianship {
        match record_at(journal, record_id) {
            Err(e) => Err(e),
            Ok(None) => Err(rejection("Record does not exist: "@, record_id)),
            Ok(Some(record)) => {
                let fault = if needs_owner(role) {
                    owner_fault(record, signer)
                } else {
                    custodian_fault(record, signer)
                };
                match fault {
                    Some(e) => Err(e),
                    None => Ok(()),
                }
            },
        }
    } else {
        Ok(())
    }
}

/// Why the signer cannot offer the amount, if it cannot: an order to sell
/// must be covered by balance and credit together, a transfer by the balance
/// alone.
pub open spec fn funds_fault(
    issuer: ParticipantModel,
    role: Role,
    amount: i64,
    signer: Seq<char>,
) -> Option<ApplyErrorModel> {
    if role == Role::SellDgc && !covers_with_credit(issuer, amount) {
        Some(not_enough(signer))
    } else if role == Role::TransferDgc && !covers(issuer, amount) {
        Some(not_enough(signer))
    } else {
        None
    }
}

/// A proposal that has just been opened.
pub open spec fn new_proposal(
    payload: CreateProposalActionModel,
    signer: Seq<char>,
    timestamp: u64,
) -> ProposalModel {
    ProposalModel {
        proposal_id: payload.proposal_id,
        status: Status::Open,
        role: payload.role,
        timestamp,
        issuing_participant: signer,
        receiving_participant: payload.receiving_participant,
        record_id: payload.record_id,
        properties: payload.properties,
        dg_coin_amount: payload.dg_coin_amount,
        dg_coin_exchanged: 0,
        currency_iso_codes: payload.currency_iso_codes,
        currency_quote_amount: payload.currency_quote_amount,
    }
}

/// What opening a proposal does.
#[verifier::opaque]
pub open spec fn create_proposal_spec(
    journal: Seq<CellModel>,
    payload: CreateProposalActionModel,
    signer: Seq<char>,
    timestamp: u64,
) -> Step {
    match participant_at(journal, signer) {
        Err(e) => (journal, Err(e)),
        Ok(None) => (journal, Err(rejection("Issuing participant does not exist: "@, signer))),
        Ok(Some(issuer)) => match receiver_check(
            journal,
            payload.role,
            payload.receiving_participant,
        ) {
            Err(e) => (journal, Err(e)),
            Ok(()) => match holder_check(journal, payload.role, payload.record_id, signer) {
                Err(e) => (journal, Err(e)),
                Ok(()) => match funds_fault(issuer, payload.role, payload.dg_coin_amount, signer) {
                    Some(e) => (journal, Err(e)),
                    None => journal_with_proposal(
                        journal,
                        payload.proposal_id,
                        new_proposal(payload, signer, timestamp),
                    ),
                },
            },
        },
    }
}

impl TransactionHandlerDGC {
    /// Checks that the participant that a proposal is made to exists.
    pub fn check_receiver(&self, state: &StateDGC, role: Role, receiver: &str) -> (r: Result<
        (),
        ApplyError,
    >)
        ensures
            outcome(r) == receiver_check(state@, role, receiver@),
    {
        if role == Role::TransferOwnership || role == Role::AuthorizeReporter || role
            == Role::TransferCustodianship || role == Role::CreditDgc || role == Role::TransferDgc {
            match state.get_participant(receiver) {
                Ok(Some(_)) => Ok(()),
                Ok(None) => Err(reject("Receiving participant does not exist: ", receiver)),
                Err(e) => Err(e),
            }
        } else {
            Ok(())
        }
    }

    /// Checks that the signer may dispose of the record of a proposal.
    pub fn check_holder(&self, state: &StateDGC, role: Role, record_id: &str, signer: &str) -> (r:
        Result<(), ApplyError>)
        ensures
            outcome(r) == holder_check(state@, role, record_id@, signer@),
    {
        let as_owner = role == Role::TransferOwnership || role == Role::AuthorizeReporter;
        if !as_owner && role != Role::TransferCustodianship {
            return Ok(());
        }
        let record = match state.get_record(record_id) {
            Ok(Some(record)) => record,
            Ok(None) => {
                return Err(reject("Record does not exist: ", record_id));
            },
            Err(e) => {
                return Err(e);
            },
        };
        if record.field_final {
            return Err(reject("Record is final: ", record.record_id.as_str()));
        }
        if as_owner {
            if record.owners.len() == 0 {
                return Err(reject("Owner not found", ""));
            }
            let owner = &record.owners[record.owners.len() - 1];
            if !text_eq(owner.participant_id.as_str(), signer) {
                return Err(
                    reject("Only the owner can create a proposal to change ownership", ""),
                );
            }
        } else {
            if record.custodians.len() == 0 {
                return Err(reject("Custodian not found", ""));
            }
            let custodian = &record.custodians[record.custodians.len() - 1];
            if !text_eq(custodian.participant_id.as_str(), signer) {
                return Err(
                    reject(
                        "Only the custodian can create a proposal to change custodianship",
                        "",
                    ),
                );
            }
        }
        Ok(())
    }

    /// Opens a proposal.
    pub fn _create_proposal(
        &self,
        payload: CreateProposalAction,
        state: &mut StateDGC,
        signer: &str,
        timestamp: u64,
    ) -> (r: Result<(), ApplyError>)
        ensures
            (final(state)@, outcome(r)) == create_proposal_spec(
                old(state)@,
                payload@,
                signer@,
                timestamp,
            ),
    {
        reveal(create_proposal_spec);
        let role = payload.role;
        let issuer = match state.get_participant(signer) {
            Ok(Some(participant)) => participant,
            Ok(None) => {
                return Err(reject("Issuing participant does not exist: ", signer));
            },
            Err(e) => {
                return Err(e);
            },
        };
        match self.check_receiver(state, role, payload.receiving_participant.as_str()) {
            Ok(()) => {},
            Err(e) => {
                return Err(e);
            },
        }
        match self.check_holder(state, role, payload.record_id.as_str(), signer) {
            Ok(()) => {},
            Err(e) => {
                return Err(e);
            },
        }
        if role == Role::SellDgc && !issuer.covers_with_credit(payload.dg_coin_amount) {
            return Err(
                reject("The dg coin balance of issuing participant is not enough: ", signer),
            );
        }
        if role == Role::TransferDgc && issuer.balance() < payload.dg_coin_amount {
            return Err(
                reject("The dg coin balance of issuing participant is not enough: ", signer),
            );
        }
        let proposal_id = payload.proposal_id.clone();
        let proposal = Proposal {
            proposal_id: payload.proposal_id,
            status: Status::Open,
            role,
            timestamp,
            issuing_participant: signer.to_owned(),
            receiving_participant: payload.receiving_participant,
            record_id: payload.record_id,
            properties: payload.properties,
            dg_coin_amount: payload.dg_coin_amount,
            dg_coin_exchanged: 0,
            currency_iso_codes: payload.currency_iso_codes,
            currency_quote_amount: payload.currency_quote_amount,
        };
        state.set_proposal(proposal_id.as_str(), proposal)
    }
}

} // verus!
