//! Registering participants and tables, and making records final.

use crate::error::{outcome, reject, rejection, ApplyError, ApplyErrorModel};
use crate::handler::TransactionHandlerDGC;
use crate::participant::{CreditBalanceModel, Participant, ParticipantModel};
use crate::payload::{CreateParticipantAction, CreateTableAction, FinalizeRecordAction};
use crate::record::{Record, RecordModel, Table, TableModel};
use crate::schema::PropertySchemaModel;
use crate::state::{
    journal_with_participant, journal_with_record, journal_with_table, participant_at, record_at,
    table_at, CellModel, StateDGC, Step,
};
use crate::text::text_eq;
use vstd::prelude::*;
use vstd::string::*;

verus! {

/// A participant that has just been registered.
pub open spec fn new_participant(
    signer: Seq<char>,
    name: Seq<char>,
    timestamp: u64,
) -> ParticipantModel {
    ParticipantModel {
        public_key: signer,
        name,
        timestamp,
        dg_coin_balances: Seq::empty(),
        dg_coin_credits: Seq::empty(),
    }
}

/// What registering a participant does: it fails where the signer is
/// registered already, and else stores the participant under the signer's key.
#[verifier::opaque]
pub open spec fn create_participant_spec(
    journal: Seq<CellModel>,
    name: Seq<char>,
    signer: Seq<char>,
    timestamp: u64,
) -> Step {
    match participant_at(journal, signer) {
        Err(e) => (journal, Err(e)),
        Ok(Some(_)) => (journal, Err(rejection("Participant already exists: "@, name))),
        Ok(None) => journal_with_participant(
            journal,
            signer,
            new_participant(signer, name, timestamp),
        ),
    }
}

/// What creating a table does: it fails where a table of the name exists, and
/// else stores the schema as it was given.
#[verifier::opaque]
pub open spec fn create_table_spec(
    journal: Seq<CellModel>,
    name: Seq<char>,
    properties: Seq<PropertySchemaModel>,
) -> Step {
    match table_at(journal, name) {
        Err(e) => (journal, Err(e)),
        Ok(Some(_)) => (journal, Err(rejection("Table already exists: "@, name))),
        Ok(None) => journal_with_table(journal, name, TableModel { name, properties }),
    }
}

/// Whether a participant is the current owner of a record.
pub open spec fn is_owner(record: RecordModel, who: Seq<char>) -> bool {
    record.owners.len() > 0 && record.owners.last().participant_id == who
}

/// Whether a participant is the current custodian of a record.
pub open spec fn is_custodian(record: RecordModel, who: Seq<char>) -> bool {
    record.custodians.len() > 0 && record.custodians.last().participant_id == who
}

/// Why a record cannot be made final by the signer, if it cannot.
pub open spec fn finalize_fault(record: RecordModel, signer: Seq<char>) -> Option<ApplyErrorModel> {
    if record.owners.len() == 0 {
        Some(rejection("Owner was not found"@, ""@))
    } else if record.custodians.len() == 0 {
        Some(rejection("Custodian was not found"@, ""@))
    } else if !is_owner(record, signer) || !is_custodian(record, signer) {
        Some(rejection("Must be owner and custodian to finalize record"@, ""@))
    } else if record.field_final {
        Some(rejection("Record is already final: "@, record.record_id))
    } else {
        None
    }
}

/// What making a record final does: the record must exist, the signer must be
/// both its current owner and its current custodian, and it must not be final
/// yet; then it is stored again, final, with nothing else changed.
#[verifier::opaque]
pub open spec fn finalize_record_spec(
    journal: Seq<CellModel>,
    record_id: Seq<char>,
    signer: Seq<char>,
) -> Step {
    match record_at(journal, record_id) {
        Err(e) => (journal, Err(e)),
        Ok(None) => (journal, Err(rejection("Record does not exist: "@, record_id))),
        Ok(Some(record)) => match finalize_fault(record, signer) {
            Some(e) => (journal, Err(e)),
            None => journal_with_record(
                journal,
                record_id,
                RecordModel { field_final: true, ..record },
            ),
        },
    }
}

impl TransactionHandlerDGC {
    /// Registers the signer as a participant.
    pub fn _create_participant(
        &self,
        payload: CreateParticipantAction,
        state: &mut StateDGC,
        signer: &str,
        timestamp: u64,
    ) -> (r: Result<(), ApplyError>)
        ensures
            (final(state)@, outcome(r)) == create_participant_spec(
                old(state)@,
                payload@.name,
                signer@,
                timestamp,
            ),
    {
        reveal(create_participant_spec);
        match state.get_participant(signer) {
            Ok(Some(_)) => {
                return Err(reject("Participant already exists: ", payload.name.as_str()));
            },
            Ok(None) => {},
            Err(e) => {
                return Err(e);
            },
        }
        let participant = Participant {
            public_key: signer.to_owned(),
            name: payload.name,
            timestamp,
            dg_coin_balances: Vec::new(),
            dg_coin_credits: Vec::new(),
        };
        proof {
            assert(participant@.dg_coin_balances =~= Seq::<CreditBalanceModel>::empty());
            assert(participant@.dg_coin_credits =~= Seq::<CreditBalanceModel>::empty());
        }
        state.set_participant(signer, participant)
    }

    /// Creates a table. The signer need not be a registered participant.
    pub fn _create_table(
        &self,
        payload: CreateTableAction,
        state: &mut StateDGC,
        signer: &str,
    ) -> (r: Result<(), ApplyError>)
        ensures
            (final(state)@, outcome(r)) == create_table_spec(
                old(state)@,
                payload@.name,
                payload@.properties,
            ),
    {
        reveal(create_table_spec);
        match state.get_table(payload.name.as_str()) {
            Ok(Some(_)) => {
                return Err(reject("Table already exists: ", payload.name.as_str()));
            },
            Ok(None) => {},
            Err(e) => {
                return Err(e);
            },
        }
        let name = payload.name.clone();
        let table = Table { name: payload.name, properties: payload.properties };
        state.set_table(name.as_str(), table)
    }

    /// Makes a record final.
    pub fn _finalize_record(
        &self,
        payload: FinalizeRecordAction,
        state: &mut StateDGC,
        signer: &str,
    ) -> (r: Result<(), ApplyError>)
        ensures
            (final(state)@, outcome(r)) == finalize_record_spec(
                old(state)@,
                payload@.record_id,
                signer@,
            ),
    {
        reveal(finalize_record_spec);
        let record_id = payload.record_id.as_str();
        let mut record = match state.get_record(record_id) {
            Ok(Some(record)) => record,
            Ok(None) => {
                return Err(reject("Record does not exist: ", record_id));
            },
            Err(e) => {
                return Err(e);
            },
        };
        if record.owners.len() == 0 {
            return Err(reject("Owner was not found", ""));
        }
        if record.custodians.len() == 0 {
            return Err(reject("Custodian was not found", ""));
        }
        let owner = &record.owners[record.owners.len() - 1];
        let custodian = &record.custodians[record.custodians.len() - 1];
        if !text_eq(owner.participant_id.as_str(), signer) || !text_eq(
            custodian.participant_id.as_str(),
            signer,
        ) {
            return Err(reject("Must be owner and custodian to finalize record", ""));
        }
        if record.field_final {
            return Err(reject("Record is already final: ", record.record_id.as_str()));
        }
        record.field_final = true;
        state.set_record(record_id, record)
    }
}

} // verus!
