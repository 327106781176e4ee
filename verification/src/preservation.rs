//! Every transaction keeps a valid state valid.
//!
//! The proofs follow the handlers: each write sets an entity that is valid
//! because it was built valid or was read from a valid state and changed in
//! a way that keeps it valid.

use crate::answers::{
    accept_spec, answer_proposal_spec, authorize_from, authorize_spec, credit_spec,
    custodianship_spec, exchanges_from, fill_spec, ownership_spec, reporters_after_transfer,
    transfer_reporters_from, transfer_spec,
};
use crate::container::Keyed;
use crate::handler::{apply_spec, attempt_spec, read_payload};
use crate::order::{lemma_sort_sorted, sorted, stable_sort};
use crate::participant::ParticipantModel;
use crate::payload::{
    ActionModel, AnswerProposalActionModel, CreateProposalActionModel, CreateRecordActionModel,
    RevokeReporterActionModel, UpdatePropertiesActionModel,
};
use crate::property::{
    Property, PropertyModel, PropertyPage, PropertyPageModel, ReportedValue, ReportedValueModel,
};
use crate::proposal::{ExchangeModel, ProposalModel};
use crate::proposals::create_proposal_spec;
use crate::record::{Record, RecordModel, TableModel};
use crate::records::{
    create_properties_from, create_property_step, create_record_in_table, create_record_spec,
};
use crate::registry::{create_participant_spec, create_table_spec, finalize_record_spec};
use crate::reporters::{revoke_from, revoke_reporter_spec};
use crate::schema::PropertySchemaModel;
use crate::state::{
    journal_with_exchange, journal_with_participant, journal_with_property,
    journal_with_property_page, journal_with_proposal, journal_with_record, journal_with_table,
    participant_at, property_at, property_page_at, proposal_at, record_at, CellModel,
};
use crate::updates::{
    append_spec, rotate_spec, update_properties_spec, update_property_step, updates_from,
};
use crate::validity::{
    lemma_participant_read, lemma_property_page_read, lemma_property_read, lemma_proposal_read,
    lemma_record_read, lemma_with_exchange,
    lemma_with_participant, lemma_with_property, lemma_with_property_page, lemma_with_proposal,
    lemma_with_record, lemma_with_table, state_valid,
};
use crate::value::PropertyValueModel;
use vstd::prelude::*;

verus! {

/// Whatever valid entity is set in whatever valid state, the state stays
/// valid.
pub proof fn lemma_writes_keep_valid()
    ensures
        forall|j: Seq<CellModel>, a: Seq<char>, v: ParticipantModel|
            state_valid(j) && v.public_key == a ==> state_valid(
                (#[trigger] journal_with_participant(j, a, v)).0,
            ),
        forall|j: Seq<CellModel>, a: Seq<char>, v: TableModel|
            state_valid(j) && v.name == a ==> state_valid(
                (#[trigger] journal_with_table(j, a, v)).0,
            ),
        forall|j: Seq<CellModel>, a: Seq<char>, v: ProposalModel|
            state_valid(j) && v.proposal_id == a ==> state_valid(
                (#[trigger] journal_with_proposal(j, a, v)).0,
            ),
        forall|j: Seq<CellModel>, a: Seq<char>, b: Seq<char>, v: ExchangeModel|
            state_valid(j) && v.buy_proposal_id == a && v.sell_proposal_id == b ==> state_valid(
                (#[trigger] journal_with_exchange(j, a, b, v)).0,
            ),
        forall|j: Seq<CellModel>, a: Seq<char>, v: RecordModel|
            state_valid(j) && Record::valid(v) && v.record_id == a ==> state_valid(
                (#[trigger] journal_with_record(j, a, v)).0,
            ),
        forall|j: Seq<CellModel>, a: Seq<char>, b: Seq<char>, v: PropertyModel|
            state_valid(j) && Property::valid(v) && v.record_id == a && v.name == b
                ==> state_valid((#[trigger] journal_with_property(j, a, b, v)).0),
        forall|j: Seq<CellModel>, a: Seq<char>, b: Seq<char>, p: u32, v: PropertyPageModel|
            state_valid(j) && PropertyPage::valid(v) && v.record_id == a && v.name == b
                ==> state_valid((#[trigger] journal_with_property_page(j, a, b, p, v)).0),
{
    assert forall|j: Seq<CellModel>, a: Seq<char>, v: ParticipantModel|
        state_valid(j) && v.public_key == a implies state_valid(
        (#[trigger] journal_with_participant(j, a, v)).0,
    ) by {
        lemma_with_participant(j, a, v);
    }
    assert forall|j: Seq<CellModel>, a: Seq<char>, v: TableModel|
        state_valid(j) && v.name == a implies state_valid(
        (#[trigger] journal_with_table(j, a, v)).0,
    ) by {
        lemma_with_table(j, a, v);
    }
    assert forall|j: Seq<CellModel>, a: Seq<char>, v: ProposalModel|
        state_valid(j) && v.proposal_id == a implies state_valid(
        (#[trigger] journal_with_proposal(j, a, v)).0,
    ) by {
        lemma_with_proposal(j, a, v);
    }
    assert forall|j: Seq<CellModel>, a: Seq<char>, b: Seq<char>, v: ExchangeModel|
        state_valid(j) && v.buy_proposal_id == a && v.sell_proposal_id == b implies state_valid(
        (#[trigger] journal_with_exchange(j, a, b, v)).0,
    ) by {
        lemma_with_exchange(j, a, b, v);
    }
    assert forall|j: Seq<CellModel>, a: Seq<char>, v: RecordModel|
        state_valid(j) && Record::valid(v) && v.record_id == a implies state_valid(
        (#[trigger] journal_with_record(j, a, v)).0,
    ) by {
        lemma_with_record(j, a, v);
    }
    assert forall|j: Seq<CellModel>, a: Seq<char>, b: Seq<char>, v: PropertyModel|
        state_valid(j) && Property::valid(v) && v.record_id == a && v.name == b implies state_valid(
        (#[trigger] journal_with_property(j, a, b, v)).0,
    ) by {
        lemma_with_property(j, a, b, v);
    }
    assert forall|j: Seq<CellModel>, a: Seq<char>, b: Seq<char>, p: u32, v: PropertyPageModel|
        state_valid(j) && PropertyPage::valid(v) && v.record_id == a && v.name == b
            implies state_valid(
        (#[trigger] journal_with_property_page(j, a, b, p, v)).0,
    ) by {
        lemma_with_property_page(j, a, b, p, v);
    }
}

/// Whatever is read has the key it was asked for, and is valid where it is
/// read from a valid state.
pub proof fn lemma_reads_are_valid()
    ensures
        forall|j: Seq<CellModel>, a: Seq<char>|
            (match #[trigger] record_at(j, a) {
                Ok(Some(found)) => found.record_id == a && (state_valid(j) ==> Record::valid(
                    found,
                )),
                _ => true,
            }),
        forall|j: Seq<CellModel>, a: Seq<char>, b: Seq<char>|
            (match #[trigger] property_at(j, a, b) {
                Ok(Some(found)) => found.record_id == a && found.name == b && (state_valid(j)
                    ==> Property::valid(found)),
                _ => true,
            }),
        forall|j: Seq<CellModel>, a: Seq<char>, b: Seq<char>, p: u32|
            (match #[trigger] property_page_at(j, a, b, p) {
                Ok(Some(found)) => found.record_id == a && found.name == b && (state_valid(j)
                    ==> PropertyPage::valid(found)),
                _ => true,
            }),
        forall|j: Seq<CellModel>, a: Seq<char>|
            (match #[trigger] participant_at(j, a) {
                Ok(Some(found)) => found.public_key == a,
                _ => true,
            }),
        forall|j: Seq<CellModel>, a: Seq<char>|
            (match #[trigger] proposal_at(j, a) {
                Ok(Some(found)) => found.proposal_id == a,
                _ => true,
            }),
{
    assert forall|j: Seq<CellModel>, a: Seq<char>|
        (match #[trigger] record_at(j, a) {
            Ok(Some(found)) => found.record_id == a && (state_valid(j) ==> Record::valid(found)),
            _ => true,
        }) by {
        lemma_record_read(j, a);
    }
    assert forall|j: Seq<CellModel>, a: Seq<char>, b: Seq<char>|
        (match #[trigger] property_at(j, a, b) {
            Ok(Some(found)) => found.record_id == a && found.name == b && (state_valid(j)
                ==> Property::valid(found)),
            _ => true,
        }) by {
        lemma_property_read(j, a, b);
    }
    assert forall|j: Seq<CellModel>, a: Seq<char>, b: Seq<char>, p: u32|
        (match #[trigger] property_page_at(j, a, b, p) {
            Ok(Some(found)) => found.record_id == a && found.name == b && (state_valid(j)
                ==> PropertyPage::valid(found)),
            _ => true,
        }) by {
        lemma_property_page_read(j, a, b, p);
    }
    assert forall|j: Seq<CellModel>, a: Seq<char>|
        (match #[trigger] participant_at(j, a) {
            Ok(Some(found)) => found.public_key == a,
            _ => true,
        }) by {
        lemma_participant_read(j, a);
    }
    assert forall|j: Seq<CellModel>, a: Seq<char>|
        (match #[trigger] proposal_at(j, a) {
            Ok(Some(found)) => found.proposal_id == a,
            _ => true,
        }) by {
        lemma_proposal_read(j, a);
    }
}

/// What the sort gives is sorted, whatever was sorted.
pub proof fn lemma_sorted_pages()
    ensures
        forall|s: Seq<ReportedValueModel>|
            sorted::<ReportedValue>(#[trigger] stable_sort::<ReportedValue>(s)),
{
    assert forall|s: Seq<ReportedValueModel>|
        sorted::<ReportedValue>(#[trigger] stable_sort::<ReportedValue>(s)) by {
        lemma_sort_sorted::<ReportedValue>(s);
    }
}

proof fn lemma_create_participant_keeps(
    journal: Seq<CellModel>,
    name: Seq<char>,
    signer: Seq<char>,
    timestamp: u64,
)
    requires
        state_valid(journal),
    ensures
        state_valid(create_participant_spec(journal, name, signer, timestamp).0),
{
    reveal(create_participant_spec);
    lemma_writes_keep_valid();
}

proof fn lemma_create_table_keeps(
    journal: Seq<CellModel>,
    name: Seq<char>,
    properties: Seq<PropertySchemaModel>,
)
    requires
        state_valid(journal),
    ensures
        state_valid(create_table_spec(journal, name, properties).0),
{
    reveal(create_table_spec);
    lemma_writes_keep_valid();
}

proof fn lemma_finalize_record_keeps(
    journal: Seq<CellModel>,
    record_id: Seq<char>,
    signer: Seq<char>,
)
    requires
        state_valid(journal),
    ensures
        state_valid(finalize_record_spec(journal, record_id, signer).0),
{
    reveal(finalize_record_spec);
    lemma_writes_keep_valid();
    lemma_reads_are_valid();
}

/// Creating a property and its first page keeps a valid state valid.
pub proof fn lemma_create_property_keeps(
    journal: Seq<CellModel>,
    record_id: Seq<char>,
    schemas: Seq<PropertySchemaModel>,
    provided: Seq<PropertyValueModel>,
    signer: Seq<char>,
    timestamp: u64,
    i: int,
)
    requires
        state_valid(journal),
    ensures
        state_valid(
            create_property_step(journal, record_id, schemas, provided, signer, timestamp, i).0,
        ),
{
    lemma_writes_keep_valid();
}

proof fn lemma_create_properties_keep(
    journal: Seq<CellModel>,
    record_id: Seq<char>,
    schemas: Seq<PropertySchemaModel>,
    provided: Seq<PropertyValueModel>,
    signer: Seq<char>,
    timestamp: u64,
    i: int,
)
    requires
        state_valid(journal),
    ensures
        state_valid(
            create_properties_from(journal, record_id, schemas, provided, signer, timestamp, i).0,
        ),
    decreases schemas.len() - i,
{
    if 0 <= i < schemas.len() {
        lemma_create_property_keeps(journal, record_id, schemas, provided, signer, timestamp, i);
        let (next, r) = create_property_step(
            journal,
            record_id,
            schemas,
            provided,
            signer,
            timestamp,
            i,
        );
        if r is Ok {
            lemma_create_properties_keep(
                next,
                record_id,
                schemas,
                provided,
                signer,
                timestamp,
                i + 1,
            );
        }
    }
}

proof fn lemma_create_record_keeps(
    journal: Seq<CellModel>,
    payload: CreateRecordActionModel,
    signer: Seq<char>,
    timestamp: u64,
)
    requires
        state_valid(journal),
    ensures
        state_valid(create_record_spec(journal, payload, signer, timestamp).0),
{
    reveal(create_record_spec);
    lemma_writes_keep_valid();
    assert forall|schemas: Seq<PropertySchemaModel>|
        state_valid(
            (#[trigger] create_record_in_table(journal, payload, schemas, signer, timestamp)).0,
        ) by {
        let (stored, r) = journal_with_record(
            journal,
            payload.record_id,
            crate::records::new_record(payload.record_id, payload.table, signer, timestamp),
        );
        lemma_create_properties_keep(
            stored,
            payload.record_id,
            schemas,
            payload.properties,
            signer,
            timestamp,
            0,
        );
    }
}

proof fn lemma_rotate_keeps(
    journal: Seq<CellModel>,
    record_id: Seq<char>,
    name: Seq<char>,
    property: PropertyModel,
)
    requires
        state_valid(journal),
        Property::valid(property),
        property.record_id == record_id,
        property.name == name,
    ensures
        state_valid(rotate_spec(journal, record_id, name, property).0),
{
    lemma_writes_keep_valid();
    lemma_reads_are_valid();
}

proof fn lemma_append_keeps(
    journal: Seq<CellModel>,
    record_id: Seq<char>,
    name: Seq<char>,
    property: PropertyModel,
    value: ReportedValueModel,
)
    requires
        state_valid(journal),
        Property::valid(property),
        property.record_id == record_id,
        property.name == name,
    ensures
        state_valid(append_spec(journal, record_id, name, property, value).0),
{
    lemma_writes_keep_valid();
    lemma_reads_are_valid();
    lemma_sorted_pages();
    match property_page_at(journal, record_id, name, property.current_page) {
        Ok(Some(page)) => {
            let full = crate::updates::page_with(page, value);
            let (stored, r) = journal_with_property_page(
                journal,
                record_id,
                name,
                property.current_page,
                full,
            );
            lemma_rotate_keeps(stored, record_id, name, property);
        },
        _ => {},
    }
}

proof fn lemma_update_property_keeps(
    journal: Seq<CellModel>,
    record_id: Seq<char>,
    update: PropertyValueModel,
    signer: Seq<char>,
    timestamp: u64,
)
    requires
        state_valid(journal),
    ensures
        state_valid(update_property_step(journal, record_id, update, signer, timestamp).0),
{
    lemma_reads_are_valid();
    match property_at(journal, record_id, update.name) {
        Ok(Some(property)) => {
            assert forall|value: ReportedValueModel|
                state_valid(
                    (#[trigger] append_spec(journal, record_id, update.name, property, value)).0,
                ) by {
                lemma_append_keeps(journal, record_id, update.name, property, value);
            }
        },
        _ => {},
    }
}

proof fn lemma_updates_keep(
    journal: Seq<CellModel>,
    record_id: Seq<char>,
    updates: Seq<PropertyValueModel>,
    signer: Seq<char>,
    timestamp: u64,
    i: int,
)
    requires
        state_valid(journal),
    ensures
        state_valid(updates_from(journal, record_id, updates, signer, timestamp, i).0),
    decreases updates.len() - i,
{
    if 0 <= i < updates.len() {
        lemma_update_property_keeps(journal, record_id, updates[i], signer, timestamp);
        let (next, r) = update_property_step(journal, record_id, updates[i], signer, timestamp);
        if r is Ok {
            lemma_updates_keep(next, record_id, updates, signer, timestamp, i + 1);
        }
    }
}

proof fn lemma_update_properties_keeps(
    journal: Seq<CellModel>,
    payload: UpdatePropertiesActionModel,
    signer: Seq<char>,
    timestamp: u64,
)
    requires
        state_valid(journal),
    ensures
        state_valid(update_properties_spec(journal, payload, signer, timestamp).0),
{
    reveal(update_properties_spec);
    lemma_updates_keep(journal, payload.record_id, payload.properties, signer, timestamp, 0);
}

proof fn lemma_create_proposal_keeps(
    journal: Seq<CellModel>,
    payload: CreateProposalActionModel,
    signer: Seq<char>,
    timestamp: u64,
)
    requires
        state_valid(journal),
    ensures
        state_valid(create_proposal_spec(journal, payload, signer, timestamp).0),
{
    reveal(create_proposal_spec);
    lemma_writes_keep_valid();
}

proof fn lemma_exchanges_keep(journal: Seq<CellModel>, exchanges: Seq<ExchangeModel>, i: int)
    requires
        state_valid(journal),
    ensures
        state_valid(exchanges_from(journal, exchanges, i).0),
    decreases exchanges.len() - i,
{
    lemma_writes_keep_valid();
    if 0 <= i < exchanges.len() {
        let (next, r) = journal_with_exchange(
            journal,
            exchanges[i].buy_proposal_id,
            exchanges[i].sell_proposal_id,
            exchanges[i],
        );
        if r is Ok {
            lemma_exchanges_keep(next, exchanges, i + 1);
        }
    }
}

proof fn lemma_fill_keeps(
    journal: Seq<CellModel>,
    payload: AnswerProposalActionModel,
    proposal: ProposalModel,
    issuer: ParticipantModel,
    signer: Seq<char>,
    timestamp: u64,
    closing: bool,
)
    requires
        state_valid(journal),
        proposal.proposal_id == payload.proposal_id,
        issuer.public_key == signer,
    ensures
        state_valid(fill_spec(journal, payload, proposal, issuer, signer, timestamp, closing).0),
{
    lemma_writes_keep_valid();
    assert forall|j: Seq<CellModel>| state_valid(j) implies state_valid(
        (#[trigger] exchanges_from(j, payload.exchanges, 0)).0,
    ) by {
        lemma_exchanges_keep(j, payload.exchanges, 0);
    }
}

proof fn lemma_credit_keeps(
    journal: Seq<CellModel>,
    payload: AnswerProposalActionModel,
    proposal: ProposalModel,
    receiver: ParticipantModel,
    timestamp: u64,
)
    requires
        state_valid(journal),
        proposal.proposal_id == payload.proposal_id,
        receiver.public_key == payload.receiving_participant,
    ensures
        state_valid(credit_spec(journal, payload, proposal, receiver, timestamp).0),
{
    lemma_writes_keep_valid();
}

proof fn lemma_transfer_keeps(
    journal: Seq<CellModel>,
    payload: AnswerProposalActionModel,
    proposal: ProposalModel,
    timestamp: u64,
)
    requires
        state_valid(journal),
        proposal.proposal_id == payload.proposal_id,
    ensures
        state_valid(transfer_spec(journal, payload, proposal, timestamp).0),
{
    lemma_writes_keep_valid();
    lemma_reads_are_valid();
}

proof fn lemma_custodianship_keeps(
    journal: Seq<CellModel>,
    payload: AnswerProposalActionModel,
    proposal: ProposalModel,
    timestamp: u64,
)
    requires
        state_valid(journal),
        proposal.proposal_id == payload.proposal_id,
    ensures
        state_valid(custodianship_spec(journal, payload, proposal, timestamp).0),
{
    lemma_writes_keep_valid();
    lemma_reads_are_valid();
}

proof fn lemma_transfer_reporters_keep(
    journal: Seq<CellModel>,
    record_id: Seq<char>,
    schemas: Seq<PropertySchemaModel>,
    former: Seq<char>,
    receiver: Seq<char>,
    i: int,
)
    requires
        state_valid(journal),
    ensures
        state_valid(transfer_reporters_from(journal, record_id, schemas, former, receiver, i).0),
    decreases schemas.len() - i,
{
    lemma_writes_keep_valid();
    lemma_reads_are_valid();
    if 0 <= i < schemas.len() {
        match property_at(journal, record_id, schemas[i].name) {
            Ok(Some(property)) => {
                let (next, r) = journal_with_property(
                    journal,
                    record_id,
                    property.name,
                    PropertyModel {
                        reporters: reporters_after_transfer(property.reporters, former, receiver),
                        ..property
                    },
                );
                if r is Ok {
                    lemma_transfer_reporters_keep(
                        next,
                        record_id,
                        schemas,
                        former,
                        receiver,
                        i + 1,
                    );
                }
            },
            _ => {},
        }
    }
}

proof fn lemma_authorize_keeps(
    journal: Seq<CellModel>,
    record_id: Seq<char>,
    names: Seq<Seq<char>>,
    receiver: Seq<char>,
    i: int,
)
    requires
        state_valid(journal),
    ensures
        state_valid(authorize_from(journal, record_id, names, receiver, i).0),
    decreases names.len() - i,
{
    lemma_writes_keep_valid();
    lemma_reads_are_valid();
    if 0 <= i < names.len() {
        match property_at(journal, record_id, names[i]) {
            Ok(Some(property)) => {
                let (next, r) = journal_with_property(
                    journal,
                    record_id,
                    names[i],
                    PropertyModel {
                        reporters: property.reporters.push(
                            crate::answers::added_reporter(receiver, property.reporters.len()),
                        ),
                        ..property
                    },
                );
                if r is Ok {
                    lemma_authorize_keeps(next, record_id, names, receiver, i + 1);
                }
            },
            _ => {},
        }
    }
}

proof fn lemma_ownership_keeps(
    journal: Seq<CellModel>,
    payload: AnswerProposalActionModel,
    proposal: ProposalModel,
    timestamp: u64,
)
    requires
        state_valid(journal),
        proposal.proposal_id == payload.proposal_id,
    ensures
        state_valid(ownership_spec(journal, payload, proposal, timestamp).0),
{
    lemma_writes_keep_valid();
    lemma_reads_are_valid();
    assert forall|j: Seq<CellModel>, schemas: Seq<PropertySchemaModel>, former: Seq<char>|
        state_valid(j) implies state_valid(
        (#[trigger] transfer_reporters_from(
            j,
            payload.record_id,
            schemas,
            former,
            payload.receiving_participant,
            0,
        )).0,
    ) by {
        lemma_transfer_reporters_keep(
            j,
            payload.record_id,
            schemas,
            former,
            payload.receiving_participant,
            0,
        );
    }
}

proof fn lemma_authorization_keeps(
    journal: Seq<CellModel>,
    payload: AnswerProposalActionModel,
    proposal: ProposalModel,
)
    requires
        state_valid(journal),
        proposal.proposal_id == payload.proposal_id,
    ensures
        state_valid(authorize_spec(journal, payload, proposal).0),
{
    lemma_writes_keep_valid();
    lemma_authorize_keeps(
        journal,
        payload.record_id,
        proposal.properties,
        payload.receiving_participant,
        0,
    );
}

proof fn lemma_accept_keeps(
    journal: Seq<CellModel>,
    payload: AnswerProposalActionModel,
    proposal: ProposalModel,
    signer: Seq<char>,
    timestamp: u64,
)
    requires
        state_valid(journal),
        proposal.proposal_id == payload.proposal_id,
    ensures
        state_valid(accept_spec(journal, payload, proposal, signer, timestamp).0),
{
    lemma_reads_are_valid();
    match participant_at(journal, payload.receiving_participant) {
        Ok(Some(receiver)) => {
            lemma_credit_keeps(journal, payload, proposal, receiver, timestamp);
            lemma_transfer_keeps(journal, payload, proposal, timestamp);
            lemma_ownership_keeps(journal, payload, proposal, timestamp);
            lemma_custodianship_keeps(journal, payload, proposal, timestamp);
            lemma_authorization_keeps(journal, payload, proposal);
        },
        _ => {},
    }
}

proof fn lemma_answer_proposal_keeps(
    journal: Seq<CellModel>,
    payload: AnswerProposalActionModel,
    signer: Seq<char>,
    timestamp: u64,
)
    requires
        state_valid(journal),
    ensures
        state_valid(answer_proposal_spec(journal, payload, signer, timestamp).0),
{
    reveal(answer_proposal_spec);
    lemma_writes_keep_valid();
    lemma_reads_are_valid();
    match (proposal_at(journal, payload.proposal_id), participant_at(journal, signer)) {
        (Ok(Some(proposal)), Ok(Some(acting))) => {
            lemma_fill_keeps(journal, payload, proposal, acting, signer, timestamp, false);
            lemma_fill_keeps(journal, payload, proposal, acting, signer, timestamp, true);
            lemma_accept_keeps(journal, payload, proposal, signer, timestamp);
        },
        _ => {},
    }
}

proof fn lemma_revoke_keeps(
    journal: Seq<CellModel>,
    record_id: Seq<char>,
    names: Seq<Seq<char>>,
    reporter_id: Seq<char>,
    i: int,
)
    requires
        state_valid(journal),
    ensures
        state_valid(revoke_from(journal, record_id, names, reporter_id, i).0),
    decreases names.len() - i,
{
    lemma_writes_keep_valid();
    lemma_reads_are_valid();
    if 0 <= i < names.len() {
        match property_at(journal, record_id, names[i]) {
            Ok(Some(property)) => {
                let (next, r) = journal_with_property(
                    journal,
                    record_id,
                    names[i],
                    PropertyModel {
                        reporters: crate::reporters::reporters_after_revocation(
                            property.reporters,
                            reporter_id,
                        ),
                        ..property
                    },
                );
                if r is Ok {
                    lemma_revoke_keeps(next, record_id, names, reporter_id, i + 1);
                }
            },
            _ => {},
        }
    }
}

proof fn lemma_revoke_reporter_keeps(
    journal: Seq<CellModel>,
    payload: RevokeReporterActionModel,
    signer: Seq<char>,
)
    requires
        state_valid(journal),
    ensures
        state_valid(revoke_reporter_spec(journal, payload, signer).0),
{
    reveal(revoke_reporter_spec);
    lemma_revoke_keeps(journal, payload.record_id, payload.properties, payload.reporter_id, 0);
}

/// Every attempt keeps a valid state valid, whether it succeeds or fails.
pub proof fn lemma_attempt_keeps_state_valid(
    journal: Seq<CellModel>,
    payload: Seq<u8>,
    signer: Seq<char>,
)
    requires
        state_valid(journal),
    ensures
        state_valid(attempt_spec(journal, payload, signer).0),
{
    match read_payload(payload) {
        Err(_) => {},
        Ok(p) => {
            match p.action {
                ActionModel::CreateParticipant(a) => {
                    lemma_create_participant_keeps(journal, a.name, signer, p.timestamp);
                },
                ActionModel::CreateRecord(a) => {
                    lemma_create_record_keeps(journal, a, signer, p.timestamp);
                },
                ActionModel::FinalizeRecord(a) => {
                    lemma_finalize_record_keeps(journal, a.record_id, signer);
                },
                ActionModel::CreateTable(a) => {
                    lemma_create_table_keeps(journal, a.name, a.properties);
                },
                ActionModel::UpdateProperties(a) => {
                    lemma_update_properties_keeps(journal, a, signer, p.timestamp);
                },
                ActionModel::CreateProposal(a) => {
                    lemma_create_proposal_keeps(journal, a, signer, p.timestamp);
                },
                ActionModel::AnswerProposal(a) => {
                    lemma_answer_proposal_keeps(journal, a, signer, p.timestamp);
                },
                ActionModel::RevokeReporter(a) => {
                    lemma_revoke_reporter_keeps(journal, a, signer);
                },
            }
        },
    }
}

/// Every transaction keeps a valid state valid: where every container was
/// sorted by natural key with no key twice, every record had an owner and a
/// custodian, every property had a reporter and a current page between 1 and
/// 256, and the values of every page were in order, the same holds after the
/// transaction.
pub proof fn law_transactions_keep_state_valid(
    journal: Seq<CellModel>,
    payload: Seq<u8>,
    signer: Seq<char>,
)
    requires
        state_valid(journal),
    ensures
        state_valid(apply_spec(journal, payload, signer).0),
{
    lemma_attempt_keeps_state_valid(journal, payload, signer);
}

} // verus!
