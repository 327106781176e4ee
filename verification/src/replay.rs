//! Attempts on a partly loaded state.
//!
//! The host loads the addresses that a transaction asks for, one after the
//! other, and attempts the transaction again each time. An attempt that does
//! not ask for another address has read only what was loaded, so that what
//! else the state holds does not matter to it: on every state that holds at
//! least what was loaded, it writes the same cells and gives the same result.

use crate::addressing::{
    exchange_address, participant_address, property_address, proposal_address, record_address,
    table_address,
};
use crate::answers::{
    accept_spec, added_reporter, answer_proposal_spec, authorize_from, authorize_spec,
    balance_after_fill, credit_spec, custodianship_spec, exchanges_from, fill_spec, filled,
    ownership_spec, receive_spec, reporters_after_transfer, transfer_reporters_from,
    transfer_spec, with_status,
};
use crate::ledger::{covers, current_amount, with_balance};
use crate::container::Keyed;
use crate::error::ApplyErrorModel;
use crate::participant::{Participant, ParticipantModel};
use crate::handler::{apply_spec, attempt_spec, read_payload};
use crate::payload::{
    ActionModel, AnswerProposalActionModel, CreateProposalActionModel, CreateRecordActionModel,
    Response, RevokeReporterActionModel, UpdatePropertiesActionModel,
};
use crate::proposals::create_proposal_spec;
use crate::records::{
    create_properties_from, create_property_step, create_record_in_table, create_record_spec,
    holder, new_record,
};
use crate::reporters::{
    reporters_after_revocation, revocable_from, revoke_from, revoke_reporter_spec,
    revoker_fault,
};
use crate::schema::PropertySchemaModel;
use crate::updates::{
    append_spec, page_with, rotate_spec, update_properties_spec, update_property_step,
    updates_from,
};
use crate::value::PropertyValueModel;
use crate::property::{
    Property, PropertyModel, PropertyPage, PropertyPageModel, ReportedValueModel,
};
use crate::proposal::{Exchange, ExchangeModel, Proposal, ProposalModel, Role, Status};
use crate::record::{Record, RecordModel, Table, TableModel};
use crate::registry::{create_participant_spec, create_table_spec, finalize_record_spec};
use crate::state::{
    journal_with_exchange, journal_with_participant, journal_with_property,
    journal_with_property_page, journal_with_proposal, journal_with_record, journal_with_table,
    participant_at, property_at, property_page_at, proposal_at, record_at, table_at,
};
use crate::state::{
    content, entry_at, journal_with, lemma_content_push, stored_entries, CellModel, Step,
};
use crate::text::Key;
use vstd::prelude::*;

verus! {

/// Whether a state holds at every address of which another state speaks what
/// that state holds there.
pub open spec fn agrees(small: Seq<CellModel>, large: Seq<CellModel>) -> bool {
    forall|a: Seq<char>|
        (#[trigger] content(small, a)) is Some ==> content(large, a) == content(small, a)
}

/// Whether a result asks for an address that is not loaded.
pub open spec fn asks<V>(r: Result<V, ApplyErrorModel>) -> bool {
    r matches Err(ApplyErrorModel::StateNotLoaded(_))
}

/// Whether a step on a larger state did what it did on a smaller one: it
/// appended the same cells and gave the same result, and the states after it
/// agree as the states before it did.
pub open spec fn same_step(small: Seq<CellModel>, s: Step, large: Seq<CellModel>, l: Step) -> bool {
    &&& l.1 == s.1
    &&& small.len() <= s.0.len()
    &&& s.0.take(small.len() as int) == small
    &&& l.0 == large + s.0.skip(small.len() as int)
    &&& agrees(s.0, l.0)
}

/// A step that appends nothing is the same on every state that agrees.
pub proof fn lemma_same_step_still(
    small: Seq<CellModel>,
    large: Seq<CellModel>,
    r: Result<(), ApplyErrorModel>,
)
    requires
        agrees(small, large),
    ensures
        same_step(small, (small, r), large, (large, r)),
{
    assert(small.take(small.len() as int) =~= small);
    assert(large + small.skip(small.len() as int) =~= large);
}

/// Steps that are the same one after the other are the same as one step.
pub proof fn lemma_same_step_then(
    small: Seq<CellModel>,
    mid_small: Seq<CellModel>,
    s: Step,
    large: Seq<CellModel>,
    mid_large: Seq<CellModel>,
    l: Step,
)
    requires
        same_step(small, (mid_small, Ok(())), large, (mid_large, Ok(()))),
        same_step(mid_small, s, mid_large, l),
    ensures
        same_step(small, s, large, l),
{
    assert(s.0.take(small.len() as int) =~= mid_small.take(small.len() as int));
    assert(s.0.skip(small.len() as int) =~= mid_small.skip(small.len() as int) + s.0.skip(
        mid_small.len() as int,
    ));
    assert(l.0 =~= large + s.0.skip(small.len() as int));
}

/// What is read from a state is read from every state that agrees with it,
/// unless the address is not loaded.
pub proof fn lemma_same_read<T: Keyed>(
    small: Seq<CellModel>,
    large: Seq<CellModel>,
    address: Seq<char>,
    key: Key,
)
    requires
        agrees(small, large),
    ensures
        !asks(entry_at::<T>(small, address, key)) ==> entry_at::<T>(large, address, key)
            == entry_at::<T>(small, address, key),
        !asks(stored_entries::<T>(small, address)) ==> stored_entries::<T>(large, address)
            == stored_entries::<T>(small, address),
{
    assert(content(small, address) is Some ==> content(large, address) == content(
        small,
        address,
    ));
}

/// What is written to a state is written to every state that agrees with it,
/// unless the address is not loaded.
pub proof fn lemma_same_write<T: Keyed>(
    small: Seq<CellModel>,
    large: Seq<CellModel>,
    address: Seq<char>,
    key: Key,
    value: T::V,
)
    requires
        agrees(small, large),
        !asks(journal_with::<T>(small, address, key, value).1),
    ensures
        same_step(
            small,
            journal_with::<T>(small, address, key, value),
            large,
            journal_with::<T>(large, address, key, value),
        ),
{
    lemma_same_read::<T>(small, large, address, key);
    let s = journal_with::<T>(small, address, key, value);
    let l = journal_with::<T>(large, address, key, value);
    match stored_entries::<T>(small, address) {
        Ok(entries) => {
            let cell = s.0.last();
            assert(s.0 == small.push(cell));
            assert(l.0 == large.push(cell));
            assert(s.0.take(small.len() as int) =~= small);
            assert(s.0.skip(small.len() as int) =~= seq![cell]);
            assert(l.0 =~= large + seq![cell]);
            assert forall|a: Seq<char>| (#[trigger] content(s.0, a)) is Some implies content(
                l.0,
                a,
            ) == content(s.0, a) by {
                lemma_content_push(small, cell, a);
                lemma_content_push(large, cell, a);
            }
        },
        Err(e) => {
            lemma_same_step_still(small, large, Err(e));
        },
    }
}

/// A write after steps that were the same is the same.
pub proof fn lemma_then_write<T: Keyed>(
    small: Seq<CellModel>,
    large: Seq<CellModel>,
    s: Step,
    l: Step,
    address: Seq<char>,
    key: Key,
    value: T::V,
)
    requires
        same_step(small, s, large, l),
        s.1 is Ok,
        !asks(journal_with::<T>(s.0, address, key, value).1),
    ensures
        same_step(
            small,
            journal_with::<T>(s.0, address, key, value),
            large,
            journal_with::<T>(l.0, address, key, value),
        ),
{
    lemma_same_write::<T>(s.0, l.0, address, key, value);
    lemma_same_step_then(
        small,
        s.0,
        journal_with::<T>(s.0, address, key, value),
        large,
        l.0,
        journal_with::<T>(l.0, address, key, value),
    );
}

/// Whatever is read from whatever state is read from every state that
/// agrees with it, unless the address is not loaded.
pub proof fn lemma_same_reads()
    ensures
        forall|s: Seq<CellModel>, l: Seq<CellModel>, a: Seq<char>|
            #![trigger participant_at(s, a), participant_at(l, a)]
            agrees(s, l) && !asks(participant_at(s, a)) ==> participant_at(
                l,
                a,
            ) == participant_at(s, a),
        forall|s: Seq<CellModel>, l: Seq<CellModel>, a: Seq<char>|
            #![trigger table_at(s, a), table_at(l, a)]
            agrees(s, l) && !asks(table_at(s, a)) ==> table_at(l, a) == table_at(s, a),
        forall|s: Seq<CellModel>, l: Seq<CellModel>, a: Seq<char>|
            #![trigger record_at(s, a), record_at(l, a)]
            agrees(s, l) && !asks(record_at(s, a)) ==> record_at(l, a) == record_at(s, a),
        forall|s: Seq<CellModel>, l: Seq<CellModel>, a: Seq<char>, b: Seq<char>|
            #![trigger property_at(s, a, b), property_at(l, a, b)]
            agrees(s, l) && !asks(property_at(s, a, b)) ==> property_at(
                l,
                a,
                b,
            ) == property_at(s, a, b),
        forall|s: Seq<CellModel>, l: Seq<CellModel>, a: Seq<char>, b: Seq<char>, p: u32|
            #![trigger property_page_at(s, a, b, p), property_page_at(l, a, b, p)]
            agrees(s, l) && !asks(property_page_at(s, a, b, p))
                ==> property_page_at(l, a, b, p) == property_page_at(s, a, b, p),
        forall|s: Seq<CellModel>, l: Seq<CellModel>, a: Seq<char>|
            #![trigger proposal_at(s, a), proposal_at(l, a)]
            agrees(s, l) && !asks(proposal_at(s, a)) ==> proposal_at(l, a) == proposal_at(s, a),
{
    assert forall|s: Seq<CellModel>, l: Seq<CellModel>, a: Seq<char>|
        #![trigger participant_at(s, a), participant_at(l, a)]
        agrees(s, l) && !asks(participant_at(s, a)) implies participant_at(
            l,
            a,
        ) == participant_at(s, a) by {
        lemma_same_read::<Participant>(s, l, participant_address(a), (a, ""@));
    }
    assert forall|s: Seq<CellModel>, l: Seq<CellModel>, a: Seq<char>|
        #![trigger table_at(s, a), table_at(l, a)]
        agrees(s, l) && !asks(table_at(s, a)) implies table_at(l, a) == table_at(s, a) by {
        lemma_same_read::<Table>(s, l, table_address(a), (a, ""@));
    }
    assert forall|s: Seq<CellModel>, l: Seq<CellModel>, a: Seq<char>|
        #![trigger record_at(s, a), record_at(l, a)]
        agrees(s, l) && !asks(record_at(s, a)) implies record_at(l, a) == record_at(s, a) by {
        lemma_same_read::<Record>(s, l, record_address(a), (a, ""@));
    }
    assert forall|s: Seq<CellModel>, l: Seq<CellModel>, a: Seq<char>, b: Seq<char>|
        #![trigger property_at(s, a, b), property_at(l, a, b)]
        agrees(s, l) && !asks(property_at(s, a, b)) implies property_at(
            l,
            a,
            b,
        ) == property_at(s, a, b) by {
        lemma_same_read::<Property>(s, l, property_address(a, b, 0), (a, b));
    }
    assert forall|s: Seq<CellModel>, l: Seq<CellModel>, a: Seq<char>, b: Seq<char>, p: u32|
        #![trigger property_page_at(s, a, b, p), property_page_at(l, a, b, p)]
        agrees(s, l) && !asks(property_page_at(s, a, b, p))
            implies property_page_at(l, a, b, p) == property_page_at(s, a, b, p) by {
        lemma_same_read::<PropertyPage>(s, l, property_address(a, b, p), (a, b));
    }
    assert forall|s: Seq<CellModel>, l: Seq<CellModel>, a: Seq<char>|
        #![trigger proposal_at(s, a), proposal_at(l, a)]
        agrees(s, l) && !asks(proposal_at(s, a)) implies proposal_at(l, a) == proposal_at(s, a) by {
        lemma_same_read::<Proposal>(s, l, proposal_address(a), (a, ""@));
    }
}

/// Whatever is written to whatever state is written to every state that
/// agrees with it, unless the address is not loaded.
pub proof fn lemma_same_writes()
    ensures
        forall|s: Seq<CellModel>, l: Seq<CellModel>, a: Seq<char>, v: ParticipantModel|
            #![trigger journal_with_participant(s, a, v), journal_with_participant(l, a, v)]
            agrees(s, l) && !asks(journal_with_participant(s, a, v).1) ==> same_step(
                s,
                journal_with_participant(s, a, v),
                l,
                journal_with_participant(l, a, v),
            ),
        forall|s: Seq<CellModel>, l: Seq<CellModel>, a: Seq<char>, v: TableModel|
            #![trigger journal_with_table(s, a, v), journal_with_table(l, a, v)]
            agrees(s, l) && !asks(journal_with_table(s, a, v).1) ==> same_step(
                s,
                journal_with_table(s, a, v),
                l,
                journal_with_table(l, a, v),
            ),
        forall|s: Seq<CellModel>, l: Seq<CellModel>, a: Seq<char>, v: RecordModel|
            #![trigger journal_with_record(s, a, v), journal_with_record(l, a, v)]
            agrees(s, l) && !asks(journal_with_record(s, a, v).1) ==> same_step(
                s,
                journal_with_record(s, a, v),
                l,
                journal_with_record(l, a, v),
            ),
        forall|s: Seq<CellModel>, l: Seq<CellModel>, a: Seq<char>, b: Seq<char>, v: PropertyModel|
            #![trigger journal_with_property(s, a, b, v), journal_with_property(l, a, b, v)]
            agrees(s, l) && !asks(journal_with_property(s, a, b, v).1) ==> same_step(
                s,
                journal_with_property(s, a, b, v),
                l,
                journal_with_property(l, a, b, v),
            ),
        forall|
            s: Seq<CellModel>,
            l: Seq<CellModel>,
            a: Seq<char>,
            b: Seq<char>,
            p: u32,
            v: PropertyPageModel,
        |
            #![trigger journal_with_property_page(s, a, b, p, v),
                journal_with_property_page(l, a, b, p, v)]
            agrees(s, l) && !asks(journal_with_property_page(s, a, b, p, v).1) ==> same_step(
                s,
                journal_with_property_page(s, a, b, p, v),
                l,
                journal_with_property_page(l, a, b, p, v),
            ),
        forall|s: Seq<CellModel>, l: Seq<CellModel>, a: Seq<char>, v: ProposalModel|
            #![trigger journal_with_proposal(s, a, v), journal_with_proposal(l, a, v)]
            agrees(s, l) && !asks(journal_with_proposal(s, a, v).1) ==> same_step(
                s,
                journal_with_proposal(s, a, v),
                l,
                journal_with_proposal(l, a, v),
            ),
        forall|s: Seq<CellModel>, l: Seq<CellModel>, a: Seq<char>, b: Seq<char>, v: ExchangeModel|
            #![trigger journal_with_exchange(s, a, b, v), journal_with_exchange(l, a, b, v)]
            agrees(s, l) && !asks(journal_with_exchange(s, a, b, v).1) ==> same_step(
                s,
                journal_with_exchange(s, a, b, v),
                l,
                journal_with_exchange(l, a, b, v),
            ),
{
    assert forall|s: Seq<CellModel>, l: Seq<CellModel>, a: Seq<char>, v: ParticipantModel|
        #![trigger journal_with_participant(s, a, v), journal_with_participant(l, a, v)]
        agrees(s, l) && !asks(journal_with_participant(s, a, v).1) implies same_step(
        s,
        journal_with_participant(s, a, v),
        l,
        journal_with_participant(l, a, v),
    ) by {
        lemma_same_write::<Participant>(s, l, participant_address(a), (a, ""@), v);
    }
    assert forall|s: Seq<CellModel>, l: Seq<CellModel>, a: Seq<char>, v: TableModel|
        #![trigger journal_with_table(s, a, v), journal_with_table(l, a, v)]
        agrees(s, l) && !asks(journal_with_table(s, a, v).1) implies same_step(
        s,
        journal_with_table(s, a, v),
        l,
        journal_with_table(l, a, v),
    ) by {
        lemma_same_write::<Table>(s, l, table_address(a), (a, ""@), v);
    }
    assert forall|s: Seq<CellModel>, l: Seq<CellModel>, a: Seq<char>, v: RecordModel|
        #![trigger journal_with_record(s, a, v), journal_with_record(l, a, v)]
        agrees(s, l) && !asks(journal_with_record(s, a, v).1) implies same_step(
        s,
        journal_with_record(s, a, v),
        l,
        journal_with_record(l, a, v),
    ) by {
        lemma_same_write::<Record>(s, l, record_address(a), (a, ""@), v);
    }
    assert forall|
        s: Seq<CellModel>,
        l: Seq<CellModel>,
        a: Seq<char>,
        b: Seq<char>,
        v: PropertyModel,
    |
        #![trigger journal_with_property(s, a, b, v), journal_with_property(l, a, b, v)]
        agrees(s, l) && !asks(journal_with_property(s, a, b, v).1) implies same_step(
        s,
        journal_with_property(s, a, b, v),
        l,
        journal_with_property(l, a, b, v),
    ) by {
        lemma_same_write::<Property>(s, l, property_address(a, b, 0), (a, b), v);
    }
    assert forall|
        s: Seq<CellModel>,
        l: Seq<CellModel>,
        a: Seq<char>,
        b: Seq<char>,
        p: u32,
        v: PropertyPageModel,
    |
        #![trigger journal_with_property_page(s, a, b, p, v),
            journal_with_property_page(l, a, b, p, v)]
        agrees(s, l) && !asks(journal_with_property_page(s, a, b, p, v).1) implies same_step(
        s,
        journal_with_property_page(s, a, b, p, v),
        l,
        journal_with_property_page(l, a, b, p, v),
    ) by {
        lemma_same_write::<PropertyPage>(s, l, property_address(a, b, p), (a, b), v);
    }
    assert forall|s: Seq<CellModel>, l: Seq<CellModel>, a: Seq<char>, v: ProposalModel|
        #![trigger journal_with_proposal(s, a, v), journal_with_proposal(l, a, v)]
        agrees(s, l) && !asks(journal_with_proposal(s, a, v).1) implies same_step(
        s,
        journal_with_proposal(s, a, v),
        l,
        journal_with_proposal(l, a, v),
    ) by {
        lemma_same_write::<Proposal>(s, l, proposal_address(a), (a, ""@), v);
    }
    assert forall|
        s: Seq<CellModel>,
        l: Seq<CellModel>,
        a: Seq<char>,
        b: Seq<char>,
        v: ExchangeModel,
    |
        #![trigger journal_with_exchange(s, a, b, v), journal_with_exchange(l, a, b, v)]
        agrees(s, l) && !asks(journal_with_exchange(s, a, b, v).1) implies same_step(
        s,
        journal_with_exchange(s, a, b, v),
        l,
        journal_with_exchange(l, a, b, v),
    ) by {
        lemma_same_write::<Exchange>(s, l, exchange_address(a, b), (a, b), v);
    }
}

/// Steps compose, and a step that writes nothing is the same everywhere.
pub proof fn lemma_same_steps()
    ensures
        forall|s: Seq<CellModel>, l: Seq<CellModel>, r: Result<(), ApplyErrorModel>|
            agrees(s, l) ==> #[trigger] same_step(s, (s, r), l, (l, r)),
        forall|
            s: Seq<CellModel>,
            ms: Seq<CellModel>,
            x: Step,
            l: Seq<CellModel>,
            ml: Seq<CellModel>,
            y: Step,
        |
            #![trigger same_step(s, (ms, Ok(())), l, (ml, Ok(()))), same_step(ms, x, ml, y)]
            same_step(s, (ms, Ok(())), l, (ml, Ok(()))) && same_step(ms, x, ml, y) ==> same_step(
                s,
                x,
                l,
                y,
            ),
{
    assert forall|s: Seq<CellModel>, l: Seq<CellModel>, r: Result<(), ApplyErrorModel>|
        agrees(s, l) implies #[trigger] same_step(s, (s, r), l, (l, r)) by {
        lemma_same_step_still(s, l, r);
    }
    assert forall|
        s: Seq<CellModel>,
        ms: Seq<CellModel>,
        x: Step,
        l: Seq<CellModel>,
        ml: Seq<CellModel>,
        y: Step,
    |
        #![trigger same_step(s, (ms, Ok(())), l, (ml, Ok(()))), same_step(ms, x, ml, y)]
        same_step(s, (ms, Ok(())), l, (ml, Ok(()))) && same_step(ms, x, ml, y) implies same_step(
        s,
        x,
        l,
        y,
    ) by {
        lemma_same_step_then(s, ms, x, l, ml, y);
    }
}

proof fn lemma_create_participant_same(
    small: Seq<CellModel>,
    large: Seq<CellModel>,
    name: Seq<char>,
    signer: Seq<char>,
    timestamp: u64,
)
    requires
        agrees(small, large),
        !asks(create_participant_spec(small, name, signer, timestamp).1),
    ensures
        same_step(
            small,
            create_participant_spec(small, name, signer, timestamp),
            large,
            create_participant_spec(large, name, signer, timestamp),
        ),
{
    reveal(create_participant_spec);
    lemma_same_reads();
    lemma_same_writes();
    lemma_same_steps();
}

proof fn lemma_create_table_same(
    small: Seq<CellModel>,
    large: Seq<CellModel>,
    name: Seq<char>,
    properties: Seq<PropertySchemaModel>,
)
    requires
        agrees(small, large),
        !asks(create_table_spec(small, name, properties).1),
    ensures
        same_step(
            small,
            create_table_spec(small, name, properties),
            large,
            create_table_spec(large, name, properties),
        ),
{
    reveal(create_table_spec);
    lemma_same_reads();
    lemma_same_writes();
    lemma_same_steps();
}

proof fn lemma_finalize_record_same(
    small: Seq<CellModel>,
    large: Seq<CellModel>,
    record_id: Seq<char>,
    signer: Seq<char>,
)
    requires
        agrees(small, large),
        !asks(finalize_record_spec(small, record_id, signer).1),
    ensures
        same_step(
            small,
            finalize_record_spec(small, record_id, signer),
            large,
            finalize_record_spec(large, record_id, signer),
        ),
{
    reveal(finalize_record_spec);
    lemma_same_reads();
    lemma_same_writes();
    lemma_same_steps();
}

proof fn lemma_create_property_same(
    small: Seq<CellModel>,
    large: Seq<CellModel>,
    record_id: Seq<char>,
    schemas: Seq<PropertySchemaModel>,
    provided: Seq<PropertyValueModel>,
    signer: Seq<char>,
    timestamp: u64,
    i: int,
)
    requires
        agrees(small, large),
        !asks(create_property_step(small, record_id, schemas, provided, signer, timestamp, i).1),
    ensures
        same_step(
            small,
            create_property_step(small, record_id, schemas, provided, signer, timestamp, i),
            large,
            create_property_step(large, record_id, schemas, provided, signer, timestamp, i),
        ),
{
    lemma_same_reads();
    lemma_same_writes();
    lemma_same_steps();
}

proof fn lemma_create_properties_same(
    small: Seq<CellModel>,
    large: Seq<CellModel>,
    record_id: Seq<char>,
    schemas: Seq<PropertySchemaModel>,
    provided: Seq<PropertyValueModel>,
    signer: Seq<char>,
    timestamp: u64,
    i: int,
)
    requires
        agrees(small, large),
        !asks(create_properties_from(small, record_id, schemas, provided, signer, timestamp, i).1),
    ensures
        same_step(
            small,
            create_properties_from(small, record_id, schemas, provided, signer, timestamp, i),
            large,
            create_properties_from(large, record_id, schemas, provided, signer, timestamp, i),
        ),
    decreases schemas.len() - i,
{
    lemma_same_reads();
    lemma_same_writes();
    lemma_same_steps();
    if 0 <= i < schemas.len() {
        lemma_create_property_same(
            small,
            large,
            record_id,
            schemas,
            provided,
            signer,
            timestamp,
            i,
        );
        let s = create_property_step(small, record_id, schemas, provided, signer, timestamp, i);
        let l = create_property_step(large, record_id, schemas, provided, signer, timestamp, i);
        if s.1 is Ok {
            lemma_create_properties_same(
                s.0,
                l.0,
                record_id,
                schemas,
                provided,
                signer,
                timestamp,
                i + 1,
            );
        }
    }
}

proof fn lemma_create_record_same(
    small: Seq<CellModel>,
    large: Seq<CellModel>,
    payload: CreateRecordActionModel,
    signer: Seq<char>,
    timestamp: u64,
)
    requires
        agrees(small, large),
        !asks(create_record_spec(small, payload, signer, timestamp).1),
    ensures
        same_step(
            small,
            create_record_spec(small, payload, signer, timestamp),
            large,
            create_record_spec(large, payload, signer, timestamp),
        ),
{
    reveal(create_record_spec);
    lemma_same_reads();
    lemma_same_writes();
    lemma_same_steps();
    let record = new_record(payload.record_id, payload.table, signer, timestamp);
    let s = journal_with_record(small, payload.record_id, record);
    let l = journal_with_record(large, payload.record_id, record);
    assert forall|schemas: Seq<PropertySchemaModel>|
        !asks(
            (#[trigger] create_record_in_table(small, payload, schemas, signer, timestamp)).1,
        ) implies same_step(
        small,
        create_record_in_table(small, payload, schemas, signer, timestamp),
        large,
        create_record_in_table(large, payload, schemas, signer, timestamp),
    ) by {
        if s.1 is Ok && !asks(
            create_properties_from(
                s.0,
                payload.record_id,
                schemas,
                payload.properties,
                signer,
                timestamp,
                0,
            ).1,
        ) {
            lemma_create_properties_same(
                s.0,
                l.0,
                payload.record_id,
                schemas,
                payload.properties,
                signer,
                timestamp,
                0,
            );
        }
    }
}

proof fn lemma_rotate_same(
    small: Seq<CellModel>,
    large: Seq<CellModel>,
    record_id: Seq<char>,
    name: Seq<char>,
    property: PropertyModel,
)
    requires
        agrees(small, large),
        !asks(rotate_spec(small, record_id, name, property).1),
    ensures
        same_step(
            small,
            rotate_spec(small, record_id, name, property),
            large,
            rotate_spec(large, record_id, name, property),
        ),
{
    lemma_same_reads();
    lemma_same_writes();
    lemma_same_steps();
}

proof fn lemma_append_same(
    small: Seq<CellModel>,
    large: Seq<CellModel>,
    record_id: Seq<char>,
    name: Seq<char>,
    property: PropertyModel,
    value: ReportedValueModel,
)
    requires
        agrees(small, large),
        !asks(append_spec(small, record_id, name, property, value).1),
    ensures
        same_step(
            small,
            append_spec(small, record_id, name, property, value),
            large,
            append_spec(large, record_id, name, property, value),
        ),
{
    lemma_same_reads();
    lemma_same_writes();
    lemma_same_steps();
    match property_page_at(small, record_id, name, property.current_page) {
        Ok(Some(page)) => {
            let full = page_with(page, value);
            let s = journal_with_property_page(small, record_id, name, property.current_page, full);
            let l = journal_with_property_page(large, record_id, name, property.current_page, full);
            if s.1 is Ok && full.reported_values.len() >= 256 {
                lemma_rotate_same(s.0, l.0, record_id, name, property);
            }
        },
        _ => {},
    }
}

proof fn lemma_update_property_same(
    small: Seq<CellModel>,
    large: Seq<CellModel>,
    record_id: Seq<char>,
    update: PropertyValueModel,
    signer: Seq<char>,
    timestamp: u64,
)
    requires
        agrees(small, large),
        !asks(update_property_step(small, record_id, update, signer, timestamp).1),
    ensures
        same_step(
            small,
            update_property_step(small, record_id, update, signer, timestamp),
            large,
            update_property_step(large, record_id, update, signer, timestamp),
        ),
{
    lemma_same_reads();
    lemma_same_writes();
    lemma_same_steps();
    match property_at(small, record_id, update.name) {
        Ok(Some(property)) => {
            assert forall|value: ReportedValueModel|
                !asks(
                    (#[trigger] append_spec(small, record_id, update.name, property, value)).1,
                ) implies same_step(
                small,
                append_spec(small, record_id, update.name, property, value),
                large,
                append_spec(large, record_id, update.name, property, value),
            ) by {
                lemma_append_same(small, large, record_id, update.name, property, value);
            }
        },
        _ => {},
    }
}

proof fn lemma_updates_same(
    small: Seq<CellModel>,
    large: Seq<CellModel>,
    record_id: Seq<char>,
    updates: Seq<PropertyValueModel>,
    signer: Seq<char>,
    timestamp: u64,
    i: int,
)
    requires
        agrees(small, large),
        !asks(updates_from(small, record_id, updates, signer, timestamp, i).1),
    ensures
        same_step(
            small,
            updates_from(small, record_id, updates, signer, timestamp, i),
            large,
            updates_from(large, record_id, updates, signer, timestamp, i),
        ),
    decreases updates.len() - i,
{
    lemma_same_reads();
    lemma_same_writes();
    lemma_same_steps();
    if 0 <= i < updates.len() {
        lemma_update_property_same(small, large, record_id, updates[i], signer, timestamp);
        let s = update_property_step(small, record_id, updates[i], signer, timestamp);
        let l = update_property_step(large, record_id, updates[i], signer, timestamp);
        if s.1 is Ok {
            lemma_updates_same(s.0, l.0, record_id, updates, signer, timestamp, i + 1);
        }
    }
}

proof fn lemma_update_properties_same(
    small: Seq<CellModel>,
    large: Seq<CellModel>,
    payload: UpdatePropertiesActionModel,
    signer: Seq<char>,
    timestamp: u64,
)
    requires
        agrees(small, large),
        !asks(update_properties_spec(small, payload, signer, timestamp).1),
    ensures
        same_step(
            small,
            update_properties_spec(small, payload, signer, timestamp),
            large,
            update_properties_spec(large, payload, signer, timestamp),
        ),
{
    reveal(update_properties_spec);
    lemma_same_reads();
    lemma_same_steps();
    match record_at(small, payload.record_id) {
        Ok(Some(record)) => {
            if !record.field_final {
                lemma_updates_same(
                    small,
                    large,
                    payload.record_id,
                    payload.properties,
                    signer,
                    timestamp,
                    0,
                );
            }
        },
        _ => {},
    }
}

proof fn lemma_create_proposal_same(
    small: Seq<CellModel>,
    large: Seq<CellModel>,
    payload: CreateProposalActionModel,
    signer: Seq<char>,
    timestamp: u64,
)
    requires
        agrees(small, large),
        !asks(create_proposal_spec(small, payload, signer, timestamp).1),
    ensures
        same_step(
            small,
            create_proposal_spec(small, payload, signer, timestamp),
            large,
            create_proposal_spec(large, payload, signer, timestamp),
        ),
{
    reveal(create_proposal_spec);
    lemma_same_reads();
    lemma_same_writes();
    lemma_same_steps();
}

proof fn lemma_exchanges_same(
    small: Seq<CellModel>,
    large: Seq<CellModel>,
    exchanges: Seq<ExchangeModel>,
    i: int,
)
    requires
        agrees(small, large),
        !asks(exchanges_from(small, exchanges, i).1),
    ensures
        same_step(
            small,
            exchanges_from(small, exchanges, i),
            large,
            exchanges_from(large, exchanges, i),
        ),
    decreases exchanges.len() - i,
{
    lemma_same_reads();
    lemma_same_writes();
    lemma_same_steps();
    if 0 <= i < exchanges.len() {
        let s = journal_with_exchange(
            small,
            exchanges[i].buy_proposal_id,
            exchanges[i].sell_proposal_id,
            exchanges[i],
        );
        let l = journal_with_exchange(
            large,
            exchanges[i].buy_proposal_id,
            exchanges[i].sell_proposal_id,
            exchanges[i],
        );
        if s.1 is Ok {
            lemma_exchanges_same(s.0, l.0, exchanges, i + 1);
        }
    }
}

proof fn lemma_fill_same(
    small: Seq<CellModel>,
    large: Seq<CellModel>,
    payload: AnswerProposalActionModel,
    proposal: ProposalModel,
    issuer: ParticipantModel,
    signer: Seq<char>,
    timestamp: u64,
    closing: bool,
)
    requires
        agrees(small, large),
        !asks(fill_spec(small, payload, proposal, issuer, signer, timestamp, closing).1),
    ensures
        same_step(
            small,
            fill_spec(small, payload, proposal, issuer, signer, timestamp, closing),
            large,
            fill_spec(large, payload, proposal, issuer, signer, timestamp, closing),
        ),
{
    let whole = fill_spec(small, payload, proposal, issuer, signer, timestamp, closing);
    lemma_same_step_still(small, large, whole.1);
    if payload.role == Role::BuyDgc || payload.role == Role::SellDgc {
        match (
            balance_after_fill(
                issuer,
                payload.role,
                payload.dg_coin_amount,
                signer,
                payload.proposal_id,
            ),
            proposal.dg_coin_exchanged.checked_add(payload.dg_coin_amount),
        ) {
            (Ok(balance), Some(exchanged)) => {
                let paid = with_balance(issuer, payload.proposal_id, timestamp, balance);
                let s1 = journal_with_participant(small, signer, paid);
                let l1 = journal_with_participant(large, signer, paid);
                lemma_same_write::<Participant>(
                    small,
                    large,
                    participant_address(signer),
                    (signer, ""@),
                    paid,
                );
                if s1.1 is Ok {
                    let s2 = if closing {
                        exchanges_from(s1.0, payload.exchanges, 0)
                    } else {
                        (s1.0, Ok(()))
                    };
                    let l2 = if closing {
                        exchanges_from(l1.0, payload.exchanges, 0)
                    } else {
                        (l1.0, Ok(()))
                    };
                    if closing {
                        lemma_exchanges_same(s1.0, l1.0, payload.exchanges, 0);
                    } else {
                        lemma_same_step_still(s1.0, l1.0, Ok(()));
                    }
                    lemma_same_step_then(small, s1.0, s2, large, l1.0, l2);
                    if s2.1 is Ok {
                        let order = filled(
                            proposal,
                            exchanged,
                            if closing {
                                Status::Closed
                            } else {
                                Status::Open
                            },
                        );
                        lemma_then_write::<Proposal>(
                            small,
                            large,
                            s2,
                            l2,
                            proposal_address(payload.proposal_id),
                            (payload.proposal_id, ""@),
                            order,
                        );
                    }
                }
            },
            _ => {},
        }
    }
}

proof fn lemma_credit_same(
    small: Seq<CellModel>,
    large: Seq<CellModel>,
    payload: AnswerProposalActionModel,
    proposal: ProposalModel,
    receiver: ParticipantModel,
    timestamp: u64,
)
    requires
        agrees(small, large),
        !asks(credit_spec(small, payload, proposal, receiver, timestamp).1),
    ensures
        same_step(
            small,
            credit_spec(small, payload, proposal, receiver, timestamp),
            large,
            credit_spec(large, payload, proposal, receiver, timestamp),
        ),
{
    lemma_same_reads();
    lemma_same_writes();
    lemma_same_steps();
}

proof fn lemma_receive_same(
    small: Seq<CellModel>,
    large: Seq<CellModel>,
    payload: AnswerProposalActionModel,
    proposal: ProposalModel,
    timestamp: u64,
)
    requires
        agrees(small, large),
        !asks(receive_spec(small, payload, proposal, timestamp).1),
    ensures
        same_step(
            small,
            receive_spec(small, payload, proposal, timestamp),
            large,
            receive_spec(large, payload, proposal, timestamp),
        ),
{
    lemma_same_reads();
    lemma_same_writes();
    lemma_same_steps();
}

proof fn lemma_transfer_same(
    small: Seq<CellModel>,
    large: Seq<CellModel>,
    payload: AnswerProposalActionModel,
    proposal: ProposalModel,
    timestamp: u64,
)
    requires
        agrees(small, large),
        !asks(transfer_spec(small, payload, proposal, timestamp).1),
    ensures
        same_step(
            small,
            transfer_spec(small, payload, proposal, timestamp),
            large,
            transfer_spec(large, payload, proposal, timestamp),
        ),
{
    lemma_same_reads();
    lemma_same_steps();
    let giver = proposal.issuing_participant;
    match participant_at(small, giver) {
        Ok(Some(issuer)) => {
            match current_amount(issuer.dg_coin_balances).checked_sub(payload.dg_coin_amount) {
                Some(given) => {
                    if covers(issuer, payload.dg_coin_amount) {
                        let paid = with_balance(issuer, payload.proposal_id, timestamp, given);
                        let s1 = journal_with_participant(small, giver, paid);
                        let l1 = journal_with_participant(large, giver, paid);
                        lemma_same_write::<Participant>(
                            small,
                            large,
                            participant_address(giver),
                            (giver, ""@),
                            paid,
                        );
                        if s1.1 is Ok {
                            lemma_receive_same(s1.0, l1.0, payload, proposal, timestamp);
                            lemma_same_step_then(
                                small,
                                s1.0,
                                receive_spec(s1.0, payload, proposal, timestamp),
                                large,
                                l1.0,
                                receive_spec(l1.0, payload, proposal, timestamp),
                            );
                        }
                    }
                },
                None => {},
            }
        },
        _ => {},
    }
}

proof fn lemma_custodianship_same(
    small: Seq<CellModel>,
    large: Seq<CellModel>,
    payload: AnswerProposalActionModel,
    proposal: ProposalModel,
    timestamp: u64,
)
    requires
        agrees(small, large),
        !asks(custodianship_spec(small, payload, proposal, timestamp).1),
    ensures
        same_step(
            small,
            custodianship_spec(small, payload, proposal, timestamp),
            large,
            custodianship_spec(large, payload, proposal, timestamp),
        ),
{
    lemma_same_reads();
    lemma_same_writes();
    lemma_same_steps();
}

proof fn lemma_transfer_reporters_same(
    small: Seq<CellModel>,
    large: Seq<CellModel>,
    record_id: Seq<char>,
    schemas: Seq<PropertySchemaModel>,
    former: Seq<char>,
    receiver: Seq<char>,
    i: int,
)
    requires
        agrees(small, large),
        !asks(transfer_reporters_from(small, record_id, schemas, former, receiver, i).1),
    ensures
        same_step(
            small,
            transfer_reporters_from(small, record_id, schemas, former, receiver, i),
            large,
            transfer_reporters_from(large, record_id, schemas, former, receiver, i),
        ),
    decreases schemas.len() - i,
{
    lemma_same_reads();
    lemma_same_writes();
    lemma_same_steps();
    if 0 <= i < schemas.len() {
        match property_at(small, record_id, schemas[i].name) {
            Ok(Some(property)) => {
                let value = PropertyModel {
                    reporters: reporters_after_transfer(property.reporters, former, receiver),
                    ..property
                };
                let s = journal_with_property(small, record_id, property.name, value);
                let l = journal_with_property(large, record_id, property.name, value);
                if s.1 is Ok {
                    lemma_transfer_reporters_same(
                        s.0,
                        l.0,
                        record_id,
                        schemas,
                        former,
                        receiver,
                        i + 1,
                    );
                }
            },
            _ => {},
        }
    }
}

proof fn lemma_authorize_same(
    small: Seq<CellModel>,
    large: Seq<CellModel>,
    record_id: Seq<char>,
    names: Seq<Seq<char>>,
    receiver: Seq<char>,
    i: int,
)
    requires
        agrees(small, large),
        !asks(authorize_from(small, record_id, names, receiver, i).1),
    ensures
        same_step(
            small,
            authorize_from(small, record_id, names, receiver, i),
            large,
            authorize_from(large, record_id, names, receiver, i),
        ),
    decreases names.len() - i,
{
    lemma_same_reads();
    lemma_same_writes();
    lemma_same_steps();
    if 0 <= i < names.len() {
        match property_at(small, record_id, names[i]) {
            Ok(Some(property)) => {
                let value = PropertyModel {
                    reporters: property.reporters.push(
                        added_reporter(receiver, property.reporters.len()),
                    ),
                    ..property
                };
                let s = journal_with_property(small, record_id, names[i], value);
                let l = journal_with_property(large, record_id, names[i], value);
                if s.1 is Ok {
                    lemma_authorize_same(s.0, l.0, record_id, names, receiver, i + 1);
                }
            },
            _ => {},
        }
    }
}

proof fn lemma_revoke_same(
    small: Seq<CellModel>,
    large: Seq<CellModel>,
    record_id: Seq<char>,
    names: Seq<Seq<char>>,
    reporter_id: Seq<char>,
    i: int,
)
    requires
        agrees(small, large),
        !asks(revoke_from(small, record_id, names, reporter_id, i).1),
    ensures
        same_step(
            small,
            revoke_from(small, record_id, names, reporter_id, i),
            large,
            revoke_from(large, record_id, names, reporter_id, i),
        ),
    decreases names.len() - i,
{
    lemma_same_reads();
    lemma_same_writes();
    lemma_same_steps();
    if 0 <= i < names.len() {
        match property_at(small, record_id, names[i]) {
            Ok(Some(property)) => {
                let value = PropertyModel {
                    reporters: reporters_after_revocation(property.reporters, reporter_id),
                    ..property
                };
                let s = journal_with_property(small, record_id, names[i], value);
                let l = journal_with_property(large, record_id, names[i], value);
                if s.1 is Ok && revocable_from(property.reporters, reporter_id, 0, false) is Ok {
                    lemma_revoke_same(s.0, l.0, record_id, names, reporter_id, i + 1);
                }
            },
            _ => {},
        }
    }
}

proof fn lemma_ownership_same(
    small: Seq<CellModel>,
    large: Seq<CellModel>,
    payload: AnswerProposalActionModel,
    proposal: ProposalModel,
    timestamp: u64,
)
    requires
        agrees(small, large),
        !asks(ownership_spec(small, payload, proposal, timestamp).1),
    ensures
        same_step(
            small,
            ownership_spec(small, payload, proposal, timestamp),
            large,
            ownership_spec(large, payload, proposal, timestamp),
        ),
{
    let whole = ownership_spec(small, payload, proposal, timestamp);
    let receiver = payload.receiving_participant;
    lemma_same_step_still(small, large, whole.1);
    lemma_same_read::<Record>(
        small,
        large,
        record_address(payload.record_id),
        (payload.record_id, ""@),
    );
    match record_at(small, payload.record_id) {
        Ok(Some(record)) => {
            if record.owners.len() > 0 {
                let former = record.owners.last().participant_id;
                let owned = RecordModel {
                    owners: record.owners.push(holder(receiver, timestamp)),
                    ..record
                };
                let s1 = journal_with_record(small, payload.record_id, owned);
                let l1 = journal_with_record(large, payload.record_id, owned);
                lemma_same_write::<Record>(
                    small,
                    large,
                    record_address(payload.record_id),
                    (payload.record_id, ""@),
                    owned,
                );
                if s1.1 is Ok {
                    lemma_same_read::<Table>(
                        s1.0,
                        l1.0,
                        table_address(record.table),
                        (record.table, ""@),
                    );
                    lemma_same_step_still(s1.0, l1.0, whole.1);
                    lemma_same_step_then(
                        small,
                        s1.0,
                        (s1.0, whole.1),
                        large,
                        l1.0,
                        (l1.0, whole.1),
                    );
                    match table_at(s1.0, record.table) {
                        Ok(Some(table)) => {
                            let s2 = transfer_reporters_from(
                                s1.0,
                                payload.record_id,
                                table.properties,
                                former,
                                receiver,
                                0,
                            );
                            let l2 = transfer_reporters_from(
                                l1.0,
                                payload.record_id,
                                table.properties,
                                former,
                                receiver,
                                0,
                            );
                            lemma_transfer_reporters_same(
                                s1.0,
                                l1.0,
                                payload.record_id,
                                table.properties,
                                former,
                                receiver,
                                0,
                            );
                            lemma_same_step_then(small, s1.0, s2, large, l1.0, l2);
                            if s2.1 is Ok {
                                lemma_then_write::<Proposal>(
                                    small,
                                    large,
                                    s2,
                                    l2,
                                    proposal_address(payload.proposal_id),
                                    (payload.proposal_id, ""@),
                                    with_status(proposal, Status::Accepted),
                                );
                            }
                        },
                        _ => {},
                    }
                }
            }
        },
        _ => {},
    }
}

proof fn lemma_authorization_same(
    small: Seq<CellModel>,
    large: Seq<CellModel>,
    payload: AnswerProposalActionModel,
    proposal: ProposalModel,
)
    requires
        agrees(small, large),
        !asks(authorize_spec(small, payload, proposal).1),
    ensures
        same_step(
            small,
            authorize_spec(small, payload, proposal),
            large,
            authorize_spec(large, payload, proposal),
        ),
{
    let whole = authorize_spec(small, payload, proposal);
    lemma_same_step_still(small, large, whole.1);
    lemma_same_read::<Record>(
        small,
        large,
        record_address(payload.record_id),
        (payload.record_id, ""@),
    );
    match record_at(small, payload.record_id) {
        Ok(Some(record)) => {
            if record.owners.len() > 0 {
                let s1 = authorize_from(
                    small,
                    payload.record_id,
                    proposal.properties,
                    payload.receiving_participant,
                    0,
                );
                let l1 = authorize_from(
                    large,
                    payload.record_id,
                    proposal.properties,
                    payload.receiving_participant,
                    0,
                );
                lemma_authorize_same(
                    small,
                    large,
                    payload.record_id,
                    proposal.properties,
                    payload.receiving_participant,
                    0,
                );
                if s1.1 is Ok {
                    lemma_then_write::<Proposal>(
                        small,
                        large,
                        s1,
                        l1,
                        proposal_address(payload.proposal_id),
                        (payload.proposal_id, ""@),
                        with_status(proposal, Status::Accepted),
                    );
                }
            }
        },
        _ => {},
    }
}

proof fn lemma_accept_same(
    small: Seq<CellModel>,
    large: Seq<CellModel>,
    payload: AnswerProposalActionModel,
    proposal: ProposalModel,
    signer: Seq<char>,
    timestamp: u64,
)
    requires
        agrees(small, large),
        !asks(accept_spec(small, payload, proposal, signer, timestamp).1),
    ensures
        same_step(
            small,
            accept_spec(small, payload, proposal, signer, timestamp),
            large,
            accept_spec(large, payload, proposal, signer, timestamp),
        ),
{
    lemma_same_reads();
    lemma_same_steps();
    if proposal.receiving_participant == signer {
        match participant_at(small, payload.receiving_participant) {
            Ok(Some(receiver)) => {
                match payload.role {
                    Role::CreditDgc => {
                        lemma_credit_same(small, large, payload, proposal, receiver, timestamp);
                    },
                    Role::TransferDgc => {
                        lemma_transfer_same(small, large, payload, proposal, timestamp);
                    },
                    Role::TransferOwnership => {
                        lemma_ownership_same(small, large, payload, proposal, timestamp);
                    },
                    Role::TransferCustodianship => {
                        lemma_custodianship_same(small, large, payload, proposal, timestamp);
                    },
                    Role::AuthorizeReporter => {
                        lemma_authorization_same(small, large, payload, proposal);
                    },
                    _ => {},
                }
            },
            _ => {},
        }
    }
}

proof fn lemma_answer_proposal_same(
    small: Seq<CellModel>,
    large: Seq<CellModel>,
    payload: AnswerProposalActionModel,
    signer: Seq<char>,
    timestamp: u64,
)
    requires
        agrees(small, large),
        !asks(answer_proposal_spec(small, payload, signer, timestamp).1),
    ensures
        same_step(
            small,
            answer_proposal_spec(small, payload, signer, timestamp),
            large,
            answer_proposal_spec(large, payload, signer, timestamp),
        ),
{
    reveal(answer_proposal_spec);
    lemma_same_reads();
    lemma_same_writes();
    lemma_same_steps();
    match (proposal_at(small, payload.proposal_id), participant_at(small, signer)) {
        (Ok(Some(proposal)), Ok(Some(acting))) => {
            match payload.response {
                Response::AutoOpen => {
                    lemma_fill_same(
                        small,
                        large,
                        payload,
                        proposal,
                        acting,
                        signer,
                        timestamp,
                        false,
                    );
                },
                Response::AutoClose => {
                    lemma_fill_same(
                        small,
                        large,
                        payload,
                        proposal,
                        acting,
                        signer,
                        timestamp,
                        true,
                    );
                },
                Response::Accept => {
                    lemma_accept_same(small, large, payload, proposal, signer, timestamp);
                },
                _ => {},
            }
        },
        _ => {},
    }
}

proof fn lemma_revoke_reporter_same(
    small: Seq<CellModel>,
    large: Seq<CellModel>,
    payload: RevokeReporterActionModel,
    signer: Seq<char>,
)
    requires
        agrees(small, large),
        !asks(revoke_reporter_spec(small, payload, signer).1),
    ensures
        same_step(
            small,
            revoke_reporter_spec(small, payload, signer),
            large,
            revoke_reporter_spec(large, payload, signer),
        ),
{
    reveal(revoke_reporter_spec);
    lemma_same_reads();
    lemma_same_steps();
    match record_at(small, payload.record_id) {
        Ok(Some(record)) => {
            if revoker_fault(record, signer) is None {
                lemma_revoke_same(
                    small,
                    large,
                    payload.record_id,
                    payload.properties,
                    payload.reporter_id,
                    0,
                );
            }
        },
        _ => {},
    }
}

/// An attempt that does not ask for another address is the same on every
/// state that holds at least what it was made on: it appends the same cells
/// and gives the same result, whatever else the state holds.
pub proof fn law_attempt_reads_only_what_was_loaded(
    loaded: Seq<CellModel>,
    state: Seq<CellModel>,
    payload: Seq<u8>,
    signer: Seq<char>,
)
    requires
        agrees(loaded, state),
        !asks(attempt_spec(loaded, payload, signer).1),
    ensures
        same_step(
            loaded,
            attempt_spec(loaded, payload, signer),
            state,
            attempt_spec(state, payload, signer),
        ),
        same_step(
            loaded,
            apply_spec(loaded, payload, signer),
            state,
            apply_spec(state, payload, signer),
        ),
{
    lemma_same_step_still(loaded, state, attempt_spec(loaded, payload, signer).1);
    lemma_same_steps();
    match read_payload(payload) {
        Err(_) => {},
        Ok(p) => {
            match p.action {
                ActionModel::CreateParticipant(a) => {
                    lemma_create_participant_same(loaded, state, a.name, signer, p.timestamp);
                },
                ActionModel::CreateRecord(a) => {
                    lemma_create_record_same(loaded, state, a, signer, p.timestamp);
                },
                ActionModel::FinalizeRecord(a) => {
                    lemma_finalize_record_same(loaded, state, a.record_id, signer);
                },
                ActionModel::CreateTable(a) => {
                    lemma_create_table_same(loaded, state, a.name, a.properties);
                },
                ActionModel::UpdateProperties(a) => {
                    lemma_update_properties_same(loaded, state, a, signer, p.timestamp);
                },
                ActionModel::CreateProposal(a) => {
                    lemma_create_proposal_same(loaded, state, a, signer, p.timestamp);
                },
                ActionModel::AnswerProposal(a) => {
                    lemma_answer_proposal_same(loaded, state, a, signer, p.timestamp);
                },
                ActionModel::RevokeReporter(a) => {
                    lemma_revoke_reporter_same(loaded, state, a, signer);
                },
            }
        },
    }
}

/// A transaction only appends: what the state held before an attempt that
/// does not ask for another address is still there after it, cell by cell.
pub proof fn law_transactions_only_append(
    journal: Seq<CellModel>,
    payload: Seq<u8>,
    signer: Seq<char>,
)
    requires
        !asks(attempt_spec(journal, payload, signer).1),
    ensures
        journal.len() <= attempt_spec(journal, payload, signer).0.len(),
        attempt_spec(journal, payload, signer).0.take(journal.len() as int) == journal,
        journal.len() <= apply_spec(journal, payload, signer).0.len(),
        apply_spec(journal, payload, signer).0.take(journal.len() as int) == journal,
{
    assert(agrees(journal, journal));
    law_attempt_reads_only_what_was_loaded(journal, journal, payload, signer);
    assert(journal.take(journal.len() as int) =~= journal);
}

} // verus!
