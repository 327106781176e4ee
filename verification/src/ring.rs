//! The bound on pages.
//!
//! No page holds more than 256 values, and the current page of a property
//! holds fewer: the append that brings it to 256 moves the ring on to an
//! empty page within the same transaction. Every transaction that succeeds
//! keeps it so.

use crate::addressing::{
    exchange_address, participant_address, property_address, proposal_address, record_address,
    table_address,
};
use crate::answers::{
    accept_spec, added_reporter, answer_proposal_spec, authorize_from, exchanges_from, fill_spec,
    ownership_spec, reporters_after_transfer, transfer_reporters_from,
};
use crate::container::Keyed;
use crate::handler::{apply_spec, attempt_spec, read_payload};
use crate::participant::{Participant, ParticipantModel};
use crate::payload::{ActionModel, AnswerProposalActionModel, CreateRecordActionModel};
use crate::preservation::{
    lemma_create_property_keeps, lemma_reads_are_valid, lemma_sorted_pages,
    lemma_writes_keep_valid,
};
use crate::property::{
    Property, PropertyModel, PropertyPage, PropertyPageModel, ReportedValueModel,
};
use crate::proposal::{Exchange, ExchangeModel, Proposal, ProposalModel};
use crate::proposals::create_proposal_spec;
use crate::record::{Record, RecordModel, Table, TableModel};
use crate::records::{
    create_properties_from, create_property_step, create_record_in_table, create_record_spec,
    new_property, new_record,
};
use crate::registry::{create_participant_spec, create_table_spec, finalize_record_spec};
use crate::reporters::{reporters_after_revocation, revoke_from, revoke_reporter_spec};
use crate::schema::PropertySchemaModel;
use crate::state::{
    content, journal_with, journal_with_exchange, journal_with_participant,
    journal_with_property, journal_with_property_page, journal_with_proposal,
    journal_with_record, journal_with_table, participant_at, property_at, property_page_at,
    proposal_at, CellModel,
};
use crate::text::Key;
use crate::updates::{
    append_spec, emptied, next_page, page_with, rotated, update_properties_spec,
    update_property_step, updates_from,
};
use crate::validity::{
    cell_valid, law_read_after_write, law_read_other_kind_after_write,
    law_stored_containers_valid, lemma_content_is_cell, state_valid,
};
use crate::value::PropertyValueModel;
use crate::laws::law_page_after_append;
use vstd::prelude::*;

verus! {

/// Whether no page that can be read holds more than 256 values.
pub open spec fn pages_bounded(journal: Seq<CellModel>) -> bool {
    forall|r: Seq<char>, n: Seq<char>, p: u32|
        match #[trigger] property_page_at(journal, r, n, p) {
            Ok(Some(page)) => page.reported_values.len() <= 256,
            _ => true,
        }
}

/// Whether the current page of a property, where both can be read, holds
/// fewer than 256 values.
pub open spec fn current_page_open(journal: Seq<CellModel>, r: Seq<char>, n: Seq<char>) -> bool {
    match property_at(journal, r, n) {
        Ok(Some(property)) => match property_page_at(journal, r, n, property.current_page) {
            Ok(Some(page)) => page.reported_values.len() < 256,
            _ => true,
        },
        _ => true,
    }
}

/// Whether the current page of every property is open, but perhaps that of
/// one property that a transaction is at work on.
pub open spec fn current_pages_open(journal: Seq<CellModel>, but: Option<Key>) -> bool {
    forall|r: Seq<char>, n: Seq<char>|
        Some((r, n)) != but ==> #[trigger] current_page_open(journal, r, n)
}

/// Whether a state is valid and its pages are within their bound.
pub open spec fn ring_valid(journal: Seq<CellModel>) -> bool {
    &&& state_valid(journal)
    &&& pages_bounded(journal)
    &&& current_pages_open(journal, None)
}

/// What can be read of properties and pages after an entity of another kind
/// was set: what could be read before, or nothing.
pub proof fn lemma_reads_after_other_write<T: Keyed>(
    journal: Seq<CellModel>,
    address: Seq<char>,
    key: Key,
    value: T::V,
)
    requires
        T::tag() != Property::tag(),
        T::tag() != PropertyPage::tag(),
        journal_with::<T>(journal, address, key, value).1 is Ok,
    ensures
        forall|r: Seq<char>, n: Seq<char>|
            (#[trigger] property_at(journal_with::<T>(journal, address, key, value).0, r, n))
                is Err || property_at(journal_with::<T>(journal, address, key, value).0, r, n)
                == property_at(journal, r, n),
        forall|r: Seq<char>, n: Seq<char>, p: u32|
            (#[trigger] property_page_at(
                journal_with::<T>(journal, address, key, value).0,
                r,
                n,
                p,
            )) is Err
                || property_page_at(journal_with::<T>(journal, address, key, value).0, r, n, p)
                == property_page_at(journal, r, n, p),
{
    let after = journal_with::<T>(journal, address, key, value).0;
    assert forall|r: Seq<char>, n: Seq<char>|
        (#[trigger] property_at(after, r, n)) is Err || property_at(after, r, n) == property_at(
            journal,
            r,
            n,
        ) by {
        law_read_other_kind_after_write::<T, Property>(
            journal,
            address,
            key,
            value,
            property_address(r, n, 0),
            (r, n),
        );
    }
    assert forall|r: Seq<char>, n: Seq<char>, p: u32|
        (#[trigger] property_page_at(after, r, n, p)) is Err || property_page_at(after, r, n, p)
            == property_page_at(journal, r, n, p) by {
        law_read_other_kind_after_write::<T, PropertyPage>(
            journal,
            address,
            key,
            value,
            property_address(r, n, p),
            (r, n),
        );
    }
}

/// Setting an entity that is neither a property nor a page keeps the pages
/// within their bound.
pub proof fn lemma_other_write_keeps_ring<T: Keyed>(
    journal: Seq<CellModel>,
    address: Seq<char>,
    key: Key,
    value: T::V,
    but: Option<Key>,
)
    requires
        T::tag() != Property::tag(),
        T::tag() != PropertyPage::tag(),
        pages_bounded(journal),
        current_pages_open(journal, but),
    ensures
        pages_bounded(journal_with::<T>(journal, address, key, value).0),
        current_pages_open(journal_with::<T>(journal, address, key, value).0, but),
{
    let after = journal_with::<T>(journal, address, key, value).0;
    if journal_with::<T>(journal, address, key, value).1 is Ok {
        lemma_reads_after_other_write::<T>(journal, address, key, value);
        assert forall|r: Seq<char>, n: Seq<char>|
            Some((r, n)) != but implies #[trigger] current_page_open(
            after,
            r,
            n,
        ) by {
            assert(current_page_open(journal, r, n));
        }
    }
}

/// What can be read after a property was set under its own key: the property
/// for its key, for every other key the property that could be read before,
/// and of pages what could be read before, or nothing.
proof fn lemma_reads_after_property_write(
    journal: Seq<CellModel>,
    r0: Seq<char>,
    n0: Seq<char>,
    value: PropertyModel,
)
    requires
        state_valid(journal),
        value.record_id == r0,
        value.name == n0,
        journal_with_property(journal, r0, n0, value).1 is Ok,
    ensures
        property_at(journal_with_property(journal, r0, n0, value).0, r0, n0) == Ok::<
            Option<PropertyModel>,
            crate::error::ApplyErrorModel,
        >(Some(value)),
        forall|r: Seq<char>, n: Seq<char>|
            (r, n) != (r0, n0) ==> (#[trigger] property_at(
                journal_with_property(journal, r0, n0, value).0,
                r,
                n,
            )) == property_at(journal, r, n),
        forall|r: Seq<char>, n: Seq<char>, p: u32|
            (#[trigger] property_page_at(journal_with_property(journal, r0, n0, value).0, r, n, p))
                is Err || property_page_at(journal_with_property(journal, r0, n0, value).0, r, n, p)
                == property_page_at(journal, r, n, p),
{
    let after = journal_with_property(journal, r0, n0, value).0;
    let address = property_address(r0, n0, 0);
    law_stored_containers_valid::<Property>(journal, address);
    law_read_after_write::<Property>(journal, address, (r0, n0), value, address, (r0, n0));
    assert forall|r: Seq<char>, n: Seq<char>| (r, n) != (r0, n0) implies (#[trigger] property_at(
        after,
        r,
        n,
    )) == property_at(journal, r, n) by {
        law_read_after_write::<Property>(
            journal,
            address,
            (r0, n0),
            value,
            property_address(r, n, 0),
            (r, n),
        );
    }
    assert forall|r: Seq<char>, n: Seq<char>, p: u32|
        (#[trigger] property_page_at(after, r, n, p)) is Err || property_page_at(after, r, n, p)
            == property_page_at(journal, r, n, p) by {
        law_read_other_kind_after_write::<Property, PropertyPage>(
            journal,
            address,
            (r0, n0),
            value,
            property_address(r, n, p),
            (r, n),
        );
    }
}

/// What can be read after a page was set under its own key: the page at its
/// place, of pages elsewhere the page that could be read before or, for the
/// same property, the page that was set; and of properties what could be read
/// before, or nothing.
proof fn lemma_reads_after_page_write(
    journal: Seq<CellModel>,
    r0: Seq<char>,
    n0: Seq<char>,
    p0: u32,
    value: PropertyPageModel,
)
    requires
        state_valid(journal),
        value.record_id == r0,
        value.name == n0,
        journal_with_property_page(journal, r0, n0, p0, value).1 is Ok,
    ensures
        property_page_at(journal_with_property_page(journal, r0, n0, p0, value).0, r0, n0, p0)
            == Ok::<Option<PropertyPageModel>, crate::error::ApplyErrorModel>(Some(value)),
        forall|r: Seq<char>, n: Seq<char>, p: u32|
            (#[trigger] property_page_at(
                journal_with_property_page(journal, r0, n0, p0, value).0,
                r,
                n,
                p,
            )) == property_page_at(journal, r, n, p) || ((r, n) == (r0, n0) && property_page_at(
                journal_with_property_page(journal, r0, n0, p0, value).0,
                r,
                n,
                p,
            ) == Ok::<Option<PropertyPageModel>, crate::error::ApplyErrorModel>(Some(value))),
        forall|r: Seq<char>, n: Seq<char>|
            (#[trigger] property_at(journal_with_property_page(journal, r0, n0, p0, value).0, r, n))
                is Err || property_at(
                    journal_with_property_page(journal, r0, n0, p0, value).0,
                    r,
                    n,
                )
                == property_at(journal, r, n),
{
    let after = journal_with_property_page(journal, r0, n0, p0, value).0;
    let address = property_address(r0, n0, p0);
    law_stored_containers_valid::<PropertyPage>(journal, address);
    law_read_after_write::<PropertyPage>(journal, address, (r0, n0), value, address, (r0, n0));
    assert forall|r: Seq<char>, n: Seq<char>, p: u32|
        (#[trigger] property_page_at(after, r, n, p)) == property_page_at(journal, r, n, p) || ((
            r,
            n,
        ) == (r0, n0) && property_page_at(after, r, n, p) == Ok::<
            Option<PropertyPageModel>,
            crate::error::ApplyErrorModel,
        >(Some(value))) by {
        law_read_after_write::<PropertyPage>(
            journal,
            address,
            (r0, n0),
            value,
            property_address(r, n, p),
            (r, n),
        );
    }
    assert forall|r: Seq<char>, n: Seq<char>|
        (#[trigger] property_at(after, r, n)) is Err || property_at(after, r, n) == property_at(
            journal,
            r,
            n,
        ) by {
        law_read_other_kind_after_write::<PropertyPage, Property>(
            journal,
            address,
            (r0, n0),
            value,
            property_address(r, n, 0),
            (r, n),
        );
    }
}

/// Setting a property keeps the pages within their bound, but perhaps for
/// the current page of that property; and for that one too, where the page
/// that is now current was open.
proof fn lemma_property_write_keeps_ring(
    journal: Seq<CellModel>,
    r0: Seq<char>,
    n0: Seq<char>,
    value: PropertyModel,
    but: Option<Key>,
)
    requires
        state_valid(journal),
        pages_bounded(journal),
        current_pages_open(journal, but),
        but is None || but == Some((r0, n0)),
        value.record_id == r0,
        value.name == n0,
        journal_with_property(journal, r0, n0, value).1 is Ok,
    ensures
        pages_bounded(journal_with_property(journal, r0, n0, value).0),
        current_pages_open(journal_with_property(journal, r0, n0, value).0, Some((r0, n0))),
        (match property_page_at(journal, r0, n0, value.current_page) {
            Ok(Some(page)) => page.reported_values.len() < 256,
            _ => true,
        }) ==> current_pages_open(journal_with_property(journal, r0, n0, value).0, None),
{
    let after = journal_with_property(journal, r0, n0, value).0;
    lemma_reads_after_property_write(journal, r0, n0, value);
    assert forall|r: Seq<char>, n: Seq<char>|
        (r, n) != (r0, n0) implies #[trigger] current_page_open(
        after,
        r,
        n,
    ) by {
        assert(current_page_open(journal, r, n));
    }
}

/// Setting a page of at most 256 values keeps the pages within their bound,
/// but perhaps for the current page of the property of the page; and for
/// that one too, where the page holds fewer than 256 values and either the
/// current pages were all open or the page is the current page of its
/// property.
proof fn lemma_page_write_keeps_ring(
    journal: Seq<CellModel>,
    r0: Seq<char>,
    n0: Seq<char>,
    p0: u32,
    value: PropertyPageModel,
    but: Option<Key>,
)
    requires
        state_valid(journal),
        pages_bounded(journal),
        current_pages_open(journal, but),
        but is None || but == Some((r0, n0)),
        value.record_id == r0,
        value.name == n0,
        value.reported_values.len() <= 256,
        journal_with_property_page(journal, r0, n0, p0, value).1 is Ok,
    ensures
        pages_bounded(journal_with_property_page(journal, r0, n0, p0, value).0),
        current_pages_open(
            journal_with_property_page(journal, r0, n0, p0, value).0,
            Some((r0, n0)),
        ),
        value.reported_values.len() < 256 && (but is None || (match property_at(journal, r0, n0) {
            Ok(Some(property)) => property.current_page == p0,
            _ => true,
        })) ==> current_pages_open(journal_with_property_page(journal, r0, n0, p0, value).0, None),
{
    let after = journal_with_property_page(journal, r0, n0, p0, value).0;
    lemma_reads_after_page_write(journal, r0, n0, p0, value);
    assert forall|r: Seq<char>, n: Seq<char>|
        (r, n) != (r0, n0) implies #[trigger] current_page_open(
        after,
        r,
        n,
    ) by {
        assert(current_page_open(journal, r, n));
    }
    if value.reported_values.len() < 256 {
        if but is None {
            assert(current_page_open(journal, r0, n0));
            assert(current_page_open(after, r0, n0));
        }
    }
}

/// Whatever entity that is neither a property nor a page is set, the pages
/// stay within their bound.
proof fn lemma_other_writes_keep_ring()
    ensures
        forall|j: Seq<CellModel>, a: Seq<char>, v: ParticipantModel|
            pages_bounded(j) && current_pages_open(j, None) ==> pages_bounded(
                (#[trigger] journal_with_participant(j, a, v)).0,
            ) && current_pages_open(journal_with_participant(j, a, v).0, None),
        forall|j: Seq<CellModel>, a: Seq<char>, v: TableModel|
            pages_bounded(j) && current_pages_open(j, None) ==> pages_bounded(
                (#[trigger] journal_with_table(j, a, v)).0,
            ) && current_pages_open(journal_with_table(j, a, v).0, None),
        forall|j: Seq<CellModel>, a: Seq<char>, v: RecordModel|
            pages_bounded(j) && current_pages_open(j, None) ==> pages_bounded(
                (#[trigger] journal_with_record(j, a, v)).0,
            ) && current_pages_open(journal_with_record(j, a, v).0, None),
        forall|j: Seq<CellModel>, a: Seq<char>, v: ProposalModel|
            pages_bounded(j) && current_pages_open(j, None) ==> pages_bounded(
                (#[trigger] journal_with_proposal(j, a, v)).0,
            ) && current_pages_open(journal_with_proposal(j, a, v).0, None),
        forall|j: Seq<CellModel>, a: Seq<char>, b: Seq<char>, v: ExchangeModel|
            pages_bounded(j) && current_pages_open(j, None) ==> pages_bounded(
                (#[trigger] journal_with_exchange(j, a, b, v)).0,
            ) && current_pages_open(journal_with_exchange(j, a, b, v).0, None),
{
    assert forall|j: Seq<CellModel>, a: Seq<char>, v: ParticipantModel|
        pages_bounded(j) && current_pages_open(j, None) implies pages_bounded(
        (#[trigger] journal_with_participant(j, a, v)).0,
    ) && current_pages_open(journal_with_participant(j, a, v).0, None) by {
        lemma_other_write_keeps_ring::<Participant>(j, participant_address(a), (a, ""@), v, None);
    }
    assert forall|j: Seq<CellModel>, a: Seq<char>, v: TableModel|
        pages_bounded(j) && current_pages_open(j, None) implies pages_bounded(
        (#[trigger] journal_with_table(j, a, v)).0,
    ) && current_pages_open(journal_with_table(j, a, v).0, None) by {
        lemma_other_write_keeps_ring::<Table>(j, table_address(a), (a, ""@), v, None);
    }
    assert forall|j: Seq<CellModel>, a: Seq<char>, v: RecordModel|
        pages_bounded(j) && current_pages_open(j, None) implies pages_bounded(
        (#[trigger] journal_with_record(j, a, v)).0,
    ) && current_pages_open(journal_with_record(j, a, v).0, None) by {
        lemma_other_write_keeps_ring::<Record>(j, record_address(a), (a, ""@), v, None);
    }
    assert forall|j: Seq<CellModel>, a: Seq<char>, v: ProposalModel|
        pages_bounded(j) && current_pages_open(j, None) implies pages_bounded(
        (#[trigger] journal_with_proposal(j, a, v)).0,
    ) && current_pages_open(journal_with_proposal(j, a, v).0, None) by {
        lemma_other_write_keeps_ring::<Proposal>(j, proposal_address(a), (a, ""@), v, None);
    }
    assert forall|j: Seq<CellModel>, a: Seq<char>, b: Seq<char>, v: ExchangeModel|
        pages_bounded(j) && current_pages_open(j, None) implies pages_bounded(
        (#[trigger] journal_with_exchange(j, a, b, v)).0,
    ) && current_pages_open(journal_with_exchange(j, a, b, v).0, None) by {
        lemma_other_write_keeps_ring::<Exchange>(j, exchange_address(a, b), (a, b), v, None);
    }
}

/// Setting a property again with its current page unchanged keeps the pages
/// within their bound.
proof fn lemma_same_page_keeps_ring(
    journal: Seq<CellModel>,
    r: Seq<char>,
    n: Seq<char>,
    property: PropertyModel,
    value: PropertyModel,
)
    requires
        ring_valid(journal),
        property_at(journal, r, n) == Ok::<Option<PropertyModel>, crate::error::ApplyErrorModel>(
            Some(property),
        ),
        value.record_id == r,
        value.name == n,
        value.current_page == property.current_page,
        Property::valid(value),
    ensures
        ring_valid(journal_with_property(journal, r, n, value).0),
{
    lemma_writes_keep_valid();
    if journal_with_property(journal, r, n, value).1 is Ok {
        assert(current_page_open(journal, r, n));
        lemma_property_write_keeps_ring(journal, r, n, value, None);
    }
}

proof fn lemma_create_property_keeps_ring(
    journal: Seq<CellModel>,
    record_id: Seq<char>,
    schemas: Seq<PropertySchemaModel>,
    provided: Seq<PropertyValueModel>,
    signer: Seq<char>,
    timestamp: u64,
    i: int,
)
    requires
        ring_valid(journal),
        0 <= i < schemas.len(),
        create_property_step(journal, record_id, schemas, provided, signer, timestamp, i).1 is Ok,
    ensures
        ring_valid(
            create_property_step(journal, record_id, schemas, provided, signer, timestamp, i).0,
        ),
{
    lemma_create_property_keeps(journal, record_id, schemas, provided, signer, timestamp, i);
    lemma_writes_keep_valid();
    let schema = schemas[i];
    if crate::values::last_schema(schemas, schema.name) == i {
        let property = new_property(record_id, schema, signer);
        let (stored, r) = journal_with_property(journal, record_id, schema.name, property);
        lemma_property_write_keeps_ring(journal, record_id, schema.name, property, None);
        lemma_reads_after_property_write(journal, record_id, schema.name, property);
        let after = create_property_step(
            journal,
            record_id,
            schemas,
            provided,
            signer,
            timestamp,
            i,
        ).0;
        assert forall|page: PropertyPageModel|
            page.record_id == record_id && page.name == schema.name && page.reported_values.len()
                <= 1 && PropertyPage::valid(page) && (#[trigger] journal_with_property_page(
                stored,
                record_id,
                schema.name,
                1,
                page,
            )).1 is Ok implies pages_bounded(
            journal_with_property_page(stored, record_id, schema.name, 1, page).0,
        ) && current_pages_open(
            journal_with_property_page(stored, record_id, schema.name, 1, page).0,
            None,
        ) by {
            lemma_page_write_keeps_ring(
                stored,
                record_id,
                schema.name,
                1,
                page,
                Some((record_id, schema.name)),
            );
        }
    }
}

proof fn lemma_create_properties_keep_ring(
    journal: Seq<CellModel>,
    record_id: Seq<char>,
    schemas: Seq<PropertySchemaModel>,
    provided: Seq<PropertyValueModel>,
    signer: Seq<char>,
    timestamp: u64,
    i: int,
)
    requires
        ring_valid(journal),
        create_properties_from(journal, record_id, schemas, provided, signer, timestamp, i).1
            is Ok,
    ensures
        ring_valid(
            create_properties_from(journal, record_id, schemas, provided, signer, timestamp, i).0,
        ),
    decreases schemas.len() - i,
{
    if 0 <= i < schemas.len() {
        let (next, r) = create_property_step(
            journal,
            record_id,
            schemas,
            provided,
            signer,
            timestamp,
            i,
        );
        lemma_create_property_keeps_ring(
            journal,
            record_id,
            schemas,
            provided,
            signer,
            timestamp,
            i,
        );
        lemma_create_properties_keep_ring(
            next,
            record_id,
            schemas,
            provided,
            signer,
            timestamp,
            i + 1,
        );
    }
}

proof fn lemma_create_record_keeps_ring(
    journal: Seq<CellModel>,
    payload: CreateRecordActionModel,
    signer: Seq<char>,
    timestamp: u64,
)
    requires
        ring_valid(journal),
        create_record_spec(journal, payload, signer, timestamp).1 is Ok,
    ensures
        ring_valid(create_record_spec(journal, payload, signer, timestamp).0),
{
    reveal(create_record_spec);
    lemma_writes_keep_valid();
    lemma_other_writes_keep_ring();
    let (stored, r) = journal_with_record(
        journal,
        payload.record_id,
        new_record(payload.record_id, payload.table, signer, timestamp),
    );
    assert forall|schemas: Seq<PropertySchemaModel>|
        (#[trigger] create_record_in_table(journal, payload, schemas, signer, timestamp)).1
            is Ok implies ring_valid(
        create_record_in_table(journal, payload, schemas, signer, timestamp).0,
    ) by {
        lemma_create_properties_keep_ring(
            stored,
            payload.record_id,
            schemas,
            payload.properties,
            signer,
            timestamp,
            0,
        );
    }
}

/// An append to the current page of a property keeps the pages within their
/// bound, whether the ring moves on or not.
proof fn lemma_append_keeps_ring(
    journal: Seq<CellModel>,
    record_id: Seq<char>,
    name: Seq<char>,
    property: PropertyModel,
    value: ReportedValueModel,
)
    requires
        ring_valid(journal),
        property_at(journal, record_id, name) == Ok::<
            Option<PropertyModel>,
            crate::error::ApplyErrorModel,
        >(Some(property)),
        append_spec(journal, record_id, name, property, value).1 is Ok,
    ensures
        ring_valid(append_spec(journal, record_id, name, property, value).0),
{
    lemma_writes_keep_valid();
    lemma_reads_are_valid();
    lemma_sorted_pages();
    assert(current_page_open(journal, record_id, name));
    let page = property_page_at(journal, record_id, name, property.current_page)->Ok_0->Some_0;
    let full = page_with(page, value);
    law_page_after_append(page, value);
    let (stored, r) = journal_with_property_page(
        journal,
        record_id,
        name,
        property.current_page,
        full,
    );
    lemma_page_write_keeps_ring(journal, record_id, name, property.current_page, full, None);
    if full.reported_values.len() >= 256 {
        let next = next_page(property.current_page);
        let found = property_page_at(stored, record_id, name, next)->Ok_0;
        let fresh = emptied(found, record_id, name);
        let (reset, r) = journal_with_property_page(stored, record_id, name, next, fresh);
        lemma_page_write_keeps_ring(
            stored,
            record_id,
            name,
            next,
            fresh,
            Some((record_id, name)),
        );
        lemma_reads_after_page_write(stored, record_id, name, next, fresh);
        lemma_property_write_keeps_ring(
            reset,
            record_id,
            name,
            rotated(property),
            Some((record_id, name)),
        );
    }
}

proof fn lemma_update_property_keeps_ring(
    journal: Seq<CellModel>,
    record_id: Seq<char>,
    update: PropertyValueModel,
    signer: Seq<char>,
    timestamp: u64,
)
    requires
        ring_valid(journal),
        update_property_step(journal, record_id, update, signer, timestamp).1 is Ok,
    ensures
        ring_valid(update_property_step(journal, record_id, update, signer, timestamp).0),
{
    match property_at(journal, record_id, update.name) {
        Ok(Some(property)) => {
            assert forall|value: ReportedValueModel|
                (#[trigger] append_spec(journal, record_id, update.name, property, value)).1
                    is Ok implies ring_valid(
                append_spec(journal, record_id, update.name, property, value).0,
            ) by {
                lemma_append_keeps_ring(journal, record_id, update.name, property, value);
            }
        },
        _ => {},
    }
}

proof fn lemma_updates_keep_ring(
    journal: Seq<CellModel>,
    record_id: Seq<char>,
    updates: Seq<PropertyValueModel>,
    signer: Seq<char>,
    timestamp: u64,
    i: int,
)
    requires
        ring_valid(journal),
        updates_from(journal, record_id, updates, signer, timestamp, i).1 is Ok,
    ensures
        ring_valid(updates_from(journal, record_id, updates, signer, timestamp, i).0),
    decreases updates.len() - i,
{
    if 0 <= i < updates.len() {
        let (next, r) = update_property_step(journal, record_id, updates[i], signer, timestamp);
        lemma_update_property_keeps_ring(journal, record_id, updates[i], signer, timestamp);
        lemma_updates_keep_ring(next, record_id, updates, signer, timestamp, i + 1);
    }
}

proof fn lemma_exchanges_keep_ring(
    journal: Seq<CellModel>,
    exchanges: Seq<ExchangeModel>,
    i: int,
)
    requires
        ring_valid(journal),
    ensures
        ring_valid(exchanges_from(journal, exchanges, i).0),
    decreases exchanges.len() - i,
{
    lemma_writes_keep_valid();
    lemma_other_writes_keep_ring();
    if 0 <= i < exchanges.len() {
        let (next, r) = journal_with_exchange(
            journal,
            exchanges[i].buy_proposal_id,
            exchanges[i].sell_proposal_id,
            exchanges[i],
        );
        if r is Ok {
            lemma_exchanges_keep_ring(next, exchanges, i + 1);
        }
    }
}

proof fn lemma_transfer_reporters_keep_ring(
    journal: Seq<CellModel>,
    record_id: Seq<char>,
    schemas: Seq<PropertySchemaModel>,
    former: Seq<char>,
    receiver: Seq<char>,
    i: int,
)
    requires
        ring_valid(journal),
    ensures
        ring_valid(transfer_reporters_from(journal, record_id, schemas, former, receiver, i).0),
    decreases schemas.len() - i,
{
    lemma_reads_are_valid();
    if 0 <= i < schemas.len() {
        match property_at(journal, record_id, schemas[i].name) {
            Ok(Some(property)) => {
                let value = PropertyModel {
                    reporters: reporters_after_transfer(property.reporters, former, receiver),
                    ..property
                };
                lemma_same_page_keeps_ring(journal, record_id, property.name, property, value);
                let (next, r) = journal_with_property(journal, record_id, property.name, value);
                if r is Ok {
                    lemma_transfer_reporters_keep_ring(
                        next,
                        record_id,
                        schemas,
                        former,
                        receiver,
                        i + 1,
                    );
                }
            },
            _ => {},
        }
    }
}

proof fn lemma_authorize_keeps_ring(
    journal: Seq<CellModel>,
    record_id: Seq<char>,
    names: Seq<Seq<char>>,
    receiver: Seq<char>,
    i: int,
)
    requires
        ring_valid(journal),
    ensures
        ring_valid(authorize_from(journal, record_id, names, receiver, i).0),
    decreases names.len() - i,
{
    lemma_reads_are_valid();
    if 0 <= i < names.len() {
        match property_at(journal, record_id, names[i]) {
            Ok(Some(property)) => {
                let value = PropertyModel {
                    reporters: property.reporters.push(
                        added_reporter(receiver, property.reporters.len()),
                    ),
                    ..property
                };
                lemma_same_page_keeps_ring(journal, record_id, names[i], property, value);
                let (next, r) = journal_with_property(journal, record_id, names[i], value);
                if r is Ok {
                    lemma_authorize_keeps_ring(next, record_id, names, receiver, i + 1);
                }
            },
            _ => {},
        }
    }
}

proof fn lemma_revoke_keeps_ring(
    journal: Seq<CellModel>,
    record_id: Seq<char>,
    names: Seq<Seq<char>>,
    reporter_id: Seq<char>,
    i: int,
)
    requires
        ring_valid(journal),
    ensures
        ring_valid(revoke_from(journal, record_id, names, reporter_id, i).0),
    decreases names.len() - i,
{
    lemma_reads_are_valid();
    if 0 <= i < names.len() {
        match property_at(journal, record_id, names[i]) {
            Ok(Some(property)) => {
                let value = PropertyModel {
                    reporters: reporters_after_revocation(property.reporters, reporter_id),
                    ..property
                };
                lemma_same_page_keeps_ring(journal, record_id, names[i], property, value);
                let (next, r) = journal_with_property(journal, record_id, names[i], value);
                if r is Ok {
                    lemma_revoke_keeps_ring(next, record_id, names, reporter_id, i + 1);
                }
            },
            _ => {},
        }
    }
}

proof fn lemma_fill_keeps_ring(
    journal: Seq<CellModel>,
    payload: AnswerProposalActionModel,
    proposal: ProposalModel,
    issuer: ParticipantModel,
    signer: Seq<char>,
    timestamp: u64,
    closing: bool,
)
    requires
        ring_valid(journal),
        proposal.proposal_id == payload.proposal_id,
        issuer.public_key == signer,
    ensures
        ring_valid(fill_spec(journal, payload, proposal, issuer, signer, timestamp, closing).0),
{
    lemma_writes_keep_valid();
    lemma_other_writes_keep_ring();
    assert forall|j: Seq<CellModel>| ring_valid(j) implies ring_valid(
        (#[trigger] exchanges_from(j, payload.exchanges, 0)).0,
    ) by {
        lemma_exchanges_keep_ring(j, payload.exchanges, 0);
    }
}

proof fn lemma_ownership_keeps_ring(
    journal: Seq<CellModel>,
    payload: AnswerProposalActionModel,
    proposal: ProposalModel,
    timestamp: u64,
)
    requires
        ring_valid(journal),
        proposal.proposal_id == payload.proposal_id,
    ensures
        ring_valid(ownership_spec(journal, payload, proposal, timestamp).0),
{
    lemma_writes_keep_valid();
    lemma_reads_are_valid();
    lemma_other_writes_keep_ring();
    assert forall|j: Seq<CellModel>, schemas: Seq<PropertySchemaModel>, former: Seq<char>|
        ring_valid(j) implies ring_valid(
        (#[trigger] transfer_reporters_from(
            j,
            payload.record_id,
            schemas,
            former,
            payload.receiving_participant,
            0,
        )).0,
    ) by {
        lemma_transfer_reporters_keep_ring(
            j,
            payload.record_id,
            schemas,
            former,
            payload.receiving_participant,
            0,
        );
    }
}

proof fn lemma_accept_keeps_ring(
    journal: Seq<CellModel>,
    payload: AnswerProposalActionModel,
    proposal: ProposalModel,
    signer: Seq<char>,
    timestamp: u64,
)
    requires
        ring_valid(journal),
        proposal.proposal_id == payload.proposal_id,
    ensures
        ring_valid(accept_spec(journal, payload, proposal, signer, timestamp).0),
{
    lemma_reads_are_valid();
    lemma_writes_keep_valid();
    lemma_other_writes_keep_ring();
    lemma_ownership_keeps_ring(journal, payload, proposal, timestamp);
    lemma_authorize_keeps_ring(
        journal,
        payload.record_id,
        proposal.properties,
        payload.receiving_participant,
        0,
    );
}

proof fn lemma_answer_proposal_keeps_ring(
    journal: Seq<CellModel>,
    payload: AnswerProposalActionModel,
    signer: Seq<char>,
    timestamp: u64,
)
    requires
        ring_valid(journal),
    ensures
        ring_valid(answer_proposal_spec(journal, payload, signer, timestamp).0),
{
    reveal(answer_proposal_spec);
    lemma_writes_keep_valid();
    lemma_reads_are_valid();
    lemma_other_writes_keep_ring();
    match (proposal_at(journal, payload.proposal_id), participant_at(journal, signer)) {
        (Ok(Some(proposal)), Ok(Some(acting))) => {
            lemma_fill_keeps_ring(journal, payload, proposal, acting, signer, timestamp, false);
            lemma_fill_keeps_ring(journal, payload, proposal, acting, signer, timestamp, true);
            lemma_accept_keeps_ring(journal, payload, proposal, signer, timestamp);
        },
        _ => {},
    }
}

/// The state in which nothing is stored is valid, and its pages are within
/// their bound.
pub proof fn law_empty_state_valid()
    ensures
        ring_valid(Seq::<CellModel>::empty()),
{
}

/// What the host loads from a valid state is a valid state: where every cell
/// of a journal holds what a valid state holds at the address of the cell,
/// the journal is valid, and its pages are within their bound.
pub proof fn law_loaded_state_valid(stored: Seq<CellModel>, loaded: Seq<CellModel>)
    requires
        ring_valid(stored),
        forall|i: int|
            0 <= i < loaded.len() ==> content(stored, (#[trigger] loaded[i]).address) == Some(
                loaded[i].data,
            ),
    ensures
        ring_valid(loaded),
{
    assert forall|i: int| 0 <= i < loaded.len() implies (exists|k: int|
        0 <= k < stored.len() && (#[trigger] stored[k]).data == (#[trigger] loaded[i]).data) by {
        lemma_content_is_cell(stored, loaded[i].address);
    }
    assert(state_valid(loaded)) by {
        assert forall|i: int| 0 <= i < loaded.len() implies cell_valid::<Participant>(
            #[trigger] loaded[i],
        ) && cell_valid::<Table>(loaded[i]) && cell_valid::<Record>(loaded[i]) && cell_valid::<
            Property,
        >(loaded[i]) && cell_valid::<PropertyPage>(loaded[i]) && cell_valid::<Proposal>(loaded[i])
            && cell_valid::<Exchange>(loaded[i]) by {
            let k = choose|k: int|
                0 <= k < stored.len() && (#[trigger] stored[k]).data == loaded[i].data;
            assert(cell_valid::<Participant>(stored[k]));
            assert(cell_valid::<Table>(stored[k]));
            assert(cell_valid::<Record>(stored[k]));
            assert(cell_valid::<Property>(stored[k]));
            assert(cell_valid::<PropertyPage>(stored[k]));
            assert(cell_valid::<Proposal>(stored[k]));
            assert(cell_valid::<Exchange>(stored[k]));
        }
    }
    assert forall|a: Seq<char>| (#[trigger] content(loaded, a)) is None || content(loaded, a)
        == content(stored, a) by {
        lemma_content_is_loaded(stored, loaded, a);
    }
    assert forall|r: Seq<char>, n: Seq<char>, p: u32|
        (#[trigger] property_page_at(loaded, r, n, p)) is Err || property_page_at(loaded, r, n, p)
            == property_page_at(stored, r, n, p) by {
        assert(content(loaded, property_address(r, n, p)) is None || content(
            loaded,
            property_address(r, n, p),
        ) == content(stored, property_address(r, n, p)));
    }
    assert forall|r: Seq<char>, n: Seq<char>|
        (#[trigger] property_at(loaded, r, n)) is Err || property_at(loaded, r, n) == property_at(
            stored,
            r,
            n,
        ) by {
        assert(content(loaded, property_address(r, n, 0)) is None || content(
            loaded,
            property_address(r, n, 0),
        ) == content(stored, property_address(r, n, 0)));
    }
    assert forall|r: Seq<char>, n: Seq<char>| #[trigger] current_page_open(loaded, r, n) by {
        assert(current_page_open(stored, r, n));
    }
}

/// What a journal of loaded cells holds at an address is what the state
/// holds there.
proof fn lemma_content_is_loaded(
    stored: Seq<CellModel>,
    loaded: Seq<CellModel>,
    address: Seq<char>,
)
    requires
        forall|i: int|
            0 <= i < loaded.len() ==> content(stored, (#[trigger] loaded[i]).address) == Some(
                loaded[i].data,
            ),
    ensures
        content(loaded, address) is None || content(loaded, address) == content(stored, address),
    decreases loaded.len(),
{
    if loaded.len() > 0 {
        if loaded.last().address != address {
            assert forall|i: int| 0 <= i < loaded.drop_last().len() implies content(
                stored,
                (#[trigger] loaded.drop_last()[i]).address,
            ) == Some(loaded.drop_last()[i].data) by {
                assert(loaded.drop_last()[i] == loaded[i]);
            }
            lemma_content_is_loaded(stored, loaded.drop_last(), address);
        } else {
            assert(loaded[loaded.len() - 1] == loaded.last());
        }
    }
}

/// Every attempt that succeeds keeps the pages within their bound.
proof fn lemma_attempt_keeps_pages_bounded(
    journal: Seq<CellModel>,
    payload: Seq<u8>,
    signer: Seq<char>,
)
    requires
        ring_valid(journal),
        attempt_spec(journal, payload, signer).1 is Ok,
    ensures
        ring_valid(attempt_spec(journal, payload, signer).0),
{
    lemma_writes_keep_valid();
    lemma_reads_are_valid();
    lemma_other_writes_keep_ring();
    match read_payload(payload) {
        Err(_) => {},
        Ok(p) => {
            match p.action {
                ActionModel::CreateParticipant(a) => {
                    reveal(create_participant_spec);
                },
                ActionModel::CreateRecord(a) => {
                    lemma_create_record_keeps_ring(journal, a, signer, p.timestamp);
                },
                ActionModel::FinalizeRecord(a) => {
                    reveal(finalize_record_spec);
                },
                ActionModel::CreateTable(a) => {
                    reveal(create_table_spec);
                },
                ActionModel::UpdateProperties(a) => {
                    reveal(update_properties_spec);
                    lemma_updates_keep_ring(
                        journal,
                        a.record_id,
                        a.properties,
                        signer,
                        p.timestamp,
                        0,
                    );
                },
                ActionModel::CreateProposal(a) => {
                    reveal(create_proposal_spec);
                },
                ActionModel::AnswerProposal(a) => {
                    lemma_answer_proposal_keeps_ring(journal, a, signer, p.timestamp);
                },
                ActionModel::RevokeReporter(a) => {
                    reveal(revoke_reporter_spec);
                    lemma_revoke_keeps_ring(
                        journal,
                        a.record_id,
                        a.properties,
                        a.reporter_id,
                        0,
                    );
                },
            }
        },
    }
}

/// Every transaction keeps the pages within their bound: where the state was
/// valid, no page held more than 256 values and the current page of every
/// property held fewer, the same holds after the transaction.
pub proof fn law_transactions_keep_pages_bounded(
    journal: Seq<CellModel>,
    payload: Seq<u8>,
    signer: Seq<char>,
)
    requires
        ring_valid(journal),
    ensures
        ring_valid(apply_spec(journal, payload, signer).0),
{
    if attempt_spec(journal, payload, signer).1 is Ok {
        lemma_attempt_keeps_pages_bounded(journal, payload, signer);
    }
}

} // verus!
