//! What holds of every state that the ledger reaches.
//!
//! A state is valid when every container in it is sorted by natural key and
//! every entity in it is valid: a record has an owner and a custodian, a
//! property has a reporter and a current page between 1 and 256, and the
//! values of a page are in order. Every write that the handlers make keeps a
//! valid state valid.

use crate::addressing::{
    exchange_address, participant_address, property_address, proposal_address, record_address,
    table_address,
};
use crate::container::{
    container_bytes, container_of, container_valid, entry_of, lemma_container_of_other_kind,
    lemma_container_round_trip, lemma_position_from, lemma_with_entry_frame,
    lemma_with_entry_valid, position_of, with_entry, without, Keyed,
};
use crate::order::{lemma_sort_push_strict, sorted, strictly_sorted};
use crate::participant::{Participant, ParticipantModel};
use crate::property::{Property, PropertyModel, PropertyPage, PropertyPageModel};
use crate::proposal::{Exchange, ExchangeModel, Proposal, ProposalModel};
use crate::record::{Record, RecordModel, Table, TableModel};
use crate::state::{
    content, entry_at, journal_with, journal_with_exchange, journal_with_participant,
    journal_with_property, journal_with_property_page, journal_with_proposal,
    journal_with_record, journal_with_table, lemma_content_push, participant_at, property_at,
    property_page_at, proposal_at, record_at, stored_entries, undecodable, written, CellModel,
};
use crate::text::Key;
use vstd::prelude::*;

verus! {

/// Whether bytes, read as a container of the kind, hold a valid container.
pub open spec fn bytes_valid<T: Keyed>(bytes: Seq<u8>) -> bool {
    match container_of::<T>(bytes) {
        Some(entries) => container_valid::<T>(entries),
        None => true,
    }
}

/// Whether a cell, read as a container of the kind, holds a valid container.
pub open spec fn cell_valid<T: Keyed>(cell: CellModel) -> bool {
    match cell.data {
        Some(bytes) => bytes_valid::<T>(bytes),
        None => true,
    }
}

/// Whether every container of the kind in a journal is valid.
pub open spec fn kind_valid<T: Keyed>(journal: Seq<CellModel>) -> bool {
    forall|i: int| 0 <= i < journal.len() ==> cell_valid::<T>(#[trigger] journal[i])
}

/// Whether a state is valid: every container in it is sorted by natural key,
/// and every entity in it is valid.
pub open spec fn state_valid(journal: Seq<CellModel>) -> bool {
    &&& kind_valid::<Participant>(journal)
    &&& kind_valid::<Table>(journal)
    &&& kind_valid::<Record>(journal)
    &&& kind_valid::<Property>(journal)
    &&& kind_valid::<PropertyPage>(journal)
    &&& kind_valid::<Proposal>(journal)
    &&& kind_valid::<Exchange>(journal)
}

/// What an address holds is what one of the cells holds.
pub proof fn lemma_content_is_cell(journal: Seq<CellModel>, address: Seq<char>)
    ensures
        match content(journal, address) {
            Some(data) => exists|i: int|
                0 <= i < journal.len() && (#[trigger] journal[i]).data == data,
            None => true,
        },
    decreases journal.len(),
{
    if journal.len() > 0 {
        if journal.last().address == address {
            assert(journal[journal.len() - 1].data == journal.last().data);
        } else {
            lemma_content_is_cell(journal.drop_last(), address);
            match content(journal.drop_last(), address) {
                Some(data) => {
                    let i = choose|i: int|
                        0 <= i < journal.drop_last().len() && (
                            #[trigger] journal.drop_last()[i]
                        ).data
                            == data;
                    assert(journal[i] == journal.drop_last()[i]);
                },
                None => {},
            }
        }
    }
}

/// Every container that is read from a valid state is sorted by natural key
/// and holds valid entries.
pub proof fn law_stored_containers_valid<T: Keyed>(journal: Seq<CellModel>, address: Seq<char>)
    requires
        kind_valid::<T>(journal),
    ensures
        match stored_entries::<T>(journal, address) {
            Ok(entries) => container_valid::<T>(entries) && sorted::<T>(entries),
            Err(_) => true,
        },
{
    lemma_content_is_cell(journal, address);
    assert forall|entries: Seq<T::V>| strictly_sorted::<T>(entries) implies #[trigger] sorted::<T>(
        entries,
    ) by {
        assert forall|i: int, j: int| 0 <= i <= j < entries.len() implies T::le(
            #[trigger] entries[i],
            #[trigger] entries[j],
        ) by {
            T::lemma_le_total(entries[i], entries[j]);
        }
    }
    match content(journal, address) {
        Some(Some(bytes)) => {
            let i = choose|i: int|
                0 <= i < journal.len() && (#[trigger] journal[i]).data == Some(bytes);
            assert(cell_valid::<T>(journal[i]));
        },
        _ => {},
    }
}

/// Every entity that is read has the key it was asked for, and is valid
/// where it is read from a valid state.
pub proof fn lemma_entry_valid<T: Keyed>(journal: Seq<CellModel>, address: Seq<char>, key: Key)
    ensures
        match entry_at::<T>(journal, address, key) {
            Ok(Some(found)) => T::key(found) == key && (kind_valid::<T>(journal) ==> T::valid(
                found,
            )),
            _ => true,
        },
{
    if kind_valid::<T>(journal) {
        law_stored_containers_valid::<T>(journal, address);
    }
    match stored_entries::<T>(journal, address) {
        Ok(entries) => {
            lemma_position_from::<T>(entries, key, 0);
        },
        Err(_) => {},
    }
}

/// Setting a valid entity keeps the containers of its kind valid.
pub proof fn lemma_journal_with_own<T: Keyed>(
    journal: Seq<CellModel>,
    address: Seq<char>,
    key: Key,
    value: T::V,
)
    requires
        kind_valid::<T>(journal),
        T::valid(value),
        T::key(value) == key,
    ensures
        kind_valid::<T>(journal_with::<T>(journal, address, key, value).0),
{
    law_stored_containers_valid::<T>(journal, address);
    match stored_entries::<T>(journal, address) {
        Ok(entries) => {
            let after = journal_with::<T>(journal, address, key, value).0;
            let stored = with_entry::<T>(entries, key, value);
            lemma_with_entry_valid::<T>(entries, key, value);
            lemma_container_round_trip::<T>(stored);
            assert forall|i: int| 0 <= i < after.len() implies cell_valid::<T>(
                #[trigger] after[i],
            ) by {
                if i < journal.len() {
                    assert(after[i] == journal[i]);
                }
            }
        },
        Err(_) => {},
    }
}

/// Setting an entity of one kind keeps the containers of every other kind
/// valid.
pub proof fn lemma_journal_with_other<T: Keyed, U: Keyed>(
    journal: Seq<CellModel>,
    address: Seq<char>,
    key: Key,
    value: T::V,
)
    requires
        T::tag() != U::tag(),
        kind_valid::<U>(journal),
    ensures
        kind_valid::<U>(journal_with::<T>(journal, address, key, value).0),
{
    match stored_entries::<T>(journal, address) {
        Ok(entries) => {
            let after = journal_with::<T>(journal, address, key, value).0;
            lemma_container_of_other_kind::<T, U>(with_entry::<T>(entries, key, value));
            assert forall|i: int| 0 <= i < after.len() implies cell_valid::<U>(
                #[trigger] after[i],
            ) by {
                if i < journal.len() {
                    assert(after[i] == journal[i]);
                }
            }
        },
        Err(_) => {},
    }
}

/// Every container is sorted by its natural key once something has been set
/// in it: what the address holds after the write is a container of the kind,
/// in order, with the value that was set in it.
pub proof fn law_written_container_sorted<T: Keyed>(
    journal: Seq<CellModel>,
    address: Seq<char>,
    key: Key,
    value: T::V,
)
    requires
        journal_with::<T>(journal, address, key, value).1 is Ok,
    ensures
        match stored_entries::<T>(journal_with::<T>(journal, address, key, value).0, address) {
            Ok(entries) => sorted::<T>(entries) && entries.contains(value),
            Err(_) => false,
        },
{
    let entries = stored_entries::<T>(journal, address)->Ok_0;
    let stored = with_entry::<T>(entries, key, value);
    lemma_with_entry_valid::<T>(entries, key, value);
    lemma_container_round_trip::<T>(stored);
    lemma_content_push(
        journal,
        CellModel { address, data: Some(container_bytes::<T>(stored)), written: true },
        address,
    );
    crate::order::lemma_sort_permutes::<T>(without::<T>(entries, key).push(value));
    let all = without::<T>(entries, key).push(value);
    assert(all[all.len() - 1] == value);
    assert(all.to_multiset().count(value) > 0) by {
        broadcast use vstd::seq_lib::group_to_multiset_ensures;
        assert(all.contains(value));
    }
    assert(stored.contains(value)) by {
        broadcast use vstd::seq_lib::group_to_multiset_ensures;
        assert(stored.to_multiset().count(value) > 0);
    }
}

/// Getting what was set gives it back: where the container at an address has
/// no two entries with the same key, an entity that was set under its own
/// key is what is read for that key afterwards.
pub proof fn law_get_what_was_set<T: Keyed>(
    journal: Seq<CellModel>,
    address: Seq<char>,
    key: Key,
    value: T::V,
)
    requires
        stored_entries::<T>(journal, address) matches Ok(entries) && strictly_sorted::<T>(entries),
        T::key(value) == key,
    ensures
        journal_with::<T>(journal, address, key, value).1 is Ok,
        entry_at::<T>(journal_with::<T>(journal, address, key, value).0, address, key) == Ok::<
            Option<T::V>,
            crate::error::ApplyErrorModel,
        >(Some(value)),
{
    let entries = stored_entries::<T>(journal, address)->Ok_0;
    let stored = with_entry::<T>(entries, key, value);
    lemma_with_entry_valid::<T>(entries, key, value);
    lemma_container_round_trip::<T>(stored);
    lemma_content_push(
        journal,
        CellModel { address, data: Some(container_bytes::<T>(stored)), written: true },
        address,
    );
}

/// What is read after a write. Where the container at the address of the
/// write has no two entries with the same key, and the entity is set under
/// its own key: at that address the entity is read for its key, and for every
/// other key what was read before; at every other address what was read
/// before.
pub proof fn law_read_after_write<T: Keyed>(
    journal: Seq<CellModel>,
    address: Seq<char>,
    key: Key,
    value: T::V,
    other_address: Seq<char>,
    other_key: Key,
)
    requires
        stored_entries::<T>(journal, address) matches Ok(entries) && strictly_sorted::<T>(entries),
        T::key(value) == key,
    ensures
        entry_at::<T>(journal_with::<T>(journal, address, key, value).0, other_address, other_key)
            == (if other_address == address && other_key == key {
            Ok::<Option<T::V>, crate::error::ApplyErrorModel>(Some(value))
        } else {
            entry_at::<T>(journal, other_address, other_key)
        }),
{
    let entries = stored_entries::<T>(journal, address)->Ok_0;
    let stored = with_entry::<T>(entries, key, value);
    lemma_with_entry_valid::<T>(entries, key, value);
    lemma_container_round_trip::<T>(stored);
    lemma_content_push(
        journal,
        CellModel { address, data: Some(container_bytes::<T>(stored)), written: true },
        other_address,
    );
    if other_address == address && other_key != key {
        lemma_with_entry_frame::<T>(entries, key, value, other_key);
    }
}

/// What is read of another kind after a write: at the address of the write
/// nothing of another kind can be read any more, and at every other address
/// what was read before.
pub proof fn law_read_other_kind_after_write<T: Keyed, U: Keyed>(
    journal: Seq<CellModel>,
    address: Seq<char>,
    key: Key,
    value: T::V,
    other_address: Seq<char>,
    other_key: Key,
)
    requires
        T::tag() != U::tag(),
        journal_with::<T>(journal, address, key, value).1 is Ok,
    ensures
        entry_at::<U>(journal_with::<T>(journal, address, key, value).0, other_address, other_key)
            == (if other_address == address {
            Err::<Option<U::V>, crate::error::ApplyErrorModel>(undecodable::<U>())
        } else {
            entry_at::<U>(journal, other_address, other_key)
        }),
{
    let entries = stored_entries::<T>(journal, address)->Ok_0;
    let stored = with_entry::<T>(entries, key, value);
    lemma_container_of_other_kind::<T, U>(stored);
    lemma_content_push(
        journal,
        CellModel { address, data: Some(container_bytes::<T>(stored)), written: true },
        other_address,
    );
}

/// Setting what was got changes nothing: where an address holds the bytes of
/// a container that is strictly sorted, setting for a key the entry that the
/// container has for it writes the same bytes again.
pub proof fn law_set_what_was_got<T: Keyed>(
    journal: Seq<CellModel>,
    address: Seq<char>,
    key: Key,
    entries: Seq<T::V>,
)
    requires
        content(journal, address) == Some(Some(container_bytes::<T>(entries))),
        strictly_sorted::<T>(entries),
        entry_of::<T>(entries, key) is Some,
    ensures
        entry_at::<T>(journal, address, key) == Ok::<Option<T::V>, crate::error::ApplyErrorModel>(
            entry_of::<T>(entries, key),
        ),
        journal_with::<T>(journal, address, key, entry_of::<T>(entries, key)->Some_0).0
            == written(journal, address, container_bytes::<T>(entries)),
        content(
            journal_with::<T>(journal, address, key, entry_of::<T>(entries, key)->Some_0).0,
            address,
        ) == content(journal, address),
{
    lemma_container_round_trip::<T>(entries);
    lemma_position_from::<T>(entries, key, 0);
    let p = position_of::<T>(entries, key);
    let found = entries[p];
    let kept = entries.remove(p);
    assert forall|i: int, j: int| 0 <= i < j < kept.len() implies T::le(
        #[trigger] kept[i],
        #[trigger] kept[j],
    ) && !T::le(kept[j], kept[i]) by {
        let a = if i < p {
            i
        } else {
            i + 1
        };
        let b = if j < p {
            j
        } else {
            j + 1
        };
        assert(kept[i] == entries[a] && kept[j] == entries[b]);
    }
    assert forall|k: int| 0 <= k < p implies T::le(#[trigger] kept[k], found) && !T::le(
        found,
        kept[k],
    ) by {
        assert(kept[k] == entries[k]);
    }
    assert forall|k: int| p <= k < kept.len() implies T::le(found, #[trigger] kept[k]) && !T::le(
        kept[k],
        found,
    ) by {
        assert(kept[k] == entries[k + 1]);
    }
    lemma_sort_push_strict::<T>(kept, found, p);
    assert(kept.insert(p, found) =~= entries);
    lemma_content_push(
        journal,
        CellModel { address, data: Some(container_bytes::<T>(entries)), written: true },
        address,
    );
}

/// Setting a valid participant keeps the state valid.
pub proof fn lemma_with_participant(
    journal: Seq<CellModel>,
    participant_id: Seq<char>,
    value: ParticipantModel,
)
    requires
        state_valid(journal),
        Participant::valid(value),
        Participant::key(value) == (participant_id, ""@),
    ensures
        state_valid(journal_with_participant(journal, participant_id, value).0),
{
    lemma_journal_with_own::<Participant>(
        journal,
        participant_address(participant_id),
        (participant_id, ""@),
        value,
    );
    lemma_journal_with_other::<Participant, Table>(
        journal,
        participant_address(participant_id),
        (participant_id, ""@),
        value,
    );
    lemma_journal_with_other::<Participant, Record>(
        journal,
        participant_address(participant_id),
        (participant_id, ""@),
        value,
    );
    lemma_journal_with_other::<Participant, Property>(
        journal,
        participant_address(participant_id),
        (participant_id, ""@),
        value,
    );
    lemma_journal_with_other::<Participant, PropertyPage>(
        journal,
        participant_address(participant_id),
        (participant_id, ""@),
        value,
    );
    lemma_journal_with_other::<Participant, Proposal>(
        journal,
        participant_address(participant_id),
        (participant_id, ""@),
        value,
    );
    lemma_journal_with_other::<Participant, Exchange>(
        journal,
        participant_address(participant_id),
        (participant_id, ""@),
        value,
    );
}

/// What is read has the key it was asked for, and is valid where it is read
/// from a valid state.
pub proof fn lemma_participant_read(journal: Seq<CellModel>, participant_id: Seq<char>)
    ensures
        match participant_at(journal, participant_id) {
            Ok(Some(found)) => Participant::key(found) == (participant_id, ""@)
                && (state_valid(journal) ==> Participant::valid(found)),
            _ => true,
        },
{
    lemma_entry_valid::<Participant>(
        journal,
        participant_address(participant_id),
        (participant_id, ""@),
    );
}

/// Setting a valid table keeps the state valid.
pub proof fn lemma_with_table(journal: Seq<CellModel>, name: Seq<char>, value: TableModel)
    requires
        state_valid(journal),
        Table::valid(value),
        Table::key(value) == (name, ""@),
    ensures
        state_valid(journal_with_table(journal, name, value).0),
{
    lemma_journal_with_own::<Table>(journal, table_address(name), (name, ""@), value);
    lemma_journal_with_other::<Table, Participant>(
        journal,
        table_address(name),
        (name, ""@),
        value,
    );
    lemma_journal_with_other::<Table, Record>(journal, table_address(name), (name, ""@), value);
    lemma_journal_with_other::<Table, Property>(journal, table_address(name), (name, ""@), value);
    lemma_journal_with_other::<Table, PropertyPage>(
        journal,
        table_address(name),
        (name, ""@),
        value,
    );
    lemma_journal_with_other::<Table, Proposal>(journal, table_address(name), (name, ""@), value);
    lemma_journal_with_other::<Table, Exchange>(journal, table_address(name), (name, ""@), value);
}

/// Setting a valid record keeps the state valid.
pub proof fn lemma_with_record(journal: Seq<CellModel>, record_id: Seq<char>, value: RecordModel)
    requires
        state_valid(journal),
        Record::valid(value),
        Record::key(value) == (record_id, ""@),
    ensures
        state_valid(journal_with_record(journal, record_id, value).0),
{
    lemma_journal_with_own::<Record>(journal, record_address(record_id), (record_id, ""@), value);
    lemma_journal_with_other::<Record, Participant>(
        journal,
        record_address(record_id),
        (record_id, ""@),
        value,
    );
    lemma_journal_with_other::<Record, Table>(
        journal,
        record_address(record_id),
        (record_id, ""@),
        value,
    );
    lemma_journal_with_other::<Record, Property>(
        journal,
        record_address(record_id),
        (record_id, ""@),
        value,
    );
    lemma_journal_with_other::<Record, PropertyPage>(
        journal,
        record_address(record_id),
        (record_id, ""@),
        value,
    );
    lemma_journal_with_other::<Record, Proposal>(
        journal,
        record_address(record_id),
        (record_id, ""@),
        value,
    );
    lemma_journal_with_other::<Record, Exchange>(
        journal,
        record_address(record_id),
        (record_id, ""@),
        value,
    );
}

/// What is read has the key it was asked for, and is valid where it is read
/// from a valid state.
pub proof fn lemma_record_read(journal: Seq<CellModel>, record_id: Seq<char>)
    ensures
        match record_at(journal, record_id) {
            Ok(Some(found)) => Record::key(found) == (record_id, ""@)
                && (state_valid(journal) ==> Record::valid(found)),
            _ => true,
        },
{
    lemma_entry_valid::<Record>(journal, record_address(record_id), (record_id, ""@));
}

/// Setting a valid property keeps the state valid.
pub proof fn lemma_with_property(
    journal: Seq<CellModel>,
    record_id: Seq<char>,
    property_name: Seq<char>,
    value: PropertyModel,
)
    requires
        state_valid(journal),
        Property::valid(value),
        Property::key(value) == (record_id, property_name),
    ensures
        state_valid(journal_with_property(journal, record_id, property_name, value).0),
{
    lemma_journal_with_own::<Property>(
        journal,
        property_address(record_id, property_name, 0),
        (record_id, property_name),
        value,
    );
    lemma_journal_with_other::<Property, Participant>(
        journal,
        property_address(record_id, property_name, 0),
        (record_id, property_name),
        value,
    );
    lemma_journal_with_other::<Property, Table>(
        journal,
        property_address(record_id, property_name, 0),
        (record_id, property_name),
        value,
    );
    lemma_journal_with_other::<Property, Record>(
        journal,
        property_address(record_id, property_name, 0),
        (record_id, property_name),
        value,
    );
    lemma_journal_with_other::<Property, PropertyPage>(
        journal,
        property_address(record_id, property_name, 0),
        (record_id, property_name),
        value,
    );
    lemma_journal_with_other::<Property, Proposal>(
        journal,
        property_address(record_id, property_name, 0),
        (record_id, property_name),
        value,
    );
    lemma_journal_with_other::<Property, Exchange>(
        journal,
        property_address(record_id, property_name, 0),
        (record_id, property_name),
        value,
    );
}

/// What is read has the key it was asked for, and is valid where it is read
/// from a valid state.
pub proof fn lemma_property_read(
    journal: Seq<CellModel>,
    record_id: Seq<char>,
    property_name: Seq<char>,
)
    ensures
        match property_at(journal, record_id, property_name) {
            Ok(Some(found)) => Property::key(found) == (record_id, property_name)
                && (state_valid(journal) ==> Property::valid(found)),
            _ => true,
        },
{
    lemma_entry_valid::<Property>(
        journal,
        property_address(record_id, property_name, 0),
        (record_id, property_name),
    );
}

/// Setting a valid page keeps the state valid.
pub proof fn lemma_with_property_page(
    journal: Seq<CellModel>,
    record_id: Seq<char>,
    property_name: Seq<char>,
    page: u32,
    value: PropertyPageModel,
)
    requires
        state_valid(journal),
        PropertyPage::valid(value),
        PropertyPage::key(value) == (record_id, property_name),
    ensures
        state_valid(journal_with_property_page(journal, record_id, property_name, page, value).0),
{
    lemma_journal_with_own::<PropertyPage>(
        journal,
        property_address(record_id, property_name, page),
        (record_id, property_name),
        value,
    );
    lemma_journal_with_other::<PropertyPage, Participant>(
        journal,
        property_address(record_id, property_name, page),
        (record_id, property_name),
        value,
    );
    lemma_journal_with_other::<PropertyPage, Table>(
        journal,
        property_address(record_id, property_name, page),
        (record_id, property_name),
        value,
    );
    lemma_journal_with_other::<PropertyPage, Record>(
        journal,
        property_address(record_id, property_name, page),
        (record_id, property_name),
        value,
    );
    lemma_journal_with_other::<PropertyPage, Property>(
        journal,
        property_address(record_id, property_name, page),
        (record_id, property_name),
        value,
    );
    lemma_journal_with_other::<PropertyPage, Proposal>(
        journal,
        property_address(record_id, property_name, page),
        (record_id, property_name),
        value,
    );
    lemma_journal_with_other::<PropertyPage, Exchange>(
        journal,
        property_address(record_id, property_name, page),
        (record_id, property_name),
        value,
    );
}

/// What is read has the key it was asked for, and is valid where it is read
/// from a valid state.
pub proof fn lemma_property_page_read(
    journal: Seq<CellModel>,
    record_id: Seq<char>,
    property_name: Seq<char>,
    page: u32,
)
    ensures
        match property_page_at(journal, record_id, property_name, page) {
            Ok(Some(found)) => PropertyPage::key(found) == (record_id, property_name)
                && (state_valid(journal) ==> PropertyPage::valid(found)),
            _ => true,
        },
{
    lemma_entry_valid::<PropertyPage>(
        journal,
        property_address(record_id, property_name, page),
        (record_id, property_name),
    );
}

/// Setting a valid proposal keeps the state valid.
pub proof fn lemma_with_proposal(
    journal: Seq<CellModel>,
    proposal_id: Seq<char>,
    value: ProposalModel,
)
    requires
        state_valid(journal),
        Proposal::valid(value),
        Proposal::key(value) == (proposal_id, ""@),
    ensures
        state_valid(journal_with_proposal(journal, proposal_id, value).0),
{
    lemma_journal_with_own::<Proposal>(
        journal,
        proposal_address(proposal_id),
        (proposal_id, ""@),
        value,
    );
    lemma_journal_with_other::<Proposal, Participant>(
        journal,
        proposal_address(proposal_id),
        (proposal_id, ""@),
        value,
    );
    lemma_journal_with_other::<Proposal, Table>(
        journal,
        proposal_address(proposal_id),
        (proposal_id, ""@),
        value,
    );
    lemma_journal_with_other::<Proposal, Record>(
        journal,
        proposal_address(proposal_id),
        (proposal_id, ""@),
        value,
    );
    lemma_journal_with_other::<Proposal, Property>(
        journal,
        proposal_address(proposal_id),
        (proposal_id, ""@),
        value,
    );
    lemma_journal_with_other::<Proposal, PropertyPage>(
        journal,
        proposal_address(proposal_id),
        (proposal_id, ""@),
        value,
    );
    lemma_journal_with_other::<Proposal, Exchange>(
        journal,
        proposal_address(proposal_id),
        (proposal_id, ""@),
        value,
    );
}

/// What is read has the key it was asked for, and is valid where it is read
/// from a valid state.
pub proof fn lemma_proposal_read(journal: Seq<CellModel>, proposal_id: Seq<char>)
    ensures
        match proposal_at(journal, proposal_id) {
            Ok(Some(found)) => Proposal::key(found) == (proposal_id, ""@)
                && (state_valid(journal) ==> Proposal::valid(found)),
            _ => true,
        },
{
    lemma_entry_valid::<Proposal>(journal, proposal_address(proposal_id), (proposal_id, ""@));
}

/// Setting a valid exchange keeps the state valid.
pub proof fn lemma_with_exchange(
    journal: Seq<CellModel>,
    buy_proposal_id: Seq<char>,
    sell_proposal_id: Seq<char>,
    value: ExchangeModel,
)
    requires
        state_valid(journal),
        Exchange::valid(value),
        Exchange::key(value) == (buy_proposal_id, sell_proposal_id),
    ensures
        state_valid(journal_with_exchange(journal, buy_proposal_id, sell_proposal_id, value).0),
{
    lemma_journal_with_own::<Exchange>(
        journal,
        exchange_address(buy_proposal_id, sell_proposal_id),
        (buy_proposal_id, sell_proposal_id),
        value,
    );
    lemma_journal_with_other::<Exchange, Participant>(
        journal,
        exchange_address(buy_proposal_id, sell_proposal_id),
        (buy_proposal_id, sell_proposal_id),
        value,
    );
    lemma_journal_with_other::<Exchange, Table>(
        journal,
        exchange_address(buy_proposal_id, sell_proposal_id),
        (buy_proposal_id, sell_proposal_id),
        value,
    );
    lemma_journal_with_other::<Exchange, Record>(
        journal,
        exchange_address(buy_proposal_id, sell_proposal_id),
        (buy_proposal_id, sell_proposal_id),
        value,
    );
    lemma_journal_with_other::<Exchange, Property>(
        journal,
        exchange_address(buy_proposal_id, sell_proposal_id),
        (buy_proposal_id, sell_proposal_id),
        value,
    );
    lemma_journal_with_other::<Exchange, PropertyPage>(
        journal,
        exchange_address(buy_proposal_id, sell_proposal_id),
        (buy_proposal_id, sell_proposal_id),
        value,
    );
    lemma_journal_with_other::<Exchange, Proposal>(
        journal,
        exchange_address(buy_proposal_id, sell_proposal_id),
        (buy_proposal_id, sell_proposal_id),
        value,
    );
}

} // verus!
