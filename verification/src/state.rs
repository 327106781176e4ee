//! The state that a transaction reads and writes.
//!
//! The state is a journal of cells. The host hands in the cells that it has
//! loaded; every write appends a cell. What an address holds is what its
//! latest cell says, so a transaction reads its own writes. The written cells,
//! in order, are what the host commits when the transaction succeeds.

use crate::addressing::{
    exchange_address, make_exchange_address, make_participant_address, make_property_address,
    make_proposal_address, make_record_address, make_table_address, participant_address,
    property_address, proposal_address, record_address, table_address,
};
use crate::container::{
    container_bytes, container_of, decode_container, encode_container, entry_of, put_entry,
    take_entry, with_entry, Keyed,
};
use crate::error::{outcome, ApplyError, ApplyErrorModel};
use crate::participant::{Participant, ParticipantModel};
use crate::property::{Property, PropertyModel, PropertyPage, PropertyPageModel};
use crate::proposal::{Exchange, ExchangeModel, Proposal, ProposalModel};
use crate::record::{Record, RecordModel, Table, TableModel};
use crate::text::{join, text_eq, Key};
use vstd::prelude::*;
use vstd::string::*;

verus! {

/// One entry of the journal: what an address holds.
#[derive(Clone, Debug, PartialEq, Eq)]
pub struct Cell {
    pub address: String,
    /// The bytes at the address; `None` where the address holds nothing.
    pub data: Option<Vec<u8>>,
    /// Whether the transaction wrote the cell, or the host loaded it.
    pub written: bool,
}

/// The mathematical value of a [`Cell`].
pub struct CellModel {
    pub address: Seq<char>,
    pub data: Option<Seq<u8>>,
    pub written: bool,
}

/// The bytes behind an optional byte vector.
pub open spec fn bytes_of(data: Option<Vec<u8>>) -> Option<Seq<u8>> {
    match data {
        Some(b) => Some(b@),
        None => None,
    }
}

impl DeepView for Cell {
    type V = CellModel;

    open spec fn deep_view(&self) -> CellModel {
        CellModel { address: self.address@, data: bytes_of(self.data), written: self.written }
    }
}

impl View for Cell {
    type V = CellModel;

    open spec fn view(&self) -> CellModel {
        self.deep_view()
    }
}

/// The state of the ledger as one transaction sees it.
#[derive(Clone, Debug, PartialEq, Eq)]
pub struct StateDGC {
    /// The journal, oldest cell first.
    pub cells: Vec<Cell>,
}

impl View for StateDGC {
    type V = Seq<CellModel>;

    open spec fn view(&self) -> Seq<CellModel> {
        self.cells.deep_view()
    }
}

/// The state after a step of a transaction, and whether the step succeeded.
pub type Step = (Seq<CellModel>, Result<(), ApplyErrorModel>);

/// What the journal says of an address: `None` where no cell speaks of it,
/// else what its latest cell holds.
pub open spec fn content(journal: Seq<CellModel>, address: Seq<char>) -> Option<Option<Seq<u8>>>
    decreases journal.len(),
{
    if journal.len() == 0 {
        None
    } else if journal.last().address == address {
        Some(journal.last().data)
    } else {
        content(journal.drop_last(), address)
    }
}

/// The journal after a write.
pub open spec fn written(journal: Seq<CellModel>, address: Seq<char>, data: Seq<u8>) -> Seq<
    CellModel,
> {
    journal.push(CellModel { address, data: Some(data), written: true })
}

/// After a cell is appended, its address holds what the cell says, and every
/// other address holds what it held.
pub proof fn lemma_content_push(journal: Seq<CellModel>, cell: CellModel, address: Seq<char>)
    ensures
        content(journal.push(cell), address) == if cell.address == address {
            Some(cell.data)
        } else {
            content(journal, address)
        },
{
    assert(journal.push(cell).drop_last() =~= journal);
}

/// The failure to read a container of a kind.
pub open spec fn undecodable<T: Keyed>() -> ApplyErrorModel {
    ApplyErrorModel::InternalError("Cannot deserialize "@ + T::kind() + " container"@)
}

/// The container at an address: empty where the address holds nothing.
pub open spec fn stored_entries<T: Keyed>(journal: Seq<CellModel>, address: Seq<char>) -> Result<
    Seq<T::V>,
    ApplyErrorModel,
> {
    match content(journal, address) {
        None => Err(ApplyErrorModel::StateNotLoaded(address)),
        Some(None) => Ok(Seq::empty()),
        Some(Some(bytes)) => match container_of::<T>(bytes) {
            Some(entries) => Ok(entries),
            None => Err(undecodable::<T>()),
        },
    }
}

/// The entry for a key in the container at an address.
pub open spec fn entry_at<T: Keyed>(
    journal: Seq<CellModel>,
    address: Seq<char>,
    key: Key,
) -> Result<
    Option<T::V>,
    ApplyErrorModel,
> {
    match stored_entries::<T>(journal, address) {
        Ok(entries) => Ok(entry_of::<T>(entries, key)),
        Err(e) => Err(e),
    }
}

/// The journal after `value` has been set for `key` in the container at an
/// address, and whether it could be. Nothing is written where the container
/// cannot be read.
pub open spec fn journal_with<T: Keyed>(
    journal: Seq<CellModel>,
    address: Seq<char>,
    key: Key,
    value: T::V,
) -> (Seq<CellModel>, Result<(), ApplyErrorModel>) {
    match stored_entries::<T>(journal, address) {
        Ok(entries) => (
            written(journal, address, container_bytes::<T>(with_entry::<T>(entries, key, value))),
            Ok(()),
        ),
        Err(e) => (journal, Err(e)),
    }
}

/// The record that the state holds for a key.
pub open spec fn record_at(
    journal: Seq<CellModel>,
    record_id: Seq<char>,
) -> Result<Option<RecordModel>, ApplyErrorModel> {
    entry_at::<Record>(journal, record_address(record_id), (record_id, ""@))
}

/// The state after a record has been set, and whether it could be.
pub open spec fn journal_with_record(
    journal: Seq<CellModel>,
    record_id: Seq<char>,
    value: RecordModel,
) -> Step {
    journal_with::<Record>(journal, record_address(record_id), (record_id, ""@), value)
}

/// The table that the state holds for a key.
pub open spec fn table_at(
    journal: Seq<CellModel>,
    name: Seq<char>,
) -> Result<Option<TableModel>, ApplyErrorModel> {
    entry_at::<Table>(journal, table_address(name), (name, ""@))
}

/// The state after a table has been set, and whether it could be.
pub open spec fn journal_with_table(
    journal: Seq<CellModel>,
    name: Seq<char>,
    value: TableModel,
) -> Step {
    journal_with::<Table>(journal, table_address(name), (name, ""@), value)
}

/// The participant that the state holds for a key.
pub open spec fn participant_at(
    journal: Seq<CellModel>,
    participant_id: Seq<char>,
) -> Result<Option<ParticipantModel>, ApplyErrorModel> {
    entry_at::<Participant>(journal, participant_address(participant_id), (participant_id, ""@))
}

/// The state after a participant has been set, and whether it could be.
pub open spec fn journal_with_participant(
    journal: Seq<CellModel>,
    participant_id: Seq<char>,
    value: ParticipantModel,
) -> Step {
    journal_with::<Participant>(
        journal,
        participant_address(participant_id),
        (participant_id, ""@),
        value,
    )
}

/// The property that the state holds for a key.
pub open spec fn property_at(
    journal: Seq<CellModel>,
    record_id: Seq<char>,
    property_name: Seq<char>,
) -> Result<Option<PropertyModel>, ApplyErrorModel> {
    entry_at::<Property>(
        journal,
        property_address(record_id, property_name, 0),
        (record_id, property_name),
    )
}

/// The state after a property has been set, and whether it could be.
pub open spec fn journal_with_property(
    journal: Seq<CellModel>,
    record_id: Seq<char>,
    property_name: Seq<char>,
    value: PropertyModel,
) -> Step {
    journal_with::<Property>(
        journal,
        property_address(record_id, property_name, 0),
        (record_id, property_name),
        value,
    )
}

/// The page of a property that the state holds for a key.
pub open spec fn property_page_at(
    journal: Seq<CellModel>,
    record_id: Seq<char>,
    property_name: Seq<char>,
    page: u32,
) -> Result<Option<PropertyPageModel>, ApplyErrorModel> {
    entry_at::<PropertyPage>(
        journal,
        property_address(record_id, property_name, page),
        (record_id, property_name),
    )
}

/// The state after a page of a property has been set, and whether it could be.
pub open spec fn journal_with_property_page(
    journal: Seq<CellModel>,
    record_id: Seq<char>,
    property_name: Seq<char>,
    page: u32,
    value: PropertyPageModel,
) -> Step {
    journal_with::<PropertyPage>(
        journal,
        property_address(record_id, property_name, page),
        (record_id, property_name),
        value,
    )
}

/// The proposal that the state holds for a key.
pub open spec fn proposal_at(
    journal: Seq<CellModel>,
    proposal_id: Seq<char>,
) -> Result<Option<ProposalModel>, ApplyErrorModel> {
    entry_at::<Proposal>(journal, proposal_address(proposal_id), (proposal_id, ""@))
}

/// The state after a proposal has been set, and whether it could be.
pub open spec fn journal_with_proposal(
    journal: Seq<CellModel>,
    proposal_id: Seq<char>,
    value: ProposalModel,
) -> Step {
    journal_with::<Proposal>(journal, proposal_address(proposal_id), (proposal_id, ""@), value)
}

/// The exchange that the state holds for a key.
pub open spec fn exchange_at(
    journal: Seq<CellModel>,
    buy_proposal_id: Seq<char>,
    sell_proposal_id: Seq<char>,
) -> Result<Option<ExchangeModel>, ApplyErrorModel> {
    entry_at::<Exchange>(
        journal,
        exchange_address(buy_proposal_id, sell_proposal_id),
        (buy_proposal_id, sell_proposal_id),
    )
}

/// The state after a exchange has been set, and whether it could be.
pub open spec fn journal_with_exchange(
    journal: Seq<CellModel>,
    buy_proposal_id: Seq<char>,
    sell_proposal_id: Seq<char>,
    value: ExchangeModel,
) -> Step {
    journal_with::<Exchange>(
        journal,
        exchange_address(buy_proposal_id, sell_proposal_id),
        (buy_proposal_id, sell_proposal_id),
        value,
    )
}

impl StateDGC {
    /// A state of which nothing is known yet.
    pub fn new() -> (state: StateDGC)
        ensures
            state@ == Seq::<CellModel>::empty(),
    {
        let state = StateDGC { cells: Vec::new() };
        assert(state@ =~= Seq::<CellModel>::empty());
        state
    }

    /// Hands the state what the store holds at an address.
    pub fn load(&mut self, address: String, data: Option<Vec<u8>>)
        ensures
            final(self)@ == old(self)@.push(
                CellModel { address: address@, data: bytes_of(data), written: false },
            ),
    {
        let ghost before = self@;
        let cell = Cell { address, data, written: false };
        self.cells.push(cell);
        assert(self@ =~= before.push(cell@));
    }

    /// What an address holds.
    pub fn get_state(&self, address: &str) -> (r: Result<Option<&Vec<u8>>, ApplyError>)
        ensures
            match content(self@, address@) {
                Some(data) => r matches Ok(found) && (match found {
                    Some(b) => Some(b@),
                    None => None,
                }) == data,
                None => r matches Err(e) && e@ == ApplyErrorModel::StateNotLoaded(address@),
            },
    {
        let mut i: usize = self.cells.len();
        proof {
            assert(self@.take(i as int) =~= self@);
        }
        while i > 0
            invariant
                i <= self.cells.len(),
                content(self@, address@) == content(self@.take(i as int), address@),
            decreases i,
        {
            i = i - 1;
            proof {
                assert(self@.take(i as int + 1).drop_last() =~= self@.take(i as int));
                assert(self@.take(i as int + 1).last() == self.cells[i as int]@);
            }
            if text_eq(self.cells[i].address.as_str(), address) {
                return Ok(self.cells[i].data.as_ref());
            }
        }
        proof {
            assert(self@.take(0) =~= Seq::<CellModel>::empty());
        }
        Err(ApplyError::StateNotLoaded(String::from_str(address)))
    }

    /// Writes bytes to an address.
    pub fn set_state(&mut self, address: String, data: Vec<u8>)
        ensures
            final(self)@ == written(old(self)@, address@, data@),
    {
        let ghost before = self@;
        let cell = Cell { address, data: Some(data), written: true };
        self.cells.push(cell);
        assert(self@ =~= before.push(cell@));
    }

    /// Reads the container at an address.
    pub fn read_entries<T: Keyed>(&self, address: &str) -> (r: Result<Vec<T>, ApplyError>)
        ensures
            outcome(r) == stored_entries::<T>(self@, address@),
    {
        match self.get_state(address) {
            Err(e) => Err(e),
            Ok(None) => {
                let entries: Vec<T> = Vec::new();
                assert(entries.deep_view() =~= Seq::<T::V>::empty());
                Ok(entries)
            },
            Ok(Some(bytes)) => match decode_container::<T>(bytes.as_slice()) {
                Some(entries) => Ok(entries),
                None => Err(
                    ApplyError::InternalError(
                        join(join("Cannot deserialize ", T::kind_name()).as_str(), " container"),
                    ),
                ),
            },
        }
    }

    /// Reads the entry for a key from the container at an address.
    pub fn get_entry<T: Keyed>(&self, address: &str, first: &str, second: &str) -> (r: Result<
        Option<T>,
        ApplyError,
    >)
        ensures
            outcome(r) == entry_at::<T>(self@, address@, (first@, second@)),
    {
        match self.read_entries::<T>(address) {
            Ok(entries) => Ok(take_entry(entries, first, second)),
            Err(e) => Err(e),
        }
    }

    /// Sets the entry for a key in the container at an address.
    pub fn set_entry<T: Keyed>(
        &mut self,
        address: String,
        first: &str,
        second: &str,
        value: T,
    ) -> (r: Result<(), ApplyError>)
        ensures
            (final(self)@, outcome(r)) == journal_with::<T>(
                old(self)@,
                address@,
                (first@, second@),
                value.deep_view(),
            ),
    {
        match self.read_entries::<T>(address.as_str()) {
            Ok(entries) => {
                let entries = put_entry(entries, first, second, value);
                let bytes = encode_container(&entries);
                self.set_state(address, bytes);
                Ok(())
            },
            Err(e) => Err(e),
        }
    }

    /// Reads the record with the given key; `None` where there is none.
    pub fn get_record(&self, record_id: &str) -> (r: Result<Option<Record>, ApplyError>)
        ensures
            outcome(r) == record_at(self@, record_id@),
    {
        let address = make_record_address(record_id);
        proof {
            reveal_strlit("");
        }
        self.get_entry::<Record>(address.as_str(), record_id, "")
    }

    /// Sets the record for the given key: the container at its address is read,
    /// an entry with the key is removed, the new one is added, and the
    /// container is written back in order.
    pub fn set_record(&mut self, record_id: &str, record: Record) -> (r: Result<(), ApplyError>)
        ensures
            (final(self)@, outcome(r)) == journal_with_record(old(self)@, record_id@, record@),
    {
        let address = make_record_address(record_id);
        proof {
            reveal_strlit("");
        }
        self.set_entry::<Record>(address, record_id, "", record)
    }

    /// Reads the table with the given key; `None` where there is none.
    pub fn get_table(&self, name: &str) -> (r: Result<Option<Table>, ApplyError>)
        ensures
            outcome(r) == table_at(self@, name@),
    {
        let address = make_table_address(name);
        proof {
            reveal_strlit("");
        }
        self.get_entry::<Table>(address.as_str(), name, "")
    }

    /// Sets the table for the given key: the container at its address is read,
    /// an entry with the key is removed, the new one is added, and the
    /// container is written back in order.
    pub fn set_table(&mut self, name: &str, table: Table) -> (r: Result<(), ApplyError>)
        ensures
            (final(self)@, outcome(r)) == journal_with_table(old(self)@, name@, table@),
    {
        let address = make_table_address(name);
        proof {
            reveal_strlit("");
        }
        self.set_entry::<Table>(address, name, "", table)
    }

    /// Reads the participant with the given key; `None` where there is none.
    pub fn get_participant(
        &self,
        participant_id: &str,
    ) -> (r: Result<Option<Participant>, ApplyError>)
        ensures
            outcome(r) == participant_at(self@, participant_id@),
    {
        let address = make_participant_address(participant_id);
        proof {
            reveal_strlit("");
        }
        self.get_entry::<Participant>(address.as_str(), participant_id, "")
    }

    /// Sets the participant for the given key: the container at its address is read,
    /// an entry with the key is removed, the new one is added, and the
    /// container is written back in order.
    pub fn set_participant(
        &mut self,
        participant_id: &str,
        participant: Participant,
    ) -> (r: Result<(), ApplyError>)
        ensures
            (final(self)@, outcome(r)) == journal_with_participant(
                old(self)@,
                participant_id@,
                participant@,
            ),
    {
        let address = make_participant_address(participant_id);
        proof {
            reveal_strlit("");
        }
        self.set_entry::<Participant>(address, participant_id, "", participant)
    }

    /// Reads the property with the given key; `None` where there is none.
    pub fn get_property(
        &self,
        record_id: &str,
        property_name: &str,
    ) -> (r: Result<Option<Property>, ApplyError>)
        ensures
            outcome(r) == property_at(self@, record_id@, property_name@),
    {
        let address = make_property_address(record_id, property_name, 0);
        proof {
            reveal_strlit("");
        }
        self.get_entry::<Property>(address.as_str(), record_id, property_name)
    }

    /// Sets the property for the given key: the container at its address is read,
    /// an entry with the key is removed, the new one is added, and the
    /// container is written back in order.
    pub fn set_property(
        &mut self,
        record_id: &str,
        property_name: &str,
        property: Property,
    ) -> (r: Result<(), ApplyError>)
        ensures
            (final(self)@, outcome(r)) == journal_with_property(
                old(self)@,
                record_id@,
                property_name@,
                property@,
            ),
    {
        let address = make_property_address(record_id, property_name, 0);
        proof {
            reveal_strlit("");
        }
        self.set_entry::<Property>(address, record_id, property_name, property)
    }

    /// Reads the page of a property with the given key; `None` where there is none.
    pub fn get_property_page(
        &self,
        record_id: &str,
        property_name: &str,
        page: u32,
    ) -> (r: Result<Option<PropertyPage>, ApplyError>)
        ensures
            outcome(r) == property_page_at(self@, record_id@, property_name@, page),
    {
        let address = make_property_address(record_id, property_name, page);
        proof {
            reveal_strlit("");
        }
        self.get_entry::<PropertyPage>(address.as_str(), record_id, property_name)
    }

    /// Sets the page of a property for the given key: the container at its address is read,
    /// an entry with the key is removed, the new one is added, and the
    /// container is written back in order.
    pub fn set_property_page(
        &mut self,
        record_id: &str,
        property_name: &str,
        page: u32,
        property_page: PropertyPage,
    ) -> (r: Result<(), ApplyError>)
        ensures
            (final(self)@, outcome(r)) == journal_with_property_page(
                old(self)@,
                record_id@,
                property_name@,
                page,
                property_page@,
            ),
    {
        let address = make_property_address(record_id, property_name, page);
        proof {
            reveal_strlit("");
        }
        self.set_entry::<PropertyPage>(address, record_id, property_name, property_page)
    }

    /// Reads the proposal with the given key; `None` where there is none.
    pub fn get_proposal(&self, proposal_id: &str) -> (r: Result<Option<Proposal>, ApplyError>)
        ensures
            outcome(r) == proposal_at(self@, proposal_id@),
    {
        let address = make_proposal_address(proposal_id);
        proof {
            reveal_strlit("");
        }
        self.get_entry::<Proposal>(address.as_str(), proposal_id, "")
    }

    /// Sets the proposal for the given key: the container at its address is read,
    /// an entry with the key is removed, the new one is added, and the
    /// container is written back in order.
    pub fn set_proposal(
        &mut self,
        proposal_id: &str,
        proposal: Proposal,
    ) -> (r: Result<(), ApplyError>)
        ensures
            (final(self)@, outcome(r)) == journal_with_proposal(
                old(self)@,
                proposal_id@,
                proposal@,
            ),
    {
        let address = make_proposal_address(proposal_id);
        proof {
            reveal_strlit("");
        }
        self.set_entry::<Proposal>(address, proposal_id, "", proposal)
    }

    /// Reads the exchange with the given key; `None` where there is none.
    pub fn get_exchange(
        &self,
        buy_proposal_id: &str,
        sell_proposal_id: &str,
    ) -> (r: Result<Option<Exchange>, ApplyError>)
        ensures
            outcome(r) == exchange_at(self@, buy_proposal_id@, sell_proposal_id@),
    {
        let address = make_exchange_address(buy_proposal_id, sell_proposal_id);
        proof {
            reveal_strlit("");
        }
        self.get_entry::<Exchange>(address.as_str(), buy_proposal_id, sell_proposal_id)
    }

    /// Sets the exchange for the given key: the container at its address is read,
    /// an entry with the key is removed, the new one is added, and the
    /// container is written back in order.
    pub fn set_exchange(
        &mut self,
        buy_proposal_id: &str,
        sell_proposal_id: &str,
        exchange: Exchange,
    ) -> (r: Result<(), ApplyError>)
        ensures
            (final(self)@, outcome(r)) == journal_with_exchange(
                old(self)@,
                buy_proposal_id@,
                sell_proposal_id@,
                exchange@,
            ),
    {
        let address = make_exchange_address(buy_proposal_id, sell_proposal_id);
        proof {
            reveal_strlit("");
        }
        self.set_entry::<Exchange>(address, buy_proposal_id, sell_proposal_id, exchange)
    }
}

} // verus!
