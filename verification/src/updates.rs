//! Reporting new values of properties, and the ring of pages.
//!
//! The pages of a property are a ring of 256 slots. A value goes to the
//! current page, which is kept sorted by timestamp and reporter. When the
//! page has reached 256 values, the next page in the ring is emptied and
//! becomes the current one; after page 256 comes page 1 again, and from then
//! on the property is marked as wrapped.

use crate::error::{outcome, reject, rejection, ApplyError, ApplyErrorModel};
use crate::handler::TransactionHandlerDGC;
use crate::order::{lemma_sort_len, sort, stable_sort};
use crate::payload::{UpdatePropertiesAction, UpdatePropertiesActionModel};
use crate::property::{
    Property, PropertyModel, PropertyPage, PropertyPageModel, ReportedValue, ReportedValueModel,
    Reporter, ReporterModel,
};
use crate::records::{make_page, page_of};
use crate::state::{
    journal_with_property, journal_with_property_page, property_at, property_page_at, record_at,
    CellModel, StateDGC, Step,
};
use crate::text::{join, text_eq};
use crate::value::{PropertyValue, PropertyValueModel};
use crate::values::{data_type_name, name_of_type, reported_value_of};
use vstd::prelude::*;
use vstd::string::*;

verus! {

/// How many values a page takes before the ring moves on.
pub const PROPERTY_PAGE_MAX_LENGTH: usize = 256;

/// How many pages the ring has.
pub const PROPERTY_PAGE_COUNT: u32 = 256;

/// The first position from `i` on of an authorized reporter with the key, or
/// the length.
pub open spec fn reporter_position_from(
    reporters: Seq<ReporterModel>,
    signer: Seq<char>,
    i: int,
) -> int
    decreases reporters.len() - i,
{
    if i >= reporters.len() {
        reporters.len() as int
    } else if reporters[i].public_key == signer && reporters[i].authorized {
        i
    } else {
        reporter_position_from(reporters, signer, i + 1)
    }
}

/// The page after `current` in the ring.
pub open spec fn next_page(current: u32) -> u32 {
    if current >= PROPERTY_PAGE_COUNT {
        1
    } else {
        (current + 1) as u32
    }
}

/// A page after a value has been added: the values in order of timestamp
/// and, at equal timestamps, of reporter.
pub open spec fn page_with(
    page: PropertyPageModel,
    value: ReportedValueModel,
) -> PropertyPageModel {
    PropertyPageModel {
        reported_values: stable_sort::<ReportedValue>(page.reported_values.push(value)),
        ..page
    }
}

/// A property after the ring has moved on.
pub open spec fn rotated(property: PropertyModel) -> PropertyModel {
    PropertyModel {
        current_page: next_page(property.current_page),
        wrapped: property.wrapped || next_page(property.current_page) == 1,
        ..property
    }
}

/// The next page as it is when it becomes the current one: empty.
pub open spec fn emptied(
    found: Option<PropertyPageModel>,
    record_id: Seq<char>,
    name: Seq<char>,
) -> PropertyPageModel {
    match found {
        Some(page) => PropertyPageModel { reported_values: Seq::empty(), ..page },
        None => page_of(record_id, name, Seq::empty()),
    }
}

/// What moving the ring on does: the next page is stored empty, and the
/// property is stored with that page as its current one.
pub open spec fn rotate_spec(
    journal: Seq<CellModel>,
    record_id: Seq<char>,
    name: Seq<char>,
    property: PropertyModel,
) -> Step {
    let next = next_page(property.current_page);
    match property_page_at(journal, record_id, name, next) {
        Err(e) => (journal, Err(e)),
        Ok(found) => {
            let (stored, r) = journal_with_property_page(
                journal,
                record_id,
                name,
                next,
                emptied(found, record_id, name),
            );
            match r {
                Err(e) => (stored, Err(e)),
                Ok(()) => journal_with_property(stored, record_id, name, rotated(property)),
            }
        },
    }
}

/// Why the signer cannot report a value of a property, if it cannot: it is
/// no authorized reporter, the property is fixed, or the value has another
/// type than the property.
pub open spec fn update_fault(
    property: PropertyModel,
    update: PropertyValueModel,
    signer: Seq<char>,
) -> Option<ApplyErrorModel> {
    if reporter_position_from(property.reporters, signer, 0) >= property.reporters.len() {
        Some(rejection("Reporter is not authorized: "@, signer))
    } else if property.fixed {
        Some(rejection("Property is fixed and cannot be updated: "@, property.name))
    } else if update.data_type != property.data_type {
        Some(
            rejection(
                "Update has wrong type: "@ + data_type_name(update.data_type) + " != "@,
                data_type_name(property.data_type),
            ),
        )
    } else {
        None
    }
}

/// What storing a value on the current page of a property does: the page
/// must exist; the value is added to it in order; and where the page has then
/// 256 values or more, the ring moves on.
pub open spec fn append_spec(
    journal: Seq<CellModel>,
    record_id: Seq<char>,
    name: Seq<char>,
    property: PropertyModel,
    value: ReportedValueModel,
) -> Step {
    match property_page_at(journal, record_id, name, property.current_page) {
        Err(e) => (journal, Err(e)),
        Ok(None) => (journal, Err(rejection("Property page does not exist"@, ""@))),
        Ok(Some(page)) => {
            let full = page_with(page, value);
            let (stored, r) = journal_with_property_page(
                journal,
                record_id,
                name,
                property.current_page,
                full,
            );
            match r {
                Err(e) => (stored, Err(e)),
                Ok(()) => if full.reported_values.len() >= PROPERTY_PAGE_MAX_LENGTH {
                    rotate_spec(stored, record_id, name, property)
                } else {
                    (stored, Ok(()))
                },
            }
        },
    }
}

/// What one update does.
pub open spec fn update_property_step(
    journal: Seq<CellModel>,
    record_id: Seq<char>,
    update: PropertyValueModel,
    signer: Seq<char>,
    timestamp: u64,
) -> Step {
    match property_at(journal, record_id, update.name) {
        Err(e) => (journal, Err(e)),
        Ok(None) => (
            journal,
            Err(rejection("Record does not have provided property: "@, update.name)),
        ),
        Ok(Some(property)) => match update_fault(property, update, signer) {
            Some(e) => (journal, Err(e)),
            None => {
                let reporter = property.reporters[reporter_position_from(
                    property.reporters,
                    signer,
                    0,
                )];
                match property_page_at(journal, record_id, update.name, property.current_page) {
                    Err(e) => (journal, Err(e)),
                    Ok(None) => (journal, Err(rejection("Property page does not exist"@, ""@))),
                    Ok(Some(_)) => match reported_value_of(
                        reporter.index,
                        timestamp,
                        update,
                        property.enum_options,
                        property.struct_properties,
                    ) {
                        Err(e) => (journal, Err(e)),
                        Ok(value) => append_spec(journal, record_id, update.name, property, value),
                    },
                }
            },
        },
    }
}

/// What the updates from position `i` on do, one after the other.
pub open spec fn updates_from(
    journal: Seq<CellModel>,
    record_id: Seq<char>,
    updates: Seq<PropertyValueModel>,
    signer: Seq<char>,
    timestamp: u64,
    i: int,
) -> Step
    decreases updates.len() - i,
{
    if i < 0 || i >= updates.len() {
        (journal, Ok(()))
    } else {
        let (next, r) = update_property_step(journal, record_id, updates[i], signer, timestamp);
        match r {
            Err(e) => (next, Err(e)),
            Ok(()) => updates_from(next, record_id, updates, signer, timestamp, i + 1),
        }
    }
}

/// What updating properties does: the record must exist and must not be
/// final; then the updates are made in the order given.
#[verifier::opaque]
pub open spec fn update_properties_spec(
    journal: Seq<CellModel>,
    payload: UpdatePropertiesActionModel,
    signer: Seq<char>,
    timestamp: u64,
) -> Step {
    match record_at(journal, payload.record_id) {
        Err(e) => (journal, Err(e)),
        Ok(None) => (journal, Err(rejection("Record does not exist: "@, payload.record_id))),
        Ok(Some(record)) => if record.field_final {
            (journal, Err(rejection("Record is final: "@, payload.record_id)))
        } else {
            updates_from(journal, payload.record_id, payload.properties, signer, timestamp, 0)
        },
    }
}

/// The page after `current` in the ring.
pub fn page_after(current: u32) -> (next: u32)
    ensures
        next == next_page(current),
        1 <= next <= PROPERTY_PAGE_COUNT,
{
    if current >= PROPERTY_PAGE_COUNT {
        1
    } else {
        current + 1
    }
}

/// The position of the first authorized reporter with the key, or the length.
pub fn find_reporter(reporters: &Vec<Reporter>, signer: &str) -> (p: usize)
    ensures
        p == reporter_position_from(reporters.deep_view(), signer@, 0),
        p <= reporters.len(),
{
    let mut i: usize = 0;
    while i < reporters.len()
        invariant
            i <= reporters.len(),
            reporter_position_from(reporters.deep_view(), signer@, 0) == reporter_position_from(
                reporters.deep_view(),
                signer@,
                i as int,
            ),
        decreases reporters.len() - i,
    {
        if text_eq(reporters[i].public_key.as_str(), signer) && reporters[i].authorized {
            return i;
        }
        i = i + 1;
    }
    i
}

/// Adds a value to a page, in order.
pub fn add_to_page(page: PropertyPage, value: ReportedValue) -> (full: PropertyPage)
    ensures
        full@ == page_with(page@, value@),
        full.reported_values.len() == page.reported_values.len() + 1,
{
    let ghost before = page@.reported_values;
    let mut values = page.reported_values;
    values.push(value);
    proof {
        assert(values.deep_view() =~= before.push(value@));
        lemma_sort_len::<ReportedValue>(before.push(value@));
    }
    let values = sort(values);
    PropertyPage { name: page.name, record_id: page.record_id, reported_values: values }
}

impl TransactionHandlerDGC {
    /// Empties the next page of the ring and makes it the current one.
    pub fn rotate(
        &self,
        state: &mut StateDGC,
        record_id: &str,
        name: &str,
        property: Property,
    ) -> (r: Result<(), ApplyError>)
        ensures
            (final(state)@, outcome(r)) == rotate_spec(old(state)@, record_id@, name@, property@),
    {
        let next = page_after(property.current_page);
        let fresh = match state.get_property_page(record_id, name, next) {
            Ok(Some(page)) => {
                let fresh = PropertyPage {
                    name: page.name,
                    record_id: page.record_id,
                    reported_values: Vec::new(),
                };
                proof {
                    assert(fresh@.reported_values =~= Seq::<ReportedValueModel>::empty());
                }
                fresh
            },
            Ok(None) => make_page(record_id, name),
            Err(e) => {
                return Err(e);
            },
        };
        match state.set_property_page(record_id, name, next, fresh) {
            Ok(()) => {},
            Err(e) => {
                return Err(e);
            },
        }
        let mut property = property;
        property.current_page = next;
        if next == 1 && !property.wrapped {
            property.wrapped = true;
        }
        state.set_property(record_id, name, property)
    }

    /// Stores a value on the current page of a property.
    pub fn append(
        &self,
        state: &mut StateDGC,
        record_id: &str,
        name: &str,
        property: Property,
        value: ReportedValue,
    ) -> (r: Result<(), ApplyError>)
        ensures
            (final(state)@, outcome(r)) == append_spec(
                old(state)@,
                record_id@,
                name@,
                property@,
                value@,
            ),
    {
        let page = match state.get_property_page(record_id, name, property.current_page) {
            Ok(Some(page)) => page,
            Ok(None) => {
                return Err(reject("Property page does not exist", ""));
            },
            Err(e) => {
                return Err(e);
            },
        };
        let full = add_to_page(page, value);
        let is_full = full.reported_values.len() >= PROPERTY_PAGE_MAX_LENGTH;
        match state.set_property_page(record_id, name, property.current_page, full) {
            Ok(()) => {},
            Err(e) => {
                return Err(e);
            },
        }
        if is_full {
            self.rotate(state, record_id, name, property)
        } else {
            Ok(())
        }
    }

    /// Makes one update.
    pub fn update_property(
        &self,
        state: &mut StateDGC,
        record_id: &str,
        update: &PropertyValue,
        signer: &str,
        timestamp: u64,
    ) -> (r: Result<(), ApplyError>)
        ensures
            (final(state)@, outcome(r)) == update_property_step(
                old(state)@,
                record_id@,
                update@,
                signer@,
                timestamp,
            ),
    {
        let name = update.name.as_str();
        let property = match state.get_property(record_id, name) {
            Ok(Some(property)) => property,
            Ok(None) => {
                return Err(reject("Record does not have provided property: ", name));
            },
            Err(e) => {
                return Err(e);
            },
        };
        let p = find_reporter(&property.reporters, signer);
        if p >= property.reporters.len() {
            return Err(reject("Reporter is not authorized: ", signer));
        }
        let reporter_index = property.reporters[p].index;
        if property.fixed {
            return Err(
                reject("Property is fixed and cannot be updated: ", property.name.as_str()),
            );
        }
        if update.data_type != property.data_type {
            let head = join(
                join("Update has wrong type: ", name_of_type(update.data_type)).as_str(),
                " != ",
            );
            return Err(reject(head.as_str(), name_of_type(property.data_type)));
        }
        match state.get_property_page(record_id, name, property.current_page) {
            Ok(Some(_)) => {},
            Ok(None) => {
                return Err(reject("Property page does not exist", ""));
            },
            Err(e) => {
                return Err(e);
            },
        }
        let value = match self._make_new_reported_value(
            reporter_index,
            timestamp,
            update,
            &property,
        ) {
            Ok(value) => value,
            Err(e) => {
                return Err(e);
            },
        };
        self.append(state, record_id, name, property, value)
    }

    /// Reports new values of properties of a record.
    pub fn _update_properties(
        &self,
        payload: UpdatePropertiesAction,
        state: &mut StateDGC,
        signer: &str,
        timestamp: u64,
    ) -> (r: Result<(), ApplyError>)
        ensures
            (final(state)@, outcome(r)) == update_properties_spec(
                old(state)@,
                payload@,
                signer@,
                timestamp,
            ),
    {
        reveal(update_properties_spec);
        let record_id = payload.record_id.as_str();
        let record = match state.get_record(record_id) {
            Ok(Some(record)) => record,
            Ok(None) => {
                return Err(reject("Record does not exist: ", record_id));
            },
            Err(e) => {
                return Err(e);
            },
        };
        if record.field_final {
            return Err(reject("Record is final: ", record_id));
        }
        let updates = &payload.properties;
        let mut i: usize = 0;
        while i < updates.len()
            invariant
                i <= updates.len(),
                updates_from(
                    old(state)@,
                    record_id@,
                    updates.deep_view(),
                    signer@,
                    timestamp,
                    0,
                ) == updates_from(
                    state@,
                    record_id@,
                    updates.deep_view(),
                    signer@,
                    timestamp,
                    i as int,
                ),
                update_properties_spec(old(state)@, payload@, signer@, timestamp) == updates_from(
                    old(state)@,
                    record_id@,
                    updates.deep_view(),
                    signer@,
                    timestamp,
                    0,
                ),
            decreases updates.len() - i,
        {
            match self.update_property(state, record_id, &updates[i], signer, timestamp) {
                Ok(()) => {},
                Err(e) => {
                    return Err(e);
                },
            }
            i = i + 1;
        }
        Ok(())
    }
}

} // verus!
