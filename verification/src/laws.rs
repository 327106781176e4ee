//! Laws of the ledger that relate several of its operations.

use crate::error::{rejection, ApplyErrorModel};
use crate::order::{lemma_sort_len, lemma_sort_sorted, sorted};
use crate::payload::{
    CreateProposalActionModel, RevokeReporterActionModel, UpdatePropertiesActionModel,
};
use crate::property::{
    PropertyModel, PropertyPageModel, ReportedValue, ReportedValueModel, ReporterModel,
};
use crate::records::{provided_check, provided_fault, required_check};
use crate::schema::PropertySchemaModel;
use crate::value::PropertyValueModel;
use crate::values::last_value;
use crate::proposal::Role;
use crate::proposals::create_proposal_spec;
use crate::registry::finalize_record_spec;
use crate::reporters::{revocable_from, revoke_reporter_spec};
use crate::state::{journal_with_property_page, property_page_at, record_at, CellModel};
use crate::updates::{append_spec, page_with, rotate_spec, rotated, update_properties_spec};
use vstd::prelude::*;

verus! {

/// A final record admits no further change: where the record of a
/// transaction is final, an update of its properties, a second finalization,
/// the revocation of a reporter and a proposal to transfer its ownership or
/// custodianship or to authorize a reporter all fail, and write nothing.
pub proof fn law_final_record_is_closed(
    journal: Seq<CellModel>,
    record_id: Seq<char>,
    signer: Seq<char>,
    timestamp: u64,
    update: UpdatePropertiesActionModel,
    revocation: RevokeReporterActionModel,
    proposal: CreateProposalActionModel,
)
    requires
        record_at(journal, record_id) matches Ok(Some(record)) && record.field_final,
        update.record_id == record_id,
        revocation.record_id == record_id,
        proposal.record_id == record_id,
        proposal.role == Role::TransferOwnership || proposal.role == Role::TransferCustodianship
            || proposal.role == Role::AuthorizeReporter,
    ensures
        update_properties_spec(journal, update, signer, timestamp) == (
            journal,
            Err::<(), ApplyErrorModel>(rejection("Record is final: "@, record_id)),
        ),
        finalize_record_spec(journal, record_id, signer).0 == journal,
        finalize_record_spec(journal, record_id, signer).1 is Err,
        revoke_reporter_spec(journal, revocation, signer).0 == journal,
        revoke_reporter_spec(journal, revocation, signer).1 is Err,
        create_proposal_spec(journal, proposal, signer, timestamp).0 == journal,
        create_proposal_spec(journal, proposal, signer, timestamp).1 is Err,
{
    reveal(update_properties_spec);
    reveal(finalize_record_spec);
    reveal(revoke_reporter_spec);
    reveal(create_proposal_spec);
}

/// The ring of pages: the page after page 256 is page 1, and the page after
/// any other page of the ring is the one with the next number. A property
/// whose ring moves on from page 256 is wrapped from then on; a property that
/// is wrapped stays so.
pub proof fn law_ring_of_pages(property: PropertyModel)
    ensures
        1 <= rotated(property).current_page <= 256,
        property.current_page == 256 ==> rotated(property).current_page == 1 && rotated(
            property,
        ).wrapped,
        1 <= property.current_page < 256 ==> rotated(property).current_page
            == property.current_page + 1 && rotated(property).wrapped == property.wrapped,
        property.wrapped ==> rotated(property).wrapped,
        rotated(property).reporters == property.reporters,
{
}

/// A page grows by one value with every append and stays in order.
pub proof fn law_page_after_append(page: PropertyPageModel, value: ReportedValueModel)
    ensures
        page_with(page, value).reported_values.len() == page.reported_values.len() + 1,
        sorted::<ReportedValue>(page_with(page, value).reported_values),
        page_with(page, value).name == page.name,
        page_with(page, value).record_id == page.record_id,
{
    lemma_sort_len::<ReportedValue>(page.reported_values.push(value));
    lemma_sort_sorted::<ReportedValue>(page.reported_values.push(value));
}

/// The append that brings a page to 256 values moves the ring on, and no
/// append before it does: with fewer than 255 values on the current page an
/// append stores the page and nothing else; with 255 it stores the page, now
/// of 256 values, and then empties the next page and makes it the current
/// one, so that the value after that goes to the next page.
pub proof fn law_rotation_at_256(
    journal: Seq<CellModel>,
    record_id: Seq<char>,
    name: Seq<char>,
    property: PropertyModel,
    value: ReportedValueModel,
)
    requires
        property_page_at(journal, record_id, name, property.current_page) matches Ok(Some(_)),
    ensures
        ({
            let page = property_page_at(
                journal,
                record_id,
                name,
                property.current_page,
            )->Ok_0->Some_0;
            let stored = journal_with_property_page(
                journal,
                record_id,
                name,
                property.current_page,
                page_with(page, value),
            );
            &&& page.reported_values.len() < 255 ==> append_spec(
                journal,
                record_id,
                name,
                property,
                value,
            ) == stored
            &&& page.reported_values.len() >= 255 && stored.1 is Ok ==> append_spec(
                journal,
                record_id,
                name,
                property,
                value,
            ) == rotate_spec(stored.0, record_id, name, property)
        }),
{
    let page = property_page_at(journal, record_id, name, property.current_page)->Ok_0->Some_0;
    law_page_after_append(page, value);
}

/// A reporter can be revoked exactly where the property has the reporter and
/// every entry of the reporter is authorized.
pub proof fn law_revocable(reporters: Seq<ReporterModel>, reporter_id: Seq<char>)
    ensures
        revocable_from(reporters, reporter_id, 0, false) is Ok <==> (exists|k: int|
            0 <= k < reporters.len() && (#[trigger] reporters[k]).public_key == reporter_id)
            && (forall|k: int|
            0 <= k < reporters.len() && (#[trigger] reporters[k]).public_key == reporter_id
                ==> reporters[k].authorized),
{
    lemma_revocable_from(reporters, reporter_id, 0, false);
}

proof fn lemma_revocable_from(
    reporters: Seq<ReporterModel>,
    reporter_id: Seq<char>,
    i: int,
    seen: bool,
)
    requires
        0 <= i <= reporters.len(),
    ensures
        revocable_from(reporters, reporter_id, i, seen) is Ok <==> (seen || exists|k: int|
            i <= k < reporters.len() && (#[trigger] reporters[k]).public_key == reporter_id)
            && (forall|k: int|
            i <= k < reporters.len() && (#[trigger] reporters[k]).public_key == reporter_id
                ==> reporters[k].authorized),
    decreases reporters.len() - i,
{
    if i < reporters.len() {
        if reporters[i].public_key == reporter_id {
            if reporters[i].authorized {
                lemma_revocable_from(reporters, reporter_id, i + 1, true);
            }
        } else {
            lemma_revocable_from(reporters, reporter_id, i + 1, seen);
        }
    }
}

/// A record can be created exactly where a value is given for every required
/// property of the schema, and every given value names a property of the
/// schema, has its type, and is not delayed by it.
pub proof fn law_values_at_creation(
    schemas: Seq<PropertySchemaModel>,
    provided: Seq<PropertyValueModel>,
)
    ensures
        required_check(schemas, provided, 0) is Ok <==> (forall|i: int|
            0 <= i < schemas.len() && (#[trigger] schemas[i]).required ==> last_value(
                provided,
                schemas[i].name,
            ) >= 0),
        provided_check(schemas, provided, 0) is Ok <==> (forall|k: int|
            0 <= k < provided.len() ==> provided_fault(schemas, #[trigger] provided[k]) is None),
{
    lemma_required_from(schemas, provided, 0);
    lemma_provided_from(schemas, provided, 0);
}

proof fn lemma_required_from(
    schemas: Seq<PropertySchemaModel>,
    provided: Seq<PropertyValueModel>,
    i: int,
)
    requires
        0 <= i <= schemas.len(),
    ensures
        required_check(schemas, provided, i) is Ok <==> (forall|k: int|
            i <= k < schemas.len() && (#[trigger] schemas[k]).required ==> last_value(
                provided,
                schemas[k].name,
            ) >= 0),
    decreases schemas.len() - i,
{
    if i < schemas.len() {
        lemma_required_from(schemas, provided, i + 1);
    }
}

proof fn lemma_provided_from(
    schemas: Seq<PropertySchemaModel>,
    provided: Seq<PropertyValueModel>,
    i: int,
)
    requires
        0 <= i <= provided.len(),
    ensures
        provided_check(schemas, provided, i) is Ok <==> (forall|k: int|
            i <= k < provided.len() ==> provided_fault(schemas, #[trigger] provided[k]) is None),
    decreases provided.len() - i,
{
    if i < provided.len() {
        lemma_provided_from(schemas, provided, i + 1);
    }
}

} // verus!
