//! What a record has once it is created.
//!
//! For every property that the schema of its table names, the record has
//! exactly one property: the state is valid, so that no container holds two
//! entries for one key, and after the creation the property can be read,
//! with the fields of the schema.

use crate::addressing::{hex_padded, page_number_text, property_address};
use crate::container::Keyed;
use crate::payload::CreateRecordActionModel;
use crate::preservation::{lemma_create_property_keeps, lemma_writes_keep_valid};
use crate::property::{Property, PropertyModel, PropertyPage, PropertyPageModel};
use crate::records::{
    create_properties_from, create_property_step, create_record_spec, new_property, new_record,
};
use crate::schema::PropertySchemaModel;
use crate::state::{
    journal_with_property, journal_with_property_page, journal_with_record, property_at,
    table_at, CellModel,
};
use crate::validity::{
    law_read_after_write, law_read_other_kind_after_write, law_stored_containers_valid,
    state_valid,
};
use crate::value::PropertyValueModel;
use crate::values::{last_schema, last_schema_below};
use vstd::prelude::*;

verus! {

/// The address of a property is not the address of a page: the one ends in
/// the digits of the number 0, the other in those of the number 1.
pub proof fn lemma_property_is_no_page(
    r1: Seq<char>,
    n1: Seq<char>,
    r2: Seq<char>,
    n2: Seq<char>,
)
    ensures
        property_address(r1, n1, 0) != property_address(r2, n2, 1),
{
    reveal_strlit("0123456789abcdef");
    reveal_with_fuel(hex_padded, 5);
    let a = property_address(r1, n1, 0);
    let b = property_address(r2, n2, 1);
    let ta = page_number_text(0);
    let tb = page_number_text(1);
    assert(ta.len() == 4 && tb.len() == 4);
    assert(ta[3] == '0');
    assert(tb[3] == '1');
    assert(a[a.len() - 1] == ta[3]);
    assert(b[b.len() - 1] == tb[3]);
}

/// Whether every property whose schema comes last for its name among the
/// first `k` schemas can be read, with the fields of that schema.
pub open spec fn properties_created(
    journal: Seq<CellModel>,
    record_id: Seq<char>,
    schemas: Seq<PropertySchemaModel>,
    signer: Seq<char>,
    k: int,
) -> bool {
    forall|i: int|
        0 <= i < k && i < schemas.len() && last_schema(schemas, (#[trigger] schemas[i]).name)
            == i ==> property_at(journal, record_id, schemas[i].name) == Ok::<
            Option<PropertyModel>,
            crate::error::ApplyErrorModel,
        >(Some(new_property(record_id, schemas[i], signer)))
}

/// The step that creates a property leaves the properties created before it
/// as they are, and creates its own.
proof fn lemma_create_property_creates(
    journal: Seq<CellModel>,
    record_id: Seq<char>,
    schemas: Seq<PropertySchemaModel>,
    provided: Seq<PropertyValueModel>,
    signer: Seq<char>,
    timestamp: u64,
    k: int,
)
    requires
        state_valid(journal),
        0 <= k < schemas.len(),
        properties_created(journal, record_id, schemas, signer, k),
        create_property_step(journal, record_id, schemas, provided, signer, timestamp, k).1 is Ok,
    ensures
        properties_created(
            create_property_step(journal, record_id, schemas, provided, signer, timestamp, k).0,
            record_id,
            schemas,
            signer,
            k + 1,
        ),
{
    let schema = schemas[k];
    let after = create_property_step(journal, record_id, schemas, provided, signer, timestamp, k).0;
    if last_schema(schemas, schema.name) == k {
        lemma_writes_keep_valid();
        let property = new_property(record_id, schema, signer);
        let address = property_address(record_id, schema.name, 0);
        let key = (record_id, schema.name);
        let stored = journal_with_property(journal, record_id, schema.name, property).0;
        law_stored_containers_valid::<Property>(journal, address);
        assert forall|page: PropertyPageModel, i: int|
            0 <= i <= k && last_schema(schemas, (#[trigger] schemas[i]).name) == i && (
            #[trigger] journal_with_property_page(stored, record_id, schema.name, 1, page)).1
                is Ok implies property_at(
            journal_with_property_page(stored, record_id, schema.name, 1, page).0,
            record_id,
            schemas[i].name,
        ) == Ok::<Option<PropertyModel>, crate::error::ApplyErrorModel>(
            Some(new_property(record_id, schemas[i], signer)),
        ) by {
            law_read_after_write::<Property>(
                journal,
                address,
                key,
                property,
                property_address(record_id, schemas[i].name, 0),
                (record_id, schemas[i].name),
            );
            lemma_property_is_no_page(record_id, schemas[i].name, record_id, schema.name);
            law_read_other_kind_after_write::<PropertyPage, Property>(
                stored,
                property_address(record_id, schema.name, 1),
                key,
                page,
                property_address(record_id, schemas[i].name, 0),
                (record_id, schemas[i].name),
            );
        }
    }
}

/// The steps that create the properties from position `k` on, when they
/// succeed, leave every property created.
proof fn lemma_create_properties_create(
    journal: Seq<CellModel>,
    record_id: Seq<char>,
    schemas: Seq<PropertySchemaModel>,
    provided: Seq<PropertyValueModel>,
    signer: Seq<char>,
    timestamp: u64,
    k: int,
)
    requires
        state_valid(journal),
        0 <= k <= schemas.len(),
        properties_created(journal, record_id, schemas, signer, k),
        create_properties_from(journal, record_id, schemas, provided, signer, timestamp, k).1
            is Ok,
    ensures
        properties_created(
            create_properties_from(journal, record_id, schemas, provided, signer, timestamp, k).0,
            record_id,
            schemas,
            signer,
            schemas.len() as int,
        ),
    decreases schemas.len() - k,
{
    if k < schemas.len() {
        let next = create_property_step(
            journal,
            record_id,
            schemas,
            provided,
            signer,
            timestamp,
            k,
        ).0;
        lemma_create_property_creates(journal, record_id, schemas, provided, signer, timestamp, k);
        lemma_create_property_keeps(journal, record_id, schemas, provided, signer, timestamp, k);
        lemma_create_properties_create(
            next,
            record_id,
            schemas,
            provided,
            signer,
            timestamp,
            k + 1,
        );
    }
}

/// The last schema of a name is a schema of that name.
proof fn lemma_last_schema(schemas: Seq<PropertySchemaModel>, name: Seq<char>, n: int)
    requires
        0 <= n <= schemas.len(),
    ensures
        -1 <= last_schema_below(schemas, name, n) < n,
        last_schema_below(schemas, name, n) >= 0 ==> schemas[last_schema_below(
            schemas,
            name,
            n,
        )].name == name,
    decreases n,
{
    if n > 0 && schemas[n - 1].name != name {
        lemma_last_schema(schemas, name, n - 1);
    }
}

/// A record that has been created has the properties of its table: for every
/// name that the schema gives, the property of the record with that name can
/// be read after the creation, and it has the fields of the last schema of
/// that name, the signer as its reporter, and page 1 as its current page.
pub proof fn law_record_has_its_properties(
    journal: Seq<CellModel>,
    payload: CreateRecordActionModel,
    signer: Seq<char>,
    timestamp: u64,
    name: Seq<char>,
)
    requires
        state_valid(journal),
        create_record_spec(journal, payload, signer, timestamp).1 is Ok,
        table_at(journal, payload.table) matches Ok(Some(table)) && last_schema(
            table.properties,
            name,
        ) >= 0,
    ensures
        ({
            let schemas = table_at(journal, payload.table)->Ok_0->Some_0.properties;
            property_at(
                create_record_spec(journal, payload, signer, timestamp).0,
                payload.record_id,
                name,
            ) == Ok::<Option<PropertyModel>, crate::error::ApplyErrorModel>(
                Some(new_property(payload.record_id, schemas[last_schema(schemas, name)], signer)),
            )
        }),
{
    reveal(create_record_spec);
    lemma_writes_keep_valid();
    let schemas = table_at(journal, payload.table)->Ok_0->Some_0.properties;
    let record = new_record(payload.record_id, payload.table, signer, timestamp);
    let stored = journal_with_record(journal, payload.record_id, record).0;
    lemma_create_properties_create(
        stored,
        payload.record_id,
        schemas,
        payload.properties,
        signer,
        timestamp,
        0,
    );
    lemma_last_schema(schemas, name, schemas.len() as int);
    let i = last_schema(schemas, name);
    assert(schemas[i].name == name);
}

} // verus!
