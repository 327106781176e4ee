//! Creating a record, its properties and their first pages.

use crate::codec::copy_of;
use crate::error::{outcome, reject, rejection, ApplyError, ApplyErrorModel};
use crate::handler::TransactionHandlerDGC;
use crate::payload::{CreateRecordAction, CreateRecordActionModel};
use crate::property::{
    Property, PropertyModel, PropertyPage, PropertyPageModel, ReportedValueModel, Reporter,
    ReporterModel,
};
use crate::record::{AssociatedParticipant, AssociatedParticipantModel, Record, RecordModel};
use crate::schema::{lemma_schema_members, PropertySchema, PropertySchemaModel};
use crate::state::{
    journal_with_property, journal_with_property_page, journal_with_record, participant_at,
    record_at, table_at, CellModel, StateDGC, Step,
};
use crate::text::join;
use crate::value::{PropertyValue, PropertyValueModel};
use crate::values::{find_last_schema, find_last_value, last_schema, last_value, reported_value_of};
use vstd::prelude::*;
use vstd::string::*;

verus! {

/// A holder of a record since `timestamp`.
pub open spec fn holder(who: Seq<char>, timestamp: u64) -> AssociatedParticipantModel {
    AssociatedParticipantModel { participant_id: who, timestamp }
}

/// A record that has just been created: not final, owned and held by the
/// signer.
pub open spec fn new_record(
    record_id: Seq<char>,
    table: Seq<char>,
    signer: Seq<char>,
    timestamp: u64,
) -> RecordModel {
    RecordModel {
        record_id,
        table,
        field_final: false,
        owners: seq![holder(signer, timestamp)],
        custodians: seq![holder(signer, timestamp)],
    }
}

/// A property that has just been created: the fields of its schema, the
/// signer as its one reporter, and page 1 as its current page.
pub open spec fn new_property(
    record_id: Seq<char>,
    schema: PropertySchemaModel,
    signer: Seq<char>,
) -> PropertyModel {
    PropertyModel {
        name: schema.name,
        record_id,
        data_type: schema.data_type,
        reporters: seq![ReporterModel { public_key: signer, authorized: true, index: 0 }],
        current_page: 1,
        wrapped: false,
        fixed: schema.fixed,
        number_exponent: schema.number_exponent,
        enum_options: schema.enum_options,
        struct_properties: schema.struct_properties,
        unit: schema.unit,
    }
}

/// A page with the given values.
pub open spec fn page_of(
    record_id: Seq<char>,
    name: Seq<char>,
    reported_values: Seq<ReportedValueModel>,
) -> PropertyPageModel {
    PropertyPageModel { name, record_id, reported_values }
}

/// The rejection of a record that lacks a required property.
pub open spec fn required_missing(name: Seq<char>) -> ApplyErrorModel {
    rejection("Required property "@ + name, " not provided"@)
}

/// Whether a value is given for every required property from position `i`
/// on; the first one without a value is the fault.
pub open spec fn required_check(
    schemas: Seq<PropertySchemaModel>,
    provided: Seq<PropertyValueModel>,
    i: int,
) -> Result<(), ApplyErrorModel>
    decreases schemas.len() - i,
{
    if i < 0 || i >= schemas.len() {
        Ok(())
    } else if schemas[i].required && last_value(provided, schemas[i].name) < 0 {
        Err(required_missing(schemas[i].name))
    } else {
        required_check(schemas, provided, i + 1)
    }
}

/// Why a value cannot be given at the creation of a record, if it cannot:
/// its name is none of the schema, its type is not that of the schema, or the
/// schema delays it.
pub open spec fn provided_fault(
    schemas: Seq<PropertySchemaModel>,
    value: PropertyValueModel,
) -> Option<ApplyErrorModel> {
    let p = last_schema(schemas, value.name);
    if p < 0 || p >= schemas.len() {
        Some(rejection("Provided property "@ + value.name, " is not in schemata"@))
    } else if value.data_type != schemas[p].data_type {
        Some(rejection("Value provided for "@ + value.name, " is the wrong type"@))
    } else if schemas[p].delayed {
        Some(
            rejection(
                "Property is 'delayed', and cannot be set at record creation: "@,
                value.name,
            ),
        )
    } else {
        None
    }
}

/// Whether every value from position `i` on can be given at creation; the
/// fault of the first one that cannot is the fault.
pub open spec fn provided_check(
    schemas: Seq<PropertySchemaModel>,
    provided: Seq<PropertyValueModel>,
    i: int,
) -> Result<(), ApplyErrorModel>
    decreases provided.len() - i,
{
    if i < 0 || i >= provided.len() {
        Ok(())
    } else {
        match provided_fault(schemas, provided[i]) {
            Some(e) => Err(e),
            None => provided_check(schemas, provided, i + 1),
        }
    }
}

/// What creating the property of the schema at position `i` does. Where a
/// later schema has the same name, that one counts and this one does nothing.
/// Else the property is stored, and then its page 1, which holds the value
/// given for the property, if one was given.
pub open spec fn create_property_step(
    journal: Seq<CellModel>,
    record_id: Seq<char>,
    schemas: Seq<PropertySchemaModel>,
    provided: Seq<PropertyValueModel>,
    signer: Seq<char>,
    timestamp: u64,
    i: int,
) -> Step {
    let schema = schemas[i];
    if last_schema(schemas, schema.name) != i {
        (journal, Ok(()))
    } else {
        let (stored, r) = journal_with_property(
            journal,
            record_id,
            schema.name,
            new_property(record_id, schema, signer),
        );
        match r {
            Err(e) => (stored, Err(e)),
            Ok(()) => {
                let v = last_value(provided, schema.name);
                if v < 0 || v >= provided.len() {
                    journal_with_property_page(
                        stored,
                        record_id,
                        schema.name,
                        1,
                        page_of(record_id, schema.name, Seq::empty()),
                    )
                } else {
                    match reported_value_of(
                        0,
                        timestamp,
                        provided[v],
                        schema.enum_options,
                        schema.struct_properties,
                    ) {
                        Err(e) => (stored, Err(e)),
                        Ok(value) => journal_with_property_page(
                            stored,
                            record_id,
                            schema.name,
                            1,
                            page_of(record_id, schema.name, seq![value]),
                        ),
                    }
                }
            },
        }
    }
}

/// What creating the properties of the schemas from position `i` on does.
pub open spec fn create_properties_from(
    journal: Seq<CellModel>,
    record_id: Seq<char>,
    schemas: Seq<PropertySchemaModel>,
    provided: Seq<PropertyValueModel>,
    signer: Seq<char>,
    timestamp: u64,
    i: int,
) -> Step
    decreases schemas.len() - i,
{
    if i < 0 || i >= schemas.len() {
        (journal, Ok(()))
    } else {
        let (next, r) = create_property_step(
            journal,
            record_id,
            schemas,
            provided,
            signer,
            timestamp,
            i,
        );
        match r {
            Err(e) => (next, Err(e)),
            Ok(()) => create_properties_from(
                next,
                record_id,
                schemas,
                provided,
                signer,
                timestamp,
                i + 1,
            ),
        }
    }
}

/// What creating a record does once its table is known: the given values are
/// checked against the schema, the record is stored, and then its properties.
pub open spec fn create_record_in_table(
    journal: Seq<CellModel>,
    payload: CreateRecordActionModel,
    schemas: Seq<PropertySchemaModel>,
    signer: Seq<char>,
    timestamp: u64,
) -> Step {
    match required_check(schemas, payload.properties, 0) {
        Err(e) => (journal, Err(e)),
        Ok(()) => match provided_check(schemas, payload.properties, 0) {
            Err(e) => (journal, Err(e)),
            Ok(()) => {
                let (stored, r) = journal_with_record(
                    journal,
                    payload.record_id,
                    new_record(payload.record_id, payload.table, signer, timestamp),
                );
                match r {
                    Err(e) => (stored, Err(e)),
                    Ok(()) => create_properties_from(
                        stored,
                        payload.record_id,
                        schemas,
                        payload.properties,
                        signer,
                        timestamp,
                        0,
                    ),
                }
            },
        },
    }
}

/// What creating a record does. The signer must be a participant, the record
/// must not exist, and its table must exist.
#[verifier::opaque]
pub open spec fn create_record_spec(
    journal: Seq<CellModel>,
    payload: CreateRecordActionModel,
    signer: Seq<char>,
    timestamp: u64,
) -> Step {
    match participant_at(journal, signer) {
        Err(e) => (journal, Err(e)),
        Ok(None) => (journal, Err(rejection("Participant is not register: "@, signer))),
        Ok(Some(_)) => match record_at(journal, payload.record_id) {
            Err(e) => (journal, Err(e)),
            Ok(Some(_)) => (
                journal,
                Err(rejection("Record already exists: "@, payload.record_id)),
            ),
            Ok(None) => match table_at(journal, payload.table) {
                Err(e) => (journal, Err(e)),
                Ok(None) => (journal, Err(rejection("Table does not exist "@, payload.table))),
                Ok(Some(table)) => create_record_in_table(
                    journal,
                    payload,
                    table.properties,
                    signer,
                    timestamp,
                ),
            },
        },
    }
}

/// Builds a holder entry.
pub fn make_holder(who: &str, timestamp: u64) -> (h: AssociatedParticipant)
    ensures
        h@ == holder(who@, timestamp),
{
    AssociatedParticipant { participant_id: who.to_owned(), timestamp }
}

/// Builds a record that has just been created.
pub fn make_record(record_id: &str, table: &str, signer: &str, timestamp: u64) -> (r: Record)
    ensures
        r@ == new_record(record_id@, table@, signer@, timestamp),
{
    let mut owners: Vec<AssociatedParticipant> = Vec::new();
    owners.push(make_holder(signer, timestamp));
    let mut custodians: Vec<AssociatedParticipant> = Vec::new();
    custodians.push(make_holder(signer, timestamp));
    let r = Record {
        record_id: record_id.to_owned(),
        table: table.to_owned(),
        field_final: false,
        owners,
        custodians,
    };
    proof {
        assert(r@.owners =~= seq![holder(signer@, timestamp)]);
        assert(r@.custodians =~= seq![holder(signer@, timestamp)]);
    }
    r
}

/// Builds a property that has just been created.
pub fn make_property(record_id: &str, schema: &PropertySchema, signer: &str) -> (p: Property)
    ensures
        p@ == new_property(record_id@, schema@, signer@),
{
    let mut reporters: Vec<Reporter> = Vec::new();
    reporters.push(Reporter { public_key: signer.to_owned(), authorized: true, index: 0 });
    let p = Property {
        name: schema.name.clone(),
        record_id: record_id.to_owned(),
        data_type: schema.data_type,
        reporters,
        current_page: 1,
        wrapped: false,
        fixed: schema.fixed,
        number_exponent: schema.number_exponent,
        enum_options: copy_of(&schema.enum_options),
        struct_properties: copy_of(&schema.struct_properties),
        unit: schema.unit.clone(),
    };
    proof {
        lemma_schema_members(*schema);
        assert(p@.reporters =~= seq![
            ReporterModel { public_key: signer@, authorized: true, index: 0 },
        ]);
    }
    p
}

/// Builds a page with no values.
pub fn make_page(record_id: &str, name: &str) -> (p: PropertyPage)
    ensures
        p@ == page_of(record_id@, name@, Seq::empty()),
{
    let p = PropertyPage {
        name: name.to_owned(),
        record_id: record_id.to_owned(),
        reported_values: Vec::new(),
    };
    proof {
        assert(p@.reported_values =~= Seq::<ReportedValueModel>::empty());
    }
    p
}

/// Checks that a value is given for every required property.
pub fn check_required(schemas: &Vec<PropertySchema>, provided: &Vec<PropertyValue>) -> (r: Result<
    (),
    ApplyError,
>)
    ensures
        outcome(r) == required_check(schemas.deep_view(), provided.deep_view(), 0),
{
    let mut i: usize = 0;
    while i < schemas.len()
        invariant
            i <= schemas.len(),
            required_check(schemas.deep_view(), provided.deep_view(), 0) == required_check(
                schemas.deep_view(),
                provided.deep_view(),
                i as int,
            ),
        decreases schemas.len() - i,
    {
        let schema = &schemas[i];
        if schema.required && find_last_value(provided, schema.name.as_str()).is_none() {
            return Err(
                reject(join("Required property ", schema.name.as_str()).as_str(), " not provided"),
            );
        }
        i = i + 1;
    }
    Ok(())
}

/// Checks that every given value can be given at creation.
pub fn check_provided(schemas: &Vec<PropertySchema>, provided: &Vec<PropertyValue>) -> (r: Result<
    (),
    ApplyError,
>)
    ensures
        outcome(r) == provided_check(schemas.deep_view(), provided.deep_view(), 0),
{
    let mut k: usize = 0;
    while k < provided.len()
        invariant
            k <= provided.len(),
            provided_check(schemas.deep_view(), provided.deep_view(), 0) == provided_check(
                schemas.deep_view(),
                provided.deep_view(),
                k as int,
            ),
        decreases provided.len() - k,
    {
        let value = &provided[k];
        let name = value.name.as_str();
        let p = match find_last_schema(schemas, name) {
            Some(p) => p,
            None => {
                return Err(
                    reject(join("Provided property ", name).as_str(), " is not in schemata"),
                );
            },
        };
        if value.data_type != schemas[p].data_type {
            return Err(reject(join("Value provided for ", name).as_str(), " is the wrong type"));
        }
        if schemas[p].delayed {
            return Err(
                reject("Property is 'delayed', and cannot be set at record creation: ", name),
            );
        }
        k = k + 1;
    }
    Ok(())
}

impl TransactionHandlerDGC {
    /// Creates the property of the schema at position `i`, and its page 1.
    pub fn create_property(
        &self,
        state: &mut StateDGC,
        record_id: &str,
        schemas: &Vec<PropertySchema>,
        provided: &Vec<PropertyValue>,
        signer: &str,
        timestamp: u64,
        i: usize,
    ) -> (r: Result<(), ApplyError>)
        requires
            i < schemas.len(),
        ensures
            (final(state)@, outcome(r)) == create_property_step(
                old(state)@,
                record_id@,
                schemas.deep_view(),
                provided.deep_view(),
                signer@,
                timestamp,
                i as int,
            ),
    {
        let schema = &schemas[i];
        let name = schema.name.as_str();
        match find_last_schema(schemas, name) {
            Some(last) => {
                if last != i {
                    return Ok(());
                }
            },
            None => {
                return Ok(());
            },
        }
        proof {
            lemma_schema_members(*schema);
        }
        let property = make_property(record_id, schema, signer);
        match state.set_property(record_id, name, property) {
            Ok(()) => {},
            Err(e) => {
                return Err(e);
            },
        }
        let mut page = make_page(record_id, name);
        match find_last_value(provided, name) {
            Some(v) => {
                let value = match self.make_reported_value(
                    0,
                    timestamp,
                    &provided[v],
                    &schema.enum_options,
                    &schema.struct_properties,
                ) {
                    Ok(value) => value,
                    Err(e) => {
                        return Err(e);
                    },
                };
                page.reported_values.push(value);
                proof {
                    assert(page@.reported_values =~= seq![value@]);
                }
            },
            None => {},
        }
        state.set_property_page(record_id, name, 1, page)
    }

    /// Creates the properties of a record, in the order of the schema.
    pub fn create_properties(
        &self,
        state: &mut StateDGC,
        record_id: &str,
        schemas: &Vec<PropertySchema>,
        provided: &Vec<PropertyValue>,
        signer: &str,
        timestamp: u64,
    ) -> (r: Result<(), ApplyError>)
        ensures
            (final(state)@, outcome(r)) == create_properties_from(
                old(state)@,
                record_id@,
                schemas.deep_view(),
                provided.deep_view(),
                signer@,
                timestamp,
                0,
            ),
    {
        let mut n: usize = 0;
        while n < schemas.len()
            invariant
                n <= schemas.len(),
                create_properties_from(
                    old(state)@,
                    record_id@,
                    schemas.deep_view(),
                    provided.deep_view(),
                    signer@,
                    timestamp,
                    0,
                ) == create_properties_from(
                    state@,
                    record_id@,
                    schemas.deep_view(),
                    provided.deep_view(),
                    signer@,
                    timestamp,
                    n as int,
                ),
            decreases schemas.len() - n,
        {
            match self.create_property(state, record_id, schemas, provided, signer, timestamp, n) {
                Ok(()) => {},
                Err(e) => {
                    return Err(e);
                },
            }
            n = n + 1;
        }
        Ok(())
    }

    /// Creates a record with its properties and their first pages.
    pub fn _create_record(
        &self,
        payload: CreateRecordAction,
        state: &mut StateDGC,
        signer: &str,
        timestamp: u64,
    ) -> (r: Result<(), ApplyError>)
        ensures
            (final(state)@, outcome(r)) == create_record_spec(
                old(state)@,
                payload@,
                signer@,
                timestamp,
            ),
    {
        reveal(create_record_spec);
        match state.get_participant(signer) {
            Ok(Some(_)) => {},
            Ok(None) => {
                return Err(reject("Participant is not register: ", signer));
            },
            Err(e) => {
                return Err(e);
            },
        }
        let record_id = payload.record_id.as_str();
        match state.get_record(record_id) {
            Ok(Some(_)) => {
                return Err(reject("Record already exists: ", record_id));
            },
            Ok(None) => {},
            Err(e) => {
                return Err(e);
            },
        }
        let table = match state.get_table(payload.table.as_str()) {
            Ok(Some(table)) => table,
            Ok(None) => {
                return Err(reject("Table does not exist ", payload.table.as_str()));
            },
            Err(e) => {
                return Err(e);
            },
        };
        match check_required(&table.properties, &payload.properties) {
            Ok(()) => {},
            Err(e) => {
                return Err(e);
            },
        }
        match check_provided(&table.properties, &payload.properties) {
            Ok(()) => {},
            Err(e) => {
                return Err(e);
            },
        }
        let record = make_record(record_id, payload.table.as_str(), signer, timestamp);
        match state.set_record(record_id, record) {
            Ok(()) => {},
            Err(e) => {
                return Err(e);
            },
        }
        self.create_properties(
            state,
            record_id,
            &table.properties,
            &payload.properties,
            signer,
            timestamp,
        )
    }
}

} // verus!
