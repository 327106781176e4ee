//! From the value a transaction gives to the value a page keeps.
//!
//! A given value is checked against the property it is for: an enum value
//! must name one of the options and is kept as the position of that option; a
//! struct value must give every member of the schema, with the member's type,
//! and nothing else.

use crate::error::{outcome, reject, rejection, ApplyError, ApplyErrorModel};
use crate::handler::TransactionHandlerDGC;
use crate::property::{Property, ReportedValue, ReportedValueModel};
use crate::schema::{DataType, PropertySchema, PropertySchemaModel};
use crate::codec::copy_of;
use crate::text::{decimal, decimal_text, join, text_eq};
use crate::value::{lemma_value_members, Location, LocationModel, PropertyValue, PropertyValueModel};
use crate::schema::lemma_schema_members;
use vstd::prelude::*;
use vstd::string::*;

verus! {

/// The name of a data type, as messages give it.
pub open spec fn data_type_name(t: DataType) -> Seq<char> {
    match t {
        DataType::TypeUnset => "TYPE_UNSET"@,
        DataType::Bytes => "BYTES"@,
        DataType::Boolean => "BOOLEAN"@,
        DataType::Number => "NUMBER"@,
        DataType::Text => "STRING"@,
        DataType::Enum => "ENUM"@,
        DataType::Struct => "STRUCT"@,
        DataType::Location => "LOCATION"@,
    }
}

/// The name of a data type, as messages give it.
pub fn name_of_type(t: DataType) -> (name: &'static str)
    ensures
        name@ == data_type_name(t),
{
    match t {
        DataType::TypeUnset => "TYPE_UNSET",
        DataType::Bytes => "BYTES",
        DataType::Boolean => "BOOLEAN",
        DataType::Number => "NUMBER",
        DataType::Text => "STRING",
        DataType::Enum => "ENUM",
        DataType::Struct => "STRUCT",
        DataType::Location => "LOCATION",
    }
}

/// The first position from `i` on of a value with the name, or the length.
pub open spec fn value_position_from(
    values: Seq<PropertyValueModel>,
    name: Seq<char>,
    i: int,
) -> int
    decreases values.len() - i,
{
    if i >= values.len() {
        values.len() as int
    } else if values[i].name == name {
        i
    } else {
        value_position_from(values, name, i + 1)
    }
}

/// The last position below `n` of a value with the name, or -1.
pub open spec fn last_value_below(values: Seq<PropertyValueModel>, name: Seq<char>, n: int) -> int
    decreases n,
{
    if n <= 0 {
        -1
    } else if values[n - 1].name == name {
        n - 1
    } else {
        last_value_below(values, name, n - 1)
    }
}

/// The last position of a value with the name, or -1.
pub open spec fn last_value(values: Seq<PropertyValueModel>, name: Seq<char>) -> int {
    last_value_below(values, name, values.len() as int)
}

/// The last position below `n` of a schema with the name, or -1.
pub open spec fn last_schema_below(
    schemas: Seq<PropertySchemaModel>,
    name: Seq<char>,
    n: int,
) -> int
    decreases n,
{
    if n <= 0 {
        -1
    } else if schemas[n - 1].name == name {
        n - 1
    } else {
        last_schema_below(schemas, name, n - 1)
    }
}

/// The last position of a schema with the name, or -1.
pub open spec fn last_schema(schemas: Seq<PropertySchemaModel>, name: Seq<char>) -> int {
    last_schema_below(schemas, name, schemas.len() as int)
}

/// The first position from `i` on of the text, or the length.
pub open spec fn option_position_from(options: Seq<Seq<char>>, name: Seq<char>, i: int) -> int
    decreases options.len() - i,
{
    if i >= options.len() {
        options.len() as int
    } else if options[i] == name {
        i
    } else {
        option_position_from(options, name, i + 1)
    }
}

/// The position of the first value with the name, or the length.
pub fn find_value(values: &Vec<PropertyValue>, name: &str) -> (p: usize)
    ensures
        p == value_position_from(values.deep_view(), name@, 0),
        p <= values.len(),
{
    let mut i: usize = 0;
    while i < values.len()
        invariant
            i <= values.len(),
            value_position_from(values.deep_view(), name@, 0) == value_position_from(
                values.deep_view(),
                name@,
                i as int,
            ),
        decreases values.len() - i,
    {
        if text_eq(values[i].name.as_str(), name) {
            return i;
        }
        i = i + 1;
    }
    i
}

/// The position of the last value with the name.
pub fn find_last_value(values: &Vec<PropertyValue>, name: &str) -> (r: Option<usize>)
    ensures
        match r {
            Some(p) => p == last_value(values.deep_view(), name@) && p < values.len(),
            None => last_value(values.deep_view(), name@) == -1,
        },
{
    let mut n: usize = values.len();
    while n > 0
        invariant
            n <= values.len(),
            last_value(values.deep_view(), name@) == last_value_below(
                values.deep_view(),
                name@,
                n as int,
            ),
        decreases n,
    {
        n = n - 1;
        if text_eq(values[n].name.as_str(), name) {
            return Some(n);
        }
    }
    None
}

/// The position of the last schema with the name.
pub fn find_last_schema(schemas: &Vec<PropertySchema>, name: &str) -> (r: Option<usize>)
    ensures
        match r {
            Some(p) => p == last_schema(schemas.deep_view(), name@) && p < schemas.len(),
            None => last_schema(schemas.deep_view(), name@) == -1,
        },
{
    let mut n: usize = schemas.len();
    while n > 0
        invariant
            n <= schemas.len(),
            last_schema(schemas.deep_view(), name@) == last_schema_below(
                schemas.deep_view(),
                name@,
                n as int,
            ),
        decreases n,
    {
        n = n - 1;
        if text_eq(schemas[n].name.as_str(), name) {
            return Some(n);
        }
    }
    None
}

/// The position of the first option that is the name, or the length.
pub fn find_option(options: &Vec<String>, name: &str) -> (p: usize)
    ensures
        p == option_position_from(options.deep_view(), name@, 0),
        p <= options.len(),
{
    let mut i: usize = 0;
    while i < options.len()
        invariant
            i <= options.len(),
            option_position_from(options.deep_view(), name@, 0) == option_position_from(
                options.deep_view(),
                name@,
                i as int,
            ),
        decreases options.len() - i,
    {
        if text_eq(options[i].as_str(), name) {
            return i;
        }
        i = i + 1;
    }
    i
}

/// The rejection of a struct value with `given` values for a schema of
/// `wanted` members.
pub open spec fn length_mismatch(given: nat, wanted: nat) -> ApplyErrorModel {
    rejection(
        "Provided struct does not match schema length: "@ + decimal_text(given) + " != "@,
        decimal_text(wanted),
    )
}

/// The rejection of a struct value that lacks a member of its schema.
pub open spec fn missing_member(name: Seq<char>) -> ApplyErrorModel {
    rejection("Provided struct missing required property from schema: "@, name)
}

/// The rejection of a struct member of the wrong type.
pub open spec fn wrong_member_type(name: Seq<char>, t: DataType) -> ApplyErrorModel {
    rejection(
        "Struct property \""@ + name + "\" must have data type: "@,
        data_type_name(t),
    )
}

/// Whether struct values fit a struct schema: as many values as members, and
/// for each member, in order, a value of its name and type, which fits in
/// turn where the member is a struct. The first fault found is the result.
pub open spec fn struct_check(
    values: Seq<PropertyValueModel>,
    schemas: Seq<PropertySchemaModel>,
) -> Result<(), ApplyErrorModel>
    decreases schemas, 1int, 0int,
{
    if values.len() != schemas.len() {
        Err(length_mismatch(values.len(), schemas.len()))
    } else {
        members_check(values, schemas, 0)
    }
}

/// [`struct_check`] for the members from position `i` on.
pub open spec fn members_check(
    values: Seq<PropertyValueModel>,
    schemas: Seq<PropertySchemaModel>,
    i: int,
) -> Result<(), ApplyErrorModel>
    decreases schemas, 0int, schemas.len() - i,
{
    if i < 0 || i >= schemas.len() {
        Ok(())
    } else {
        let schema = schemas[i];
        let p = value_position_from(values, schema.name, 0);
        if p >= values.len() || p < 0 {
            Err(missing_member(schema.name))
        } else if values[p].data_type != schema.data_type {
            Err(wrong_member_type(schema.name, schema.data_type))
        } else if schema.data_type == DataType::Struct {
            match struct_check(values[p].struct_values, schema.struct_properties) {
                Err(e) => Err(e),
                Ok(()) => members_check(values, schemas, i + 1),
            }
        } else {
            members_check(values, schemas, i + 1)
        }
    }
}

/// A reported value with nothing filled in.
pub open spec fn blank_value(reporter_index: u32, timestamp: u64) -> ReportedValueModel {
    ReportedValueModel {
        reporter_index,
        timestamp,
        bytes_value: Seq::empty(),
        boolean_value: false,
        number_value: 0,
        string_value: Seq::empty(),
        enum_value: 0,
        struct_values: Seq::empty(),
        location_value: LocationModel { latitude: 0, longitude: 0 },
    }
}

/// The rejection of an enum value that names no option.
pub open spec fn unknown_option(name: Seq<char>) -> ApplyErrorModel {
    rejection("Provided enum name is not a valid option: "@, name)
}

/// The value that a page keeps for a given value of a property: the field of
/// the value's type is taken over, an enum name is replaced by its position
/// among the options, a struct is checked against the schema.
pub open spec fn reported_value_of(
    reporter_index: u32,
    timestamp: u64,
    value: PropertyValueModel,
    enum_options: Seq<Seq<char>>,
    struct_properties: Seq<PropertySchemaModel>,
) -> Result<ReportedValueModel, ApplyErrorModel> {
    let blank = blank_value(reporter_index, timestamp);
    match value.data_type {
        DataType::TypeUnset => Err(rejection("DataType is not set"@, ""@)),
        DataType::Bytes => Ok(ReportedValueModel { bytes_value: value.bytes_value, ..blank }),
        DataType::Boolean => Ok(ReportedValueModel { boolean_value: value.boolean_value, ..blank }),
        DataType::Number => Ok(ReportedValueModel { number_value: value.number_value, ..blank }),
        DataType::Text => Ok(ReportedValueModel { string_value: value.string_value, ..blank }),
        DataType::Enum => {
            let p = option_position_from(enum_options, value.enum_value, 0);
            if 0 <= p < enum_options.len() {
                Ok(ReportedValueModel { enum_value: p as u32, ..blank })
            } else {
                Err(unknown_option(value.enum_value))
            }
        },
        DataType::Struct => match struct_check(value.struct_values, struct_properties) {
            Err(e) => Err(e),
            Ok(()) => Ok(ReportedValueModel { struct_values: value.struct_values, ..blank }),
        },
        DataType::Location => Ok(
            ReportedValueModel { location_value: value.location_value, ..blank },
        ),
    }
}

/// An enum value that names no option is rejected.
pub proof fn law_unknown_option_rejected(
    reporter_index: u32,
    timestamp: u64,
    value: PropertyValueModel,
    enum_options: Seq<Seq<char>>,
    struct_properties: Seq<PropertySchemaModel>,
)
    requires
        value.data_type == DataType::Enum,
        !enum_options.contains(value.enum_value),
    ensures
        reported_value_of(reporter_index, timestamp, value, enum_options, struct_properties)
            == Err::<ReportedValueModel, ApplyErrorModel>(unknown_option(value.enum_value)),
{
    lemma_option_position(enum_options, value.enum_value, 0);
    let p = option_position_from(enum_options, value.enum_value, 0);
    if p < enum_options.len() {
        assert(enum_options[p] == value.enum_value);
    }
}

/// Where an option is found, it is the name, and no option before it is.
pub proof fn lemma_option_position(options: Seq<Seq<char>>, name: Seq<char>, i: int)
    requires
        0 <= i <= options.len(),
    ensures
        i <= option_position_from(options, name, i) <= options.len(),
        option_position_from(options, name, i) < options.len() ==> options[option_position_from(
            options,
            name,
            i,
        )] == name,
        forall|k: int| i <= k < option_position_from(options, name, i) ==> options[k] != name,
    decreases options.len() - i,
{
    if i < options.len() && options[i] != name {
        lemma_option_position(options, name, i + 1);
    }
}

/// A struct value with more or fewer values than its schema has members is
/// rejected.
pub proof fn law_length_mismatch_rejected(
    values: Seq<PropertyValueModel>,
    schemas: Seq<PropertySchemaModel>,
)
    requires
        values.len() != schemas.len(),
    ensures
        struct_check(values, schemas) == Err::<(), ApplyErrorModel>(
            length_mismatch(values.len(), schemas.len()),
        ),
{
}

impl TransactionHandlerDGC {
    /// Checks struct values against a struct schema.
    pub fn _validate_struct_values(
        &self,
        struct_values: &Vec<PropertyValue>,
        schema_values: &Vec<PropertySchema>,
    ) -> (r: Result<(), ApplyError>)
        ensures
            outcome(r) == struct_check(struct_values.deep_view(), schema_values.deep_view()),
        decreases schema_values,
    {
        if struct_values.len() != schema_values.len() {
            let head = join(
                join(
                    "Provided struct does not match schema length: ",
                    decimal(struct_values.len()).as_str(),
                ).as_str(),
                " != ",
            );
            return Err(reject(head.as_str(), decimal(schema_values.len()).as_str()));
        }
        let mut i: usize = 0;
        while i < schema_values.len()
            invariant
                i <= schema_values.len(),
                struct_values.len() == schema_values.len(),
                struct_check(struct_values.deep_view(), schema_values.deep_view())
                    == members_check(
                    struct_values.deep_view(),
                    schema_values.deep_view(),
                    i as int,
                ),
            decreases schema_values.len() - i,
        {
            let schema = &schema_values[i];
            let p = find_value(struct_values, schema.name.as_str());
            if p >= struct_values.len() {
                return Err(
                    reject(
                        "Provided struct missing required property from schema: ",
                        schema.name.as_str(),
                    ),
                );
            }
            let value = &struct_values[p];
            if value.data_type != schema.data_type {
                let head = join(
                    join("Struct property \"", schema.name.as_str()).as_str(),
                    "\" must have data type: ",
                );
                return Err(reject(head.as_str(), name_of_type(schema.data_type)));
            }
            if schema.data_type == DataType::Struct {
                proof {
                    lemma_value_members(*value);
                    lemma_schema_members(*schema);
                }
                match self._validate_struct_values(
                    &value.struct_values,
                    &schema.struct_properties,
                ) {
                    Ok(()) => {},
                    Err(e) => {
                        return Err(e);
                    },
                }
            }
            i = i + 1;
        }
        Ok(())
    }

    /// Makes the value that a page keeps from a value that was given for a
    /// property with the given options and members.
    pub fn make_reported_value(
        &self,
        reporter_index: u32,
        timestamp: u64,
        value: &PropertyValue,
        enum_options: &Vec<String>,
        struct_properties: &Vec<PropertySchema>,
    ) -> (r: Result<ReportedValue, ApplyError>)
        ensures
            outcome(r) == reported_value_of(
                reporter_index,
                timestamp,
                value@,
                enum_options.deep_view(),
                struct_properties.deep_view(),
            ),
    {
        let mut reported = ReportedValue {
            reporter_index,
            timestamp,
            bytes_value: Vec::new(),
            boolean_value: false,
            number_value: 0,
            string_value: String::new(),
            enum_value: 0,
            struct_values: Vec::new(),
            location_value: Location { latitude: 0, longitude: 0 },
        };
        proof {
            assert(reported.bytes_value.deep_view() =~= Seq::<u8>::empty());
            assert(reported.struct_values.deep_view() =~= Seq::<PropertyValueModel>::empty());
            assert(reported@ == blank_value(reporter_index, timestamp));
            lemma_value_members(*value);
        }
        match value.data_type {
            DataType::TypeUnset => {
                return Err(reject("DataType is not set", ""));
            },
            DataType::Bytes => {
                reported.bytes_value = copy_of(&value.bytes_value);
            },
            DataType::Boolean => {
                reported.boolean_value = value.boolean_value;
            },
            DataType::Number => {
                reported.number_value = value.number_value;
            },
            DataType::Text => {
                reported.string_value = value.string_value.clone();
            },
            DataType::Enum => {
                let p = find_option(enum_options, value.enum_value.as_str());
                if p >= enum_options.len() {
                    return Err(
                        reject(
                            "Provided enum name is not a valid option: ",
                            value.enum_value.as_str(),
                        ),
                    );
                }
                reported.enum_value = #[verifier::truncate]
                (p as u32);
            },
            DataType::Struct => {
                match self._validate_struct_values(&value.struct_values, struct_properties) {
                    Ok(()) => {},
                    Err(e) => {
                        return Err(e);
                    },
                }
                reported.struct_values = copy_of(&value.struct_values);
            },
            DataType::Location => {
                reported.location_value =
                Location {
                    latitude: value.location_value.latitude,
                    longitude: value.location_value.longitude,
                };
            },
        }
        Ok(reported)
    }

    /// Makes the value that a page keeps from a value that was given for a
    /// property.
    pub fn _make_new_reported_value(
        &self,
        reporter_index: u32,
        timestamp: u64,
        value: &PropertyValue,
        property: &Property,
    ) -> (r: Result<ReportedValue, ApplyError>)
        ensures
            outcome(r) == reported_value_of(
                reporter_index,
                timestamp,
                value@,
                property@.enum_options,
                property@.struct_properties,
            ),
    {
        self.make_reported_value(
            reporter_index,
            timestamp,
            value,
            &property.enum_options,
            &property.struct_properties,
        )
    }
}

} // verus!
