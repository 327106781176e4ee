use dgc_processor::error::ApplyError;
use dgc_processor::handler::TransactionHandlerDGC;
use dgc_processor::property::{Property, Reporter};
use dgc_processor::schema::{DataType, PropertySchema};
use dgc_processor::value::{Location, PropertyValue};
use dgc_processor::values::{
    find_last_schema, find_last_value, find_option, find_value, name_of_type,
};

fn schema(name: &str, data_type: DataType, members: Vec<PropertySchema>) -> PropertySchema {
    PropertySchema {
        name: name.to_string(),
        data_type,
        required: false,
        fixed: false,
        delayed: false,
        number_exponent: 0,
        enum_options: vec![],
        struct_properties: members,
        unit: String::new(),
    }
}

fn value(name: &str, data_type: DataType, members: Vec<PropertyValue>) -> PropertyValue {
    PropertyValue {
        name: name.to_string(),
        data_type,
        bytes_value: vec![1, 2],
        boolean_value: true,
        number_value: 17,
        string_value: "text".to_string(),
        enum_value: "green".to_string(),
        struct_values: members,
        location_value: Location { latitude: 5, longitude: -6 },
    }
}

fn property(data_type: DataType, options: Vec<&str>, members: Vec<PropertySchema>) -> Property {
    Property {
        name: "p".to_string(),
        record_id: "r".to_string(),
        data_type,
        reporters: vec![Reporter { public_key: "pk1".to_string(), authorized: true, index: 0 }],
        current_page: 1,
        wrapped: false,
        fixed: false,
        number_exponent: 0,
        enum_options: options.into_iter().map(String::from).collect(),
        struct_properties: members,
        unit: String::new(),
    }
}

fn message(result: Result<(), ApplyError>) -> String {
    match result {
        Err(ApplyError::InvalidTransaction(m)) => m,
        other => panic!("expected a rejection, got {:?}", other),
    }
}

#[test]
fn data_type_names() {
    assert_eq!(name_of_type(DataType::TypeUnset), "TYPE_UNSET");
    assert_eq!(name_of_type(DataType::Bytes), "BYTES");
    assert_eq!(name_of_type(DataType::Boolean), "BOOLEAN");
    assert_eq!(name_of_type(DataType::Number), "NUMBER");
    assert_eq!(name_of_type(DataType::Text), "STRING");
    assert_eq!(name_of_type(DataType::Enum), "ENUM");
    assert_eq!(name_of_type(DataType::Struct), "STRUCT");
    assert_eq!(name_of_type(DataType::Location), "LOCATION");
}

#[test]
fn finders_take_first_or_last_match() {
    let values = vec![
        value("a", DataType::Number, vec![]),
        value("b", DataType::Number, vec![]),
        value("a", DataType::Text, vec![]),
    ];
    assert_eq!(find_value(&values, "a"), 0);
    assert_eq!(find_value(&values, "b"), 1);
    assert_eq!(find_value(&values, "c"), 3);
    assert_eq!(find_last_value(&values, "a"), Some(2));
    assert_eq!(find_last_value(&values, "b"), Some(1));
    assert_eq!(find_last_value(&values, "c"), None);
    assert_eq!(find_last_value(&[].to_vec(), "a"), None);
    let schemas = vec![
        schema("x", DataType::Number, vec![]),
        schema("x", DataType::Text, vec![]),
        schema("y", DataType::Text, vec![]),
    ];
    assert_eq!(find_last_schema(&schemas, "x"), Some(1));
    assert_eq!(find_last_schema(&schemas, "y"), Some(2));
    assert_eq!(find_last_schema(&schemas, "z"), None);
    let options = vec!["red".to_string(), "green".to_string(), "red".to_string()];
    assert_eq!(find_option(&options, "red"), 0);
    assert_eq!(find_option(&options, "green"), 1);
    assert_eq!(find_option(&options, "blue"), 3);
}

#[test]
fn reported_value_takes_the_field_of_its_type() {
    let handler = TransactionHandlerDGC::new();
    let plain = property(DataType::Number, vec![], vec![]);
    let bytes = handler
        ._make_new_reported_value(3, 9, &value("p", DataType::Bytes, vec![]), &plain)
        .unwrap();
    assert_eq!(bytes.reporter_index, 3);
    assert_eq!(bytes.timestamp, 9);
    assert_eq!(bytes.bytes_value, vec![1, 2]);
    assert!(!bytes.boolean_value);
    assert_eq!(bytes.number_value, 0);
    assert_eq!(bytes.string_value, "");
    assert_eq!(bytes.location_value, Location { latitude: 0, longitude: 0 });
    let boolean = handler
        ._make_new_reported_value(3, 9, &value("p", DataType::Boolean, vec![]), &plain)
        .unwrap();
    assert!(boolean.boolean_value);
    assert_eq!(boolean.bytes_value, Vec::<u8>::new());
    let number = handler
        ._make_new_reported_value(3, 9, &value("p", DataType::Number, vec![]), &plain)
        .unwrap();
    assert_eq!(number.number_value, 17);
    let text = handler
        ._make_new_reported_value(3, 9, &value("p", DataType::Text, vec![]), &plain)
        .unwrap();
    assert_eq!(text.string_value, "text");
    assert_eq!(text.number_value, 0);
    let location = handler
        ._make_new_reported_value(3, 9, &value("p", DataType::Location, vec![]), &plain)
        .unwrap();
    assert_eq!(location.location_value, Location { latitude: 5, longitude: -6 });
}

#[test]
fn unset_data_type_is_rejected() {
    let handler = TransactionHandlerDGC::new();
    let plain = property(DataType::Number, vec![], vec![]);
    let result =
        handler._make_new_reported_value(0, 1, &value("p", DataType::TypeUnset, vec![]), &plain);
    assert_eq!(result, Err(ApplyError::InvalidTransaction("DataType is not set".to_string())));
}

#[test]
fn enum_value_is_resolved_to_its_position() {
    let handler = TransactionHandlerDGC::new();
    let colours = property(DataType::Enum, vec!["red", "green", "blue"], vec![]);
    let reported = handler
        ._make_new_reported_value(0, 1, &value("p", DataType::Enum, vec![]), &colours)
        .unwrap();
    assert_eq!(reported.enum_value, 1);
    assert_eq!(reported.string_value, "");
}

#[test]
fn unknown_enum_name_fails_cleanly() {
    let handler = TransactionHandlerDGC::new();
    let colours = property(DataType::Enum, vec!["red", "blue"], vec![]);
    let result = handler._make_new_reported_value(
        0,
        1,
        &value("p", DataType::Enum, vec![]),
        &colours,
    );
    assert_eq!(
        result,
        Err(ApplyError::InvalidTransaction(
            "Provided enum name is not a valid option: green".to_string()
        ))
    );
    let none = property(DataType::Enum, vec![], vec![]);
    assert!(
        handler._make_new_reported_value(0, 1, &value("p", DataType::Enum, vec![]), &none).is_err()
    );
}

#[test]
fn struct_length_mismatch_fails_cleanly() {
    let handler = TransactionHandlerDGC::new();
    let members = vec![schema("a", DataType::Number, vec![]), schema("b", DataType::Text, vec![])];
    let one = vec![value("a", DataType::Number, vec![])];
    assert_eq!(
        message(handler._validate_struct_values(&one, &members)),
        "Provided struct does not match schema length: 1 != 2"
    );
    let three = vec![
        value("a", DataType::Number, vec![]),
        value("b", DataType::Text, vec![]),
        value("c", DataType::Text, vec![]),
    ];
    assert_eq!(
        message(handler._validate_struct_values(&three, &members)),
        "Provided struct does not match schema length: 3 != 2"
    );
    assert_eq!(
        message(handler._validate_struct_values(&vec![], &members)),
        "Provided struct does not match schema length: 0 != 2"
    );
    let twelve: Vec<PropertyValue> =
        (0..12).map(|_| value("a", DataType::Number, vec![])).collect();
    assert_eq!(
        message(handler._validate_struct_values(&twelve, &members)),
        "Provided struct does not match schema length: 12 != 2"
    );
    assert_eq!(handler._validate_struct_values(&vec![], &vec![]), Ok(()));
}

#[test]
fn struct_members_are_checked_by_name_and_type() {
    let handler = TransactionHandlerDGC::new();
    let members = vec![schema("a", DataType::Number, vec![]), schema("b", DataType::Text, vec![])];
    let fine = vec![value("b", DataType::Text, vec![]), value("a", DataType::Number, vec![])];
    assert_eq!(handler._validate_struct_values(&fine, &members), Ok(()));
    let missing = vec![value("a", DataType::Number, vec![]), value("c", DataType::Text, vec![])];
    assert_eq!(
        message(handler._validate_struct_values(&missing, &members)),
        "Provided struct missing required property from schema: b"
    );
    let wrong = vec![value("a", DataType::Text, vec![]), value("b", DataType::Text, vec![])];
    assert_eq!(
        message(handler._validate_struct_values(&wrong, &members)),
        "Struct property \"a\" must have data type: NUMBER"
    );
    let doubled = vec![value("a", DataType::Text, vec![]), value("a", DataType::Number, vec![])];
    assert_eq!(
        message(handler._validate_struct_values(&doubled, &members)),
        "Struct property \"a\" must have data type: NUMBER"
    );
}

#[test]
fn nested_structs_are_checked_recursively() {
    let handler = TransactionHandlerDGC::new();
    let members = vec![
        schema("outer", DataType::Struct, vec![schema("inner", DataType::Boolean, vec![])]),
        schema("flat", DataType::Number, vec![]),
    ];
    let fine = vec![
        value("outer", DataType::Struct, vec![value("inner", DataType::Boolean, vec![])]),
        value("flat", DataType::Number, vec![]),
    ];
    assert_eq!(handler._validate_struct_values(&fine, &members), Ok(()));
    let short = vec![
        value("outer", DataType::Struct, vec![]),
        value("flat", DataType::Number, vec![]),
    ];
    assert_eq!(
        message(handler._validate_struct_values(&short, &members)),
        "Provided struct does not match schema length: 0 != 1"
    );
    let wrong = vec![
        value("outer", DataType::Struct, vec![value("inner", DataType::Number, vec![])]),
        value("flat", DataType::Text, vec![]),
    ];
    assert_eq!(
        message(handler._validate_struct_values(&wrong, &members)),
        "Struct property \"inner\" must have data type: BOOLEAN"
    );
    let keeper = property(DataType::Struct, vec![], members);
    let reported = handler
        ._make_new_reported_value(0, 1, &value("p", DataType::Struct, fine.clone()), &keeper)
        .unwrap();
    assert_eq!(reported.struct_values, fine);
    let failed = handler._make_new_reported_value(
        0,
        1,
        &value("p", DataType::Struct, short),
        &keeper,
    );
    assert!(failed.is_err());
}
