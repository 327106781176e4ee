use dgc_processor::codec::{copy_of, from_bytes, to_bytes, Codec};
use dgc_processor::handler::PayloadDGC;
use dgc_processor::participant::{CreditBalance, Participant};
use dgc_processor::payload::{
    Action, AnswerProposalAction, CreateParticipantAction, CreateRecordAction, CreateTableAction,
    Payload, Response,
};
use dgc_processor::property::{Property, PropertyPage, ReportedValue, Reporter};
use dgc_processor::proposal::{Exchange, Proposal, Role, Status};
use dgc_processor::record::{AssociatedParticipant, Record, Table};
use dgc_processor::schema::{DataType, PropertySchema};
use dgc_processor::error::ApplyError;
use dgc_processor::value::{Location, PropertyValue};
use dgc_processor::wire::{decode, encode, Node};

fn schema(name: &str, data_type: DataType, members: Vec<PropertySchema>) -> PropertySchema {
    PropertySchema {
        name: name.to_string(),
        data_type,
        required: true,
        fixed: false,
        delayed: true,
        number_exponent: -3,
        enum_options: vec!["red".to_string(), "grün".to_string()],
        struct_properties: members,
        unit: "kg".to_string(),
    }
}

fn value(name: &str, data_type: DataType, members: Vec<PropertyValue>) -> PropertyValue {
    PropertyValue {
        name: name.to_string(),
        data_type,
        bytes_value: vec![0, 255, 7],
        boolean_value: true,
        number_value: i64::MIN,
        string_value: "テキスト".to_string(),
        enum_value: "red".to_string(),
        struct_values: members,
        location_value: Location { latitude: -1, longitude: i64::MAX },
    }
}

#[test]
fn wire_bytes_of_leaf_and_list() {
    assert_eq!(encode(&Node::Leaf(vec![7, 8])), vec![0, 2, 0, 0, 0, 0, 0, 0, 0, 7, 8]);
    assert_eq!(encode(&Node::List(vec![])), vec![1, 0, 0, 0, 0, 0, 0, 0, 0]);
    assert_eq!(
        encode(&Node::List(vec![Node::Leaf(vec![]), Node::List(vec![Node::Leaf(vec![9])])])),
        vec![
            1, 2, 0, 0, 0, 0, 0, 0, 0, //
            0, 0, 0, 0, 0, 0, 0, 0, 0, //
            1, 1, 0, 0, 0, 0, 0, 0, 0, //
            0, 1, 0, 0, 0, 0, 0, 0, 0, 9,
        ]
    );
}

#[test]
fn wire_decode_rejects_malformed_bytes() {
    assert_eq!(decode(&[]), None);
    assert_eq!(decode(&[0, 1, 0, 0, 0, 0, 0, 0]), None);
    assert_eq!(decode(&[0, 1, 0, 0, 0, 0, 0, 0, 0]), None);
    assert_eq!(decode(&[0, 0, 0, 0, 0, 0, 0, 0, 0, 1]), None);
    assert_eq!(decode(&[2, 0, 0, 0, 0, 0, 0, 0, 0]), None);
    assert_eq!(decode(&[1, 255, 255, 255, 255, 255, 255, 255, 255]), None);
    assert_eq!(decode(&[0, 255, 255, 255, 255, 255, 255, 255, 255, 1, 2]), None);
    assert_eq!(decode(&[0, 0, 0, 0, 0, 0, 0, 0, 0]), Some(Node::Leaf(vec![])));
}

#[test]
fn scalars_have_the_documented_leaves() {
    assert_eq!(1u64.to_node(), Node::Leaf(vec![1, 0, 0, 0, 0, 0, 0, 0]));
    assert_eq!(0x0102u32.to_node(), Node::Leaf(vec![2, 1, 0, 0, 0, 0, 0, 0]));
    assert_eq!(0i64.to_node(), Node::Leaf(vec![0, 0, 0, 0, 0, 0, 0, 0x80]));
    assert_eq!((-1i64).to_node(), Node::Leaf(vec![255, 255, 255, 255, 255, 255, 255, 0x7f]));
    assert_eq!(i64::MIN.to_node(), Node::Leaf(vec![0; 8]));
    assert_eq!(i64::MAX.to_node(), Node::Leaf(vec![255; 8]));
    assert_eq!(true.to_node(), Node::Leaf(vec![1]));
    assert_eq!(false.to_node(), Node::Leaf(vec![0]));
    assert_eq!("aé".to_string().to_node(), Node::Leaf(vec![0x61, 0xc3, 0xa9]));
    assert_eq!(vec![1u8, 2].to_node(), Node::Leaf(vec![1, 2]));
    assert_eq!(DataType::Struct.to_node(), Node::Leaf(vec![6, 0, 0, 0, 0, 0, 0, 0]));
}

#[test]
fn scalars_read_only_their_own_leaves() {
    assert_eq!(u64::from_node(&Node::Leaf(vec![1, 0, 0, 0, 0, 0, 0])), None);
    assert_eq!(u64::from_node(&Node::List(vec![])), None);
    assert_eq!(u32::from_node(&Node::Leaf(vec![0, 0, 0, 0, 1, 0, 0, 0])), None);
    assert_eq!(u32::from_node(&Node::Leaf(vec![255, 255, 255, 255, 0, 0, 0, 0])), Some(u32::MAX));
    assert_eq!(bool::from_node(&Node::Leaf(vec![2])), None);
    assert_eq!(bool::from_node(&Node::Leaf(vec![1, 0])), None);
    assert_eq!(String::from_node(&Node::Leaf(vec![0xff])), None);
    assert_eq!(String::from_node(&Node::Leaf(vec![0xc3, 0xa9])), Some("é".to_string()));
    assert_eq!(i64::from_node(&Node::Leaf(vec![0, 0, 0, 0, 0, 0, 0, 0x80])), Some(0));
    assert_eq!(i64::from_node(&Node::Leaf(vec![41, 0, 0, 0, 0, 0, 0, 0x80])), Some(41));
    assert_eq!(i64::from_node(&Node::Leaf(vec![0; 8])), Some(i64::MIN));
    assert_eq!(DataType::from_node(&8u64.to_node()), None);
    assert_eq!(DataType::from_node(&7u64.to_node()), Some(DataType::Location));
    assert_eq!(Role::from_node(&7u64.to_node()), None);
    assert_eq!(Status::from_node(&5u64.to_node()), None);
    assert_eq!(Response::from_node(&5u64.to_node()), None);
}

#[test]
fn participant_round_trip() {
    let participant = Participant {
        public_key: "pk1".to_string(),
        name: "Alice".to_string(),
        timestamp: 10,
        dg_coin_balances: vec![
            CreditBalance { proposal_id: "a".to_string(), timestamp: 1, dg_coin_amount: -5 },
            CreditBalance { proposal_id: "b".to_string(), timestamp: 2, dg_coin_amount: 70 },
        ],
        dg_coin_credits: vec![],
    };
    let bytes = to_bytes(&participant);
    assert_eq!(from_bytes::<Participant>(&bytes), Some(participant.clone()));
    assert_eq!(copy_of(&participant), participant);
    assert_eq!(from_bytes::<Record>(&bytes), None);
}

#[test]
fn record_and_table_round_trip() {
    let record = Record {
        record_id: "r1".to_string(),
        table: "widget".to_string(),
        field_final: true,
        owners: vec![AssociatedParticipant { participant_id: "pk1".to_string(), timestamp: 3 }],
        custodians: vec![],
    };
    assert_eq!(from_bytes::<Record>(&to_bytes(&record)), Some(record));
    let table = Table {
        name: "widget".to_string(),
        properties: vec![
            schema("plain", DataType::Number, vec![]),
            schema(
                "nested",
                DataType::Struct,
                vec![
                    schema("a", DataType::Text, vec![]),
                    schema("b", DataType::Struct, vec![schema("c", DataType::Enum, vec![])]),
                ],
            ),
        ],
    };
    assert_eq!(from_bytes::<Table>(&to_bytes(&table)), Some(table.clone()));
    assert_eq!(table.properties[1].clone(), table.properties[1]);
}

#[test]
fn property_and_page_round_trip() {
    let property = Property {
        name: "w".to_string(),
        record_id: "r1".to_string(),
        data_type: DataType::Struct,
        reporters: vec![
            Reporter { public_key: "pk1".to_string(), authorized: false, index: 0 },
            Reporter { public_key: "pk2".to_string(), authorized: true, index: u32::MAX },
        ],
        current_page: 256,
        wrapped: true,
        fixed: true,
        number_exponent: 2,
        enum_options: vec!["x".to_string()],
        struct_properties: vec![schema("m", DataType::Bytes, vec![])],
        unit: String::new(),
    };
    assert_eq!(from_bytes::<Property>(&to_bytes(&property)), Some(property));
    let page = PropertyPage {
        name: "w".to_string(),
        record_id: "r1".to_string(),
        reported_values: vec![ReportedValue {
            reporter_index: 4,
            timestamp: u64::MAX,
            bytes_value: vec![1, 2, 3],
            boolean_value: true,
            number_value: -42,
            string_value: "s".to_string(),
            enum_value: 9,
            struct_values: vec![value(
                "outer",
                DataType::Struct,
                vec![value("inner", DataType::Location, vec![])],
            )],
            location_value: Location { latitude: 48_137_000, longitude: 11_575_000 },
        }],
    };
    assert_eq!(from_bytes::<PropertyPage>(&to_bytes(&page)), Some(page.clone()));
    assert_eq!(
        page.reported_values[0].struct_values[0].clone(),
        page.reported_values[0].struct_values[0],
    );
}

#[test]
fn proposal_and_exchange_round_trip() {
    let proposal = Proposal {
        proposal_id: "p1".to_string(),
        status: Status::Closed,
        role: Role::TransferDgc,
        timestamp: 5,
        issuing_participant: "pk1".to_string(),
        receiving_participant: "pk2".to_string(),
        record_id: "r1".to_string(),
        properties: vec!["a".to_string(), "b".to_string()],
        dg_coin_amount: 30,
        dg_coin_exchanged: 12,
        currency_iso_codes: "USD".to_string(),
        currency_quote_amount: -1,
    };
    assert_eq!(from_bytes::<Proposal>(&to_bytes(&proposal)), Some(proposal));
    let exchange = Exchange {
        buy_proposal_id: "b1".to_string(),
        sell_proposal_id: "s1".to_string(),
        timestamp: 7,
        currency_iso_codes: "USD".to_string(),
        last_currency_price: f64::to_bits(1.0),
        last_dgc_price: f64::to_bits(0.5),
    };
    assert_eq!(from_bytes::<Exchange>(&to_bytes(&exchange)), Some(exchange));
}

#[test]
fn payload_round_trip_for_each_action() {
    let actions = vec![
        Action::CreateParticipant(CreateParticipantAction { name: "Alice".to_string() }),
        Action::CreateRecord(CreateRecordAction {
            record_id: "r1".to_string(),
            table: "widget".to_string(),
            properties: vec![value("w", DataType::Number, vec![])],
        }),
        Action::CreateTable(CreateTableAction {
            name: "widget".to_string(),
            properties: vec![schema("w", DataType::Number, vec![])],
        }),
        Action::AnswerProposal(AnswerProposalAction {
            proposal_id: "p1".to_string(),
            response: Response::AutoClose,
            role: Role::SellDgc,
            receiving_participant: String::new(),
            record_id: String::new(),
            dg_coin_amount: 30,
            exchanges: vec![],
        }),
    ];
    for action in actions {
        let payload = Payload { action, timestamp: 99 };
        let bytes = to_bytes(&payload);
        assert_eq!(from_bytes::<Payload>(&bytes), Some(payload.clone()));
        let read = PayloadDGC::new(&bytes).unwrap().unwrap();
        assert_eq!(read.get_action(), payload.action);
        assert_eq!(read.get_timestamp(), 99);
    }
}

#[test]
fn equal_values_have_equal_bytes() {
    let a = value("v", DataType::Struct, vec![value("m", DataType::Text, vec![])]);
    let b = value("v", DataType::Struct, vec![value("m", DataType::Text, vec![])]);
    assert_eq!(to_bytes(&a), to_bytes(&b));
    let c = value("v", DataType::Struct, vec![value("n", DataType::Text, vec![])]);
    assert_ne!(to_bytes(&a), to_bytes(&c));
}

fn rejected(bytes: &[u8]) -> String {
    match PayloadDGC::new(bytes) {
        Err(ApplyError::InvalidTransaction(message)) => message,
        other => panic!("expected a rejection, got {:?}", other),
    }
}

#[test]
fn payload_checks_are_made_in_order() {
    assert_eq!(rejected(&[1, 2, 3]), "Cannot deserialize payload");
    assert_eq!(rejected(&[]), "Cannot deserialize payload");
    let payload = |action: Action, timestamp: u64| to_bytes(&Payload { action, timestamp });
    let participant =
        |name: &str| Action::CreateParticipant(CreateParticipantAction { name: name.to_string() });
    assert_eq!(
        rejected(&payload(participant(""), 1)),
        "Participant name cannot be an empty string",
    );
    assert_eq!(
        rejected(&payload(participant(""), 0)),
        "Participant name cannot be an empty string",
    );
    assert_eq!(rejected(&payload(participant("Alice"), 0)), "Timestamp is not set");
    let record = Action::CreateRecord(CreateRecordAction {
        record_id: String::new(),
        table: "t".to_string(),
        properties: vec![],
    });
    assert_eq!(rejected(&payload(record, 1)), "Record id cannot be empty string");
    let table = |name: &str, properties: Vec<PropertySchema>| {
        Action::CreateTable(CreateTableAction { name: name.to_string(), properties })
    };
    assert_eq!(rejected(&payload(table("", vec![]), 1)), "Table name cannot be an empty string");
    assert_eq!(rejected(&payload(table("t", vec![]), 1)), "Table must have at least one property");
    assert_eq!(
        rejected(&payload(
            table(
                "t",
                vec![schema("a", DataType::Text, vec![]), schema("", DataType::Text, vec![])],
            ),
            1
        )),
        "Property name cannot be an empty string"
    );
    let mut trailing = payload(participant("Alice"), 1);
    trailing.push(0);
    assert_eq!(rejected(&trailing), "Cannot deserialize payload");
    assert!(PayloadDGC::new(&payload(participant("Alice"), 1)).unwrap().is_some());
}
