use dgc_processor::addressing::{make_property_address, make_record_address};
use dgc_processor::codec::to_bytes;
use dgc_processor::error::ApplyError;
use dgc_processor::handler::{Next, Transaction, TransactionHandlerDGC};
use dgc_processor::payload::{Action, Payload, UpdatePropertiesAction};
use dgc_processor::property::{Property, PropertyPage, ReportedValue, Reporter};
use dgc_processor::record::{AssociatedParticipant, Record};
use dgc_processor::schema::DataType;
use dgc_processor::state::{Cell, StateDGC};
use dgc_processor::updates::{add_to_page, page_after, PROPERTY_PAGE_MAX_LENGTH};
use dgc_processor::value::{Location, PropertyValue};
use std::collections::HashMap;

fn reported(timestamp: u64, reporter_index: u32, n: i64) -> ReportedValue {
    ReportedValue {
        reporter_index,
        timestamp,
        bytes_value: vec![],
        boolean_value: false,
        number_value: n,
        string_value: String::new(),
        enum_value: 0,
        struct_values: vec![],
        location_value: Location { latitude: 0, longitude: 0 },
    }
}

fn page_with(count: usize) -> PropertyPage {
    PropertyPage {
        name: "w".to_string(),
        record_id: "r1".to_string(),
        reported_values: (0..count).map(|i| reported(i as u64, 0, i as i64)).collect(),
    }
}

fn property_at(page: u32, wrapped: bool) -> Property {
    Property {
        name: "w".to_string(),
        record_id: "r1".to_string(),
        data_type: DataType::Number,
        reporters: vec![Reporter { public_key: "pk1".to_string(), authorized: true, index: 0 }],
        current_page: page,
        wrapped,
        fixed: false,
        number_exponent: 0,
        enum_options: vec![],
        struct_properties: vec![],
        unit: String::new(),
    }
}

fn store_with(property: Property, pages: Vec<(u32, PropertyPage)>) -> HashMap<String, Vec<u8>> {
    let holder = AssociatedParticipant { participant_id: "pk1".to_string(), timestamp: 1 };
    let record = Record {
        record_id: "r1".to_string(),
        table: "widget".to_string(),
        field_final: false,
        owners: vec![holder.clone()],
        custodians: vec![holder],
    };
    let mut state = StateDGC::new();
    state.load(make_record_address("r1"), None);
    state.load(make_property_address("r1", "w", 0), None);
    state.set_record("r1", record).unwrap();
    state.set_property("r1", "w", property).unwrap();
    for (number, page) in pages {
        state.load(make_property_address("r1", "w", number), None);
        state.set_property_page("r1", "w", number, page).unwrap();
    }
    let mut store = HashMap::new();
    for cell in state.cells {
        if cell.written {
            store.insert(cell.address, cell.data.unwrap());
        }
    }
    store
}

fn report(store: &mut HashMap<String, Vec<u8>>, timestamp: u64, n: i64) -> Result<(), ApplyError> {
    let update = PropertyValue {
        name: "w".to_string(),
        data_type: DataType::Number,
        bytes_value: vec![],
        boolean_value: false,
        number_value: n,
        string_value: String::new(),
        enum_value: String::new(),
        struct_values: vec![],
        location_value: Location { latitude: 0, longitude: 0 },
    };
    let action = Action::UpdateProperties(UpdatePropertiesAction {
        record_id: "r1".to_string(),
        properties: vec![update],
    });
    let request = Transaction {
        payload: to_bytes(&Payload { action, timestamp }),
        signer_public_key: "pk1".to_string(),
    };
    let handler = TransactionHandlerDGC::new();
    let mut loaded: Vec<Cell> = Vec::new();
    loop {
        match handler.step(&request, &loaded) {
            Next::Load(address) => {
                let data = store.get(&address).cloned();
                loaded.push(Cell { address, data, written: false });
            }
            Next::Commit(cells) => {
                for cell in cells {
                    store.insert(cell.address, cell.data.unwrap());
                }
                return Ok(());
            }
            Next::Reject(e) => return Err(e),
        }
    }
}

fn property_in(store: &HashMap<String, Vec<u8>>) -> Property {
    let address = make_property_address("r1", "w", 0);
    let mut state = StateDGC::new();
    state.load(address.clone(), store.get(&address).cloned());
    state.get_property("r1", "w").unwrap().unwrap()
}

fn page_in(store: &HashMap<String, Vec<u8>>, number: u32) -> Option<PropertyPage> {
    let address = make_property_address("r1", "w", number);
    let mut state = StateDGC::new();
    state.load(address.clone(), store.get(&address).cloned());
    state.get_property_page("r1", "w", number).unwrap()
}

#[test]
fn page_length_limit_is_256() {
    assert_eq!(PROPERTY_PAGE_MAX_LENGTH, 256);
}

#[test]
fn page_after_walks_the_ring() {
    assert_eq!(page_after(1), 2);
    assert_eq!(page_after(255), 256);
    assert_eq!(page_after(256), 1);
    assert_eq!(page_after(0), 1);
    assert_eq!(page_after(u32::MAX), 1);
}

#[test]
fn add_to_page_keeps_values_sorted_and_stable() {
    let mut page = PropertyPage {
        name: "w".to_string(),
        record_id: "r1".to_string(),
        reported_values: vec![reported(5, 1, 100), reported(5, 1, 101), reported(9, 0, 102)],
    };
    page = add_to_page(page, reported(5, 1, 103));
    page = add_to_page(page, reported(5, 0, 104));
    page = add_to_page(page, reported(1, 7, 105));
    page = add_to_page(page, reported(9, 0, 106));
    let seen: Vec<i64> = page.reported_values.iter().map(|v| v.number_value).collect();
    assert_eq!(seen, vec![105, 104, 100, 101, 103, 102, 106]);
    assert_eq!(page.name, "w");
    assert_eq!(page.record_id, "r1");
}

#[test]
fn add_to_page_sorts_an_unsorted_page() {
    let page = PropertyPage {
        name: "w".to_string(),
        record_id: "r1".to_string(),
        reported_values: vec![reported(9, 0, 1), reported(3, 0, 2), reported(3, 0, 3)],
    };
    let page = add_to_page(page, reported(1, 0, 4));
    let seen: Vec<i64> = page.reported_values.iter().map(|v| v.number_value).collect();
    assert_eq!(seen, vec![4, 2, 3, 1]);
}

#[test]
fn append_255_does_not_rotate() {
    let mut store = store_with(property_at(1, false), vec![(1, page_with(254))]);
    report(&mut store, 1000, 7).unwrap();
    assert_eq!(page_in(&store, 1).unwrap().reported_values.len(), 255);
    assert_eq!(property_in(&store).current_page, 1);
    assert_eq!(page_in(&store, 2), None);
}

#[test]
fn append_256_rotates_and_257_lives_on_new_page() {
    let mut store = store_with(property_at(1, false), vec![(1, page_with(255))]);
    report(&mut store, 1000, 7).unwrap();
    assert_eq!(page_in(&store, 1).unwrap().reported_values.len(), 256);
    let property = property_in(&store);
    assert_eq!(property.current_page, 2);
    assert!(!property.wrapped);
    assert_eq!(page_in(&store, 2).unwrap().reported_values.len(), 0);
    report(&mut store, 1001, 8).unwrap();
    assert_eq!(page_in(&store, 1).unwrap().reported_values.len(), 256);
    let second = page_in(&store, 2).unwrap();
    assert_eq!(second.reported_values.len(), 1);
    assert_eq!(second.reported_values[0].number_value, 8);
    assert_eq!(second.reported_values[0].timestamp, 1001);
    assert_eq!(property_in(&store).current_page, 2);
}

#[test]
fn rotation_resets_the_next_page() {
    let mut store =
        store_with(property_at(3, true), vec![(3, page_with(255)), (4, page_with(256))]);
    report(&mut store, 1000, 7).unwrap();
    assert_eq!(property_in(&store).current_page, 4);
    assert!(property_in(&store).wrapped);
    assert_eq!(page_in(&store, 4).unwrap().reported_values.len(), 0);
    assert_eq!(page_in(&store, 3).unwrap().reported_values.len(), 256);
}

#[test]
fn rotation_from_page_256_wraps_to_page_1() {
    let mut store =
        store_with(property_at(256, false), vec![(256, page_with(255)), (1, page_with(256))]);
    report(&mut store, 1000, 7).unwrap();
    let property = property_in(&store);
    assert_eq!(property.current_page, 1);
    assert!(property.wrapped);
    assert_eq!(page_in(&store, 1).unwrap().reported_values.len(), 0);
    assert_eq!(page_in(&store, 256).unwrap().reported_values.len(), 256);
    report(&mut store, 1001, 8).unwrap();
    assert_eq!(page_in(&store, 1).unwrap().reported_values.len(), 1);
}

#[test]
fn missing_current_page_is_rejected() {
    let mut store = store_with(property_at(5, false), vec![(1, page_with(3))]);
    assert_eq!(
        report(&mut store, 1000, 7),
        Err(ApplyError::InvalidTransaction("Property page does not exist".to_string()))
    );
}

#[test]
fn many_updates_fill_page_one_and_move_on() {
    let mut store = store_with(property_at(1, false), vec![(1, page_with(0))]);
    for i in 0..300u64 {
        report(&mut store, 100 + i, i as i64).unwrap();
    }
    assert_eq!(page_in(&store, 1).unwrap().reported_values.len(), 256);
    assert_eq!(page_in(&store, 2).unwrap().reported_values.len(), 44);
    assert_eq!(property_in(&store).current_page, 2);
    assert_eq!(page_in(&store, 2).unwrap().reported_values[0].number_value, 256);
}
