use dgc_processor::addressing::{
    make_exchange_address, make_participant_address, make_property_address,
    make_proposal_address, make_record_address, make_table_address,
};
use dgc_processor::codec::to_bytes;
use dgc_processor::error::ApplyError;
use dgc_processor::handler::{Next, Transaction, TransactionHandlerDGC};
use dgc_processor::participant::{CreditBalance, Participant};
use dgc_processor::payload::{
    Action, AnswerProposalAction, CreateParticipantAction, CreateProposalAction,
    CreateRecordAction, CreateTableAction, FinalizeRecordAction, Payload, Response,
    RevokeReporterAction, UpdatePropertiesAction,
};
use dgc_processor::property::{Property, PropertyPage, Reporter};
use dgc_processor::proposal::{Exchange, Proposal, Role, Status};
use dgc_processor::record::{AssociatedParticipant, Record, Table};
use dgc_processor::schema::{DataType, PropertySchema};
use dgc_processor::state::{Cell, StateDGC};
use dgc_processor::value::{Location, PropertyValue};
use std::collections::HashMap;

struct Ledger {
    store: HashMap<String, Vec<u8>>,
    handler: TransactionHandlerDGC,
}

impl Ledger {
    fn new() -> Ledger {
        Ledger { store: HashMap::new(), handler: TransactionHandlerDGC::new() }
    }

    fn submit(&mut self, action: Action, timestamp: u64, signer: &str) -> Result<(), ApplyError> {
        let request = Transaction {
            payload: to_bytes(&Payload { action, timestamp }),
            signer_public_key: signer.to_string(),
        };
        let mut loaded: Vec<Cell> = Vec::new();
        loop {
            match self.handler.step(&request, &loaded) {
                Next::Load(address) => {
                    let data = self.store.get(&address).cloned();
                    loaded.push(Cell { address, data, written: false });
                }
                Next::Commit(cells) => {
                    for cell in cells {
                        self.store.insert(cell.address, cell.data.unwrap());
                    }
                    return Ok(());
                }
                Next::Reject(e) => return Err(e),
            }
        }
    }

    fn view(&self, address: String) -> StateDGC {
        let mut state = StateDGC::new();
        let data = self.store.get(&address).cloned();
        state.load(address, data);
        state
    }

    fn participant(&self, id: &str) -> Option<Participant> {
        self.view(make_participant_address(id)).get_participant(id).unwrap()
    }

    fn table(&self, name: &str) -> Option<Table> {
        self.view(make_table_address(name)).get_table(name).unwrap()
    }

    fn record(&self, id: &str) -> Option<Record> {
        self.view(make_record_address(id)).get_record(id).unwrap()
    }

    fn property(&self, record_id: &str, name: &str) -> Option<Property> {
        self.view(make_property_address(record_id, name, 0)).get_property(record_id, name).unwrap()
    }

    fn page(&self, record_id: &str, name: &str, page: u32) -> Option<PropertyPage> {
        self.view(make_property_address(record_id, name, page))
            .get_property_page(record_id, name, page)
            .unwrap()
    }

    fn proposal(&self, id: &str) -> Option<Proposal> {
        self.view(make_proposal_address(id)).get_proposal(id).unwrap()
    }

    fn exchange(&self, buy: &str, sell: &str) -> Option<Exchange> {
        self.view(make_exchange_address(buy, sell)).get_exchange(buy, sell).unwrap()
    }

    fn put_participant(&mut self, participant: Participant) {
        let id = participant.public_key.clone();
        let mut state = self.view(make_participant_address(&id));
        state.set_participant(&id, participant).unwrap();
        self.commit(state);
    }

    fn commit(&mut self, state: StateDGC) {
        for cell in state.cells {
            if cell.written {
                self.store.insert(cell.address, cell.data.unwrap());
            }
        }
    }
}

fn schema(name: &str, data_type: DataType) -> PropertySchema {
    PropertySchema {
        name: name.to_string(),
        data_type,
        required: false,
        fixed: false,
        delayed: false,
        number_exponent: 0,
        enum_options: vec![],
        struct_properties: vec![],
        unit: String::new(),
    }
}

fn value(name: &str, data_type: DataType) -> PropertyValue {
    PropertyValue {
        name: name.to_string(),
        data_type,
        bytes_value: vec![],
        boolean_value: false,
        number_value: 0,
        string_value: String::new(),
        enum_value: String::new(),
        struct_values: vec![],
        location_value: Location { latitude: 0, longitude: 0 },
    }
}

fn number(name: &str, n: i64) -> PropertyValue {
    PropertyValue { number_value: n, ..value(name, DataType::Number) }
}

fn create_participant(name: &str) -> Action {
    Action::CreateParticipant(CreateParticipantAction { name: name.to_string() })
}

fn create_table(name: &str, properties: Vec<PropertySchema>) -> Action {
    Action::CreateTable(CreateTableAction { name: name.to_string(), properties })
}

fn create_record(record_id: &str, table: &str, properties: Vec<PropertyValue>) -> Action {
    Action::CreateRecord(CreateRecordAction {
        record_id: record_id.to_string(),
        table: table.to_string(),
        properties,
    })
}

fn update(record_id: &str, properties: Vec<PropertyValue>) -> Action {
    Action::UpdateProperties(
        UpdatePropertiesAction { record_id: record_id.to_string(), properties }
    )
}

fn propose(id: &str, role: Role, record_id: &str, receiver: &str, amount: i64) -> Action {
    Action::CreateProposal(CreateProposalAction {
        proposal_id: id.to_string(),
        record_id: record_id.to_string(),
        receiving_participant: receiver.to_string(),
        role,
        properties: vec![],
        dg_coin_amount: amount,
        currency_iso_codes: "USD".to_string(),
        currency_quote_amount: 3,
    })
}

fn answer(id: &str, response: Response, role: Role, record_id: &str, receiver: &str, amount: i64)
    -> Action {
    Action::AnswerProposal(AnswerProposalAction {
        proposal_id: id.to_string(),
        response,
        role,
        receiving_participant: receiver.to_string(),
        record_id: record_id.to_string(),
        dg_coin_amount: amount,
        exchanges: vec![],
    })
}

fn invalid(result: Result<(), ApplyError>) -> String {
    match result {
        Err(ApplyError::InvalidTransaction(message)) => message,
        other => panic!("expected an invalid transaction, got {:?}", other),
    }
}

fn widget_ledger() -> Ledger {
    let mut ledger = Ledger::new();
    ledger.submit(create_participant("Alice"), 10, "pk1").unwrap();
    ledger.submit(create_participant("Bob"), 11, "pk2").unwrap();
    let w = PropertySchema { required: true, ..schema("w", DataType::Number) };
    ledger.submit(create_table("widget", vec![w]), 12, "pk1").unwrap();
    ledger.submit(create_record("r1", "widget", vec![number("w", 42)]), 20, "pk1").unwrap();
    ledger
}

fn with_balance(ledger: &mut Ledger, id: &str, balance: i64, credit: i64) {
    let mut participant = ledger.participant(id).unwrap();
    participant.dg_coin_balances.push(CreditBalance {
        proposal_id: "seed".to_string(),
        timestamp: 1,
        dg_coin_amount: balance,
    });
    if credit != 0 {
        participant.dg_coin_credits.push(CreditBalance {
            proposal_id: "seed".to_string(),
            timestamp: 1,
            dg_coin_amount: credit,
        });
    }
    ledger.put_participant(participant);
}

#[test]
fn create_participant_stores_participant_under_signer() {
    let mut ledger = Ledger::new();
    ledger.submit(create_participant("Alice"), 10, "pk1").unwrap();
    assert_eq!(
        ledger.participant("pk1"),
        Some(Participant {
            public_key: "pk1".to_string(),
            name: "Alice".to_string(),
            timestamp: 10,
            dg_coin_balances: vec![],
            dg_coin_credits: vec![],
        })
    );
    assert_eq!(ledger.store.len(), 1);
    assert!(ledger.store.contains_key(&make_participant_address("pk1")));
    assert_eq!(ledger.participant("pk1").unwrap().balance(), 0);
    assert_eq!(ledger.participant("pk1").unwrap().credit(), 0);
}

#[test]
fn create_participant_twice_is_rejected() {
    let mut ledger = Ledger::new();
    ledger.submit(create_participant("Alice"), 10, "pk1").unwrap();
    let before = ledger.store.clone();
    let message = invalid(ledger.submit(create_participant("Alicia"), 11, "pk1"));
    assert_eq!(message, "Participant already exists: Alicia");
    assert_eq!(ledger.store, before);
}

#[test]
fn create_table_and_record_store_record_property_and_page() {
    let ledger = widget_ledger();
    let holder = AssociatedParticipant { participant_id: "pk1".to_string(), timestamp: 20 };
    assert_eq!(
        ledger.record("r1"),
        Some(Record {
            record_id: "r1".to_string(),
            table: "widget".to_string(),
            field_final: false,
            owners: vec![holder.clone()],
            custodians: vec![holder],
        })
    );
    let property = ledger.property("r1", "w").unwrap();
    assert_eq!(property.current_page, 1);
    assert!(!property.wrapped);
    assert_eq!(
        property.reporters,
        vec![Reporter { public_key: "pk1".to_string(), authorized: true, index: 0 }]
    );
    assert_eq!(property.data_type, DataType::Number);
    assert_eq!(property.record_id, "r1");
    let page = ledger.page("r1", "w", 1).unwrap();
    assert_eq!(page.reported_values.len(), 1);
    assert_eq!(page.reported_values[0].reporter_index, 0);
    assert_eq!(page.reported_values[0].timestamp, 20);
    assert_eq!(page.reported_values[0].number_value, 42);
    assert_eq!(ledger.table("widget").unwrap().properties.len(), 1);
}

#[test]
fn create_table_twice_is_rejected() {
    let mut ledger = widget_ledger();
    let message =
        invalid(
            ledger.submit(create_table("widget", vec![schema("x", DataType::Text)]), 30, "pk9")
        );
    assert_eq!(message, "Table already exists: widget");
}

#[test]
fn create_table_needs_no_registered_signer() {
    let mut ledger = Ledger::new();
    ledger.submit(create_table("t", vec![schema("x", DataType::Text)]), 5, "nobody").unwrap();
    assert_eq!(ledger.table("t").unwrap().properties[0].name, "x");
}

#[test]
fn create_record_checks_signer_record_and_table() {
    let mut ledger = widget_ledger();
    assert_eq!(
        invalid(ledger.submit(create_record("r2", "widget", vec![number("w", 1)]), 21, "pk9")),
        "Participant is not register: pk9"
    );
    assert_eq!(
        invalid(ledger.submit(create_record("r1", "widget", vec![number("w", 1)]), 21, "pk1")),
        "Record already exists: r1"
    );
    assert_eq!(
        invalid(ledger.submit(create_record("r2", "gadget", vec![number("w", 1)]), 21, "pk1")),
        "Table does not exist gadget"
    );
}

#[test]
fn create_record_checks_values_against_schema() {
    let mut ledger = widget_ledger();
    let late = PropertySchema { delayed: true, ..schema("late", DataType::Text) };
    let need = PropertySchema { required: true, ..schema("need", DataType::Boolean) };
    ledger.submit(create_table("strict", vec![need, late]), 13, "pk1").unwrap();
    assert_eq!(
        invalid(ledger.submit(create_record("r2", "strict", vec![]), 21, "pk1")),
        "Required property need not provided"
    );
    let need = value("need", DataType::Boolean);
    assert_eq!(
        invalid(ledger.submit(
            create_record("r2", "strict", vec![need.clone(), number("other", 1)]),
            21,
            "pk1"
        )),
        "Provided property other is not in schemata"
    );
    assert_eq!(
        invalid(ledger.submit(create_record("r2", "strict", vec![number("need", 1)]), 21, "pk1")),
        "Value provided for need is the wrong type"
    );
    assert_eq!(
        invalid(ledger.submit(
            create_record("r2", "strict", vec![need.clone(), value("late", DataType::Text)]),
            21,
            "pk1"
        )),
        "Property is 'delayed', and cannot be set at record creation: late"
    );
    assert_eq!(ledger.record("r2"), None);
    ledger.submit(create_record("r2", "strict", vec![need]), 21, "pk1").unwrap();
    assert_eq!(ledger.page("r2", "need", 1).unwrap().reported_values.len(), 1);
    assert_eq!(ledger.page("r2", "late", 1).unwrap().reported_values.len(), 0);
    assert_eq!(ledger.property("r2", "late").unwrap().reporters.len(), 1);
}

#[test]
fn finalize_record_sets_final_and_blocks_changes() {
    let mut ledger = widget_ledger();
    let finalize = || Action::FinalizeRecord(FinalizeRecordAction { record_id: "r1".to_string() });
    assert_eq!(
        invalid(ledger.submit(finalize(), 30, "pk2")),
        "Must be owner and custodian to finalize record"
    );
    ledger.submit(finalize(), 30, "pk1").unwrap();
    let record = ledger.record("r1").unwrap();
    assert!(record.field_final);
    assert_eq!(record.owners.len(), 1);
    assert_eq!(record.custodians.len(), 1);
    let before = ledger.store.clone();
    assert_eq!(invalid(ledger.submit(finalize(), 31, "pk1")), "Record is already final: r1");
    assert_eq!(
        invalid(ledger.submit(update("r1", vec![number("w", 1)]), 32, "pk1")),
        "Record is final: r1"
    );
    assert_eq!(
        invalid(ledger.submit(propose("p1", Role::TransferOwnership, "r1", "pk2", 0), 33, "pk1")),
        "Record is final: r1"
    );
    assert_eq!(
        invalid(ledger.submit(
            propose("p1", Role::TransferCustodianship, "r1", "pk2", 0),
            33,
            "pk1"
        )),
        "Record is final: r1"
    );
    let revoke = Action::RevokeReporter(RevokeReporterAction {
        record_id: "r1".to_string(),
        reporter_id: "pk1".to_string(),
        properties: vec!["w".to_string()],
    });
    assert_eq!(invalid(ledger.submit(revoke, 34, "pk1")), "Record is final: r1");
    assert_eq!(ledger.store, before);
}

#[test]
fn finalize_missing_record_is_rejected() {
    let mut ledger = widget_ledger();
    let finalize = Action::FinalizeRecord(FinalizeRecordAction { record_id: "r9".to_string() });
    assert_eq!(invalid(ledger.submit(finalize, 30, "pk1")), "Record does not exist: r9");
}

#[test]
fn update_appends_values_in_order_of_timestamp_and_reporter() {
    let mut ledger = widget_ledger();
    ledger.submit(update("r1", vec![number("w", 7)]), 50, "pk1").unwrap();
    ledger.submit(update("r1", vec![number("w", 8)]), 30, "pk1").unwrap();
    ledger.submit(update("r1", vec![number("w", 9), number("w", 10)]), 30, "pk1").unwrap();
    let page = ledger.page("r1", "w", 1).unwrap();
    let seen: Vec<(u64, i64)> =
        page.reported_values.iter().map(|v| (v.timestamp, v.number_value)).collect();
    assert_eq!(seen, vec![(20, 42), (30, 8), (30, 9), (30, 10), (50, 7)]);
    assert_eq!(ledger.property("r1", "w").unwrap().current_page, 1);
}

#[test]
fn update_checks_record_property_reporter_and_type() {
    let mut ledger = widget_ledger();
    assert_eq!(
        invalid(ledger.submit(update("r9", vec![number("w", 1)]), 30, "pk1")),
        "Record does not exist: r9"
    );
    assert_eq!(
        invalid(ledger.submit(update("r1", vec![number("x", 1)]), 30, "pk1")),
        "Record does not have provided property: x"
    );
    assert_eq!(
        invalid(ledger.submit(update("r1", vec![number("w", 1)]), 30, "pk2")),
        "Reporter is not authorized: pk2"
    );
    assert_eq!(
        invalid(ledger.submit(update("r1", vec![value("w", DataType::Text)]), 30, "pk1")),
        "Update has wrong type: STRING != NUMBER"
    );
}

#[test]
fn update_of_fixed_property_is_rejected() {
    let mut ledger = widget_ledger();
    let fixed = PropertySchema { fixed: true, ..schema("serial", DataType::Text) };
    ledger.submit(create_table("tagged", vec![fixed]), 13, "pk1").unwrap();
    ledger.submit(create_record("r2", "tagged", vec![]), 21, "pk1").unwrap();
    assert_eq!(
        invalid(ledger.submit(update("r2", vec![value("serial", DataType::Text)]), 30, "pk1")),
        "Property is fixed and cannot be updated: serial"
    );
}

#[test]
fn transfer_ownership_accept_moves_owner_and_reporters() {
    let mut ledger = widget_ledger();
    ledger.submit(propose("p1", Role::TransferOwnership, "r1", "pk2", 0), 40, "pk1").unwrap();
    let open = ledger.proposal("p1").unwrap();
    assert_eq!(open.status, Status::Open);
    assert_eq!(open.issuing_participant, "pk1");
    assert_eq!(open.receiving_participant, "pk2");
    assert_eq!(open.dg_coin_exchanged, 0);
    assert_eq!(open.timestamp, 40);
    assert_eq!(open.currency_iso_codes, "USD");
    assert_eq!(open.currency_quote_amount, 3);
    ledger
        .submit(answer("p1", Response::Accept, Role::TransferOwnership, "r1", "pk2", 0), 41, "pk2")
        .unwrap();
    let record = ledger.record("r1").unwrap();
    assert_eq!(
        record.owners,
        vec![
            AssociatedParticipant { participant_id: "pk1".to_string(), timestamp: 20 },
            AssociatedParticipant { participant_id: "pk2".to_string(), timestamp: 41 },
        ]
    );
    assert_eq!(record.custodians.len(), 1);
    assert_eq!(
        ledger.property("r1", "w").unwrap().reporters,
        vec![
            Reporter { public_key: "pk1".to_string(), authorized: false, index: 0 },
            Reporter { public_key: "pk2".to_string(), authorized: true, index: 1 },
        ]
    );
    assert_eq!(ledger.proposal("p1").unwrap().status, Status::Accepted);
    assert_eq!(
        invalid(ledger.submit(update("r1", vec![number("w", 1)]), 42, "pk1")),
        "Reporter is not authorized: pk1"
    );
    ledger.submit(update("r1", vec![number("w", 2)]), 43, "pk2").unwrap();
    assert_eq!(ledger.page("r1", "w", 1).unwrap().reported_values[1].reporter_index, 1);
}

#[test]
fn transfer_ownership_back_reauthorizes_listed_reporter() {
    let mut ledger = widget_ledger();
    ledger.submit(propose("p1", Role::TransferOwnership, "r1", "pk2", 0), 40, "pk1").unwrap();
    ledger
        .submit(answer("p1", Response::Accept, Role::TransferOwnership, "r1", "pk2", 0), 41, "pk2")
        .unwrap();
    ledger.submit(propose("p2", Role::TransferOwnership, "r1", "pk1", 0), 42, "pk2").unwrap();
    ledger
        .submit(answer("p2", Response::Accept, Role::TransferOwnership, "r1", "pk1", 0), 43, "pk1")
        .unwrap();
    assert_eq!(
        ledger.property("r1", "w").unwrap().reporters,
        vec![
            Reporter { public_key: "pk1".to_string(), authorized: true, index: 0 },
            Reporter { public_key: "pk2".to_string(), authorized: false, index: 1 },
        ]
    );
    assert_eq!(ledger.record("r1").unwrap().owners.len(), 3);
}

#[test]
fn only_owner_proposes_transfer_and_only_receiver_accepts() {
    let mut ledger = widget_ledger();
    assert_eq!(
        invalid(ledger.submit(propose("p1", Role::TransferOwnership, "r1", "pk1", 0), 40, "pk2")),
        "Only the owner can create a proposal to change ownership"
    );
    assert_eq!(
        invalid(ledger.submit(
            propose("p1", Role::TransferCustodianship, "r1", "pk1", 0),
            40,
            "pk2"
        )),
        "Only the custodian can create a proposal to change custodianship"
    );
    assert_eq!(
        invalid(ledger.submit(propose("p1", Role::TransferOwnership, "r1", "pk7", 0), 40, "pk1")),
        "Receiving participant does not exist: pk7"
    );
    assert_eq!(
        invalid(ledger.submit(propose("p1", Role::TransferOwnership, "r9", "pk2", 0), 40, "pk1")),
        "Record does not exist: r9"
    );
    assert_eq!(
        invalid(ledger.submit(propose("p1", Role::BuyDgc, "", "", 5), 40, "pk9")),
        "Issuing participant does not exist: pk9"
    );
    ledger.submit(propose("p1", Role::TransferOwnership, "r1", "pk2", 0), 40, "pk1").unwrap();
    assert_eq!(
        invalid(ledger.submit(
            answer("p1", Response::Accept, Role::TransferOwnership, "r1", "pk2", 0),
            41,
            "pk1"
        )),
        "Only the receiving participant can Accept a proposal"
    );
    assert_eq!(
        invalid(ledger.submit(
            answer("p9", Response::Accept, Role::TransferOwnership, "r1", "pk2", 0),
            41,
            "pk2"
        )),
        "Proposal does not exist"
    );
}

#[test]
fn cancel_and_reject_set_status() {
    let mut ledger = widget_ledger();
    ledger.submit(propose("p1", Role::TransferOwnership, "r1", "pk2", 0), 40, "pk1").unwrap();
    assert_eq!(
        invalid(ledger.submit(
            answer("p1", Response::Cancel, Role::TransferOwnership, "r1", "pk2", 0),
            41,
            "pk2"
        )),
        "Only the issuing participant can cancel a proposal"
    );
    assert_eq!(
        invalid(ledger.submit(
            answer("p1", Response::Reject, Role::TransferOwnership, "r1", "pk2", 0),
            41,
            "pk1"
        )),
        "Only the receiving participant can reject a proposal"
    );
    ledger
        .submit(answer("p1", Response::Cancel, Role::TransferOwnership, "r1", "pk2", 0), 41, "pk1")
        .unwrap();
    assert_eq!(ledger.proposal("p1").unwrap().status, Status::Canceled);
    ledger
        .submit(answer("p1", Response::Reject, Role::TransferOwnership, "r1", "pk2", 0), 42, "pk2")
        .unwrap();
    assert_eq!(ledger.proposal("p1").unwrap().status, Status::Rejected);
    assert_eq!(ledger.record("r1").unwrap().owners.len(), 1);
}

#[test]
fn transfer_custodianship_accept_appends_custodian() {
    let mut ledger = widget_ledger();
    ledger.submit(propose("p1", Role::TransferCustodianship, "r1", "pk2", 0), 40, "pk1").unwrap();
    ledger
        .submit(
            answer("p1", Response::Accept, Role::TransferCustodianship, "r1", "pk2", 0),
            41,
            "pk2",
        )
        .unwrap();
    let record = ledger.record("r1").unwrap();
    assert_eq!(record.owners.len(), 1);
    assert_eq!(
        record.custodians.last(),
        Some(&AssociatedParticipant { participant_id: "pk2".to_string(), timestamp: 41 })
    );
    assert_eq!(ledger.proposal("p1").unwrap().status, Status::Accepted);
    let finalize = Action::FinalizeRecord(FinalizeRecordAction { record_id: "r1".to_string() });
    assert_eq!(
        invalid(ledger.submit(finalize, 42, "pk1")),
        "Must be owner and custodian to finalize record"
    );
}

#[test]
fn authorize_reporter_accept_adds_reporter_to_named_properties() {
    let mut ledger = widget_ledger();
    let mut proposal = match propose("p1", Role::AuthorizeReporter, "r1", "pk2", 0) {
        Action::CreateProposal(p) => p,
        _ => unreachable!(),
    };
    proposal.properties = vec!["w".to_string()];
    ledger.submit(Action::CreateProposal(proposal), 40, "pk1").unwrap();
    ledger
        .submit(answer("p1", Response::Accept, Role::AuthorizeReporter, "r1", "pk2", 0), 41, "pk2")
        .unwrap();
    assert_eq!(
        ledger.property("r1", "w").unwrap().reporters,
        vec![
            Reporter { public_key: "pk1".to_string(), authorized: true, index: 0 },
            Reporter { public_key: "pk2".to_string(), authorized: true, index: 1 },
        ]
    );
    ledger.submit(update("r1", vec![number("w", 5)]), 42, "pk2").unwrap();
    let revoke = |who: &str| {
        Action::RevokeReporter(RevokeReporterAction {
            record_id: "r1".to_string(),
            reporter_id: who.to_string(),
            properties: vec!["w".to_string()],
        })
    };
    assert_eq!(
        invalid(ledger.submit(revoke("pk2"), 43, "pk2")),
        "Must be owner to revoke reporters",
    );
    assert_eq!(invalid(ledger.submit(revoke("pk7"), 43, "pk1")), "Reporter cannot be revoked: pk7");
    ledger.submit(revoke("pk2"), 43, "pk1").unwrap();
    assert_eq!(
        ledger.property("r1", "w").unwrap().reporters[1],
        Reporter { public_key: "pk2".to_string(), authorized: false, index: 1 }
    );
    assert_eq!(
        invalid(ledger.submit(revoke("pk2"), 44, "pk1")),
        "Reporter is already unauthorized.",
    );
    assert_eq!(
        invalid(ledger.submit(update("r1", vec![number("w", 6)]), 45, "pk2")),
        "Reporter is not authorized: pk2"
    );
}

#[test]
fn transfer_dgc_with_insufficient_funds_is_rejected_at_creation() {
    let mut ledger = widget_ledger();
    with_balance(&mut ledger, "pk1", 10, 0);
    let before = ledger.store.clone();
    let message = invalid(
        ledger.submit(propose("p1", Role::TransferDgc, "", "pk2", 20), 40, "pk1")
    );
    assert!(message.contains("balance of issuing participant is not enough"));
    assert_eq!(message, "The dg coin balance of issuing participant is not enough: pk1");
    assert_eq!(ledger.store, before);
    ledger.submit(propose("p1", Role::TransferDgc, "", "pk2", 10), 40, "pk1").unwrap();
    assert_eq!(ledger.proposal("p1").unwrap().dg_coin_amount, 10);
}

#[test]
fn sell_order_may_use_credit_but_transfer_may_not() {
    let mut ledger = widget_ledger();
    with_balance(&mut ledger, "pk1", 10, 15);
    ledger.submit(propose("p1", Role::SellDgc, "", "", 25), 40, "pk1").unwrap();
    assert_eq!(
        invalid(ledger.submit(propose("p2", Role::SellDgc, "", "", 26), 40, "pk1")),
        "The dg coin balance of issuing participant is not enough: pk1"
    );
    assert_eq!(
        invalid(ledger.submit(propose("p3", Role::TransferDgc, "", "pk2", 11), 40, "pk1")),
        "The dg coin balance of issuing participant is not enough: pk1"
    );
}

#[test]
fn sell_auto_close_settles_exchanges() {
    let mut ledger = widget_ledger();
    with_balance(&mut ledger, "pk1", 100, 0);
    ledger.submit(propose("s1", Role::SellDgc, "", "", 30), 40, "pk1").unwrap();
    let exchange = Exchange {
        buy_proposal_id: "b1".to_string(),
        sell_proposal_id: "s1".to_string(),
        timestamp: 7,
        currency_iso_codes: "USD".to_string(),
        last_currency_price: f64::to_bits(1.0),
        last_dgc_price: f64::to_bits(0.5),
    };
    let close = Action::AnswerProposal(AnswerProposalAction {
        proposal_id: "s1".to_string(),
        response: Response::AutoClose,
        role: Role::SellDgc,
        receiving_participant: String::new(),
        record_id: String::new(),
        dg_coin_amount: 30,
        exchanges: vec![exchange.clone()],
    });
    ledger.submit(close, 41, "pk1").unwrap();
    let issuer = ledger.participant("pk1").unwrap();
    assert_eq!(issuer.balance(), 70);
    assert_eq!(
        issuer.dg_coin_balances.last(),
        Some(&CreditBalance { proposal_id: "s1".to_string(), timestamp: 41, dg_coin_amount: 70 })
    );
    assert_eq!(issuer.dg_coin_balances.len(), 2);
    let stored = ledger.exchange("b1", "s1").unwrap();
    assert_eq!(stored, exchange);
    assert_eq!(f64::from_bits(stored.last_currency_price), 1.0);
    assert_eq!(f64::from_bits(stored.last_dgc_price), 0.5);
    let proposal = ledger.proposal("s1").unwrap();
    assert_eq!(proposal.dg_coin_exchanged, 30);
    assert_eq!(proposal.status, Status::Closed);
}

#[test]
fn buy_auto_open_adds_balance_and_keeps_order_open() {
    let mut ledger = widget_ledger();
    ledger.submit(propose("b1", Role::BuyDgc, "", "", 50), 40, "pk2").unwrap();
    let fill = |amount: i64, response: Response| {
        Action::AnswerProposal(AnswerProposalAction {
            proposal_id: "b1".to_string(),
            response,
            role: Role::BuyDgc,
            receiving_participant: String::new(),
            record_id: String::new(),
            dg_coin_amount: amount,
            exchanges: vec![Exchange {
                buy_proposal_id: "b1".to_string(),
                sell_proposal_id: "s9".to_string(),
                timestamp: 9,
                currency_iso_codes: "EUR".to_string(),
                last_currency_price: 0,
                last_dgc_price: 0,
            }],
        })
    };
    ledger.submit(fill(20, Response::AutoOpen), 41, "pk2").unwrap();
    assert_eq!(ledger.participant("pk2").unwrap().balance(), 20);
    assert_eq!(ledger.proposal("b1").unwrap().dg_coin_exchanged, 20);
    assert_eq!(ledger.proposal("b1").unwrap().status, Status::Open);
    assert_eq!(ledger.exchange("b1", "s9"), None);
    ledger.submit(fill(30, Response::AutoClose), 42, "pk2").unwrap();
    assert_eq!(ledger.participant("pk2").unwrap().balance(), 50);
    assert_eq!(ledger.proposal("b1").unwrap().dg_coin_exchanged, 50);
    assert_eq!(ledger.proposal("b1").unwrap().status, Status::Closed);
    assert_eq!(ledger.exchange("b1", "s9").unwrap().currency_iso_codes, "EUR");
}

#[test]
fn sell_fill_beyond_balance_and_credit_is_rejected() {
    let mut ledger = widget_ledger();
    with_balance(&mut ledger, "pk1", 10, 5);
    ledger.submit(propose("s1", Role::SellDgc, "", "", 15), 40, "pk1").unwrap();
    let before = ledger.store.clone();
    assert_eq!(
        invalid(
            ledger.submit(answer("s1", Response::AutoOpen, Role::SellDgc, "", "", 16), 41, "pk1")
        ),
        "The dg coin balance of issuing participant is not enough: pk1"
    );
    assert_eq!(ledger.store, before);
    ledger.submit(answer("s1", Response::AutoOpen, Role::SellDgc, "", "", 15), 41, "pk1").unwrap();
    assert_eq!(ledger.participant("pk1").unwrap().balance(), -5);
    assert_eq!(ledger.participant("pk1").unwrap().credit(), 5);
}

#[test]
fn fills_of_other_roles_and_accepts_of_orders_do_nothing() {
    let mut ledger = widget_ledger();
    with_balance(&mut ledger, "pk1", 10, 0);
    ledger.submit(propose("t1", Role::TransferDgc, "", "pk2", 5), 40, "pk1").unwrap();
    ledger.submit(propose("b1", Role::BuyDgc, "", "pk1", 5), 40, "pk1").unwrap();
    let before = ledger.store.clone();
    ledger.submit(
        answer("t1", Response::AutoOpen, Role::TransferDgc, "", "pk2", 5),
        41,
        "pk1",
    ).unwrap();
    ledger.submit(
        answer("t1", Response::AutoClose, Role::CreditDgc, "", "pk2", 5),
        41,
        "pk1",
    ).unwrap();
    ledger.submit(answer("b1", Response::Accept, Role::BuyDgc, "", "pk1", 5), 41, "pk1").unwrap();
    ledger.submit(answer("b1", Response::Accept, Role::SellDgc, "", "pk1", 5), 41, "pk1").unwrap();
    assert_eq!(ledger.store, before);
}

#[test]
fn credit_accept_raises_receivers_credit() {
    let mut ledger = widget_ledger();
    ledger.submit(propose("c1", Role::CreditDgc, "", "pk2", 40), 40, "pk1").unwrap();
    ledger.submit(
        answer("c1", Response::Accept, Role::CreditDgc, "", "pk2", 40),
        41,
        "pk2",
    ).unwrap();
    let receiver = ledger.participant("pk2").unwrap();
    assert_eq!(receiver.credit(), 40);
    assert_eq!(receiver.balance(), 0);
    assert_eq!(
        receiver.dg_coin_credits,
        vec![CreditBalance { proposal_id: "c1".to_string(), timestamp: 41, dg_coin_amount: 40 }]
    );
    assert_eq!(ledger.proposal("c1").unwrap().status, Status::Accepted);
    ledger.submit(propose("c2", Role::CreditDgc, "", "pk2", 2), 42, "pk1").unwrap();
    ledger.submit(
        answer("c2", Response::Accept, Role::CreditDgc, "", "pk2", 2),
        43,
        "pk2",
    ).unwrap();
    assert_eq!(ledger.participant("pk2").unwrap().credit(), 42);
    assert_eq!(ledger.participant("pk2").unwrap().dg_coin_credits.len(), 2);
}

#[test]
fn transfer_accept_moves_coins_from_issuer_to_receiver() {
    let mut ledger = widget_ledger();
    with_balance(&mut ledger, "pk1", 50, 0);
    with_balance(&mut ledger, "pk2", 7, 0);
    ledger.submit(propose("t1", Role::TransferDgc, "", "pk2", 20), 40, "pk1").unwrap();
    let before = ledger.store.clone();
    assert_eq!(
        invalid(ledger.submit(
            answer("t1", Response::Accept, Role::TransferDgc, "", "pk2", 51),
            41,
            "pk2"
        )),
        "The dg coin balance of issuing participant is not enough: pk1"
    );
    assert_eq!(ledger.store, before);
    ledger.submit(
        answer("t1", Response::Accept, Role::TransferDgc, "", "pk2", 20),
        41,
        "pk2",
    ).unwrap();
    let issuer = ledger.participant("pk1").unwrap();
    let receiver = ledger.participant("pk2").unwrap();
    assert_eq!(issuer.balance(), 30);
    assert_eq!(receiver.balance(), 27);
    assert_eq!(
        issuer.dg_coin_balances.last(),
        Some(&CreditBalance { proposal_id: "t1".to_string(), timestamp: 41, dg_coin_amount: 30 })
    );
    assert_eq!(
        receiver.dg_coin_balances.last(),
        Some(&CreditBalance { proposal_id: "t1".to_string(), timestamp: 41, dg_coin_amount: 27 })
    );
    assert_eq!(ledger.proposal("t1").unwrap().status, Status::Accepted);
}

#[test]
fn transfer_to_oneself_leaves_the_balance() {
    let mut ledger = widget_ledger();
    with_balance(&mut ledger, "pk1", 10, 0);
    ledger.submit(propose("t1", Role::TransferDgc, "", "pk1", 4), 40, "pk1").unwrap();
    ledger.submit(
        answer("t1", Response::Accept, Role::TransferDgc, "", "pk1", 4),
        41,
        "pk1",
    ).unwrap();
    let participant = ledger.participant("pk1").unwrap();
    assert_eq!(participant.balance(), 10);
    let amounts: Vec<i64> = participant.dg_coin_balances.iter().map(|b| b.dg_coin_amount).collect();
    assert_eq!(amounts, vec![10, 6, 10]);
}

#[test]
fn amounts_that_leave_the_range_are_rejected() {
    let mut ledger = widget_ledger();
    with_balance(&mut ledger, "pk2", i64::MAX, 0);
    ledger.submit(propose("b1", Role::BuyDgc, "", "", 1), 40, "pk2").unwrap();
    let before = ledger.store.clone();
    assert_eq!(
        invalid(
            ledger.submit(answer("b1", Response::AutoOpen, Role::BuyDgc, "", "", 1), 41, "pk2")
        ),
        "The dg coin amount is out of range: b1"
    );
    assert_eq!(ledger.store, before);
}

#[test]
fn replay_on_same_state_gives_same_writes() {
    let ledger = widget_ledger();
    let mut first = Ledger { store: ledger.store.clone(), handler: TransactionHandlerDGC::new() };
    let mut second = Ledger { store: ledger.store.clone(), handler: TransactionHandlerDGC::new() };
    first.submit(update("r1", vec![number("w", 7)]), 50, "pk1").unwrap();
    second.submit(update("r1", vec![number("w", 7)]), 50, "pk1").unwrap();
    assert_eq!(first.store, second.store);
    assert_ne!(first.store, ledger.store);
}

#[test]
fn step_asks_for_addresses_one_by_one_and_then_commits() {
    let handler = TransactionHandlerDGC::new();
    let request = Transaction {
        payload: to_bytes(&Payload { action: create_participant("Alice"), timestamp: 10 }),
        signer_public_key: "pk1".to_string(),
    };
    let address = make_participant_address("pk1");
    let mut loaded: Vec<Cell> = Vec::new();
    assert_eq!(handler.step(&request, &loaded), Next::Load(address.clone()));
    loaded.push(Cell { address: address.clone(), data: None, written: false });
    let committed = match handler.step(&request, &loaded) {
        Next::Commit(cells) => cells,
        other => panic!("expected a commit, got {:?}", other),
    };
    assert_eq!(committed.len(), 1);
    assert_eq!(committed[0].address, address);
    assert!(committed[0].written);
    assert_eq!(loaded.len(), 1);
    loaded.push(Cell {
        address: make_record_address("unrelated"),
        data: Some(vec![1, 2, 3]),
        written: false,
    });
    assert_eq!(handler.step(&request, &loaded), Next::Commit(committed.clone()));
    loaded[0].data = committed[0].data.clone();
    assert_eq!(
        handler.step(&request, &loaded),
        Next::Reject(ApplyError::InvalidTransaction(
            "Participant already exists: Alice".to_string()
        ))
    );
    let broken = Transaction { payload: vec![7], signer_public_key: "pk1".to_string() };
    assert_eq!(
        handler.step(&broken, &Vec::new()),
        Next::Reject(ApplyError::InvalidTransaction("Cannot deserialize payload".to_string()))
    );
}

#[test]
fn apply_writes_in_program_order() {
    let mut ledger = Ledger::new();
    ledger.submit(create_participant("Alice"), 10, "pk1").unwrap();
    let w = PropertySchema { required: true, ..schema("w", DataType::Number) };
    ledger.submit(create_table("widget", vec![w, schema("v", DataType::Text)]), 12, "pk1").unwrap();
    let handler = TransactionHandlerDGC::new();
    let request = Transaction {
        payload: to_bytes(&Payload {
            action: create_record("r1", "widget", vec![number("w", 42)]),
            timestamp: 20,
        }),
        signer_public_key: "pk1".to_string(),
    };
    let mut state = StateDGC::new();
    let addresses = vec![
        make_participant_address("pk1"),
        make_record_address("r1"),
        make_table_address("widget"),
        make_property_address("r1", "w", 0),
        make_property_address("r1", "w", 1),
        make_property_address("r1", "v", 0),
        make_property_address("r1", "v", 1),
    ];
    for address in &addresses {
        state.load(address.clone(), ledger.store.get(address).cloned());
    }
    handler.apply(&request, &mut state).unwrap();
    let written: Vec<&str> =
        state.cells.iter().filter(|c| c.written).map(|c| c.address.as_str()).collect();
    assert_eq!(
        written,
        vec![
            addresses[1].as_str(),
            addresses[3].as_str(),
            addresses[4].as_str(),
            addresses[5].as_str(),
            addresses[6].as_str(),
        ]
    );
    assert_eq!(state.cells.len(), 12);
}

#[test]
fn later_schema_of_same_name_counts() {
    let mut ledger = Ledger::new();
    ledger.submit(create_participant("Alice"), 10, "pk1").unwrap();
    let first = PropertySchema { unit: "first".to_string(), ..schema("w", DataType::Number) };
    let second = PropertySchema { unit: "second".to_string(), ..schema("w", DataType::Text) };
    ledger.submit(create_table("twice", vec![first, second]), 12, "pk1").unwrap();
    assert_eq!(
        invalid(ledger.submit(create_record("r1", "twice", vec![number("w", 1)]), 20, "pk1")),
        "Value provided for w is the wrong type"
    );
    let text = PropertyValue { string_value: "x".to_string(), ..value("w", DataType::Text) };
    let older = PropertyValue { string_value: "old".to_string(), ..value("w", DataType::Text) };
    ledger.submit(create_record("r1", "twice", vec![older, text]), 20, "pk1").unwrap();
    let property = ledger.property("r1", "w").unwrap();
    assert_eq!(property.unit, "second");
    assert_eq!(property.data_type, DataType::Text);
    let page = ledger.page("r1", "w", 1).unwrap();
    assert_eq!(page.reported_values.len(), 1);
    assert_eq!(page.reported_values[0].string_value, "x");
}

#[test]
fn every_stored_record_has_holders_and_every_property_a_reporter() {
    let mut ledger = widget_ledger();
    ledger.submit(propose("p1", Role::TransferOwnership, "r1", "pk2", 0), 40, "pk1").unwrap();
    ledger
        .submit(answer("p1", Response::Accept, Role::TransferOwnership, "r1", "pk2", 0), 41, "pk2")
        .unwrap();
    ledger.submit(update("r1", vec![number("w", 2)]), 43, "pk2").unwrap();
    let record = ledger.record("r1").unwrap();
    assert!(!record.owners.is_empty());
    assert!(!record.custodians.is_empty());
    let property = ledger.property("r1", "w").unwrap();
    assert!(property.current_page >= 1 && property.current_page <= 256);
    assert!(!property.reporters.is_empty());
    let page = ledger.page("r1", "w", property.current_page).unwrap();
    let keys: Vec<(u64, u32)> =
        page.reported_values.iter().map(|v| (v.timestamp, v.reporter_index)).collect();
    let mut sorted = keys.clone();
    sorted.sort();
    assert_eq!(keys, sorted);
    assert!(page.reported_values.len() <= 256);
}

#[test]
fn failed_transaction_leaves_state_as_it_was() {
    let mut ledger = Ledger::new();
    ledger.submit(create_participant("Alice"), 10, "pk1").unwrap();
    let colour = PropertySchema {
        enum_options: vec!["red".to_string()],
        ..schema("colour", DataType::Enum)
    };
    ledger.submit(create_table("paint", vec![colour]), 12, "pk1").unwrap();
    let blue = PropertyValue { enum_value: "blue".to_string(), ..value("colour", DataType::Enum) };
    let handler = TransactionHandlerDGC::new();
    let request = Transaction {
        payload: to_bytes(&Payload {
            action: create_record("r1", "paint", vec![blue.clone()]),
            timestamp: 20,
        }),
        signer_public_key: "pk1".to_string(),
    };
    let mut state = StateDGC::new();
    for address in [
        make_participant_address("pk1"),
        make_record_address("r1"),
        make_table_address("paint"),
        make_property_address("r1", "colour", 0),
        make_property_address("r1", "colour", 1),
    ] {
        let data = ledger.store.get(&address).cloned();
        state.load(address, data);
    }
    let before = state.clone();
    let rejected = Err(ApplyError::InvalidTransaction(
        "Provided enum name is not a valid option: blue".to_string(),
    ));
    assert_eq!(handler.apply(&request, &mut state), rejected);
    assert_eq!(state, before);
    assert_eq!(handler.attempt(&request, &mut state), rejected);
    assert_eq!(state.cells.len(), before.cells.len() + 2);
    assert_eq!(&state.cells[..before.cells.len()], &before.cells[..]);
    assert_eq!(
        invalid(ledger.submit(create_record("r1", "paint", vec![blue]), 20, "pk1")),
        "Provided enum name is not a valid option: blue"
    );
    assert_eq!(ledger.record("r1"), None);
    assert_eq!(ledger.property("r1", "colour"), None);
}
