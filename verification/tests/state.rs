use dgc_processor::addressing::{
    make_exchange_address, make_participant_address, make_property_address, make_record_address,
};
use dgc_processor::container::{
    decode_container, encode_container, find_entry, put_entry, take_entry,
};
use dgc_processor::error::ApplyError;
use dgc_processor::handler::{collect_written, TransactionHandlerDGC};
use dgc_processor::ledger::current_amount_of;
use dgc_processor::order::sort;
use dgc_processor::participant::{CreditBalance, Participant};
use dgc_processor::proposal::Exchange;
use dgc_processor::record::{AssociatedParticipant, Record};
use dgc_processor::state::{Cell, StateDGC};
use dgc_processor::text::{decimal, join, key_le_exec, text_eq, text_le_exec};

fn participant(key: &str, name: &str) -> Participant {
    Participant {
        public_key: key.to_string(),
        name: name.to_string(),
        timestamp: 1,
        dg_coin_balances: vec![],
        dg_coin_credits: vec![],
    }
}

fn exchange(buy: &str, sell: &str) -> Exchange {
    Exchange {
        buy_proposal_id: buy.to_string(),
        sell_proposal_id: sell.to_string(),
        timestamp: 1,
        currency_iso_codes: String::new(),
        last_currency_price: 0,
        last_dgc_price: 0,
    }
}

fn keys(entries: &[Participant]) -> Vec<&str> {
    entries.iter().map(|p| p.public_key.as_str()).collect()
}

#[test]
fn handler_names_family_version_and_namespace() {
    let handler = TransactionHandlerDGC::new();
    assert_eq!(handler.family_name(), "dgc_REST_api");
    assert_eq!(handler.family_versions(), vec!["1.1".to_string()]);
    let namespaces = handler.namespaces();
    assert_eq!(namespaces.len(), 1);
    assert_eq!(namespaces[0].len(), 6);
    assert_eq!(namespaces[0], &make_record_address("x")[..6]);
}

#[test]
fn texts_compare_by_bytes() {
    assert!(text_eq("abc", "abc"));
    assert!(!text_eq("abc", "abd"));
    assert!(!text_eq("abc", "ab"));
    assert!(text_eq("", ""));
    assert!(text_le_exec("", "a"));
    assert!(!text_le_exec("a", ""));
    assert!(text_le_exec("a", "a"));
    assert!(text_le_exec("a", "ab"));
    assert!(!text_le_exec("ab", "a"));
    assert!(text_le_exec("ab", "b"));
    assert!(text_le_exec("Z", "a"));
    assert!(text_le_exec("z", "é"));
    assert!(!text_le_exec("é", "z"));
    for (a, b) in [("a", "b"), ("pk10", "pk2"), ("", ""), ("é", "e"), ("x", "x")] {
        assert_eq!(text_le_exec(a, b), a <= b);
        assert_eq!(text_le_exec(b, a), b <= a);
    }
    assert_eq!(join("Record is final: ", "r1"), "Record is final: r1");
}

#[test]
fn decimal_writes_numbers_without_leading_zeros() {
    assert_eq!(decimal(0), "0");
    assert_eq!(decimal(7), "7");
    assert_eq!(decimal(10), "10");
    assert_eq!(decimal(256), "256");
    assert_eq!(decimal(1005), "1005");
    assert_eq!(decimal(usize::MAX), usize::MAX.to_string());
}

#[test]
fn keys_compare_first_part_then_second() {
    assert!(key_le_exec("a", "z", "b", "a"));
    assert!(!key_le_exec("b", "a", "a", "z"));
    assert!(key_le_exec("a", "x", "a", "y"));
    assert!(!key_le_exec("a", "y", "a", "x"));
    assert!(key_le_exec("a", "x", "a", "x"));
    assert!(key_le_exec("a", "", "a", "x"));
}

#[test]
fn sort_is_stable_and_orders_by_key() {
    let entries = vec![
        participant("c", "first c"),
        participant("a", "first a"),
        participant("c", "second c"),
        participant("b", "b"),
        participant("a", "second a"),
    ];
    let sorted = sort(entries);
    let seen: Vec<(&str, &str)> =
        sorted.iter().map(|p| (p.public_key.as_str(), p.name.as_str())).collect();
    assert_eq!(
        seen,
        vec![("a", "first a"), ("a", "second a"), ("b", "b"), ("c", "first c"), ("c", "second c")]
    );
    assert_eq!(sort(Vec::<Participant>::new()), vec![]);
}

#[test]
fn put_entry_replaces_and_keeps_order() {
    let mut entries = Vec::new();
    for key in ["m", "c", "x", "a"] {
        entries = put_entry(entries, key, "", participant(key, "old"));
    }
    assert_eq!(keys(&entries), vec!["a", "c", "m", "x"]);
    entries = put_entry(entries, "c", "", participant("c", "new"));
    assert_eq!(keys(&entries), vec!["a", "c", "m", "x"]);
    assert_eq!(entries[1].name, "new");
    assert_eq!(find_entry(&entries, "m", ""), 2);
    assert_eq!(find_entry(&entries, "q", ""), 4);
    assert_eq!(find_entry(&entries, "m", "other"), 4);
    assert_eq!(take_entry(entries.clone(), "x", ""), Some(participant("x", "old")));
    assert_eq!(take_entry(entries, "q", ""), None);
}

#[test]
fn exchanges_are_sorted_by_both_proposals() {
    let mut entries = Vec::new();
    for (buy, sell) in [("b2", "s1"), ("b1", "s2"), ("b1", "s1"), ("b2", "s0")] {
        entries = put_entry(entries, buy, sell, exchange(buy, sell));
    }
    let seen: Vec<(&str, &str)> = entries
        .iter()
        .map(|e| (e.buy_proposal_id.as_str(), e.sell_proposal_id.as_str()))
        .collect();
    assert_eq!(seen, vec![("b1", "s1"), ("b1", "s2"), ("b2", "s0"), ("b2", "s1")]);
}

#[test]
fn container_bytes_start_with_kind_and_round_trip() {
    let entries = vec![participant("a", "A"), participant("b", "B")];
    let bytes = encode_container(&entries);
    assert_eq!(&bytes[..9], &[1, 2, 0, 0, 0, 0, 0, 0, 0]);
    assert_eq!(&bytes[9..26], &[0, 8, 0, 0, 0, 0, 0, 0, 0, 1, 0, 0, 0, 0, 0, 0, 0]);
    assert_eq!(decode_container::<Participant>(&bytes), Some(entries));
    assert_eq!(decode_container::<Record>(&bytes), None);
    assert_eq!(decode_container::<Exchange>(&bytes), None);
    assert_eq!(decode_container::<Participant>(&bytes[1..]), None);
    let empty = encode_container(&Vec::<Record>::new());
    assert_eq!(decode_container::<Record>(&empty), Some(vec![]));
    assert_eq!(decode_container::<Participant>(&empty), None);
}

#[test]
fn state_reads_latest_cell_and_reports_missing_addresses() {
    let mut state = StateDGC::new();
    assert_eq!(state.get_state("a"), Err(ApplyError::StateNotLoaded("a".to_string())));
    state.load("a".to_string(), None);
    assert_eq!(state.get_state("a"), Ok(None));
    state.set_state("a".to_string(), vec![1]);
    state.set_state("b".to_string(), vec![2]);
    state.set_state("a".to_string(), vec![3]);
    assert_eq!(state.get_state("a"), Ok(Some(&vec![3])));
    assert_eq!(state.get_state("b"), Ok(Some(&vec![2])));
    assert_eq!(state.get_state("c"), Err(ApplyError::StateNotLoaded("c".to_string())));
    assert_eq!(state.cells.len(), 4);
    let written = collect_written(&state.cells);
    assert_eq!(
        written,
        vec![
            Cell { address: "a".to_string(), data: Some(vec![1]), written: true },
            Cell { address: "b".to_string(), data: Some(vec![2]), written: true },
            Cell { address: "a".to_string(), data: Some(vec![3]), written: true },
        ]
    );
    assert_eq!(ApplyError::StateNotLoaded("c".to_string()).message(), "c");
    assert_eq!(ApplyError::InvalidTransaction("no".to_string()).message(), "no");
    assert_eq!(ApplyError::InternalError("bad".to_string()).message(), "bad");
}

#[test]
fn accessors_need_their_address_loaded() {
    let mut state = StateDGC::new();
    let address = make_participant_address("pk1");
    assert_eq!(state.get_participant("pk1"), Err(ApplyError::StateNotLoaded(address.clone())));
    assert_eq!(
        state.set_participant("pk1", participant("pk1", "Alice")),
        Err(ApplyError::StateNotLoaded(address.clone()))
    );
    assert_eq!(state.cells.len(), 0);
    state.load(address.clone(), None);
    assert_eq!(state.get_participant("pk1"), Ok(None));
    state.set_participant("pk1", participant("pk1", "Alice")).unwrap();
    assert_eq!(state.get_participant("pk1"), Ok(Some(participant("pk1", "Alice"))));
    assert_eq!(state.cells.len(), 2);
    assert_eq!(state.cells[1].address, address);
    assert_eq!(
        state.get_property("r", "w"),
        Err(ApplyError::StateNotLoaded(make_property_address("r", "w", 0)))
    );
    assert_eq!(
        state.get_property_page("r", "w", 7),
        Err(ApplyError::StateNotLoaded(make_property_address("r", "w", 7)))
    );
    assert_eq!(
        state.get_exchange("b", "s"),
        Err(ApplyError::StateNotLoaded(make_exchange_address("b", "s")))
    );
}

#[test]
fn undecodable_container_is_an_internal_error() {
    let mut state = StateDGC::new();
    state.load(make_record_address("r1"), Some(vec![9, 9, 9]));
    assert_eq!(
        state.get_record("r1"),
        Err(ApplyError::InternalError("Cannot deserialize record container".to_string()))
    );
    let record = Record {
        record_id: "r1".to_string(),
        table: "t".to_string(),
        field_final: false,
        owners: vec![AssociatedParticipant { participant_id: "pk1".to_string(), timestamp: 1 }],
        custodians: vec![AssociatedParticipant { participant_id: "pk1".to_string(), timestamp: 1 }],
    };
    assert_eq!(
        state.set_record("r1", record),
        Err(ApplyError::InternalError("Cannot deserialize record container".to_string()))
    );
    assert_eq!(state.cells.len(), 1);
    let mut other = StateDGC::new();
    other.load(make_participant_address("pk1"), Some(encode_container(&Vec::<Record>::new())));
    assert_eq!(
        other.get_participant("pk1"),
        Err(ApplyError::InternalError("Cannot deserialize participant container".to_string()))
    );
}

#[test]
fn set_of_what_was_got_leaves_container_bytes_unchanged() {
    let address = make_participant_address("pk1");
    let container =
        encode_container(
            &vec![participant("a", "A"), participant("pk1", "P"), participant("z", "Z")]
        );
    let mut state = StateDGC::new();
    state.load(address.clone(), Some(container.clone()));
    let got = state.get_participant("pk1").unwrap().unwrap();
    state.set_participant("pk1", got).unwrap();
    assert_eq!(state.get_state(&address), Ok(Some(&container)));
    assert_eq!(state.cells.last().unwrap().data, Some(container));
}

#[test]
fn set_sorts_a_container_that_was_not_sorted() {
    let address = make_participant_address("pk1");
    let container = encode_container(&vec![participant("z", "Z"), participant("pk1", "old")]);
    let mut state = StateDGC::new();
    state.load(address.clone(), Some(container));
    state.set_participant("pk1", participant("pk1", "new")).unwrap();
    let stored = decode_container::<Participant>(
        state.get_state(&address).unwrap().unwrap()
    ).unwrap();
    assert_eq!(keys(&stored), vec!["pk1", "z"]);
    assert_eq!(stored[0].name, "new");
    assert_eq!(stored[1].name, "Z");
}

#[test]
fn current_amount_is_last_entry_or_zero() {
    let entry = |amount: i64| CreditBalance {
        proposal_id: "p".to_string(),
        timestamp: 1,
        dg_coin_amount: amount,
    };
    assert_eq!(current_amount_of(&vec![]), 0);
    assert_eq!(current_amount_of(&vec![entry(5)]), 5);
    assert_eq!(current_amount_of(&vec![entry(5), entry(-3), entry(9)]), 9);
    let mut p = participant("pk1", "Alice");
    assert_eq!((p.balance(), p.credit()), (0, 0));
    p.push_balance("p1", 4, 10);
    p.push_credit("p2", 5, 7);
    p.push_balance("p3", 6, -2);
    assert_eq!((p.balance(), p.credit()), (-2, 7));
    assert_eq!(p.dg_coin_balances.len(), 2);
    assert_eq!(p.dg_coin_balances[0], CreditBalance {
        proposal_id: "p1".to_string(),
        timestamp: 4,
        dg_coin_amount: 10,
    });
    assert!(p.covers_with_credit(5));
    assert!(!p.covers_with_credit(6));
    let mut rich = participant("pk2", "Bob");
    rich.push_balance("p", 1, i64::MAX);
    rich.push_credit("p", 1, i64::MAX);
    assert!(rich.covers_with_credit(i64::MAX));
}
