use dgc_processor::addressing::{
    get_dgc_rest_api_prefix, hash, make_exchange_address, make_participant_address,
    make_property_address, make_property_address_range, make_proposal_address,
    make_record_address, make_table_address, num_to_page_number, truncate_digest,
};

fn is_lower_hex(text: &str) -> bool {
    text.chars().all(|c| c.is_ascii_digit() || ('a'..='f').contains(&c))
}

#[test]
fn hash_of_abc_starts_with_known_digest() {
    // SHA-512("abc") = ddaf35a193617aba...
    assert_eq!(hash("abc", 16), "ddaf35a193617aba");
}

#[test]
fn hash_longer_than_digest_is_empty() {
    assert_eq!(hash("abc", 129), "");
    assert_eq!(hash("abc", 128).len(), 128);
}

#[test]
fn truncate_digest_takes_prefix() {
    assert_eq!(truncate_digest("0123456789", 4), "0123");
    assert_eq!(truncate_digest("0123", 4), "0123");
    assert_eq!(truncate_digest("0123", 5), "");
    assert_eq!(truncate_digest("0123", 0), "");
}

#[test]
fn prefix_is_six_hex_characters() {
    let prefix = get_dgc_rest_api_prefix();
    assert_eq!(prefix.len(), 6);
    assert!(is_lower_hex(&prefix));
    assert_eq!(prefix, hash("dgc_REST_api", 6));
}

#[test]
fn page_numbers_are_padded_lowercase_hex() {
    assert_eq!(num_to_page_number(0), "0000");
    assert_eq!(num_to_page_number(1), "0001");
    assert_eq!(num_to_page_number(10), "000a");
    assert_eq!(num_to_page_number(255), "00ff");
    assert_eq!(num_to_page_number(256), "0100");
    assert_eq!(num_to_page_number(0xffff), "ffff");
    assert_eq!(num_to_page_number(0x10000), "10000");
    assert_eq!(num_to_page_number(0xdeadbeef), "deadbeef");
}

#[test]
fn addresses_have_seventy_characters_and_their_tag() {
    let prefix = get_dgc_rest_api_prefix();
    let cases = vec![
        (make_participant_address("pk1"), "ae"),
        (make_record_address("r1"), "ec"),
        (make_table_address("widget"), "ee"),
        (make_proposal_address("p1"), "aa"),
        (make_property_address("r1", "w", 1), "ea"),
        (make_exchange_address("b1", "s1"), "ce"),
    ];
    for (address, tag) in cases {
        assert_eq!(address.len(), 70);
        assert!(is_lower_hex(&address));
        assert_eq!(&address[..6], prefix);
        assert_eq!(&address[6..8], tag);
    }
}

#[test]
fn keyed_addresses_end_with_digest_prefix() {
    assert_eq!(&make_participant_address("pk1")[8..], hash("pk1", 62));
    assert_eq!(&make_record_address("r1")[8..], hash("r1", 62));
    assert_eq!(&make_table_address("widget")[8..], hash("widget", 62));
    assert_eq!(&make_proposal_address("p1")[8..], hash("p1", 62));
}

#[test]
fn property_address_is_range_name_and_page() {
    let range = make_property_address_range("r1");
    assert_eq!(range.len(), 44);
    assert_eq!(&range[8..], hash("r1", 36));
    let address = make_property_address("r1", "w", 0x1f);
    assert_eq!(&address[..44], range);
    assert_eq!(&address[44..66], hash("w", 22));
    assert_eq!(&address[66..], "001f");
    assert_eq!(&make_property_address("r1", "w", 0)[66..], "0000");
}

#[test]
fn exchange_address_joins_both_digests() {
    let address = make_exchange_address("b1", "s1");
    assert_eq!(&address[8..39], hash("b1", 31));
    assert_eq!(&address[39..], hash("s1", 31));
}
