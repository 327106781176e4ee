//! State addresses: 70 hexadecimal characters made of a namespace prefix, a
//! two-character entity tag and truncated SHA-512 digests of the natural key.

use crypto::digest::Digest;
use crate::text::join;
use crypto::sha2::Sha512;
use vstd::prelude::*;
use vstd::string::*;

verus! {

/// The lowercase hexadecimal SHA-512 digest of the UTF-8 bytes of a text.
pub uninterp spec fn sha512_hex_digest(text: Seq<char>) -> Seq<char>;

/// The sixteen characters a digest is written with.
pub open spec fn is_hex_char(c: char) -> bool {
    ('0' <= c && c <= '9') || ('a' <= c && c <= 'f')
}

/// A SHA-512 digest in hexadecimal: 128 lowercase hexadecimal characters.
pub open spec fn is_hex_digest(text: Seq<char>) -> bool {
    &&& text.len() == 128
    &&& forall|i: int| 0 <= i < text.len() ==> is_hex_char(#[trigger] text[i])
}

/// Calls `Sha512::new`, `Digest::input_str` and `Digest::result_str` of the
/// `crypto` crate. Trusted: the result is a function of the text alone, and it
/// is 128 characters long, each a lowercase hexadecimal digit (the digest has
/// 64 bytes and `result_str` writes each as two such digits).
#[verifier::external_body]
fn sha512_hex(text: &str) -> (digest: String)
    ensures
        digest@ == sha512_hex_digest(text@),
        is_hex_digest(digest@),
{
    let mut sha = Sha512::new();
    sha.input_str(text);
    sha.result_str()
}

/// The family name, whose digest gives the namespace prefix.
pub open spec fn family_name_text() -> Seq<char> {
    "dgc_REST_api"@
}

/// First `num` characters of `digest`, or the empty text when it is shorter.
pub open spec fn digest_prefix(digest: Seq<char>, num: nat) -> Seq<char> {
    if num <= digest.len() {
        digest.subrange(0, num as int)
    } else {
        Seq::empty()
    }
}

/// Cuts a digest down to its first `num` characters; a digest shorter than
/// `num` gives the empty text.
pub fn truncate_digest(digest: &str, num: usize) -> (prefix: String)
    ensures
        prefix@ == digest_prefix(digest@, num as nat),
{
    let len = digest.unicode_len();
    if num <= len {
        String::from_str(digest.substring_char(0, num))
    } else {
        String::new()
    }
}

/// First `num` hexadecimal characters of the SHA-512 digest of `to_hash`.
pub fn hash(to_hash: &str, num: usize) -> (prefix: String)
    ensures
        prefix@ == digest_prefix(sha512_hex_digest(to_hash@), num as nat),
        num <= 128 ==> prefix@.len() == num,
        forall|i: int| 0 <= i < prefix@.len() ==> is_hex_char(#[trigger] prefix@[i]),
{
    let digest = sha512_hex(to_hash);
    truncate_digest(digest.as_str(), num)
}

/// The six-character namespace of the family.
pub open spec fn namespace_prefix() -> Seq<char> {
    digest_prefix(sha512_hex_digest(family_name_text()), 6)
}

/// The namespace under which every address of the family lies.
pub fn get_dgc_rest_api_prefix() -> (prefix: String)
    ensures
        prefix@ == namespace_prefix(),
        prefix@.len() == 6,
        forall|i: int| 0 <= i < 6 ==> is_hex_char(#[trigger] prefix@[i]),
{
    hash("dgc_REST_api", 6)
}

/// The tag of the addresses of participants.
pub open spec fn participant_tag() -> Seq<char> {
    "ae"@
}

/// The tag of the addresses of properties and their pages.
pub open spec fn property_tag() -> Seq<char> {
    "ea"@
}

/// The tag of the addresses of proposals.
pub open spec fn proposal_tag() -> Seq<char> {
    "aa"@
}

/// The tag of the addresses of records.
pub open spec fn record_tag() -> Seq<char> {
    "ec"@
}

/// The tag of the addresses of tables.
pub open spec fn table_tag() -> Seq<char> {
    "ee"@
}

/// The tag of the addresses of exchanges.
pub open spec fn exchange_tag() -> Seq<char> {
    "ce"@
}

/// The address of an entity known by one key: namespace, tag, and the first
/// 62 characters of the digest of the key.
pub open spec fn keyed_address(tag: Seq<char>, key: Seq<char>) -> Seq<char> {
    namespace_prefix() + tag + digest_prefix(sha512_hex_digest(key), 62)
}

/// The address of the container of a participant.
pub open spec fn participant_address(identifier: Seq<char>) -> Seq<char> {
    keyed_address(participant_tag(), identifier)
}

/// The address of the container of a record.
pub open spec fn record_address(record_id: Seq<char>) -> Seq<char> {
    keyed_address(record_tag(), record_id)
}

/// The address of the container of a table.
pub open spec fn table_address(name: Seq<char>) -> Seq<char> {
    keyed_address(table_tag(), name)
}

/// The address of the container of a proposal.
pub open spec fn proposal_address(proposal_id: Seq<char>) -> Seq<char> {
    keyed_address(proposal_tag(), proposal_id)
}

/// What the addresses of all properties and pages of a record start with.
pub open spec fn property_address_range(record_id: Seq<char>) -> Seq<char> {
    namespace_prefix() + property_tag() + digest_prefix(sha512_hex_digest(record_id), 36)
}

/// The address of a page of a property; page 0 is the property itself.
pub open spec fn property_address(
    record_id: Seq<char>,
    property_name: Seq<char>,
    page: u32,
) -> Seq<char> {
    property_address_range(record_id) + digest_prefix(sha512_hex_digest(property_name), 22)
        + page_number_text(page)
}

/// The address of the container of an exchange: namespace, tag, and the first
/// 31 characters of the digest of each of the two proposals.
pub open spec fn exchange_address(
    buy_proposal_id: Seq<char>,
    sell_proposal_id: Seq<char>,
) -> Seq<char> {
    namespace_prefix() + exchange_tag() + digest_prefix(sha512_hex_digest(buy_proposal_id), 31)
        + digest_prefix(sha512_hex_digest(sell_proposal_id), 31)
}

/// The sixteen hexadecimal digits, in order.
pub open spec fn hex_digits() -> Seq<char> {
    "0123456789abcdef"@
}

/// The last `width` hexadecimal digits of `n`, zeros in front where `n` has
/// fewer.
pub open spec fn hex_padded(n: nat, width: nat) -> Seq<char>
    decreases width,
{
    if width == 0 {
        Seq::empty()
    } else {
        hex_padded(n / 16, (width - 1) as nat).push(hex_digits()[(n % 16) as int])
    }
}

/// How many digits a page number is written with: four, or as many as it has.
pub open spec fn hex_width(page: u32) -> nat {
    if page < 0x1_0000 {
        4
    } else if page < 0x10_0000 {
        5
    } else if page < 0x100_0000 {
        6
    } else if page < 0x1000_0000 {
        7
    } else {
        8
    }
}

/// A page number as it stands in an address: lowercase hexadecimal, padded
/// with zeros to four digits.
pub open spec fn page_number_text(page: u32) -> Seq<char> {
    hex_padded(page as nat, hex_width(page))
}

/// A number padded to a width has that many digits.
pub proof fn lemma_hex_padded_len(n: nat, width: nat)
    ensures
        hex_padded(n, width).len() == width,
    decreases width,
{
    if width > 0 {
        lemma_hex_padded_len(n / 16, (width - 1) as nat);
    }
}

/// Puts the parts of an address together.
pub fn compose_address(prefix: &str, tag: &str, body: &str) -> (address: String)
    ensures
        address@ == prefix@ + tag@ + body@,
{
    String::from_str(prefix).concat(tag).concat(body)
}

/// The address of the container of a participant.
pub fn make_participant_address(identifier: &str) -> (address: String)
    ensures
        address@ == participant_address(identifier@),
        address@.len() == 70,
{
    proof {
        reveal_strlit("ae");
    }
    compose_address(
        get_dgc_rest_api_prefix().as_str(),
        "ae",
        hash(identifier, 62).as_str(),
    )
}

/// The address of the container of a record.
pub fn make_record_address(record_id: &str) -> (address: String)
    ensures
        address@ == record_address(record_id@),
        address@.len() == 70,
{
    proof {
        reveal_strlit("ec");
    }
    compose_address(get_dgc_rest_api_prefix().as_str(), "ec", hash(record_id, 62).as_str())
}

/// The address of the container of a table.
pub fn make_table_address(name: &str) -> (address: String)
    ensures
        address@ == table_address(name@),
        address@.len() == 70,
{
    proof {
        reveal_strlit("ee");
    }
    compose_address(get_dgc_rest_api_prefix().as_str(), "ee", hash(name, 62).as_str())
}

/// The address of a page of a property; page 0 is the property itself.
pub fn make_property_address(record_id: &str, property_name: &str, page: u32) -> (address: String)
    ensures
        address@ == property_address(record_id@, property_name@, page),
        page < 0x1_0000 ==> address@.len() == 70,
{
    compose_address(
        make_property_address_range(record_id).as_str(),
        hash(property_name, 22).as_str(),
        num_to_page_number(page).as_str(),
    )
}

/// What the addresses of all properties and pages of a record start with.
pub fn make_property_address_range(record_id: &str) -> (prefix: String)
    ensures
        prefix@ == property_address_range(record_id@),
        prefix@.len() == 44,
{
    proof {
        reveal_strlit("ea");
    }
    compose_address(get_dgc_rest_api_prefix().as_str(), "ea", hash(record_id, 36).as_str())
}

/// A page number as it stands in an address.
pub fn num_to_page_number(page: u32) -> (text: String)
    ensures
        text@ == page_number_text(page),
        text@.len() == hex_width(page),
{
    let width: usize = if page < 0x1_0000 {
        4
    } else if page < 0x10_0000 {
        5
    } else if page < 0x100_0000 {
        6
    } else if page < 0x1000_0000 {
        7
    } else {
        8
    };
    let digits = "0123456789abcdef";
    proof {
        reveal_strlit("0123456789abcdef");
        lemma_hex_padded_len(page as nat, width as nat);
    }
    let mut text = String::new();
    let mut n: u32 = page;
    let mut k: usize = 0;
    while k < width
        invariant
            k <= width,
            digits@ == hex_digits(),
            digits@.len() == 16,
            page_number_text(page) == hex_padded(n as nat, (width - k) as nat) + text@,
        decreases width - k,
    {
        let d: usize = (n % 16) as usize;
        let digit = digits.substring_char(d, d + 1);
        let ghost before = text@;
        text = String::from_str(digit).concat(text.as_str());
        proof {
            assert(digit@ =~= seq![hex_digits()[d as int]]);
            assert(hex_padded(n as nat, (width - k) as nat) + before =~= hex_padded(
                n as nat / 16,
                (width - k - 1) as nat,
            ) + text@);
        }
        n = n / 16;
        k = k + 1;
    }
    proof {
        assert(hex_padded(n as nat, 0) + text@ =~= text@);
    }
    text
}

/// The address of the container of a proposal.
pub fn make_proposal_address(proposal_id: &str) -> (address: String)
    ensures
        address@ == proposal_address(proposal_id@),
        address@.len() == 70,
{
    proof {
        reveal_strlit("aa");
    }
    compose_address(get_dgc_rest_api_prefix().as_str(), "aa", hash(proposal_id, 62).as_str())
}

/// The address of the container of an exchange.
pub fn make_exchange_address(buy_proposal_id: &str, sell_proposal_id: &str) -> (address: String)
    ensures
        address@ == exchange_address(buy_proposal_id@, sell_proposal_id@),
        address@.len() == 70,
{
    proof {
        reveal_strlit("ce");
    }
    let body = join(hash(buy_proposal_id, 31).as_str(), hash(sell_proposal_id, 31).as_str());
    let address = compose_address(get_dgc_rest_api_prefix().as_str(), "ce", body.as_str());
    proof {
        assert(address@ =~= exchange_address(buy_proposal_id@, sell_proposal_id@));
    }
    address
}

} // verus!
