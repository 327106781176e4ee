//! Proposals between participants and the exchanges that settle orders.

use crate::codec::{children_of, is_record, record_fields, record_node, Codec};
use crate::wire::{Node, NodeModel};
use vstd::prelude::*;
use crate::container::Keyed;
use crate::order::Ordered;
use crate::text::{
    key_le, key_le_exec, lemma_key_le_total, lemma_key_le_transitive, text_eq, Key,
};

verus! {

/// What a proposal asks for.
#[derive(Clone, Copy, Debug, PartialEq, Eq, Structural)]
pub enum Role {
    TransferOwnership,
    TransferCustodianship,
    AuthorizeReporter,
    BuyDgc,
    SellDgc,
    CreditDgc,
    TransferDgc,
}

impl DeepView for Role {
    type V = Role;

    open spec fn deep_view(&self) -> Role {
        *self
    }
}

impl View for Role {
    type V = Role;

    open spec fn view(&self) -> Role {
        *self
    }
}

impl Role {
    /// The number under which a variant is stored.
    pub open spec fn tag(self) -> u64 {
        match self {
            Role::TransferOwnership => 0,
            Role::TransferCustodianship => 1,
            Role::AuthorizeReporter => 2,
            Role::BuyDgc => 3,
            Role::SellDgc => 4,
            Role::CreditDgc => 5,
            Role::TransferDgc => 6,
        }
    }

    /// The variant stored under a number.
    pub open spec fn of_tag(t: u64) -> Option<Role> {
        if t == 0 {
            Some(Role::TransferOwnership)
        } else if t == 1 {
            Some(Role::TransferCustodianship)
        } else if t == 2 {
            Some(Role::AuthorizeReporter)
        } else if t == 3 {
            Some(Role::BuyDgc)
        } else if t == 4 {
            Some(Role::SellDgc)
        } else if t == 5 {
            Some(Role::CreditDgc)
        } else if t == 6 {
            Some(Role::TransferDgc)
        } else {
            None
        }
    }
}

impl Codec for Role {
    open spec fn node_of(m: Role) -> NodeModel {
        u64::node_of(m.tag())
    }

    open spec fn parse(n: NodeModel) -> Option<Role> {
        match u64::parse(n) {
            Some(t) => Role::of_tag(t),
            None => None,
        }
    }

    proof fn lemma_round_trip(m: Role) {
        u64::lemma_round_trip(m.tag());
    }

    fn to_node(&self) -> (n: Node) {
        let t: u64 = match self {
            Role::TransferOwnership => 0,
            Role::TransferCustodianship => 1,
            Role::AuthorizeReporter => 2,
            Role::BuyDgc => 3,
            Role::SellDgc => 4,
            Role::CreditDgc => 5,
            Role::TransferDgc => 6,
        };
        t.to_node()
    }

    fn from_node(n: &Node) -> (r: Option<Role>) {
        match u64::from_node(n) {
            Some(t) => {
                if t == 0 {
                    Some(Role::TransferOwnership)
                } else if t == 1 {
                    Some(Role::TransferCustodianship)
                } else if t == 2 {
                    Some(Role::AuthorizeReporter)
                } else if t == 3 {
                    Some(Role::BuyDgc)
                } else if t == 4 {
                    Some(Role::SellDgc)
                } else if t == 5 {
                    Some(Role::CreditDgc)
                } else if t == 6 {
                    Some(Role::TransferDgc)
                } else {
                    None
                }
            },
            None => None,
        }
    }
}

/// Where a proposal stands.
#[derive(Clone, Copy, Debug, PartialEq, Eq, Structural)]
pub enum Status {
    Open,
    Accepted,
    Rejected,
    Canceled,
    Closed,
}

impl DeepView for Status {
    type V = Status;

    open spec fn deep_view(&self) -> Status {
        *self
    }
}

impl View for Status {
    type V = Status;

    open spec fn view(&self) -> Status {
        *self
    }
}

impl Status {
    /// The number under which a variant is stored.
    pub open spec fn tag(self) -> u64 {
        match self {
            Status::Open => 0,
            Status::Accepted => 1,
            Status::Rejected => 2,
            Status::Canceled => 3,
            Status::Closed => 4,
        }
    }

    /// The variant stored under a number.
    pub open spec fn of_tag(t: u64) -> Option<Status> {
        if t == 0 {
            Some(Status::Open)
        } else if t == 1 {
            Some(Status::Accepted)
        } else if t == 2 {
            Some(Status::Rejected)
        } else if t == 3 {
            Some(Status::Canceled)
        } else if t == 4 {
            Some(Status::Closed)
        } else {
            None
        }
    }
}

impl Codec for Status {
    open spec fn node_of(m: Status) -> NodeModel {
        u64::node_of(m.tag())
    }

    open spec fn parse(n: NodeModel) -> Option<Status> {
        match u64::parse(n) {
            Some(t) => Status::of_tag(t),
            None => None,
        }
    }

    proof fn lemma_round_trip(m: Status) {
        u64::lemma_round_trip(m.tag());
    }

    fn to_node(&self) -> (n: Node) {
        let t: u64 = match self {
            Status::Open => 0,
            Status::Accepted => 1,
            Status::Rejected => 2,
            Status::Canceled => 3,
            Status::Closed => 4,
        };
        t.to_node()
    }

    fn from_node(n: &Node) -> (r: Option<Status>) {
        match u64::from_node(n) {
            Some(t) => {
                if t == 0 {
                    Some(Status::Open)
                } else if t == 1 {
                    Some(Status::Accepted)
                } else if t == 2 {
                    Some(Status::Rejected)
                } else if t == 3 {
                    Some(Status::Canceled)
                } else if t == 4 {
                    Some(Status::Closed)
                } else {
                    None
                }
            },
            None => None,
        }
    }
}

/// A proposal of one participant to another, or an order on the coin market.
#[derive(Clone, Debug, PartialEq, Eq)]
pub struct Proposal {
    pub proposal_id: String,
    pub status: Status,
    pub role: Role,
    pub timestamp: u64,
    pub issuing_participant: String,
    pub receiving_participant: String,
    pub record_id: String,
    /// Names of the properties a reporter is authorized for.
    pub properties: Vec<String>,
    pub dg_coin_amount: i64,
    /// The amount filled so far.
    pub dg_coin_exchanged: i64,
    pub currency_iso_codes: String,
    pub currency_quote_amount: i64,
}

/// The mathematical value of a [`Proposal`].
pub struct ProposalModel {
    pub proposal_id: Seq<char>,
    pub status: Status,
    pub role: Role,
    pub timestamp: u64,
    pub issuing_participant: Seq<char>,
    pub receiving_participant: Seq<char>,
    pub record_id: Seq<char>,
    pub properties: Seq<Seq<char>>,
    pub dg_coin_amount: i64,
    pub dg_coin_exchanged: i64,
    pub currency_iso_codes: Seq<char>,
    pub currency_quote_amount: i64,
}

impl DeepView for Proposal {
    type V = ProposalModel;

    open spec fn deep_view(&self) -> ProposalModel {
        ProposalModel {
            proposal_id: self.proposal_id.deep_view(),
            status: self.status.deep_view(),
            role: self.role.deep_view(),
            timestamp: self.timestamp.deep_view(),
            issuing_participant: self.issuing_participant.deep_view(),
            receiving_participant: self.receiving_participant.deep_view(),
            record_id: self.record_id.deep_view(),
            properties: self.properties.deep_view(),
            dg_coin_amount: self.dg_coin_amount.deep_view(),
            dg_coin_exchanged: self.dg_coin_exchanged.deep_view(),
            currency_iso_codes: self.currency_iso_codes.deep_view(),
            currency_quote_amount: self.currency_quote_amount.deep_view(),
        }
    }
}

impl View for Proposal {
    type V = ProposalModel;

    open spec fn view(&self) -> ProposalModel {
        self.deep_view()
    }
}

impl Codec for Proposal {
    open spec fn node_of(m: ProposalModel) -> NodeModel {
        NodeModel::List(
            seq![
                String::node_of(m.proposal_id),
                Status::node_of(m.status),
                Role::node_of(m.role),
                u64::node_of(m.timestamp),
                String::node_of(m.issuing_participant),
                String::node_of(m.receiving_participant),
                String::node_of(m.record_id),
                <Vec<String>>::node_of(m.properties),
                i64::node_of(m.dg_coin_amount),
                i64::node_of(m.dg_coin_exchanged),
                String::node_of(m.currency_iso_codes),
                i64::node_of(m.currency_quote_amount),
            ],
        )
    }

    open spec fn parse(n: NodeModel) -> Option<ProposalModel> {
        let cs = children_of(n);
        if is_record(n, 12)
            && String::parse(cs[0]) is Some
            && Status::parse(cs[1]) is Some
            && Role::parse(cs[2]) is Some
            && u64::parse(cs[3]) is Some
            && String::parse(cs[4]) is Some
            && String::parse(cs[5]) is Some
            && String::parse(cs[6]) is Some
            && <Vec<String>>::parse(cs[7]) is Some
            && i64::parse(cs[8]) is Some
            && i64::parse(cs[9]) is Some
            && String::parse(cs[10]) is Some
            && i64::parse(cs[11]) is Some {
            Some(
                ProposalModel {
                    proposal_id: String::parse(cs[0])->Some_0,
                    status: Status::parse(cs[1])->Some_0,
                    role: Role::parse(cs[2])->Some_0,
                    timestamp: u64::parse(cs[3])->Some_0,
                    issuing_participant: String::parse(cs[4])->Some_0,
                    receiving_participant: String::parse(cs[5])->Some_0,
                    record_id: String::parse(cs[6])->Some_0,
                    properties: <Vec<String>>::parse(cs[7])->Some_0,
                    dg_coin_amount: i64::parse(cs[8])->Some_0,
                    dg_coin_exchanged: i64::parse(cs[9])->Some_0,
                    currency_iso_codes: String::parse(cs[10])->Some_0,
                    currency_quote_amount: i64::parse(cs[11])->Some_0,
                },
            )
        } else {
            None
        }
    }

    proof fn lemma_round_trip(m: ProposalModel) {
        String::lemma_round_trip(m.proposal_id);
        Status::lemma_round_trip(m.status);
        Role::lemma_round_trip(m.role);
        u64::lemma_round_trip(m.timestamp);
        String::lemma_round_trip(m.issuing_participant);
        String::lemma_round_trip(m.receiving_participant);
        String::lemma_round_trip(m.record_id);
        <Vec<String>>::lemma_round_trip(m.properties);
        i64::lemma_round_trip(m.dg_coin_amount);
        i64::lemma_round_trip(m.dg_coin_exchanged);
        String::lemma_round_trip(m.currency_iso_codes);
        i64::lemma_round_trip(m.currency_quote_amount);
    }

    fn to_node(&self) -> (n: Node) {
        let mut fields: Vec<Node> = Vec::new();
        fields.push(self.proposal_id.to_node());
        fields.push(self.status.to_node());
        fields.push(self.role.to_node());
        fields.push(self.timestamp.to_node());
        fields.push(self.issuing_participant.to_node());
        fields.push(self.receiving_participant.to_node());
        fields.push(self.record_id.to_node());
        fields.push(self.properties.to_node());
        fields.push(self.dg_coin_amount.to_node());
        fields.push(self.dg_coin_exchanged.to_node());
        fields.push(self.currency_iso_codes.to_node());
        fields.push(self.currency_quote_amount.to_node());
        proof {
            assert(fields.deep_view() =~= children_of(Self::node_of(self.deep_view())));
        }
        record_node(fields)
    }

    fn from_node(n: &Node) -> (r: Option<Proposal>) {
        let cs = match record_fields(n, 12) {
            Some(cs) => cs,
            None => {
                return None;
            },
        };
        assert(cs.deep_view()[0] == cs[0].deep_view());
        let proposal_id = match String::from_node(&cs[0]) {
            Some(v) => v,
            None => {
                return None;
            },
        };
        assert(cs.deep_view()[1] == cs[1].deep_view());
        let status = match Status::from_node(&cs[1]) {
            Some(v) => v,
            None => {
                return None;
            },
        };
        assert(cs.deep_view()[2] == cs[2].deep_view());
        let role = match Role::from_node(&cs[2]) {
            Some(v) => v,
            None => {
                return None;
            },
        };
        assert(cs.deep_view()[3] == cs[3].deep_view());
        let timestamp = match u64::from_node(&cs[3]) {
            Some(v) => v,
            None => {
                return None;
            },
        };
        assert(cs.deep_view()[4] == cs[4].deep_view());
        let issuing_participant = match String::from_node(&cs[4]) {
            Some(v) => v,
            None => {
                return None;
            },
        };
        assert(cs.deep_view()[5] == cs[5].deep_view());
        let receiving_participant = match String::from_node(&cs[5]) {
            Some(v) => v,
            None => {
                return None;
            },
        };
        assert(cs.deep_view()[6] == cs[6].deep_view());
        let record_id = match String::from_node(&cs[6]) {
            Some(v) => v,
            None => {
                return None;
            },
        };
        assert(cs.deep_view()[7] == cs[7].deep_view());
        let properties = match <Vec<String>>::from_node(&cs[7]) {
            Some(v) => v,
            None => {
                return None;
            },
        };
        assert(cs.deep_view()[8] == cs[8].deep_view());
        let dg_coin_amount = match i64::from_node(&cs[8]) {
            Some(v) => v,
            None => {
                return None;
            },
        };
        assert(cs.deep_view()[9] == cs[9].deep_view());
        let dg_coin_exchanged = match i64::from_node(&cs[9]) {
            Some(v) => v,
            None => {
                return None;
            },
        };
        assert(cs.deep_view()[10] == cs[10].deep_view());
        let currency_iso_codes = match String::from_node(&cs[10]) {
            Some(v) => v,
            None => {
                return None;
            },
        };
        assert(cs.deep_view()[11] == cs[11].deep_view());
        let currency_quote_amount = match i64::from_node(&cs[11]) {
            Some(v) => v,
            None => {
                return None;
            },
        };
        Some(
            Proposal {
                proposal_id,
                status,
                role,
                timestamp,
                issuing_participant,
                receiving_participant,
                record_id,
                properties,
                dg_coin_amount,
                dg_coin_exchanged,
                currency_iso_codes,
                currency_quote_amount,
            }
        )
    }
}

/// The settlement memo of a matched buy and sell order.
#[derive(Clone, Debug, PartialEq, Eq)]
pub struct Exchange {
    pub buy_proposal_id: String,
    pub sell_proposal_id: String,
    pub timestamp: u64,
    pub currency_iso_codes: String,
    /// The bits of the IEEE 754 double that is the price.
    pub last_currency_price: u64,
    /// The bits of the IEEE 754 double that is the price.
    pub last_dgc_price: u64,
}

/// The mathematical value of a [`Exchange`].
pub struct ExchangeModel {
    pub buy_proposal_id: Seq<char>,
    pub sell_proposal_id: Seq<char>,
    pub timestamp: u64,
    pub currency_iso_codes: Seq<char>,
    pub last_currency_price: u64,
    pub last_dgc_price: u64,
}

impl DeepView for Exchange {
    type V = ExchangeModel;

    open spec fn deep_view(&self) -> ExchangeModel {
        ExchangeModel {
            buy_proposal_id: self.buy_proposal_id.deep_view(),
            sell_proposal_id: self.sell_proposal_id.deep_view(),
            timestamp: self.timestamp.deep_view(),
            currency_iso_codes: self.currency_iso_codes.deep_view(),
            last_currency_price: self.last_currency_price.deep_view(),
            last_dgc_price: self.last_dgc_price.deep_view(),
        }
    }
}

impl View for Exchange {
    type V = ExchangeModel;

    open spec fn view(&self) -> ExchangeModel {
        self.deep_view()
    }
}

impl Codec for Exchange {
    open spec fn node_of(m: ExchangeModel) -> NodeModel {
        NodeModel::List(
            seq![
                String::node_of(m.buy_proposal_id),
                String::node_of(m.sell_proposal_id),
                u64::node_of(m.timestamp),
                String::node_of(m.currency_iso_codes),
                u64::node_of(m.last_currency_price),
                u64::node_of(m.last_dgc_price),
            ],
        )
    }

    open spec fn parse(n: NodeModel) -> Option<ExchangeModel> {
        let cs = children_of(n);
        if is_record(n, 6)
            && String::parse(cs[0]) is Some
            && String::parse(cs[1]) is Some
            && u64::parse(cs[2]) is Some
            && String::parse(cs[3]) is Some
            && u64::parse(cs[4]) is Some
            && u64::parse(cs[5]) is Some {
            Some(
                ExchangeModel {
                    buy_proposal_id: String::parse(cs[0])->Some_0,
                    sell_proposal_id: String::parse(cs[1])->Some_0,
                    timestamp: u64::parse(cs[2])->Some_0,
                    currency_iso_codes: String::parse(cs[3])->Some_0,
                    last_currency_price: u64::parse(cs[4])->Some_0,
                    last_dgc_price: u64::parse(cs[5])->Some_0,
                },
            )
        } else {
            None
        }
    }

    proof fn lemma_round_trip(m: ExchangeModel) {
        String::lemma_round_trip(m.buy_proposal_id);
        String::lemma_round_trip(m.sell_proposal_id);
        u64::lemma_round_trip(m.timestamp);
        String::lemma_round_trip(m.currency_iso_codes);
        u64::lemma_round_trip(m.last_currency_price);
        u64::lemma_round_trip(m.last_dgc_price);
    }

    fn to_node(&self) -> (n: Node) {
        let mut fields: Vec<Node> = Vec::new();
        fields.push(self.buy_proposal_id.to_node());
        fields.push(self.sell_proposal_id.to_node());
        fields.push(self.timestamp.to_node());
        fields.push(self.currency_iso_codes.to_node());
        fields.push(self.last_currency_price.to_node());
        fields.push(self.last_dgc_price.to_node());
        proof {
            assert(fields.deep_view() =~= children_of(Self::node_of(self.deep_view())));
        }
        record_node(fields)
    }

    fn from_node(n: &Node) -> (r: Option<Exchange>) {
        let cs = match record_fields(n, 6) {
            Some(cs) => cs,
            None => {
                return None;
            },
        };
        assert(cs.deep_view()[0] == cs[0].deep_view());
        let buy_proposal_id = match String::from_node(&cs[0]) {
            Some(v) => v,
            None => {
                return None;
            },
        };
        assert(cs.deep_view()[1] == cs[1].deep_view());
        let sell_proposal_id = match String::from_node(&cs[1]) {
            Some(v) => v,
            None => {
                return None;
            },
        };
        assert(cs.deep_view()[2] == cs[2].deep_view());
        let timestamp = match u64::from_node(&cs[2]) {
            Some(v) => v,
            None => {
                return None;
            },
        };
        assert(cs.deep_view()[3] == cs[3].deep_view());
        let currency_iso_codes = match String::from_node(&cs[3]) {
            Some(v) => v,
            None => {
                return None;
            },
        };
        assert(cs.deep_view()[4] == cs[4].deep_view());
        let last_currency_price = match u64::from_node(&cs[4]) {
            Some(v) => v,
            None => {
                return None;
            },
        };
        assert(cs.deep_view()[5] == cs[5].deep_view());
        let last_dgc_price = match u64::from_node(&cs[5]) {
            Some(v) => v,
            None => {
                return None;
            },
        };
        Some(
            Exchange {
                buy_proposal_id,
                sell_proposal_id,
                timestamp,
                currency_iso_codes,
                last_currency_price,
                last_dgc_price,
            }
        )
    }
}

impl Ordered for Proposal {
    open spec fn le(a: ProposalModel, b: ProposalModel) -> bool {
        key_le((a.proposal_id, ""@), (b.proposal_id, ""@))
    }

    proof fn lemma_le_total(a: ProposalModel, b: ProposalModel) {
        lemma_key_le_total((a.proposal_id, ""@), (b.proposal_id, ""@));
    }

    proof fn lemma_le_transitive(a: ProposalModel, b: ProposalModel, c: ProposalModel) {
        lemma_key_le_transitive((a.proposal_id, ""@), (b.proposal_id, ""@), (c.proposal_id, ""@));
    }

    fn le_exec(&self, other: &Self) -> (r: bool) {
        key_le_exec(self.proposal_id.as_str(), "", other.proposal_id.as_str(), "")
    }
}

impl Keyed for Proposal {
    open spec fn key(m: ProposalModel) -> Key {
        (m.proposal_id, ""@)
    }

    open spec fn kind() -> Seq<char> {
        "proposal"@
    }

    open spec fn tag() -> u64 {
        6
    }

    open spec fn valid(m: ProposalModel) -> bool {
        true
    }

    proof fn lemma_ordered_by_key(a: ProposalModel, b: ProposalModel) {
    }

    fn has_key(&self, first: &str, second: &str) -> (r: bool) {
        text_eq(self.proposal_id.as_str(), first) && text_eq("", second)
    }

    fn kind_name() -> (r: &'static str) {
        "proposal"
    }

    fn tag_number() -> (r: u64) {
        6
    }
}

impl Ordered for Exchange {
    open spec fn le(a: ExchangeModel, b: ExchangeModel) -> bool {
        key_le((a.buy_proposal_id, a.sell_proposal_id), (b.buy_proposal_id, b.sell_proposal_id))
    }

    proof fn lemma_le_total(a: ExchangeModel, b: ExchangeModel) {
        lemma_key_le_total(
            (a.buy_proposal_id, a.sell_proposal_id),
            (b.buy_proposal_id, b.sell_proposal_id),
        );
    }

    proof fn lemma_le_transitive(a: ExchangeModel, b: ExchangeModel, c: ExchangeModel) {
        lemma_key_le_transitive(
            (a.buy_proposal_id, a.sell_proposal_id),
            (b.buy_proposal_id, b.sell_proposal_id),
            (c.buy_proposal_id, c.sell_proposal_id),
        );
    }

    fn le_exec(&self, other: &Self) -> (r: bool) {
        key_le_exec(
            self.buy_proposal_id.as_str(),
            self.sell_proposal_id.as_str(),
            other.buy_proposal_id.as_str(),
            other.sell_proposal_id.as_str(),
        )
    }
}

impl Keyed for Exchange {
    open spec fn key(m: ExchangeModel) -> Key {
        (m.buy_proposal_id, m.sell_proposal_id)
    }

    open spec fn kind() -> Seq<char> {
        "exchange"@
    }

    open spec fn tag() -> u64 {
        7
    }

    open spec fn valid(m: ExchangeModel) -> bool {
        true
    }

    proof fn lemma_ordered_by_key(a: ExchangeModel, b: ExchangeModel) {
    }

    fn has_key(&self, first: &str, second: &str) -> (r: bool) {
        text_eq(self.buy_proposal_id.as_str(), first) && text_eq(
            self.sell_proposal_id.as_str(),
            second,
        )
    }

    fn kind_name() -> (r: &'static str) {
        "exchange"
    }

    fn tag_number() -> (r: u64) {
        7
    }
}
} // verus!
