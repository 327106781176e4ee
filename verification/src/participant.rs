//! Participants and their coin history.
//!
//! A participant is known by the public key that signs its transactions. Its
//! balance and its credit are histories: each change appends an entry, and the
//! current amount is that of the last entry, or zero while there is none.

use crate::codec::{children_of, is_record, record_fields, record_node, Codec};
use crate::wire::{Node, NodeModel};
use vstd::prelude::*;
use crate::container::Keyed;
use crate::order::Ordered;
use crate::text::{
    key_le, key_le_exec, lemma_key_le_total, lemma_key_le_transitive, text_eq, Key,
};

verus! {

/// One entry of a balance or credit history.
#[derive(Clone, Debug, PartialEq, Eq)]
pub struct CreditBalance {
    /// The proposal that caused the change.
    pub proposal_id: String,
    pub timestamp: u64,
    /// The amount after the change.
    pub dg_coin_amount: i64,
}

/// The mathematical value of a [`CreditBalance`].
pub struct CreditBalanceModel {
    pub proposal_id: Seq<char>,
    pub timestamp: u64,
    pub dg_coin_amount: i64,
}

impl DeepView for CreditBalance {
    type V = CreditBalanceModel;

    open spec fn deep_view(&self) -> CreditBalanceModel {
        CreditBalanceModel {
            proposal_id: self.proposal_id.deep_view(),
            timestamp: self.timestamp.deep_view(),
            dg_coin_amount: self.dg_coin_amount.deep_view(),
        }
    }
}

impl View for CreditBalance {
    type V = CreditBalanceModel;

    open spec fn view(&self) -> CreditBalanceModel {
        self.deep_view()
    }
}

impl Codec for CreditBalance {
    open spec fn node_of(m: CreditBalanceModel) -> NodeModel {
        NodeModel::List(
            seq![
                String::node_of(m.proposal_id),
                u64::node_of(m.timestamp),
                i64::node_of(m.dg_coin_amount),
            ],
        )
    }

    open spec fn parse(n: NodeModel) -> Option<CreditBalanceModel> {
        let cs = children_of(n);
        if is_record(n, 3)
            && String::parse(cs[0]) is Some
            && u64::parse(cs[1]) is Some
            && i64::parse(cs[2]) is Some {
            Some(
                CreditBalanceModel {
                    proposal_id: String::parse(cs[0])->Some_0,
                    timestamp: u64::parse(cs[1])->Some_0,
                    dg_coin_amount: i64::parse(cs[2])->Some_0,
                },
            )
        } else {
            None
        }
    }

    proof fn lemma_round_trip(m: CreditBalanceModel) {
        String::lemma_round_trip(m.proposal_id);
        u64::lemma_round_trip(m.timestamp);
        i64::lemma_round_trip(m.dg_coin_amount);
    }

    fn to_node(&self) -> (n: Node) {
        let mut fields: Vec<Node> = Vec::new();
        fields.push(self.proposal_id.to_node());
        fields.push(self.timestamp.to_node());
        fields.push(self.dg_coin_amount.to_node());
        proof {
            assert(fields.deep_view() =~= children_of(Self::node_of(self.deep_view())));
        }
        record_node(fields)
    }

    fn from_node(n: &Node) -> (r: Option<CreditBalance>) {
        let cs = match record_fields(n, 3) {
            Some(cs) => cs,
            None => {
                return None;
            },
        };
        assert(cs.deep_view()[0] == cs[0].deep_view());
        let proposal_id = match String::from_node(&cs[0]) {
            Some(v) => v,
            None => {
                return None;
            },
        };
        assert(cs.deep_view()[1] == cs[1].deep_view());
        let timestamp = match u64::from_node(&cs[1]) {
            Some(v) => v,
            None => {
                return None;
            },
        };
        assert(cs.deep_view()[2] == cs[2].deep_view());
        let dg_coin_amount = match i64::from_node(&cs[2]) {
            Some(v) => v,
            None => {
                return None;
            },
        };
        Some(CreditBalance { proposal_id, timestamp, dg_coin_amount })
    }
}

/// A registered participant.
#[derive(Clone, Debug, PartialEq, Eq)]
pub struct Participant {
    /// The natural key: the signer identity.
    pub public_key: String,
    pub name: String,
    pub timestamp: u64,
    /// Balance history, oldest first.
    pub dg_coin_balances: Vec<CreditBalance>,
    /// Credit history, oldest first.
    pub dg_coin_credits: Vec<CreditBalance>,
}

/// The mathematical value of a [`Participant`].
pub struct ParticipantModel {
    pub public_key: Seq<char>,
    pub name: Seq<char>,
    pub timestamp: u64,
    pub dg_coin_balances: Seq<CreditBalanceModel>,
    pub dg_coin_credits: Seq<CreditBalanceModel>,
}

impl DeepView for Participant {
    type V = ParticipantModel;

    open spec fn deep_view(&self) -> ParticipantModel {
        ParticipantModel {
            public_key: self.public_key.deep_view(),
            name: self.name.deep_view(),
            timestamp: self.timestamp.deep_view(),
            dg_coin_balances: self.dg_coin_balances.deep_view(),
            dg_coin_credits: self.dg_coin_credits.deep_view(),
        }
    }
}

impl View for Participant {
    type V = ParticipantModel;

    open spec fn view(&self) -> ParticipantModel {
        self.deep_view()
    }
}

impl Codec for Participant {
    open spec fn node_of(m: ParticipantModel) -> NodeModel {
        NodeModel::List(
            seq![
                String::node_of(m.public_key),
                String::node_of(m.name),
                u64::node_of(m.timestamp),
                <Vec<CreditBalance>>::node_of(m.dg_coin_balances),
                <Vec<CreditBalance>>::node_of(m.dg_coin_credits),
            ],
        )
    }

    open spec fn parse(n: NodeModel) -> Option<ParticipantModel> {
        let cs = children_of(n);
        if is_record(n, 5)
            && String::parse(cs[0]) is Some
            && String::parse(cs[1]) is Some
            && u64::parse(cs[2]) is Some
            && <Vec<CreditBalance>>::parse(cs[3]) is Some
            && <Vec<CreditBalance>>::parse(cs[4]) is Some {
            Some(
                ParticipantModel {
                    public_key: String::parse(cs[0])->Some_0,
                    name: String::parse(cs[1])->Some_0,
                    timestamp: u64::parse(cs[2])->Some_0,
                    dg_coin_balances: <Vec<CreditBalance>>::parse(cs[3])->Some_0,
                    dg_coin_credits: <Vec<CreditBalance>>::parse(cs[4])->Some_0,
                },
            )
        } else {
            None
        }
    }

    proof fn lemma_round_trip(m: ParticipantModel) {
        String::lemma_round_trip(m.public_key);
        String::lemma_round_trip(m.name);
        u64::lemma_round_trip(m.timestamp);
        <Vec<CreditBalance>>::lemma_round_trip(m.dg_coin_balances);
        <Vec<CreditBalance>>::lemma_round_trip(m.dg_coin_credits);
    }

    fn to_node(&self) -> (n: Node) {
        let mut fields: Vec<Node> = Vec::new();
        fields.push(self.public_key.to_node());
        fields.push(self.name.to_node());
        fields.push(self.timestamp.to_node());
        fields.push(self.dg_coin_balances.to_node());
        fields.push(self.dg_coin_credits.to_node());
        proof {
            assert(fields.deep_view() =~= children_of(Self::node_of(self.deep_view())));
        }
        record_node(fields)
    }

    fn from_node(n: &Node) -> (r: Option<Participant>) {
        let cs = match record_fields(n, 5) {
            Some(cs) => cs,
            None => {
                return None;
            },
        };
        assert(cs.deep_view()[0] == cs[0].deep_view());
        let public_key = match String::from_node(&cs[0]) {
            Some(v) => v,
            None => {
                return None;
            },
        };
        assert(cs.deep_view()[1] == cs[1].deep_view());
        let name = match String::from_node(&cs[1]) {
            Some(v) => v,
            None => {
                return None;
            },
        };
        assert(cs.deep_view()[2] == cs[2].deep_view());
        let timestamp = match u64::from_node(&cs[2]) {
            Some(v) => v,
            None => {
                return None;
            },
        };
        assert(cs.deep_view()[3] == cs[3].deep_view());
        let dg_coin_balances = match <Vec<CreditBalance>>::from_node(&cs[3]) {
            Some(v) => v,
            None => {
                return None;
            },
        };
        assert(cs.deep_view()[4] == cs[4].deep_view());
        let dg_coin_credits = match <Vec<CreditBalance>>::from_node(&cs[4]) {
            Some(v) => v,
            None => {
                return None;
            },
        };
        Some(Participant { public_key, name, timestamp, dg_coin_balances, dg_coin_credits })
    }
}

impl Ordered for Participant {
    open spec fn le(a: ParticipantModel, b: ParticipantModel) -> bool {
        key_le((a.public_key, ""@), (b.public_key, ""@))
    }

    proof fn lemma_le_total(a: ParticipantModel, b: ParticipantModel) {
        lemma_key_le_total((a.public_key, ""@), (b.public_key, ""@));
    }

    proof fn lemma_le_transitive(a: ParticipantModel, b: ParticipantModel, c: ParticipantModel) {
        lemma_key_le_transitive((a.public_key, ""@), (b.public_key, ""@), (c.public_key, ""@));
    }

    fn le_exec(&self, other: &Self) -> (r: bool) {
        key_le_exec(self.public_key.as_str(), "", other.public_key.as_str(), "")
    }
}

impl Keyed for Participant {
    open spec fn key(m: ParticipantModel) -> Key {
        (m.public_key, ""@)
    }

    open spec fn kind() -> Seq<char> {
        "participant"@
    }

    open spec fn tag() -> u64 {
        1
    }

    open spec fn valid(m: ParticipantModel) -> bool {
        true
    }

    proof fn lemma_ordered_by_key(a: ParticipantModel, b: ParticipantModel) {
    }

    fn has_key(&self, first: &str, second: &str) -> (r: bool) {
        text_eq(self.public_key.as_str(), first) && text_eq("", second)
    }

    fn kind_name() -> (r: &'static str) {
        "participant"
    }

    fn tag_number() -> (r: u64) {
        1
    }
}
} // verus!
