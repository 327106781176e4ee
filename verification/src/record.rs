//! Records and the tables that give them their schema.

use crate::codec::{children_of, is_record, record_fields, record_node, Codec};
use crate::schema::{PropertySchema, PropertySchemaModel};
use crate::wire::{Node, NodeModel};
use vstd::prelude::*;
use crate::container::Keyed;
use crate::order::Ordered;
use crate::text::{
    key_le, key_le_exec, lemma_key_le_total, lemma_key_le_transitive, text_eq, Key,
};

verus! {

/// A holder of a record and when it became one.
#[derive(Clone, Debug, PartialEq, Eq)]
pub struct AssociatedParticipant {
    pub participant_id: String,
    pub timestamp: u64,
}

/// The mathematical value of a [`AssociatedParticipant`].
pub struct AssociatedParticipantModel {
    pub participant_id: Seq<char>,
    pub timestamp: u64,
}

impl DeepView for AssociatedParticipant {
    type V = AssociatedParticipantModel;

    open spec fn deep_view(&self) -> AssociatedParticipantModel {
        AssociatedParticipantModel {
            participant_id: self.participant_id.deep_view(),
            timestamp: self.timestamp.deep_view(),
        }
    }
}

impl View for AssociatedParticipant {
    type V = AssociatedParticipantModel;

    open spec fn view(&self) -> AssociatedParticipantModel {
        self.deep_view()
    }
}

impl Codec for AssociatedParticipant {
    open spec fn node_of(m: AssociatedParticipantModel) -> NodeModel {
        NodeModel::List(
            seq![
                String::node_of(m.participant_id),
                u64::node_of(m.timestamp),
            ],
        )
    }

    open spec fn parse(n: NodeModel) -> Option<AssociatedParticipantModel> {
        let cs = children_of(n);
        if is_record(n, 2)
            && String::parse(cs[0]) is Some
            && u64::parse(cs[1]) is Some {
            Some(
                AssociatedParticipantModel {
                    participant_id: String::parse(cs[0])->Some_0,
                    timestamp: u64::parse(cs[1])->Some_0,
                },
            )
        } else {
            None
        }
    }

    proof fn lemma_round_trip(m: AssociatedParticipantModel) {
        String::lemma_round_trip(m.participant_id);
        u64::lemma_round_trip(m.timestamp);
    }

    fn to_node(&self) -> (n: Node) {
        let mut fields: Vec<Node> = Vec::new();
        fields.push(self.participant_id.to_node());
        fields.push(self.timestamp.to_node());
        proof {
            assert(fields.deep_view() =~= children_of(Self::node_of(self.deep_view())));
        }
        record_node(fields)
    }

    fn from_node(n: &Node) -> (r: Option<AssociatedParticipant>) {
        let cs = match record_fields(n, 2) {
            Some(cs) => cs,
            None => {
                return None;
            },
        };
        assert(cs.deep_view()[0] == cs[0].deep_view());
        let participant_id = match String::from_node(&cs[0]) {
            Some(v) => v,
            None => {
                return None;
            },
        };
        assert(cs.deep_view()[1] == cs[1].deep_view());
        let timestamp = match u64::from_node(&cs[1]) {
            Some(v) => v,
            None => {
                return None;
            },
        };
        Some(AssociatedParticipant { participant_id, timestamp })
    }
}

/// A record of a table.
#[derive(Clone, Debug, PartialEq, Eq)]
pub struct Record {
    pub record_id: String,
    /// The name of the table.
    pub table: String,
    /// A final record admits no further change.
    pub field_final: bool,
    /// Owner history; the last entry is the current owner.
    pub owners: Vec<AssociatedParticipant>,
    /// Custodian history; the last entry is the current custodian.
    pub custodians: Vec<AssociatedParticipant>,
}

/// The mathematical value of a [`Record`].
pub struct RecordModel {
    pub record_id: Seq<char>,
    pub table: Seq<char>,
    pub field_final: bool,
    pub owners: Seq<AssociatedParticipantModel>,
    pub custodians: Seq<AssociatedParticipantModel>,
}

impl DeepView for Record {
    type V = RecordModel;

    open spec fn deep_view(&self) -> RecordModel {
        RecordModel {
            record_id: self.record_id.deep_view(),
            table: self.table.deep_view(),
            field_final: self.field_final.deep_view(),
            owners: self.owners.deep_view(),
            custodians: self.custodians.deep_view(),
        }
    }
}

impl View for Record {
    type V = RecordModel;

    open spec fn view(&self) -> RecordModel {
        self.deep_view()
    }
}

impl Codec for Record {
    open spec fn node_of(m: RecordModel) -> NodeModel {
        NodeModel::List(
            seq![
                String::node_of(m.record_id),
                String::node_of(m.table),
                bool::node_of(m.field_final),
                <Vec<AssociatedParticipant>>::node_of(m.owners),
                <Vec<AssociatedParticipant>>::node_of(m.custodians),
            ],
        )
    }

    open spec fn parse(n: NodeModel) -> Option<RecordModel> {
        let cs = children_of(n);
        if is_record(n, 5)
            && String::parse(cs[0]) is Some
            && String::parse(cs[1]) is Some
            && bool::parse(cs[2]) is Some
            && <Vec<AssociatedParticipant>>::parse(cs[3]) is Some
            && <Vec<AssociatedParticipant>>::parse(cs[4]) is Some {
            Some(
                RecordModel {
                    record_id: String::parse(cs[0])->Some_0,
                    table: String::parse(cs[1])->Some_0,
                    field_final: bool::parse(cs[2])->Some_0,
                    owners: <Vec<AssociatedParticipant>>::parse(cs[3])->Some_0,
                    custodians: <Vec<AssociatedParticipant>>::parse(cs[4])->Some_0,
                },
            )
        } else {
            None
        }
    }

    proof fn lemma_round_trip(m: RecordModel) {
        String::lemma_round_trip(m.record_id);
        String::lemma_round_trip(m.table);
        bool::lemma_round_trip(m.field_final);
        <Vec<AssociatedParticipant>>::lemma_round_trip(m.owners);
        <Vec<AssociatedParticipant>>::lemma_round_trip(m.custodians);
    }

    fn to_node(&self) -> (n: Node) {
        let mut fields: Vec<Node> = Vec::new();
        fields.push(self.record_id.to_node());
        fields.push(self.table.to_node());
        fields.push(self.field_final.to_node());
        fields.push(self.owners.to_node());
        fields.push(self.custodians.to_node());
        proof {
            assert(fields.deep_view() =~= children_of(Self::node_of(self.deep_view())));
        }
        record_node(fields)
    }

    fn from_node(n: &Node) -> (r: Option<Record>) {
        let cs = match record_fields(n, 5) {
            Some(cs) => cs,
            None => {
                return None;
            },
        };
        assert(cs.deep_view()[0] == cs[0].deep_view());
        let record_id = match String::from_node(&cs[0]) {
            Some(v) => v,
            None => {
                return None;
            },
        };
        assert(cs.deep_view()[1] == cs[1].deep_view());
        let table = match String::from_node(&cs[1]) {
            Some(v) => v,
            None => {
                return None;
            },
        };
        assert(cs.deep_view()[2] == cs[2].deep_view());
        let field_final = match bool::from_node(&cs[2]) {
            Some(v) => v,
            None => {
                return None;
            },
        };
        assert(cs.deep_view()[3] == cs[3].deep_view());
        let owners = match <Vec<AssociatedParticipant>>::from_node(&cs[3]) {
            Some(v) => v,
            None => {
                return None;
            },
        };
        assert(cs.deep_view()[4] == cs[4].deep_view());
        let custodians = match <Vec<AssociatedParticipant>>::from_node(&cs[4]) {
            Some(v) => v,
            None => {
                return None;
            },
        };
        Some(Record { record_id, table, field_final, owners, custodians })
    }
}

/// A table: a name and the schema of its records.
#[derive(Clone, Debug, PartialEq, Eq)]
pub struct Table {
    pub name: String,
    pub properties: Vec<PropertySchema>,
}

/// The mathematical value of a [`Table`].
pub struct TableModel {
    pub name: Seq<char>,
    pub properties: Seq<PropertySchemaModel>,
}

impl DeepView for Table {
    type V = TableModel;

    open spec fn deep_view(&self) -> TableModel {
        TableModel {
            name: self.name.deep_view(),
            properties: self.properties.deep_view(),
        }
    }
}

impl View for Table {
    type V = TableModel;

    open spec fn view(&self) -> TableModel {
        self.deep_view()
    }
}

impl Codec for Table {
    open spec fn node_of(m: TableModel) -> NodeModel {
        NodeModel::List(
            seq![
                String::node_of(m.name),
                <Vec<PropertySchema>>::node_of(m.properties),
            ],
        )
    }

    open spec fn parse(n: NodeModel) -> Option<TableModel> {
        let cs = children_of(n);
        if is_record(n, 2)
            && String::parse(cs[0]) is Some
            && <Vec<PropertySchema>>::parse(cs[1]) is Some {
            Some(
                TableModel {
                    name: String::parse(cs[0])->Some_0,
                    properties: <Vec<PropertySchema>>::parse(cs[1])->Some_0,
                },
            )
        } else {
            None
        }
    }

    proof fn lemma_round_trip(m: TableModel) {
        String::lemma_round_trip(m.name);
        <Vec<PropertySchema>>::lemma_round_trip(m.properties);
    }

    fn to_node(&self) -> (n: Node) {
        let mut fields: Vec<Node> = Vec::new();
        fields.push(self.name.to_node());
        fields.push(self.properties.to_node());
        proof {
            assert(fields.deep_view() =~= children_of(Self::node_of(self.deep_view())));
        }
        record_node(fields)
    }

    fn from_node(n: &Node) -> (r: Option<Table>) {
        let cs = match record_fields(n, 2) {
            Some(cs) => cs,
            None => {
                return None;
            },
        };
        assert(cs.deep_view()[0] == cs[0].deep_view());
        let name = match String::from_node(&cs[0]) {
            Some(v) => v,
            None => {
                return None;
            },
        };
        assert(cs.deep_view()[1] == cs[1].deep_view());
        let properties = match <Vec<PropertySchema>>::from_node(&cs[1]) {
            Some(v) => v,
            None => {
                return None;
            },
        };
        Some(Table { name, properties })
    }
}

impl Ordered for Record {
    open spec fn le(a: RecordModel, b: RecordModel) -> bool {
        key_le((a.record_id, ""@), (b.record_id, ""@))
    }

    proof fn lemma_le_total(a: RecordModel, b: RecordModel) {
        lemma_key_le_total((a.record_id, ""@), (b.record_id, ""@));
    }

    proof fn lemma_le_transitive(a: RecordModel, b: RecordModel, c: RecordModel) {
        lemma_key_le_transitive((a.record_id, ""@), (b.record_id, ""@), (c.record_id, ""@));
    }

    fn le_exec(&self, other: &Self) -> (r: bool) {
        key_le_exec(self.record_id.as_str(), "", other.record_id.as_str(), "")
    }
}

impl Keyed for Record {
    open spec fn key(m: RecordModel) -> Key {
        (m.record_id, ""@)
    }

    open spec fn kind() -> Seq<char> {
        "record"@
    }

    open spec fn tag() -> u64 {
        3
    }

    open spec fn valid(m: RecordModel) -> bool {
        m.owners.len() > 0 && m.custodians.len() > 0
    }

    proof fn lemma_ordered_by_key(a: RecordModel, b: RecordModel) {
    }

    fn has_key(&self, first: &str, second: &str) -> (r: bool) {
        text_eq(self.record_id.as_str(), first) && text_eq("", second)
    }

    fn kind_name() -> (r: &'static str) {
        "record"
    }

    fn tag_number() -> (r: u64) {
        3
    }
}

impl Ordered for Table {
    open spec fn le(a: TableModel, b: TableModel) -> bool {
        key_le((a.name, ""@), (b.name, ""@))
    }

    proof fn lemma_le_total(a: TableModel, b: TableModel) {
        lemma_key_le_total((a.name, ""@), (b.name, ""@));
    }

    proof fn lemma_le_transitive(a: TableModel, b: TableModel, c: TableModel) {
        lemma_key_le_transitive((a.name, ""@), (b.name, ""@), (c.name, ""@));
    }

    fn le_exec(&self, other: &Self) -> (r: bool) {
        key_le_exec(self.name.as_str(), "", other.name.as_str(), "")
    }
}

impl Keyed for Table {
    open spec fn key(m: TableModel) -> Key {
        (m.name, ""@)
    }

    open spec fn kind() -> Seq<char> {
        "table"@
    }

    open spec fn tag() -> u64 {
        2
    }

    open spec fn valid(m: TableModel) -> bool {
        true
    }

    proof fn lemma_ordered_by_key(a: TableModel, b: TableModel) {
    }

    fn has_key(&self, first: &str, second: &str) -> (r: bool) {
        text_eq(self.name.as_str(), first) && text_eq("", second)
    }

    fn kind_name() -> (r: &'static str) {
        "table"
    }

    fn tag_number() -> (r: u64) {
        2
    }
}
} // verus!
