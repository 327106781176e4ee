//! Properties of a record and the pages that hold their reported values.
//!
//! A property keeps, besides the fields copied from its schema, the list of
//! its reporters and the number of the page that takes the next value. The
//! pages of a property form a ring of 256 slots of up to 256 values each.

use crate::codec::{children_of, is_record, record_fields, record_node, Codec};
use crate::schema::{DataType, PropertySchema, PropertySchemaModel};
use crate::value::{Location, LocationModel, PropertyValue, PropertyValueModel};
use crate::wire::{Node, NodeModel};
use vstd::prelude::*;
use crate::container::Keyed;
use crate::order::{sorted, Ordered};
use crate::text::{
    key_le, key_le_exec, lemma_key_le_total, lemma_key_le_transitive, text_eq, Key,
};

verus! {

/// A participant that may report values of a property.
#[derive(Clone, Debug, PartialEq, Eq)]
pub struct Reporter {
    pub public_key: String,
    /// Only an authorized reporter can write.
    pub authorized: bool,
    /// The stable ordinal given at first inclusion.
    pub index: u32,
}

/// The mathematical value of a [`Reporter`].
pub struct ReporterModel {
    pub public_key: Seq<char>,
    pub authorized: bool,
    pub index: u32,
}

impl DeepView for Reporter {
    type V = ReporterModel;

    open spec fn deep_view(&self) -> ReporterModel {
        ReporterModel {
            public_key: self.public_key.deep_view(),
            authorized: self.authorized.deep_view(),
            index: self.index.deep_view(),
        }
    }
}

impl View for Reporter {
    type V = ReporterModel;

    open spec fn view(&self) -> ReporterModel {
        self.deep_view()
    }
}

impl Codec for Reporter {
    open spec fn node_of(m: ReporterModel) -> NodeModel {
        NodeModel::List(
            seq![
                String::node_of(m.public_key),
                bool::node_of(m.authorized),
                u32::node_of(m.index),
            ],
        )
    }

    open spec fn parse(n: NodeModel) -> Option<ReporterModel> {
        let cs = children_of(n);
        if is_record(n, 3)
            && String::parse(cs[0]) is Some
            && bool::parse(cs[1]) is Some
            && u32::parse(cs[2]) is Some {
            Some(
                ReporterModel {
                    public_key: String::parse(cs[0])->Some_0,
                    authorized: bool::parse(cs[1])->Some_0,
                    index: u32::parse(cs[2])->Some_0,
                },
            )
        } else {
            None
        }
    }

    proof fn lemma_round_trip(m: ReporterModel) {
        String::lemma_round_trip(m.public_key);
        bool::lemma_round_trip(m.authorized);
        u32::lemma_round_trip(m.index);
    }

    fn to_node(&self) -> (n: Node) {
        let mut fields: Vec<Node> = Vec::new();
        fields.push(self.public_key.to_node());
        fields.push(self.authorized.to_node());
        fields.push(self.index.to_node());
        proof {
            assert(fields.deep_view() =~= children_of(Self::node_of(self.deep_view())));
        }
        record_node(fields)
    }

    fn from_node(n: &Node) -> (r: Option<Reporter>) {
        let cs = match record_fields(n, 3) {
            Some(cs) => cs,
            None => {
                return None;
            },
        };
        assert(cs.deep_view()[0] == cs[0].deep_view());
        let public_key = match String::from_node(&cs[0]) {
            Some(v) => v,
            None => {
                return None;
            },
        };
        assert(cs.deep_view()[1] == cs[1].deep_view());
        let authorized = match bool::from_node(&cs[1]) {
            Some(v) => v,
            None => {
                return None;
            },
        };
        assert(cs.deep_view()[2] == cs[2].deep_view());
        let index = match u32::from_node(&cs[2]) {
            Some(v) => v,
            None => {
                return None;
            },
        };
        Some(Reporter { public_key, authorized, index })
    }
}

/// A property of one record.
#[derive(Clone, Debug, PartialEq, Eq)]
pub struct Property {
    pub name: String,
    pub record_id: String,
    pub data_type: DataType,
    pub reporters: Vec<Reporter>,
    /// The page that takes the next value, from 1 to 256.
    pub current_page: u32,
    /// Whether the ring of pages has come back to page 1.
    pub wrapped: bool,
    pub fixed: bool,
    pub number_exponent: i64,
    pub enum_options: Vec<String>,
    pub struct_properties: Vec<PropertySchema>,
    pub unit: String,
}

/// The mathematical value of a [`Property`].
pub struct PropertyModel {
    pub name: Seq<char>,
    pub record_id: Seq<char>,
    pub data_type: DataType,
    pub reporters: Seq<ReporterModel>,
    pub current_page: u32,
    pub wrapped: bool,
    pub fixed: bool,
    pub number_exponent: i64,
    pub enum_options: Seq<Seq<char>>,
    pub struct_properties: Seq<PropertySchemaModel>,
    pub unit: Seq<char>,
}

impl DeepView for Property {
    type V = PropertyModel;

    open spec fn deep_view(&self) -> PropertyModel {
        PropertyModel {
            name: self.name.deep_view(),
            record_id: self.record_id.deep_view(),
            data_type: self.data_type.deep_view(),
            reporters: self.reporters.deep_view(),
            current_page: self.current_page.deep_view(),
            wrapped: self.wrapped.deep_view(),
            fixed: self.fixed.deep_view(),
            number_exponent: self.number_exponent.deep_view(),
            enum_options: self.enum_options.deep_view(),
            struct_properties: self.struct_properties.deep_view(),
            unit: self.unit.deep_view(),
        }
    }
}

impl View for Property {
    type V = PropertyModel;

    open spec fn view(&self) -> PropertyModel {
        self.deep_view()
    }
}

impl Codec for Property {
    open spec fn node_of(m: PropertyModel) -> NodeModel {
        NodeModel::List(
            seq![
                String::node_of(m.name),
                String::node_of(m.record_id),
                DataType::node_of(m.data_type),
                <Vec<Reporter>>::node_of(m.reporters),
                u32::node_of(m.current_page),
                bool::node_of(m.wrapped),
                bool::node_of(m.fixed),
                i64::node_of(m.number_exponent),
                <Vec<String>>::node_of(m.enum_options),
                <Vec<PropertySchema>>::node_of(m.struct_properties),
                String::node_of(m.unit),
            ],
        )
    }

    open spec fn parse(n: NodeModel) -> Option<PropertyModel> {
        let cs = children_of(n);
        if is_record(n, 11)
            && String::parse(cs[0]) is Some
            && String::parse(cs[1]) is Some
            && DataType::parse(cs[2]) is Some
            && <Vec<Reporter>>::parse(cs[3]) is Some
            && u32::parse(cs[4]) is Some
            && bool::parse(cs[5]) is Some
            && bool::parse(cs[6]) is Some
            && i64::parse(cs[7]) is Some
            && <Vec<String>>::parse(cs[8]) is Some
            && <Vec<PropertySchema>>::parse(cs[9]) is Some
            && String::parse(cs[10]) is Some {
            Some(
                PropertyModel {
                    name: String::parse(cs[0])->Some_0,
                    record_id: String::parse(cs[1])->Some_0,
                    data_type: DataType::parse(cs[2])->Some_0,
                    reporters: <Vec<Reporter>>::parse(cs[3])->Some_0,
                    current_page: u32::parse(cs[4])->Some_0,
                    wrapped: bool::parse(cs[5])->Some_0,
                    fixed: bool::parse(cs[6])->Some_0,
                    number_exponent: i64::parse(cs[7])->Some_0,
                    enum_options: <Vec<String>>::parse(cs[8])->Some_0,
                    struct_properties: <Vec<PropertySchema>>::parse(cs[9])->Some_0,
                    unit: String::parse(cs[10])->Some_0,
                },
            )
        } else {
            None
        }
    }

    proof fn lemma_round_trip(m: PropertyModel) {
        String::lemma_round_trip(m.name);
        String::lemma_round_trip(m.record_id);
        DataType::lemma_round_trip(m.data_type);
        <Vec<Reporter>>::lemma_round_trip(m.reporters);
        u32::lemma_round_trip(m.current_page);
        bool::lemma_round_trip(m.wrapped);
        bool::lemma_round_trip(m.fixed);
        i64::lemma_round_trip(m.number_exponent);
        <Vec<String>>::lemma_round_trip(m.enum_options);
        <Vec<PropertySchema>>::lemma_round_trip(m.struct_properties);
        String::lemma_round_trip(m.unit);
    }

    fn to_node(&self) -> (n: Node) {
        let mut fields: Vec<Node> = Vec::new();
        fields.push(self.name.to_node());
        fields.push(self.record_id.to_node());
        fields.push(self.data_type.to_node());
        fields.push(self.reporters.to_node());
        fields.push(self.current_page.to_node());
        fields.push(self.wrapped.to_node());
        fields.push(self.fixed.to_node());
        fields.push(self.number_exponent.to_node());
        fields.push(self.enum_options.to_node());
        fields.push(self.struct_properties.to_node());
        fields.push(self.unit.to_node());
        proof {
            assert(fields.deep_view() =~= children_of(Self::node_of(self.deep_view())));
        }
        record_node(fields)
    }

    fn from_node(n: &Node) -> (r: Option<Property>) {
        let cs = match record_fields(n, 11) {
            Some(cs) => cs,
            None => {
                return None;
            },
        };
        assert(cs.deep_view()[0] == cs[0].deep_view());
        let name = match String::from_node(&cs[0]) {
            Some(v) => v,
            None => {
                return None;
            },
        };
        assert(cs.deep_view()[1] == cs[1].deep_view());
        let record_id = match String::from_node(&cs[1]) {
            Some(v) => v,
            None => {
                return None;
            },
        };
        assert(cs.deep_view()[2] == cs[2].deep_view());
        let data_type = match DataType::from_node(&cs[2]) {
            Some(v) => v,
            None => {
                return None;
            },
        };
        assert(cs.deep_view()[3] == cs[3].deep_view());
        let reporters = match <Vec<Reporter>>::from_node(&cs[3]) {
            Some(v) => v,
            None => {
                return None;
            },
        };
        assert(cs.deep_view()[4] == cs[4].deep_view());
        let current_page = match u32::from_node(&cs[4]) {
            Some(v) => v,
            None => {
                return None;
            },
        };
        assert(cs.deep_view()[5] == cs[5].deep_view());
        let wrapped = match bool::from_node(&cs[5]) {
            Some(v) => v,
            None => {
                return None;
            },
        };
        assert(cs.deep_view()[6] == cs[6].deep_view());
        let fixed = match bool::from_node(&cs[6]) {
            Some(v) => v,
            None => {
                return None;
            },
        };
        assert(cs.deep_view()[7] == cs[7].deep_view());
        let number_exponent = match i64::from_node(&cs[7]) {
            Some(v) => v,
            None => {
                return None;
            },
        };
        assert(cs.deep_view()[8] == cs[8].deep_view());
        let enum_options = match <Vec<String>>::from_node(&cs[8]) {
            Some(v) => v,
            None => {
                return None;
            },
        };
        assert(cs.deep_view()[9] == cs[9].deep_view());
        let struct_properties = match <Vec<PropertySchema>>::from_node(&cs[9]) {
            Some(v) => v,
            None => {
                return None;
            },
        };
        assert(cs.deep_view()[10] == cs[10].deep_view());
        let unit = match String::from_node(&cs[10]) {
            Some(v) => v,
            None => {
                return None;
            },
        };
        Some(
            Property {
                name,
                record_id,
                data_type,
                reporters,
                current_page,
                wrapped,
                fixed,
                number_exponent,
                enum_options,
                struct_properties,
                unit,
            }
        )
    }
}

/// A value as it is kept on a page.
#[derive(Clone, Debug, PartialEq, Eq)]
pub struct ReportedValue {
    pub reporter_index: u32,
    pub timestamp: u64,
    pub bytes_value: Vec<u8>,
    pub boolean_value: bool,
    pub number_value: i64,
    pub string_value: String,
    /// The position of the chosen option in the schema.
    pub enum_value: u32,
    pub struct_values: Vec<PropertyValue>,
    pub location_value: Location,
}

/// The mathematical value of a [`ReportedValue`].
pub struct ReportedValueModel {
    pub reporter_index: u32,
    pub timestamp: u64,
    pub bytes_value: Seq<u8>,
    pub boolean_value: bool,
    pub number_value: i64,
    pub string_value: Seq<char>,
    pub enum_value: u32,
    pub struct_values: Seq<PropertyValueModel>,
    pub location_value: LocationModel,
}

impl DeepView for ReportedValue {
    type V = ReportedValueModel;

    open spec fn deep_view(&self) -> ReportedValueModel {
        ReportedValueModel {
            reporter_index: self.reporter_index.deep_view(),
            timestamp: self.timestamp.deep_view(),
            bytes_value: self.bytes_value.deep_view(),
            boolean_value: self.boolean_value.deep_view(),
            number_value: self.number_value.deep_view(),
            string_value: self.string_value.deep_view(),
            enum_value: self.enum_value.deep_view(),
            struct_values: self.struct_values.deep_view(),
            location_value: self.location_value.deep_view(),
        }
    }
}

impl View for ReportedValue {
    type V = ReportedValueModel;

    open spec fn view(&self) -> ReportedValueModel {
        self.deep_view()
    }
}

impl Codec for ReportedValue {
    open spec fn node_of(m: ReportedValueModel) -> NodeModel {
        NodeModel::List(
            seq![
                u32::node_of(m.reporter_index),
                u64::node_of(m.timestamp),
                <Vec<u8>>::node_of(m.bytes_value),
                bool::node_of(m.boolean_value),
                i64::node_of(m.number_value),
                String::node_of(m.string_value),
                u32::node_of(m.enum_value),
                <Vec<PropertyValue>>::node_of(m.struct_values),
                Location::node_of(m.location_value),
            ],
        )
    }

    open spec fn parse(n: NodeModel) -> Option<ReportedValueModel> {
        let cs = children_of(n);
        if is_record(n, 9)
            && u32::parse(cs[0]) is Some
            && u64::parse(cs[1]) is Some
            && <Vec<u8>>::parse(cs[2]) is Some
            && bool::parse(cs[3]) is Some
            && i64::parse(cs[4]) is Some
            && String::parse(cs[5]) is Some
            && u32::parse(cs[6]) is Some
            && <Vec<PropertyValue>>::parse(cs[7]) is Some
            && Location::parse(cs[8]) is Some {
            Some(
                ReportedValueModel {
                    reporter_index: u32::parse(cs[0])->Some_0,
                    timestamp: u64::parse(cs[1])->Some_0,
                    bytes_value: <Vec<u8>>::parse(cs[2])->Some_0,
                    boolean_value: bool::parse(cs[3])->Some_0,
                    number_value: i64::parse(cs[4])->Some_0,
                    string_value: String::parse(cs[5])->Some_0,
                    enum_value: u32::parse(cs[6])->Some_0,
                    struct_values: <Vec<PropertyValue>>::parse(cs[7])->Some_0,
                    location_value: Location::parse(cs[8])->Some_0,
                },
            )
        } else {
            None
        }
    }

    proof fn lemma_round_trip(m: ReportedValueModel) {
        u32::lemma_round_trip(m.reporter_index);
        u64::lemma_round_trip(m.timestamp);
        <Vec<u8>>::lemma_round_trip(m.bytes_value);
        bool::lemma_round_trip(m.boolean_value);
        i64::lemma_round_trip(m.number_value);
        String::lemma_round_trip(m.string_value);
        u32::lemma_round_trip(m.enum_value);
        <Vec<PropertyValue>>::lemma_round_trip(m.struct_values);
        Location::lemma_round_trip(m.location_value);
    }

    fn to_node(&self) -> (n: Node) {
        let mut fields: Vec<Node> = Vec::new();
        fields.push(self.reporter_index.to_node());
        fields.push(self.timestamp.to_node());
        fields.push(self.bytes_value.to_node());
        fields.push(self.boolean_value.to_node());
        fields.push(self.number_value.to_node());
        fields.push(self.string_value.to_node());
        fields.push(self.enum_value.to_node());
        fields.push(self.struct_values.to_node());
        fields.push(self.location_value.to_node());
        proof {
            assert(fields.deep_view() =~= children_of(Self::node_of(self.deep_view())));
        }
        record_node(fields)
    }

    fn from_node(n: &Node) -> (r: Option<ReportedValue>) {
        let cs = match record_fields(n, 9) {
            Some(cs) => cs,
            None => {
                return None;
            },
        };
        assert(cs.deep_view()[0] == cs[0].deep_view());
        let reporter_index = match u32::from_node(&cs[0]) {
            Some(v) => v,
            None => {
                return None;
            },
        };
        assert(cs.deep_view()[1] == cs[1].deep_view());
        let timestamp = match u64::from_node(&cs[1]) {
            Some(v) => v,
            None => {
                return None;
            },
        };
        assert(cs.deep_view()[2] == cs[2].deep_view());
        let bytes_value = match <Vec<u8>>::from_node(&cs[2]) {
            Some(v) => v,
            None => {
                return None;
            },
        };
        assert(cs.deep_view()[3] == cs[3].deep_view());
        let boolean_value = match bool::from_node(&cs[3]) {
            Some(v) => v,
            None => {
                return None;
            },
        };
        assert(cs.deep_view()[4] == cs[4].deep_view());
        let number_value = match i64::from_node(&cs[4]) {
            Some(v) => v,
            None => {
                return None;
            },
        };
        assert(cs.deep_view()[5] == cs[5].deep_view());
        let string_value = match String::from_node(&cs[5]) {
            Some(v) => v,
            None => {
                return None;
            },
        };
        assert(cs.deep_view()[6] == cs[6].deep_view());
        let enum_value = match u32::from_node(&cs[6]) {
            Some(v) => v,
            None => {
                return None;
            },
        };
        assert(cs.deep_view()[7] == cs[7].deep_view());
        let struct_values = match <Vec<PropertyValue>>::from_node(&cs[7]) {
            Some(v) => v,
            None => {
                return None;
            },
        };
        assert(cs.deep_view()[8] == cs[8].deep_view());
        let location_value = match Location::from_node(&cs[8]) {
            Some(v) => v,
            None => {
                return None;
            },
        };
        Some(
            ReportedValue {
                reporter_index,
                timestamp,
                bytes_value,
                boolean_value,
                number_value,
                string_value,
                enum_value,
                struct_values,
                location_value,
            }
        )
    }
}

/// One page of reported values of a property.
#[derive(Clone, Debug, PartialEq, Eq)]
pub struct PropertyPage {
    pub name: String,
    pub record_id: String,
    /// Kept sorted by timestamp, then by reporter.
    pub reported_values: Vec<ReportedValue>,
}

/// The mathematical value of a [`PropertyPage`].
pub struct PropertyPageModel {
    pub name: Seq<char>,
    pub record_id: Seq<char>,
    pub reported_values: Seq<ReportedValueModel>,
}

impl DeepView for PropertyPage {
    type V = PropertyPageModel;

    open spec fn deep_view(&self) -> PropertyPageModel {
        PropertyPageModel {
            name: self.name.deep_view(),
            record_id: self.record_id.deep_view(),
            reported_values: self.reported_values.deep_view(),
        }
    }
}

impl View for PropertyPage {
    type V = PropertyPageModel;

    open spec fn view(&self) -> PropertyPageModel {
        self.deep_view()
    }
}

impl Codec for PropertyPage {
    open spec fn node_of(m: PropertyPageModel) -> NodeModel {
        NodeModel::List(
            seq![
                String::node_of(m.name),
                String::node_of(m.record_id),
                <Vec<ReportedValue>>::node_of(m.reported_values),
            ],
        )
    }

    open spec fn parse(n: NodeModel) -> Option<PropertyPageModel> {
        let cs = children_of(n);
        if is_record(n, 3)
            && String::parse(cs[0]) is Some
            && String::parse(cs[1]) is Some
            && <Vec<ReportedValue>>::parse(cs[2]) is Some {
            Some(
                PropertyPageModel {
                    name: String::parse(cs[0])->Some_0,
                    record_id: String::parse(cs[1])->Some_0,
                    reported_values: <Vec<ReportedValue>>::parse(cs[2])->Some_0,
                },
            )
        } else {
            None
        }
    }

    proof fn lemma_round_trip(m: PropertyPageModel) {
        String::lemma_round_trip(m.name);
        String::lemma_round_trip(m.record_id);
        <Vec<ReportedValue>>::lemma_round_trip(m.reported_values);
    }

    fn to_node(&self) -> (n: Node) {
        let mut fields: Vec<Node> = Vec::new();
        fields.push(self.name.to_node());
        fields.push(self.record_id.to_node());
        fields.push(self.reported_values.to_node());
        proof {
            assert(fields.deep_view() =~= children_of(Self::node_of(self.deep_view())));
        }
        record_node(fields)
    }

    fn from_node(n: &Node) -> (r: Option<PropertyPage>) {
        let cs = match record_fields(n, 3) {
            Some(cs) => cs,
            None => {
                return None;
            },
        };
        assert(cs.deep_view()[0] == cs[0].deep_view());
        let name = match String::from_node(&cs[0]) {
            Some(v) => v,
            None => {
                return None;
            },
        };
        assert(cs.deep_view()[1] == cs[1].deep_view());
        let record_id = match String::from_node(&cs[1]) {
            Some(v) => v,
            None => {
                return None;
            },
        };
        assert(cs.deep_view()[2] == cs[2].deep_view());
        let reported_values = match <Vec<ReportedValue>>::from_node(&cs[2]) {
            Some(v) => v,
            None => {
                return None;
            },
        };
        Some(PropertyPage { name, record_id, reported_values })
    }
}

impl Ordered for Property {
    open spec fn le(a: PropertyModel, b: PropertyModel) -> bool {
        key_le((a.record_id, a.name), (b.record_id, b.name))
    }

    proof fn lemma_le_total(a: PropertyModel, b: PropertyModel) {
        lemma_key_le_total((a.record_id, a.name), (b.record_id, b.name));
    }

    proof fn lemma_le_transitive(a: PropertyModel, b: PropertyModel, c: PropertyModel) {
        lemma_key_le_transitive(
            (a.record_id, a.name),
            (b.record_id, b.name),
            (c.record_id, c.name),
        );
    }

    fn le_exec(&self, other: &Self) -> (r: bool) {
        key_le_exec(
            self.record_id.as_str(),
            self.name.as_str(),
            other.record_id.as_str(),
            other.name.as_str(),
        )
    }
}

impl Keyed for Property {
    open spec fn key(m: PropertyModel) -> Key {
        (m.record_id, m.name)
    }

    open spec fn kind() -> Seq<char> {
        "property"@
    }

    open spec fn tag() -> u64 {
        4
    }

    open spec fn valid(m: PropertyModel) -> bool {
        1 <= m.current_page <= 256 && m.reporters.len() >= 1
    }

    proof fn lemma_ordered_by_key(a: PropertyModel, b: PropertyModel) {
    }

    fn has_key(&self, first: &str, second: &str) -> (r: bool) {
        text_eq(self.record_id.as_str(), first) && text_eq(self.name.as_str(), second)
    }

    fn kind_name() -> (r: &'static str) {
        "property"
    }

    fn tag_number() -> (r: u64) {
        4
    }
}

impl Ordered for PropertyPage {
    open spec fn le(a: PropertyPageModel, b: PropertyPageModel) -> bool {
        key_le((a.record_id, a.name), (b.record_id, b.name))
    }

    proof fn lemma_le_total(a: PropertyPageModel, b: PropertyPageModel) {
        lemma_key_le_total((a.record_id, a.name), (b.record_id, b.name));
    }

    proof fn lemma_le_transitive(a: PropertyPageModel, b: PropertyPageModel, c: PropertyPageModel) {
        lemma_key_le_transitive(
            (a.record_id, a.name),
            (b.record_id, b.name),
            (c.record_id, c.name),
        );
    }

    fn le_exec(&self, other: &Self) -> (r: bool) {
        key_le_exec(
            self.record_id.as_str(),
            self.name.as_str(),
            other.record_id.as_str(),
            other.name.as_str(),
        )
    }
}

impl Keyed for PropertyPage {
    open spec fn key(m: PropertyPageModel) -> Key {
        (m.record_id, m.name)
    }

    open spec fn kind() -> Seq<char> {
        "property page"@
    }

    open spec fn tag() -> u64 {
        5
    }

    open spec fn valid(m: PropertyPageModel) -> bool {
        sorted::<ReportedValue>(m.reported_values)
    }

    proof fn lemma_ordered_by_key(a: PropertyPageModel, b: PropertyPageModel) {
    }

    fn has_key(&self, first: &str, second: &str) -> (r: bool) {
        text_eq(self.record_id.as_str(), first) && text_eq(self.name.as_str(), second)
    }

    fn kind_name() -> (r: &'static str) {
        "property page"
    }

    fn tag_number() -> (r: u64) {
        5
    }
}

/// Reported values are ordered by timestamp and, at equal timestamps, by the
/// index of the reporter.
impl Ordered for ReportedValue {
    open spec fn le(a: ReportedValueModel, b: ReportedValueModel) -> bool {
        a.timestamp < b.timestamp || (a.timestamp == b.timestamp && a.reporter_index
            <= b.reporter_index)
    }

    proof fn lemma_le_total(a: ReportedValueModel, b: ReportedValueModel) {
    }

    proof fn lemma_le_transitive(
        a: ReportedValueModel,
        b: ReportedValueModel,
        c: ReportedValueModel,
    ) {
    }

    fn le_exec(&self, other: &Self) -> (r: bool) {
        self.timestamp < other.timestamp || (self.timestamp == other.timestamp
            && self.reporter_index <= other.reporter_index)
    }
}
} // verus!
