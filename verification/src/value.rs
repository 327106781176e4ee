//! Property values as a transaction gives them.
//!
//! A value names its property and its type, and fills the one field that
//! belongs to that type; a struct value holds its members as values again.

use crate::codec::{children_of, copy_of, is_record, record_fields, record_node, Codec};
use crate::schema::DataType;
use crate::wire::{lemma_list_model, Node, NodeModel};
use vstd::prelude::*;

verus! {

/// A position, in millionths of a degree.
#[derive(Clone, Debug, PartialEq, Eq)]
pub struct Location {
    pub latitude: i64,
    pub longitude: i64,
}

/// The mathematical value of a [`Location`].
pub struct LocationModel {
    pub latitude: i64,
    pub longitude: i64,
}

impl DeepView for Location {
    type V = LocationModel;

    open spec fn deep_view(&self) -> LocationModel {
        LocationModel {
            latitude: self.latitude.deep_view(),
            longitude: self.longitude.deep_view(),
        }
    }
}

impl View for Location {
    type V = LocationModel;

    open spec fn view(&self) -> LocationModel {
        self.deep_view()
    }
}

impl Codec for Location {
    open spec fn node_of(m: LocationModel) -> NodeModel {
        NodeModel::List(
            seq![
                i64::node_of(m.latitude),
                i64::node_of(m.longitude),
            ],
        )
    }

    open spec fn parse(n: NodeModel) -> Option<LocationModel> {
        let cs = children_of(n);
        if is_record(n, 2)
            && i64::parse(cs[0]) is Some
            && i64::parse(cs[1]) is Some {
            Some(
                LocationModel {
                    latitude: i64::parse(cs[0])->Some_0,
                    longitude: i64::parse(cs[1])->Some_0,
                },
            )
        } else {
            None
        }
    }

    proof fn lemma_round_trip(m: LocationModel) {
        i64::lemma_round_trip(m.latitude);
        i64::lemma_round_trip(m.longitude);
    }

    fn to_node(&self) -> (n: Node) {
        let mut fields: Vec<Node> = Vec::new();
        fields.push(self.latitude.to_node());
        fields.push(self.longitude.to_node());
        proof {
            assert(fields.deep_view() =~= children_of(Self::node_of(self.deep_view())));
        }
        record_node(fields)
    }

    fn from_node(n: &Node) -> (r: Option<Location>) {
        let cs = match record_fields(n, 2) {
            Some(cs) => cs,
            None => {
                return None;
            },
        };
        assert(cs.deep_view()[0] == cs[0].deep_view());
        let latitude = match i64::from_node(&cs[0]) {
            Some(v) => v,
            None => {
                return None;
            },
        };
        assert(cs.deep_view()[1] == cs[1].deep_view());
        let longitude = match i64::from_node(&cs[1]) {
            Some(v) => v,
            None => {
                return None;
            },
        };
        Some(Location { latitude, longitude })
    }
}

/// A value given for a property.
#[derive(Debug, PartialEq, Eq)]
pub struct PropertyValue {
    /// The property the value is for.
    pub name: String,
    pub data_type: DataType,
    pub bytes_value: Vec<u8>,
    pub boolean_value: bool,
    pub number_value: i64,
    pub string_value: String,
    /// The name of the chosen option.
    pub enum_value: String,
    /// The members of a struct value.
    pub struct_values: Vec<PropertyValue>,
    pub location_value: Location,
}

/// The mathematical value of a [`PropertyValue`].
pub struct PropertyValueModel {
    pub name: Seq<char>,
    pub data_type: DataType,
    pub bytes_value: Seq<u8>,
    pub boolean_value: bool,
    pub number_value: i64,
    pub string_value: Seq<char>,
    pub enum_value: Seq<char>,
    pub struct_values: Seq<PropertyValueModel>,
    pub location_value: LocationModel,
}

/// The model of a value: the same tree over sequences.
pub open spec fn value_model(s: PropertyValue) -> PropertyValueModel
    decreases s,
{
    PropertyValueModel {
        name: s.name.deep_view(),
        data_type: s.data_type.deep_view(),
        bytes_value: s.bytes_value.deep_view(),
        boolean_value: s.boolean_value.deep_view(),
        number_value: s.number_value.deep_view(),
        string_value: s.string_value.deep_view(),
        enum_value: s.enum_value.deep_view(),
        struct_values: Seq::new(
            s.struct_values.len() as nat,
            |i: int|
                if 0 <= i < s.struct_values.len() {
                    value_model(s.struct_values[i])
                } else {
                    arbitrary()
                },
        ),
        location_value: s.location_value.deep_view(),
    }
}

impl DeepView for PropertyValue {
    type V = PropertyValueModel;

    open spec fn deep_view(&self) -> PropertyValueModel {
        value_model(*self)
    }
}

impl View for PropertyValue {
    type V = PropertyValueModel;

    open spec fn view(&self) -> PropertyValueModel {
        self.deep_view()
    }
}

/// The members of a value are modelled one by one.
pub proof fn lemma_value_members(s: PropertyValue)
    ensures
        s.deep_view().struct_values == s.struct_values.deep_view(),
{
    assert(s.deep_view().struct_values =~= s.struct_values.deep_view());
}

/// The tree that stands for a value.
pub open spec fn value_node(m: PropertyValueModel) -> NodeModel
    decreases m,
{
    NodeModel::List(
        seq![
            String::node_of(m.name),
            DataType::node_of(m.data_type),
            <Vec<u8>>::node_of(m.bytes_value),
            bool::node_of(m.boolean_value),
            i64::node_of(m.number_value),
            String::node_of(m.string_value),
            String::node_of(m.enum_value),
            NodeModel::List(
                Seq::new(
                    m.struct_values.len(),
                    |i: int|
                        if 0 <= i < m.struct_values.len() {
                            value_node(m.struct_values[i])
                        } else {
                            arbitrary()
                        },
                ),
            ),
            Location::node_of(m.location_value),
        ],
    )
}

/// The value that a tree stands for, if it stands for one.
pub open spec fn value_parse(n: NodeModel) -> Option<PropertyValueModel>
    decreases n,
{
    match n {
        NodeModel::List(cs) => {
            if cs.len() == 9
                && String::parse(cs[0]) is Some
                && DataType::parse(cs[1]) is Some
                && <Vec<u8>>::parse(cs[2]) is Some
                && bool::parse(cs[3]) is Some
                && i64::parse(cs[4]) is Some
                && String::parse(cs[5]) is Some
                && String::parse(cs[6]) is Some
                && Location::parse(cs[8]) is Some {
                match cs[7] {
                    NodeModel::List(ds) => {
                        if forall|i: int| 0 <= i < ds.len() ==> value_parse(
                            #[trigger] ds[i]
                        ) is Some {
                            Some(
                                PropertyValueModel {
                                    name: String::parse(cs[0])->Some_0,
                                    data_type: DataType::parse(cs[1])->Some_0,
                                    bytes_value: <Vec<u8>>::parse(cs[2])->Some_0,
                                    boolean_value: bool::parse(cs[3])->Some_0,
                                    number_value: i64::parse(cs[4])->Some_0,
                                    string_value: String::parse(cs[5])->Some_0,
                                    enum_value: String::parse(cs[6])->Some_0,
                                    struct_values: Seq::new(
                                        ds.len(),
                                        |i: int|
                                            if 0 <= i < ds.len() {
                                                value_parse(ds[i])->Some_0
                                            } else {
                                                arbitrary()
                                            },
                                    ),
                                    location_value: Location::parse(cs[8])->Some_0,
                                },
                            )
                        } else {
                            None
                        }
                    },
                    NodeModel::Leaf(_) => None,
                }
            } else {
                None
            }
        },
        NodeModel::Leaf(_) => None,
    }
}

/// Reading a written value gives it back.
pub proof fn lemma_value_round_trip(m: PropertyValueModel)
    ensures
        value_parse(value_node(m)) == Some(m),
    decreases m,
{
    String::lemma_round_trip(m.name);
    DataType::lemma_round_trip(m.data_type);
    <Vec<u8>>::lemma_round_trip(m.bytes_value);
    bool::lemma_round_trip(m.boolean_value);
    i64::lemma_round_trip(m.number_value);
    String::lemma_round_trip(m.string_value);
    String::lemma_round_trip(m.enum_value);
    Location::lemma_round_trip(m.location_value);
    let n = value_node(m);
    let ds = children_of(children_of(n)[7]);
    assert(ds.len() == m.struct_values.len());
    assert forall|i: int| 0 <= i < ds.len() implies value_parse(#[trigger] ds[i]) == Some(
        m.struct_values[i],
    ) by {
        lemma_value_round_trip(m.struct_values[i]);
    }
    let cs = children_of(n);
    assert(n is List);
    assert(cs.len() == 9);
    assert(String::parse(cs[0]) is Some);
    assert(DataType::parse(cs[1]) is Some);
    assert(<Vec<u8>>::parse(cs[2]) is Some);
    assert(bool::parse(cs[3]) is Some);
    assert(i64::parse(cs[4]) is Some);
    assert(String::parse(cs[5]) is Some);
    assert(String::parse(cs[6]) is Some);
    assert(Location::parse(cs[8]) is Some);
    assert(cs[7] == NodeModel::List(ds));
    assert(value_parse(n) is Some);
    assert(value_parse(n)->Some_0.struct_values =~= m.struct_values);
}

/// Builds the tree of a value.
pub fn value_to_node(s: &PropertyValue) -> (n: Node)
    ensures
        n.deep_view() == value_node(s.deep_view()),
    decreases s,
{
    let mut members: Vec<Node> = Vec::new();
    let mut i: usize = 0;
    while i < s.struct_values.len()
        invariant
            i <= s.struct_values.len(),
            members.len() == i,
            forall|j: int|
                0 <= j < i ==> (#[trigger] members[j]).deep_view() == value_node(
                    s.struct_values[j].deep_view(),
                ),
        decreases s.struct_values.len() - i,
    {
        let member = value_to_node(&s.struct_values[i]);
        members.push(member);
        i = i + 1;
    }
    proof {
        assert(members.deep_view() =~= children_of(
            children_of(value_node(s.deep_view()))[7],
        ));
    }
    let mut fields: Vec<Node> = Vec::new();
    fields.push(s.name.to_node());
    fields.push(s.data_type.to_node());
    fields.push(s.bytes_value.to_node());
    fields.push(s.boolean_value.to_node());
    fields.push(s.number_value.to_node());
    fields.push(s.string_value.to_node());
    fields.push(s.enum_value.to_node());
    fields.push(record_node(members));
    fields.push(s.location_value.to_node());
    proof {
        assert(fields.deep_view() =~= children_of(value_node(s.deep_view())));
    }
    record_node(fields)
}

/// Reads a value from its tree.
pub fn value_from_node(n: &Node) -> (r: Option<PropertyValue>)
    ensures
        r.deep_view() == value_parse(n.deep_view()),
    decreases n,
{
    let cs = match n {
        Node::List(cs) => cs,
        Node::Leaf(_) => {
            return None;
        },
    };
    proof {
        lemma_list_model(*cs);
    }
    if cs.len() != 9 {
        return None;
    }
    assert(cs.deep_view()[0] == cs[0].deep_view());
    let name = match String::from_node(&cs[0]) {
        Some(v) => v,
        None => {
            return None;
        },
    };
    assert(cs.deep_view()[1] == cs[1].deep_view());
    let data_type = match DataType::from_node(&cs[1]) {
        Some(v) => v,
        None => {
            return None;
        },
    };
    assert(cs.deep_view()[2] == cs[2].deep_view());
    let bytes_value = match <Vec<u8>>::from_node(&cs[2]) {
        Some(v) => v,
        None => {
            return None;
        },
    };
    assert(cs.deep_view()[3] == cs[3].deep_view());
    let boolean_value = match bool::from_node(&cs[3]) {
        Some(v) => v,
        None => {
            return None;
        },
    };
    assert(cs.deep_view()[4] == cs[4].deep_view());
    let number_value = match i64::from_node(&cs[4]) {
        Some(v) => v,
        None => {
            return None;
        },
    };
    assert(cs.deep_view()[5] == cs[5].deep_view());
    let string_value = match String::from_node(&cs[5]) {
        Some(v) => v,
        None => {
            return None;
        },
    };
    assert(cs.deep_view()[6] == cs[6].deep_view());
    let enum_value = match String::from_node(&cs[6]) {
        Some(v) => v,
        None => {
            return None;
        },
    };
    assert(cs.deep_view()[8] == cs[8].deep_view());
    let location_value = match Location::from_node(&cs[8]) {
        Some(v) => v,
        None => {
            return None;
        },
    };
    assert(cs.deep_view()[7] == cs[7].deep_view());
    let ds = match &cs[7] {
        Node::List(ds) => ds,
        Node::Leaf(_) => {
            return None;
        },
    };
    proof {
        lemma_list_model(*ds);
    }
    let mut struct_values: Vec<PropertyValue> = Vec::new();
    let mut i: usize = 0;
    while i < ds.len()
        invariant
            i <= ds.len(),
            struct_values.len() == i,
            decreases_to!(n => ds),
            n.deep_view() == NodeModel::List(cs.deep_view()),
            cs.len() == 9,
            cs.deep_view().len() == 9,
            cs.deep_view()[7] == NodeModel::List(ds.deep_view()),
            String::parse(cs.deep_view()[0]) == Some(name.deep_view()),
            DataType::parse(cs.deep_view()[1]) == Some(data_type.deep_view()),
            <Vec<u8>>::parse(cs.deep_view()[2]) == Some(bytes_value.deep_view()),
            bool::parse(cs.deep_view()[3]) == Some(boolean_value.deep_view()),
            i64::parse(cs.deep_view()[4]) == Some(number_value.deep_view()),
            String::parse(cs.deep_view()[5]) == Some(string_value.deep_view()),
            String::parse(cs.deep_view()[6]) == Some(enum_value.deep_view()),
            Location::parse(cs.deep_view()[8]) == Some(location_value.deep_view()),
            forall|j: int|
                0 <= j < i ==> value_parse(#[trigger] ds.deep_view()[j]) == Some(
                    struct_values[j].deep_view(),
                ),
        decreases ds.len() - i,
    {
        match value_from_node(&ds[i]) {
            Some(member) => {
                struct_values.push(member);
            },
            None => {
                assert(value_parse(ds.deep_view()[i as int]) is None);
                let ghost nm = n.deep_view();
                let ghost cm = cs.deep_view();
                let ghost dm = ds.deep_view();
                assert(nm == NodeModel::List(cm));
                assert(cm.len() == 9);
                assert(cm[7] == NodeModel::List(dm));
                assert(0 <= i < dm.len());
                assert(!(forall|j: int|
                    0 <= j < dm.len() ==> value_parse(#[trigger] dm[j]) is Some));
                assert(value_parse(nm) is None);
                return None;
            },
        }
        i = i + 1;
    }
    let value = PropertyValue {
        name,
        data_type,
        bytes_value,
        boolean_value,
        number_value,
        string_value,
        enum_value,
        struct_values,
        location_value,
    };
    proof {
        lemma_value_members(value);
        assert(
            value.struct_values.deep_view() =~= value_parse(n.deep_view())->Some_0.struct_values
        );
    }
    Some(value)
}

impl Clone for PropertyValue {
    fn clone(&self) -> (r: Self)
        ensures
            r@ == self@,
    {
        copy_of(self)
    }
}

impl Codec for PropertyValue {
    open spec fn node_of(m: PropertyValueModel) -> NodeModel {
        value_node(m)
    }

    open spec fn parse(n: NodeModel) -> Option<PropertyValueModel> {
        value_parse(n)
    }

    proof fn lemma_round_trip(m: PropertyValueModel) {
        lemma_value_round_trip(m);
    }

    fn to_node(&self) -> (n: Node) {
        value_to_node(self)
    }

    fn from_node(n: &Node) -> (r: Option<PropertyValue>) {
        value_from_node(n)
    }
}
} // verus!
