//! Table schemas: the properties a record of a table has, and their types.

use crate::codec::{children_of, copy_of, record_node, Codec};
use crate::wire::{lemma_list_model, Node, NodeModel};
use vstd::prelude::*;

verus! {

/// The type of a property value.
#[derive(Clone, Copy, Debug, PartialEq, Eq, Structural)]
pub enum DataType {
    /// No type was given; never valid for a value.
    TypeUnset,
    Bytes,
    Boolean,
    /// A signed integer, scaled by the exponent of its schema.
    Number,
    Text,
    /// One of the named options of the schema.
    Enum,
    /// Named members, each with a schema of its own.
    Struct,
    Location,
}

impl DeepView for DataType {
    type V = DataType;

    open spec fn deep_view(&self) -> DataType {
        *self
    }
}

impl View for DataType {
    type V = DataType;

    open spec fn view(&self) -> DataType {
        *self
    }
}

impl DataType {
    /// The number under which a variant is stored.
    pub open spec fn tag(self) -> u64 {
        match self {
            DataType::TypeUnset => 0,
            DataType::Bytes => 1,
            DataType::Boolean => 2,
            DataType::Number => 3,
            DataType::Text => 4,
            DataType::Enum => 5,
            DataType::Struct => 6,
            DataType::Location => 7,
        }
    }

    /// The variant stored under a number.
    pub open spec fn of_tag(t: u64) -> Option<DataType> {
        if t == 0 {
            Some(DataType::TypeUnset)
        } else if t == 1 {
            Some(DataType::Bytes)
        } else if t == 2 {
            Some(DataType::Boolean)
        } else if t == 3 {
            Some(DataType::Number)
        } else if t == 4 {
            Some(DataType::Text)
        } else if t == 5 {
            Some(DataType::Enum)
        } else if t == 6 {
            Some(DataType::Struct)
        } else if t == 7 {
            Some(DataType::Location)
        } else {
            None
        }
    }
}

impl Codec for DataType {
    open spec fn node_of(m: DataType) -> NodeModel {
        u64::node_of(m.tag())
    }

    open spec fn parse(n: NodeModel) -> Option<DataType> {
        match u64::parse(n) {
            Some(t) => DataType::of_tag(t),
            None => None,
        }
    }

    proof fn lemma_round_trip(m: DataType) {
        u64::lemma_round_trip(m.tag());
    }

    fn to_node(&self) -> (n: Node) {
        let t: u64 = match self {
            DataType::TypeUnset => 0,
            DataType::Bytes => 1,
            DataType::Boolean => 2,
            DataType::Number => 3,
            DataType::Text => 4,
            DataType::Enum => 5,
            DataType::Struct => 6,
            DataType::Location => 7,
        };
        t.to_node()
    }

    fn from_node(n: &Node) -> (r: Option<DataType>) {
        match u64::from_node(n) {
            Some(t) => {
                if t == 0 {
                    Some(DataType::TypeUnset)
                } else if t == 1 {
                    Some(DataType::Bytes)
                } else if t == 2 {
                    Some(DataType::Boolean)
                } else if t == 3 {
                    Some(DataType::Number)
                } else if t == 4 {
                    Some(DataType::Text)
                } else if t == 5 {
                    Some(DataType::Enum)
                } else if t == 6 {
                    Some(DataType::Struct)
                } else if t == 7 {
                    Some(DataType::Location)
                } else {
                    None
                }
            },
            None => None,
        }
    }
}

/// What a table says of one property.
#[derive(Debug, PartialEq, Eq)]
pub struct PropertySchema {
    pub name: String,
    pub data_type: DataType,
    /// Whether a record must give a value at creation.
    pub required: bool,
    /// Whether the value can never be updated.
    pub fixed: bool,
    /// Whether no value may be given at creation.
    pub delayed: bool,
    pub number_exponent: i64,
    pub enum_options: Vec<String>,
    /// The members of a struct, in order.
    pub struct_properties: Vec<PropertySchema>,
    pub unit: String,
}

/// The mathematical value of a [`PropertySchema`].
pub struct PropertySchemaModel {
    pub name: Seq<char>,
    pub data_type: DataType,
    pub required: bool,
    pub fixed: bool,
    pub delayed: bool,
    pub number_exponent: i64,
    pub enum_options: Seq<Seq<char>>,
    pub struct_properties: Seq<PropertySchemaModel>,
    pub unit: Seq<char>,
}

/// The model of a value: the same tree over sequences.
pub open spec fn schema_model(s: PropertySchema) -> PropertySchemaModel
    decreases s,
{
    PropertySchemaModel {
        name: s.name.deep_view(),
        data_type: s.data_type.deep_view(),
        required: s.required.deep_view(),
        fixed: s.fixed.deep_view(),
        delayed: s.delayed.deep_view(),
        number_exponent: s.number_exponent.deep_view(),
        enum_options: s.enum_options.deep_view(),
        struct_properties: Seq::new(
            s.struct_properties.len() as nat,
            |i: int|
                if 0 <= i < s.struct_properties.len() {
                    schema_model(s.struct_properties[i])
                } else {
                    arbitrary()
                },
        ),
        unit: s.unit.deep_view(),
    }
}

impl DeepView for PropertySchema {
    type V = PropertySchemaModel;

    open spec fn deep_view(&self) -> PropertySchemaModel {
        schema_model(*self)
    }
}

impl View for PropertySchema {
    type V = PropertySchemaModel;

    open spec fn view(&self) -> PropertySchemaModel {
        self.deep_view()
    }
}

/// The members of a value are modelled one by one.
pub proof fn lemma_schema_members(s: PropertySchema)
    ensures
        s.deep_view().struct_properties == s.struct_properties.deep_view(),
{
    assert(s.deep_view().struct_properties =~= s.struct_properties.deep_view());
}

/// The tree that stands for a value.
pub open spec fn schema_node(m: PropertySchemaModel) -> NodeModel
    decreases m,
{
    NodeModel::List(
        seq![
            String::node_of(m.name),
            DataType::node_of(m.data_type),
            bool::node_of(m.required),
            bool::node_of(m.fixed),
            bool::node_of(m.delayed),
            i64::node_of(m.number_exponent),
            <Vec<String>>::node_of(m.enum_options),
            NodeModel::List(
                Seq::new(
                    m.struct_properties.len(),
                    |i: int|
                        if 0 <= i < m.struct_properties.len() {
                            schema_node(m.struct_properties[i])
                        } else {
                            arbitrary()
                        },
                ),
            ),
            String::node_of(m.unit),
        ],
    )
}

/// The value that a tree stands for, if it stands for one.
pub open spec fn schema_parse(n: NodeModel) -> Option<PropertySchemaModel>
    decreases n,
{
    match n {
        NodeModel::List(cs) => {
            if cs.len() == 9
                && String::parse(cs[0]) is Some
                && DataType::parse(cs[1]) is Some
                && bool::parse(cs[2]) is Some
                && bool::parse(cs[3]) is Some
                && bool::parse(cs[4]) is Some
                && i64::parse(cs[5]) is Some
                && <Vec<String>>::parse(cs[6]) is Some
                && String::parse(cs[8]) is Some {
                match cs[7] {
                    NodeModel::List(ds) => {
                        if forall|i: int| 0 <= i < ds.len() ==> schema_parse(
                            #[trigger] ds[i]
                        ) is Some {
                            Some(
                                PropertySchemaModel {
                                    name: String::parse(cs[0])->Some_0,
                                    data_type: DataType::parse(cs[1])->Some_0,
                                    required: bool::parse(cs[2])->Some_0,
                                    fixed: bool::parse(cs[3])->Some_0,
                                    delayed: bool::parse(cs[4])->Some_0,
                                    number_exponent: i64::parse(cs[5])->Some_0,
                                    enum_options: <Vec<String>>::parse(cs[6])->Some_0,
                                    struct_properties: Seq::new(
                                        ds.len(),
                                        |i: int|
                                            if 0 <= i < ds.len() {
                                                schema_parse(ds[i])->Some_0
                                            } else {
                                                arbitrary()
                                            },
                                    ),
                                    unit: String::parse(cs[8])->Some_0,
                                },
                            )
                        } else {
                            None
                        }
                    },
                    NodeModel::Leaf(_) => None,
                }
            } else {
                None
            }
        },
        NodeModel::Leaf(_) => None,
    }
}

/// Reading a written value gives it back.
pub proof fn lemma_schema_round_trip(m: PropertySchemaModel)
    ensures
        schema_parse(schema_node(m)) == Some(m),
    decreases m,
{
    String::lemma_round_trip(m.name);
    DataType::lemma_round_trip(m.data_type);
    bool::lemma_round_trip(m.required);
    bool::lemma_round_trip(m.fixed);
    bool::lemma_round_trip(m.delayed);
    i64::lemma_round_trip(m.number_exponent);
    <Vec<String>>::lemma_round_trip(m.enum_options);
    String::lemma_round_trip(m.unit);
    let n = schema_node(m);
    let ds = children_of(children_of(n)[7]);
    assert(ds.len() == m.struct_properties.len());
    assert forall|i: int| 0 <= i < ds.len() implies schema_parse(#[trigger] ds[i]) == Some(
        m.struct_properties[i],
    ) by {
        lemma_schema_round_trip(m.struct_properties[i]);
    }
    let cs = children_of(n);
    assert(n is List);
    assert(cs.len() == 9);
    assert(String::parse(cs[0]) is Some);
    assert(DataType::parse(cs[1]) is Some);
    assert(bool::parse(cs[2]) is Some);
    assert(bool::parse(cs[3]) is Some);
    assert(bool::parse(cs[4]) is Some);
    assert(i64::parse(cs[5]) is Some);
    assert(<Vec<String>>::parse(cs[6]) is Some);
    assert(String::parse(cs[8]) is Some);
    assert(cs[7] == NodeModel::List(ds));
    assert(schema_parse(n) is Some);
    assert(schema_parse(n)->Some_0.struct_properties =~= m.struct_properties);
}

/// Builds the tree of a value.
pub fn schema_to_node(s: &PropertySchema) -> (n: Node)
    ensures
        n.deep_view() == schema_node(s.deep_view()),
    decreases s,
{
    let mut members: Vec<Node> = Vec::new();
    let mut i: usize = 0;
    while i < s.struct_properties.len()
        invariant
            i <= s.struct_properties.len(),
            members.len() == i,
            forall|j: int|
                0 <= j < i ==> (#[trigger] members[j]).deep_view() == schema_node(
                    s.struct_properties[j].deep_view(),
                ),
        decreases s.struct_properties.len() - i,
    {
        let member = schema_to_node(&s.struct_properties[i]);
        members.push(member);
        i = i + 1;
    }
    proof {
        assert(members.deep_view() =~= children_of(
            children_of(schema_node(s.deep_view()))[7],
        ));
    }
    let mut fields: Vec<Node> = Vec::new();
    fields.push(s.name.to_node());
    fields.push(s.data_type.to_node());
    fields.push(s.required.to_node());
    fields.push(s.fixed.to_node());
    fields.push(s.delayed.to_node());
    fields.push(s.number_exponent.to_node());
    fields.push(s.enum_options.to_node());
    fields.push(record_node(members));
    fields.push(s.unit.to_node());
    proof {
        assert(fields.deep_view() =~= children_of(schema_node(s.deep_view())));
    }
    record_node(fields)
}

/// Reads a value from its tree.
pub fn schema_from_node(n: &Node) -> (r: Option<PropertySchema>)
    ensures
        r.deep_view() == schema_parse(n.deep_view()),
    decreases n,
{
    let cs = match n {
        Node::List(cs) => cs,
        Node::Leaf(_) => {
            return None;
        },
    };
    proof {
        lemma_list_model(*cs);
    }
    if cs.len() != 9 {
        return None;
    }
    assert(cs.deep_view()[0] == cs[0].deep_view());
    let name = match String::from_node(&cs[0]) {
        Some(v) => v,
        None => {
            return None;
        },
    };
    assert(cs.deep_view()[1] == cs[1].deep_view());
    let data_type = match DataType::from_node(&cs[1]) {
        Some(v) => v,
        None => {
            return None;
        },
    };
    assert(cs.deep_view()[2] == cs[2].deep_view());
    let required = match bool::from_node(&cs[2]) {
        Some(v) => v,
        None => {
            return None;
        },
    };
    assert(cs.deep_view()[3] == cs[3].deep_view());
    let fixed = match bool::from_node(&cs[3]) {
        Some(v) => v,
        None => {
            return None;
        },
    };
    assert(cs.deep_view()[4] == cs[4].deep_view());
    let delayed = match bool::from_node(&cs[4]) {
        Some(v) => v,
        None => {
            return None;
        },
    };
    assert(cs.deep_view()[5] == cs[5].deep_view());
    let number_exponent = match i64::from_node(&cs[5]) {
        Some(v) => v,
        None => {
            return None;
        },
    };
    assert(cs.deep_view()[6] == cs[6].deep_view());
    let enum_options = match <Vec<String>>::from_node(&cs[6]) {
        Some(v) => v,
        None => {
            return None;
        },
    };
    assert(cs.deep_view()[8] == cs[8].deep_view());
    let unit = match String::from_node(&cs[8]) {
        Some(v) => v,
        None => {
            return None;
        },
    };
    assert(cs.deep_view()[7] == cs[7].deep_view());
    let ds = match &cs[7] {
        Node::List(ds) => ds,
        Node::Leaf(_) => {
            return None;
        },
    };
    proof {
        lemma_list_model(*ds);
    }
    let mut struct_properties: Vec<PropertySchema> = Vec::new();
    let mut i: usize = 0;
    while i < ds.len()
        invariant
            i <= ds.len(),
            struct_properties.len() == i,
            decreases_to!(n => ds),
            n.deep_view() == NodeModel::List(cs.deep_view()),
            cs.len() == 9,
            cs.deep_view().len() == 9,
            cs.deep_view()[7] == NodeModel::List(ds.deep_view()),
            String::parse(cs.deep_view()[0]) == Some(name.deep_view()),
            DataType::parse(cs.deep_view()[1]) == Some(data_type.deep_view()),
            bool::parse(cs.deep_view()[2]) == Some(required.deep_view()),
            bool::parse(cs.deep_view()[3]) == Some(fixed.deep_view()),
            bool::parse(cs.deep_view()[4]) == Some(delayed.deep_view()),
            i64::parse(cs.deep_view()[5]) == Some(number_exponent.deep_view()),
            <Vec<String>>::parse(cs.deep_view()[6]) == Some(enum_options.deep_view()),
            String::parse(cs.deep_view()[8]) == Some(unit.deep_view()),
            forall|j: int|
                0 <= j < i ==> schema_parse(#[trigger] ds.deep_view()[j]) == Some(
                    struct_properties[j].deep_view(),
                ),
        decreases ds.len() - i,
    {
        match schema_from_node(&ds[i]) {
            Some(member) => {
                struct_properties.push(member);
            },
            None => {
                assert(schema_parse(ds.deep_view()[i as int]) is None);
                let ghost nm = n.deep_view();
                let ghost cm = cs.deep_view();
                let ghost dm = ds.deep_view();
                assert(nm == NodeModel::List(cm));
                assert(cm.len() == 9);
                assert(cm[7] == NodeModel::List(dm));
                assert(0 <= i < dm.len());
                assert(!(forall|j: int|
                    0 <= j < dm.len() ==> schema_parse(#[trigger] dm[j]) is Some));
                assert(schema_parse(nm) is None);
                return None;
            },
        }
        i = i + 1;
    }
    let value = PropertySchema {
        name,
        data_type,
        required,
        fixed,
        delayed,
        number_exponent,
        enum_options,
        struct_properties,
        unit,
    };
    proof {
        lemma_schema_members(value);
        assert(
            value.struct_properties.deep_view() =~= schema_parse(
                n.deep_view()
            )->Some_0.struct_properties
        );
    }
    Some(value)
}

impl Clone for PropertySchema {
    fn clone(&self) -> (r: Self)
        ensures
            r@ == self@,
    {
        copy_of(self)
    }
}

impl Codec for PropertySchema {
    open spec fn node_of(m: PropertySchemaModel) -> NodeModel {
        schema_node(m)
    }

    open spec fn parse(n: NodeModel) -> Option<PropertySchemaModel> {
        schema_parse(n)
    }

    proof fn lemma_round_trip(m: PropertySchemaModel) {
        lemma_schema_round_trip(m);
    }

    fn to_node(&self) -> (n: Node) {
        schema_to_node(self)
    }

    fn from_node(n: &Node) -> (r: Option<PropertySchema>) {
        schema_from_node(n)
    }
}
} // verus!
