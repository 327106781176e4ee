//! How values become trees and trees become values again.
//!
//! Every stored type implements [`Codec`]: a spec-level encoding `node_of`, a
//! spec-level decoding `parse`, the proof that `parse` undoes `node_of`, and
//! the two executable conversions that compute them.

use crate::wire::{
    decode, decode_wire, encode, lemma_decode_wire, lemma_list_model, wire, Node, NodeModel,
};
use vstd::bytes::*;
use vstd::prelude::*;
use vstd::slice::*;
use vstd::string::*;
use vstd::utf8::*;

verus! {

/// A type with a tree form.
pub trait Codec: DeepView + Sized {
    /// The tree that stands for a value.
    spec fn node_of(m: Self::V) -> NodeModel;

    /// The value that a tree stands for, if it stands for one.
    spec fn parse(n: NodeModel) -> Option<Self::V>;

    /// Reading a written value gives it back.
    proof fn lemma_round_trip(m: Self::V)
        ensures
            Self::parse(Self::node_of(m)) == Some(m),
    ;

    fn to_node(&self) -> (n: Node)
        ensures
            n.deep_view() == Self::node_of(self.deep_view()),
    ;

    fn from_node(n: &Node) -> (r: Option<Self>)
        ensures
            r.deep_view() == Self::parse(n.deep_view()),
    ;
}

/// The children of a list node.
pub open spec fn children_of(n: NodeModel) -> Seq<NodeModel> {
    match n {
        NodeModel::List(cs) => cs,
        NodeModel::Leaf(_) => Seq::empty(),
    }
}

/// Whether a tree is a list of exactly `arity` children.
pub open spec fn is_record(n: NodeModel, arity: nat) -> bool {
    n is List && children_of(n).len() == arity
}

/// The children of `n` when it is a list of exactly `arity` nodes.
pub fn record_fields(n: &Node, arity: usize) -> (r: Option<&Vec<Node>>)
    ensures
        r is Some <==> is_record(n.deep_view(), arity as nat),
        r matches Some(cs) ==> cs.deep_view() == children_of(n.deep_view()) && cs.len() == arity,
{
    match n {
        Node::List(cs) => {
            proof {
                lemma_list_model(*cs);
            }
            if cs.len() == arity {
                Some(cs)
            } else {
                None
            }
        },
        Node::Leaf(_) => None,
    }
}

/// Wraps field nodes into one record node.
pub fn record_node(fields: Vec<Node>) -> (n: Node)
    ensures
        n.deep_view() == NodeModel::List(fields.deep_view()),
{
    proof {
        lemma_list_model(fields);
    }
    Node::List(fields)
}

impl Codec for u64 {
    open spec fn node_of(m: u64) -> NodeModel {
        NodeModel::Leaf(spec_u64_to_le_bytes(m))
    }

    open spec fn parse(n: NodeModel) -> Option<u64> {
        match n {
            NodeModel::Leaf(b) => if b.len() == 8 {
                Some(spec_u64_from_le_bytes(b))
            } else {
                None
            },
            NodeModel::List(_) => None,
        }
    }

    proof fn lemma_round_trip(m: u64) {
        lemma_auto_spec_u64_to_from_le_bytes();
    }

    fn to_node(&self) -> (n: Node) {
        Node::Leaf(u64_to_le_bytes(*self))
    }

    fn from_node(n: &Node) -> (r: Option<u64>) {
        match n {
            Node::Leaf(b) => if b.len() == 8 {
                Some(u64_from_le_bytes(b.as_slice()))
            } else {
                None
            },
            Node::List(_) => None,
        }
    }
}

/// A signed number moved up by 2^63, which keeps the order.
pub open spec fn biased(v: i64) -> u64 {
    (v + 0x8000_0000_0000_0000) as u64
}

/// The signed number that `biased` moved.
pub open spec fn unbiased(u: u64) -> i64 {
    (u - 0x8000_0000_0000_0000) as i64
}

impl Codec for i64 {
    open spec fn node_of(m: i64) -> NodeModel {
        u64::node_of(biased(m))
    }

    open spec fn parse(n: NodeModel) -> Option<i64> {
        match u64::parse(n) {
            Some(u) => Some(unbiased(u)),
            None => None,
        }
    }

    proof fn lemma_round_trip(m: i64) {
        u64::lemma_round_trip(biased(m));
    }

    fn to_node(&self) -> (n: Node) {
        let v: i64 = *self;
        let u: u64 = if v >= 0 {
            v as u64 + 0x8000_0000_0000_0000u64
        } else {
            (v + 0x7fff_ffff_ffff_ffffi64 + 1) as u64
        };
        u.to_node()
    }

    fn from_node(n: &Node) -> (r: Option<i64>) {
        match u64::from_node(n) {
            Some(u) => if u >= 0x8000_0000_0000_0000u64 {
                Some((u - 0x8000_0000_0000_0000u64) as i64)
            } else {
                Some(u as i64 - 0x7fff_ffff_ffff_ffffi64 - 1)
            },
            None => None,
        }
    }
}

impl Codec for u32 {
    open spec fn node_of(m: u32) -> NodeModel {
        u64::node_of(m as u64)
    }

    open spec fn parse(n: NodeModel) -> Option<u32> {
        match u64::parse(n) {
            Some(u) => if u <= u32::MAX {
                Some(u as u32)
            } else {
                None
            },
            None => None,
        }
    }

    proof fn lemma_round_trip(m: u32) {
        u64::lemma_round_trip(m as u64);
    }

    fn to_node(&self) -> (n: Node) {
        let u: u64 = *self as u64;
        u.to_node()
    }

    fn from_node(n: &Node) -> (r: Option<u32>) {
        match u64::from_node(n) {
            Some(u) => if u <= 0xffff_ffffu64 {
                Some(u as u32)
            } else {
                None
            },
            None => None,
        }
    }
}

impl Codec for bool {
    open spec fn node_of(m: bool) -> NodeModel {
        NodeModel::Leaf(
            seq![if m {
                1u8
            } else {
                0u8
            }],
        )
    }

    open spec fn parse(n: NodeModel) -> Option<bool> {
        match n {
            NodeModel::Leaf(b) => if b.len() == 1 && b[0] == 0 {
                Some(false)
            } else if b.len() == 1 && b[0] == 1 {
                Some(true)
            } else {
                None
            },
            NodeModel::List(_) => None,
        }
    }

    proof fn lemma_round_trip(m: bool) {
    }

    fn to_node(&self) -> (n: Node) {
        let mut b: Vec<u8> = Vec::new();
        b.push(
            if *self {
                1u8
            } else {
                0u8
            },
        );
        assert(b@ =~= seq![if *self {
            1u8
        } else {
            0u8
        }]);
        Node::Leaf(b)
    }

    fn from_node(n: &Node) -> (r: Option<bool>) {
        match n {
            Node::Leaf(b) => if b.len() == 1 && b[0] == 0 {
                Some(false)
            } else if b.len() == 1 && b[0] == 1 {
                Some(true)
            } else {
                None
            },
            Node::List(_) => None,
        }
    }
}

/// Calls `String::from_utf8` of std, which gives the text that well-formed
/// UTF-8 bytes spell and refuses all other bytes.
#[verifier::external_body]
fn text_from_utf8(bytes: Vec<u8>) -> (r: Option<String>)
    ensures
        match r {
            Some(s) => valid_utf8(bytes@) && s@ == decode_utf8(bytes@),
            None => !valid_utf8(bytes@),
        },
{
    String::from_utf8(bytes).ok()
}

impl Codec for String {
    open spec fn node_of(m: Seq<char>) -> NodeModel {
        NodeModel::Leaf(encode_utf8(m))
    }

    open spec fn parse(n: NodeModel) -> Option<Seq<char>> {
        match n {
            NodeModel::Leaf(b) => if valid_utf8(b) {
                Some(decode_utf8(b))
            } else {
                None
            },
            NodeModel::List(_) => None,
        }
    }

    proof fn lemma_round_trip(m: Seq<char>) {
        encode_utf8_valid_utf8(m);
        encode_utf8_decode_utf8(m);
    }

    fn to_node(&self) -> (n: Node) {
        Node::Leaf(self.as_str().as_bytes_vec())
    }

    fn from_node(n: &Node) -> (r: Option<String>) {
        match n {
            Node::Leaf(b) => text_from_utf8(slice_to_vec(b.as_slice())),
            Node::List(_) => None,
        }
    }
}

impl Codec for Vec<u8> {
    open spec fn node_of(m: Seq<u8>) -> NodeModel {
        NodeModel::Leaf(m)
    }

    open spec fn parse(n: NodeModel) -> Option<Seq<u8>> {
        match n {
            NodeModel::Leaf(b) => Some(b),
            NodeModel::List(_) => None,
        }
    }

    proof fn lemma_round_trip(m: Seq<u8>) {
    }

    fn to_node(&self) -> (n: Node) {
        assert(self.deep_view() =~= self@);
        Node::Leaf(slice_to_vec(self.as_slice()))
    }

    fn from_node(n: &Node) -> (r: Option<Vec<u8>>) {
        match n {
            Node::Leaf(b) => {
                let bytes = slice_to_vec(b.as_slice());
                assert(bytes.deep_view() =~= b@);
                Some(bytes)
            },
            Node::List(_) => None,
        }
    }
}

/// The trees of a run of values.
pub open spec fn nodes_of<T: Codec>(ms: Seq<T::V>) -> Seq<NodeModel> {
    Seq::new(ms.len(), |i: int| T::node_of(ms[i]))
}

/// The values of a run of trees, if every tree stands for one.
pub open spec fn parse_all<T: Codec>(ns: Seq<NodeModel>) -> Option<Seq<T::V>> {
    if forall|i: int| 0 <= i < ns.len() ==> (#[trigger] T::parse(ns[i])) is Some {
        Some(Seq::new(ns.len(), |i: int| T::parse(ns[i])->Some_0))
    } else {
        None
    }
}

/// Reading the trees of a run of values gives the values back.
pub proof fn lemma_parse_all_nodes<T: Codec>(ms: Seq<T::V>)
    ensures
        parse_all::<T>(nodes_of::<T>(ms)) == Some(ms),
{
    let ns = nodes_of::<T>(ms);
    assert forall|i: int| 0 <= i < ns.len() implies (#[trigger] T::parse(ns[i])) == Some(
        ms[i],
    ) by {
        T::lemma_round_trip(ms[i]);
    }
    assert(parse_all::<T>(ns)->Some_0 =~= ms);
}

impl<T: Codec> Codec for Vec<T> {
    open spec fn node_of(m: Seq<T::V>) -> NodeModel {
        NodeModel::List(nodes_of::<T>(m))
    }

    open spec fn parse(n: NodeModel) -> Option<Seq<T::V>> {
        match n {
            NodeModel::List(cs) => parse_all::<T>(cs),
            NodeModel::Leaf(_) => None,
        }
    }

    proof fn lemma_round_trip(m: Seq<T::V>) {
        lemma_parse_all_nodes::<T>(m);
    }

    fn to_node(&self) -> (n: Node) {
        let mut nodes: Vec<Node> = Vec::new();
        let mut i: usize = 0;
        while i < self.len()
            invariant
                i <= self.len(),
                nodes.len() == i,
                forall|j: int|
                    0 <= j < i ==> (#[trigger] nodes[j]).deep_view() == T::node_of(
                        self[j].deep_view(),
                    ),
            decreases self.len() - i,
        {
            let node = self[i].to_node();
            nodes.push(node);
            i = i + 1;
        }
        proof {
            assert(nodes.deep_view() =~= nodes_of::<T>(self.deep_view()));
        }
        record_node(nodes)
    }

    fn from_node(n: &Node) -> (r: Option<Vec<T>>) {
        match n {
            Node::List(cs) => {
                proof {
                    lemma_list_model(*cs);
                }
                let mut items: Vec<T> = Vec::new();
                let mut i: usize = 0;
                while i < cs.len()
                    invariant
                        i <= cs.len(),
                        items.len() == i,
                        n.deep_view() == NodeModel::List(cs.deep_view()),
                        forall|j: int|
                            0 <= j < i ==> T::parse(#[trigger] cs.deep_view()[j]) == Some(
                                items[j].deep_view(),
                            ),
                    decreases cs.len() - i,
                {
                    match T::from_node(&cs[i]) {
                        Some(item) => {
                            items.push(item);
                        },
                        None => {
                            assert(T::parse(cs.deep_view()[i as int]) is None);
                            return None;
                        },
                    }
                    i = i + 1;
                }
                proof {
                    assert(items.deep_view() =~= parse_all::<T>(cs.deep_view())->Some_0);
                }
                Some(items)
            },
            Node::Leaf(_) => None,
        }
    }
}

/// The bytes of a value.
pub open spec fn bytes_of_value<T: Codec>(m: T::V) -> Seq<u8> {
    wire(T::node_of(m))
}

/// The value that bytes hold, if they hold one.
pub open spec fn value_of_bytes<T: Codec>(bytes: Seq<u8>) -> Option<T::V> {
    match decode_wire(bytes) {
        Some(n) => T::parse(n),
        None => None,
    }
}

/// Decoding undoes encoding: the bytes of a value hold that value.
pub proof fn law_decode_encode<T: Codec>(m: T::V)
    ensures
        value_of_bytes::<T>(bytes_of_value::<T>(m)) == Some(m),
{
    lemma_decode_wire(T::node_of(m));
    T::lemma_round_trip(m);
}

/// Encodes a value. Decoding the bytes gives the value back.
pub fn to_bytes<T: Codec>(value: &T) -> (bytes: Vec<u8>)
    ensures
        bytes@ == bytes_of_value::<T>(value.deep_view()),
        value_of_bytes::<T>(bytes@) == Some(value.deep_view()),
{
    let n = value.to_node();
    proof {
        T::lemma_round_trip(value.deep_view());
    }
    encode(&n)
}

/// Decodes a value.
pub fn from_bytes<T: Codec>(bytes: &[u8]) -> (r: Option<T>)
    ensures
        r.deep_view() == value_of_bytes::<T>(bytes@),
{
    match decode(bytes) {
        Some(n) => T::from_node(&n),
        None => None,
    }
}

/// An independent copy of a value.
pub fn copy_of<T: Codec>(x: &T) -> (r: T)
    ensures
        r.deep_view() == x.deep_view(),
{
    let node = x.to_node();
    proof {
        T::lemma_round_trip(x.deep_view());
    }
    match T::from_node(&node) {
        Some(r) => r,
        None => vstd::pervasive::unreached(),
    }
}

} // verus!
