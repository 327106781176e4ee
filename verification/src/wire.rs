//! The byte format of stored values: a tree of length-prefixed nodes.
//!
//! A node is either a leaf holding bytes or a list of nodes. On the wire a
//! node is one tag byte (0 for a leaf, 1 for a list), the length of the leaf
//! or the number of children as eight little-endian bytes, and then the
//! content. Every tree has exactly one encoding, so equal values give equal
//! bytes.
//!
//! The model knows trees of any size. A count that eight bytes cannot hold,
//! which no machine will ever meet, is written in unary under the tags 2 and
//! 3, so that every tree has its bytes and reading them gives it back.

use vstd::bytes::*;
use vstd::prelude::*;
use vstd::slice::*;

verus! {

/// A structured value as it is stored.
#[derive(Debug, PartialEq, Eq)]
pub enum Node {
    Leaf(Vec<u8>),
    List(Vec<Node>),
}

/// The mathematical value of a [`Node`].
pub enum NodeModel {
    Leaf(Seq<u8>),
    List(Seq<NodeModel>),
}

/// The model of a node: the same tree over sequences.
pub open spec fn node_model(n: Node) -> NodeModel
    decreases n,
{
    match n {
        Node::Leaf(b) => NodeModel::Leaf(b@),
        Node::List(cs) => NodeModel::List(
            Seq::new(
                cs.len() as nat,
                |i: int|
                    if 0 <= i < cs.len() {
                        node_model(cs[i])
                    } else {
                        NodeModel::Leaf(Seq::empty())
                    },
            ),
        ),
    }
}

impl DeepView for Node {
    type V = NodeModel;

    open spec fn deep_view(&self) -> NodeModel {
        node_model(*self)
    }
}

/// The models of the nodes of a vector, in order.
pub proof fn lemma_list_model(cs: Vec<Node>)
    ensures
        Node::List(cs).deep_view() == NodeModel::List(cs.deep_view()),
{
    assert(Node::List(cs).deep_view()->List_0 =~= cs.deep_view());
}

/// Tag byte and count that start every node: the count in eight
/// little-endian bytes where they can hold it, and else, under the tag raised
/// by two, as that many bytes 1 and a byte 0.
pub open spec fn header(tag: u8, count: nat) -> Seq<u8> {
    if count <= u64::MAX {
        seq![tag] + spec_u64_to_le_bytes(count as u64)
    } else {
        seq![(tag + 2) as u8] + Seq::new(count, |i: int| 1u8) + seq![0u8]
    }
}

/// The bytes of a node.
pub open spec fn wire(n: NodeModel) -> Seq<u8>
    decreases n,
{
    match n {
        NodeModel::Leaf(b) => header(0, b.len()) + b,
        NodeModel::List(cs) => header(1, cs.len()) + wire_all(cs),
    }
}

/// The bytes of a run of nodes, one after the other.
pub open spec fn wire_all(cs: Seq<NodeModel>) -> Seq<u8>
    decreases cs,
{
    if cs.len() == 0 {
        Seq::empty()
    } else {
        wire(cs[0]) + wire_all(cs.subrange(1, cs.len() as int))
    }
}

/// How many bytes 1 stand in a row from position `i` on.
pub open spec fn run_of_ones(bytes: Seq<u8>, i: int) -> nat
    decreases bytes.len() - i,
{
    if 0 <= i < bytes.len() && bytes[i] == 1 {
        1 + run_of_ones(bytes, i + 1)
    } else {
        0
    }
}

/// The count that the header at `pos` gives and where the content starts,
/// if a header stands there.
pub open spec fn parse_header(bytes: Seq<u8>, pos: int) -> Option<(nat, int)> {
    if pos < 0 || pos >= bytes.len() {
        None
    } else if bytes[pos] == 0 || bytes[pos] == 1 {
        if pos + 9 <= bytes.len() {
            Some((spec_u64_from_le_bytes(bytes.subrange(pos + 1, pos + 9)) as nat, pos + 9))
        } else {
            None
        }
    } else if bytes[pos] == 2 || bytes[pos] == 3 {
        let count = run_of_ones(bytes, pos + 1);
        if count > u64::MAX && pos + 1 + count < bytes.len() {
            Some((count, pos + 2 + count))
        } else {
            None
        }
    } else {
        None
    }
}

/// Whether a tag is that of a leaf.
pub open spec fn is_leaf_tag(tag: u8) -> bool {
    tag == 0 || tag == 2
}

/// Reads one node that starts at `pos`; gives the node and where it ends.
pub open spec fn parse_node(bytes: Seq<u8>, pos: int) -> Option<(NodeModel, int)>
    decreases bytes.len() - pos, 0int,
{
    match parse_header(bytes, pos) {
        None => None,
        Some((count, start)) => if is_leaf_tag(bytes[pos]) {
            if start + count <= bytes.len() {
                Some((NodeModel::Leaf(bytes.subrange(start, start + count)), start + count))
            } else {
                None
            }
        } else if pos < start <= bytes.len() {
            match parse_list(bytes, start, count) {
                Some((cs, end)) => Some((NodeModel::List(cs), end)),
                None => None,
            }
        } else {
            None
        },
    }
}

/// Reads `count` nodes that start at `pos`; gives them and where they end.
pub open spec fn parse_list(bytes: Seq<u8>, pos: int, count: nat) -> Option<
    (Seq<NodeModel>, int),
>
    decreases bytes.len() - pos, 1 + count,
{
    if count == 0 {
        Some((Seq::empty(), pos))
    } else {
        match parse_node(bytes, pos) {
            Some((c, mid)) => if pos < mid <= bytes.len() {
                match parse_list(bytes, mid, (count - 1) as nat) {
                    Some((rest, end)) => Some((seq![c] + rest, end)),
                    None => None,
                }
            } else {
                None
            },
            None => None,
        }
    }
}

/// The tree that `bytes` encodes, if they are exactly one node.
pub open spec fn decode_wire(bytes: Seq<u8>) -> Option<NodeModel> {
    match parse_node(bytes, 0) {
        Some((n, end)) => if end == bytes.len() {
            Some(n)
        } else {
            None
        },
        None => None,
    }
}

/// A run of bytes 1 ends within the byte string.
pub proof fn lemma_run_of_ones_bound(bytes: Seq<u8>, i: int)
    requires
        0 <= i,
    ensures
        i + run_of_ones(bytes, i) <= bytes.len() || run_of_ones(bytes, i) == 0,
    decreases bytes.len() - i,
{
    if i < bytes.len() && bytes[i] == 1 {
        lemma_run_of_ones_bound(bytes, i + 1);
    }
}

/// A block of bytes 1 that a byte 0 follows is a run of its length.
pub proof fn lemma_run_of_ones_block(bytes: Seq<u8>, i: int, count: nat)
    requires
        0 <= i,
        i + count < bytes.len(),
        forall|k: int| i <= k < i + count ==> bytes[k] == 1,
        bytes[i + count] == 0,
    ensures
        run_of_ones(bytes, i) == count,
    decreases count,
{
    if count > 0 {
        lemma_run_of_ones_block(bytes, i + 1, (count - 1) as nat);
    }
}

/// A header written anywhere in a byte string is read back as it was.
pub proof fn lemma_parse_header(pre: Seq<u8>, tag: u8, count: nat, post: Seq<u8>)
    requires
        tag == 0 || tag == 1,
    ensures
        parse_header(pre + header(tag, count) + post, pre.len() as int) == Some(
            (count, (pre.len() + header(tag, count).len()) as int),
        ),
        is_leaf_tag((pre + header(tag, count) + post)[pre.len() as int]) == (tag == 0),
        header(tag, count).len() >= 9,
{
    let h = header(tag, count);
    let bytes = pre + h + post;
    let pos = pre.len() as int;
    if count <= u64::MAX {
        lemma_auto_spec_u64_to_from_le_bytes();
        assert(h.subrange(1, 9) =~= spec_u64_to_le_bytes(count as u64));
        assert(bytes.subrange(pos + 1, pos + 9) =~= h.subrange(1, 9));
        assert(bytes[pos] == h[0]);
    } else {
        assert(bytes[pos] == h[0]);
        assert forall|k: int| pos + 1 <= k < pos + 1 + count implies bytes[k] == 1 by {
            assert(bytes[k] == h[k - pos]);
        }
        assert(bytes[pos + 1 + count] == h[(1 + count) as int]);
        lemma_run_of_ones_block(bytes, pos + 1, count);
    }
}

/// The bytes of a run with one more node are the bytes of the run and then
/// those of the node.
pub proof fn lemma_wire_all_push(cs: Seq<NodeModel>, c: NodeModel)
    ensures
        wire_all(cs.push(c)) == wire_all(cs) + wire(c),
    decreases cs.len(),
{
    let all = cs.push(c);
    if cs.len() == 0 {
        assert(all.subrange(1, all.len() as int) =~= Seq::<NodeModel>::empty());
        assert(wire_all(Seq::<NodeModel>::empty()) =~= Seq::<u8>::empty());
        assert(wire_all(all) =~= wire(c) + Seq::<u8>::empty());
        assert(wire_all(cs) + wire(c) =~= wire(c));
    } else {
        let tail = cs.subrange(1, cs.len() as int);
        lemma_wire_all_push(tail, c);
        assert(all.subrange(1, all.len() as int) =~= tail.push(c));
        assert(wire_all(all) =~= wire(cs[0]) + (wire_all(tail) + wire(c)));
        assert(wire_all(cs) + wire(c) =~= wire(cs[0]) + (wire_all(tail) + wire(c)));
    }
}

/// A node written anywhere in a byte string is read back as it was.
pub proof fn lemma_parse_wire(pre: Seq<u8>, n: NodeModel, post: Seq<u8>)
    ensures
        parse_node(pre + wire(n) + post, pre.len() as int) == Some(
            (n, (pre.len() + wire(n).len()) as int),
        ),
        wire(n).len() >= 9,
    decreases n, 0int,
{
    let bytes = pre + wire(n) + post;
    let pos = pre.len() as int;
    match n {
        NodeModel::Leaf(b) => {
            let h = header(0, b.len());
            lemma_parse_header(pre, 0, b.len(), b + post);
            assert(pre + h + (b + post) =~= bytes);
            let start = pos + h.len();
            assert(bytes.subrange(start, start + b.len()) =~= b);
        },
        NodeModel::List(cs) => {
            let h = header(1, cs.len());
            lemma_parse_header(pre, 1, cs.len(), wire_all(cs) + post);
            assert(pre + h + (wire_all(cs) + post) =~= bytes);
            lemma_parse_wire_all(pre + h, cs, post);
            assert(pre + h + wire_all(cs) + post =~= bytes);
        },
    }
}

/// A run of nodes written anywhere in a byte string is read back as it was.
pub proof fn lemma_parse_wire_all(pre: Seq<u8>, cs: Seq<NodeModel>, post: Seq<u8>)
    ensures
        parse_list(pre + wire_all(cs) + post, pre.len() as int, cs.len()) == Some(
            (cs, (pre.len() + wire_all(cs).len()) as int),
        ),
    decreases cs, 1int,
{
    let bytes = pre + wire_all(cs) + post;
    if cs.len() == 0 {
        assert(cs =~= Seq::<NodeModel>::empty());
    } else {
        let tail = cs.subrange(1, cs.len() as int);
        lemma_parse_wire(pre, cs[0], wire_all(tail) + post);
        assert(pre + wire(cs[0]) + (wire_all(tail) + post) =~= bytes);
        lemma_parse_wire_all(pre + wire(cs[0]), tail, post);
        assert(pre + wire(cs[0]) + wire_all(tail) + post =~= bytes);
        assert(seq![cs[0]] + tail =~= cs);
    }
}

/// Decoding undoes encoding.
pub proof fn lemma_decode_wire(n: NodeModel)
    ensures
        decode_wire(wire(n)) == Some(n),
{
    lemma_parse_wire(Seq::empty(), n, Seq::empty());
    assert(Seq::<u8>::empty() + wire(n) + Seq::<u8>::empty() =~= wire(n));
}

/// Appends the bytes of `n` to `out`.
pub fn encode_node(n: &Node, out: &mut Vec<u8>)
    ensures
        final(out)@ == old(out)@ + wire(n.deep_view()),
    decreases n,
{
    match n {
        Node::Leaf(b) => {
            out.push(0u8);
            let mut len = u64_to_le_bytes(b.len() as u64);
            out.append(&mut len);
            out.extend_from_slice(b.as_slice());
            assert(out@ =~= old(out)@ + wire(n.deep_view()));
        },
        Node::List(cs) => {
            out.push(1u8);
            let mut len = u64_to_le_bytes(cs.len() as u64);
            out.append(&mut len);
            let ghost models = cs.deep_view();
            let ghost start = out@;
            let mut i: usize = 0;
            while i < cs.len()
                invariant
                    i <= cs.len(),
                    models == cs.deep_view(),
                    out@ == start + wire_all(models.take(i as int)),
                    decreases_to!(n => cs),
                decreases cs.len() - i,
            {
                encode_node(&cs[i], out);
                proof {
                    lemma_wire_all_push(models.take(i as int), models[i as int]);
                    assert(models.take(i as int).push(models[i as int]) =~= models.take(
                        i as int + 1,
                    ));
                    assert(out@ =~= start + wire_all(models.take(i as int + 1)));
                }
                i = i + 1;
            }
            proof {
                lemma_list_model(*cs);
                assert(models.take(cs.len() as int) =~= models);
                assert(start =~= old(out)@ + header(1, cs.len() as nat));
                assert(out@ =~= old(out)@ + wire(n.deep_view()));
            }
        },
    }
}

/// The bytes of a node; reading them gives the node back.
pub fn encode(n: &Node) -> (bytes: Vec<u8>)
    ensures
        bytes@ == wire(n.deep_view()),
        decode_wire(bytes@) == Some(n.deep_view()),
{
    let mut out: Vec<u8> = Vec::new();
    encode_node(n, &mut out);
    proof {
        lemma_decode_wire(n.deep_view());
        assert(out@ =~= wire(n.deep_view()));
    }
    out
}

/// Reads the node that starts at `start`.
pub fn decode_node(bytes: &[u8], start: usize) -> (r: Option<(Node, usize)>)
    ensures
        match r {
            Some((n, end)) => parse_node(bytes@, start as int) == Some(
                (n.deep_view(), end as int),
            ) && start < end <= bytes@.len(),
            None => parse_node(bytes@, start as int) is None,
        },
    decreases bytes@.len() - start, 0int,
{
    let total = bytes.len();
    if start >= total {
        return None;
    }
    let tag = bytes[start];
    if tag != 0 && tag != 1 {
        proof {
            lemma_run_of_ones_bound(bytes@, start + 1);
        }
        return None;
    }
    if total < 9 || start > total - 9 {
        return None;
    }
    let count = u64_from_le_bytes(slice_subrange(bytes, start + 1, start + 9));
    if tag == 0 {
        if count > (total - 9 - start) as u64 {
            return None;
        }
        let end = start + 9 + count as usize;
        let content = slice_to_vec(slice_subrange(bytes, start + 9, end));
        Some((Node::Leaf(content), end))
    } else {
        let mut children: Vec<Node> = Vec::new();
        let mut at: usize = start + 9;
        let mut left: u64 = count;
        while left > 0
            invariant
                start + 9 <= at <= bytes@.len(),
                left <= count,
                bytes@[start as int] == 1,
                count == spec_u64_from_le_bytes(bytes@.subrange(start + 1, start + 9)),
                parse_list(bytes@, start + 9, count as nat) == (match parse_list(
                    bytes@,
                    at as int,
                    left as nat,
                ) {
                    Some((rest, end)) => Some((children.deep_view() + rest, end)),
                    None => None,
                }),
            decreases left,
        {
            match decode_node(bytes, at) {
                Some((child, mid)) => {
                    proof {
                        let ghost before = children.deep_view();
                        let ghost c = child.deep_view();
                        assert forall|rest: Seq<NodeModel>|
                            before.push(c) + rest =~= before + (#[trigger] (seq![c] + rest)) by {}
                        assert(children@.push(child).len() == children@.len() + 1);
                    }
                    let ghost before = children.deep_view();
                    children.push(child);
                    assert(children.deep_view() =~= before.push(child.deep_view()));
                    at = mid;
                    left = left - 1;
                },
                None => {
                    return None;
                },
            }
        }
        proof {
            lemma_list_model(children);
            assert(children.deep_view() + Seq::<NodeModel>::empty() =~= children.deep_view());
        }
        Some((Node::List(children), at))
    }
}

/// Reads bytes that are exactly one node.
pub fn decode(bytes: &[u8]) -> (r: Option<Node>)
    ensures
        r.deep_view() == decode_wire(bytes@),
{
    match decode_node(bytes, 0) {
        Some((n, end)) => if end == bytes.len() {
            Some(n)
        } else {
            None
        },
        None => None,
    }
}

} // verus!
