//! Containers: the entities of one kind that share an address.
//!
//! Addresses are cut from digests, so two entities may meet at one address.
//! What is stored there is the list of them, sorted by natural key, with at
//! most one entry for a key, and in front of the list the number of the kind,
//! so that a container is never read as one of another kind.

use crate::codec::{children_of, is_record, record_fields, record_node, Codec};
use crate::order::{
    lemma_place_of, lemma_sort_push_strict, lemma_sort_sorted, place_of, sort, sorted,
    stable_sort, strictly_sorted, Ordered,
};
use crate::text::{key_le, lemma_key_le_antisymmetric, lemma_key_le_total, Key};
use crate::wire::{decode, decode_wire, encode, lemma_decode_wire, wire, Node, NodeModel};
use vstd::prelude::*;

verus! {

/// An entity that is stored in a container under its natural key.
pub trait Keyed: Codec + Ordered {
    /// The natural key of an entity.
    spec fn key(m: Self::V) -> Key;

    /// What the kind of entity is called in messages.
    spec fn kind() -> Seq<char>;

    /// The number of the kind, which its containers carry.
    spec fn tag() -> u64;

    /// What holds of every entity of the kind that the ledger stores.
    spec fn valid(m: Self::V) -> bool;

    /// Entities are ordered as their keys are.
    proof fn lemma_ordered_by_key(a: Self::V, b: Self::V)
        ensures
            Self::le(a, b) == key_le(Self::key(a), Self::key(b)),
    ;

    fn has_key(&self, first: &str, second: &str) -> (r: bool)
        ensures
            r == (Self::key(self.deep_view()) == (first@, second@)),
    ;

    fn kind_name() -> (r: &'static str)
        ensures
            r@ == Self::kind(),
    ;

    fn tag_number() -> (r: u64)
        ensures
            r == Self::tag(),
    ;
}

/// The tree of a container: the number of the kind, and the entries.
pub open spec fn container_node<T: Keyed>(entries: Seq<T::V>) -> NodeModel {
    NodeModel::List(seq![u64::node_of(T::tag()), <Vec<T>>::node_of(entries)])
}

/// The entries that a tree holds, if it is a container of the kind.
pub open spec fn container_parse<T: Keyed>(n: NodeModel) -> Option<Seq<T::V>> {
    let cs = children_of(n);
    if is_record(n, 2) && u64::parse(cs[0]) == Some(T::tag()) {
        <Vec<T>>::parse(cs[1])
    } else {
        None
    }
}

/// The entries that container bytes hold, if they are a container of the
/// kind.
pub open spec fn container_of<T: Keyed>(bytes: Seq<u8>) -> Option<Seq<T::V>> {
    match decode_wire(bytes) {
        Some(n) => container_parse::<T>(n),
        None => None,
    }
}

/// The bytes of a container.
pub open spec fn container_bytes<T: Keyed>(entries: Seq<T::V>) -> Seq<u8> {
    wire(container_node::<T>(entries))
}

/// The first position from `i` on whose entry has the key, or the length.
pub open spec fn position_from<T: Keyed>(entries: Seq<T::V>, key: Key, i: int) -> int
    decreases entries.len() - i,
{
    if i >= entries.len() {
        entries.len() as int
    } else if T::key(entries[i]) == key {
        i
    } else {
        position_from::<T>(entries, key, i + 1)
    }
}

/// The first position whose entry has the key, or the length.
pub open spec fn position_of<T: Keyed>(entries: Seq<T::V>, key: Key) -> int {
    position_from::<T>(entries, key, 0)
}

/// The entry that a container holds for a key.
pub open spec fn entry_of<T: Keyed>(entries: Seq<T::V>, key: Key) -> Option<T::V> {
    let p = position_of::<T>(entries, key);
    if 0 <= p < entries.len() {
        Some(entries[p])
    } else {
        None
    }
}

/// A container without its entry for a key.
pub open spec fn without<T: Keyed>(entries: Seq<T::V>, key: Key) -> Seq<T::V> {
    let p = position_of::<T>(entries, key);
    if 0 <= p < entries.len() {
        entries.remove(p)
    } else {
        entries
    }
}

/// A container after `value` has been set for `key`: the old entry for the
/// key gone, the new one added, all in order.
pub open spec fn with_entry<T: Keyed>(entries: Seq<T::V>, key: Key, value: T::V) -> Seq<T::V> {
    stable_sort::<T>(without::<T>(entries, key).push(value))
}

/// Whether a container is as the ledger keeps it: sorted by natural key, no
/// two entries with the same key, every entry valid.
pub open spec fn container_valid<T: Keyed>(entries: Seq<T::V>) -> bool {
    strictly_sorted::<T>(entries) && forall|k: int|
        0 <= k < entries.len() ==> T::valid(#[trigger] entries[k])
}

/// Whether no entry of a container has the key.
pub open spec fn key_free<T: Keyed>(entries: Seq<T::V>, key: Key) -> bool {
    forall|k: int| 0 <= k < entries.len() ==> T::key(#[trigger] entries[k]) != key
}

/// Where an entry is found, it has the key, and no entry before it has.
pub proof fn lemma_position_from<T: Keyed>(entries: Seq<T::V>, key: Key, i: int)
    requires
        0 <= i <= entries.len(),
    ensures
        i <= position_from::<T>(entries, key, i) <= entries.len(),
        forall|k: int|
            i <= k < position_from::<T>(entries, key, i) ==> T::key(#[trigger] entries[k]) != key,
        position_from::<T>(entries, key, i) < entries.len() ==> T::key(
            entries[position_from::<T>(entries, key, i)],
        ) == key,
    decreases entries.len() - i,
{
    if i < entries.len() && T::key(entries[i]) != key {
        lemma_position_from::<T>(entries, key, i + 1);
    }
}

/// Reading the bytes of a container gives its entries back.
pub proof fn lemma_container_round_trip<T: Keyed>(entries: Seq<T::V>)
    ensures
        container_of::<T>(container_bytes::<T>(entries)) == Some(entries),
{
    let n = container_node::<T>(entries);
    lemma_decode_wire(n);
    u64::lemma_round_trip(T::tag());
    <Vec<T>>::lemma_round_trip(entries);
    assert(children_of(n)[0] == u64::node_of(T::tag()));
    assert(children_of(n)[1] == <Vec<T>>::node_of(entries));
}

/// The bytes of a container of one kind are no container of another kind.
pub proof fn lemma_container_of_other_kind<T: Keyed, U: Keyed>(entries: Seq<T::V>)
    requires
        T::tag() != U::tag(),
    ensures
        container_of::<U>(container_bytes::<T>(entries)) is None,
{
    let n = container_node::<T>(entries);
    lemma_decode_wire(n);
    u64::lemma_round_trip(T::tag());
    assert(children_of(n)[0] == u64::node_of(T::tag()));
}

/// Entries that are strictly in order have different keys, and entries with
/// different keys are strictly in order one way or the other.
pub proof fn lemma_strict_means_other_key<T: Keyed>(a: T::V, b: T::V)
    ensures
        T::le(a, b) && !T::le(b, a) ==> T::key(a) != T::key(b),
        T::key(a) != T::key(b) ==> (T::le(a, b) && !T::le(b, a)) || (T::le(b, a) && !T::le(a, b)),
{
    T::lemma_ordered_by_key(a, b);
    T::lemma_ordered_by_key(b, a);
    lemma_key_le_total(T::key(a), T::key(b));
    if T::key(a) != T::key(b) && key_le(T::key(a), T::key(b)) && key_le(T::key(b), T::key(a)) {
        lemma_key_le_antisymmetric(T::key(a), T::key(b));
    }
}

/// A strictly sorted container has no entry for a key once its entry for the
/// key is taken out, and is still strictly sorted.
pub proof fn lemma_without_is_key_free<T: Keyed>(entries: Seq<T::V>, key: Key)
    requires
        strictly_sorted::<T>(entries),
    ensures
        key_free::<T>(without::<T>(entries, key), key),
        strictly_sorted::<T>(without::<T>(entries, key)),
        forall|k: int|
            0 <= k < without::<T>(entries, key).len() ==> entries.contains(
                #[trigger] without::<T>(entries, key)[k],
            ),
{
    let kept = without::<T>(entries, key);
    let p = position_of::<T>(entries, key);
    lemma_position_from::<T>(entries, key, 0);
    assert forall|k: int| 0 <= k < kept.len() implies T::key(#[trigger] kept[k]) != key
        && entries.contains(kept[k]) by {
        if p < entries.len() {
            if k < p {
                assert(kept[k] == entries[k]);
            } else {
                assert(kept[k] == entries[k + 1]);
                lemma_strict_means_other_key::<T>(entries[p], entries[k + 1]);
            }
        } else {
            assert(kept[k] == entries[k]);
        }
    }
    assert forall|i: int, j: int| 0 <= i < j < kept.len() implies T::le(
        #[trigger] kept[i],
        #[trigger] kept[j],
    ) && !T::le(kept[j], kept[i]) by {
        if p < entries.len() {
            let a = if i < p {
                i
            } else {
                i + 1
            };
            let b = if j < p {
                j
            } else {
                j + 1
            };
            assert(kept[i] == entries[a] && kept[j] == entries[b]);
        }
    }
}

/// Where a value goes in a strictly sorted container that has no entry for
/// its key: the sort puts it at its place and moves nothing else.
pub proof fn lemma_sort_with_new_key<T: Keyed>(kept: Seq<T::V>, value: T::V)
    requires
        strictly_sorted::<T>(kept),
        key_free::<T>(kept, T::key(value)),
    ensures
        stable_sort::<T>(kept.push(value)) == kept.insert(place_of::<T>(value, kept), value),
        0 <= place_of::<T>(value, kept) <= kept.len(),
        strictly_sorted::<T>(kept.insert(place_of::<T>(value, kept), value)),
        position_of::<T>(kept.insert(place_of::<T>(value, kept), value), T::key(value))
            == place_of::<T>(value, kept),
{
    let q = place_of::<T>(value, kept);
    lemma_place_of::<T>(value, kept);
    assert forall|k: int| 0 <= k < q implies T::le(#[trigger] kept[k], value) && !T::le(
        value,
        kept[k],
    ) by {
        T::lemma_le_total(kept[k], value);
    }
    assert forall|k: int| q <= k < kept.len() implies T::le(value, #[trigger] kept[k]) && !T::le(
        kept[k],
        value,
    ) by {
        if k > q {
            T::lemma_le_transitive(value, kept[q], kept[k]);
        }
        lemma_strict_means_other_key::<T>(value, kept[k]);
    }
    lemma_sort_push_strict::<T>(kept, value, q);
    let out = kept.insert(q, value);
    assert forall|i: int, j: int| 0 <= i < j < out.len() implies T::le(
        #[trigger] out[i],
        #[trigger] out[j],
    ) && !T::le(out[j], out[i]) by {
        if i == q {
            assert(out[j] == kept[j - 1]);
        } else if j == q {
            assert(out[i] == kept[i]);
        } else {
            let a = if i < q {
                i
            } else {
                i - 1
            };
            let b = if j < q {
                j
            } else {
                j - 1
            };
            assert(out[i] == kept[a] && out[j] == kept[b]);
        }
    }
    lemma_first_with_key::<T>(out, T::key(value), q, 0);
}

/// The first entry with a key is found where it stands.
pub proof fn lemma_first_with_key<T: Keyed>(entries: Seq<T::V>, key: Key, q: int, i: int)
    requires
        0 <= i <= q < entries.len(),
        T::key(entries[q]) == key,
        forall|k: int| 0 <= k < q ==> T::key(#[trigger] entries[k]) != key,
    ensures
        position_from::<T>(entries, key, i) == q,
    decreases q - i,
{
    if i < q {
        lemma_first_with_key::<T>(entries, key, q, i + 1);
    }
}

/// Where no entry has a key, none is found.
pub proof fn lemma_none_with_key<T: Keyed>(entries: Seq<T::V>, key: Key, i: int)
    requires
        0 <= i <= entries.len(),
        forall|k: int| i <= k < entries.len() ==> T::key(#[trigger] entries[k]) != key,
    ensures
        position_from::<T>(entries, key, i) == entries.len(),
    decreases entries.len() - i,
{
    if i < entries.len() {
        lemma_none_with_key::<T>(entries, key, i + 1);
    }
}

/// An entry that comes into a container does not change what the container
/// holds for another key.
pub proof fn lemma_insert_frame<T: Keyed>(entries: Seq<T::V>, q: int, value: T::V, other: Key)
    requires
        0 <= q <= entries.len(),
        T::key(value) != other,
    ensures
        entry_of::<T>(entries.insert(q, value), other) == entry_of::<T>(entries, other),
{
    let after = entries.insert(q, value);
    let p = position_of::<T>(entries, other);
    lemma_position_from::<T>(entries, other, 0);
    if p < entries.len() {
        let at = if p < q {
            p
        } else {
            p + 1
        };
        assert(after[at] == entries[p]);
        assert forall|k: int| 0 <= k < at implies T::key(#[trigger] after[k]) != other by {
            if k < q {
                assert(after[k] == entries[k]);
            } else if k > q {
                assert(after[k] == entries[k - 1]);
            }
        }
        lemma_first_with_key::<T>(after, other, at, 0);
    } else {
        assert forall|k: int| 0 <= k < after.len() implies T::key(#[trigger] after[k]) != other by {
            if k < q {
                assert(after[k] == entries[k]);
            } else if k > q {
                assert(after[k] == entries[k - 1]);
            }
        }
        lemma_none_with_key::<T>(after, other, 0);
    }
}

/// An entry that leaves a container does not change what the container
/// holds for another key.
pub proof fn lemma_remove_frame<T: Keyed>(entries: Seq<T::V>, q: int, other: Key)
    requires
        0 <= q < entries.len(),
        T::key(entries[q]) != other,
    ensures
        entry_of::<T>(entries.remove(q), other) == entry_of::<T>(entries, other),
{
    let after = entries.remove(q);
    let p = position_of::<T>(entries, other);
    lemma_position_from::<T>(entries, other, 0);
    if p < entries.len() {
        let at = if p < q {
            p
        } else {
            p - 1
        };
        assert(after[at] == entries[p]);
        assert forall|k: int| 0 <= k < at implies T::key(#[trigger] after[k]) != other by {
            if k < q {
                assert(after[k] == entries[k]);
            } else {
                assert(after[k] == entries[k + 1]);
            }
        }
        lemma_first_with_key::<T>(after, other, at, 0);
    } else {
        assert forall|k: int| 0 <= k < after.len() implies T::key(#[trigger] after[k]) != other by {
            if k < q {
                assert(after[k] == entries[k]);
            } else {
                assert(after[k] == entries[k + 1]);
            }
        }
        lemma_none_with_key::<T>(after, other, 0);
    }
}

/// Setting an entity for a key does not change what a container without
/// doubled keys holds for another key.
pub proof fn lemma_with_entry_frame<T: Keyed>(
    entries: Seq<T::V>,
    key: Key,
    value: T::V,
    other: Key,
)
    requires
        strictly_sorted::<T>(entries),
        T::key(value) == key,
        other != key,
    ensures
        entry_of::<T>(with_entry::<T>(entries, key, value), other) == entry_of::<T>(
            entries,
            other,
        ),
{
    let kept = without::<T>(entries, key);
    lemma_without_is_key_free::<T>(entries, key);
    lemma_sort_with_new_key::<T>(kept, value);
    lemma_insert_frame::<T>(kept, place_of::<T>(value, kept), value, other);
    let p = position_of::<T>(entries, key);
    lemma_position_from::<T>(entries, key, 0);
    if p < entries.len() {
        lemma_remove_frame::<T>(entries, p, other);
    }
}

/// A container is sorted by natural key after every set. Where it was valid
/// before and a valid entity is set under its own key, it is valid after,
/// and the entity is what it holds for the key.
pub proof fn lemma_with_entry_valid<T: Keyed>(entries: Seq<T::V>, key: Key, value: T::V)
    ensures
        sorted::<T>(with_entry::<T>(entries, key, value)),
        forall|i: int, j: int|
            0 <= i <= j < with_entry::<T>(entries, key, value).len() ==> key_le(
                T::key(#[trigger] with_entry::<T>(entries, key, value)[i]),
                T::key(#[trigger] with_entry::<T>(entries, key, value)[j]),
            ),
        container_valid::<T>(entries) && T::valid(value) && T::key(value) == key
            ==> container_valid::<T>(with_entry::<T>(entries, key, value)),
        strictly_sorted::<T>(entries) && T::key(value) == key ==> entry_of::<T>(
            with_entry::<T>(entries, key, value),
            key,
        ) == Some(value),
{
    let kept = without::<T>(entries, key);
    let all = kept.push(value);
    let out = with_entry::<T>(entries, key, value);
    lemma_sort_sorted::<T>(all);
    assert forall|i: int, j: int| 0 <= i <= j < out.len() implies key_le(
        T::key(#[trigger] out[i]),
        T::key(#[trigger] out[j]),
    ) by {
        T::lemma_ordered_by_key(out[i], out[j]);
    }
    if strictly_sorted::<T>(entries) && T::key(value) == key {
        lemma_without_is_key_free::<T>(entries, key);
        lemma_sort_with_new_key::<T>(kept, value);
        let q = place_of::<T>(value, kept);
        assert(out[q] == value);
        if container_valid::<T>(entries) && T::valid(value) {
            assert forall|k: int| 0 <= k < out.len() implies T::valid(#[trigger] out[k]) by {
                if k != q {
                    let a = if k < q {
                        k
                    } else {
                        k - 1
                    };
                    assert(out[k] == kept[a]);
                    assert(entries.contains(kept[a]));
                }
            }
        }
    }
}

/// Reads container bytes.
pub fn decode_container<T: Keyed>(bytes: &[u8]) -> (r: Option<Vec<T>>)
    ensures
        r.deep_view() == container_of::<T>(bytes@),
{
    let n = match decode(bytes) {
        Some(n) => n,
        None => {
            return None;
        },
    };
    let cs = match record_fields(&n, 2) {
        Some(cs) => cs,
        None => {
            return None;
        },
    };
    assert(cs.deep_view()[0] == cs[0].deep_view());
    assert(cs.deep_view()[1] == cs[1].deep_view());
    match u64::from_node(&cs[0]) {
        Some(tag) => {
            if tag != T::tag_number() {
                return None;
            }
        },
        None => {
            return None;
        },
    }
    <Vec<T>>::from_node(&cs[1])
}

/// Writes a container; reading the bytes gives the entries back.
pub fn encode_container<T: Keyed>(entries: &Vec<T>) -> (bytes: Vec<u8>)
    ensures
        bytes@ == container_bytes::<T>(entries.deep_view()),
        container_of::<T>(bytes@) == Some(entries.deep_view()),
{
    let mut fields: Vec<Node> = Vec::new();
    fields.push(T::tag_number().to_node());
    fields.push(entries.to_node());
    proof {
        assert(fields.deep_view() =~= children_of(container_node::<T>(entries.deep_view())));
        lemma_container_round_trip::<T>(entries.deep_view());
    }
    encode(&record_node(fields))
}

/// The position of the first entry with the key, or the length.
pub fn find_entry<T: Keyed>(entries: &Vec<T>, first: &str, second: &str) -> (p: usize)
    ensures
        p == position_of::<T>(entries.deep_view(), (first@, second@)),
        p <= entries.len(),
{
    let mut i: usize = 0;
    while i < entries.len()
        invariant
            i <= entries.len(),
            position_of::<T>(entries.deep_view(), (first@, second@)) == position_from::<T>(
                entries.deep_view(),
                (first@, second@),
                i as int,
            ),
        decreases entries.len() - i,
    {
        if entries[i].has_key(first, second) {
            return i;
        }
        i = i + 1;
    }
    i
}

/// Takes the entry for a key out of a container that was read.
pub fn take_entry<T: Keyed>(entries: Vec<T>, first: &str, second: &str) -> (r: Option<T>)
    ensures
        r.deep_view() == entry_of::<T>(entries.deep_view(), (first@, second@)),
{
    let mut entries = entries;
    let p = find_entry(&entries, first, second);
    if p < entries.len() {
        Some(entries.remove(p))
    } else {
        None
    }
}

/// Sets `value` for a key in a container that was read.
pub fn put_entry<T: Keyed>(entries: Vec<T>, first: &str, second: &str, value: T) -> (out: Vec<T>)
    ensures
        out.deep_view() == with_entry::<T>(
            entries.deep_view(),
            (first@, second@),
            value.deep_view(),
        ),
{
    let mut entries = entries;
    let ghost before = entries.deep_view();
    let p = find_entry(&entries, first, second);
    if p < entries.len() {
        entries.remove(p);
        assert(entries.deep_view() =~= before.remove(p as int));
    }
    let ghost kept = entries.deep_view();
    entries.push(value);
    assert(entries.deep_view() =~= kept.push(value.deep_view()));
    sort(entries)
}

} // verus!
