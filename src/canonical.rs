use vstd::prelude::*;
use vstd::relations::{sorted_by, total_ordering};
use vstd::utf8::char_u32_cast;
use vstd::seq_lib::{lemma_sorted_unique, to_multiset_build, to_multiset_insert};

use crate::composite::{concat_encodings, seq_encoding};
use crate::fingerprint::Fingerprint;
use crate::scalar::{varint, write_varint};
use crate::sink::Sink;

verus! {

/// A total order on a type, used to put the items of unordered collections
/// into one canonical order before they are encoded.
pub trait CanonicalOrder: Fingerprint + Sized {
    /// Whether `self` comes no later than `other`.
    spec fn spec_canonical_le(&self, other: &Self) -> bool;

    /// The order is reflexive, antisymmetric, transitive and total.
    proof fn lemma_total_ordering()
        ensures
            forall|a: Self| #[trigger] a.spec_canonical_le(&a),
            forall|a: Self, b: Self| #[trigger]
                a.spec_canonical_le(&b) && #[trigger] b.spec_canonical_le(&a) ==> a == b,
            forall|a: Self, b: Self, c: Self| #[trigger]
                a.spec_canonical_le(&b) && #[trigger] b.spec_canonical_le(&c)
                    ==> a.spec_canonical_le(&c),
            forall|a: Self, b: Self| #[trigger]
                a.spec_canonical_le(&b) || #[trigger] b.spec_canonical_le(&a),
    ;

    /// Whether `self` comes no later than `other`.
    fn canonical_le(&self, other: &Self) -> (r: bool)
        ensures
            r == self.spec_canonical_le(other),
    ;
}

/// The canonical order of `T`, as a relation.
pub open spec fn canonical_leq<T: CanonicalOrder>() -> spec_fn(T, T) -> bool {
    |a: T, b: T| a.spec_canonical_le(&b)
}

/// An unordered collection: its items sorted by the canonical order, then
/// encoded as a sequence. Equal items are all kept.
pub open spec fn unordered_encoding<T: CanonicalOrder>(items: Seq<T>) -> Seq<u8> {
    seq_encoding(items.sort_by(canonical_leq::<T>()))
}

/// The keys of a list of map entries.
pub open spec fn keys_of<K, V>(entries: Seq<(K, V)>) -> Seq<K> {
    entries.map_values(|e: (K, V)| e.0)
}

/// The entry of `entries` whose key is `k`.
pub open spec fn entry_with_key<K, V>(entries: Seq<(K, V)>, k: K) -> (K, V) {
    entries[choose|i: int| 0 <= i < entries.len() && entries[i].0 == k]
}

/// The entries of a map, ordered by the canonical order of their keys.
pub open spec fn sorted_entries<K: CanonicalOrder, V>(entries: Seq<(K, V)>) -> Seq<(K, V)> {
    keys_of(entries).sort_by(canonical_leq::<K>()).map_values(|k: K| entry_with_key(entries, k))
}

/// A map: its entries ordered by key, then encoded as a sequence of pairs.
pub open spec fn map_encoding<K: CanonicalOrder, V: Fingerprint>(entries: Seq<(K, V)>) -> Seq<u8> {
    seq_encoding(sorted_entries(entries))
}

/// The items of `items` at the positions listed in `order`.
pub open spec fn pick<T>(items: Seq<T>, order: Seq<usize>) -> Seq<T> {
    Seq::new(order.len(), |k: int| items[order[k] as int])
}

/// Positions of the items of `items`, listed in canonical order.
pub fn canonical_order<T: CanonicalOrder>(items: &[T]) -> (order: Vec<usize>)
    ensures
        order@.len() == items@.len(),
        forall|k: int| 0 <= k < order@.len() ==> order@[k] < items@.len(),
        pick(items@, order@) == items@.sort_by(canonical_leq::<T>()),
{
    let ghost leq = canonical_leq::<T>();
    proof {
        T::lemma_total_ordering();
        assert(total_ordering(leq));
    }
    let mut order: Vec<usize> = Vec::new();
    let mut i: usize = 0;
    proof {
        assert(pick(items@, order@) =~= items@.take(0));
    }
    while i < items.len()
        invariant
            i <= items@.len(),
            order@.len() == i,
            forall|k: int| 0 <= k < order@.len() ==> order@[k] < i,
            sorted_by(pick(items@, order@), leq),
            pick(items@, order@).to_multiset() == items@.take(i as int).to_multiset(),
            total_ordering(leq),
            leq == canonical_leq::<T>(),
        decreases items@.len() - i,
    {
        let ghost before = pick(items@, order@);
        let ghost x = items@[i as int];
        let mut p: usize = 0;
        loop
            invariant
                p <= order@.len(),
                order@.len() == i,
                i < items@.len(),
                forall|k: int| 0 <= k < order@.len() ==> order@[k] < i,
                forall|k: int| 0 <= k < p ==> leq(#[trigger] before[k], x),
                before == pick(items@, order@),
                x == items@[i as int],
                leq == canonical_leq::<T>(),
            ensures
                p <= order@.len(),
                forall|k: int| 0 <= k < p ==> leq(#[trigger] before[k], x),
                p < order@.len() ==> !leq(before[p as int], x),
            decreases order@.len() - p,
        {
            if p == order.len() {
                break ;
            }
            if !items[order[p]].canonical_le(&items[i]) {
                break ;
            }
            p = p + 1;
        }
        order.insert(p, i);
        proof {
            let after = pick(items@, order@);
            assert(after =~= before.insert(p as int, x));
            if p < before.len() {
                assert(leq(x, before[p as int]));
            }
            assert forall|a: int, b: int| 0 <= a < b < after.len() implies #[trigger] leq(
                after[a],
                after[b],
            ) by {
                if b < p {
                    assert(after[a] == before[a] && after[b] == before[b]);
                } else if b == p {
                    assert(after[a] == before[a]);
                } else if a < p {
                    assert(after[a] == before[a] && after[b] == before[b - 1]);
                    assert(leq(before[a], x));
                    assert(leq(x, before[p as int]));
                    if b - 1 > p {
                        assert(leq(before[p as int], before[b - 1]));
                    }
                } else if a == p {
                    assert(after[b] == before[b - 1]);
                    if b - 1 > p {
                        assert(leq(before[p as int], before[b - 1]));
                    }
                } else {
                    assert(after[a] == before[a - 1] && after[b] == before[b - 1]);
                }
            }
            assert(items@.take(i + 1) =~= items@.take(i as int).push(x));
            to_multiset_insert(before, p as int, x);
            to_multiset_build(items@.take(i as int), x);
            assert(after.to_multiset() == before.to_multiset().insert(x));
            assert(items@.take(i + 1).to_multiset() == items@.take(i as int).to_multiset().insert(
                x,
            ));
        }
        i = i + 1;
    }
    proof {
        assert(items@.take(i as int) =~= items@);
        items@.lemma_sort_by_ensures(leq);
        lemma_sorted_unique(pick(items@, order@), items@.sort_by(leq), leq);
    }
    order
}

/// Positions of the entries of `entries`, listed in canonical order of their keys.
pub fn canonical_key_order<K: CanonicalOrder, V>(entries: &[(K, V)]) -> (order: Vec<usize>)
    ensures
        order@.len() == keys_of(entries@).len(),
        forall|k: int| 0 <= k < order@.len() ==> order@[k] < keys_of(entries@).len(),
        pick(keys_of(entries@), order@) == keys_of(entries@).sort_by(canonical_leq::<K>()),
{
    let ghost leq = canonical_leq::<K>();
    proof {
        K::lemma_total_ordering();
        assert(total_ordering(leq));
    }
    let mut order: Vec<usize> = Vec::new();
    let mut i: usize = 0;
    proof {
        assert(pick(keys_of(entries@), order@) =~= keys_of(entries@).take(0));
    }
    while i < entries.len()
        invariant
            i <= keys_of(entries@).len(),
            order@.len() == i,
            forall|k: int| 0 <= k < order@.len() ==> order@[k] < i,
            sorted_by(pick(keys_of(entries@), order@), leq),
            pick(keys_of(entries@), order@).to_multiset() == keys_of(entries@).take(i as int).to_multiset(),
            total_ordering(leq),
            leq == canonical_leq::<K>(),
        decreases keys_of(entries@).len() - i,
    {
        let ghost before = pick(keys_of(entries@), order@);
        let ghost x = keys_of(entries@)[i as int];
        let mut p: usize = 0;
        loop
            invariant
                p <= order@.len(),
                order@.len() == i,
                i < keys_of(entries@).len(),
                forall|k: int| 0 <= k < order@.len() ==> order@[k] < i,
                forall|k: int| 0 <= k < p ==> leq(#[trigger] before[k], x),
                before == pick(keys_of(entries@), order@),
                x == keys_of(entries@)[i as int],
                leq == canonical_leq::<K>(),
            ensures
                p <= order@.len(),
                forall|k: int| 0 <= k < p ==> leq(#[trigger] before[k], x),
                p < order@.len() ==> !leq(before[p as int], x),
            decreases order@.len() - p,
        {
            if p == order.len() {
                break ;
            }
            if !entries[order[p]].0.canonical_le(&entries[i].0) {
                break ;
            }
            p = p + 1;
        }
        order.insert(p, i);
        proof {
            let after = pick(keys_of(entries@), order@);
            assert(after =~= before.insert(p as int, x));
            if p < before.len() {
                assert(leq(x, before[p as int]));
            }
            assert forall|a: int, b: int| 0 <= a < b < after.len() implies #[trigger] leq(
                after[a],
                after[b],
            ) by {
                if b < p {
                    assert(after[a] == before[a] && after[b] == before[b]);
                } else if b == p {
                    assert(after[a] == before[a]);
                } else if a < p {
                    assert(after[a] == before[a] && after[b] == before[b - 1]);
                    assert(leq(before[a], x));
                    assert(leq(x, before[p as int]));
                    if b - 1 > p {
                        assert(leq(before[p as int], before[b - 1]));
                    }
                } else if a == p {
                    assert(after[b] == before[b - 1]);
                    if b - 1 > p {
                        assert(leq(before[p as int], before[b - 1]));
                    }
                } else {
                    assert(after[a] == before[a - 1] && after[b] == before[b - 1]);
                }
            }
            assert(keys_of(entries@).take(i + 1) =~= keys_of(entries@).take(i as int).push(x));
            to_multiset_insert(before, p as int, x);
            to_multiset_build(keys_of(entries@).take(i as int), x);
            assert(after.to_multiset() == before.to_multiset().insert(x));
            assert(keys_of(entries@).take(i + 1).to_multiset() == keys_of(entries@).take(i as int).to_multiset().insert(
                x,
            ));
        }
        i = i + 1;
    }
    proof {
        assert(keys_of(entries@).take(i as int) =~= keys_of(entries@));
        keys_of(entries@).lemma_sort_by_ensures(leq);
        lemma_sorted_unique(pick(keys_of(entries@), order@), keys_of(entries@).sort_by(leq), leq);
    }
    order
}

/// Appends the encoding of the unordered collection holding the items of `items`.
pub fn fingerprint_unordered<T: CanonicalOrder, S: Sink>(items: &[T], sink: &mut S)
    ensures
        final(sink).bytes() == old(sink).bytes() + unordered_encoding(items@),
{
    let order = canonical_order(items);
    let ghost sorted = pick(items@, order@);
    write_varint(sink, order.len());
    let mut k: usize = 0;
    while k < order.len()
        invariant
            k <= order@.len(),
            order@.len() == items@.len(),
            forall|j: int| 0 <= j < order@.len() ==> order@[j] < items@.len(),
            sorted == pick(items@, order@),
            sink.bytes() == old(sink).bytes() + varint(order@.len() as nat) + concat_encodings(
                sorted.take(k as int),
            ),
        decreases order@.len() - k,
    {
        proof {
            assert(sorted.take(k + 1).drop_last() =~= sorted.take(k as int));
        }
        items[order[k]].fingerprint(sink);
        k = k + 1;
    }
    proof {
        assert(sorted.take(k as int) =~= sorted);
        assert(sink.bytes() =~= old(sink).bytes() + seq_encoding(sorted));
    }
}

/// Appends the encoding of the map whose entries are `entries`.
pub fn fingerprint_map<K: CanonicalOrder, V: Fingerprint, S: Sink>(entries: &[(K, V)], sink: &mut S)
    requires
        keys_of(entries@).no_duplicates(),
    ensures
        final(sink).bytes() == old(sink).bytes() + map_encoding(entries@),
{
    let order = canonical_key_order(entries);
    let ghost sorted = pick(entries@, order@);
    proof {
        let keys = keys_of(entries@);
        assert forall|k: int| 0 <= k < order@.len() implies #[trigger] sorted[k] == sorted_entries(
            entries@,
        )[k] by {
            let j = order@[k] as int;
            assert(pick(keys, order@)[k] == keys[j]);
            let c = choose|i: int| 0 <= i < entries@.len() && entries@[i].0 == keys[j];
            assert(0 <= c < entries@.len() && entries@[c].0 == keys[j]);
            assert(keys[c] == keys[j]);
        }
        assert(sorted =~= sorted_entries(entries@));
    }
    write_varint(sink, order.len());
    let mut k: usize = 0;
    while k < order.len()
        invariant
            k <= order@.len(),
            order@.len() == entries@.len(),
            forall|j: int| 0 <= j < order@.len() ==> order@[j] < entries@.len(),
            sorted == pick(entries@, order@),
            sink.bytes() == old(sink).bytes() + varint(order@.len() as nat) + concat_encodings(
                sorted.take(k as int),
            ),
        decreases order@.len() - k,
    {
        proof {
            assert(sorted.take(k + 1).drop_last() =~= sorted.take(k as int));
        }
        entries[order[k]].fingerprint(sink);
        k = k + 1;
    }
    proof {
        assert(sorted.take(k as int) =~= sorted);
        assert(sink.bytes() =~= old(sink).bytes() + seq_encoding(sorted));
    }
}

impl CanonicalOrder for u8 {
    open spec fn spec_canonical_le(&self, other: &Self) -> bool {
        *self <= *other
    }

    proof fn lemma_total_ordering() {
    }

    fn canonical_le(&self, other: &Self) -> (r: bool) {
        *self <= *other
    }
}

impl CanonicalOrder for u16 {
    open spec fn spec_canonical_le(&self, other: &Self) -> bool {
        *self <= *other
    }

    proof fn lemma_total_ordering() {
    }

    fn canonical_le(&self, other: &Self) -> (r: bool) {
        *self <= *other
    }
}

impl CanonicalOrder for u32 {
    open spec fn spec_canonical_le(&self, other: &Self) -> bool {
        *self <= *other
    }

    proof fn lemma_total_ordering() {
    }

    fn canonical_le(&self, other: &Self) -> (r: bool) {
        *self <= *other
    }
}

impl CanonicalOrder for u64 {
    open spec fn spec_canonical_le(&self, other: &Self) -> bool {
        *self <= *other
    }

    proof fn lemma_total_ordering() {
    }

    fn canonical_le(&self, other: &Self) -> (r: bool) {
        *self <= *other
    }
}

impl CanonicalOrder for u128 {
    open spec fn spec_canonical_le(&self, other: &Self) -> bool {
        *self <= *other
    }

    proof fn lemma_total_ordering() {
    }

    fn canonical_le(&self, other: &Self) -> (r: bool) {
        *self <= *other
    }
}

impl CanonicalOrder for usize {
    open spec fn spec_canonical_le(&self, other: &Self) -> bool {
        *self <= *other
    }

    proof fn lemma_total_ordering() {
    }

    fn canonical_le(&self, other: &Self) -> (r: bool) {
        *self <= *other
    }
}

impl CanonicalOrder for i8 {
    open spec fn spec_canonical_le(&self, other: &Self) -> bool {
        *self <= *other
    }

    proof fn lemma_total_ordering() {
    }

    fn canonical_le(&self, other: &Self) -> (r: bool) {
        *self <= *other
    }
}

impl CanonicalOrder for i16 {
    open spec fn spec_canonical_le(&self, other: &Self) -> bool {
        *self <= *other
    }

    proof fn lemma_total_ordering() {
    }

    fn canonical_le(&self, other: &Self) -> (r: bool) {
        *self <= *other
    }
}

impl CanonicalOrder for i32 {
    open spec fn spec_canonical_le(&self, other: &Self) -> bool {
        *self <= *other
    }

    proof fn lemma_total_ordering() {
    }

    fn canonical_le(&self, other: &Self) -> (r: bool) {
        *self <= *other
    }
}

impl CanonicalOrder for i64 {
    open spec fn spec_canonical_le(&self, other: &Self) -> bool {
        *self <= *other
    }

    proof fn lemma_total_ordering() {
    }

    fn canonical_le(&self, other: &Self) -> (r: bool) {
        *self <= *other
    }
}

impl CanonicalOrder for i128 {
    open spec fn spec_canonical_le(&self, other: &Self) -> bool {
        *self <= *other
    }

    proof fn lemma_total_ordering() {
    }

    fn canonical_le(&self, other: &Self) -> (r: bool) {
        *self <= *other
    }
}

impl CanonicalOrder for isize {
    open spec fn spec_canonical_le(&self, other: &Self) -> bool {
        *self <= *other
    }

    proof fn lemma_total_ordering() {
    }

    fn canonical_le(&self, other: &Self) -> (r: bool) {
        *self <= *other
    }
}

impl CanonicalOrder for char {
    /// By code point.
    open spec fn spec_canonical_le(&self, other: &Self) -> bool {
        (*self as u32) <= (*other as u32)
    }

    proof fn lemma_total_ordering() {
        assert forall|a: char, b: char| #[trigger]
            a.spec_canonical_le(&b) && #[trigger] b.spec_canonical_le(&a) implies a == b by {
            char_u32_cast(a, a as u32);
            char_u32_cast(b, b as u32);
        }
    }

    fn canonical_le(&self, other: &Self) -> (r: bool) {
        (*self as u32) <= (*other as u32)
    }
}

impl<A: CanonicalOrder, B: CanonicalOrder> CanonicalOrder for (A, B) {
    /// Lexicographic: by the first field, then by the second.
    open spec fn spec_canonical_le(&self, other: &Self) -> bool {
        self.0.spec_canonical_le(&other.0) && (!other.0.spec_canonical_le(&self.0) || self.1.spec_canonical_le(&other.1))
    }

    proof fn lemma_total_ordering() {
        A::lemma_total_ordering();
        B::lemma_total_ordering();
    }

    fn canonical_le(&self, other: &Self) -> (r: bool) {
        self.0.canonical_le(&other.0) && (!other.0.canonical_le(&self.0) || self.1.canonical_le(&other.1))
    }
}

impl CanonicalOrder for bool {
    /// `false` comes before `true`.
    open spec fn spec_canonical_le(&self, other: &Self) -> bool {
        !*self || *other
    }

    proof fn lemma_total_ordering() {
    }

    fn canonical_le(&self, other: &Self) -> (r: bool) {
        !*self || *other
    }
}

} // verus!
