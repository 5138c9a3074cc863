use vstd::prelude::*;
use vstd::relations::total_ordering;
use vstd::seq_lib::{lemma_sorted_unique, seq_to_set_is_finite};
use vstd::std_specs::hash::{
    axiom_hashmap_view_finite_dom, axiom_random_state_builds_valid_hashers,
    axiom_spec_hash_keys_iter, axiom_spec_hash_map_iter, obeys_key_model, spec_hash_keys_iter,
    spec_hash_map_iter,
};
use vstd::std_specs::iter::IteratorSpec;
use vstd::std_specs::btree::{
    axiom_btree_map_view_finite_dom, axiom_key_obeys_cmp_spec_meaning, axiom_spec_btree_keys_iter,
    axiom_spec_btree_map_iter, key_obeys_cmp_spec, spec_btree_keys_iter, spec_btree_map_iter,
};
use std::collections::{BTreeMap, BTreeSet, HashMap, HashSet};

use crate::canonical::{
    canonical_leq, entry_with_key, fingerprint_map, fingerprint_unordered, keys_of, map_encoding,
    unordered_encoding, CanonicalOrder,
};
use crate::composite::{concat_encodings, seq_encoding};
use crate::fingerprint::Fingerprint;
use crate::laws::lemma_unordered_ignores_order;
use crate::sink::Sink;

verus! {

/// A type whose values can key the standard sets and maps and be copied out
/// of them.
pub trait CollectionKey: CanonicalOrder + Copy + Ord {
    /// Hashing and equality of this type behave as the hash table's model asks.
    proof fn lemma_obeys_key_model()
        ensures
            obeys_key_model::<Self>(),
    ;

    /// Comparison of this type behaves as the ordered collections' model asks.
    proof fn lemma_obeys_cmp()
        ensures
            key_obeys_cmp_spec::<Self>(),
    ;
}

/// A finite set: its items listed in canonical order, as an unordered collection.
pub open spec fn set_encoding<T: CanonicalOrder>(s: Set<T>) -> Seq<u8> {
    unordered_encoding(s.to_seq())
}

/// Listing a finite set repeats no item.
pub proof fn lemma_to_seq_no_duplicates<A>(s: Set<A>)
    requires
        s.finite(),
    ensures
        s.to_seq().no_duplicates(),
        s.to_seq().to_set() == s,
    decreases s.len(),
{
    s.lemma_to_seq_to_set_id();
    if s.len() > 0 {
        let x = s.choose();
        let rest = s.remove(x);
        lemma_to_seq_no_duplicates(rest);
        assert(s.contains(x));
        let q = s.to_seq();
        assert(q == seq![x] + rest.to_seq());
        assert forall|i: int, j: int| 0 <= i < q.len() && 0 <= j < q.len() && i != j implies q[i]
            != q[j] by {
            if i == 0 && j > 0 {
                assert(rest.to_seq().contains(q[j]));
                assert(rest.to_seq().to_set().contains(q[j]));
            } else if j == 0 && i > 0 {
                assert(rest.to_seq().contains(q[i]));
                assert(rest.to_seq().to_set().contains(q[i]));
            } else if i > 0 && j > 0 {
                assert(q[i] == rest.to_seq()[i - 1] && q[j] == rest.to_seq()[j - 1]);
            }
        }
    }
}

/// Two lists without repeats that hold the same items hold them equally often.
pub proof fn lemma_same_items_same_multiset<A>(a: Seq<A>, b: Seq<A>)
    requires
        a.no_duplicates(),
        b.no_duplicates(),
        a.to_set() == b.to_set(),
    ensures
        a.to_multiset() == b.to_multiset(),
{
    broadcast use vstd::seq_lib::group_to_multiset_ensures;

    a.lemma_multiset_has_no_duplicates();
    b.lemma_multiset_has_no_duplicates();
    assert forall|x: A| a.to_multiset().count(x) == b.to_multiset().count(x) by {
        if a.contains(x) {
            assert(a.to_set().contains(x));
            assert(b.contains(x));
        } else {
            assert(!a.to_set().contains(x));
            assert(!b.contains(x));
        }
    }
    assert(a.to_multiset() =~= b.to_multiset());
}

/// A finite map: its keys in canonical order, each with its value, encoded as
/// a sequence of pairs.
pub open spec fn map_view_encoding<K: CanonicalOrder, V: Fingerprint>(m: Map<K, V>) -> Seq<u8> {
    seq_encoding(m.dom().to_seq().sort_by(canonical_leq::<K>()).map_values(|k: K| (k, m[k])))
}

/// Lists whose items have, one for one, equal encodings have equal concatenated encodings.
pub proof fn lemma_concat_pointwise<A: Fingerprint, B: Fingerprint>(a: Seq<A>, b: Seq<B>)
    requires
        a.len() == b.len(),
        forall|i: int| 0 <= i < a.len() ==> #[trigger] a[i].encoding() == b[i].encoding(),
    ensures
        concat_encodings(a) == concat_encodings(b),
    decreases a.len(),
{
    if a.len() > 0 {
        let (ra, rb) = (a.drop_last(), b.drop_last());
        assert forall|i: int| 0 <= i < ra.len() implies #[trigger] ra[i].encoding()
            == rb[i].encoding() by {
            assert(ra[i] == a[i] && rb[i] == b[i]);
        }
        lemma_concat_pointwise(ra, rb);
        assert(a.last().encoding() == b.last().encoding());
    }
}

/// Entries listed with each key once, each with the value that `m` gives
/// it, and with every key of `m`, are encoded as `m` is.
pub proof fn lemma_entries_encode_map<K: CanonicalOrder, V: Fingerprint>(
    entries: Seq<(K, &V)>,
    m: Map<K, V>,
)
    requires
        m.dom().finite(),
        keys_of(entries).no_duplicates(),
        keys_of(entries).to_set() == m.dom(),
        forall|i: int|
            0 <= i < entries.len() ==> m.contains_key(#[trigger] entries[i].0) && m[entries[i].0]
                == *entries[i].1,
    ensures
        map_encoding(entries) == map_view_encoding(m),
{
    let leq = canonical_leq::<K>();
    K::lemma_total_ordering();
    assert(total_ordering(leq));
    let keys = keys_of(entries);
    let listed = m.dom().to_seq();
    lemma_to_seq_no_duplicates(m.dom());
    lemma_same_items_same_multiset(keys, listed);
    keys.lemma_sort_by_ensures(leq);
    listed.lemma_sort_by_ensures(leq);
    lemma_sorted_unique(keys.sort_by(leq), listed.sort_by(leq), leq);
    let sorted = keys.sort_by(leq);
    let from_entries = sorted.map_values(|k: K| entry_with_key(entries, k));
    let from_map = sorted.map_values(|k: K| (k, m[k]));
    assert forall|i: int| 0 <= i < from_entries.len() implies #[trigger] from_entries[i].encoding()
        == from_map[i].encoding() by {
        let k = sorted[i];
        assert(sorted.contains(k));
        assert(keys.to_multiset().contains(k)) by {
            broadcast use vstd::seq_lib::group_to_multiset_ensures;

        }
        assert(keys.contains(k)) by {
            broadcast use vstd::seq_lib::group_to_multiset_ensures;

        }
        let j = choose|j: int| 0 <= j < keys.len() && keys[j] == k;
        assert(entries[j].0 == k);
        let c = choose|c: int| 0 <= c < entries.len() && entries[c].0 == k;
        assert(entries[c].0 == k);
        assert(m[k] == *entries[c].1);
    }
    lemma_concat_pointwise(from_entries, from_map);
}

/// The entries copied out of a map's listing name each key once, with the
/// value that the map gives it, and every key of the map.
proof fn lemma_listed_entries<K, V>(entries: Seq<(K, &V)>, listed: Seq<(&K, &V)>, m: Map<K, V>)
    requires
        m.dom().finite(),
        entries.len() == listed.len(),
        listed.len() == m.dom().len(),
        forall|i: int| 0 <= i < entries.len() ==> #[trigger] entries[i] == (*listed[i].0, listed[i].1),
        forall|i: int|
            #![trigger m.contains_key(*listed[i].0)]
            0 <= i < listed.len() ==> m.contains_key(*listed[i].0) && m[*listed[i].0] == *listed[i].1,
        forall|k: K| #[trigger] m.contains_key(k) ==> listed.contains((&k, &m[k])),
    ensures
        keys_of(entries).no_duplicates(),
        keys_of(entries).to_set() == m.dom(),
        forall|i: int|
            0 <= i < entries.len() ==> m.contains_key(#[trigger] entries[i].0) && m[entries[i].0]
                == *entries[i].1,
{
    let keys = keys_of(entries);
    assert forall|i: int| 0 <= i < entries.len() implies m.contains_key(#[trigger] entries[i].0)
        && m[entries[i].0] == *entries[i].1 by {
        assert(entries[i] == (*listed[i].0, listed[i].1));
        assert(m.contains_key(*listed[i].0));
    }
    assert forall|k: K| keys.to_set().contains(k) <==> m.dom().contains(k) by {
        if m.dom().contains(k) {
            assert(m.contains_key(k));
            assert(listed.contains((&k, &m[k])));
            let i = choose|i: int| 0 <= i < listed.len() && listed[i] == (&k, &m[k]);
            assert(entries[i].0 == k);
            assert(keys[i] == k);
        }
        if keys.to_set().contains(k) {
            let i = choose|i: int| 0 <= i < keys.len() && keys[i] == k;
            assert(entries[i].0 == k);
        }
    }
    assert(keys.to_set() =~= m.dom());
    keys.lemma_no_dup_set_cardinality();
}

impl<T: CollectionKey> Fingerprint for HashSet<T> {
    /// Its items sorted by the canonical order, then encoded as a sequence.
    open spec fn encoding(&self) -> Seq<u8> {
        set_encoding(self@)
    }

    fn fingerprint<S: Sink>(&self, sink: &mut S) {
        broadcast use axiom_random_state_builds_valid_hashers;

        proof {
            T::lemma_obeys_key_model();
            axiom_spec_hash_keys_iter(self);
        }
        let ghost listed = spec_hash_keys_iter(self).remaining().unref();
        let mut items: Vec<T> = Vec::new();
        for x in it: self.iter()
            invariant
                it.seq().unref() == listed,
                items@ == it.seq().take(it.index() as int).unref(),
        {
            items.push(*x);
            proof {
                assert(it.seq().take(it.index() + 1).unref() =~= it.seq().take(
                    it.index() as int,
                ).unref().push(*x));
            }
        }
        proof {
            assert(items@ =~= listed);
            seq_to_set_is_finite(listed);
            lemma_to_seq_no_duplicates(self@);
            lemma_same_items_same_multiset(items@, self@.to_seq());
            lemma_unordered_ignores_order(items@, self@.to_seq());
        }
        fingerprint_unordered(items.as_slice(), sink);
    }
}

impl<T: CollectionKey> Fingerprint for BTreeSet<T> {
    /// Its items in canonical order, encoded as a sequence.
    open spec fn encoding(&self) -> Seq<u8> {
        set_encoding(self@)
    }

    fn fingerprint<S: Sink>(&self, sink: &mut S) {
        proof {
            T::lemma_obeys_cmp();
            axiom_spec_btree_keys_iter(self);
        }
        let ghost listed = spec_btree_keys_iter(self).remaining().unref();
        let mut items: Vec<T> = Vec::new();
        for x in it: self.iter()
            invariant
                it.seq().unref() == listed,
                items@ == it.seq().take(it.index() as int).unref(),
        {
            items.push(*x);
            proof {
                assert(it.seq().take(it.index() + 1).unref() =~= it.seq().take(
                    it.index() as int,
                ).unref().push(*x));
            }
        }
        proof {
            assert(items@ =~= listed);
            seq_to_set_is_finite(listed);
            lemma_to_seq_no_duplicates(self@);
            lemma_same_items_same_multiset(items@, self@.to_seq());
            lemma_unordered_ignores_order(items@, self@.to_seq());
        }
        fingerprint_unordered(items.as_slice(), sink);
    }
}


impl CollectionKey for u8 {
    proof fn lemma_obeys_key_model() {
        broadcast use vstd::std_specs::hash::group_hash_axioms;

    }

    proof fn lemma_obeys_cmp() {
        broadcast use vstd::laws_cmp::group_laws_cmp, axiom_key_obeys_cmp_spec_meaning;

    }
}

impl CollectionKey for u16 {
    proof fn lemma_obeys_key_model() {
        broadcast use vstd::std_specs::hash::group_hash_axioms;

    }

    proof fn lemma_obeys_cmp() {
        broadcast use vstd::laws_cmp::group_laws_cmp, axiom_key_obeys_cmp_spec_meaning;

    }
}

impl CollectionKey for u32 {
    proof fn lemma_obeys_key_model() {
        broadcast use vstd::std_specs::hash::group_hash_axioms;

    }

    proof fn lemma_obeys_cmp() {
        broadcast use vstd::laws_cmp::group_laws_cmp, axiom_key_obeys_cmp_spec_meaning;

    }
}

impl CollectionKey for u64 {
    proof fn lemma_obeys_key_model() {
        broadcast use vstd::std_specs::hash::group_hash_axioms;

    }

    proof fn lemma_obeys_cmp() {
        broadcast use vstd::laws_cmp::group_laws_cmp, axiom_key_obeys_cmp_spec_meaning;

    }
}

impl CollectionKey for u128 {
    proof fn lemma_obeys_key_model() {
        broadcast use vstd::std_specs::hash::group_hash_axioms;

    }

    proof fn lemma_obeys_cmp() {
        broadcast use vstd::laws_cmp::group_laws_cmp, axiom_key_obeys_cmp_spec_meaning;

    }
}

impl CollectionKey for usize {
    proof fn lemma_obeys_key_model() {
        broadcast use vstd::std_specs::hash::group_hash_axioms;

    }

    proof fn lemma_obeys_cmp() {
        broadcast use vstd::laws_cmp::group_laws_cmp, axiom_key_obeys_cmp_spec_meaning;

    }
}

impl CollectionKey for i8 {
    proof fn lemma_obeys_key_model() {
        broadcast use vstd::std_specs::hash::group_hash_axioms;

    }

    proof fn lemma_obeys_cmp() {
        broadcast use vstd::laws_cmp::group_laws_cmp, axiom_key_obeys_cmp_spec_meaning;

    }
}

impl CollectionKey for i16 {
    proof fn lemma_obeys_key_model() {
        broadcast use vstd::std_specs::hash::group_hash_axioms;

    }

    proof fn lemma_obeys_cmp() {
        broadcast use vstd::laws_cmp::group_laws_cmp, axiom_key_obeys_cmp_spec_meaning;

    }
}

impl CollectionKey for i32 {
    proof fn lemma_obeys_key_model() {
        broadcast use vstd::std_specs::hash::group_hash_axioms;

    }

    proof fn lemma_obeys_cmp() {
        broadcast use vstd::laws_cmp::group_laws_cmp, axiom_key_obeys_cmp_spec_meaning;

    }
}

impl CollectionKey for i64 {
    proof fn lemma_obeys_key_model() {
        broadcast use vstd::std_specs::hash::group_hash_axioms;

    }

    proof fn lemma_obeys_cmp() {
        broadcast use vstd::laws_cmp::group_laws_cmp, axiom_key_obeys_cmp_spec_meaning;

    }
}

impl CollectionKey for i128 {
    proof fn lemma_obeys_key_model() {
        broadcast use vstd::std_specs::hash::group_hash_axioms;

    }

    proof fn lemma_obeys_cmp() {
        broadcast use vstd::laws_cmp::group_laws_cmp, axiom_key_obeys_cmp_spec_meaning;

    }
}

impl CollectionKey for isize {
    proof fn lemma_obeys_key_model() {
        broadcast use vstd::std_specs::hash::group_hash_axioms;

    }

    proof fn lemma_obeys_cmp() {
        broadcast use vstd::laws_cmp::group_laws_cmp, axiom_key_obeys_cmp_spec_meaning;

    }
}

impl<K: CollectionKey, V: Fingerprint> Fingerprint for HashMap<K, V> {
    /// Its entries ordered by key, encoded as a sequence of pairs.
    open spec fn encoding(&self) -> Seq<u8> {
        map_view_encoding(self@)
    }

    fn fingerprint<S: Sink>(&self, sink: &mut S) {
        broadcast use axiom_random_state_builds_valid_hashers;

        proof {
            K::lemma_obeys_key_model();
            axiom_spec_hash_map_iter(self);
            axiom_hashmap_view_finite_dom(*self);
        }
        let ghost listed = spec_hash_map_iter(self).remaining();
        let mut entries: Vec<(K, &V)> = Vec::new();
        for e in it: self.iter()
            invariant
                it.seq() == listed,
                entries@.len() == it.index(),
                forall|i: int|
                    0 <= i < it.index() ==> #[trigger] entries@[i] == (*listed[i].0, listed[i].1),
        {
            entries.push((*e.0, e.1));
        }
        proof {
            lemma_listed_entries(entries@, listed, self@);
        }
        fingerprint_map(entries.as_slice(), sink);
        proof {
            lemma_entries_encode_map(entries@, self@);
        }
    }
}

impl<K: CollectionKey, V: Fingerprint> Fingerprint for BTreeMap<K, V> {
    /// Its entries ordered by key, encoded as a sequence of pairs.
    open spec fn encoding(&self) -> Seq<u8> {
        map_view_encoding(self@)
    }

    fn fingerprint<S: Sink>(&self, sink: &mut S) {
        proof {
            K::lemma_obeys_cmp();
            axiom_spec_btree_map_iter(self);
            axiom_btree_map_view_finite_dom(*self);
        }
        let ghost listed = spec_btree_map_iter(self).remaining();
        let mut entries: Vec<(K, &V)> = Vec::new();
        for e in it: self.iter()
            invariant
                it.seq() == listed,
                entries@.len() == it.index(),
                forall|i: int|
                    0 <= i < it.index() ==> #[trigger] entries@[i] == (*listed[i].0, listed[i].1),
        {
            entries.push((*e.0, e.1));
        }
        proof {
            lemma_listed_entries(entries@, listed, self@);
        }
        fingerprint_map(entries.as_slice(), sink);
        proof {
            lemma_entries_encode_map(entries@, self@);
        }
    }
}

} // verus!
