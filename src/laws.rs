use vstd::prelude::*;
use vstd::relations::{sorted_by, total_ordering};
use vstd::seq_lib::lemma_sorted_unique;

use crate::canonical::{canonical_leq, unordered_encoding, CanonicalOrder};
use crate::collections::{lemma_same_items_same_multiset, lemma_to_seq_no_duplicates, set_encoding};
use crate::composite::seq_encoding;
use crate::discriminant::discriminant_value;
use crate::fingerprint::Fingerprint;
use crate::scalar::{lemma_le_bytes_single, varint, zigzag};

verus! {

/// Structurally equal values have the same encoding.
pub proof fn lemma_deterministic<T: Fingerprint>(a: T, b: T)
    requires
        a == b,
    ensures
        a.encoding() == b.encoding(),
{
}

/// The encoding of an unordered collection depends only on which items it
/// holds, and how often: never on the order in which they are listed.
pub proof fn lemma_unordered_ignores_order<T: CanonicalOrder>(a: Seq<T>, b: Seq<T>)
    requires
        a.to_multiset() == b.to_multiset(),
    ensures
        unordered_encoding(a) == unordered_encoding(b),
{
    let leq = canonical_leq::<T>();
    T::lemma_total_ordering();
    assert(total_ordering(leq));
    a.lemma_sort_by_ensures(leq);
    b.lemma_sort_by_ensures(leq);
    lemma_sorted_unique(a.sort_by(leq), b.sort_by(leq), leq);
}

/// An unordered collection is encoded as the ordered sequence of its items in
/// canonical order.
pub proof fn lemma_unordered_as_sorted_sequence<T: CanonicalOrder>(s: Seq<T>)
    requires
        sorted_by(s, canonical_leq::<T>()),
    ensures
        unordered_encoding(s) == seq_encoding(s),
{
    let leq = canonical_leq::<T>();
    T::lemma_total_ordering();
    assert(total_ordering(leq));
    s.lemma_sort_by_ensures(leq);
    lemma_sorted_unique(s.sort_by(leq), s, leq);
}

/// A set is encoded as the sequence of its items in canonical order: the set
/// `{4, 2, 3, 1}` as the list `[1, 2, 3, 4]`.
pub proof fn lemma_set_as_sorted_sequence<T: CanonicalOrder>(s: Set<T>, q: Seq<T>)
    requires
        s.finite(),
        q.no_duplicates(),
        q.to_set() == s,
        sorted_by(q, canonical_leq::<T>()),
    ensures
        set_encoding(s) == seq_encoding(q),
{
    lemma_to_seq_no_duplicates(s);
    lemma_same_items_same_multiset(s.to_seq(), q);
    lemma_unordered_ignores_order(s.to_seq(), q);
    lemma_unordered_as_sorted_sequence(q);
}

/// An optional value is encoded as a tagged union: a present value as the
/// pair of the tag `0u8` and the value, absence as the tag `1u8` alone.
pub proof fn lemma_option_as_tagged_union<T: Fingerprint>(v: T)
    ensures
        Some(v).encoding() == (0u8, v).encoding(),
        None::<T>.encoding() == 1u8.encoding(),
{
    lemma_le_bytes_single(0);
    lemma_le_bytes_single(1);
}

/// A result is encoded as a tagged union: success as the pair of the tag
/// `0u8` and its value, failure as the pair of the tag `1u8` and its value.
pub proof fn lemma_result_as_tagged_union<T: Fingerprint, E: Fingerprint>(v: T, e: E)
    ensures
        Ok::<T, E>(v).encoding() == (0u8, v).encoding(),
        Err::<T, E>(e).encoding() == (1u8, e).encoding(),
{
    lemma_le_bytes_single(0);
    lemma_le_bytes_single(1);
}

/// Variable-length sizes are self-delimiting: a stream that starts with the
/// encoding of one size starts with the encoding of no other, so the size and
/// what follows it are read back uniquely.
pub proof fn lemma_varint_self_delimiting(a: nat, b: nat, rest_a: Seq<u8>, rest_b: Seq<u8>)
    requires
        varint(a) + rest_a == varint(b) + rest_b,
    ensures
        a == b,
        rest_a == rest_b,
    decreases a,
{
    let (sa, sb) = (varint(a) + rest_a, varint(b) + rest_b);
    assert(sa[0] == sb[0]);
    if a < 128 && b < 128 {
        assert(sa[0] == a as u8 && sb[0] == b as u8);
        assert(rest_a =~= sa.drop_first());
        assert(rest_b =~= sb.drop_first());
    } else if a < 128 {
        assert(sa[0] == a as u8);
        assert(sb[0] == (b % 128 + 128) as u8);
    } else if b < 128 {
        assert(sb[0] == b as u8);
        assert(sa[0] == (a % 128 + 128) as u8);
    } else {
        assert(sa[0] == (a % 128 + 128) as u8 && sb[0] == (b % 128 + 128) as u8);
        assert(varint(a / 128) + rest_a =~= sa.drop_first());
        assert(varint(b / 128) + rest_b =~= sb.drop_first());
        lemma_varint_self_delimiting(a / 128, b / 128, rest_a, rest_b);
    }
}

/// Zig-zag mapping is one to one: distinct signed sizes never share an encoding.
pub proof fn lemma_zigzag_injective(a: int, b: int)
    requires
        zigzag(a) == zigzag(b),
    ensures
        a == b,
{
}

/// Zig-zag mapping is onto: every unsigned value encodes some signed one,
/// the even values the non-negative ones, the odd values the negative ones.
pub proof fn lemma_zigzag_onto(n: nat)
    ensures
        n % 2 == 0 ==> zigzag(n as int / 2) == n,
        n % 2 == 1 ==> zigzag(-(n as int + 1) / 2) == n,
{
}

/// When no variant declares a value, the variants are numbered 0, 1, 2, ...
/// in declaration order.
pub proof fn lemma_implicit_discriminants_count(explicit: Seq<Option<int>>, i: int)
    requires
        0 <= i < explicit.len(),
        forall|k: int| 0 <= k < explicit.len() ==> explicit[k] is None,
    ensures
        discriminant_value(explicit, i) == i,
    decreases i,
{
    if i > 0 {
        lemma_implicit_discriminants_count(explicit, i - 1);
    }
}

} // verus!
