use std::collections::{BTreeMap, BTreeSet, BinaryHeap, HashMap, HashSet, VecDeque};

use fingerprint_struct::{fingerprint_map, fingerprint_unordered, Fingerprint, MockDigest};

fn bytes_of<A: Fingerprint>(a: A) -> Vec<u8> {
    let mut hasher = MockDigest::default();
    a.fingerprint(&mut hasher);
    hasher.into_bytes()
}

fn assert_same_fingerprint<A: Fingerprint, B: Fingerprint>(a: A, b: B) {
    assert_eq!(bytes_of(a), bytes_of(b));
}

fn unordered_bytes(items: &[i32]) -> Vec<u8> {
    let mut hasher = MockDigest::default();
    fingerprint_unordered(items, &mut hasher);
    hasher.into_bytes()
}

fn map_bytes(entries: &[(u32, i16)]) -> Vec<u8> {
    let mut hasher = MockDigest::default();
    fingerprint_map(entries, &mut hasher);
    hasher.into_bytes()
}

#[test]
fn fingerprint_array_slice() {
    let data: &[u8] = &[1, 2, 3, 4];

    assert_same_fingerprint(data, &[4u8, 1, 2, 3, 4]);
}

#[test]
fn fingerprint_string() {
    assert_same_fingerprint("příklad".to_string(), "příklad");
}

#[test]
fn fingerprint_vec() {
    assert_same_fingerprint(vec![1u8, 2u8, 3u8, 4u8], &[4u8, 1, 2, 3, 4]);
}

#[test]
fn fingerprint_vec_deque() {
    assert_same_fingerprint(VecDeque::from([1, 2, 3, 4]), vec![1, 2, 3, 4]);
}

#[test]
fn fingerprint_btree_set() {
    assert_same_fingerprint(BTreeSet::from([4, 2, 3, 1]), vec![1, 2, 3, 4]);
}

#[test]
fn fingerprint_binary_heap() {
    let heap = BinaryHeap::from([4, 2, 3, 1]);
    let items: Vec<i32> = heap.iter().copied().collect();
    assert_eq!(unordered_bytes(&items), bytes_of(vec![1, 2, 3, 4]));
}

#[test]
fn fingerprint_hash_set() {
    assert_same_fingerprint(HashSet::from([4, 2, 3, 1]), vec![1, 2, 3, 4]);
}

#[test]
fn fingerprint_sets_of_many_items() {
    let items: Vec<u64> = (0..300u64).map(|i| (i * 7919) % 1000).collect();
    let mut sorted = items.clone();
    sorted.sort();
    sorted.dedup();
    let hashed: HashSet<u64> = items.iter().copied().collect();
    let ordered: BTreeSet<u64> = items.iter().copied().collect();
    assert_eq!(bytes_of(hashed), bytes_of(sorted.clone()));
    assert_eq!(bytes_of(ordered), bytes_of(sorted));
}

#[test]
fn fingerprint_btree_map() {
    assert_same_fingerprint(
        BTreeMap::<u32, i16>::from([(4, 1), (2, 2), (3, 3), (1, 4)]),
        Vec::<(u32, i16)>::from([(1, 4), (2, 2), (3, 3), (4, 1)]),
    );
}

#[test]
fn fingerprint_hash_map() {
    assert_same_fingerprint(
        HashMap::<u32, i16>::from([(4, 1), (2, 2), (3, 3), (1, 4)]),
        Vec::<(u32, i16)>::from([(1, 4), (2, 2), (3, 3), (4, 1)]),
    );
}

#[test]
fn map_entries_match_map_types() {
    let entries = [(9u8, "nine".to_string()), (0, "zero".to_string())];
    let hashed: HashMap<u8, String> = entries.iter().cloned().collect();
    let ordered: BTreeMap<u8, String> = entries.iter().cloned().collect();
    let mut listed = MockDigest::default();
    fingerprint_map(&entries, &mut listed);
    assert_eq!(bytes_of(hashed), listed.as_ref());
    assert_eq!(bytes_of(ordered), listed.into_bytes());
}

#[test]
fn unordered_keeps_duplicates() {
    assert_eq!(unordered_bytes(&[3, 1, 3, 2]), bytes_of(vec![1, 2, 3, 3]));
}

#[test]
fn unordered_is_order_independent() {
    assert_eq!(unordered_bytes(&[4, 2, 3, 1]), unordered_bytes(&[1, 4, 3, 2]));
    assert_eq!(unordered_bytes(&[-5, 7, 0]), bytes_of(vec![-5, 0, 7]));
}

#[test]
fn unordered_empty() {
    assert_eq!(unordered_bytes(&[]), vec![0]);
    assert_eq!(map_bytes(&[]), vec![0]);
}

#[test]
fn canonical_order_lists_positions() {
    let items = [30u8, 10, 20];
    assert_eq!(fingerprint_struct::canonical_order(&items[..]), vec![1, 2, 0]);
}

#[test]
fn unordered_booleans() {
    let mut hasher = MockDigest::default();
    fingerprint_unordered(&[true, false, true], &mut hasher);
    assert_eq!(hasher.as_ref(), &[3, 0, 1, 1]);
}

#[test]
fn vec_length_prefix_is_varint() {
    let long = vec![7u8; 200];
    let bytes = bytes_of(long);
    assert_eq!(&bytes[..2], &[0xc8, 0x01]);
    assert_eq!(bytes.len(), 202);
}

#[test]
fn unordered_chars_and_pairs() {
    let mut chars = MockDigest::default();
    fingerprint_unordered(&['c', 'a', 'b'], &mut chars);
    assert_eq!(chars.into_bytes(), bytes_of(vec!['a', 'b', 'c']));

    let mut pairs = MockDigest::default();
    fingerprint_unordered(&[(2u8, 1u8), (1, 9), (2, 0)], &mut pairs);
    assert_eq!(pairs.into_bytes(), bytes_of(vec![(1u8, 9u8), (2, 0), (2, 1)]));
}

#[test]
fn map_with_signed_keys() {
    let mut hasher = MockDigest::default();
    fingerprint_map(&[(5i8, "five"), (-1, "minus one")], &mut hasher);
    assert_eq!(hasher.into_bytes(), bytes_of(vec![(-1i8, "minus one"), (5, "five")]));
}
