use fingerprint_struct::{
    fingerprint_items, fingerprint_seq, write_le, write_signed_varint, write_varint, MockDigest, Sink,
};

fn collect(encode: impl FnOnce(&mut MockDigest)) -> Vec<u8> {
    let mut sink = MockDigest::new();
    encode(&mut sink);
    sink.into_bytes()
}

#[test]
fn little_endian_digits() {
    assert_eq!(collect(|s| write_le(s, 0x0102_0304, 4)), vec![4, 3, 2, 1]);
    assert_eq!(collect(|s| write_le(s, 0x0102_0304, 2)), vec![4, 3]);
    assert_eq!(collect(|s| write_le(s, 7, 0)), Vec::<u8>::new());
}

#[test]
fn varint_digits() {
    assert_eq!(collect(|s| write_varint(s, 0)), vec![0]);
    assert_eq!(collect(|s| write_varint(s, 0b11111110000000)), vec![0b10000000, 0b01111111]);
    assert_eq!(collect(|s| write_varint(s, 16384)), vec![0x80, 0x80, 0x01]);
}

#[test]
fn zigzag_varint() {
    let got: Vec<Vec<u8>> = [0isize, -1, 1, -2, 2]
        .iter()
        .map(|v| collect(|s| write_signed_varint(s, *v)))
        .collect();
    assert_eq!(got, vec![vec![0], vec![1], vec![2], vec![3], vec![4]]);
}

#[test]
fn items_and_sequences() {
    let items = [1u16, 2];
    assert_eq!(collect(|s| fingerprint_items(&items, s)), vec![1, 0, 2, 0]);
    assert_eq!(collect(|s| fingerprint_seq(&items, s)), vec![2, 1, 0, 2, 0]);
    let empty: [u16; 0] = [];
    assert_eq!(collect(|s| fingerprint_seq(&empty, s)), vec![0]);
}

#[test]
fn mock_digest_collects_and_resets() {
    let mut sink = MockDigest::default();
    sink.update(&[1, 2]);
    sink.update(&[3]);
    assert_eq!(sink.as_ref(), &[1, 2, 3]);
    let copy = sink.clone();
    sink.reset();
    assert_eq!(sink.as_ref(), &[] as &[u8]);
    assert_eq!(Vec::<u8>::from(copy), vec![1, 2, 3]);
}
