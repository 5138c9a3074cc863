use fingerprint_struct::{Fingerprint, MockDigest};

fn assert_fingerprint<T: Fingerprint>(value: T, fingerprint: &[u8]) {
    let mut hasher = MockDigest::default();
    value.fingerprint(&mut hasher);
    assert_eq!(hasher.as_ref(), fingerprint);
}

#[test]
fn fingerprint_u8() {
    assert_fingerprint(42u8, &[42]);
}

#[test]
fn fingerprint_u16() {
    assert_fingerprint(0x1337u16, &[0x37, 0x13]);
}

#[test]
fn fingerprint_u32() {
    assert_fingerprint(0x1337beefu32, &[0xef, 0xbe, 0x37, 0x13]);
}

#[test]
fn fingerprint_u64() {
    assert_fingerprint(
        0x7766554433221100u64,
        &[0x00, 0x11, 0x22, 0x33, 0x44, 0x55, 0x66, 0x77],
    );
}

#[test]
fn fingerprint_u128() {
    assert_fingerprint(
        0xffeeddccbbaa99887766554433221100u128,
        &[
            0x00, 0x11, 0x22, 0x33, 0x44, 0x55, 0x66, 0x77, 0x88, 0x99, 0xaa, 0xbb, 0xcc, 0xdd,
            0xee, 0xff,
        ],
    );
}

#[test]
fn fingerprint_i8() {
    assert_fingerprint(-2i8, &[0xfe]);
}

#[test]
fn fingerprint_i16() {
    assert_fingerprint(-2i16, &[0xfe, 0xff]);
}

#[test]
fn fingerprint_i32() {
    assert_fingerprint(-2i32, &[0xfe, 0xff, 0xff, 0xff]);
}

#[test]
fn fingerprint_i64() {
    assert_fingerprint(-2i64, &[0xfe, 0xff, 0xff, 0xff, 0xff, 0xff, 0xff, 0xff]);
}

#[test]
fn fingerprint_i128() {
    assert_fingerprint(
        -2i128,
        &[
            0xfe, 0xff, 0xff, 0xff, 0xff, 0xff, 0xff, 0xff, 0xff, 0xff, 0xff, 0xff, 0xff, 0xff,
            0xff, 0xff,
        ],
    );
}

#[test]
fn fingerprint_usize() {
    assert_fingerprint(0usize, &[0]);
    assert_fingerprint(0b11111110000000usize, &[0b10000000, 0b01111111]);
}

#[test]
fn fingerprint_isize() {
    assert_fingerprint(0isize, &[0]);
    assert_fingerprint(-1isize, &[1]);
    assert_fingerprint(1isize, &[2]);
    assert_fingerprint(-2isize, &[3]);
    assert_fingerprint(2isize, &[4]);

    assert_fingerprint(-0b1111111isize, &[0b11111101, 0b00000001]);
}

#[test]
fn fingerprint_char() {
    assert_fingerprint('a', &[0x61, 0, 0, 0]);
    assert_fingerprint('🦀', &[0x80, 0xf9, 0x01, 0]);
}

#[test]
fn fingerprint_bool() {
    assert_fingerprint(false, &[0]);
    assert_fingerprint(true, &[1]);
}

#[test]
fn fingerprint_signed_extremes() {
    assert_fingerprint(i8::MIN, &[0x80]);
    assert_fingerprint(i8::MAX, &[0x7f]);
    assert_fingerprint(i16::MIN, &[0x00, 0x80]);
    assert_fingerprint(-1i32, &[0xff, 0xff, 0xff, 0xff]);
    let mut min128 = vec![0u8; 15];
    min128.push(0x80);
    assert_fingerprint(i128::MIN, &min128);
    assert_fingerprint(i128::MAX, &{
        let mut v = vec![0xffu8; 15];
        v.push(0x7f);
        v
    });
}

#[test]
fn fingerprint_unsigned_extremes() {
    assert_fingerprint(u8::MAX, &[0xff]);
    assert_fingerprint(u64::MAX, &[0xff; 8]);
    assert_fingerprint(u128::MAX, &[0xff; 16]);
    assert_fingerprint(0u32, &[0, 0, 0, 0]);
}

#[test]
fn fingerprint_usize_varint_edges() {
    assert_fingerprint(127usize, &[0x7f]);
    assert_fingerprint(128usize, &[0x80, 0x01]);
    assert_fingerprint(300usize, &[0xac, 0x02]);
    assert_fingerprint(
        u32::MAX as usize,
        &[0xff, 0xff, 0xff, 0xff, 0x0f],
    );
    let mut expected = vec![0xffu8; (usize::BITS as usize + 6) / 7 - 1];
    expected.push((usize::MAX >> (7 * expected.len())) as u8);
    assert_fingerprint(usize::MAX, &expected);
}

#[test]
fn fingerprint_isize_zigzag_edges() {
    assert_fingerprint(63isize, &[126]);
    assert_fingerprint(-64isize, &[127]);
    assert_fingerprint(64isize, &[0x80, 0x01]);
    let mut zigzag_max = MockDigest::new();
    usize::MAX.fingerprint(&mut zigzag_max);
    assert_fingerprint(isize::MIN, zigzag_max.as_ref());
    let mut zigzag_second = MockDigest::new();
    (usize::MAX - 1).fingerprint(&mut zigzag_second);
    assert_fingerprint(isize::MAX, zigzag_second.as_ref());
}

#[test]
fn fingerprint_float_bits() {
    assert_fingerprint(12.34f32.to_bits(), &[0xa4, 0x70, 0x45, 0x41]);
    assert_fingerprint(f64::INFINITY.to_bits(), &[0, 0, 0, 0, 0, 0, 0xf0, 0x7f]);
}
