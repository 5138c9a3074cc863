use blake2::{digest::Digest, Blake2s256};
use fingerprint_struct::{encode, fingerprint, fingerprint_with};

#[test]
fn fingerprint_func() {
    let hash = fingerprint::<Blake2s256, _>(("Hello world", 1337));

    assert_eq!(
        hash,
        vec![
            7, 111, 119, 103, 16, 73, 77, 122, 160, 198, 220, 50, 209, 55, 161, 211, 88, 74, 219,
            113, 49, 245, 73, 75, 91, 147, 101, 55, 98, 143, 206, 36
        ]
    );
}

#[test]
fn fingerprint_with_func() {
    let hash = fingerprint_with(("Hello world", 1337), Blake2s256::new());

    assert_eq!(
        hash,
        vec![
            7, 111, 119, 103, 16, 73, 77, 122, 160, 198, 220, 50, 209, 55, 161, 211, 88, 74, 219,
            113, 49, 245, 73, 75, 91, 147, 101, 55, 98, 143, 206, 36
        ]
    );
}

#[test]
fn fingerprint_hashes_the_encoding() {
    let value = ("Hello world", 1337);
    let direct = Blake2s256::digest(encode(&value)).to_vec();
    assert_eq!(fingerprint::<Blake2s256, _>(value), direct);
}

#[test]
fn fingerprint_with_prefix_separates_domains() {
    let plain = fingerprint_with("payload", Blake2s256::new());
    let seeded = fingerprint_with("payload", Blake2s256::new_with_prefix("domain"));
    assert_ne!(plain, seeded);
    assert_eq!(plain.len(), 32);
}

#[test]
fn encode_hello_world() {
    let mut expected = vec![11u8];
    expected.extend_from_slice(b"Hello world");
    expected.extend_from_slice(&[0x39, 0x05, 0, 0]);
    assert_eq!(encode(&("Hello world", 1337)), expected);
}

#[test]
fn fingerprint_is_deterministic() {
    let a = (vec![1u16, 2], Some("x".to_string()));
    let b = (vec![1u16, 2], Some(String::from("x")));
    assert_eq!(encode(&a), encode(&b));
    assert_eq!(fingerprint::<Blake2s256, _>(a), fingerprint::<Blake2s256, _>(b));
}
