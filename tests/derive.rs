use fingerprint_struct::{
    discriminants, fingerprint_discriminant, get_int_repr, Fingerprint, IntRepr, MockDigest, Sink,
};

fn bytes_of<A: Fingerprint>(a: A) -> Vec<u8> {
    let mut hasher = MockDigest::default();
    a.fingerprint(&mut hasher);
    hasher.into_bytes()
}

/// Runs `encode` on a fresh collecting sink and returns what it collected.
fn collect(encode: impl FnOnce(&mut MockDigest)) -> Vec<u8> {
    let mut hasher = MockDigest::default();
    encode(&mut hasher);
    hasher.into_bytes()
}

/// The discriminant of variant `index` of a sum type declaring `explicit`
/// and the representation arguments `repr`, appended to `sink`.
fn tag<S: Sink>(repr: &[&str], explicit: &[Option<i128>], index: usize, sink: &mut S) {
    let values = discriminants(explicit).unwrap();
    fingerprint_discriminant(get_int_repr(repr), values[index], sink);
}

#[test]
fn derive_struct_unit() {
    struct Struct;

    let _value = Struct;
    assert_eq!(collect(|_sink| {}), bytes_of(()));
}

#[test]
fn derive_struct_tuple() {
    struct Struct(u8, u16, u32);

    let value = Struct(1, 2, 3);
    let encoded = collect(|sink| {
        value.0.fingerprint(sink);
        value.1.fingerprint(sink);
        value.2.fingerprint(sink);
    });
    assert_eq!(encoded, bytes_of((1u8, 2u16, 3u32)));
}

#[test]
fn derive_struct_fields() {
    struct Struct {
        a: u8,
        b: u16,
        c: u32,
    }

    let value = Struct { a: 1, b: 2, c: 3 };
    let encoded = collect(|sink| {
        value.a.fingerprint(sink);
        value.b.fingerprint(sink);
        value.c.fingerprint(sink);
    });
    assert_eq!(encoded, bytes_of((1u8, 2u16, 3u32)));
}

#[test]
fn derive_enum_unit() {
    let explicit = [None, None, None];

    assert_eq!(collect(|sink| tag(&[], &explicit, 0, sink)), bytes_of(0isize));
    assert_eq!(collect(|sink| tag(&[], &explicit, 1, sink)), bytes_of(1isize));
    assert_eq!(collect(|sink| tag(&[], &explicit, 2, sink)), bytes_of(2isize));
}

#[test]
fn derive_enum_unit_discriminant() {
    let repr = ["u16"];
    let explicit = [None, Some(1337), None, Some(5)];

    assert_eq!(collect(|sink| tag(&repr, &explicit, 0, sink)), bytes_of(0u16));
    assert_eq!(collect(|sink| tag(&repr, &explicit, 1, sink)), bytes_of(1337u16));
    assert_eq!(collect(|sink| tag(&repr, &explicit, 2, sink)), bytes_of(1338u16));
    assert_eq!(collect(|sink| tag(&repr, &explicit, 3, sink)), bytes_of(5u16));
}

#[test]
fn derive_enum_tuple() {
    let explicit = [None, None];

    let a = collect(|sink| {
        tag(&[], &explicit, 0, sink);
        1u8.fingerprint(sink);
        2u16.fingerprint(sink);
    });
    assert_eq!(a, bytes_of((0isize, 1u8, 2u16)));

    let b = collect(|sink| {
        tag(&[], &explicit, 1, sink);
        1u32.fingerprint(sink);
        2i64.fingerprint(sink);
    });
    assert_eq!(b, bytes_of((1isize, 1u32, 2u64)));
}

#[test]
fn derive_enum_fields() {
    enum Enum {
        A { a: u8, b: u16 },
        B { a: u32, b: i64 },
    }

    let encode = |value: &Enum| {
        collect(|sink| match value {
            Enum::A { a, b } => {
                tag(&[], &[None, None], 0, sink);
                a.fingerprint(sink);
                b.fingerprint(sink);
            }
            Enum::B { a, b } => {
                tag(&[], &[None, None], 1, sink);
                a.fingerprint(sink);
                b.fingerprint(sink);
            }
        })
    };

    assert_eq!(encode(&Enum::A { a: 1, b: 2 }), bytes_of((0isize, 1u8, 2u16)));
    assert_eq!(encode(&Enum::B { a: 1, b: 2 }), bytes_of((1isize, 1u32, 2u64)));
}

#[test]
fn derive_enum_field_named_hasher() {
    let hasher = 1337u32;
    let encoded = collect(|sink| {
        tag(&[], &[None], 0, sink);
        hasher.fingerprint(sink);
    });
    assert_eq!(encoded, bytes_of((0isize, 1337u32)));
}

#[test]
fn derive_struct_generic() {
    struct Struct<T>(T);

    let value = Struct(1337u32);
    assert_eq!(collect(|sink| value.0.fingerprint(sink)), bytes_of(1337u32));
}

#[test]
fn derive_struct_generic_bound() {
    struct Struct<T: From<u8>>(T);

    let value = Struct(1337u32);
    assert_eq!(collect(|sink| value.0.fingerprint(sink)), bytes_of(1337u32));
}

#[test]
fn derive_struct_generic_where() {
    struct Struct<T>(T)
    where
        u8: Into<T>;

    let value = Struct(1337u32);
    assert_eq!(collect(|sink| value.0.fingerprint(sink)), bytes_of(1337u32));
}

#[test]
fn derive_struct_generic_as_field_generic() {
    struct Struct<T>(Option<T>);

    let value = Struct(Some(1337u32));
    assert_eq!(collect(|sink| value.0.fingerprint(sink)), bytes_of(Some(1337u32)));
}

#[test]
fn explicit_discriminant_sizes() {
    let mut hasher = MockDigest::new();
    fingerprint_discriminant(IntRepr::I8, -1, &mut hasher);
    fingerprint_discriminant(IntRepr::U32, 7, &mut hasher);
    fingerprint_discriminant(IntRepr::Usize, 300, &mut hasher);
    assert_eq!(hasher.as_ref(), &[0xff, 7, 0, 0, 0, 0xac, 0x02]);
}
