use fingerprint_struct::{
    add_discriminant, check_ident_name, discriminants, get_int_repr, int_repr_named_by,
    DiscriminantSource, IntRepr,
};

#[test]
fn implicit_discriminants_count_from_zero() {
    assert_eq!(discriminants(&[None, None, None]), Some(vec![0, 1, 2]));
}

#[test]
fn implicit_discriminant_follows_explicit() {
    assert_eq!(
        discriminants(&[None, Some(1337), None, Some(5)]),
        Some(vec![0, 1337, 1338, 5])
    );
    assert_eq!(
        discriminants(&[Some(-3), None, None, Some(10), None]),
        Some(vec![-3, -2, -1, 10, 11])
    );
}

#[test]
fn discriminants_of_no_variants() {
    assert_eq!(discriminants(&[]), Some(vec![]));
}

#[test]
fn discriminant_overflow_is_reported() {
    assert_eq!(discriminants(&[Some(i128::MAX), None]), None);
    assert_eq!(discriminants(&[Some(i128::MAX)]), Some(vec![i128::MAX]));
}

#[test]
fn add_discriminant_sources() {
    let mut numbering = add_discriminant();
    assert_eq!(numbering.next(false), DiscriminantSource { base: None, offset: 0 });
    assert_eq!(numbering.next(false), DiscriminantSource { base: None, offset: 1 });
    assert_eq!(numbering.next(true), DiscriminantSource { base: Some(2), offset: 0 });
    assert_eq!(numbering.next(false), DiscriminantSource { base: Some(2), offset: 1 });
    assert_eq!(numbering.next(false), DiscriminantSource { base: Some(2), offset: 2 });
    assert_eq!(numbering.next(true), DiscriminantSource { base: Some(5), offset: 0 });
}

#[test]
fn int_repr_default_is_isize() {
    assert_eq!(get_int_repr(&[]), IntRepr::Isize);
    assert_eq!(get_int_repr(&["C", "packed"]), IntRepr::Isize);
}

#[test]
fn int_repr_last_integer_wins() {
    assert_eq!(get_int_repr(&["u16"]), IntRepr::U16);
    assert_eq!(get_int_repr(&["C", "u8"]), IntRepr::U8);
    assert_eq!(get_int_repr(&["i64", "C", "u32"]), IntRepr::U32);
    assert_eq!(get_int_repr(&["r#i128"]), IntRepr::I128);
}

#[test]
fn ident_names() {
    assert!(check_ident_name("usize", "usize"));
    assert!(check_ident_name("r#usize", "usize"));
    assert!(!check_ident_name("usize2", "usize"));
    assert!(!check_ident_name("r#", "usize"));
    assert!(!check_ident_name("x#usize", "usize"));
    assert_eq!(int_repr_named_by("i16"), Some(IntRepr::I16));
    assert_eq!(int_repr_named_by("f32"), None);
    assert_eq!(IntRepr::U64.primitive_name(), "u64");
}
