use vstd::prelude::*;

use crate::fingerprint::Fingerprint;
use crate::sink::Sink;

verus! {

/// The integer type that a sum type declares for its discriminants. Without
/// a declaration the discriminant is an `isize`.
#[derive(Clone, Copy, Debug, PartialEq, Eq)]
pub enum IntRepr {
    I8,
    I16,
    I32,
    I64,
    I128,
    Isize,
    U8,
    U16,
    U32,
    U64,
    U128,
    Usize,
}

/// The name of the integer type.
pub open spec fn repr_name(r: IntRepr) -> Seq<char> {
    match r {
        IntRepr::I8 => "i8"@,
        IntRepr::I16 => "i16"@,
        IntRepr::I32 => "i32"@,
        IntRepr::I64 => "i64"@,
        IntRepr::I128 => "i128"@,
        IntRepr::Isize => "isize"@,
        IntRepr::U8 => "u8"@,
        IntRepr::U16 => "u16"@,
        IntRepr::U32 => "u32"@,
        IntRepr::U64 => "u64"@,
        IntRepr::U128 => "u128"@,
        IntRepr::Usize => "usize"@,
    }
}

/// Whether the identifier `word` is `name`, plain or raw (`r#name`).
pub open spec fn names(word: Seq<char>, name: Seq<char>) -> bool {
    word == name || word == seq!['r', '#'] + name
}

/// The integer type that the identifier `word` names, if any.
pub open spec fn int_repr_named(word: Seq<char>) -> Option<IntRepr> {
    if names(word, repr_name(IntRepr::I8)) {
        Some(IntRepr::I8)
    } else if names(word, repr_name(IntRepr::I16)) {
        Some(IntRepr::I16)
    } else if names(word, repr_name(IntRepr::I32)) {
        Some(IntRepr::I32)
    } else if names(word, repr_name(IntRepr::I64)) {
        Some(IntRepr::I64)
    } else if names(word, repr_name(IntRepr::I128)) {
        Some(IntRepr::I128)
    } else if names(word, repr_name(IntRepr::Isize)) {
        Some(IntRepr::Isize)
    } else if names(word, repr_name(IntRepr::U8)) {
        Some(IntRepr::U8)
    } else if names(word, repr_name(IntRepr::U16)) {
        Some(IntRepr::U16)
    } else if names(word, repr_name(IntRepr::U32)) {
        Some(IntRepr::U32)
    } else if names(word, repr_name(IntRepr::U64)) {
        Some(IntRepr::U64)
    } else if names(word, repr_name(IntRepr::U128)) {
        Some(IntRepr::U128)
    } else if names(word, repr_name(IntRepr::Usize)) {
        Some(IntRepr::Usize)
    } else {
        None
    }
}

/// The discriminant type that a list of representation arguments selects:
/// the last one that names an integer type, else `isize`.
pub open spec fn int_repr_of(words: Seq<&str>) -> IntRepr
    decreases words.len(),
{
    if words.len() == 0 {
        IntRepr::Isize
    } else {
        match int_repr_named(words.last()@) {
            Some(r) => r,
            None => int_repr_of(words.drop_last()),
        }
    }
}

impl IntRepr {
    /// Whether `v` is a value of this integer type.
    pub open spec fn admits(self, v: int) -> bool {
        match self {
            IntRepr::I8 => i8::MIN <= v <= i8::MAX,
            IntRepr::I16 => i16::MIN <= v <= i16::MAX,
            IntRepr::I32 => i32::MIN <= v <= i32::MAX,
            IntRepr::I64 => i64::MIN <= v <= i64::MAX,
            IntRepr::I128 => i128::MIN <= v <= i128::MAX,
            IntRepr::Isize => isize::MIN <= v <= isize::MAX,
            IntRepr::U8 => u8::MIN <= v <= u8::MAX,
            IntRepr::U16 => u16::MIN <= v <= u16::MAX,
            IntRepr::U32 => u32::MIN <= v <= u32::MAX,
            IntRepr::U64 => u64::MIN <= v <= u64::MAX,
            IntRepr::U128 => u128::MIN <= v <= u128::MAX,
            IntRepr::Usize => usize::MIN <= v <= usize::MAX,
        }
    }

    /// The encoding of the discriminant `v` stored in this integer type.
    pub open spec fn discriminant_encoding(self, v: int) -> Seq<u8> {
        match self {
            IntRepr::I8 => (v as i8).encoding(),
            IntRepr::I16 => (v as i16).encoding(),
            IntRepr::I32 => (v as i32).encoding(),
            IntRepr::I64 => (v as i64).encoding(),
            IntRepr::I128 => (v as i128).encoding(),
            IntRepr::Isize => (v as isize).encoding(),
            IntRepr::U8 => (v as u8).encoding(),
            IntRepr::U16 => (v as u16).encoding(),
            IntRepr::U32 => (v as u32).encoding(),
            IntRepr::U64 => (v as u64).encoding(),
            IntRepr::U128 => (v as u128).encoding(),
            IntRepr::Usize => (v as usize).encoding(),
        }
    }

    /// The name of this integer type.
    pub fn primitive_name(self) -> (r: &'static str)
        ensures
            r@ == repr_name(self),
    {
        match self {
            IntRepr::I8 => "i8",
            IntRepr::I16 => "i16",
            IntRepr::I32 => "i32",
            IntRepr::I64 => "i64",
            IntRepr::I128 => "i128",
            IntRepr::Isize => "isize",
            IntRepr::U8 => "u8",
            IntRepr::U16 => "u16",
            IntRepr::U32 => "u32",
            IntRepr::U64 => "u64",
            IntRepr::U128 => "u128",
            IntRepr::Usize => "usize",
        }
    }
}

/// Whether `word` from position `start` on reads `name`.
fn reads_at(word: &str, start: usize, name: &str) -> (r: bool)
    requires
        start <= word@.len(),
    ensures
        r == (word@.subrange(start as int, word@.len() as int) == name@),
{
    let len = word.unicode_len();
    let name_len = name.unicode_len();
    if len - start != name_len {
        return false;
    }
    let mut k: usize = 0;
    while k < name_len
        invariant
            len == word@.len(),
            name_len == name@.len(),
            len - start == name_len,
            k <= name_len,
            forall|j: int| 0 <= j < k ==> word@[start + j] == name@[j],
        decreases name_len - k,
    {
        if word.get_char(start + k) != name.get_char(k) {
            return false;
        }
        k = k + 1;
    }
    assert(word@.subrange(start as int, word@.len() as int) =~= name@);
    true
}

/// Whether the identifier `word` is `name`, plain or raw.
pub fn check_ident_name(word: &str, name: &str) -> (r: bool)
    ensures
        r == names(word@, name@),
{
    let plain = reads_at(word, 0, name);
    assert(word@.subrange(0, word@.len() as int) =~= word@);
    if plain {
        return true;
    }
    let len = word.unicode_len();
    if len < 2 {
        return false;
    }
    if word.get_char(0) != 'r' || word.get_char(1) != '#' {
        proof {
            if word@ == seq!['r', '#'] + name@ {
                assert(word@[0] == 'r' && word@[1] == '#');
            }
        }
        return false;
    }
    let raw = reads_at(word, 2, name);
    proof {
        if raw {
            assert(word@ =~= seq!['r', '#'] + name@);
        } else if word@ == seq!['r', '#'] + name@ {
            assert(word@.subrange(2, word@.len() as int) =~= name@);
        }
    }
    raw
}

/// The integer type that the identifier `word` names, if any.
pub fn int_repr_named_by(word: &str) -> (r: Option<IntRepr>)
    ensures
        r == int_repr_named(word@),
{
    if check_ident_name(word, "i8") {
        return Some(IntRepr::I8);
    }
    if check_ident_name(word, "i16") {
        return Some(IntRepr::I16);
    }
    if check_ident_name(word, "i32") {
        return Some(IntRepr::I32);
    }
    if check_ident_name(word, "i64") {
        return Some(IntRepr::I64);
    }
    if check_ident_name(word, "i128") {
        return Some(IntRepr::I128);
    }
    if check_ident_name(word, "isize") {
        return Some(IntRepr::Isize);
    }
    if check_ident_name(word, "u8") {
        return Some(IntRepr::U8);
    }
    if check_ident_name(word, "u16") {
        return Some(IntRepr::U16);
    }
    if check_ident_name(word, "u32") {
        return Some(IntRepr::U32);
    }
    if check_ident_name(word, "u64") {
        return Some(IntRepr::U64);
    }
    if check_ident_name(word, "u128") {
        return Some(IntRepr::U128);
    }
    if check_ident_name(word, "usize") {
        return Some(IntRepr::Usize);
    }
    None
}

/// The discriminant type selected by the arguments of a sum type's
/// representation attributes, in order: the last that names an integer type
/// wins, and `isize` is the default.
pub fn get_int_repr(words: &[&str]) -> (r: IntRepr)
    ensures
        r == int_repr_of(words@),
{
    let mut repr = IntRepr::Isize;
    let mut i: usize = 0;
    while i < words.len()
        invariant
            i <= words@.len(),
            repr == int_repr_of(words@.take(i as int)),
        decreases words@.len() - i,
    {
        proof {
            assert(words@.take(i + 1).drop_last() =~= words@.take(i as int));
        }
        match int_repr_named_by(words[i]) {
            Some(r) => {
                repr = r;
            },
            None => {},
        }
        i = i + 1;
    }
    assert(words@.take(i as int) =~= words@);
    repr
}

/// Appends the encoding of the discriminant `value` stored in the integer type `repr`.
pub fn fingerprint_discriminant<S: Sink>(repr: IntRepr, value: i128, sink: &mut S)
    requires
        repr.admits(value as int),
    ensures
        final(sink).bytes() == old(sink).bytes() + repr.discriminant_encoding(value as int),
{
    match repr {
        IntRepr::I8 => (value as i8).fingerprint(sink),
        IntRepr::I16 => (value as i16).fingerprint(sink),
        IntRepr::I32 => (value as i32).fingerprint(sink),
        IntRepr::I64 => (value as i64).fingerprint(sink),
        IntRepr::I128 => (value as i128).fingerprint(sink),
        IntRepr::Isize => (value as isize).fingerprint(sink),
        IntRepr::U8 => (value as u8).fingerprint(sink),
        IntRepr::U16 => (value as u16).fingerprint(sink),
        IntRepr::U32 => (value as u32).fingerprint(sink),
        IntRepr::U64 => (value as u64).fingerprint(sink),
        IntRepr::U128 => (value as u128).fingerprint(sink),
        IntRepr::Usize => (value as usize).fingerprint(sink),
    }
}

} // verus!
