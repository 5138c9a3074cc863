use vstd::prelude::*;

use crate::scalar::{lemma_le_bytes_single, le_bytes, twos_complement, varint, write_le, write_signed_varint, write_varint, zigzag};
use crate::sink::Sink;

verus! {

/// A value with a canonical byte encoding.
///
/// `encoding` states the bytes; `fingerprint` appends exactly those bytes to a
/// sink, so two equal values always feed a sink the same bytes.
pub trait Fingerprint {
    /// The canonical encoding of this value.
    spec fn encoding(&self) -> Seq<u8>;

    /// Appends the canonical encoding of this value to `sink`.
    fn fingerprint<S: Sink>(&self, sink: &mut S)
        ensures
            final(sink).bytes() == old(sink).bytes() + self.encoding(),
    ;
}

impl Fingerprint for u8 {
    /// Fixed width, little-endian.
    open spec fn encoding(&self) -> Seq<u8> {
        le_bytes(*self as nat, 1)
    }

    fn fingerprint<S: Sink>(&self, sink: &mut S) {
        write_le(sink, *self as u128, 1);
    }
}

impl Fingerprint for u16 {
    /// Fixed width, little-endian.
    open spec fn encoding(&self) -> Seq<u8> {
        le_bytes(*self as nat, 2)
    }

    fn fingerprint<S: Sink>(&self, sink: &mut S) {
        write_le(sink, *self as u128, 2);
    }
}

impl Fingerprint for u32 {
    /// Fixed width, little-endian.
    open spec fn encoding(&self) -> Seq<u8> {
        le_bytes(*self as nat, 4)
    }

    fn fingerprint<S: Sink>(&self, sink: &mut S) {
        write_le(sink, *self as u128, 4);
    }
}

impl Fingerprint for u64 {
    /// Fixed width, little-endian.
    open spec fn encoding(&self) -> Seq<u8> {
        le_bytes(*self as nat, 8)
    }

    fn fingerprint<S: Sink>(&self, sink: &mut S) {
        write_le(sink, *self as u128, 8);
    }
}

impl Fingerprint for u128 {
    /// Fixed width, little-endian.
    open spec fn encoding(&self) -> Seq<u8> {
        le_bytes(*self as nat, 16)
    }

    fn fingerprint<S: Sink>(&self, sink: &mut S) {
        write_le(sink, *self as u128, 16);
    }
}

impl Fingerprint for i8 {
    /// Fixed width, little-endian two's complement.
    open spec fn encoding(&self) -> Seq<u8> {
        le_bytes(twos_complement(*self as int, 0x100), 1)
    }

    fn fingerprint<S: Sink>(&self, sink: &mut S) {
        let v: i8 = *self;
        let bits: u128 = if v >= 0 {
            v as u128
        } else {
            (v as i16 + 0x100) as u128
        };
        write_le(sink, bits, 1);
    }
}

impl Fingerprint for i16 {
    /// Fixed width, little-endian two's complement.
    open spec fn encoding(&self) -> Seq<u8> {
        le_bytes(twos_complement(*self as int, 0x1_0000), 2)
    }

    fn fingerprint<S: Sink>(&self, sink: &mut S) {
        let v: i16 = *self;
        let bits: u128 = if v >= 0 {
            v as u128
        } else {
            (v as i32 + 0x1_0000) as u128
        };
        write_le(sink, bits, 2);
    }
}

impl Fingerprint for i32 {
    /// Fixed width, little-endian two's complement.
    open spec fn encoding(&self) -> Seq<u8> {
        le_bytes(twos_complement(*self as int, 0x1_0000_0000), 4)
    }

    fn fingerprint<S: Sink>(&self, sink: &mut S) {
        let v: i32 = *self;
        let bits: u128 = if v >= 0 {
            v as u128
        } else {
            (v as i64 + 0x1_0000_0000) as u128
        };
        write_le(sink, bits, 4);
    }
}

impl Fingerprint for i64 {
    /// Fixed width, little-endian two's complement.
    open spec fn encoding(&self) -> Seq<u8> {
        le_bytes(twos_complement(*self as int, 0x1_0000_0000_0000_0000), 8)
    }

    fn fingerprint<S: Sink>(&self, sink: &mut S) {
        let v: i64 = *self;
        let bits: u128 = if v >= 0 {
            v as u128
        } else {
            (v as i128 + 0x1_0000_0000_0000_0000) as u128
        };
        write_le(sink, bits, 8);
    }
}

impl Fingerprint for i128 {
    /// Fixed width, little-endian two's complement.
    open spec fn encoding(&self) -> Seq<u8> {
        le_bytes(twos_complement(*self as int, u128::MAX as int + 1), 16)
    }

    fn fingerprint<S: Sink>(&self, sink: &mut S) {
        let v: i128 = *self;
        let bits: u128 = if v >= 0 {
            v as u128
        } else {
            ((v + i128::MAX) + 1) as u128 + 0x8000_0000_0000_0000_0000_0000_0000_0000
        };
        write_le(sink, bits, 16);
    }
}

impl Fingerprint for bool {
    /// One byte: 0 or 1.
    open spec fn encoding(&self) -> Seq<u8> {
        if *self {
            seq![1u8]
        } else {
            seq![0u8]
        }
    }

    fn fingerprint<S: Sink>(&self, sink: &mut S) {
        let byte: u8 = if *self {
            1
        } else {
            0
        };
        byte.fingerprint(sink);
        proof {
            lemma_le_bytes_single(byte as nat);
        }
    }
}

impl Fingerprint for char {
    /// The code point, as a little-endian `u32`.
    open spec fn encoding(&self) -> Seq<u8> {
        le_bytes(*self as u32 as nat, 4)
    }

    fn fingerprint<S: Sink>(&self, sink: &mut S) {
        let code: u32 = *self as u32;
        code.fingerprint(sink);
    }
}

impl Fingerprint for usize {
    /// Variable length, so that the encoding does not depend on the pointer width.
    open spec fn encoding(&self) -> Seq<u8> {
        varint(*self as nat)
    }

    fn fingerprint<S: Sink>(&self, sink: &mut S) {
        write_varint(sink, *self);
    }
}

impl Fingerprint for isize {
    /// Zig-zag mapped onto the unsigned range, then variable length.
    open spec fn encoding(&self) -> Seq<u8> {
        varint(zigzag(*self as int))
    }

    fn fingerprint<S: Sink>(&self, sink: &mut S) {
        write_signed_varint(sink, *self);
    }
}

} // verus!
