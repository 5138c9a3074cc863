use vstd::prelude::*;

use crate::sink::Sink;

verus! {

/// The `n` low base-256 digits of `v`, least significant first.
pub open spec fn le_bytes(v: nat, n: nat) -> Seq<u8>
    decreases n,
{
    if n == 0 {
        Seq::empty()
    } else {
        seq![(v % 256) as u8] + le_bytes(v / 256, (n - 1) as nat)
    }
}

/// The two's complement of `v` modulo `modulus` (a power of two), as a natural number.
pub open spec fn twos_complement(v: int, modulus: int) -> nat {
    if v >= 0 {
        v as nat
    } else {
        (v + modulus) as nat
    }
}

/// Base-128 variable-length encoding: seven bits per byte, least significant
/// digit first, high bit set on every byte but the last.
pub open spec fn varint(n: nat) -> Seq<u8>
    decreases n,
{
    if n < 128 {
        seq![n as u8]
    } else {
        seq![(n % 128 + 128) as u8] + varint(n / 128)
    }
}

/// Zig-zag mapping of signed onto unsigned integers: 0, -1, 1, -2, 2, ...
/// go to 0, 1, 2, 3, 4, ...
pub open spec fn zigzag(v: int) -> nat {
    if v >= 0 {
        (2 * v) as nat
    } else {
        (-2 * v - 1) as nat
    }
}

pub proof fn lemma_le_bytes_single(v: nat)
    requires
        v < 256,
    ensures
        le_bytes(v, 1) == seq![v as u8],
{
    reveal_with_fuel(le_bytes, 2);
    assert(le_bytes(v, 1) =~= seq![v as u8]);
}

/// Appends the `n` low little-endian bytes of `value`.
pub fn write_le<S: Sink>(sink: &mut S, value: u128, n: usize)
    ensures
        final(sink).bytes() == old(sink).bytes() + le_bytes(value as nat, n as nat),
{
    let mut out: Vec<u8> = Vec::new();
    let mut rest: u128 = value;
    let mut i: usize = 0;
    while i < n
        invariant
            i <= n,
            le_bytes(value as nat, n as nat) == out@ + le_bytes(rest as nat, (n - i) as nat),
        decreases n - i,
    {
        let digit = (rest % 256) as u8;
        proof {
            assert(le_bytes(rest as nat, (n - i) as nat) == seq![digit] + le_bytes(
                (rest / 256) as nat,
                (n - i - 1) as nat,
            ));
            assert(out@ + (seq![digit] + le_bytes((rest / 256) as nat, (n - i - 1) as nat))
                == out@.push(digit) + le_bytes((rest / 256) as nat, (n - i - 1) as nat));
        }
        out.push(digit);
        rest = rest / 256;
        i = i + 1;
    }
    assert(out@ == le_bytes(value as nat, n as nat));
    sink.update(out.as_slice());
}

/// Appends the variable-length encoding of `value`.
pub fn write_varint<S: Sink>(sink: &mut S, value: usize)
    ensures
        final(sink).bytes() == old(sink).bytes() + varint(value as nat),
{
    let mut out: Vec<u8> = Vec::new();
    let mut rest: usize = value;
    loop
        invariant_except_break
            varint(value as nat) == out@ + varint(rest as nat),
        ensures
            out@ == varint(value as nat),
        decreases rest,
    {
        let ghost before = rest;
        let digit = (rest % 128) as u8;
        rest = rest / 128;
        if rest > 0 {
            proof {
                let r = (rest * 128 + digit) as nat;
                assert(varint(r) == seq![(digit + 128) as u8] + varint(rest as nat));
                assert(out@ + (seq![(digit + 128) as u8] + varint(rest as nat)) == out@.push(
                    (digit + 128) as u8,
                ) + varint(rest as nat));
            }
            out.push(digit + 128);
        } else {
            assert(varint(before as nat) == seq![digit]);
            out.push(digit);
            break ;
        }
    }
    sink.update(out.as_slice());
}

/// Appends the zig-zag variable-length encoding of `value`.
pub fn write_signed_varint<S: Sink>(sink: &mut S, value: isize)
    ensures
        final(sink).bytes() == old(sink).bytes() + varint(zigzag(value as int)),
{
    let mapped: usize = if value >= 0 {
        (value as usize) * 2
    } else {
        ((-(value + 1)) as usize) * 2 + 1
    };
    write_varint(sink, mapped);
}

} // verus!
