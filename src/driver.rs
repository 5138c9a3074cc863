use vstd::prelude::*;

use crate::fingerprint::Fingerprint;
use crate::sink::MockDigest;

verus! {

/// Relies on `digest::Update::update`: absorbs `data` into the hash state.
/// Nothing is stated of the state, which only the digest algorithm can read.
#[verifier::external_body]
fn absorb<H: digest::Update>(hasher: &mut H, data: &[u8]) {
    hasher.update(data);
}

/// Relies on `digest::FixedOutput::finalize_fixed`: the digest of everything
/// absorbed, as bytes. Its value depends on the algorithm and on the state the
/// hasher started from, so nothing is stated of it.
#[verifier::external_body]
fn finalize<H: digest::FixedOutput>(hasher: H) -> Vec<u8> {
    hasher.finalize_fixed().to_vec()
}

/// The canonical encoding of `value`, as bytes.
pub fn encode<T: Fingerprint + ?Sized>(value: &T) -> (r: Vec<u8>)
    ensures
        r@ == value.encoding(),
{
    let mut sink = MockDigest::new();
    value.fingerprint(&mut sink);
    assert(Seq::<u8>::empty() + value.encoding() == value.encoding());
    sink.into_bytes()
}

/// The digest of the canonical encoding of `value`, computed by `hasher`,
/// which may be seeded with a prefix that separates hash domains. The digest
/// absorbs exactly `encode(&value)`, in one piece: a streaming digest gives
/// the same output as when fed the pieces one by one.
pub fn fingerprint_with<T: Fingerprint, H: digest::Update + digest::FixedOutput>(
    value: T,
    hasher: H,
) -> Vec<u8> {
    let bytes = encode(&value);
    let mut hasher = hasher;
    absorb(&mut hasher, bytes.as_slice());
    finalize(hasher)
}

/// The digest of the canonical encoding of `value`, computed by a fresh
/// hasher of type `H`.
pub fn fingerprint<H: digest::Update + digest::FixedOutput + Default, T: Fingerprint>(
    value: T,
) -> Vec<u8> {
    fingerprint_with(value, H::default())
}

} // verus!
