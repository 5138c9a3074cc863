//! Stable, deterministic fingerprints of in-memory values.
//!
//! Every value of a type implementing [`Fingerprint`] has one canonical byte
//! encoding, stated by the spec function `Fingerprint::encoding`; its
//! `fingerprint` method appends exactly that encoding to a [`Sink`].
//! [`fingerprint`] and [`fingerprint_with`] feed the encoding to a
//! cryptographic digest and return the digest's output.
//!
//! The encoding rules, by module:
//! - `scalar`: fixed-width integers little-endian; sizes as base-128
//!   variable-length integers, signed ones zig-zag mapped first.
//! - `fingerprint`: the trait and the primitive types.
//! - `composite`: tuples, arrays, sequences, text, tagged unions and
//!   transparent wrappers.
//! - `canonical`: the canonical order, and unordered collections and maps,
//!   sorted by it before they are encoded.
//! - `collections`: the standard hash and tree sets and maps.
//! - `discriminant` and `repr`: numbering and encoding of sum-type variants.
//! - `laws`: properties that relate several encodings.

pub mod canonical;
pub mod collections;
pub mod composite;
pub mod discriminant;
pub mod driver;
pub mod fingerprint;
pub mod laws;
pub mod repr;
pub mod scalar;
pub mod sink;

pub use canonical::{
    canonical_key_order, canonical_order, fingerprint_map, fingerprint_unordered, CanonicalOrder,
};
pub use collections::CollectionKey;
pub use composite::{fingerprint_items, fingerprint_seq};
pub use discriminant::{add_discriminant, discriminants, AddDiscriminant, DiscriminantSource};
pub use driver::{encode, fingerprint, fingerprint_with};
pub use fingerprint::Fingerprint;
pub use repr::{check_ident_name, fingerprint_discriminant, get_int_repr, int_repr_named_by, IntRepr};
pub use scalar::{write_le, write_signed_varint, write_varint};
pub use sink::{MockDigest, Sink};
