use vstd::prelude::*;
use vstd::utf8::encode_utf8;

use crate::fingerprint::Fingerprint;
use crate::scalar::{varint, write_varint};
use crate::sink::Sink;

verus! {

/// The encodings of the items of `s`, one after the other, with no separators.
pub open spec fn concat_encodings<T: Fingerprint>(s: Seq<T>) -> Seq<u8>
    decreases s.len(),
{
    if s.len() == 0 {
        Seq::empty()
    } else {
        concat_encodings(s.drop_last()) + s.last().encoding()
    }
}

/// A dynamically sized sequence: the item count, then each item in order.
pub open spec fn seq_encoding<T: Fingerprint>(s: Seq<T>) -> Seq<u8> {
    varint(s.len()) + concat_encodings(s)
}

/// Text: the length of its UTF-8 form, then those bytes.
pub open spec fn text_encoding(chars: Seq<char>) -> Seq<u8> {
    varint(encode_utf8(chars).len()) + encode_utf8(chars)
}

/// Appends the encodings of the items of `items`, in order.
pub fn fingerprint_items<T: Fingerprint, S: Sink>(items: &[T], sink: &mut S)
    ensures
        final(sink).bytes() == old(sink).bytes() + concat_encodings(items@),
{
    let mut i: usize = 0;
    while i < items.len()
        invariant
            i <= items@.len(),
            sink.bytes() == old(sink).bytes() + concat_encodings(items@.take(i as int)),
        decreases items@.len() - i,
    {
        proof {
            assert(items@.take(i + 1).drop_last() == items@.take(i as int));
        }
        items[i].fingerprint(sink);
        i = i + 1;
    }
    assert(items@.take(i as int) == items@);
}

/// Appends the item count of `items`, then their encodings.
pub fn fingerprint_seq<T: Fingerprint, S: Sink>(items: &[T], sink: &mut S)
    ensures
        final(sink).bytes() == old(sink).bytes() + seq_encoding(items@),
{
    write_varint(sink, items.len());
    fingerprint_items(items, sink);
}

impl<T: Fingerprint> Fingerprint for [T] {
    open spec fn encoding(&self) -> Seq<u8> {
        seq_encoding(self@)
    }

    fn fingerprint<S: Sink>(&self, sink: &mut S) {
        fingerprint_seq(self, sink);
    }
}

impl<T: Fingerprint> Fingerprint for Vec<T> {
    open spec fn encoding(&self) -> Seq<u8> {
        seq_encoding(self@)
    }

    fn fingerprint<S: Sink>(&self, sink: &mut S) {
        fingerprint_seq(self.as_slice(), sink);
    }
}

impl<T: Fingerprint> Fingerprint for std::collections::VecDeque<T> {
    open spec fn encoding(&self) -> Seq<u8> {
        seq_encoding(self@)
    }

    fn fingerprint<S: Sink>(&self, sink: &mut S) {
        write_varint(sink, self.len());
        let mut i: usize = 0;
        while i < self.len()
            invariant
                i <= self@.len(),
                sink.bytes() == old(sink).bytes() + varint(self@.len() as nat) + concat_encodings(
                    self@.take(i as int),
                ),
            decreases self@.len() - i,
        {
            proof {
                assert(self@.take(i + 1).drop_last() == self@.take(i as int));
            }
            self[i].fingerprint(sink);
            i = i + 1;
        }
        proof {
            assert(self@.take(i as int) == self@);
            assert(sink.bytes() =~= old(sink).bytes() + seq_encoding(self@));
        }
    }
}

impl<T: Fingerprint, const N: usize> Fingerprint for [T; N] {
    /// The length is part of the type, so only the items are encoded.
    open spec fn encoding(&self) -> Seq<u8> {
        concat_encodings(self@)
    }

    fn fingerprint<S: Sink>(&self, sink: &mut S) {
        fingerprint_items(self.as_slice(), sink);
    }
}

impl Fingerprint for str {
    open spec fn encoding(&self) -> Seq<u8> {
        text_encoding(self@)
    }

    fn fingerprint<S: Sink>(&self, sink: &mut S) {
        let bytes = self.as_bytes();
        write_varint(sink, bytes.len());
        sink.update(bytes);
        proof {
            assert(bytes@ == encode_utf8(self@));
            assert(sink.bytes() =~= old(sink).bytes() + text_encoding(self@));
        }
    }
}

impl Fingerprint for String {
    open spec fn encoding(&self) -> Seq<u8> {
        text_encoding(self@)
    }

    fn fingerprint<S: Sink>(&self, sink: &mut S) {
        self.as_str().fingerprint(sink);
    }
}

impl<T: Fingerprint> Fingerprint for Option<T> {
    /// A present value is the tag 0 and the value; absence is the tag 1 alone.
    open spec fn encoding(&self) -> Seq<u8> {
        match self {
            Some(v) => seq![0u8] + v.encoding(),
            None => seq![1u8],
        }
    }

    fn fingerprint<S: Sink>(&self, sink: &mut S) {
        match self {
            Some(v) => {
                sink.update(&[0u8]);
                v.fingerprint(sink);
            },
            None => {
                sink.update(&[1u8]);
            },
        }
    }
}

impl<T: Fingerprint, E: Fingerprint> Fingerprint for Result<T, E> {
    /// Success is the tag 0 and its value; failure is the tag 1 and its value.
    open spec fn encoding(&self) -> Seq<u8> {
        match self {
            Ok(v) => seq![0u8] + v.encoding(),
            Err(e) => seq![1u8] + e.encoding(),
        }
    }

    fn fingerprint<S: Sink>(&self, sink: &mut S) {
        match self {
            Ok(v) => {
                sink.update(&[0u8]);
                v.fingerprint(sink);
            },
            Err(e) => {
                sink.update(&[1u8]);
                e.fingerprint(sink);
            },
        }
    }
}

impl<T: Fingerprint + ?Sized> Fingerprint for &T {
    /// A reference adds nothing: only the referent is encoded.
    open spec fn encoding(&self) -> Seq<u8> {
        (**self).encoding()
    }

    fn fingerprint<S: Sink>(&self, sink: &mut S) {
        (**self).fingerprint(sink);
    }
}

impl<T: Fingerprint + ?Sized> Fingerprint for &mut T {
    open spec fn encoding(&self) -> Seq<u8> {
        (**self).encoding()
    }

    fn fingerprint<S: Sink>(&self, sink: &mut S) {
        (**self).fingerprint(sink);
    }
}

impl<T: Fingerprint + ?Sized> Fingerprint for Box<T> {
    open spec fn encoding(&self) -> Seq<u8> {
        (**self).encoding()
    }

    fn fingerprint<S: Sink>(&self, sink: &mut S) {
        (**self).fingerprint(sink);
    }
}

impl<T: Fingerprint + ?Sized> Fingerprint for std::rc::Rc<T> {
    open spec fn encoding(&self) -> Seq<u8> {
        (**self).encoding()
    }

    fn fingerprint<S: Sink>(&self, sink: &mut S) {
        (**self).fingerprint(sink);
    }
}

impl<T: Fingerprint + ?Sized> Fingerprint for std::sync::Arc<T> {
    open spec fn encoding(&self) -> Seq<u8> {
        (**self).encoding()
    }

    fn fingerprint<S: Sink>(&self, sink: &mut S) {
        (**self).fingerprint(sink);
    }
}

impl<T> Fingerprint for std::marker::PhantomData<T> {
    /// A marker contributes no bytes.
    open spec fn encoding(&self) -> Seq<u8> {
        Seq::empty()
    }

    fn fingerprint<S: Sink>(&self, sink: &mut S) {
        proof {
            assert(sink.bytes() + Seq::<u8>::empty() == sink.bytes());
        }
    }
}

impl<T: Fingerprint> Fingerprint for std::ops::Range<T> {
    /// The start, then the end.
    open spec fn encoding(&self) -> Seq<u8> {
        self.start.encoding() + self.end.encoding()
    }

    fn fingerprint<S: Sink>(&self, sink: &mut S) {
        self.start.fingerprint(sink);
        self.end.fingerprint(sink);
        proof {
            assert(old(sink).bytes() + self.start.encoding() + self.end.encoding() == old(sink).bytes() + (
            self.start.encoding() + self.end.encoding()));
        }
    }
}

/// Relies on `RangeInclusive::start`: a reference to the lower bound.
pub assume_specification<Idx>[ std::ops::RangeInclusive::<Idx>::start ](
    r: &std::ops::RangeInclusive<Idx>,
) -> (s: &Idx)
    ensures
        *s == r@.start,
;

/// Relies on `RangeInclusive::end`: a reference to the upper bound.
pub assume_specification<Idx>[ std::ops::RangeInclusive::<Idx>::end ](
    r: &std::ops::RangeInclusive<Idx>,
) -> (e: &Idx)
    ensures
        *e == r@.end,
;

impl<T: Fingerprint> Fingerprint for std::ops::RangeInclusive<T> {
    /// The start, then the end.
    open spec fn encoding(&self) -> Seq<u8> {
        self@.start.encoding() + self@.end.encoding()
    }

    fn fingerprint<S: Sink>(&self, sink: &mut S) {
        self.start().fingerprint(sink);
        self.end().fingerprint(sink);
        proof {
            assert(sink.bytes() =~= old(sink).bytes() + (self@.start.encoding()
                + self@.end.encoding()));
        }
    }
}

/// `std::ops::Bound`, whose variants are public; declared so that Verus
/// can read them.
#[verifier::external_type_specification]
#[verifier::reject_recursive_types(T)]
pub struct ExBound<T>(std::ops::Bound<T>);

impl<T: Fingerprint> Fingerprint for std::ops::Bound<T> {
    /// A tagged union: 0 and the bound if included, 1 and the bound if
    /// excluded, 2 alone if unbounded.
    open spec fn encoding(&self) -> Seq<u8> {
        match self {
            std::ops::Bound::Included(b) => seq![0u8] + b.encoding(),
            std::ops::Bound::Excluded(b) => seq![1u8] + b.encoding(),
            std::ops::Bound::Unbounded => seq![2u8],
        }
    }

    fn fingerprint<S: Sink>(&self, sink: &mut S) {
        match self {
            std::ops::Bound::Included(b) => {
                sink.update(&[0u8]);
                b.fingerprint(sink);
            },
            std::ops::Bound::Excluded(b) => {
                sink.update(&[1u8]);
                b.fingerprint(sink);
            },
            std::ops::Bound::Unbounded => {
                sink.update(&[2u8]);
            },
        }
    }
}

/// `std::num::Wrapping`, whose one field is public; declared so that Verus
/// can read it.
#[verifier::external_type_specification]
#[verifier::reject_recursive_types(T)]
pub struct ExWrapping<T>(std::num::Wrapping<T>);

impl<T: Fingerprint> Fingerprint for std::num::Wrapping<T> {
    /// Only the wrapped value: wrapping arithmetic adds nothing to encode.
    open spec fn encoding(&self) -> Seq<u8> {
        self.0.encoding()
    }

    fn fingerprint<S: Sink>(&self, sink: &mut S) {
        self.0.fingerprint(sink);
    }
}

/// `std::cmp::Reverse`, whose one field is public; declared so that Verus
/// can read it.
#[verifier::external_type_specification]
#[verifier::reject_recursive_types(T)]
pub struct ExReverse<T>(std::cmp::Reverse<T>);

impl<T: Fingerprint> Fingerprint for std::cmp::Reverse<T> {
    /// Only the wrapped value: the reversed order adds nothing to encode.
    open spec fn encoding(&self) -> Seq<u8> {
        self.0.encoding()
    }

    fn fingerprint<S: Sink>(&self, sink: &mut S) {
        self.0.fingerprint(sink);
    }
}

impl<'a, T: Fingerprint + Clone> Fingerprint for std::borrow::Cow<'a, T> {
    /// Borrowed or owned, only the value is encoded.
    open spec fn encoding(&self) -> Seq<u8> {
        match self {
            std::borrow::Cow::Borrowed(b) => b.encoding(),
            std::borrow::Cow::Owned(o) => o.encoding(),
        }
    }

    fn fingerprint<S: Sink>(&self, sink: &mut S) {
        match self {
            std::borrow::Cow::Borrowed(b) => b.fingerprint(sink),
            std::borrow::Cow::Owned(o) => o.fingerprint(sink),
        }
    }
}

impl Fingerprint for () {
    /// No fields, no bytes.
    open spec fn encoding(&self) -> Seq<u8> {
        Seq::empty()
    }

    fn fingerprint<S: Sink>(&self, sink: &mut S) {
        proof {
            assert(sink.bytes() + Seq::<u8>::empty() == sink.bytes());
        }
    }
}

impl<T0: Fingerprint> Fingerprint for (T0,) {
    open spec fn encoding(&self) -> Seq<u8> {
        self.0.encoding()
    }

    fn fingerprint<S: Sink>(&self, sink: &mut S) {
        self.0.fingerprint(sink);
        proof {
            assert(sink.bytes() =~= old(sink).bytes() + (self.0.encoding()));
        }
    }
}

impl<T0: Fingerprint, T1: Fingerprint> Fingerprint for (T0, T1) {
    open spec fn encoding(&self) -> Seq<u8> {
        self.0.encoding() + self.1.encoding()
    }

    fn fingerprint<S: Sink>(&self, sink: &mut S) {
        self.0.fingerprint(sink);
        self.1.fingerprint(sink);
        proof {
            assert(sink.bytes() =~= old(sink).bytes() + (self.0.encoding() + self.1.encoding()));
        }
    }
}

impl<T0: Fingerprint, T1: Fingerprint, T2: Fingerprint> Fingerprint for (T0, T1, T2) {
    open spec fn encoding(&self) -> Seq<u8> {
        self.0.encoding() + self.1.encoding() + self.2.encoding()
    }

    fn fingerprint<S: Sink>(&self, sink: &mut S) {
        self.0.fingerprint(sink);
        self.1.fingerprint(sink);
        self.2.fingerprint(sink);
        proof {
            assert(sink.bytes() =~= old(sink).bytes() + (self.0.encoding() + self.1.encoding() + self.2.encoding()));
        }
    }
}

impl<T0: Fingerprint, T1: Fingerprint, T2: Fingerprint, T3: Fingerprint> Fingerprint for (T0, T1, T2, T3) {
    open spec fn encoding(&self) -> Seq<u8> {
        self.0.encoding() + self.1.encoding() + self.2.encoding() + self.3.encoding()
    }

    fn fingerprint<S: Sink>(&self, sink: &mut S) {
        self.0.fingerprint(sink);
        self.1.fingerprint(sink);
        self.2.fingerprint(sink);
        self.3.fingerprint(sink);
        proof {
            assert(sink.bytes() =~= old(sink).bytes() + (self.0.encoding() + self.1.encoding() + self.2.encoding() + self.3.encoding()));
        }
    }
}

impl<T0: Fingerprint, T1: Fingerprint, T2: Fingerprint, T3: Fingerprint, T4: Fingerprint> Fingerprint for (T0, T1, T2, T3, T4) {
    open spec fn encoding(&self) -> Seq<u8> {
        self.0.encoding() + self.1.encoding() + self.2.encoding() + self.3.encoding() + self.4.encoding()
    }

    fn fingerprint<S: Sink>(&self, sink: &mut S) {
        self.0.fingerprint(sink);
        self.1.fingerprint(sink);
        self.2.fingerprint(sink);
        self.3.fingerprint(sink);
        self.4.fingerprint(sink);
        proof {
            assert(sink.bytes() =~= old(sink).bytes() + (self.0.encoding() + self.1.encoding() + self.2.encoding() + self.3.encoding() + self.4.encoding()));
        }
    }
}

impl<T0: Fingerprint, T1: Fingerprint, T2: Fingerprint, T3: Fingerprint, T4: Fingerprint, T5: Fingerprint> Fingerprint for (T0, T1, T2, T3, T4, T5) {
    open spec fn encoding(&self) -> Seq<u8> {
        self.0.encoding() + self.1.encoding() + self.2.encoding() + self.3.encoding() + self.4.encoding() + self.5.encoding()
    }

    fn fingerprint<S: Sink>(&self, sink: &mut S) {
        self.0.fingerprint(sink);
        self.1.fingerprint(sink);
        self.2.fingerprint(sink);
        self.3.fingerprint(sink);
        self.4.fingerprint(sink);
        self.5.fingerprint(sink);
        proof {
            assert(sink.bytes() =~= old(sink).bytes() + (self.0.encoding() + self.1.encoding() + self.2.encoding() + self.3.encoding() + self.4.encoding() + self.5.encoding()));
        }
    }
}

impl<T0: Fingerprint, T1: Fingerprint, T2: Fingerprint, T3: Fingerprint, T4: Fingerprint, T5: Fingerprint, T6: Fingerprint> Fingerprint for (T0, T1, T2, T3, T4, T5, T6) {
    open spec fn encoding(&self) -> Seq<u8> {
        self.0.encoding() + self.1.encoding() + self.2.encoding() + self.3.encoding() + self.4.encoding() + self.5.encoding() + self.6.encoding()
    }

    fn fingerprint<S: Sink>(&self, sink: &mut S) {
        self.0.fingerprint(sink);
        self.1.fingerprint(sink);
        self.2.fingerprint(sink);
        self.3.fingerprint(sink);
        self.4.fingerprint(sink);
        self.5.fingerprint(sink);
        self.6.fingerprint(sink);
        proof {
            assert(sink.bytes() =~= old(sink).bytes() + (self.0.encoding() + self.1.encoding() + self.2.encoding() + self.3.encoding() + self.4.encoding() + self.5.encoding() + self.6.encoding()));
        }
    }
}

impl<T0: Fingerprint, T1: Fingerprint, T2: Fingerprint, T3: Fingerprint, T4: Fingerprint, T5: Fingerprint, T6: Fingerprint, T7: Fingerprint> Fingerprint for (T0, T1, T2, T3, T4, T5, T6, T7) {
    open spec fn encoding(&self) -> Seq<u8> {
        self.0.encoding() + self.1.encoding() + self.2.encoding() + self.3.encoding() + self.4.encoding() + self.5.encoding() + self.6.encoding() + self.7.encoding()
    }

    fn fingerprint<S: Sink>(&self, sink: &mut S) {
        self.0.fingerprint(sink);
        self.1.fingerprint(sink);
        self.2.fingerprint(sink);
        self.3.fingerprint(sink);
        self.4.fingerprint(sink);
        self.5.fingerprint(sink);
        self.6.fingerprint(sink);
        self.7.fingerprint(sink);
        proof {
            assert(sink.bytes() =~= old(sink).bytes() + (self.0.encoding() + self.1.encoding() + self.2.encoding() + self.3.encoding() + self.4.encoding() + self.5.encoding() + self.6.encoding() + self.7.encoding()));
        }
    }
}

impl<T0: Fingerprint, T1: Fingerprint, T2: Fingerprint, T3: Fingerprint, T4: Fingerprint, T5: Fingerprint, T6: Fingerprint, T7: Fingerprint, T8: Fingerprint> Fingerprint for (T0, T1, T2, T3, T4, T5, T6, T7, T8) {
    open spec fn encoding(&self) -> Seq<u8> {
        self.0.encoding() + self.1.encoding() + self.2.encoding() + self.3.encoding() + self.4.encoding() + self.5.encoding() + self.6.encoding() + self.7.encoding() + self.8.encoding()
    }

    fn fingerprint<S: Sink>(&self, sink: &mut S) {
        self.0.fingerprint(sink);
        self.1.fingerprint(sink);
        self.2.fingerprint(sink);
        self.3.fingerprint(sink);
        self.4.fingerprint(sink);
        self.5.fingerprint(sink);
        self.6.fingerprint(sink);
        self.7.fingerprint(sink);
        self.8.fingerprint(sink);
        proof {
            assert(sink.bytes() =~= old(sink).bytes() + (self.0.encoding() + self.1.encoding() + self.2.encoding() + self.3.encoding() + self.4.encoding() + self.5.encoding() + self.6.encoding() + self.7.encoding() + self.8.encoding()));
        }
    }
}

impl<T0: Fingerprint, T1: Fingerprint, T2: Fingerprint, T3: Fingerprint, T4: Fingerprint, T5: Fingerprint, T6: Fingerprint, T7: Fingerprint, T8: Fingerprint, T9: Fingerprint> Fingerprint for (T0, T1, T2, T3, T4, T5, T6, T7, T8, T9) {
    open spec fn encoding(&self) -> Seq<u8> {
        self.0.encoding() + self.1.encoding() + self.2.encoding() + self.3.encoding() + self.4.encoding() + self.5.encoding() + self.6.encoding() + self.7.encoding() + self.8.encoding() + self.9.encoding()
    }

    fn fingerprint<S: Sink>(&self, sink: &mut S) {
        self.0.fingerprint(sink);
        self.1.fingerprint(sink);
        self.2.fingerprint(sink);
        self.3.fingerprint(sink);
        self.4.fingerprint(sink);
        self.5.fingerprint(sink);
        self.6.fingerprint(sink);
        self.7.fingerprint(sink);
        self.8.fingerprint(sink);
        self.9.fingerprint(sink);
        proof {
            assert(sink.bytes() =~= old(sink).bytes() + (self.0.encoding() + self.1.encoding() + self.2.encoding() + self.3.encoding() + self.4.encoding() + self.5.encoding() + self.6.encoding() + self.7.encoding() + self.8.encoding() + self.9.encoding()));
        }
    }
}

impl<T0: Fingerprint, T1: Fingerprint, T2: Fingerprint, T3: Fingerprint, T4: Fingerprint, T5: Fingerprint, T6: Fingerprint, T7: Fingerprint, T8: Fingerprint, T9: Fingerprint, T10: Fingerprint> Fingerprint for (T0, T1, T2, T3, T4, T5, T6, T7, T8, T9, T10) {
    open spec fn encoding(&self) -> Seq<u8> {
        self.0.encoding() + self.1.encoding() + self.2.encoding() + self.3.encoding() + self.4.encoding() + self.5.encoding() + self.6.encoding() + self.7.encoding() + self.8.encoding() + self.9.encoding() + self.10.encoding()
    }

    fn fingerprint<S: Sink>(&self, sink: &mut S) {
        self.0.fingerprint(sink);
        self.1.fingerprint(sink);
        self.2.fingerprint(sink);
        self.3.fingerprint(sink);
        self.4.fingerprint(sink);
        self.5.fingerprint(sink);
        self.6.fingerprint(sink);
        self.7.fingerprint(sink);
        self.8.fingerprint(sink);
        self.9.fingerprint(sink);
        self.10.fingerprint(sink);
        proof {
            assert(sink.bytes() =~= old(sink).bytes() + (self.0.encoding() + self.1.encoding() + self.2.encoding() + self.3.encoding() + self.4.encoding() + self.5.encoding() + self.6.encoding() + self.7.encoding() + self.8.encoding() + self.9.encoding() + self.10.encoding()));
        }
    }
}

impl<T0: Fingerprint, T1: Fingerprint, T2: Fingerprint, T3: Fingerprint, T4: Fingerprint, T5: Fingerprint, T6: Fingerprint, T7: Fingerprint, T8: Fingerprint, T9: Fingerprint, T10: Fingerprint, T11: Fingerprint> Fingerprint for (T0, T1, T2, T3, T4, T5, T6, T7, T8, T9, T10, T11) {
    open spec fn encoding(&self) -> Seq<u8> {
        self.0.encoding() + self.1.encoding() + self.2.encoding() + self.3.encoding() + self.4.encoding() + self.5.encoding() + self.6.encoding() + self.7.encoding() + self.8.encoding() + self.9.encoding() + self.10.encoding() + self.11.encoding()
    }

    fn fingerprint<S: Sink>(&self, sink: &mut S) {
        self.0.fingerprint(sink);
        self.1.fingerprint(sink);
        self.2.fingerprint(sink);
        self.3.fingerprint(sink);
        self.4.fingerprint(sink);
        self.5.fingerprint(sink);
        self.6.fingerprint(sink);
        self.7.fingerprint(sink);
        self.8.fingerprint(sink);
        self.9.fingerprint(sink);
        self.10.fingerprint(sink);
        self.11.fingerprint(sink);
        proof {
            assert(sink.bytes() =~= old(sink).bytes() + (self.0.encoding() + self.1.encoding() + self.2.encoding() + self.3.encoding() + self.4.encoding() + self.5.encoding() + self.6.encoding() + self.7.encoding() + self.8.encoding() + self.9.encoding() + self.10.encoding() + self.11.encoding()));
        }
    }
}

impl<T0: Fingerprint, T1: Fingerprint, T2: Fingerprint, T3: Fingerprint, T4: Fingerprint, T5: Fingerprint, T6: Fingerprint, T7: Fingerprint, T8: Fingerprint, T9: Fingerprint, T10: Fingerprint, T11: Fingerprint, T12: Fingerprint> Fingerprint for (T0, T1, T2, T3, T4, T5, T6, T7, T8, T9, T10, T11, T12) {
    open spec fn encoding(&self) -> Seq<u8> {
        self.0.encoding() + self.1.encoding() + self.2.encoding() + self.3.encoding() + self.4.encoding() + self.5.encoding() + self.6.encoding() + self.7.encoding() + self.8.encoding() + self.9.encoding() + self.10.encoding() + self.11.encoding() + self.12.encoding()
    }

    fn fingerprint<S: Sink>(&self, sink: &mut S) {
        self.0.fingerprint(sink);
        self.1.fingerprint(sink);
        self.2.fingerprint(sink);
        self.3.fingerprint(sink);
        self.4.fingerprint(sink);
        self.5.fingerprint(sink);
        self.6.fingerprint(sink);
        self.7.fingerprint(sink);
        self.8.fingerprint(sink);
        self.9.fingerprint(sink);
        self.10.fingerprint(sink);
        self.11.fingerprint(sink);
        self.12.fingerprint(sink);
        proof {
            assert(sink.bytes() =~= old(sink).bytes() + (self.0.encoding() + self.1.encoding() + self.2.encoding() + self.3.encoding() + self.4.encoding() + self.5.encoding() + self.6.encoding() + self.7.encoding() + self.8.encoding() + self.9.encoding() + self.10.encoding() + self.11.encoding() + self.12.encoding()));
        }
    }
}

impl<T0: Fingerprint, T1: Fingerprint, T2: Fingerprint, T3: Fingerprint, T4: Fingerprint, T5: Fingerprint, T6: Fingerprint, T7: Fingerprint, T8: Fingerprint, T9: Fingerprint, T10: Fingerprint, T11: Fingerprint, T12: Fingerprint, T13: Fingerprint> Fingerprint for (T0, T1, T2, T3, T4, T5, T6, T7, T8, T9, T10, T11, T12, T13) {
    open spec fn encoding(&self) -> Seq<u8> {
        self.0.encoding() + self.1.encoding() + self.2.encoding() + self.3.encoding() + self.4.encoding() + self.5.encoding() + self.6.encoding() + self.7.encoding() + self.8.encoding() + self.9.encoding() + self.10.encoding() + self.11.encoding() + self.12.encoding() + self.13.encoding()
    }

    fn fingerprint<S: Sink>(&self, sink: &mut S) {
        self.0.fingerprint(sink);
        self.1.fingerprint(sink);
        self.2.fingerprint(sink);
        self.3.fingerprint(sink);
        self.4.fingerprint(sink);
        self.5.fingerprint(sink);
        self.6.fingerprint(sink);
        self.7.fingerprint(sink);
        self.8.fingerprint(sink);
        self.9.fingerprint(sink);
        self.10.fingerprint(sink);
        self.11.fingerprint(sink);
        self.12.fingerprint(sink);
        self.13.fingerprint(sink);
        proof {
            assert(sink.bytes() =~= old(sink).bytes() + (self.0.encoding() + self.1.encoding() + self.2.encoding() + self.3.encoding() + self.4.encoding() + self.5.encoding() + self.6.encoding() + self.7.encoding() + self.8.encoding() + self.9.encoding() + self.10.encoding() + self.11.encoding() + self.12.encoding() + self.13.encoding()));
        }
    }
}

impl<T0: Fingerprint, T1: Fingerprint, T2: Fingerprint, T3: Fingerprint, T4: Fingerprint, T5: Fingerprint, T6: Fingerprint, T7: Fingerprint, T8: Fingerprint, T9: Fingerprint, T10: Fingerprint, T11: Fingerprint, T12: Fingerprint, T13: Fingerprint, T14: Fingerprint> Fingerprint for (T0, T1, T2, T3, T4, T5, T6, T7, T8, T9, T10, T11, T12, T13, T14) {
    open spec fn encoding(&self) -> Seq<u8> {
        self.0.encoding() + self.1.encoding() + self.2.encoding() + self.3.encoding() + self.4.encoding() + self.5.encoding() + self.6.encoding() + self.7.encoding() + self.8.encoding() + self.9.encoding() + self.10.encoding() + self.11.encoding() + self.12.encoding() + self.13.encoding() + self.14.encoding()
    }

    fn fingerprint<S: Sink>(&self, sink: &mut S) {
        self.0.fingerprint(sink);
        self.1.fingerprint(sink);
        self.2.fingerprint(sink);
        self.3.fingerprint(sink);
        self.4.fingerprint(sink);
        self.5.fingerprint(sink);
        self.6.fingerprint(sink);
        self.7.fingerprint(sink);
        self.8.fingerprint(sink);
        self.9.fingerprint(sink);
        self.10.fingerprint(sink);
        self.11.fingerprint(sink);
        self.12.fingerprint(sink);
        self.13.fingerprint(sink);
        self.14.fingerprint(sink);
        proof {
            assert(sink.bytes() =~= old(sink).bytes() + (self.0.encoding() + self.1.encoding() + self.2.encoding() + self.3.encoding() + self.4.encoding() + self.5.encoding() + self.6.encoding() + self.7.encoding() + self.8.encoding() + self.9.encoding() + self.10.encoding() + self.11.encoding() + self.12.encoding() + self.13.encoding() + self.14.encoding()));
        }
    }
}

impl<T0: Fingerprint, T1: Fingerprint, T2: Fingerprint, T3: Fingerprint, T4: Fingerprint, T5: Fingerprint, T6: Fingerprint, T7: Fingerprint, T8: Fingerprint, T9: Fingerprint, T10: Fingerprint, T11: Fingerprint, T12: Fingerprint, T13: Fingerprint, T14: Fingerprint, T15: Fingerprint> Fingerprint for (T0, T1, T2, T3, T4, T5, T6, T7, T8, T9, T10, T11, T12, T13, T14, T15) {
    open spec fn encoding(&self) -> Seq<u8> {
        self.0.encoding() + self.1.encoding() + self.2.encoding() + self.3.encoding() + self.4.encoding() + self.5.encoding() + self.6.encoding() + self.7.encoding() + self.8.encoding() + self.9.encoding() + self.10.encoding() + self.11.encoding() + self.12.encoding() + self.13.encoding() + self.14.encoding() + self.15.encoding()
    }

    fn fingerprint<S: Sink>(&self, sink: &mut S) {
        self.0.fingerprint(sink);
        self.1.fingerprint(sink);
        self.2.fingerprint(sink);
        self.3.fingerprint(sink);
        self.4.fingerprint(sink);
        self.5.fingerprint(sink);
        self.6.fingerprint(sink);
        self.7.fingerprint(sink);
        self.8.fingerprint(sink);
        self.9.fingerprint(sink);
        self.10.fingerprint(sink);
        self.11.fingerprint(sink);
        self.12.fingerprint(sink);
        self.13.fingerprint(sink);
        self.14.fingerprint(sink);
        self.15.fingerprint(sink);
        proof {
            assert(sink.bytes() =~= old(sink).bytes() + (self.0.encoding() + self.1.encoding() + self.2.encoding() + self.3.encoding() + self.4.encoding() + self.5.encoding() + self.6.encoding() + self.7.encoding() + self.8.encoding() + self.9.encoding() + self.10.encoding() + self.11.encoding() + self.12.encoding() + self.13.encoding() + self.14.encoding() + self.15.encoding()));
        }
    }
}

} // verus!
