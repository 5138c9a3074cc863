use vstd::prelude::*;

use crate::fingerprint::Fingerprint;
use crate::sink::Sink;

verus! {

/// The discriminant of variant `i` of a sum type whose variants declare the
/// explicit values `explicit`: the declared value where there is one, else the
/// previous variant's discriminant plus one, starting from zero.
pub open spec fn discriminant_value(explicit: Seq<Option<int>>, i: int) -> int
    decreases i,
{
    if i < 0 || i >= explicit.len() {
        0
    } else {
        match explicit[i] {
            Some(v) => v,
            None => if i == 0 {
                0
            } else {
                discriminant_value(explicit, i - 1) + 1
            },
        }
    }
}

/// Where an implicit discriminant counts from: the nearest preceding variant
/// with an explicit value (`base`), or zero when there is none, plus `offset`.
#[derive(Clone, Copy, Debug, PartialEq, Eq)]
pub struct DiscriminantSource {
    pub base: Option<usize>,
    pub offset: usize,
}

/// The source of the discriminant of variant `i`, given which variants declare
/// an explicit value.
pub open spec fn discriminant_source(explicit: Seq<bool>, i: int) -> DiscriminantSource
    decreases i,
{
    if i < 0 || i >= explicit.len() {
        DiscriminantSource { base: None, offset: 0 }
    } else if explicit[i] {
        DiscriminantSource { base: Some(i as usize), offset: 0 }
    } else if i == 0 {
        DiscriminantSource { base: None, offset: 0 }
    } else {
        let prev = discriminant_source(explicit, i - 1);
        DiscriminantSource { base: prev.base, offset: (prev.offset + 1) as usize }
    }
}

/// Numbers the variants of a sum type one at a time, in declaration order.
pub struct AddDiscriminant {
    discriminant: Option<usize>,
    offset: usize,
    index: usize,
    seen: Ghost<Seq<bool>>,
}

impl AddDiscriminant {
    /// For each variant numbered so far, whether it declared an explicit value.
    pub closed spec fn view(&self) -> Seq<bool> {
        self.seen@
    }

    pub closed spec fn wf(&self) -> bool {
        &&& self.seen@.len() == 0 ==> self.discriminant is None && self.offset == 0
        &&& self.seen@.len() > 0 ==> {
            let last = discriminant_source(self.seen@, self.seen@.len() - 1);
            &&& self.discriminant == last.base
            &&& self.offset == last.offset + 1
        }
        &&& self.index == self.seen@.len()
        &&& self.offset <= self.index
    }

    /// Numbers the next variant; `explicit` tells whether it declares its value.
    pub fn next(&mut self, explicit: bool) -> (r: DiscriminantSource)
        requires
            old(self).wf(),
            old(self)@.len() < usize::MAX,
        ensures
            final(self).wf(),
            final(self)@ == old(self)@.push(explicit),
            r == discriminant_source(final(self)@, old(self)@.len() as int),
    {
        let ghost i = self.seen@.len() as int;
        let r = if explicit {
            self.discriminant = Some(self.index);
            DiscriminantSource { base: Some(self.index), offset: 0 }
        } else {
            DiscriminantSource { base: self.discriminant, offset: self.offset }
        };
        self.offset = r.offset + 1;
        self.index = self.index + 1;
        self.seen = Ghost(self.seen@.push(explicit));
        proof {
            let s = self.seen@;
            if i > 0 {
                assert(s.subrange(0, i) =~= old(self).seen@);
                lemma_source_prefix(s, old(self).seen@, i - 1);
            }
        }
        r
    }
}

/// Extending the list of variants does not change the sources of earlier ones.
proof fn lemma_source_prefix(s: Seq<bool>, prefix: Seq<bool>, i: int)
    requires
        0 <= i < prefix.len() <= s.len(),
        prefix == s.subrange(0, prefix.len() as int),
    ensures
        discriminant_source(s, i) == discriminant_source(prefix, i),
    decreases i,
{
    if i > 0 {
        lemma_source_prefix(s, prefix, i - 1);
    }
}

/// A numbering that has seen no variant yet.
pub fn add_discriminant() -> (r: AddDiscriminant)
    ensures
        r.wf(),
        r@ == Seq::<bool>::empty(),
{
    AddDiscriminant { discriminant: None, offset: 0, index: 0, seen: Ghost(Seq::empty()) }
}

/// The declared values, as integers.
pub open spec fn declared_values(explicit: Seq<Option<i128>>) -> Seq<Option<int>> {
    explicit.map_values(
        |o: Option<i128>|
            match o {
                Some(v) => Some(v as int),
                None => None,
            },
    )
}

/// Which variants declare a value.
pub open spec fn declares(explicit: Seq<Option<i128>>) -> Seq<bool> {
    explicit.map_values(|o: Option<i128>| o is Some)
}

/// Whether every discriminant of the sum type fits in an `i128`.
pub open spec fn discriminants_fit(explicit: Seq<Option<i128>>) -> bool {
    forall|i: int|
        0 <= i < explicit.len() ==> #[trigger] discriminant_value(declared_values(explicit), i)
            <= i128::MAX
}

/// A discriminant is its source's declared value (or zero) plus the offset.
proof fn lemma_value_from_source(explicit: Seq<Option<i128>>, i: int)
    requires
        0 <= i < explicit.len() <= usize::MAX,
    ensures
        discriminant_source(declares(explicit), i).offset <= i,
        ({
            let src = discriminant_source(declares(explicit), i);
            let value = discriminant_value(declared_values(explicit), i);
            match src.base {
                Some(j) => {
                    &&& j <= i
                    &&& explicit[j as int] is Some
                    &&& value == explicit[j as int].unwrap() + src.offset
                },
                None => value == src.offset,
            }
        }),
    decreases i,
{
    if i > 0 {
        lemma_value_from_source(explicit, i - 1);
    }
}

/// The discriminant of every variant, given the values that variants declare;
/// `None` when one of them exceeds `i128::MAX`.
pub fn discriminants(explicit: &[Option<i128>]) -> (r: Option<Vec<i128>>)
    ensures
        r is None <==> !discriminants_fit(explicit@),
        r matches Some(values) ==> values@.len() == explicit@.len() && forall|i: int|
            0 <= i < explicit@.len() ==> values@[i] == discriminant_value(
                declared_values(explicit@),
                i,
            ),
{
    let mut numbering = add_discriminant();
    let mut values: Vec<i128> = Vec::new();
    let mut i: usize = 0;
    while i < explicit.len()
        invariant
            i <= explicit@.len(),
            numbering.wf(),
            numbering@ == declares(explicit@).take(i as int),
            values@.len() == i,
            forall|k: int|
                0 <= k < i ==> values@[k] == discriminant_value(declared_values(explicit@), k),
        decreases explicit@.len() - i,
    {
        let src = numbering.next(explicit[i].is_some());
        proof {
            assert(numbering@ =~= declares(explicit@).take(i + 1));
            lemma_source_prefix(declares(explicit@), numbering@, i as int);
            lemma_value_from_source(explicit@, i as int);
        }
        let base: i128 = match src.base {
            Some(j) => match explicit[j] {
                Some(v) => v,
                None => 0,
            },
            None => 0,
        };
        if base > i128::MAX - src.offset as i128 {
            assert(discriminant_value(declared_values(explicit@), i as int) > i128::MAX);
            return None;
        }
        values.push(base + src.offset as i128);
        i = i + 1;
    }
    assert forall|k: int| 0 <= k < explicit@.len() implies #[trigger] discriminant_value(
        declared_values(explicit@),
        k,
    ) <= i128::MAX by {
        assert(values@[k] == discriminant_value(declared_values(explicit@), k));
    }
    Some(values)
}

} // verus!
