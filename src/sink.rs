use vstd::prelude::*;

verus! {

/// An append-only byte consumer: the one side effect of every encoder.
pub trait Sink {
    /// All bytes appended to this sink so far.
    spec fn bytes(&self) -> Seq<u8>;

    /// Appends `data` to the sink.
    fn update(&mut self, data: &[u8])
        ensures
            final(self).bytes() == old(self).bytes() + data@,
    ;
}

/// A sink that keeps every byte it receives instead of hashing it.
#[derive(Clone, Debug, Hash)]
pub struct MockDigest {
    input: Vec<u8>,
}

impl MockDigest {
    /// A sink holding no bytes.
    pub fn new() -> (r: MockDigest)
        ensures
            r.bytes() == Seq::<u8>::empty(),
    {
        MockDigest { input: Vec::new() }
    }

    /// Discards all collected bytes.
    pub fn reset(&mut self)
        ensures
            final(self).bytes() == Seq::<u8>::empty(),
    {
        self.input = Vec::new();
    }

    /// The collected bytes, as a slice.
    pub fn as_ref(&self) -> (r: &[u8])
        ensures
            r@ == self.bytes(),
    {
        self.input.as_slice()
    }

    /// The collected bytes, consuming the sink.
    pub fn into_bytes(self) -> (r: Vec<u8>)
        ensures
            r@ == self.bytes(),
    {
        self.input
    }
}

impl Sink for MockDigest {
    closed spec fn bytes(&self) -> Seq<u8> {
        self.input@
    }

    fn update(&mut self, data: &[u8]) {
        self.input.extend_from_slice(data);
    }
}

impl Default for MockDigest {
    fn default() -> (r: MockDigest)
        ensures
            r.bytes() == Seq::<u8>::empty(),
    {
        MockDigest::new()
    }
}

impl From<MockDigest> for Vec<u8> {
    /// The collected bytes.
    fn from(src: MockDigest) -> (r: Vec<u8>)
        ensures
            r@ == src.bytes(),
    {
        src.input
    }
}

impl vstd::std_specs::convert::FromSpecImpl<MockDigest> for Vec<u8> {
    open spec fn obeys_from_spec() -> bool {
        true
    }

    closed spec fn from_spec(src: MockDigest) -> Vec<u8> {
        src.input
    }
}

} // verus!
