//! Where encoded bytes go to and come from: a sink of bounded size, which
//! only grows, and a source that is consumed from the front.

use vstd::prelude::*;
use vstd::slice::slice_subrange;
use vstd::string::*;
use crate::error::Error;

verus! {

/// A sink for encoded bytes that takes no more than a fixed number of them.
#[derive(Debug)]
pub struct Writer {
    bytes: Vec<u8>,
    limit: usize,
}

impl View for Writer {
    type V = Seq<u8>;

    /// The bytes written so far.
    closed spec fn view(&self) -> Seq<u8> {
        self.bytes@
    }
}

impl Writer {
    /// The number of bytes that the sink takes in all: never less than it holds.
    pub closed spec fn limit(&self) -> nat {
        if self.bytes@.len() <= self.limit {
            self.limit as nat
        } else {
            self.bytes@.len()
        }
    }

    /// The sink never holds more than it takes.
    pub proof fn lemma_within_limit(&self)
        ensures
            self.fits(0),
    {
    }

    /// Whether `count` more bytes fit.
    pub open spec fn fits(&self, count: nat) -> bool {
        self@.len() + count <= self.limit()
    }

    /// An empty sink that takes `limit` bytes.
    pub fn new(limit: usize) -> (r: Self)
        ensures
            r@ == Seq::<u8>::empty(),
            r.limit() == limit,
    {
        Writer { bytes: Vec::new(), limit }
    }

    /// An empty sink that takes as many bytes as can be addressed.
    pub fn unbounded() -> (r: Self)
        ensures
            r@ == Seq::<u8>::empty(),
            r.limit() == usize::MAX,
    {
        Writer { bytes: Vec::new(), limit: usize::MAX }
    }

    /// The number of bytes written so far.
    pub fn len(&self) -> (r: usize)
        ensures
            r == self@.len(),
    {
        self.bytes.len()
    }

    /// The number of bytes that the sink takes in all.
    pub fn capacity(&self) -> (r: usize)
        ensures
            r == self.limit(),
    {
        if self.bytes.len() <= self.limit {
            self.limit
        } else {
            self.bytes.len()
        }
    }

    /// The bytes written so far.
    pub fn as_slice(&self) -> (r: &[u8])
        ensures
            r@ == self@,
    {
        self.bytes.as_slice()
    }

    /// Hands out the bytes written so far.
    pub fn into_bytes(self) -> (r: Vec<u8>)
        ensures
            r@ == self@,
    {
        self.bytes
    }

    /// Appends all of `data`, or fails when it does not fit. After a failure
    /// the bytes written so far are as they were.
    pub fn write_all(&mut self, data: &[u8]) -> (r: Result<(), Error>)
        ensures
            final(self).limit() == old(self).limit(),
            old(self)@.is_prefix_of(final(self)@),
            r is Ok <==> old(self).fits(data@.len()),
            r is Ok ==> final(self)@ == old(self)@ + data@,
            r is Err ==> final(self)@ == old(self)@ && r.unwrap_err() is Serialize,
    {
        let room: usize = self.capacity() - self.bytes.len();
        if data.len() > room {
            return Err(Error::Serialize(String::from_str("failed to write whole buffer")));
        }
        let mut i: usize = 0;
        while i < data.len()
            invariant
                i <= data@.len(),
                self.limit == old(self).limit,
                old(self).bytes@.len() + data@.len() <= old(self).limit(),
                self.bytes@ == old(self).bytes@ + data@.subrange(0, i as int),
            decreases data@.len() - i,
        {
            self.bytes.push(data[i]);
            assert(data@.subrange(0, i + 1) =~= data@.subrange(0, i as int).push(data@[i as int]));
            i += 1;
        }
        assert(data@.subrange(0, i as int) =~= data@);
        Ok(())
    }
}

/// A source of encoded bytes. Reading takes bytes from its front.
#[derive(Debug)]
pub struct Reader<'a> {
    remaining: &'a [u8],
}

impl<'a> View for Reader<'a> {
    type V = Seq<u8>;

    /// The bytes not read yet.
    closed spec fn view(&self) -> Seq<u8> {
        self.remaining@
    }
}

impl<'a> Reader<'a> {
    /// A source of the bytes of `data`.
    pub fn new(data: &'a [u8]) -> (r: Self)
        ensures
            r@ == data@,
    {
        Reader { remaining: data }
    }

    /// The number of bytes not read yet.
    pub fn len(&self) -> (r: usize)
        ensures
            r == self@.len(),
    {
        self.remaining.len()
    }

    /// The bytes not read yet.
    pub fn remaining(&self) -> (r: &'a [u8])
        ensures
            r@ == self@,
    {
        self.remaining
    }

    /// Skips `count` bytes.
    pub fn advance(&mut self, count: usize)
        requires
            count <= old(self)@.len(),
        ensures
            final(self)@ == old(self)@.skip(count as int),
    {
        self.remaining = slice_subrange(self.remaining, count, self.remaining.len());
    }

    /// Reads `count` bytes, or fails when fewer are left. After a failure
    /// nothing was read.
    pub fn take(&mut self, count: usize) -> (r: Result<&'a [u8], Error>)
        ensures
            r is Ok <==> count <= old(self)@.len(),
            r is Ok ==> r.unwrap()@ == old(self)@.take(count as int) && final(self)@ == old(
                self,
            )@.skip(count as int),
            r is Err ==> final(self)@ == old(self)@ && r.unwrap_err() is Deserialize,
    {
        if count > self.remaining.len() {
            return Err(Error::Deserialize(String::from_str("failed to fill whole buffer")));
        }
        let head = slice_subrange(self.remaining, 0, count);
        self.remaining = slice_subrange(self.remaining, count, self.remaining.len());
        Ok(head)
    }
}

} // verus!
