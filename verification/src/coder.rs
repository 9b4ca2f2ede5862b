//! A simple front end for encoding and decoding several values over one
//! growable buffer.
//!
//! Encoding appends to the internal buffer; decoding walks the buffer from
//! the front, one value at a time, remembering how far it has read.

use crate::decodable::Decodable;
use crate::encodable::Encodable;
use vstd::prelude::*;
use vstd::slice::slice_subrange;
use vstd::slice::slice_to_vec;

verus! {

/// Encodes objects to, and decodes objects from, one internal buffer.
#[derive(Clone, Debug, PartialEq, Hash)]
pub struct Coder {
    buffer: Vec<u8>,
    decode_index: usize,
}

impl Coder {
    /// The read position never passes the end of the buffer.  Every
    /// constructor establishes this and every method keeps it.
    pub closed spec fn wf(&self) -> bool {
        self.decode_index <= self.buffer@.len()
    }

    /// The bytes of the internal buffer.
    pub closed spec fn spec_buffer(&self) -> Seq<u8> {
        self.buffer@
    }

    /// The bytes not yet consumed by decoding.
    pub closed spec fn remaining(&self) -> Seq<u8> {
        self.buffer@.skip(self.decode_index as int)
    }

    /// Creates a coder with an empty buffer.
    pub fn new() -> (r: Self)
        ensures
            r.wf(),
            r.spec_buffer() == Seq::<u8>::empty(),
            r.remaining() == Seq::<u8>::empty(),
    {
        Self::default()
    }

    /// Creates a coder that decodes from the start of the given buffer.
    pub fn with_buffer(buffer: Vec<u8>) -> (r: Self)
        ensures
            r.wf(),
            r.spec_buffer() == buffer@,
            r.remaining() == buffer@,
    {
        let r = Self { buffer, decode_index: 0 };
        proof {
            assert(r.remaining() =~= r.spec_buffer());
        }
        r
    }

    /// Moves the read position back to the start of the buffer.
    pub fn reset_decode_index(&mut self)
        ensures
            final(self).wf(),
            final(self).spec_buffer() == old(self).spec_buffer(),
            final(self).remaining() == final(self).spec_buffer(),
    {
        self.decode_index = 0;
        proof {
            assert(self.remaining() =~= self.spec_buffer());
        }
    }

    /// The underlying buffer.
    pub fn buffer(&self) -> (r: &Vec<u8>)
        ensures
            r@ == self.spec_buffer(),
    {
        &self.buffer
    }

    /// Appends the byte image of an object to the internal buffer.
    pub fn encode<T: Encodable>(&mut self, object: &T)
        requires
            old(self).wf(),
        ensures
            final(self).wf(),
            final(self).spec_buffer() == old(self).spec_buffer() + object.wire(),
            final(self).remaining() == old(self).remaining() + object.wire(),
    {
        object.encode_to_buf(&mut self.buffer);
        proof {
            assert(self.remaining() =~= old(self).remaining() + object.wire());
        }
    }

    /// Appends the byte image of an object to the internal buffer.
    pub fn encode_object<T: Encodable>(&mut self, object: T)
        requires
            old(self).wf(),
        ensures
            final(self).wf(),
            final(self).spec_buffer() == old(self).spec_buffer() + object.wire(),
            final(self).remaining() == old(self).remaining() + object.wire(),
    {
        object.encode_to_buf(&mut self.buffer);
        proof {
            assert(self.remaining() =~= old(self).remaining() + object.wire());
        }
    }

    /// Decodes the next object from the buffer, continuing where the previous
    /// decode stopped.  Returns `None`, and moves nothing, when the remaining
    /// bytes do not start with a valid encoding.
    pub fn decode_next_object<T: Decodable>(&mut self) -> (r: Option<T>)
        requires
            old(self).wf(),
        ensures
            final(self).wf(),
            final(self).spec_buffer() == old(self).spec_buffer(),
            match r {
                Some(v) => match T::parse(old(self).remaining()) {
                    Some((pv, prest)) => v.deep_view() == pv && final(self).remaining() == prest,
                    None => false,
                },
                None => T::parse(old(self).remaining()) is None && *final(self) == *old(self),
            },
    {
        let tail = slice_subrange(self.buffer.as_slice(), self.decode_index, self.buffer.len());
        match T::decode_from_buf(tail) {
            Some((v, rest)) => {
                proof {
                    T::lemma_parse_prefix(tail@);
                }
                let consumed_end = self.buffer.len() - rest.len();
                self.decode_index = consumed_end;
                proof {
                    assert(self.buffer@.skip(consumed_end as int) =~= rest@);
                }
                Some(v)
            },
            None => None,
        }
    }
}

impl Default for Coder {
    fn default() -> (r: Self)
        ensures
            r.wf(),
            r.spec_buffer() == Seq::<u8>::empty(),
            r.remaining() == Seq::<u8>::empty(),
    {
        let r = Self { buffer: Vec::new(), decode_index: 0 };
        proof {
            assert(r.remaining() =~= Seq::<u8>::empty());
        }
        r
    }
}

impl From<&[u8]> for Coder {
    /// Copies the slice into a fresh coder that decodes from its start.
    fn from(value: &[u8]) -> (r: Self)
        ensures
            r.wf(),
            r.spec_buffer() == value@,
            r.remaining() == value@,
    {
        Self::with_buffer(slice_to_vec(value))
    }
}

impl vstd::std_specs::convert::FromSpecImpl<&[u8]> for Coder {
    open spec fn obeys_from_spec() -> bool {
        false
    }

    closed spec fn from_spec(value: &[u8]) -> Self {
        arbitrary()
    }
}

impl From<Vec<u8>> for Coder {
    /// Wraps the buffer in a coder that decodes from its start.
    fn from(value: Vec<u8>) -> (r: Self)
        ensures
            r.wf(),
            r.spec_buffer() == value@,
            r.remaining() == value@,
    {
        Self::with_buffer(value)
    }
}

impl vstd::std_specs::convert::FromSpecImpl<Vec<u8>> for Coder {
    open spec fn obeys_from_spec() -> bool {
        false
    }

    closed spec fn from_spec(value: Vec<u8>) -> Self {
        arbitrary()
    }
}

} // verus!
