//! The [`Encodable`] trait: types whose values have a byte image on the wire.

use crate::wire;
use vstd::prelude::*;

verus! {

/// Provides methods to encode values into a vector of bytes.
///
/// `wire` is the specification: the exact byte image of a value.  Encoding
/// never fails; every value of an encodable type has an image.
pub trait Encodable: Sized {
    /// The byte image of this value on the wire.
    spec fn wire(&self) -> Seq<u8>;

    /// Appends the byte image of this value to the provided buffer.
    fn encode_to_buf(&self, buf: &mut Vec<u8>)
        ensures
            final(buf)@ == old(buf)@ + self.wire(),
    ;

    /// Returns a fresh vector holding the byte image of this value.
    fn encoded(&self) -> (r: Vec<u8>)
        ensures
            r@ == self.wire(),
    {
        let mut buf = Vec::new();
        self.encode_to_buf(&mut buf);
        proof {
            assert(buf@ =~= self.wire());
        }
        buf
    }
}

impl Encodable for u8 {
    open spec fn wire(&self) -> Seq<u8> {
        wire::wire_u8(*self)
    }

    fn encode_to_buf(&self, buf: &mut Vec<u8>) {
        wire::encode_u8(*self, buf);
    }
}

impl Encodable for u16 {
    open spec fn wire(&self) -> Seq<u8> {
        wire::wire_u16(*self)
    }

    fn encode_to_buf(&self, buf: &mut Vec<u8>) {
        wire::encode_u16(*self, buf);
    }
}

impl Encodable for u32 {
    open spec fn wire(&self) -> Seq<u8> {
        wire::wire_u32(*self)
    }

    fn encode_to_buf(&self, buf: &mut Vec<u8>) {
        wire::encode_u32(*self, buf);
    }
}

impl Encodable for u64 {
    open spec fn wire(&self) -> Seq<u8> {
        wire::wire_u64(*self)
    }

    fn encode_to_buf(&self, buf: &mut Vec<u8>) {
        wire::encode_u64(*self, buf);
    }
}

impl Encodable for u128 {
    open spec fn wire(&self) -> Seq<u8> {
        wire::wire_u128(*self)
    }

    fn encode_to_buf(&self, buf: &mut Vec<u8>) {
        wire::encode_u128(*self, buf);
    }
}

impl Encodable for i8 {
    open spec fn wire(&self) -> Seq<u8> {
        wire::wire_i8(*self)
    }

    fn encode_to_buf(&self, buf: &mut Vec<u8>) {
        wire::encode_i8(*self, buf);
    }
}

impl Encodable for i16 {
    open spec fn wire(&self) -> Seq<u8> {
        wire::wire_i16(*self)
    }

    fn encode_to_buf(&self, buf: &mut Vec<u8>) {
        wire::encode_i16(*self, buf);
    }
}

impl Encodable for i32 {
    open spec fn wire(&self) -> Seq<u8> {
        wire::wire_i32(*self)
    }

    fn encode_to_buf(&self, buf: &mut Vec<u8>) {
        wire::encode_i32(*self, buf);
    }
}

impl Encodable for i64 {
    open spec fn wire(&self) -> Seq<u8> {
        wire::wire_i64(*self)
    }

    fn encode_to_buf(&self, buf: &mut Vec<u8>) {
        wire::encode_i64(*self, buf);
    }
}

impl Encodable for i128 {
    open spec fn wire(&self) -> Seq<u8> {
        wire::wire_i128(*self)
    }

    fn encode_to_buf(&self, buf: &mut Vec<u8>) {
        wire::encode_i128(*self, buf);
    }
}

impl Encodable for bool {
    open spec fn wire(&self) -> Seq<u8> {
        wire::wire_bool(*self)
    }

    fn encode_to_buf(&self, buf: &mut Vec<u8>) {
        wire::encode_bool(*self, buf);
    }
}

impl Encodable for usize {
    open spec fn wire(&self) -> Seq<u8> {
        wire::wire_usize(*self)
    }

    fn encode_to_buf(&self, buf: &mut Vec<u8>) {
        wire::encode_usize(*self, buf);
    }
}

impl Encodable for isize {
    open spec fn wire(&self) -> Seq<u8> {
        wire::wire_isize(*self)
    }

    fn encode_to_buf(&self, buf: &mut Vec<u8>) {
        wire::encode_isize(*self, buf);
    }
}

impl Encodable for &str {
    open spec fn wire(&self) -> Seq<u8> {
        wire::wire_str(self@)
    }

    fn encode_to_buf(&self, buf: &mut Vec<u8>) {
        wire::encode_str(*self, buf);
    }
}

impl Encodable for String {
    open spec fn wire(&self) -> Seq<u8> {
        wire::wire_str(self@)
    }

    fn encode_to_buf(&self, buf: &mut Vec<u8>) {
        wire::encode_str(self.as_str(), buf);
    }
}

impl<T: Encodable> Encodable for Option<T> {
    /// One presence byte, then the payload only when present.
    open spec fn wire(&self) -> Seq<u8> {
        match self {
            Some(t) => seq![1u8] + t.wire(),
            None => seq![0u8],
        }
    }

    fn encode_to_buf(&self, buf: &mut Vec<u8>) {
        match self {
            Some(t) => {
                wire::encode_u8(1, buf);
                t.encode_to_buf(buf);
                proof {
                    assert(buf@ =~= old(buf)@ + self.wire());
                }
            },
            None => {
                wire::encode_u8(0, buf);
            },
        }
    }
}

/// The concatenated byte images of a sequence of values.
pub open spec fn wire_elems<T: Encodable>(vs: Seq<T>) -> Seq<u8>
    decreases vs.len(),
{
    if vs.len() == 0 {
        Seq::empty()
    } else {
        vs[0].wire() + wire_elems(vs.skip(1))
    }
}

pub proof fn lemma_wire_elems_push<T: Encodable>(vs: Seq<T>, t: T)
    ensures
        wire_elems(vs.push(t)) == wire_elems(vs) + t.wire(),
    decreases vs.len(),
{
    if vs.len() == 0 {
        assert(vs.push(t)[0] == t);
        assert(vs.push(t).skip(1) =~= Seq::<T>::empty());
        assert(wire_elems(Seq::<T>::empty()) == Seq::<u8>::empty());
        assert(wire_elems(vs.push(t)) == t.wire() + Seq::<u8>::empty());
        assert(t.wire() + Seq::<u8>::empty() =~= Seq::<u8>::empty() + t.wire());
    } else {
        assert(vs.push(t).skip(1) =~= vs.skip(1).push(t));
        lemma_wire_elems_push(vs.skip(1), t);
        assert(vs.push(t)[0] == vs[0]);
        assert(wire_elems(vs.push(t)) == vs[0].wire() + wire_elems(vs.skip(1).push(t)));
        assert(wire_elems(vs.push(t)) == vs[0].wire() + (wire_elems(vs.skip(1)) + t.wire()));
        assert(vs[0].wire() + (wire_elems(vs.skip(1)) + t.wire()) =~= (vs[0].wire() + wire_elems(
            vs.skip(1),
        )) + t.wire());
    }
}

impl<T: Encodable> Encodable for Vec<T> {
    /// An eight-byte little-endian element count, then each element's image.
    open spec fn wire(&self) -> Seq<u8> {
        wire::wire_u64(self@.len() as u64) + wire_elems(self@)
    }

    fn encode_to_buf(&self, buf: &mut Vec<u8>) {
        let n = self.len();
        wire::encode_u64(n as u64, buf);
        let mut i: usize = 0;
        while i < n
            invariant
                i <= n,
                n == self@.len(),
                buf@ == old(buf)@ + wire::wire_u64(n as u64) + wire_elems(self@.take(i as int)),
            decreases n - i,
        {
            let elem = &self[i];
            elem.encode_to_buf(buf);
            proof {
                assert(self@.take(i + 1 as int) =~= self@.take(i as int).push(self@[i as int]));
                lemma_wire_elems_push(self@.take(i as int), self@[i as int]);
            }
            i = i + 1;
        }
        proof {
            assert(self@.take(n as int) =~= self@);
            assert(buf@ =~= old(buf)@ + self.wire());
        }
    }
}

impl<T: Encodable> Encodable for Box<T> {
    open spec fn wire(&self) -> Seq<u8> {
        (**self).wire()
    }

    fn encode_to_buf(&self, buf: &mut Vec<u8>) {
        (&**self).encode_to_buf(buf);
    }
}

/// Appends the byte images of all elements of a slice, in order, with no
/// length prefix.
pub fn encode_slice_elems<T: Encodable>(a: &[T], buf: &mut Vec<u8>)
    ensures
        final(buf)@ == old(buf)@ + wire_elems(a@),
{
    let n = a.len();
    let mut i: usize = 0;
    proof {
        assert(buf@ =~= old(buf)@ + wire_elems(a@.take(0)));
    }
    while i < n
        invariant
            i <= n,
            n == a@.len(),
            buf@ == old(buf)@ + wire_elems(a@.take(i as int)),
        decreases n - i,
    {
        let elem = vstd::slice::slice_index_get(a, i);
        elem.encode_to_buf(buf);
        proof {
            assert(a@.take(i + 1 as int) =~= a@.take(i as int).push(a@[i as int]));
            lemma_wire_elems_push(a@.take(i as int), a@[i as int]);
        }
        i = i + 1;
    }
    proof {
        assert(a@.take(n as int) =~= a@);
    }
}

/// Fixed-size arrays encode as their elements concatenated, with no length
/// prefix.  An eight-element boolean array is the exception: it packs into a
/// single byte, one bit per element, first element in the most significant
/// bit.  Verus has no generic impl over array lengths here, so the sizes this
/// library works with are provided individually.
impl Encodable for [bool; 8] {
    open spec fn wire(&self) -> Seq<u8> {
        wire::wire_bool8(self@)
    }

    fn encode_to_buf(&self, buf: &mut Vec<u8>) {
        wire::encode_bool8(self, buf);
    }
}

impl Encodable for [bool; 16] {
    open spec fn wire(&self) -> Seq<u8> {
        wire_elems(self@)
    }

    fn encode_to_buf(&self, buf: &mut Vec<u8>) {
        encode_slice_elems(self.as_slice(), buf);
    }
}

impl Encodable for [bool; 17] {
    open spec fn wire(&self) -> Seq<u8> {
        wire_elems(self@)
    }

    fn encode_to_buf(&self, buf: &mut Vec<u8>) {
        encode_slice_elems(self.as_slice(), buf);
    }
}

impl Encodable for [u64; 3] {
    open spec fn wire(&self) -> Seq<u8> {
        wire_elems(self@)
    }

    fn encode_to_buf(&self, buf: &mut Vec<u8>) {
        encode_slice_elems(self.as_slice(), buf);
    }
}

impl Encodable for [&str; 4] {
    open spec fn wire(&self) -> Seq<u8> {
        wire_elems(self@)
    }

    fn encode_to_buf(&self, buf: &mut Vec<u8>) {
        encode_slice_elems(self.as_slice(), buf);
    }
}

impl Encodable for [String; 4] {
    open spec fn wire(&self) -> Seq<u8> {
        wire_elems(self@)
    }

    fn encode_to_buf(&self, buf: &mut Vec<u8>) {
        encode_slice_elems(self.as_slice(), buf);
    }
}

} // verus!
