//! The [`Decodable`] trait: reading values back out of a byte sequence.

use crate::encodable::Encodable;
use crate::wire;
use vstd::prelude::*;

verus! {

/// Provides methods to decode values from a slice of bytes.
///
/// `parse` is the specification: it gives, for every byte sequence, either
/// the abstract value encoded by a prefix together with the remaining bytes,
/// or `None` when no prefix decodes.  The exec decoders agree with `parse`
/// in both directions: they succeed exactly when `parse` does.
pub trait Decodable: Sized + DeepView {
    /// What decoding `b` yields: the abstract value of the decoded prefix and
    /// the bytes left over, or `None` when `b` does not start with a valid
    /// encoding.
    spec fn parse(b: Seq<u8>) -> Option<(Self::V, Seq<u8>)>;

    /// Decodes a prefix of `buffer`, returning the value and the unprocessed
    /// remainder of the slice, or `None` when `buffer` does not start with a
    /// valid encoding.
    fn decode_from_buf(buffer: &[u8]) -> (r: Option<(Self, &[u8])>)
        ensures
            match r {
                Some(p) => Self::parse(buffer@) == Some((p.0.deep_view(), p.1@)),
                None => Self::parse(buffer@) is None,
            },
    ;

    /// Decoding consumes a prefix: what a successful parse leaves over is a
    /// suffix of the input.
    proof fn lemma_parse_prefix(b: Seq<u8>)
        ensures
            match Self::parse(b) {
                Some((v, rest)) => rest.len() <= b.len() && rest == b.skip(b.len() - rest.len()),
                None => true,
            },
    ;

    /// Decodes a value from the start of `bytes`, ignoring any trailing
    /// bytes.  Returns `None` when no prefix of `bytes` decodes.
    fn decode(bytes: &[u8]) -> (r: Option<Self>)
        ensures
            match r {
                Some(v) => Self::parse(bytes@) matches Some(p) && p.0 == v.deep_view(),
                None => Self::parse(bytes@) is None,
            },
    {
        match Self::decode_from_buf(bytes) {
            Some(p) => Some(p.0),
            None => None,
        }
    }
}

/// A type whose encoding loses nothing: decoding the byte image of a value,
/// followed by any trailing bytes, recovers exactly that value and leaves
/// exactly the trailing bytes.
pub trait Lossless: Encodable + Decodable {
    /// Every length or count written inside the byte image of this value fits
    /// the fixed-width field that holds it on the wire.
    spec fn bounded(&self) -> bool;

    /// Encode then decode is the identity.
    proof fn lemma_round_trip(&self, tail: Seq<u8>)
        requires
            self.bounded(),
        ensures
            Self::parse(self.wire() + tail) == Some((self.deep_view(), tail)),
    ;
}

impl Decodable for u8 {
    open spec fn parse(b: Seq<u8>) -> Option<(u8, Seq<u8>)> {
        wire::parse_u8(b)
    }

    fn decode_from_buf(buffer: &[u8]) -> (r: Option<(Self, &[u8])>) {
        wire::decode_u8(buffer)
    }

    proof fn lemma_parse_prefix(b: Seq<u8>) {
    }
}

impl Lossless for u8 {
    open spec fn bounded(&self) -> bool {
        true
    }

    proof fn lemma_round_trip(&self, tail: Seq<u8>) {
        wire::lemma_parse_wire_u8(*self, tail);
    }
}

impl Decodable for u16 {
    open spec fn parse(b: Seq<u8>) -> Option<(u16, Seq<u8>)> {
        wire::parse_u16(b)
    }

    fn decode_from_buf(buffer: &[u8]) -> (r: Option<(Self, &[u8])>) {
        wire::decode_u16(buffer)
    }

    proof fn lemma_parse_prefix(b: Seq<u8>) {
    }
}

impl Lossless for u16 {
    open spec fn bounded(&self) -> bool {
        true
    }

    proof fn lemma_round_trip(&self, tail: Seq<u8>) {
        wire::lemma_parse_wire_u16(*self, tail);
    }
}

impl Decodable for u32 {
    open spec fn parse(b: Seq<u8>) -> Option<(u32, Seq<u8>)> {
        wire::parse_u32(b)
    }

    fn decode_from_buf(buffer: &[u8]) -> (r: Option<(Self, &[u8])>) {
        wire::decode_u32(buffer)
    }

    proof fn lemma_parse_prefix(b: Seq<u8>) {
    }
}

impl Lossless for u32 {
    open spec fn bounded(&self) -> bool {
        true
    }

    proof fn lemma_round_trip(&self, tail: Seq<u8>) {
        wire::lemma_parse_wire_u32(*self, tail);
    }
}

impl Decodable for u64 {
    open spec fn parse(b: Seq<u8>) -> Option<(u64, Seq<u8>)> {
        wire::parse_u64(b)
    }

    fn decode_from_buf(buffer: &[u8]) -> (r: Option<(Self, &[u8])>) {
        wire::decode_u64(buffer)
    }

    proof fn lemma_parse_prefix(b: Seq<u8>) {
    }
}

impl Lossless for u64 {
    open spec fn bounded(&self) -> bool {
        true
    }

    proof fn lemma_round_trip(&self, tail: Seq<u8>) {
        wire::lemma_parse_wire_u64(*self, tail);
    }
}

impl Decodable for u128 {
    open spec fn parse(b: Seq<u8>) -> Option<(u128, Seq<u8>)> {
        wire::parse_u128(b)
    }

    fn decode_from_buf(buffer: &[u8]) -> (r: Option<(Self, &[u8])>) {
        wire::decode_u128(buffer)
    }

    proof fn lemma_parse_prefix(b: Seq<u8>) {
    }
}

impl Lossless for u128 {
    open spec fn bounded(&self) -> bool {
        true
    }

    proof fn lemma_round_trip(&self, tail: Seq<u8>) {
        wire::lemma_parse_wire_u128(*self, tail);
    }
}

impl Decodable for i8 {
    open spec fn parse(b: Seq<u8>) -> Option<(i8, Seq<u8>)> {
        wire::parse_i8(b)
    }

    fn decode_from_buf(buffer: &[u8]) -> (r: Option<(Self, &[u8])>) {
        wire::decode_i8(buffer)
    }

    proof fn lemma_parse_prefix(b: Seq<u8>) {
    }
}

impl Lossless for i8 {
    open spec fn bounded(&self) -> bool {
        true
    }

    proof fn lemma_round_trip(&self, tail: Seq<u8>) {
        wire::lemma_parse_wire_i8(*self, tail);
    }
}

impl Decodable for i16 {
    open spec fn parse(b: Seq<u8>) -> Option<(i16, Seq<u8>)> {
        wire::parse_i16(b)
    }

    fn decode_from_buf(buffer: &[u8]) -> (r: Option<(Self, &[u8])>) {
        wire::decode_i16(buffer)
    }

    proof fn lemma_parse_prefix(b: Seq<u8>) {
    }
}

impl Lossless for i16 {
    open spec fn bounded(&self) -> bool {
        true
    }

    proof fn lemma_round_trip(&self, tail: Seq<u8>) {
        wire::lemma_parse_wire_i16(*self, tail);
    }
}

impl Decodable for i32 {
    open spec fn parse(b: Seq<u8>) -> Option<(i32, Seq<u8>)> {
        wire::parse_i32(b)
    }

    fn decode_from_buf(buffer: &[u8]) -> (r: Option<(Self, &[u8])>) {
        wire::decode_i32(buffer)
    }

    proof fn lemma_parse_prefix(b: Seq<u8>) {
    }
}

impl Lossless for i32 {
    open spec fn bounded(&self) -> bool {
        true
    }

    proof fn lemma_round_trip(&self, tail: Seq<u8>) {
        wire::lemma_parse_wire_i32(*self, tail);
    }
}

impl Decodable for i64 {
    open spec fn parse(b: Seq<u8>) -> Option<(i64, Seq<u8>)> {
        wire::parse_i64(b)
    }

    fn decode_from_buf(buffer: &[u8]) -> (r: Option<(Self, &[u8])>) {
        wire::decode_i64(buffer)
    }

    proof fn lemma_parse_prefix(b: Seq<u8>) {
    }
}

impl Lossless for i64 {
    open spec fn bounded(&self) -> bool {
        true
    }

    proof fn lemma_round_trip(&self, tail: Seq<u8>) {
        wire::lemma_parse_wire_i64(*self, tail);
    }
}

impl Decodable for i128 {
    open spec fn parse(b: Seq<u8>) -> Option<(i128, Seq<u8>)> {
        wire::parse_i128(b)
    }

    fn decode_from_buf(buffer: &[u8]) -> (r: Option<(Self, &[u8])>) {
        wire::decode_i128(buffer)
    }

    proof fn lemma_parse_prefix(b: Seq<u8>) {
    }
}

impl Lossless for i128 {
    open spec fn bounded(&self) -> bool {
        true
    }

    proof fn lemma_round_trip(&self, tail: Seq<u8>) {
        wire::lemma_parse_wire_i128(*self, tail);
    }
}

impl Decodable for bool {
    open spec fn parse(b: Seq<u8>) -> Option<(bool, Seq<u8>)> {
        wire::parse_bool(b)
    }

    fn decode_from_buf(buffer: &[u8]) -> (r: Option<(Self, &[u8])>) {
        wire::decode_bool(buffer)
    }

    proof fn lemma_parse_prefix(b: Seq<u8>) {
    }
}

impl Lossless for bool {
    open spec fn bounded(&self) -> bool {
        true
    }

    proof fn lemma_round_trip(&self, tail: Seq<u8>) {
        wire::lemma_parse_wire_bool(*self, tail);
    }
}

impl Decodable for usize {
    open spec fn parse(b: Seq<u8>) -> Option<(usize, Seq<u8>)> {
        wire::parse_usize(b)
    }

    fn decode_from_buf(buffer: &[u8]) -> (r: Option<(Self, &[u8])>) {
        wire::decode_usize(buffer)
    }

    proof fn lemma_parse_prefix(b: Seq<u8>) {
    }
}

impl Lossless for usize {
    open spec fn bounded(&self) -> bool {
        true
    }

    proof fn lemma_round_trip(&self, tail: Seq<u8>) {
        wire::lemma_parse_wire_usize(*self, tail);
    }
}

impl Decodable for isize {
    open spec fn parse(b: Seq<u8>) -> Option<(isize, Seq<u8>)> {
        wire::parse_isize(b)
    }

    fn decode_from_buf(buffer: &[u8]) -> (r: Option<(Self, &[u8])>) {
        wire::decode_isize(buffer)
    }

    proof fn lemma_parse_prefix(b: Seq<u8>) {
    }
}

impl Lossless for isize {
    open spec fn bounded(&self) -> bool {
        true
    }

    proof fn lemma_round_trip(&self, tail: Seq<u8>) {
        wire::lemma_parse_wire_isize(*self, tail);
    }
}

impl Decodable for String {
    open spec fn parse(b: Seq<u8>) -> Option<(Seq<char>, Seq<u8>)> {
        wire::parse_str(b)
    }

    fn decode_from_buf(buffer: &[u8]) -> (r: Option<(Self, &[u8])>) {
        wire::decode_str(buffer)
    }

    proof fn lemma_parse_prefix(b: Seq<u8>) {
        if let Some((len, rest0)) = wire::parse_u64(b) {
            if rest0.len() >= len && vstd::utf8::valid_utf8(rest0.take(len as int)) {
                assert(rest0.skip(len as int) =~= b.skip(8 + len as int));
            }
        }
    }
}

impl Lossless for String {
    open spec fn bounded(&self) -> bool {
        vstd::utf8::encode_utf8(self@).len() <= u64::MAX
    }

    proof fn lemma_round_trip(&self, tail: Seq<u8>) {
        wire::lemma_parse_wire_str(self@, tail);
    }
}

impl<T: Decodable> Decodable for Option<T> {
    open spec fn parse(b: Seq<u8>) -> Option<(Option<T::V>, Seq<u8>)> {
        if b.len() < 1 {
            None
        } else if b[0] == 0 {
            Some((None, b.skip(1)))
        } else {
            match T::parse(b.skip(1)) {
                Some((v, rest)) => Some((Some(v), rest)),
                None => None,
            }
        }
    }

    fn decode_from_buf(buffer: &[u8]) -> (r: Option<(Self, &[u8])>) {
        let (present, rest) = match wire::decode_u8(buffer) {
            Some(p) => p,
            None => {
                return None;
            },
        };
        if present == 0 {
            Some((None, rest))
        } else {
            match T::decode_from_buf(rest) {
                Some((v, rest2)) => Some((Some(v), rest2)),
                None => None,
            }
        }
    }

    proof fn lemma_parse_prefix(b: Seq<u8>) {
        if b.len() >= 1 {
            if b[0] != 0 {
                T::lemma_parse_prefix(b.skip(1));
                match T::parse(b.skip(1)) {
                    Some((v, rest)) => {
                        assert(b.skip(1).skip(b.skip(1).len() - rest.len()) =~= b.skip(
                            b.len() - rest.len(),
                        ));
                    },
                    None => {},
                }
            }
        }
    }
}

impl<T: Lossless> Lossless for Option<T> {
    open spec fn bounded(&self) -> bool {
        match self {
            Some(t) => t.bounded(),
            None => true,
        }
    }

    proof fn lemma_round_trip(&self, tail: Seq<u8>) {
        match self {
            Some(t) => {
                t.lemma_round_trip(tail);
                assert(self.wire() + tail =~= seq![1u8] + (t.wire() + tail));
                assert((seq![1u8] + (t.wire() + tail)).skip(1) =~= t.wire() + tail);
            },
            None => {
                assert((self.wire() + tail).skip(1) =~= tail);
            },
        }
    }
}

/// The abstract values of a sequence, element by element.
pub open spec fn deep_seq<T: DeepView>(vs: Seq<T>) -> Seq<T::V> {
    Seq::new(vs.len(), |i: int| vs[i].deep_view())
}

/// Parses exactly `n` consecutive encodings of `T` from the front of `b`.
pub open spec fn parse_elems<T: Decodable>(b: Seq<u8>, n: nat) -> Option<(Seq<T::V>, Seq<u8>)>
    decreases n,
{
    if n == 0 {
        Some((Seq::empty(), b))
    } else {
        match T::parse(b) {
            Some((v, rest)) => match parse_elems::<T>(rest, (n - 1) as nat) {
                Some((vs, rest2)) => Some((seq![v] + vs, rest2)),
                None => None,
            },
            None => None,
        }
    }
}

/// A run of decodes consumes a prefix.
pub proof fn lemma_parse_elems_prefix<T: Decodable>(b: Seq<u8>, n: nat)
    ensures
        match parse_elems::<T>(b, n) {
            Some((vs, rest)) => rest.len() <= b.len() && rest == b.skip(b.len() - rest.len()),
            None => true,
        },
    decreases n,
{
    if n > 0 {
        match T::parse(b) {
            Some((v, rest1)) => {
                T::lemma_parse_prefix(b);
                lemma_parse_elems_prefix::<T>(rest1, (n - 1) as nat);
                match parse_elems::<T>(rest1, (n - 1) as nat) {
                    Some((vs, rest2)) => {
                        assert(b.skip(b.len() - rest1.len()).skip(rest1.len() - rest2.len()) =~= b.skip(
                            b.len() - rest2.len(),
                        ));
                    },
                    None => {},
                }
            },
            None => {},
        }
    }
}

pub proof fn lemma_parse_wire_elems<T: Lossless>(vs: Seq<T>, tail: Seq<u8>)
    requires
        forall|i: int| 0 <= i < vs.len() ==> #[trigger] vs[i].bounded(),
    ensures
        parse_elems::<T>(crate::encodable::wire_elems(vs) + tail, vs.len()) == Some(
            (deep_seq(vs), tail),
        ),
    decreases vs.len(),
{
    if vs.len() == 0 {
        assert(crate::encodable::wire_elems(vs) + tail =~= tail);
        assert(deep_seq(vs) =~= Seq::<T::V>::empty());
    } else {
        let first = vs[0];
        let rest = vs.skip(1);
        first.lemma_round_trip(crate::encodable::wire_elems(rest) + tail);
        assert(crate::encodable::wire_elems(vs) + tail =~= first.wire() + (
        crate::encodable::wire_elems(rest) + tail));
        lemma_parse_wire_elems(rest, tail);
        assert(seq![first.deep_view()] + deep_seq(rest) =~= deep_seq(vs));
    }
}

/// Decodes exactly `n` consecutive encodings of `T` from the front of
/// `buffer`.
pub fn decode_elems<T: Decodable>(buffer: &[u8], n: u64) -> (r: Option<(Vec<T>, &[u8])>)
    ensures
        match r {
            Some(p) => parse_elems::<T>(buffer@, n as nat) == Some((p.0.deep_view(), p.1@))
                && p.0@.len() == n,
            None => parse_elems::<T>(buffer@, n as nat) is None,
        },
{
    let mut vec: Vec<T> = Vec::new();
    let mut rest = buffer;
    let mut i: u64 = 0;
    proof {
        assert(vec.deep_view() + Seq::<T::V>::empty() =~= vec.deep_view());
    }
    while i < n
        invariant
            i <= n,
            vec@.len() == i,
            match parse_elems::<T>(rest@, (n - i) as nat) {
                Some((vs, r2)) => parse_elems::<T>(buffer@, n as nat) == Some(
                    (vec.deep_view() + vs, r2),
                ),
                None => parse_elems::<T>(buffer@, n as nat) is None,
            },
        decreases n - i,
    {
        match T::decode_from_buf(rest) {
            Some((v, rest2)) => {
                proof {
                    let ghost old_dv = vec.deep_view();
                    let ghost vd = v.deep_view();
                    match parse_elems::<T>(rest2@, (n - i - 1) as nat) {
                        Some((vs2, r3)) => {
                            assert(parse_elems::<T>(rest@, (n - i) as nat) == Some(
                                (seq![vd] + vs2, r3),
                            ));
                            assert(old_dv + (seq![vd] + vs2) =~= (old_dv + seq![vd]) + vs2);
                        },
                        None => {},
                    }
                }
                let ghost prev = vec.deep_view();
                vec.push(v);
                proof {
                    assert(vec.deep_view() =~= prev + seq![v.deep_view()]);
                }
                rest = rest2;
                i = i + 1;
            },
            None => {
                proof {
                    assert(parse_elems::<T>(rest@, (n - i) as nat) is None);
                }
                return None;
            },
        }
    }
    proof {
        assert(vec.deep_view() + Seq::<T::V>::empty() =~= vec.deep_view());
    }
    Some((vec, rest))
}

impl<T: Decodable> Decodable for Vec<T> {
    open spec fn parse(b: Seq<u8>) -> Option<(Seq<T::V>, Seq<u8>)> {
        match wire::parse_u64(b) {
            Some((n, rest)) => parse_elems::<T>(rest, n as nat),
            None => None,
        }
    }

    fn decode_from_buf(buffer: &[u8]) -> (r: Option<(Self, &[u8])>) {
        let (n, first) = match wire::decode_u64(buffer) {
            Some(p) => p,
            None => {
                return None;
            },
        };
        decode_elems::<T>(first, n)
    }

    proof fn lemma_parse_prefix(b: Seq<u8>) {
        if let Some((n, rest0)) = wire::parse_u64(b) {
            lemma_parse_elems_prefix::<T>(rest0, n as nat);
            match parse_elems::<T>(rest0, n as nat) {
                Some((vs, rest)) => {
                    assert(rest0.skip(rest0.len() - rest.len()) =~= b.skip(b.len() - rest.len()));
                },
                None => {},
            }
        }
    }
}

impl<T: Lossless> Lossless for Vec<T> {
    open spec fn bounded(&self) -> bool {
        self@.len() <= u64::MAX && forall|i: int|
            0 <= i < self@.len() ==> #[trigger] self@[i].bounded()
    }

    proof fn lemma_round_trip(&self, tail: Seq<u8>) {
        let n = self@.len() as u64;
        let body = crate::encodable::wire_elems(self@);
        wire::lemma_parse_wire_u64(n, body + tail);
        assert(self.wire() + tail =~= wire::wire_u64(n) + (body + tail));
        lemma_parse_wire_elems(self@, tail);
        assert(self.deep_view() =~= deep_seq(self@));
    }
}

impl<T: Decodable> Decodable for Box<T> {
    open spec fn parse(b: Seq<u8>) -> Option<(T::V, Seq<u8>)> {
        T::parse(b)
    }

    fn decode_from_buf(buffer: &[u8]) -> (r: Option<(Self, &[u8])>) {
        match T::decode_from_buf(buffer) {
            Some((v, rest)) => Some((Box::new(v), rest)),
            None => None,
        }
    }

    proof fn lemma_parse_prefix(b: Seq<u8>) {
        T::lemma_parse_prefix(b);
    }
}

impl<T: Lossless> Lossless for Box<T> {
    open spec fn bounded(&self) -> bool {
        (**self).bounded()
    }

    proof fn lemma_round_trip(&self, tail: Seq<u8>) {
        (**self).lemma_round_trip(tail);
    }
}

/// Fixed-size arrays decode element by element, except the eight-element
/// boolean array, which unpacks a single byte.  The sizes the library works
/// with are provided individually, as on the encoding side.
impl Decodable for [bool; 8] {
    open spec fn parse(b: Seq<u8>) -> Option<(Seq<bool>, Seq<u8>)> {
        wire::parse_bool8(b)
    }

    fn decode_from_buf(buffer: &[u8]) -> (r: Option<(Self, &[u8])>) {
        let r = wire::decode_bool8(buffer);
        proof {
            match r {
                Some(p) => {
                    assert(p.0.deep_view() =~= p.0@);
                },
                None => {},
            }
        }
        r
    }

    proof fn lemma_parse_prefix(b: Seq<u8>) {
    }
}

impl Lossless for [bool; 8] {
    open spec fn bounded(&self) -> bool {
        true
    }

    proof fn lemma_round_trip(&self, tail: Seq<u8>) {
        wire::lemma_parse_wire_bool8(self@, tail);
        assert(self.deep_view() =~= self@);
    }
}

impl Decodable for [bool; 16] {
    open spec fn parse(b: Seq<u8>) -> Option<(Seq<bool>, Seq<u8>)> {
        parse_elems::<bool>(b, 16)
    }

    fn decode_from_buf(buffer: &[u8]) -> (r: Option<(Self, &[u8])>) {
        match decode_elems::<bool>(buffer, 16) {
            Some((v, rest)) => {
                let arr: [bool; 16] = [
                    v[0],
                    v[1],
                    v[2],
                    v[3],
                    v[4],
                    v[5],
                    v[6],
                    v[7],
                    v[8],
                    v[9],
                    v[10],
                    v[11],
                    v[12],
                    v[13],
                    v[14],
                    v[15],
                ];
                proof {
                    assert(arr.deep_view() =~= v.deep_view());
                }
                Some((arr, rest))
            },
            None => None,
        }
    }

    proof fn lemma_parse_prefix(b: Seq<u8>) {
        lemma_parse_elems_prefix::<bool>(b, 16);
    }
}

impl Lossless for [bool; 16] {
    open spec fn bounded(&self) -> bool {
        true
    }

    proof fn lemma_round_trip(&self, tail: Seq<u8>) {
        lemma_parse_wire_elems::<bool>(self@, tail);
        assert(self.deep_view() =~= deep_seq(self@));
    }
}

impl Decodable for [bool; 17] {
    open spec fn parse(b: Seq<u8>) -> Option<(Seq<bool>, Seq<u8>)> {
        parse_elems::<bool>(b, 17)
    }

    fn decode_from_buf(buffer: &[u8]) -> (r: Option<(Self, &[u8])>) {
        match decode_elems::<bool>(buffer, 17) {
            Some((v, rest)) => {
                let arr: [bool; 17] = [
                    v[0],
                    v[1],
                    v[2],
                    v[3],
                    v[4],
                    v[5],
                    v[6],
                    v[7],
                    v[8],
                    v[9],
                    v[10],
                    v[11],
                    v[12],
                    v[13],
                    v[14],
                    v[15],
                    v[16],
                ];
                proof {
                    assert(arr.deep_view() =~= v.deep_view());
                }
                Some((arr, rest))
            },
            None => None,
        }
    }

    proof fn lemma_parse_prefix(b: Seq<u8>) {
        lemma_parse_elems_prefix::<bool>(b, 17);
    }
}

impl Lossless for [bool; 17] {
    open spec fn bounded(&self) -> bool {
        true
    }

    proof fn lemma_round_trip(&self, tail: Seq<u8>) {
        lemma_parse_wire_elems::<bool>(self@, tail);
        assert(self.deep_view() =~= deep_seq(self@));
    }
}

impl Decodable for [u64; 3] {
    open spec fn parse(b: Seq<u8>) -> Option<(Seq<u64>, Seq<u8>)> {
        parse_elems::<u64>(b, 3)
    }

    fn decode_from_buf(buffer: &[u8]) -> (r: Option<(Self, &[u8])>) {
        match decode_elems::<u64>(buffer, 3) {
            Some((v, rest)) => {
                let arr: [u64; 3] = [v[0], v[1], v[2]];
                proof {
                    assert(arr.deep_view() =~= v.deep_view());
                }
                Some((arr, rest))
            },
            None => None,
        }
    }

    proof fn lemma_parse_prefix(b: Seq<u8>) {
        lemma_parse_elems_prefix::<u64>(b, 3);
    }
}

impl Lossless for [u64; 3] {
    open spec fn bounded(&self) -> bool {
        true
    }

    proof fn lemma_round_trip(&self, tail: Seq<u8>) {
        lemma_parse_wire_elems::<u64>(self@, tail);
        assert(self.deep_view() =~= deep_seq(self@));
    }
}

impl Decodable for [String; 4] {
    open spec fn parse(b: Seq<u8>) -> Option<(Seq<Seq<char>>, Seq<u8>)> {
        parse_elems::<String>(b, 4)
    }

    fn decode_from_buf(buffer: &[u8]) -> (r: Option<(Self, &[u8])>) {
        match decode_elems::<String>(buffer, 4) {
            Some((v, rest)) => {
                let arr: [String; 4] = [v[0].clone(), v[1].clone(), v[2].clone(), v[3].clone()];
                proof {
                    assert(arr.deep_view() =~= v.deep_view());
                }
                Some((arr, rest))
            },
            None => None,
        }
    }

    proof fn lemma_parse_prefix(b: Seq<u8>) {
        lemma_parse_elems_prefix::<String>(b, 4);
    }
}

impl Lossless for [String; 4] {
    open spec fn bounded(&self) -> bool {
        forall|i: int| 0 <= i < 4 ==> #[trigger] self@[i].bounded()
    }

    proof fn lemma_round_trip(&self, tail: Seq<u8>) {
        lemma_parse_wire_elems::<String>(self@, tail);
        assert(self.deep_view() =~= deep_seq(self@));
    }
}

} // verus!
