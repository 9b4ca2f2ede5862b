//! The generated codec, interpreted.
//!
//! A resolved schema is turned into behaviour here: [`encode_value`] writes a
//! dynamic [`Value`] under a [`FieldType`], and [`decode_value`] reads one
//! back, consuming bytes left to right and failing (with no partial result)
//! on insufficient or malformed input.  Records and unions build on these:
//! a record writes its non-ignored fields in resolved order, a union writes
//! the variant's tag at the configured width and then the payload fields in
//! declaration order.  The round-trip lemmas state that decoding an encoding
//! recovers the value and leaves exactly the trailing bytes.

use crate::attrs::EnumEncodingType;
use crate::schema::FieldSchema;
use crate::schema::FieldType;
use crate::schema::RecordSchema;
use crate::schema::UnionSchema;
use crate::schema::VariantSchema;
use crate::tags::spec_tag_fits;
use crate::wire;
use vstd::map::*;
use vstd::prelude::*;

verus! {

broadcast use {vstd::seq::group_seq_axioms, vstd::std_specs::vec::group_vec_axioms};

/// A dynamic value of some field type.
#[derive(Debug)]
pub enum Value {
    U8(u8),
    U16(u16),
    U32(u32),
    U64(u64),
    U128(u128),
    I8(i8),
    I16(i16),
    I32(i32),
    I64(i64),
    I128(i128),
    Usize(usize),
    Isize(isize),
    Bool(bool),
    Str(String),
    OptionOf(Option<Box<Value>>),
    List(Vec<Value>),
    Array(Vec<Value>),
}

/// The abstract value of a [`Value`]: strings become character sequences and
/// containers become sequences of abstract values.
#[verifier::ext_equal]
pub enum ValView {
    U8(u8),
    U16(u16),
    U32(u32),
    U64(u64),
    U128(u128),
    I8(i8),
    I16(i16),
    I32(i32),
    I64(i64),
    I128(i128),
    Usize(usize),
    Isize(isize),
    Bool(bool),
    Str(Seq<char>),
    OptionOf(Option<Box<ValView>>),
    List(Seq<ValView>),
    Array(Seq<ValView>),
}

impl View for Value {
    type V = ValView;

    open spec fn view(&self) -> ValView
        decreases self,
    {
        match self {
            Value::U8(v) => ValView::U8(*v),
            Value::U16(v) => ValView::U16(*v),
            Value::U32(v) => ValView::U32(*v),
            Value::U64(v) => ValView::U64(*v),
            Value::U128(v) => ValView::U128(*v),
            Value::I8(v) => ValView::I8(*v),
            Value::I16(v) => ValView::I16(*v),
            Value::I32(v) => ValView::I32(*v),
            Value::I64(v) => ValView::I64(*v),
            Value::I128(v) => ValView::I128(*v),
            Value::Usize(v) => ValView::Usize(*v),
            Value::Isize(v) => ValView::Isize(*v),
            Value::Bool(v) => ValView::Bool(*v),
            Value::Str(s) => ValView::Str(s@),
            Value::OptionOf(o) => ValView::OptionOf(
                match o {
                    Some(b) => Some(Box::new((**b)@)),
                    None => None,
                },
            ),
            Value::List(vs) => ValView::List(views_rec(vs@)),
            Value::Array(vs) => ValView::Array(views_rec(vs@)),
        }
    }
}

/// The abstract values of a sequence of values, element by element.
pub open spec fn views_rec(vs: Seq<Value>) -> Seq<ValView>
    decreases vs,
{
    if vs.len() == 0 {
        Seq::empty()
    } else {
        seq![vs[0]@] + views_rec(vs.skip(1))
    }
}

/// `views_rec` read pointwise.
pub proof fn lemma_views_rec(vs: Seq<Value>)
    ensures
        views_rec(vs).len() == vs.len(),
        forall|i: int| 0 <= i < vs.len() ==> #[trigger] views_rec(vs)[i] == vs[i]@,
    decreases vs.len(),
{
    if vs.len() > 0 {
        lemma_views_rec(vs.skip(1));
        assert(views_rec(vs) == seq![vs[0]@] + views_rec(vs.skip(1)));
        assert(views_rec(vs).len() == 1 + views_rec(vs.skip(1)).len());
        assert forall|i: int| 0 <= i < vs.len() implies views_rec(vs)[i] == #[trigger] vs[i]@ by {
            if i > 0 {
                assert(views_rec(vs)[i] == views_rec(vs.skip(1))[i - 1]);
                assert(vs.skip(1)[i - 1] == vs[i]);
            }
        }
    }
}

/// The abstract values of a vector of values, element by element.
pub open spec fn elem_views(vs: Seq<Value>) -> Seq<ValView> {
    Seq::new(vs.len(), |i: int| vs[i]@)
}

/// The two element-view forms agree.
pub proof fn lemma_elem_views(vs: Seq<Value>)
    ensures
        views_rec(vs) == elem_views(vs),
{
    lemma_views_rec(vs);
    assert(views_rec(vs) =~= elem_views(vs));
}

/// The boolean held by an abstract value, when it holds one.
pub open spec fn bool_of(v: ValView) -> bool {
    match v {
        ValView::Bool(b) => b,
        _ => false,
    }
}

/// The booleans of a sequence of abstract boolean values.
pub open spec fn bools_of(vs: Seq<ValView>) -> Seq<bool> {
    Seq::new(vs.len(), |i: int| bool_of(vs[i]))
}

/// True when the abstract value `v` has the field type `t`.
pub open spec fn has_type(v: ValView, t: FieldType) -> bool
    decreases t,
{
    match t {
        FieldType::U8 => v is U8,
        FieldType::U16 => v is U16,
        FieldType::U32 => v is U32,
        FieldType::U64 => v is U64,
        FieldType::U128 => v is U128,
        FieldType::I8 => v is I8,
        FieldType::I16 => v is I16,
        FieldType::I32 => v is I32,
        FieldType::I64 => v is I64,
        FieldType::I128 => v is I128,
        FieldType::Usize => v is Usize,
        FieldType::Isize => v is Isize,
        FieldType::Bool => v is Bool,
        FieldType::Str => v is Str,
        FieldType::OptionOf(et) => match v {
            ValView::OptionOf(o) => match o {
                Some(b) => has_type(*b, *et),
                None => true,
            },
            _ => false,
        },
        FieldType::ListOf(et) => match v {
            ValView::List(vs) => forall|i: int| 0 <= i < vs.len() ==> has_type(#[trigger] vs[i], *et),
            _ => false,
        },
        FieldType::ArrayOf(et, n) => match v {
            ValView::Array(vs) => vs.len() == n && forall|i: int|
                0 <= i < vs.len() ==> has_type(#[trigger] vs[i], *et),
            _ => false,
        },
        FieldType::BoolArray8 => match v {
            ValView::Array(vs) => vs.len() == 8 && forall|i: int|
                0 <= i < vs.len() ==> (#[trigger] vs[i]) is Bool,
            _ => false,
        },
    }
}

/// True when every length or count written inside the byte image of `v`
/// fits its eight-byte field.
pub open spec fn vbounded(v: ValView) -> bool
    decreases v,
{
    match v {
        ValView::Str(s) => vstd::utf8::encode_utf8(s).len() <= u64::MAX,
        ValView::OptionOf(o) => match o {
            Some(b) => vbounded(*b),
            None => true,
        },
        ValView::List(vs) => vs.len() <= u64::MAX && forall|i: int|
            0 <= i < vs.len() ==> vbounded(#[trigger] vs[i]),
        ValView::Array(vs) => forall|i: int| 0 <= i < vs.len() ==> vbounded(#[trigger] vs[i]),
        _ => true,
    }
}

/// The byte image of the abstract value `v` under the field type `t`.
pub open spec fn wire_value(v: ValView, t: FieldType) -> Seq<u8>
    recommends
        has_type(v, t),
    decreases t, 0nat,
{
    match t {
        FieldType::U8 => match v {
            ValView::U8(x) => wire::wire_u8(x),
            _ => Seq::empty(),
        },
        FieldType::U16 => match v {
            ValView::U16(x) => wire::wire_u16(x),
            _ => Seq::empty(),
        },
        FieldType::U32 => match v {
            ValView::U32(x) => wire::wire_u32(x),
            _ => Seq::empty(),
        },
        FieldType::U64 => match v {
            ValView::U64(x) => wire::wire_u64(x),
            _ => Seq::empty(),
        },
        FieldType::U128 => match v {
            ValView::U128(x) => wire::wire_u128(x),
            _ => Seq::empty(),
        },
        FieldType::I8 => match v {
            ValView::I8(x) => wire::wire_i8(x),
            _ => Seq::empty(),
        },
        FieldType::I16 => match v {
            ValView::I16(x) => wire::wire_i16(x),
            _ => Seq::empty(),
        },
        FieldType::I32 => match v {
            ValView::I32(x) => wire::wire_i32(x),
            _ => Seq::empty(),
        },
        FieldType::I64 => match v {
            ValView::I64(x) => wire::wire_i64(x),
            _ => Seq::empty(),
        },
        FieldType::I128 => match v {
            ValView::I128(x) => wire::wire_i128(x),
            _ => Seq::empty(),
        },
        FieldType::Usize => match v {
            ValView::Usize(x) => wire::wire_usize(x),
            _ => Seq::empty(),
        },
        FieldType::Isize => match v {
            ValView::Isize(x) => wire::wire_isize(x),
            _ => Seq::empty(),
        },
        FieldType::Bool => match v {
            ValView::Bool(x) => wire::wire_bool(x),
            _ => Seq::empty(),
        },
        FieldType::Str => match v {
            ValView::Str(s) => wire::wire_str(s),
            _ => Seq::empty(),
        },
        FieldType::OptionOf(et) => match v {
            ValView::OptionOf(o) => match o {
                Some(b) => seq![1u8] + wire_value(*b, *et),
                None => seq![0u8],
            },
            _ => Seq::empty(),
        },
        FieldType::ListOf(et) => match v {
            ValView::List(vs) => wire::wire_u64(vs.len() as u64) + wire_value_elems(vs, *et),
            _ => Seq::empty(),
        },
        FieldType::ArrayOf(et, _n) => match v {
            ValView::Array(vs) => wire_value_elems(vs, *et),
            _ => Seq::empty(),
        },
        FieldType::BoolArray8 => match v {
            ValView::Array(vs) => wire::wire_bool8(bools_of(vs)),
            _ => Seq::empty(),
        },
    }
}

/// The concatenated byte images of a sequence of abstract values, all of the
/// field type `t`.
pub open spec fn wire_value_elems(vs: Seq<ValView>, t: FieldType) -> Seq<u8>
    decreases t, vs.len() + 1nat,
{
    if vs.len() == 0 {
        Seq::empty()
    } else {
        wire_value(vs[0], t) + wire_value_elems(vs.skip(1), t)
    }
}

/// Parses one value of field type `t` from a prefix of `b`.
pub open spec fn parse_value(b: Seq<u8>, t: FieldType) -> Option<(ValView, Seq<u8>)>
    decreases t, 0nat,
{
    match t {
        FieldType::U8 => match wire::parse_u8(b) {
            Some((x, rest)) => Some((ValView::U8(x), rest)),
            None => None,
        },
        FieldType::U16 => match wire::parse_u16(b) {
            Some((x, rest)) => Some((ValView::U16(x), rest)),
            None => None,
        },
        FieldType::U32 => match wire::parse_u32(b) {
            Some((x, rest)) => Some((ValView::U32(x), rest)),
            None => None,
        },
        FieldType::U64 => match wire::parse_u64(b) {
            Some((x, rest)) => Some((ValView::U64(x), rest)),
            None => None,
        },
        FieldType::U128 => match wire::parse_u128(b) {
            Some((x, rest)) => Some((ValView::U128(x), rest)),
            None => None,
        },
        FieldType::I8 => match wire::parse_i8(b) {
            Some((x, rest)) => Some((ValView::I8(x), rest)),
            None => None,
        },
        FieldType::I16 => match wire::parse_i16(b) {
            Some((x, rest)) => Some((ValView::I16(x), rest)),
            None => None,
        },
        FieldType::I32 => match wire::parse_i32(b) {
            Some((x, rest)) => Some((ValView::I32(x), rest)),
            None => None,
        },
        FieldType::I64 => match wire::parse_i64(b) {
            Some((x, rest)) => Some((ValView::I64(x), rest)),
            None => None,
        },
        FieldType::I128 => match wire::parse_i128(b) {
            Some((x, rest)) => Some((ValView::I128(x), rest)),
            None => None,
        },
        FieldType::Usize => match wire::parse_usize(b) {
            Some((x, rest)) => Some((ValView::Usize(x), rest)),
            None => None,
        },
        FieldType::Isize => match wire::parse_isize(b) {
            Some((x, rest)) => Some((ValView::Isize(x), rest)),
            None => None,
        },
        FieldType::Bool => match wire::parse_bool(b) {
            Some((x, rest)) => Some((ValView::Bool(x), rest)),
            None => None,
        },
        FieldType::Str => match wire::parse_str(b) {
            Some((s, rest)) => Some((ValView::Str(s), rest)),
            None => None,
        },
        FieldType::OptionOf(et) => {
            if b.len() < 1 {
                None
            } else if b[0] == 0 {
                Some((ValView::OptionOf(None), b.skip(1)))
            } else {
                match parse_value(b.skip(1), *et) {
                    Some((v, rest)) => Some((ValView::OptionOf(Some(Box::new(v))), rest)),
                    None => None,
                }
            }
        },
        FieldType::ListOf(et) => match wire::parse_u64(b) {
            Some((n, rest)) => match parse_value_elems(rest, *et, n as nat) {
                Some((vs, rest2)) => Some((ValView::List(vs), rest2)),
                None => None,
            },
            None => None,
        },
        FieldType::ArrayOf(et, n) => match parse_value_elems(b, *et, n as nat) {
            Some((vs, rest)) => Some((ValView::Array(vs), rest)),
            None => None,
        },
        FieldType::BoolArray8 => match wire::parse_bool8(b) {
            Some((bs, rest)) => Some(
                (ValView::Array(Seq::new(bs.len(), |i: int| ValView::Bool(bs[i]))), rest),
            ),
            None => None,
        },
    }
}

/// Parses exactly `n` consecutive values of field type `t` from the front of
/// `b`.
pub open spec fn parse_value_elems(b: Seq<u8>, t: FieldType, n: nat) -> Option<
    (Seq<ValView>, Seq<u8>),
>
    decreases t, n + 1nat,
{
    if n == 0 {
        Some((Seq::empty(), b))
    } else {
        match parse_value(b, t) {
            Some((v, rest)) => match parse_value_elems(rest, t, (n - 1) as nat) {
                Some((vs, rest2)) => Some((seq![v] + vs, rest2)),
                None => None,
            },
            None => None,
        }
    }
}

/// The zero value of a field type: zero for numbers, false for booleans, the
/// empty string, the absent option, the empty list, and arrays filled with
/// their element's zero value.
pub open spec fn default_view(t: FieldType) -> ValView
    decreases t,
{
    match t {
        FieldType::U8 => ValView::U8(0),
        FieldType::U16 => ValView::U16(0),
        FieldType::U32 => ValView::U32(0),
        FieldType::U64 => ValView::U64(0),
        FieldType::U128 => ValView::U128(0),
        FieldType::I8 => ValView::I8(0),
        FieldType::I16 => ValView::I16(0),
        FieldType::I32 => ValView::I32(0),
        FieldType::I64 => ValView::I64(0),
        FieldType::I128 => ValView::I128(0),
        FieldType::Usize => ValView::Usize(0),
        FieldType::Isize => ValView::Isize(0),
        FieldType::Bool => ValView::Bool(false),
        FieldType::Str => ValView::Str(Seq::empty()),
        FieldType::OptionOf(_) => ValView::OptionOf(None),
        FieldType::ListOf(_) => ValView::List(Seq::empty()),
        FieldType::ArrayOf(et, n) => ValView::Array(Seq::new(n as nat, |i: int| default_view(*et))),
        FieldType::BoolArray8 => ValView::Array(Seq::new(8, |i: int| ValView::Bool(false))),
    }
}

/// The zero value of a field type has that type, and is bounded.
pub proof fn lemma_default_has_type(t: FieldType)
    ensures
        has_type(default_view(t), t),
        vbounded(default_view(t)),
    decreases t,
{
    match t {
        FieldType::Str => {
            vstd::utf8::encode_utf8_valid_utf8(Seq::empty());
            assert(vstd::utf8::encode_utf8(Seq::<char>::empty()) =~= Seq::<u8>::empty());
        },
        FieldType::ArrayOf(et, n) => {
            lemma_default_has_type(*et);
            let elems = Seq::new(n as nat, |i: int| default_view(*et));
            assert forall|i: int| 0 <= i < elems.len() implies vbounded(#[trigger] elems[i])
                && has_type(elems[i], *et) by {
                assert(elems[i] == default_view(*et));
            }
        },
        FieldType::BoolArray8 => {
            let elems = Seq::new(8, |i: int| ValView::Bool(false));
            assert forall|i: int| 0 <= i < elems.len() implies vbounded(#[trigger] elems[i])
                && elems[i] is Bool by {
                assert(elems[i] == ValView::Bool(false));
            }
        },
        _ => {},
    }
}

/// Builds the zero value of a field type.
#[verifier::loop_isolation(false)]
pub fn default_value(t: &FieldType) -> (r: Value)
    ensures
        r@ == default_view(*t),
        has_type(r@, *t),
    decreases t,
{
    match t {
        FieldType::U8 => Value::U8(0),
        FieldType::U16 => Value::U16(0),
        FieldType::U32 => Value::U32(0),
        FieldType::U64 => Value::U64(0),
        FieldType::U128 => Value::U128(0),
        FieldType::I8 => Value::I8(0),
        FieldType::I16 => Value::I16(0),
        FieldType::I32 => Value::I32(0),
        FieldType::I64 => Value::I64(0),
        FieldType::I128 => Value::I128(0),
        FieldType::Usize => Value::Usize(0),
        FieldType::Isize => Value::Isize(0),
        FieldType::Bool => Value::Bool(false),
        FieldType::Str => {
            let s = String::new();
            Value::Str(s)
        },
        FieldType::OptionOf(_) => Value::OptionOf(None),
        FieldType::ListOf(_) => {
            let vs: Vec<Value> = Vec::new();
            let r = Value::List(vs);
            proof {
                assert(views_rec(vs@) =~= Seq::<ValView>::empty());
                assert(r@ =~= default_view(*t));
            }
            r
        },
        FieldType::ArrayOf(et, n) => {
            let count = *n;
            let mut vs: Vec<Value> = Vec::new();
            let mut i: usize = 0;
            while i < count
                invariant
                    i <= count,
                    vs@.len() == i,
                    forall|j: int| 0 <= j < i ==> #[trigger] vs@[j]@ == default_view(**et),
                decreases count - i,
            {
                vs.push(default_value(&**et));
                i = i + 1;
            }
            let r = Value::Array(vs);
            proof {
                lemma_views_rec(vs@);
                lemma_default_has_type(**et);
                assert(views_rec(vs@) =~= Seq::new(count as nat, |i: int| default_view(**et)));
                assert(r@ =~= default_view(*t));
            }
            r
        },
        FieldType::BoolArray8 => {
            let mut vs: Vec<Value> = Vec::new();
            let mut i: usize = 0;
            while i < 8
                invariant
                    i <= 8,
                    vs@.len() == i,
                    forall|j: int| 0 <= j < i ==> #[trigger] vs@[j]@ == ValView::Bool(false),
                decreases 8 - i,
            {
                vs.push(Value::Bool(false));
                i = i + 1;
            }
            let r = Value::Array(vs);
            proof {
                lemma_views_rec(vs@);
                assert(views_rec(vs@) =~= Seq::new(8, |i: int| ValView::Bool(false)));
                assert(r@ =~= default_view(*t));
            }
            r
        },
    }
}

/// Appends the byte image of `v` under the field type `t` to `buf`.
#[verifier::loop_isolation(false)]
pub fn encode_value(t: &FieldType, v: &Value, buf: &mut Vec<u8>)
    requires
        has_type(v@, *t),
    ensures
        final(buf)@ == old(buf)@ + wire_value(v@, *t),
    decreases t,
{
    match (t, v) {
        (FieldType::U8, Value::U8(x)) => wire::encode_u8(*x, buf),
        (FieldType::U16, Value::U16(x)) => wire::encode_u16(*x, buf),
        (FieldType::U32, Value::U32(x)) => wire::encode_u32(*x, buf),
        (FieldType::U64, Value::U64(x)) => wire::encode_u64(*x, buf),
        (FieldType::U128, Value::U128(x)) => wire::encode_u128(*x, buf),
        (FieldType::I8, Value::I8(x)) => wire::encode_i8(*x, buf),
        (FieldType::I16, Value::I16(x)) => wire::encode_i16(*x, buf),
        (FieldType::I32, Value::I32(x)) => wire::encode_i32(*x, buf),
        (FieldType::I64, Value::I64(x)) => wire::encode_i64(*x, buf),
        (FieldType::I128, Value::I128(x)) => wire::encode_i128(*x, buf),
        (FieldType::Usize, Value::Usize(x)) => wire::encode_usize(*x, buf),
        (FieldType::Isize, Value::Isize(x)) => wire::encode_isize(*x, buf),
        (FieldType::Bool, Value::Bool(x)) => wire::encode_bool(*x, buf),
        (FieldType::Str, Value::Str(s)) => wire::encode_str(s.as_str(), buf),
        (FieldType::OptionOf(et), Value::OptionOf(o)) => match o {
            Some(b) => {
                wire::encode_u8(1, buf);
                encode_value(et, &**b, buf);
                proof {
                    assert(final(buf)@ =~= old(buf)@ + wire_value(v@, *t));
                }
            },
            None => {
                wire::encode_u8(0, buf);
            },
        },
        (FieldType::ListOf(et), Value::List(vs)) => {
            let n = vs.len();
            wire::encode_u64(n as u64, buf);
            let ghost views = elem_views(vs@);
            let mut i: usize = 0;
            proof {
                lemma_elem_views(vs@);
                assert(v@->List_0 =~= views);
            }
            while i < n
                invariant
                    i <= n,
                    n == vs@.len(),
                    views == elem_views(vs@),
                    forall|j: int| 0 <= j < vs@.len() ==> has_type(#[trigger] views[j], **et),
                    buf@ == old(buf)@ + wire::wire_u64(n as u64) + wire_value_elems(
                        views.take(i as int),
                        **et,
                    ),
                decreases n - i,
            {
                encode_value(et, &vs[i], buf);
                proof {
                    lemma_wire_value_elems_push(views.take(i as int), views[i as int], **et);
                    assert(views.take(i + 1 as int) =~= views.take(i as int).push(
                        views[i as int],
                    ));
                }
                i = i + 1;
            }
            proof {
                assert(views.take(n as int) =~= views);
                assert(buf@ =~= old(buf)@ + wire_value(v@, *t));
            }
        },
        (FieldType::ArrayOf(et, _n), Value::Array(vs)) => {
            let n = vs.len();
            let ghost views = elem_views(vs@);
            let mut i: usize = 0;
            proof {
                lemma_elem_views(vs@);
                assert(v@->Array_0 =~= views);
            }
            while i < n
                invariant
                    i <= n,
                    n == vs@.len(),
                    views == elem_views(vs@),
                    forall|j: int| 0 <= j < vs@.len() ==> has_type(#[trigger] views[j], **et),
                    buf@ == old(buf)@ + wire_value_elems(views.take(i as int), **et),
                decreases n - i,
            {
                encode_value(et, &vs[i], buf);
                proof {
                    lemma_wire_value_elems_push(views.take(i as int), views[i as int], **et);
                    assert(views.take(i + 1 as int) =~= views.take(i as int).push(
                        views[i as int],
                    ));
                }
                i = i + 1;
            }
            proof {
                assert(views.take(n as int) =~= views);
                assert(buf@ =~= old(buf)@ + wire_value(v@, *t));
            }
        },
        (FieldType::BoolArray8, Value::Array(vs)) => {
            proof {
                lemma_views_rec(vs@);
                assert forall|i: int| 0 <= i < vs@.len() implies (#[trigger] vs@[i]@) is Bool by {
                    assert(views_rec(vs@)[i] == vs@[i]@);
                }
            }
            let arr: [bool; 8] = [
                bool_elem(vs, 0),
                bool_elem(vs, 1),
                bool_elem(vs, 2),
                bool_elem(vs, 3),
                bool_elem(vs, 4),
                bool_elem(vs, 5),
                bool_elem(vs, 6),
                bool_elem(vs, 7),
            ];
            proof {
                lemma_views_rec(vs@);
                assert(arr@ =~= bools_of(v@->Array_0));
            }
            wire::encode_bool8(&arr, buf);
        },
        _ => {
            proof {
                assert(false);
            }
        },
    }
}

/// The boolean at position `i` of a vector of boolean values.
fn bool_elem(vs: &Vec<Value>, i: usize) -> (r: bool)
    requires
        i < vs@.len(),
        vs@[i as int]@ is Bool,
    ensures
        r == bool_of(vs@[i as int]@),
{
    match &vs[i] {
        Value::Bool(b) => *b,
        _ => false,
    }
}

/// Decodes exactly `n` consecutive values of field type `t` from the front
/// of `buffer`.
#[verifier::loop_isolation(false)]
fn decode_value_elems<'a>(t: &FieldType, buffer: &'a [u8], n: u64) -> (r: Option<(Vec<Value>, &'a [u8])>)
    ensures
        match r {
            Some(p) => parse_value_elems(buffer@, *t, n as nat) == Some((elem_views(p.0@), p.1@))
                && p.0@.len() == n,
            None => parse_value_elems(buffer@, *t, n as nat) is None,
        },
    decreases t, 1nat,
{
    let mut vec: Vec<Value> = Vec::new();
    let mut rest = buffer;
    let mut i: u64 = 0;
    proof {
        assert(elem_views(vec@) + Seq::<ValView>::empty() =~= elem_views(vec@));
    }
    while i < n
        invariant
            i <= n,
            vec@.len() == i,
            match parse_value_elems(rest@, *t, (n - i) as nat) {
                Some((vs, r2)) => parse_value_elems(buffer@, *t, n as nat) == Some(
                    (elem_views(vec@) + vs, r2),
                ),
                None => parse_value_elems(buffer@, *t, n as nat) is None,
            },
        decreases n - i,
    {
        match decode_value(t, rest) {
            Some((v, rest2)) => {
                proof {
                    let ghost old_dv = elem_views(vec@);
                    let ghost vd = v@;
                    match parse_value_elems(rest2@, *t, (n - i - 1) as nat) {
                        Some((vs2, r3)) => {
                            assert(parse_value_elems(rest@, *t, (n - i) as nat) == Some(
                                (seq![vd] + vs2, r3),
                            ));
                            assert(old_dv + (seq![vd] + vs2) =~= (old_dv + seq![vd]) + vs2);
                        },
                        None => {},
                    }
                }
                let ghost prev = elem_views(vec@);
                vec.push(v);
                proof {
                    assert(elem_views(vec@) =~= prev + seq![v@]);
                }
                rest = rest2;
                i = i + 1;
            },
            None => {
                proof {
                    assert(parse_value_elems(rest@, *t, (n - i) as nat) is None);
                }
                return None;
            },
        }
    }
    proof {
        assert(elem_views(vec@) + Seq::<ValView>::empty() =~= elem_views(vec@));
    }
    Some((vec, rest))
}

/// Decodes one value of field type `t` from a prefix of `buffer`, returning
/// the value and the unprocessed remainder, or `None` when `buffer` does not
/// start with a valid encoding.
#[verifier::loop_isolation(false)]
pub fn decode_value<'a>(t: &FieldType, buffer: &'a [u8]) -> (r: Option<(Value, &'a [u8])>)
    ensures
        match r {
            Some(p) => parse_value(buffer@, *t) == Some((p.0@, p.1@)),
            None => parse_value(buffer@, *t) is None,
        },
    decreases t, 0nat,
{
    match t {
        FieldType::U8 => match wire::decode_u8(buffer) {
            Some((x, rest)) => Some((Value::U8(x), rest)),
            None => None,
        },
        FieldType::U16 => match wire::decode_u16(buffer) {
            Some((x, rest)) => Some((Value::U16(x), rest)),
            None => None,
        },
        FieldType::U32 => match wire::decode_u32(buffer) {
            Some((x, rest)) => Some((Value::U32(x), rest)),
            None => None,
        },
        FieldType::U64 => match wire::decode_u64(buffer) {
            Some((x, rest)) => Some((Value::U64(x), rest)),
            None => None,
        },
        FieldType::U128 => match wire::decode_u128(buffer) {
            Some((x, rest)) => Some((Value::U128(x), rest)),
            None => None,
        },
        FieldType::I8 => match wire::decode_i8(buffer) {
            Some((x, rest)) => Some((Value::I8(x), rest)),
            None => None,
        },
        FieldType::I16 => match wire::decode_i16(buffer) {
            Some((x, rest)) => Some((Value::I16(x), rest)),
            None => None,
        },
        FieldType::I32 => match wire::decode_i32(buffer) {
            Some((x, rest)) => Some((Value::I32(x), rest)),
            None => None,
        },
        FieldType::I64 => match wire::decode_i64(buffer) {
            Some((x, rest)) => Some((Value::I64(x), rest)),
            None => None,
        },
        FieldType::I128 => match wire::decode_i128(buffer) {
            Some((x, rest)) => Some((Value::I128(x), rest)),
            None => None,
        },
        FieldType::Usize => match wire::decode_usize(buffer) {
            Some((x, rest)) => Some((Value::Usize(x), rest)),
            None => None,
        },
        FieldType::Isize => match wire::decode_isize(buffer) {
            Some((x, rest)) => Some((Value::Isize(x), rest)),
            None => None,
        },
        FieldType::Bool => match wire::decode_bool(buffer) {
            Some((x, rest)) => Some((Value::Bool(x), rest)),
            None => None,
        },
        FieldType::Str => match wire::decode_str(buffer) {
            Some((s, rest)) => Some((Value::Str(s), rest)),
            None => None,
        },
        FieldType::OptionOf(et) => {
            let (present, rest) = match wire::decode_u8(buffer) {
                Some(p) => p,
                None => {
                    return None;
                },
            };
            if present == 0 {
                Some((Value::OptionOf(None), rest))
            } else {
                match decode_value(et, rest) {
                    Some((v, rest2)) => Some((Value::OptionOf(Some(Box::new(v))), rest2)),
                    None => None,
                }
            }
        },
        FieldType::ListOf(et) => {
            let (n, rest) = match wire::decode_u64(buffer) {
                Some(p) => p,
                None => {
                    return None;
                },
            };
            match decode_value_elems(et, rest, n) {
                Some((vec, rest2)) => {
                    let r = Value::List(vec);
                    proof {
                        lemma_elem_views(r->List_0@);
                    }
                    Some((r, rest2))
                },
                None => None,
            }
        },
        FieldType::ArrayOf(et, n) => {
            match decode_value_elems(et, buffer, *n as u64) {
                Some((vec, rest)) => {
                    let r = Value::Array(vec);
                    proof {
                        lemma_elem_views(r->Array_0@);
                    }
                    Some((r, rest))
                },
                None => None,
            }
        },
        FieldType::BoolArray8 => {
            match wire::decode_bool8(buffer) {
                Some((bs, rest)) => {
                    let mut vec: Vec<Value> = Vec::new();
                    let mut i: usize = 0;
                    while i < 8
                        invariant
                            i <= 8,
                            vec@.len() == i,
                            forall|j: int|
                                0 <= j < i ==> #[trigger] vec@[j]@ == ValView::Bool(bs@[j]),
                        decreases 8 - i,
                    {
                        vec.push(Value::Bool(bs[i]));
                        i = i + 1;
                    }
                    let r = Value::Array(vec);
                    proof {
                        lemma_views_rec(vec@);
                        assert(vec@.len() == 8);
                        assert(bs@.len() == 8);
                        assert forall|j: int| 0 <= j < 8 implies views_rec(vec@)[j]
                            == ValView::Bool(bs@[j]) by {
                            assert(vec@[j]@ == ValView::Bool(bs@[j]));
                        }
                        assert(views_rec(vec@) =~= Seq::new(
                            bs@.len(),
                            |j: int| ValView::Bool(bs@[j]),
                        ));
                        assert(r@ =~= ValView::Array(
                            Seq::new(bs@.len(), |j: int| ValView::Bool(bs@[j])),
                        ));
                    }
                    Some((r, rest))
                },
                None => None,
            }
        },
    }
}

/// Decoding the byte image of a well-typed, bounded value, followed by any
/// trailing bytes, recovers exactly that value and leaves exactly the
/// trailing bytes.
pub proof fn lemma_parse_wire_value(v: ValView, t: FieldType, tail: Seq<u8>)
    requires
        has_type(v, t),
        vbounded(v),
    ensures
        parse_value(wire_value(v, t) + tail, t) == Some((v, tail)),
    decreases t, 0nat,
{
    match t {
        FieldType::U8 => {
            wire::lemma_parse_wire_u8(v->U8_0, tail);
        },
        FieldType::U16 => {
            wire::lemma_parse_wire_u16(v->U16_0, tail);
        },
        FieldType::U32 => {
            wire::lemma_parse_wire_u32(v->U32_0, tail);
        },
        FieldType::U64 => {
            wire::lemma_parse_wire_u64(v->U64_0, tail);
        },
        FieldType::U128 => {
            wire::lemma_parse_wire_u128(v->U128_0, tail);
        },
        FieldType::I8 => {
            wire::lemma_parse_wire_i8(v->I8_0, tail);
        },
        FieldType::I16 => {
            wire::lemma_parse_wire_i16(v->I16_0, tail);
        },
        FieldType::I32 => {
            wire::lemma_parse_wire_i32(v->I32_0, tail);
        },
        FieldType::I64 => {
            wire::lemma_parse_wire_i64(v->I64_0, tail);
        },
        FieldType::I128 => {
            wire::lemma_parse_wire_i128(v->I128_0, tail);
        },
        FieldType::Usize => {
            wire::lemma_parse_wire_usize(v->Usize_0, tail);
        },
        FieldType::Isize => {
            wire::lemma_parse_wire_isize(v->Isize_0, tail);
        },
        FieldType::Bool => {
            wire::lemma_parse_wire_bool(v->Bool_0, tail);
        },
        FieldType::Str => {
            wire::lemma_parse_wire_str(v->Str_0, tail);
        },
        FieldType::OptionOf(et) => {
            match v {
                ValView::OptionOf(o) => match o {
                    Some(b) => {
                        lemma_parse_wire_value(*b, *et, tail);
                        let bytes = wire_value(v, t) + tail;
                        assert(bytes[0] == 1);
                        assert(bytes.skip(1) =~= wire_value(*b, *et) + tail);
                        assert(ValView::OptionOf(Some(Box::new(*b))) == v);
                    },
                    None => {
                        assert((wire_value(v, t) + tail)[0] == 0);
                        assert((wire_value(v, t) + tail).skip(1) =~= tail);
                    },
                },
                _ => {},
            }
        },
        FieldType::ListOf(et) => {
            match v {
                ValView::List(vs) => {
                    let body = wire_value_elems(vs, *et);
                    wire::lemma_parse_wire_u64(vs.len() as u64, body + tail);
                    assert(wire_value(v, t) + tail =~= wire::wire_u64(vs.len() as u64) + (body
                        + tail));
                    lemma_parse_wire_value_elems(vs, *et, tail);
                },
                _ => {},
            }
        },
        FieldType::ArrayOf(et, _n) => {
            match v {
                ValView::Array(vs) => {
                    lemma_parse_wire_value_elems(vs, *et, tail);
                },
                _ => {},
            }
        },
        FieldType::BoolArray8 => {
            match v {
                ValView::Array(vs) => {
                    wire::lemma_parse_wire_bool8(bools_of(vs), tail);
                    let parsed = Seq::new(
                        bools_of(vs).len(),
                        |i: int| ValView::Bool(bools_of(vs)[i]),
                    );
                    assert forall|i: int| 0 <= i < vs.len() implies parsed[i] == vs[i] by {
                        assert(vs[i] is Bool);
                    }
                    assert(parsed =~= vs);
                },
                _ => {},
            }
        },
    }
}

/// What a parse yields is well-typed and bounded, so it can itself be
/// encoded again.
pub proof fn lemma_parse_value_typed(b: Seq<u8>, t: FieldType)
    ensures
        match parse_value(b, t) {
            Some((v, rest)) => has_type(v, t) && vbounded(v),
            None => true,
        },
    decreases t, 0nat,
{
    match t {
        FieldType::Str => {
            match wire::parse_u64(b) {
                Some((len, rest)) => {
                    if rest.len() >= len && vstd::utf8::valid_utf8(rest.take(len as int)) {
                        vstd::utf8::decode_utf8_encode_utf8(rest.take(len as int));
                    }
                },
                None => {},
            }
        },
        FieldType::OptionOf(et) => {
            if b.len() >= 1 && b[0] != 0 {
                lemma_parse_value_typed(b.skip(1), *et);
            }
        },
        FieldType::ListOf(et) => {
            match wire::parse_u64(b) {
                Some((n, rest)) => {
                    lemma_parse_value_elems_typed(rest, *et, n as nat);
                },
                None => {},
            }
        },
        FieldType::ArrayOf(et, n) => {
            lemma_parse_value_elems_typed(b, *et, n as nat);
        },
        FieldType::BoolArray8 => {
            match wire::parse_bool8(b) {
                Some((bs, rest)) => {
                    let vs = Seq::new(bs.len(), |i: int| ValView::Bool(bs[i]));
                    assert forall|i: int| 0 <= i < vs.len() implies vbounded(#[trigger] vs[i])
                        && vs[i] is Bool by {
                        assert(vs[i] == ValView::Bool(bs[i]));
                    }
                },
                None => {},
            }
        },
        _ => {},
    }
}

/// As [`lemma_parse_value_typed`], for a run of values of one field type:
/// exactly `n` of them come back, each well-typed and bounded.
pub proof fn lemma_parse_value_elems_typed(b: Seq<u8>, t: FieldType, n: nat)
    ensures
        match parse_value_elems(b, t, n) {
            Some((vs, rest)) => vs.len() == n && (forall|i: int|
                0 <= i < vs.len() ==> has_type(#[trigger] vs[i], t)) && (forall|i: int|
                0 <= i < vs.len() ==> vbounded(#[trigger] vs[i])),
            None => true,
        },
    decreases t, n + 1nat,
{
    if n > 0 {
        match parse_value(b, t) {
            Some((v, rest)) => {
                lemma_parse_value_typed(b, t);
                lemma_parse_value_elems_typed(rest, t, (n - 1) as nat);
            },
            None => {},
        }
    }
}

/// As [`lemma_parse_wire_value`], for a run of values of one field type.
pub proof fn lemma_parse_wire_value_elems(vs: Seq<ValView>, t: FieldType, tail: Seq<u8>)
    requires
        forall|i: int| 0 <= i < vs.len() ==> has_type(#[trigger] vs[i], t),
        forall|i: int| 0 <= i < vs.len() ==> vbounded(#[trigger] vs[i]),
    ensures
        parse_value_elems(wire_value_elems(vs, t) + tail, t, vs.len()) == Some((vs, tail)),
    decreases t, vs.len() + 1nat,
{
    if vs.len() == 0 {
        assert(wire_value_elems(vs, t) + tail =~= tail);
        assert(vs =~= Seq::<ValView>::empty());
    } else {
        let first = vs[0];
        let rest = vs.skip(1);
        lemma_parse_wire_value(first, t, wire_value_elems(rest, t) + tail);
        assert(wire_value_elems(vs, t) + tail =~= wire_value(first, t) + (wire_value_elems(
            rest,
            t,
        ) + tail));
        lemma_parse_wire_value_elems(rest, t, tail);
        assert(seq![first] + rest =~= vs);
    }
}

pub proof fn lemma_wire_value_elems_push(vs: Seq<ValView>, v: ValView, t: FieldType)
    ensures
        wire_value_elems(vs.push(v), t) == wire_value_elems(vs, t) + wire_value(v, t),
    decreases vs.len(),
{
    if vs.len() == 0 {
        assert(vs.push(v)[0] == v);
        assert(vs.push(v).skip(1) =~= Seq::<ValView>::empty());
        assert(wire_value_elems(Seq::<ValView>::empty(), t) == Seq::<u8>::empty());
        assert(wire_value_elems(vs.push(v), t) == wire_value(v, t) + Seq::<u8>::empty());
        assert(wire_value(v, t) + Seq::<u8>::empty() =~= Seq::<u8>::empty() + wire_value(v, t));
    } else {
        assert(vs.push(v).skip(1) =~= vs.skip(1).push(v));
        lemma_wire_value_elems_push(vs.skip(1), v, t);
        assert(vs.push(v)[0] == vs[0]);
        assert(wire_value_elems(vs.push(v), t) == wire_value(vs[0], t) + wire_value_elems(
            vs.skip(1).push(v),
            t,
        ));
        assert(wire_value(vs[0], t) + (wire_value_elems(vs.skip(1), t) + wire_value(v, t)) =~= (
        wire_value(vs[0], t) + wire_value_elems(vs.skip(1), t)) + wire_value(v, t));
    }
}

// ---------------------------------------------------------------------------
// Records
// ---------------------------------------------------------------------------
/// True when `vals`, in declaration order, are the fields of a record with
/// the given field schemas.
pub open spec fn record_has_type(vals: Seq<ValView>, fields: Seq<FieldSchema>) -> bool {
    vals.len() == fields.len() && forall|i: int|
        0 <= i < vals.len() ==> has_type(#[trigger] vals[i], fields[i].ty)
}

pub open spec fn record_bounded(vals: Seq<ValView>) -> bool {
    forall|i: int| 0 <= i < vals.len() ==> vbounded(#[trigger] vals[i])
}

/// The byte image of a record from serialization position `k` on: the
/// non-ignored fields, each under its own type, in resolved order.
pub open spec fn wire_record_from(
    vals: Seq<ValView>,
    fields: Seq<FieldSchema>,
    order: Seq<usize>,
    k: int,
) -> Seq<u8>
    decreases order.len() - k,
{
    if k < 0 || k >= order.len() {
        Seq::empty()
    } else {
        let idx = order[k] as int;
        (if fields[idx].ignore {
            Seq::empty()
        } else {
            wire_value(vals[idx], fields[idx].ty)
        }) + wire_record_from(vals, fields, order, k + 1)
    }
}

/// The byte image of a whole record.
pub open spec fn wire_record(vals: Seq<ValView>, fields: Seq<FieldSchema>, order: Seq<usize>) -> Seq<
    u8,
> {
    wire_record_from(vals, fields, order, 0)
}

/// Parsing a record from serialization position `k` on, with the fields
/// assigned so far in `m`: an ignored field is assigned its zero value and
/// consumes nothing; any other field is decoded from the front of `b`.
pub open spec fn parse_record_from(
    b: Seq<u8>,
    fields: Seq<FieldSchema>,
    order: Seq<usize>,
    k: int,
    m: Map<int, ValView>,
) -> Option<(Map<int, ValView>, Seq<u8>)>
    decreases order.len() - k,
{
    if k < 0 || k >= order.len() {
        Some((m, b))
    } else {
        let idx = order[k] as int;
        if fields[idx].ignore {
            parse_record_from(b, fields, order, k + 1, m.insert(idx, default_view(fields[idx].ty)))
        } else {
            match parse_value(b, fields[idx].ty) {
                Some((v, rest)) => parse_record_from(rest, fields, order, k + 1, m.insert(idx, v)),
                None => None,
            }
        }
    }
}

/// Parsing a whole record: the decoded fields, in declaration order, with
/// every field the serialization order never visits left at its zero value.
pub open spec fn parse_record(b: Seq<u8>, fields: Seq<FieldSchema>, order: Seq<usize>) -> Option<
    (Seq<ValView>, Seq<u8>),
> {
    match parse_record_from(b, fields, order, 0, Map::empty()) {
        Some((m, rest)) => Some(
            (
                Seq::new(
                    fields.len(),
                    |i: int|
                        if m.dom().contains(i) {
                            m[i]
                        } else {
                            default_view(fields[i].ty)
                        },
                ),
                rest,
            ),
        ),
        None => None,
    }
}

/// Appends the byte image of a record to `buf`: the non-ignored fields in
/// resolved order, nothing else.
#[verifier::loop_isolation(false)]
pub fn encode_record(s: &RecordSchema, vals: &Vec<Value>, buf: &mut Vec<u8>)
    requires
        s.wf(),
        record_has_type(elem_views(vals@), s.fields@),
    ensures
        final(buf)@ == old(buf)@ + wire_record(elem_views(vals@), s.fields@, s.order@),
{
    let ghost views = elem_views(vals@);
    let n = s.order.len();
    let mut k: usize = 0;
    while k < n
        invariant
            k <= n,
            buf@ + wire_record_from(views, s.fields@, s.order@, k as int) == old(buf)@
                + wire_record(views, s.fields@, s.order@),
        decreases n - k,
    {
        let idx = s.order[k];
        let ghost pre = buf@;
        if !s.fields[idx].ignore {
            encode_value(&s.fields[idx].ty, &vals[idx], buf);
        }
        proof {
            let w = if s.fields@[idx as int].ignore {
                Seq::<u8>::empty()
            } else {
                wire_value(views[idx as int], s.fields@[idx as int].ty)
            };
            assert(buf@ =~= pre + w);
            assert(pre + (w + wire_record_from(views, s.fields@, s.order@, k + 1)) =~= (pre + w)
                + wire_record_from(views, s.fields@, s.order@, k + 1));
        }
        k = k + 1;
    }
    proof {
        assert(buf@ + Seq::<u8>::empty() =~= buf@);
    }
}

/// Decodes a record: reads the non-ignored fields in resolved order,
/// populates ignored fields with their zero values, and returns the fields
/// in declaration order with the unprocessed remainder.
#[verifier::loop_isolation(false)]
pub fn decode_record<'a>(s: &RecordSchema, buffer: &'a [u8]) -> (r: Option<(Vec<Value>, &'a [u8])>)
    requires
        s.wf(),
    ensures
        match r {
            Some(p) => parse_record(buffer@, s.fields@, s.order@) == Some(
                (elem_views(p.0@), p.1@),
            ) && p.0@.len() == s.fields@.len(),
            None => parse_record(buffer@, s.fields@, s.order@) is None,
        },
{
    let n = s.fields.len();
    let mut vals: Vec<Value> = Vec::new();
    let mut i: usize = 0;
    while i < n
        invariant
            i <= n,
            vals@.len() == i,
            forall|j: int| 0 <= j < i ==> #[trigger] vals@[j]@ == default_view(s.fields@[j].ty),
        decreases n - i,
    {
        vals.push(default_value(&s.fields[i].ty));
        i = i + 1;
    }
    let ghost mut m: Map<int, ValView> = Map::empty();
    let mut rest = buffer;
    let mut k: usize = 0;
    while k < s.order.len()
        invariant
            k <= s.order@.len(),
            vals@.len() == n,
            parse_record_from(buffer@, s.fields@, s.order@, 0, Map::empty()) == parse_record_from(
                rest@,
                s.fields@,
                s.order@,
                k as int,
                m,
            ),
            forall|j: int|
                0 <= j < n ==> #[trigger] vals@[j]@ == if m.dom().contains(j) {
                    m[j]
                } else {
                    default_view(s.fields@[j].ty)
                },
        decreases s.order@.len() - k,
    {
        let idx = s.order[k];
        if s.fields[idx].ignore {
            let dv = default_value(&s.fields[idx].ty);
            vals[idx] = dv;
            proof {
                m = m.insert(idx as int, default_view(s.fields@[idx as int].ty));
            }
        } else {
            match decode_value(&s.fields[idx].ty, rest) {
                Some((v, rest2)) => {
                    proof {
                        m = m.insert(idx as int, v@);
                    }
                    vals[idx] = v;
                    rest = rest2;
                },
                None => {
                    return None;
                },
            }
        }
        k = k + 1;
    }
    proof {
        assert(parse_record_from(buffer@, s.fields@, s.order@, 0, Map::empty()) == Some(
            (m, rest@),
        ));
        assert(elem_views(vals@) =~= Seq::new(
            s.fields@.len(),
            |i: int|
                if m.dom().contains(i) {
                    m[i]
                } else {
                    default_view(s.fields@[i].ty)
                },
        ));
    }
    Some((vals, rest))
}

/// The record value that comes back from a round trip: every ignored field
/// reset to its zero value, every other field unchanged.
pub open spec fn masked(vals: Seq<ValView>, fields: Seq<FieldSchema>) -> Seq<ValView> {
    Seq::new(
        vals.len(),
        |i: int|
            if fields[i].ignore {
                default_view(fields[i].ty)
            } else {
                vals[i]
            },
    )
}

/// The assignments that parsing positions `k` and later of a record's own
/// encoding adds to `m`.
pub open spec fn assign_from(
    m: Map<int, ValView>,
    vals: Seq<ValView>,
    fields: Seq<FieldSchema>,
    order: Seq<usize>,
    k: int,
) -> Map<int, ValView>
    decreases order.len() - k,
{
    if k < 0 || k >= order.len() {
        m
    } else {
        let idx = order[k] as int;
        assign_from(m.insert(idx, masked(vals, fields)[idx]), vals, fields, order, k + 1)
    }
}

proof fn lemma_record_round_trip_from(
    vals: Seq<ValView>,
    fields: Seq<FieldSchema>,
    order: Seq<usize>,
    k: int,
    m: Map<int, ValView>,
    tail: Seq<u8>,
)
    requires
        0 <= k <= order.len(),
        vals.len() == fields.len(),
        forall|j: int| 0 <= j < order.len() ==> #[trigger] order[j] < fields.len(),
        record_has_type(vals, fields),
        record_bounded(vals),
    ensures
        parse_record_from(wire_record_from(vals, fields, order, k) + tail, fields, order, k, m)
            == Some((assign_from(m, vals, fields, order, k), tail)),
    decreases order.len() - k,
{
    if k == order.len() {
        assert(wire_record_from(vals, fields, order, k) + tail =~= tail);
    } else {
        let idx = order[k] as int;
        let rest_wire = wire_record_from(vals, fields, order, k + 1);
        if fields[idx].ignore {
            assert(wire_record_from(vals, fields, order, k) + tail =~= rest_wire + tail);
            lemma_record_round_trip_from(
                vals,
                fields,
                order,
                k + 1,
                m.insert(idx, default_view(fields[idx].ty)),
                tail,
            );
            assert(masked(vals, fields)[idx] == default_view(fields[idx].ty));
        } else {
            lemma_parse_wire_value(vals[idx], fields[idx].ty, rest_wire + tail);
            assert(wire_record_from(vals, fields, order, k) + tail =~= wire_value(
                vals[idx],
                fields[idx].ty,
            ) + (rest_wire + tail));
            lemma_record_round_trip_from(vals, fields, order, k + 1, m.insert(idx, vals[idx]), tail);
            assert(masked(vals, fields)[idx] == vals[idx]);
        }
    }
}

proof fn lemma_assign_from_full(
    m: Map<int, ValView>,
    vals: Seq<ValView>,
    fields: Seq<FieldSchema>,
    order: Seq<usize>,
    k: int,
    i: int,
)
    requires
        0 <= k <= order.len(),
        0 <= i < fields.len(),
    ensures
        (exists|k2: int| k <= k2 < order.len() && order[k2] == i) ==> {
            let mf = assign_from(m, vals, fields, order, k);
            mf.dom().contains(i) && mf[i] == masked(vals, fields)[i]
        },
        !(exists|k2: int| k <= k2 < order.len() && order[k2] == i) ==> (assign_from(
            m,
            vals,
            fields,
            order,
            k,
        ).dom().contains(i) <==> m.dom().contains(i)) && (m.dom().contains(i) ==> assign_from(
            m,
            vals,
            fields,
            order,
            k,
        )[i] == m[i]),
    decreases order.len() - k,
{
    if k < order.len() {
        let idx = order[k] as int;
        let m2 = m.insert(idx, masked(vals, fields)[idx]);
        lemma_assign_from_full(m2, vals, fields, order, k + 1, i);
        if exists|k2: int| k <= k2 < order.len() && order[k2] == i {
            let k2 = choose|k2: int| k <= k2 < order.len() && order[k2] == i;
            if k2 == k {
                if exists|k3: int| k + 1 <= k3 < order.len() && order[k3] == i {
                } else {
                    assert(m2.dom().contains(i) && m2[i] == masked(vals, fields)[i]);
                }
            } else {
                assert(k + 1 <= k2 < order.len() && order[k2] == i);
            }
        }
    }
}

/// Round trip for records: decoding a record's own encoding, followed by any
/// trailing bytes, succeeds, leaves exactly the trailing bytes, and yields
/// every non-ignored field unchanged, with every ignored field reset to its
/// type's zero value.  For a record with no ignored fields the result is the
/// original value.
pub proof fn lemma_record_round_trip(
    vals: Seq<ValView>,
    fields: Seq<FieldSchema>,
    order: Seq<usize>,
    tail: Seq<u8>,
)
    requires
        order.len() == fields.len(),
        fields.len() <= usize::MAX,
        forall|j: int| 0 <= j < order.len() ==> #[trigger] order[j] < fields.len(),
        forall|v: usize| v < fields.len() ==> order.contains(v),
        record_has_type(vals, fields),
        record_bounded(vals),
    ensures
        parse_record(wire_record(vals, fields, order) + tail, fields, order) == Some(
            (masked(vals, fields), tail),
        ),
{
    lemma_record_round_trip_from(vals, fields, order, 0, Map::empty(), tail);
    let mf = assign_from(Map::empty(), vals, fields, order, 0);
    assert forall|i: int| 0 <= i < fields.len() implies mf.dom().contains(i) && mf[i] == masked(
        vals,
        fields,
    )[i] by {
        assert(order.contains(i as usize));
        let k0 = choose|k0: int| 0 <= k0 < order.len() && order[k0] == i as usize;
        assert(0 <= k0 < order.len() && order[k0] == i as usize);
        assert(exists|k2: int| 0 <= k2 < order.len() && order[k2] == i);
        lemma_assign_from_full(Map::empty(), vals, fields, order, 0, i);
    }
    assert(Seq::new(
        fields.len(),
        |i: int|
            if mf.dom().contains(i) {
                mf[i]
            } else {
                default_view(fields[i].ty)
            },
    ) =~= masked(vals, fields));
}

/// Round trip for a resolved record schema: the encode and decode procedures
/// that the schema induces are mutual inverses, up to ignored fields coming
/// back as their types' zero values.
pub proof fn lemma_schema_record_round_trip(s: RecordSchema, vals: Seq<ValView>, tail: Seq<u8>)
    requires
        s.wf(),
        record_has_type(vals, s.fields@),
        record_bounded(vals),
    ensures
        parse_record(wire_record(vals, s.fields@, s.order@) + tail, s.fields@, s.order@) == Some(
            (masked(vals, s.fields@), tail),
        ),
{
    vstd::std_specs::vec::axiom_spec_len(&s.fields);
    lemma_record_round_trip(vals, s.fields@, s.order@, tail);
}

// ---------------------------------------------------------------------------
// Unions
// ---------------------------------------------------------------------------
/// The byte image of a tag at the configured width, little-endian.
pub open spec fn wire_tag(w: EnumEncodingType, tag: u128) -> Seq<u8> {
    match w {
        EnumEncodingType::U8 => wire::wire_u8(tag as u8),
        EnumEncodingType::U16 => wire::wire_u16(tag as u16),
        EnumEncodingType::U32 => wire::wire_u32(tag as u32),
        EnumEncodingType::U64 => wire::wire_u64(tag as u64),
        EnumEncodingType::U128 => wire::wire_u128(tag),
    }
}

/// Parses one tag at the configured width from a prefix of `b`.
pub open spec fn parse_tag(b: Seq<u8>, w: EnumEncodingType) -> Option<(u128, Seq<u8>)> {
    match w {
        EnumEncodingType::U8 => match wire::parse_u8(b) {
            Some((x, rest)) => Some((x as u128, rest)),
            None => None,
        },
        EnumEncodingType::U16 => match wire::parse_u16(b) {
            Some((x, rest)) => Some((x as u128, rest)),
            None => None,
        },
        EnumEncodingType::U32 => match wire::parse_u32(b) {
            Some((x, rest)) => Some((x as u128, rest)),
            None => None,
        },
        EnumEncodingType::U64 => match wire::parse_u64(b) {
            Some((x, rest)) => Some((x as u128, rest)),
            None => None,
        },
        EnumEncodingType::U128 => wire::parse_u128(b),
    }
}

pub proof fn lemma_parse_wire_tag(w: EnumEncodingType, tag: u128, tail: Seq<u8>)
    requires
        spec_tag_fits(tag, w),
    ensures
        parse_tag(wire_tag(w, tag) + tail, w) == Some((tag, tail)),
{
    match w {
        EnumEncodingType::U8 => {
            wire::lemma_parse_wire_u8(tag as u8, tail);
        },
        EnumEncodingType::U16 => {
            wire::lemma_parse_wire_u16(tag as u16, tail);
        },
        EnumEncodingType::U32 => {
            wire::lemma_parse_wire_u32(tag as u32, tail);
        },
        EnumEncodingType::U64 => {
            wire::lemma_parse_wire_u64(tag as u64, tail);
        },
        EnumEncodingType::U128 => {
            wire::lemma_parse_wire_u128(tag, tail);
        },
    }
}

/// True when `vals` are a variant payload with the given field types.
pub open spec fn variant_has_type(vals: Seq<ValView>, tys: Seq<FieldType>) -> bool {
    vals.len() == tys.len() && forall|i: int|
        0 <= i < vals.len() ==> has_type(#[trigger] vals[i], tys[i])
}

/// The byte images of a variant payload from field `k` on, each field under
/// its own type, in declaration order.
pub open spec fn wire_fields_from(vals: Seq<ValView>, tys: Seq<FieldType>, k: int) -> Seq<u8>
    decreases tys.len() - k,
{
    if k < 0 || k >= tys.len() {
        Seq::empty()
    } else {
        wire_value(vals[k], tys[k]) + wire_fields_from(vals, tys, k + 1)
    }
}

/// Parses a variant payload from field `k` on.
pub open spec fn parse_fields_from(b: Seq<u8>, tys: Seq<FieldType>, k: int) -> Option<
    (Seq<ValView>, Seq<u8>),
>
    decreases tys.len() - k,
{
    if k < 0 || k >= tys.len() {
        Some((Seq::empty(), b))
    } else {
        match parse_value(b, tys[k]) {
            Some((v, rest)) => match parse_fields_from(rest, tys, k + 1) {
                Some((vs, rest2)) => Some((seq![v] + vs, rest2)),
                None => None,
            },
            None => None,
        }
    }
}

/// The first variant from position `k` on whose tag is `tag`.
pub open spec fn find_variant(variants: Seq<VariantSchema>, tag: u128, k: int) -> Option<int>
    decreases variants.len() - k,
{
    if k < 0 || k >= variants.len() {
        None
    } else if variants[k].tag == tag {
        Some(k)
    } else {
        find_variant(variants, tag, k + 1)
    }
}

/// The byte image of a union value: the variant's tag at the configured
/// width, then its payload fields in declaration order.
pub open spec fn wire_union(
    variants: Seq<VariantSchema>,
    w: EnumEncodingType,
    variant: int,
    vals: Seq<ValView>,
) -> Seq<u8>
    recommends
        0 <= variant < variants.len(),
{
    wire_tag(w, variants[variant].tag) + wire_fields_from(vals, variants[variant].fields@, 0)
}

/// Parsing a union value: one tag at the configured width, then the matching
/// variant's payload; an unmatched tag is a failure.
pub open spec fn parse_union(b: Seq<u8>, variants: Seq<VariantSchema>, w: EnumEncodingType) -> Option<
    ((int, Seq<ValView>), Seq<u8>),
> {
    match parse_tag(b, w) {
        Some((tag, rest)) => match find_variant(variants, tag, 0) {
            Some(vi) => match parse_fields_from(rest, variants[vi].fields@, 0) {
                Some((vals, rest2)) => Some(((vi, vals), rest2)),
                None => None,
            },
            None => None,
        },
        None => None,
    }
}

/// Appends the byte image of a union value to `buf`: the tag of the variant
/// at `variant`, then its payload fields in declaration order.
#[verifier::loop_isolation(false)]
pub fn encode_union(u: &UnionSchema, variant: usize, vals: &Vec<Value>, buf: &mut Vec<u8>)
    requires
        variant < u.variants@.len(),
        variant_has_type(elem_views(vals@), u.variants@[variant as int].fields@),
    ensures
        final(buf)@ == old(buf)@ + wire_union(
            u.variants@,
            u.encoding_type,
            variant as int,
            elem_views(vals@),
        ),
{
    let ghost views = elem_views(vals@);
    let tag = u.variants[variant].tag;
    match u.encoding_type {
        EnumEncodingType::U8 => wire::encode_u8(tag as u8, buf),
        EnumEncodingType::U16 => wire::encode_u16(tag as u16, buf),
        EnumEncodingType::U32 => wire::encode_u32(tag as u32, buf),
        EnumEncodingType::U64 => wire::encode_u64(tag as u64, buf),
        EnumEncodingType::U128 => wire::encode_u128(tag, buf),
    }
    let tys = &u.variants[variant].fields;
    let n = tys.len();
    let mut k: usize = 0;
    while k < n
        invariant
            k <= n,
            buf@ + wire_fields_from(views, tys@, k as int) == old(buf)@ + wire_union(
                u.variants@,
                u.encoding_type,
                variant as int,
                views,
            ),
        decreases n - k,
    {
        let ghost pre = buf@;
        encode_value(&tys[k], &vals[k], buf);
        proof {
            assert(pre + (wire_value(views[k as int], tys@[k as int]) + wire_fields_from(
                views,
                tys@,
                k + 1,
            )) =~= (pre + wire_value(views[k as int], tys@[k as int])) + wire_fields_from(
                views,
                tys@,
                k + 1,
            ));
        }
        k = k + 1;
    }
    proof {
        assert(buf@ + Seq::<u8>::empty() =~= buf@);
    }
}

/// Decodes a union value: reads one tag at the configured width, finds the
/// variant that carries it, and decodes that variant's payload fields in
/// declaration order.  Fails on an unmatched tag, with no bytes interpreted
/// past the tag.
#[verifier::loop_isolation(false)]
pub fn decode_union<'a>(u: &UnionSchema, buffer: &'a [u8]) -> (r: Option<
    ((usize, Vec<Value>), &'a [u8]),
>)
    ensures
        match r {
            Some(p) => parse_union(buffer@, u.variants@, u.encoding_type) == Some(
                (((p.0).0 as int, elem_views((p.0).1@)), p.1@),
            ),
            None => parse_union(buffer@, u.variants@, u.encoding_type) is None,
        },
{
    let (tag, rest0) = match u.encoding_type {
        EnumEncodingType::U8 => match wire::decode_u8(buffer) {
            Some((x, rest)) => (x as u128, rest),
            None => {
                return None;
            },
        },
        EnumEncodingType::U16 => match wire::decode_u16(buffer) {
            Some((x, rest)) => (x as u128, rest),
            None => {
                return None;
            },
        },
        EnumEncodingType::U32 => match wire::decode_u32(buffer) {
            Some((x, rest)) => (x as u128, rest),
            None => {
                return None;
            },
        },
        EnumEncodingType::U64 => match wire::decode_u64(buffer) {
            Some((x, rest)) => (x as u128, rest),
            None => {
                return None;
            },
        },
        EnumEncodingType::U128 => match wire::decode_u128(buffer) {
            Some((x, rest)) => (x, rest),
            None => {
                return None;
            },
        },
    };
    let nv = u.variants.len();
    let mut vi: usize = 0;
    while vi < nv
        invariant
            vi <= nv,
            nv == u.variants@.len(),
            find_variant(u.variants@, tag, 0) == find_variant(u.variants@, tag, vi as int),
        decreases nv - vi,
    {
        if u.variants[vi].tag == tag {
            break ;
        }
        vi = vi + 1;
    }
    if vi == nv {
        return None;
    }
    let tys = &u.variants[vi].fields;
    let n = tys.len();
    let mut vals: Vec<Value> = Vec::new();
    let mut rest = rest0;
    let mut k: usize = 0;
    proof {
        assert(elem_views(vals@) + Seq::<ValView>::empty() =~= elem_views(vals@));
    }
    while k < n
        invariant
            k <= n,
            vals@.len() == k,
            vi < nv,
            nv == u.variants@.len(),
            tys == &u.variants@[vi as int].fields,
            n == tys@.len(),
            match parse_fields_from(rest@, tys@, k as int) {
                Some((vs, r2)) => parse_fields_from(rest0@, tys@, 0) == Some(
                    (elem_views(vals@) + vs, r2),
                ),
                None => parse_fields_from(rest0@, tys@, 0) is None,
            },
        decreases n - k,
    {
        match decode_value(&tys[k], rest) {
            Some((v, rest2)) => {
                proof {
                    let ghost old_dv = elem_views(vals@);
                    let ghost vd = v@;
                    match parse_fields_from(rest2@, tys@, k + 1) {
                        Some((vs2, r3)) => {
                            assert(parse_fields_from(rest@, tys@, k as int) == Some(
                                (seq![vd] + vs2, r3),
                            ));
                            assert(old_dv + (seq![vd] + vs2) =~= (old_dv + seq![vd]) + vs2);
                        },
                        None => {},
                    }
                }
                let ghost prev = elem_views(vals@);
                vals.push(v);
                proof {
                    assert(elem_views(vals@) =~= prev + seq![v@]);
                }
                rest = rest2;
                k = k + 1;
            },
            None => {
                return None;
            },
        }
    }
    proof {
        assert(elem_views(vals@) + Seq::<ValView>::empty() =~= elem_views(vals@));
    }
    Some(((vi, vals), rest))
}

proof fn lemma_find_variant(variants: Seq<VariantSchema>, vi: int, k: int)
    requires
        0 <= k <= vi < variants.len(),
        forall|p: int, q: int| 0 <= p < q < variants.len() ==> variants[p].tag != variants[q].tag,
    ensures
        find_variant(variants, variants[vi].tag, k) == Some(vi),
    decreases vi - k,
{
    if k < vi {
        lemma_find_variant(variants, vi, k + 1);
    }
}

#[verifier::rlimit(50)]
proof fn lemma_parse_wire_fields(vals: Seq<ValView>, tys: Seq<FieldType>, k: int, tail: Seq<u8>)
    requires
        0 <= k <= tys.len(),
        variant_has_type(vals, tys),
        record_bounded(vals),
    ensures
        parse_fields_from(wire_fields_from(vals, tys, k) + tail, tys, k) == Some(
            (vals.skip(k), tail),
        ),
    decreases tys.len() - k,
{
    if k == tys.len() {
        assert(wire_fields_from(vals, tys, k) + tail =~= tail);
        assert(vals.skip(k) =~= Seq::<ValView>::empty());
    } else {
        let rest_wire = wire_fields_from(vals, tys, k + 1);
        lemma_parse_wire_value(vals[k], tys[k], rest_wire + tail);
        assert(wire_fields_from(vals, tys, k) + tail =~= wire_value(vals[k], tys[k]) + (rest_wire
            + tail));
        lemma_parse_wire_fields(vals, tys, k + 1, tail);
        assert(seq![vals[k]] + vals.skip(k + 1) =~= vals.skip(k));
    }
}

/// Round trip for unions: decoding a union value's own encoding, followed by
/// any trailing bytes, recovers the same variant with the same payload and
/// leaves exactly the trailing bytes.
#[verifier::rlimit(50)]
pub proof fn lemma_union_round_trip(
    variants: Seq<VariantSchema>,
    w: EnumEncodingType,
    variant: int,
    vals: Seq<ValView>,
    tail: Seq<u8>,
)
    requires
        0 <= variant < variants.len(),
        forall|p: int, q: int| 0 <= p < q < variants.len() ==> variants[p].tag != variants[q].tag,
        forall|k: int|
            0 <= k < variants.len() ==> spec_tag_fits(#[trigger] variants[k].tag, w),
        variant_has_type(vals, variants[variant].fields@),
        record_bounded(vals),
    ensures
        parse_union(wire_union(variants, w, variant, vals) + tail, variants, w) == Some(
            ((variant, vals), tail),
        ),
{
    let tys = variants[variant].fields@;
    let body = wire_fields_from(vals, tys, 0);
    lemma_parse_wire_tag(w, variants[variant].tag, body + tail);
    assert(wire_union(variants, w, variant, vals) + tail =~= wire_tag(w, variants[variant].tag) + (
    body + tail));
    lemma_find_variant(variants, variant, 0);
    lemma_parse_wire_fields(vals, tys, 0, tail);
    assert(vals.skip(0) =~= vals);
}

/// Round trip for a resolved union schema: the encode and decode procedures
/// that the schema induces are mutual inverses.
pub proof fn lemma_schema_union_round_trip(
    u: UnionSchema,
    variant: int,
    vals: Seq<ValView>,
    tail: Seq<u8>,
)
    requires
        u.wf(),
        0 <= variant < u.variants@.len(),
        variant_has_type(vals, u.variants@[variant].fields@),
        record_bounded(vals),
    ensures
        parse_union(
            wire_union(u.variants@, u.encoding_type, variant, vals) + tail,
            u.variants@,
            u.encoding_type,
        ) == Some(((variant, vals), tail)),
{
    lemma_union_round_trip(u.variants@, u.encoding_type, variant, vals, tail);
}


} // verus!
