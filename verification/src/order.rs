//! Field ordering for records.
//!
//! A record's fields serialize in the order given by their explicit order
//! numbers, ascending; fields without a number come after every numbered
//! field, in declaration order; numbered fields with equal numbers also keep
//! their declaration order.

use crate::attrs::ByteCodingStructFieldAttr;
use core::cmp::Ordering;
use vstd::prelude::*;

verus! {

/// The sort key of a field: its explicit order number, or a value past every
/// possible number when it has none.
pub open spec fn spec_order_key(a: ByteCodingStructFieldAttr) -> int {
    match a.order_no {
        Some(n) => n as int,
        None => usize::MAX as int + 1,
    }
}

impl ByteCodingStructFieldAttr {
    /// Compares two fields by serialization position: explicit order numbers
    /// ascending, and any numbered field before any unnumbered one.
    pub fn orderno_cmp(&self, other: &Self) -> (r: Ordering)
        ensures
            r == Ordering::Less <==> spec_order_key(*self) < spec_order_key(*other),
            r == Ordering::Equal <==> spec_order_key(*self) == spec_order_key(*other),
            r == Ordering::Greater <==> spec_order_key(*self) > spec_order_key(*other),
    {
        match (self.order_no, other.order_no) {
            (Some(s), Some(o)) => {
                if s < o {
                    Ordering::Less
                } else if s == o {
                    Ordering::Equal
                } else {
                    Ordering::Greater
                }
            },
            (Some(_), None) => Ordering::Less,
            (None, Some(_)) => Ordering::Greater,
            (None, None) => Ordering::Equal,
        }
    }
}

/// The first position in the already-sorted `order` whose field sorts
/// strictly after field `idx`; new elements insert there, after every field
/// that sorts no later, which keeps the sort stable.
fn insert_position(
    attrs: &Vec<ByteCodingStructFieldAttr>,
    order: &Vec<usize>,
    idx: usize,
) -> (pos: usize)
    requires
        idx < attrs@.len(),
        forall|k: int| 0 <= k < order@.len() ==> #[trigger] order@[k] < attrs@.len(),
        forall|p: int, q: int|
            0 <= p < q < order@.len() ==> spec_order_key(attrs@[order@[p] as int])
                <= spec_order_key(attrs@[order@[q] as int]),
    ensures
        pos <= order@.len(),
        forall|k: int|
            0 <= k < pos ==> spec_order_key(attrs@[#[trigger] order@[k] as int]) <= spec_order_key(
                attrs@[idx as int],
            ),
        forall|k: int|
            pos <= k < order@.len() ==> spec_order_key(attrs@[#[trigger] order@[k] as int])
                > spec_order_key(attrs@[idx as int]),
{
    let m = order.len();
    let mut j: usize = 0;
    while j < m
        invariant
            j <= m,
            m == order@.len(),
            idx < attrs@.len(),
            forall|k: int| 0 <= k < order@.len() ==> #[trigger] order@[k] < attrs@.len(),
            forall|p: int, q: int|
                0 <= p < q < order@.len() ==> spec_order_key(attrs@[order@[p] as int])
                    <= spec_order_key(attrs@[order@[q] as int]),
            forall|k: int|
                0 <= k < j ==> spec_order_key(attrs@[#[trigger] order@[k] as int])
                    <= spec_order_key(attrs@[idx as int]),
        decreases m - j,
    {
        let entry = order[j];
        let c = attrs[entry].orderno_cmp(&attrs[idx]);
        match c {
            Ordering::Greater => {
                return j;
            },
            _ => {},
        }
        j = j + 1;
    }
    m
}

/// Computes the serialization order of a record's fields: a permutation of
/// the declaration indices, sorted by order key, fields with equal keys kept
/// in declaration order.
pub fn resolve_field_order(attrs: &Vec<ByteCodingStructFieldAttr>) -> (order: Vec<usize>)
    ensures
        order@.len() == attrs@.len(),
        forall|k: int| 0 <= k < order@.len() ==> #[trigger] order@[k] < attrs@.len(),
        forall|p: int, q: int| 0 <= p < q < order@.len() ==> order@[p] != order@[q],
        forall|v: usize| v < attrs@.len() ==> order@.contains(v),
        forall|p: int, q: int|
            0 <= p < q < order@.len() ==> spec_order_key(attrs@[order@[p] as int])
                <= spec_order_key(attrs@[order@[q] as int]),
        forall|p: int, q: int|
            0 <= p < q < order@.len() && spec_order_key(attrs@[order@[p] as int])
                == spec_order_key(attrs@[order@[q] as int]) ==> order@[p] < order@[q],
{
    let n = attrs.len();
    let mut order: Vec<usize> = Vec::new();
    let mut idx: usize = 0;
    while idx < n
        invariant
            idx <= n,
            n == attrs@.len(),
            order@.len() == idx,
            forall|k: int| 0 <= k < order@.len() ==> #[trigger] order@[k] < idx,
            forall|p: int, q: int| 0 <= p < q < order@.len() ==> order@[p] != order@[q],
            forall|v: usize| v < idx ==> order@.contains(v),
            forall|p: int, q: int|
                0 <= p < q < order@.len() ==> spec_order_key(attrs@[order@[p] as int])
                    <= spec_order_key(attrs@[order@[q] as int]),
            forall|p: int, q: int|
                0 <= p < q < order@.len() && spec_order_key(attrs@[order@[p] as int])
                    == spec_order_key(attrs@[order@[q] as int]) ==> order@[p] < order@[q],
        decreases n - idx,
    {
        let pos = insert_position(attrs, &order, idx);
        let ghost before = order@;
        order.insert(pos, idx);
        proof {
            before.insert_ensures(pos as int, idx);
            assert forall|v: usize| v < idx + 1 implies order@.contains(v) by {
                if v < idx {
                    assert(before.contains(v));
                    let k0 = choose|k0: int| 0 <= k0 < before.len() && before[k0] == v;
                    assert(0 <= k0 < before.len() && before[k0] == v);
                    if k0 < pos {
                        assert(order@[k0] == v);
                    } else {
                        assert(order@[k0 + 1] == v);
                    }
                } else {
                    assert(order@[pos as int] == v);
                }
            }
        }
        idx = idx + 1;
    }
    order
}

} // verus!
