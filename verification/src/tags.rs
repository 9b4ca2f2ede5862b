//! Tag assignment for tagged unions.
//!
//! Every variant of a union gets an unsigned integer tag.  A tag comes from
//! exactly one source, with defined precedence: an explicit per-variant
//! annotation value, else the language-native discriminant (accepted only as
//! a base-10 integer literal), else an inferred running value.  Inference
//! starts at zero and counts up by one, wrapping on 128-bit overflow; an
//! explicit value on one variant re-seeds the counter, so later inferred
//! variants continue from it.  A tag already used by an earlier variant of
//! the same union is a terminal failure, as is a variant with no source at
//! all.  Tags stay at full 128-bit precision here; narrowing to the
//! configured width happens in schema resolution.

use crate::attrs::ByteCodingEnumVariantAttr;
use crate::attrs::EnumEncodingType;
use vstd::prelude::*;

verus! {

/// The language-native discriminant attached to a variant, as far as this
/// library reads it: a base-10 integer literal, or any other expression.
#[derive(Clone, Copy, PartialEq, Eq, Hash, Debug)]
pub enum Discriminant {
    IntLit(u128),
    OtherExpr,
}

/// Why tag assignment failed.
#[derive(Clone, Copy, PartialEq, Eq, Hash, Debug)]
pub enum TagErrorKind {
    /// No explicit value, no discriminant, and inference is off.
    NoSource,
    /// The discriminant is not a base-10 integer literal.
    UnsupportedExpr,
    /// Two or more variants share the same tag value.
    DuplicateValue,
    /// The tag does not fit the configured width.
    ValueTooLarge,
}

/// A tag assignment failure, located by the variant's index.
#[derive(Clone, Copy, PartialEq, Eq, Hash, Debug)]
pub struct TagError {
    pub kind: TagErrorKind,
    pub variant: usize,
}

/// What one variant brings to tag assignment: its resolved annotation and
/// its optional discriminant.
#[derive(Clone, Copy, PartialEq, Eq, Hash, Debug)]
pub struct VariantSource {
    pub attr: ByteCodingEnumVariantAttr,
    pub discriminant: Option<Discriminant>,
}

/// The tag of one variant before the duplicate check: the explicit value if
/// any, else the discriminant literal, else the inferred default.
pub open spec fn spec_variant_value(
    default_value: Option<u128>,
    discriminant: Option<Discriminant>,
    attr: ByteCodingEnumVariantAttr,
) -> Result<u128, TagErrorKind> {
    if discriminant is None && attr.value is None && default_value is None {
        Err(TagErrorKind::NoSource)
    } else if attr.value is Some {
        Ok(attr.value->0)
    } else {
        match discriminant {
            Some(Discriminant::IntLit(n)) => Ok(n),
            Some(Discriminant::OtherExpr) => Err(TagErrorKind::UnsupportedExpr),
            None => Ok(default_value->0),
        }
    }
}

fn contains_u128(values: &Vec<u128>, x: u128) -> (r: bool)
    ensures
        r == values@.contains(x),
{
    let n = values.len();
    let mut i: usize = 0;
    while i < n
        invariant
            i <= n,
            n == values@.len(),
            forall|k: int| 0 <= k < i ==> values@[k] != x,
        decreases n - i,
    {
        if values[i] == x {
            return true;
        }
        i = i + 1;
    }
    false
}

/// Resolves the tag of one variant and records it among the values already
/// used in this union.  Fails if the variant has no tag source or if the
/// value is already taken; on failure nothing is recorded.
pub fn parse_enum_variant_value(
    default_value: Option<u128>,
    discriminant: Option<Discriminant>,
    variant_attr: &ByteCodingEnumVariantAttr,
    found_values: &mut Vec<u128>,
) -> (r: Result<u128, TagErrorKind>)
    ensures
        match r {
            Ok(v) => spec_variant_value(default_value, discriminant, *variant_attr) == Ok::<
                u128,
                TagErrorKind,
            >(v) && !old(found_values)@.contains(v) && final(found_values)@ == old(
                found_values,
            )@.push(v),
            Err(k) => *final(found_values) == *old(found_values) && match spec_variant_value(
                default_value,
                discriminant,
                *variant_attr,
            ) {
                Ok(v) => k == TagErrorKind::DuplicateValue && old(found_values)@.contains(v),
                Err(k2) => k == k2,
            },
        },
{
    if discriminant.is_none() && variant_attr.value.is_none() && default_value.is_none() {
        return Err(TagErrorKind::NoSource);
    }
    let value: u128 = if let Some(v) = variant_attr.value {
        v
    } else {
        match discriminant {
            Some(Discriminant::IntLit(n)) => n,
            Some(Discriminant::OtherExpr) => {
                return Err(TagErrorKind::UnsupportedExpr);
            },
            None => match default_value {
                Some(d) => d,
                None => {
                    return Err(TagErrorKind::NoSource);
                },
            },
        }
    };
    if contains_u128(found_values, value) {
        return Err(TagErrorKind::DuplicateValue);
    }
    found_values.push(value);
    Ok(value)
}

/// The next inferred candidate: zero for the first variant, else one past
/// the last assigned value, wrapping on 128-bit overflow.
pub open spec fn spec_infer_candidate(inferred: bool, last: Option<u128>) -> Option<u128> {
    if inferred {
        Some(
            match last {
                Some(n) => if n == u128::MAX {
                    0
                } else {
                    (n + 1) as u128
                },
                None => 0,
            },
        )
    } else {
        None
    }
}

/// The tags of all variants from position `i` on, given the tags `acc`
/// already assigned (in variant order) and the last assigned value `last`
/// (tracked only when inference is on).  A resolved tag must not collide
/// with an earlier one and must fit the configured width.
pub open spec fn spec_assign_tags(
    vs: Seq<VariantSource>,
    inferred: bool,
    i: int,
    last: Option<u128>,
    acc: Seq<u128>,
    width: EnumEncodingType,
) -> Result<Seq<u128>, TagError>
    decreases vs.len() - i,
{
    if i < 0 || i >= vs.len() {
        Ok(acc)
    } else {
        let candidate = spec_infer_candidate(inferred, last);
        match spec_variant_value(candidate, vs[i].discriminant, vs[i].attr) {
            Ok(v) => if acc.contains(v) {
                Err(TagError { kind: TagErrorKind::DuplicateValue, variant: i as usize })
            } else if !spec_tag_fits(v, width) {
                Err(TagError { kind: TagErrorKind::ValueTooLarge, variant: i as usize })
            } else {
                spec_assign_tags(
                    vs,
                    inferred,
                    i + 1,
                    if inferred {
                        Some(v)
                    } else {
                        None
                    },
                    acc.push(v),
                    width,
                )
            },
            Err(k) => Err(TagError { kind: k, variant: i as usize }),
        }
    }
}

/// Assigns a tag to every variant of a union, in declaration order, or fails
/// at the first variant whose tag cannot be resolved, collides, or does not
/// fit the configured width.
pub fn assign_tags(variants: &Vec<VariantSource>, inferred: bool, width: EnumEncodingType) -> (r:
    Result<Vec<u128>, TagError>)
    ensures
        match r {
            Ok(tags) => spec_assign_tags(variants@, inferred, 0, None, Seq::empty(), width) == Ok::<
                Seq<u128>,
                TagError,
            >(tags@) && tags@.len() == variants@.len(),
            Err(e) => spec_assign_tags(variants@, inferred, 0, None, Seq::empty(), width) == Err::<
                Seq<u128>,
                TagError,
            >(e),
        },
{
    let n = variants.len();
    let mut tags: Vec<u128> = Vec::new();
    let mut last: Option<u128> = None;
    let mut i: usize = 0;
    while i < n
        invariant
            i <= n,
            n == variants@.len(),
            tags@.len() == i,
            inferred ==> (i == 0 <==> last is None),
            !inferred ==> last is None,
            spec_assign_tags(variants@, inferred, 0, None, Seq::empty(), width)
                == spec_assign_tags(variants@, inferred, i as int, last, tags@, width),
        decreases n - i,
    {
        let candidate: Option<u128> = if inferred {
            Some(
                match last {
                    Some(v) => if v == u128::MAX {
                        0
                    } else {
                        v + 1
                    },
                    None => 0,
                },
            )
        } else {
            None
        };
        proof {
            assert(candidate == spec_infer_candidate(inferred, last));
        }
        match parse_enum_variant_value(candidate, variants[i].discriminant, &variants[i].attr, &mut tags) {
            Ok(v) => {
                if !tag_fits(v, width) {
                    return Err(TagError { kind: TagErrorKind::ValueTooLarge, variant: i });
                }
                last = if inferred {
                    Some(v)
                } else {
                    None
                };
                i = i + 1;
            },
            Err(k) => {
                return Err(TagError { kind: k, variant: i });
            },
        }
    }
    Ok(tags)
}

/// Tag uniqueness: when assignment succeeds from a distinct prefix of
/// width-checked tags, the full result is pairwise distinct, width-checked,
/// and one tag per variant.
proof fn lemma_tags_distinct_from(
    vs: Seq<VariantSource>,
    inferred: bool,
    i: int,
    last: Option<u128>,
    acc: Seq<u128>,
    tags: Seq<u128>,
    width: EnumEncodingType,
)
    requires
        0 <= i <= vs.len(),
        spec_assign_tags(vs, inferred, i, last, acc, width) == Ok::<Seq<u128>, TagError>(tags),
        forall|p: int, q: int| 0 <= p < q < acc.len() ==> acc[p] != acc[q],
        forall|k: int| 0 <= k < acc.len() ==> spec_tag_fits(#[trigger] acc[k], width),
    ensures
        tags.len() == acc.len() + vs.len() - i,
        forall|p: int, q: int| 0 <= p < q < tags.len() ==> tags[p] != tags[q],
        forall|k: int| 0 <= k < tags.len() ==> spec_tag_fits(#[trigger] tags[k], width),
    decreases vs.len() - i,
{
    if i < vs.len() {
        let candidate = spec_infer_candidate(inferred, last);
        match spec_variant_value(candidate, vs[i].discriminant, vs[i].attr) {
            Ok(v) => {
                if !acc.contains(v) && spec_tag_fits(v, width) {
                    let acc2 = acc.push(v);
                    assert(forall|p: int, q: int|
                        0 <= p < q < acc2.len() ==> acc2[p] != acc2[q]) by {
                        assert(forall|p: int| 0 <= p < acc.len() ==> acc[p] != v) by {
                            assert(!acc.contains(v));
                        }
                    }
                    lemma_tags_distinct_from(
                        vs,
                        inferred,
                        i + 1,
                        if inferred {
                            Some(v)
                        } else {
                            None
                        },
                        acc2,
                        tags,
                        width,
                    );
                }
            },
            Err(_) => {},
        }
    }
}

/// Tag uniqueness: for any union and any configuration, a successful
/// assignment yields one width-checked tag per variant and no two variants
/// share a tag.
pub proof fn lemma_tag_uniqueness(
    vs: Seq<VariantSource>,
    inferred: bool,
    width: EnumEncodingType,
    tags: Seq<u128>,
)
    requires
        spec_assign_tags(vs, inferred, 0, None, Seq::empty(), width) == Ok::<Seq<u128>, TagError>(
            tags,
        ),
    ensures
        tags.len() == vs.len(),
        forall|p: int, q: int| 0 <= p < q < tags.len() ==> tags[p] != tags[q],
        forall|k: int| 0 <= k < tags.len() ==> spec_tag_fits(#[trigger] tags[k], width),
{
    lemma_tags_distinct_from(vs, inferred, 0, None, Seq::empty(), tags, width);
}

/// True when `v` fits the unsigned width that `w` selects.
pub open spec fn spec_tag_fits(v: u128, w: EnumEncodingType) -> bool {
    match w {
        EnumEncodingType::U8 => v <= u8::MAX,
        EnumEncodingType::U16 => v <= u16::MAX,
        EnumEncodingType::U32 => v <= u32::MAX,
        EnumEncodingType::U64 => v <= u64::MAX,
        EnumEncodingType::U128 => true,
    }
}

pub fn tag_fits(v: u128, w: EnumEncodingType) -> (r: bool)
    ensures
        r == spec_tag_fits(v, w),
{
    match w {
        EnumEncodingType::U8 => v <= u8::MAX as u128,
        EnumEncodingType::U16 => v <= u16::MAX as u128,
        EnumEncodingType::U32 => v <= u32::MAX as u128,
        EnumEncodingType::U64 => v <= u64::MAX as u128,
        EnumEncodingType::U128 => true,
    }
}

} // verus!
