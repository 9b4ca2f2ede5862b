//! Schema declarations and their resolution.
//!
//! A declared type is described as plain data: the wire shape of every field,
//! the annotation blocks attached to the type, its fields and its variants,
//! and each variant's optional language-native discriminant.  Resolution
//! turns a declaration into a schema: the merged type attributes, the ignore
//! flag and serialization position of every record field, and the
//! width-checked tag of every union variant.  The codec interprets the
//! schema; resolution failures halt with a located error and no schema.

use crate::attrs::AttrError;
use crate::attrs::ByteCodingAttr;
use crate::attrs::ByteCodingEnumVariantAttr;
use crate::attrs::ByteCodingStructFieldAttr;
use crate::attrs::EnumEncodingType;
use crate::order::resolve_field_order;
use crate::order::spec_order_key;
use crate::tags::spec_assign_tags;
use crate::tags::spec_tag_fits;
use crate::tags::Discriminant;
use crate::tags::TagError;
use crate::tags::VariantSource;
use vstd::prelude::*;

verus! {

/// The wire shape of one field.
#[derive(Debug)]
pub enum FieldType {
    U8,
    U16,
    U32,
    U64,
    U128,
    I8,
    I16,
    I32,
    I64,
    I128,
    Usize,
    Isize,
    Bool,
    Str,
    /// A presence byte, then the payload only when present.
    OptionOf(Box<FieldType>),
    /// An eight-byte element count, then the elements.
    ListOf(Box<FieldType>),
    /// Exactly this many elements, no length prefix.
    ArrayOf(Box<FieldType>, usize),
    /// Eight booleans packed into one byte.
    BoolArray8,
}

impl Clone for FieldType {
    fn clone(&self) -> (r: Self)
        ensures
            r == *self,
        decreases self,
    {
        match self {
            FieldType::U8 => FieldType::U8,
            FieldType::U16 => FieldType::U16,
            FieldType::U32 => FieldType::U32,
            FieldType::U64 => FieldType::U64,
            FieldType::U128 => FieldType::U128,
            FieldType::I8 => FieldType::I8,
            FieldType::I16 => FieldType::I16,
            FieldType::I32 => FieldType::I32,
            FieldType::I64 => FieldType::I64,
            FieldType::I128 => FieldType::I128,
            FieldType::Usize => FieldType::Usize,
            FieldType::Isize => FieldType::Isize,
            FieldType::Bool => FieldType::Bool,
            FieldType::Str => FieldType::Str,
            FieldType::OptionOf(t) => FieldType::OptionOf(Box::new((**t).clone())),
            FieldType::ListOf(t) => FieldType::ListOf(Box::new((**t).clone())),
            FieldType::ArrayOf(t, n) => FieldType::ArrayOf(Box::new((**t).clone()), *n),
            FieldType::BoolArray8 => FieldType::BoolArray8,
        }
    }
}

/// The four optional hook names resolved from a type's annotations.
#[derive(Clone, Debug)]
pub struct Hooks {
    pub pre_enc_func: Option<String>,
    pub post_enc_func: Option<String>,
    pub pre_dec_func: Option<String>,
    pub post_dec_func: Option<String>,
}

/// One record field as declared: its wire shape and its annotation blocks.
#[derive(Clone, Debug)]
pub struct FieldDecl {
    pub ty: FieldType,
    pub attrs: Vec<crate::attrs::AttrBlock>,
}

/// A record as declared: fields in declaration order, and the type's
/// annotation blocks.
#[derive(Clone, Debug)]
pub struct RecordDecl {
    pub fields: Vec<FieldDecl>,
    pub attrs: Vec<crate::attrs::AttrBlock>,
}

/// One union variant as declared: its payload fields in declaration order,
/// its optional language-native discriminant, and its annotation blocks.
#[derive(Clone, Debug)]
pub struct VariantDecl {
    pub fields: Vec<FieldType>,
    pub discriminant: Option<Discriminant>,
    pub attrs: Vec<crate::attrs::AttrBlock>,
}

/// A union as declared: variants in declaration order, and the type's
/// annotation blocks.
#[derive(Clone, Debug)]
pub struct UnionDecl {
    pub variants: Vec<VariantDecl>,
    pub attrs: Vec<crate::attrs::AttrBlock>,
}

/// A resolved record field.
#[derive(Clone, Debug)]
pub struct FieldSchema {
    pub ty: FieldType,
    pub ignore: bool,
}

/// A resolved record: fields in declaration order, the serialization order
/// as a permutation of field indices, and the hooks.
#[derive(Clone, Debug)]
pub struct RecordSchema {
    pub fields: Vec<FieldSchema>,
    pub order: Vec<usize>,
    pub hooks: Hooks,
}

/// A resolved union variant: its width-checked tag and its payload fields.
#[derive(Clone, Debug)]
pub struct VariantSchema {
    pub tag: u128,
    pub fields: Vec<FieldType>,
}

/// A resolved union: the tag width, the variants with their tags, and the
/// hooks.
#[derive(Clone, Debug)]
pub struct UnionSchema {
    pub encoding_type: EnumEncodingType,
    pub variants: Vec<VariantSchema>,
    pub hooks: Hooks,
}

/// Why schema resolution failed.
#[derive(Clone, Copy, PartialEq, Eq, Debug)]
pub enum ResolveError {
    /// A type-level annotation failed to resolve.
    Attr(AttrError),
    /// A union-only option was applied to a record; the index names the
    /// first annotation block that set one.
    EnumOptionsOnRecord { block: usize },
    /// A field's annotation failed to resolve.
    FieldAttr { field: usize, error: AttrError },
    /// A variant's annotation failed to resolve.
    VariantAttr { variant: usize, error: AttrError },
    /// Tag assignment failed.
    Tag(TagError),
}

impl Hooks {
    /// The hook names held in a resolved type-level annotation.
    pub open spec fn spec_of(a: ByteCodingAttr) -> Hooks {
        Hooks {
            pre_enc_func: a.pre_enc_func,
            post_enc_func: a.post_enc_func,
            pre_dec_func: a.pre_dec_func,
            post_dec_func: a.post_dec_func,
        }
    }
}

impl RecordSchema {
    /// The serialization order is a permutation of the field indices.
    pub open spec fn wf(&self) -> bool {
        &&& self.order@.len() == self.fields@.len()
        &&& forall|k: int| 0 <= k < self.order@.len() ==> #[trigger] self.order@[k]
            < self.fields@.len()
        &&& forall|p: int, q: int| 0 <= p < q < self.order@.len() ==> self.order@[p]
            != self.order@[q]
        &&& forall|v: usize| v < self.fields@.len() ==> self.order@.contains(v)
    }
}

impl UnionSchema {
    /// Tags are pairwise distinct and each fits the configured width.
    pub open spec fn wf(&self) -> bool {
        &&& forall|p: int, q: int|
            0 <= p < q < self.variants@.len() ==> self.variants@[p].tag != self.variants@[q].tag
        &&& forall|k: int|
            0 <= k < self.variants@.len() ==> spec_tag_fits(
                #[trigger] self.variants@[k].tag,
                self.encoding_type,
            )
    }
}

/// The resolved annotation of the field at `i`, assuming its blocks resolve.
pub open spec fn spec_field_attr(decl: RecordDecl, i: int) -> ByteCodingStructFieldAttr {
    match ByteCodingStructFieldAttr::spec_parse_attributes(
        decl.fields@[i].attrs@,
        0,
        ByteCodingStructFieldAttr::spec_default(),
    ) {
        Ok(a) => a,
        Err(_) => ByteCodingStructFieldAttr::spec_default(),
    }
}

/// True when every field's annotation blocks resolve.
pub open spec fn spec_field_attrs_ok(decl: RecordDecl) -> bool {
    forall|i: int|
        0 <= i < decl.fields@.len() ==> ByteCodingStructFieldAttr::spec_parse_attributes(
            #[trigger] decl.fields@[i].attrs@,
            0,
            ByteCodingStructFieldAttr::spec_default(),
        ) is Ok
}

/// Resolves a record declaration: merges the type's annotation blocks
/// (rejecting union-only options), resolves every field's annotations, and
/// computes the serialization order.
pub fn resolve_record(decl: &RecordDecl) -> (r: Result<RecordSchema, ResolveError>)
    ensures
        match r {
            Ok(s) => {
                &&& match ByteCodingAttr::spec_from_data(
                    decl.attrs@,
                    0,
                    ByteCodingAttr::spec_default(),
                    None,
                ) {
                    Ok((ta, first)) => first is None && s.hooks == Hooks::spec_of(ta),
                    Err(_) => false,
                }
                &&& spec_field_attrs_ok(*decl)
                &&& s.fields@.len() == decl.fields@.len()
                &&& forall|i: int|
                    0 <= i < s.fields@.len() ==> #[trigger] s.fields@[i].ty == decl.fields@[i].ty
                &&& forall|i: int|
                    0 <= i < s.fields@.len() ==> #[trigger] s.fields@[i].ignore == spec_field_attr(
                        *decl,
                        i,
                    ).ignore
                &&& s.wf()
                &&& forall|p: int, q: int|
                    0 <= p < q < s.order@.len() ==> spec_order_key(
                        spec_field_attr(*decl, s.order@[p] as int),
                    ) <= spec_order_key(spec_field_attr(*decl, s.order@[q] as int))
                &&& forall|p: int, q: int|
                    0 <= p < q < s.order@.len() && spec_order_key(
                        spec_field_attr(*decl, s.order@[p] as int),
                    ) == spec_order_key(spec_field_attr(*decl, s.order@[q] as int))
                        ==> s.order@[p] < s.order@[q]
            },
            Err(e) => match e {
                ResolveError::Attr(ae) => ByteCodingAttr::spec_from_data(
                    decl.attrs@,
                    0,
                    ByteCodingAttr::spec_default(),
                    None,
                ) == Err::<(ByteCodingAttr, Option<int>), AttrError>(ae),
                ResolveError::EnumOptionsOnRecord { block } => match ByteCodingAttr::spec_from_data(
                    decl.attrs@,
                    0,
                    ByteCodingAttr::spec_default(),
                    None,
                ) {
                    Ok((_, first)) => first == Some(block as int),
                    Err(_) => false,
                },
                ResolveError::FieldAttr { field, error } => {
                    &&& field < decl.fields@.len()
                    &&& ByteCodingStructFieldAttr::spec_parse_attributes(
                        decl.fields@[field as int].attrs@,
                        0,
                        ByteCodingStructFieldAttr::spec_default(),
                    ) == Err::<ByteCodingStructFieldAttr, AttrError>(error)
                    &&& forall|j: int|
                        0 <= j < field ==> ByteCodingStructFieldAttr::spec_parse_attributes(
                            #[trigger] decl.fields@[j].attrs@,
                            0,
                            ByteCodingStructFieldAttr::spec_default(),
                        ) is Ok
                },
                _ => false,
            },
        },
{
    let (type_attr, first_enum) = match ByteCodingAttr::from_data(&decl.attrs) {
        Ok(p) => p,
        Err(e) => {
            return Err(ResolveError::Attr(e));
        },
    };
    if let Some(block) = first_enum {
        return Err(ResolveError::EnumOptionsOnRecord { block });
    }
    let n = decl.fields.len();
    let mut field_attrs: Vec<ByteCodingStructFieldAttr> = Vec::new();
    let mut i: usize = 0;
    while i < n
        invariant
            i <= n,
            n == decl.fields@.len(),
            field_attrs@.len() == i,
            forall|j: int|
                0 <= j < i ==> ByteCodingStructFieldAttr::spec_parse_attributes(
                    #[trigger] decl.fields@[j].attrs@,
                    0,
                    ByteCodingStructFieldAttr::spec_default(),
                ) == Ok::<ByteCodingStructFieldAttr, AttrError>(field_attrs@[j]),
        decreases n - i,
    {
        match ByteCodingStructFieldAttr::parse_attributes(&decl.fields[i].attrs) {
            Ok(a) => {
                field_attrs.push(a);
                i = i + 1;
            },
            Err(e) => {
                return Err(ResolveError::FieldAttr { field: i, error: e });
            },
        }
    }
    let order = resolve_field_order(&field_attrs);
    let mut fields: Vec<FieldSchema> = Vec::new();
    let mut k: usize = 0;
    while k < n
        invariant
            k <= n,
            n == decl.fields@.len(),
            n == field_attrs@.len(),
            fields@.len() == k,
            forall|j: int|
                0 <= j < i ==> ByteCodingStructFieldAttr::spec_parse_attributes(
                    #[trigger] decl.fields@[j].attrs@,
                    0,
                    ByteCodingStructFieldAttr::spec_default(),
                ) == Ok::<ByteCodingStructFieldAttr, AttrError>(field_attrs@[j]),
            i == n,
            forall|j: int| 0 <= j < k ==> #[trigger] fields@[j].ty == decl.fields@[j].ty,
            forall|j: int| 0 <= j < k ==> #[trigger] fields@[j].ignore == field_attrs@[j].ignore,
        decreases n - k,
    {
        fields.push(
            FieldSchema { ty: decl.fields[k].ty.clone(), ignore: field_attrs[k].ignore },
        );
        k = k + 1;
    }
    let hooks = Hooks {
        pre_enc_func: type_attr.pre_enc_func,
        post_enc_func: type_attr.post_enc_func,
        pre_dec_func: type_attr.pre_dec_func,
        post_dec_func: type_attr.post_dec_func,
    };
    Ok(RecordSchema { fields, order, hooks })
}

/// The tag sources of a union's variants, assuming their blocks resolve.
pub open spec fn spec_variant_sources(decl: UnionDecl) -> Seq<VariantSource> {
    Seq::new(
        decl.variants@.len(),
        |i: int|
            VariantSource {
                attr: match ByteCodingEnumVariantAttr::spec_parse_attributes(
                    decl.variants@[i].attrs@,
                    0,
                    ByteCodingEnumVariantAttr::spec_default(),
                ) {
                    Ok(a) => a,
                    Err(_) => ByteCodingEnumVariantAttr::spec_default(),
                },
                discriminant: decl.variants@[i].discriminant,
            },
    )
}

/// True when every variant's annotation blocks resolve.
pub open spec fn spec_variant_attrs_ok(decl: UnionDecl) -> bool {
    forall|i: int|
        0 <= i < decl.variants@.len() ==> ByteCodingEnumVariantAttr::spec_parse_attributes(
            #[trigger] decl.variants@[i].attrs@,
            0,
            ByteCodingEnumVariantAttr::spec_default(),
        ) is Ok
}

/// The tag width a resolved type-level annotation selects (sixteen bits when
/// none is given).
pub open spec fn spec_union_width(a: ByteCodingAttr) -> EnumEncodingType {
    match a.enum_options {
        Some(opts) => match opts.encoding_type {
            Some(t) => t,
            None => EnumEncodingType::U16,
        },
        None => EnumEncodingType::U16,
    }
}

/// Whether a resolved type-level annotation enables inferred tags.
pub open spec fn spec_union_inferred(a: ByteCodingAttr) -> bool {
    match a.enum_options {
        Some(opts) => opts.inferred_values,
        None => false,
    }
}

/// Resolves a union declaration: merges the type's annotation blocks,
/// resolves every variant's annotations, assigns width-checked tags with the
/// configured inference, and rejects collisions.
pub fn resolve_union(decl: &UnionDecl) -> (r: Result<UnionSchema, ResolveError>)
    ensures
        match r {
            Ok(s) => {
                &&& match ByteCodingAttr::spec_from_data(
                    decl.attrs@,
                    0,
                    ByteCodingAttr::spec_default(),
                    None,
                ) {
                    Ok((ta, _)) => {
                        &&& s.hooks == Hooks::spec_of(ta)
                        &&& s.encoding_type == spec_union_width(ta)
                        &&& match spec_assign_tags(
                            spec_variant_sources(*decl),
                            spec_union_inferred(ta),
                            0,
                            None,
                            Seq::empty(),
                            s.encoding_type,
                        ) {
                            Ok(tags) => tags.len() == s.variants@.len() && (forall|i: int|
                                0 <= i < s.variants@.len() ==> #[trigger] s.variants@[i].tag
                                    == tags[i]),
                            Err(_) => false,
                        }
                    },
                    Err(_) => false,
                }
                &&& spec_variant_attrs_ok(*decl)
                &&& s.variants@.len() == decl.variants@.len()
                &&& forall|i: int|
                    0 <= i < s.variants@.len() ==> #[trigger] s.variants@[i].fields@
                        == decl.variants@[i].fields@
                &&& s.wf()
            },
            Err(e) => match e {
                ResolveError::Attr(ae) => ByteCodingAttr::spec_from_data(
                    decl.attrs@,
                    0,
                    ByteCodingAttr::spec_default(),
                    None,
                ) == Err::<(ByteCodingAttr, Option<int>), AttrError>(ae),
                ResolveError::VariantAttr { variant, error } => {
                    &&& variant < decl.variants@.len()
                    &&& ByteCodingEnumVariantAttr::spec_parse_attributes(
                        decl.variants@[variant as int].attrs@,
                        0,
                        ByteCodingEnumVariantAttr::spec_default(),
                    ) == Err::<ByteCodingEnumVariantAttr, AttrError>(error)
                    &&& forall|j: int|
                        0 <= j < variant ==> ByteCodingEnumVariantAttr::spec_parse_attributes(
                            #[trigger] decl.variants@[j].attrs@,
                            0,
                            ByteCodingEnumVariantAttr::spec_default(),
                        ) is Ok
                },
                ResolveError::Tag(te) => {
                    &&& match ByteCodingAttr::spec_from_data(
                        decl.attrs@,
                        0,
                        ByteCodingAttr::spec_default(),
                        None,
                    ) {
                        Ok((ta, _)) => spec_assign_tags(
                            spec_variant_sources(*decl),
                            spec_union_inferred(ta),
                            0,
                            None,
                            Seq::empty(),
                            spec_union_width(ta),
                        ) == Err::<Seq<u128>, TagError>(te),
                        Err(_) => false,
                    }
                    &&& spec_variant_attrs_ok(*decl)
                },
                _ => false,
            },
        },
{
    let (type_attr, _first_enum) = match ByteCodingAttr::from_data(&decl.attrs) {
        Ok(p) => p,
        Err(e) => {
            return Err(ResolveError::Attr(e));
        },
    };
    let encoding_type = match &type_attr.enum_options {
        Some(opts) => match opts.encoding_type {
            Some(t) => t,
            None => EnumEncodingType::U16,
        },
        None => EnumEncodingType::U16,
    };
    let inferred = match &type_attr.enum_options {
        Some(opts) => opts.inferred_values,
        None => false,
    };
    let n = decl.variants.len();
    let mut sources: Vec<VariantSource> = Vec::new();
    let mut i: usize = 0;
    while i < n
        invariant
            i <= n,
            n == decl.variants@.len(),
            sources@.len() == i,
            forall|j: int|
                0 <= j < i ==> ByteCodingEnumVariantAttr::spec_parse_attributes(
                    #[trigger] decl.variants@[j].attrs@,
                    0,
                    ByteCodingEnumVariantAttr::spec_default(),
                ) == Ok::<ByteCodingEnumVariantAttr, AttrError>(sources@[j].attr),
            forall|j: int|
                0 <= j < i ==> #[trigger] sources@[j].discriminant
                    == decl.variants@[j].discriminant,
        decreases n - i,
    {
        match ByteCodingEnumVariantAttr::parse_attributes(&decl.variants[i].attrs) {
            Ok(a) => {
                sources.push(VariantSource { attr: a, discriminant: decl.variants[i].discriminant });
                i = i + 1;
            },
            Err(e) => {
                return Err(ResolveError::VariantAttr { variant: i, error: e });
            },
        }
    }
    proof {
        assert forall|j: int| 0 <= j < sources@.len() implies sources@[j] == spec_variant_sources(
            *decl,
        )[j] by {
            assert(sources@[j].discriminant == decl.variants@[j].discriminant);
            assert(ByteCodingEnumVariantAttr::spec_parse_attributes(
                decl.variants@[j].attrs@,
                0,
                ByteCodingEnumVariantAttr::spec_default(),
            ) == Ok::<ByteCodingEnumVariantAttr, AttrError>(sources@[j].attr));
        }
        assert(sources@ =~= spec_variant_sources(*decl));
    }
    let tags = match crate::tags::assign_tags(&sources, inferred, encoding_type) {
        Ok(t) => t,
        Err(e) => {
            return Err(ResolveError::Tag(e));
        },
    };
    let mut variants: Vec<VariantSchema> = Vec::new();
    let mut k: usize = 0;
    while k < n
        invariant
            k <= n,
            n == decl.variants@.len(),
            n == tags@.len(),
            variants@.len() == k,
            forall|j: int| 0 <= j < k ==> #[trigger] variants@[j].tag == tags@[j],
            forall|j: int|
                0 <= j < k ==> #[trigger] variants@[j].fields@ == decl.variants@[j].fields@,
        decreases n - k,
    {
        variants.push(VariantSchema { tag: tags[k], fields: decl.variants[k].fields.clone() });
        k = k + 1;
    }
    let hooks = Hooks {
        pre_enc_func: type_attr.pre_enc_func,
        post_enc_func: type_attr.post_enc_func,
        pre_dec_func: type_attr.pre_dec_func,
        post_dec_func: type_attr.post_dec_func,
    };
    let s = UnionSchema { encoding_type, variants, hooks };
    proof {
        let ghost srcs = spec_variant_sources(*decl);
        crate::tags::lemma_tag_uniqueness(srcs, inferred, encoding_type, tags@);
    }
    Ok(s)
}

} // verus!
