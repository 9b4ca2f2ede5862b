//! Attribute resolution.
//!
//! A declared type, each of its record fields and each of its union variants
//! may carry zero or more annotation blocks.  A block is a list of entries:
//! `key = literal` pairs or bare flags.  This module models those blocks as
//! plain data and resolves them: blocks merge left to right, a later value
//! overriding an earlier one field by field, while boolean flags combine with
//! "or".  Unknown keys, literals of the wrong kind and malformed entries are
//! resolution failures, reported with the indices of the offending block and
//! entry.

use vstd::prelude::*;

verus! {

/// A recognised annotation key, or `Unknown` for any other name.
#[derive(Clone, Copy, PartialEq, Eq, Hash, Debug)]
pub enum AttrKey {
    PreEncFunc,
    PostEncFunc,
    PreDecFunc,
    PostDecFunc,
    EncodingType,
    InferredValues,
    OrderNo,
    Ignore,
    Value,
    Unknown,
}

/// The literal attached to a `key = literal` entry.  `IntTooLarge` stands for
/// an integer literal beyond 128 bits; `Other` for any literal that is
/// neither a string nor an integer.
#[derive(Clone, PartialEq, Eq, Hash, Debug)]
pub enum AttrLit {
    Str(String),
    Int(u128),
    IntTooLarge,
    Other,
}

/// One entry of an annotation block: a `key = literal` pair, a bare flag, or
/// a form this library does not support (a nested list, a bare literal).
#[derive(Clone, PartialEq, Eq, Hash, Debug)]
pub enum AttrEntry {
    KeyValue(AttrKey, AttrLit),
    Path(AttrKey),
    Unsupported,
}

/// One annotation block attached to a type, field or variant.
#[derive(Clone, PartialEq, Eq, Hash, Debug)]
pub struct AttrBlock {
    pub entries: Vec<AttrEntry>,
}

/// Why resolution of an annotation failed.
#[derive(Clone, Copy, PartialEq, Eq, Hash, Debug)]
pub enum AttrErrorKind {
    UnknownKey,
    ExpectedString,
    ExpectedNumber,
    InvalidInteger,
    UnknownEncodingType,
    UnexpectedEntry,
}

/// A resolution failure, located by the indices of the block and of the entry
/// within it.
#[derive(Clone, Copy, PartialEq, Eq, Hash, Debug)]
pub struct AttrError {
    pub kind: AttrErrorKind,
    pub block: usize,
    pub entry: usize,
}

/// The width of the tag written before a union variant's payload.
#[derive(Clone, Copy, PartialEq, Eq, Hash, Debug)]
pub enum EnumEncodingType {
    U8,
    U16,
    U32,
    U64,
    U128,
}

/// Union-only options: the tag width and whether tags may be inferred.
#[derive(Clone, Copy, PartialEq, Eq, Hash, Debug)]
pub struct ByteCodingEnumAttr {
    pub encoding_type: Option<EnumEncodingType>,
    pub inferred_values: bool,
}

/// The resolved annotations of one declared type: the four optional hook
/// names and, for unions, the union options.
#[derive(Clone, PartialEq, Eq, Hash, Debug)]
pub struct ByteCodingAttr {
    pub pre_enc_func: Option<String>,
    pub post_enc_func: Option<String>,
    pub pre_dec_func: Option<String>,
    pub post_dec_func: Option<String>,
    pub enum_options: Option<ByteCodingEnumAttr>,
}

/// The resolved annotations of one union variant.
#[derive(Clone, Copy, PartialEq, Eq, Hash, Debug)]
pub struct ByteCodingEnumVariantAttr {
    pub value: Option<u128>,
}

/// The resolved annotations of one record field.
#[derive(Clone, Copy, PartialEq, Eq, Hash, Debug)]
pub struct ByteCodingStructFieldAttr {
    pub order_no: Option<usize>,
    pub ignore: bool,
}

/// True when `s` spells one of the five supported tag widths.
pub open spec fn spec_encoding_type_of(s: Seq<char>) -> Option<EnumEncodingType> {
    if s == "u8"@ {
        Some(EnumEncodingType::U8)
    } else if s == "u16"@ {
        Some(EnumEncodingType::U16)
    } else if s == "u32"@ {
        Some(EnumEncodingType::U32)
    } else if s == "u64"@ {
        Some(EnumEncodingType::U64)
    } else if s == "u128"@ {
        Some(EnumEncodingType::U128)
    } else {
        None
    }
}

fn string_matches(s: &String, lit: &str) -> (r: bool)
    ensures
        r == (s@ == lit@),
{
    let owned: String = lit.to_owned();
    *s == owned
}

fn encoding_type_of(s: &String) -> (r: Option<EnumEncodingType>)
    ensures
        r == spec_encoding_type_of(s@),
{
    if string_matches(s, "u8") {
        Some(EnumEncodingType::U8)
    } else if string_matches(s, "u16") {
        Some(EnumEncodingType::U16)
    } else if string_matches(s, "u32") {
        Some(EnumEncodingType::U32)
    } else if string_matches(s, "u64") {
        Some(EnumEncodingType::U64)
    } else if string_matches(s, "u128") {
        Some(EnumEncodingType::U128)
    } else {
        None
    }
}

impl ByteCodingAttr {
    /// The empty resolution: no hooks, no union options.
    pub open spec fn spec_default() -> Self {
        ByteCodingAttr {
            pre_enc_func: None,
            post_enc_func: None,
            pre_dec_func: None,
            post_dec_func: None,
            enum_options: None,
        }
    }

    pub fn new() -> (r: Self)
        ensures
            r == Self::spec_default(),
    {
        Self::default()
    }

    /// `other` merged over `self`: a later non-empty value replaces an
    /// earlier one; the inferred-tags flag combines with "or".
    pub open spec fn spec_merged(self, other: Self) -> Self {
        ByteCodingAttr {
            pre_enc_func: if other.pre_enc_func is Some {
                other.pre_enc_func
            } else {
                self.pre_enc_func
            },
            post_enc_func: if other.post_enc_func is Some {
                other.post_enc_func
            } else {
                self.post_enc_func
            },
            pre_dec_func: if other.pre_dec_func is Some {
                other.pre_dec_func
            } else {
                self.pre_dec_func
            },
            post_dec_func: if other.post_dec_func is Some {
                other.post_dec_func
            } else {
                self.post_dec_func
            },
            enum_options: match (self.enum_options, other.enum_options) {
                (Some(a), Some(b)) => Some(
                    ByteCodingEnumAttr {
                        encoding_type: if b.encoding_type is Some {
                            b.encoding_type
                        } else {
                            a.encoding_type
                        },
                        inferred_values: a.inferred_values || b.inferred_values,
                    },
                ),
                (Some(a), None) => Some(a),
                (None, b) => b,
            },
        }
    }

    pub fn merged(self, other: Self) -> (r: Self)
        ensures
            r == self.spec_merged(other),
    {
        let ByteCodingAttr {
            pre_enc_func: s_pre_e,
            post_enc_func: s_post_e,
            pre_dec_func: s_pre_d,
            post_dec_func: s_post_d,
            enum_options: s_opts,
        } = self;
        let ByteCodingAttr {
            pre_enc_func: o_pre_e,
            post_enc_func: o_post_e,
            pre_dec_func: o_pre_d,
            post_dec_func: o_post_d,
            enum_options: o_opts,
        } = other;
        ByteCodingAttr {
            pre_enc_func: if o_pre_e.is_some() {
                o_pre_e
            } else {
                s_pre_e
            },
            post_enc_func: if o_post_e.is_some() {
                o_post_e
            } else {
                s_post_e
            },
            pre_dec_func: if o_pre_d.is_some() {
                o_pre_d
            } else {
                s_pre_d
            },
            post_dec_func: if o_post_d.is_some() {
                o_post_d
            } else {
                s_post_d
            },
            enum_options: match (s_opts, o_opts) {
                (Some(a), Some(b)) => Some(
                    ByteCodingEnumAttr {
                        encoding_type: if b.encoding_type.is_some() {
                            b.encoding_type
                        } else {
                            a.encoding_type
                        },
                        inferred_values: a.inferred_values || b.inferred_values,
                    },
                ),
                (Some(a), None) => Some(a),
                (None, b) => b,
            },
        }
    }

    /// What applying a `key = literal` entry does to a type-level resolution,
    /// or the failure it raises.
    pub open spec fn spec_set_name_value(self, key: AttrKey, value: AttrLit) -> Result<
        Self,
        AttrErrorKind,
    > {
        match key {
            AttrKey::PreEncFunc => match value {
                AttrLit::Str(s) => Ok(ByteCodingAttr { pre_enc_func: Some(s), ..self }),
                _ => Err(AttrErrorKind::ExpectedString),
            },
            AttrKey::PostEncFunc => match value {
                AttrLit::Str(s) => Ok(ByteCodingAttr { post_enc_func: Some(s), ..self }),
                _ => Err(AttrErrorKind::ExpectedString),
            },
            AttrKey::PreDecFunc => match value {
                AttrLit::Str(s) => Ok(ByteCodingAttr { pre_dec_func: Some(s), ..self }),
                _ => Err(AttrErrorKind::ExpectedString),
            },
            AttrKey::PostDecFunc => match value {
                AttrLit::Str(s) => Ok(ByteCodingAttr { post_dec_func: Some(s), ..self }),
                _ => Err(AttrErrorKind::ExpectedString),
            },
            AttrKey::EncodingType => match value {
                AttrLit::Str(s) => match spec_encoding_type_of(s@) {
                    Some(t) => Ok(self.spec_with_encoding_type(t)),
                    None => Err(AttrErrorKind::UnknownEncodingType),
                },
                _ => Err(AttrErrorKind::ExpectedString),
            },
            _ => Err(AttrErrorKind::UnknownKey),
        }
    }

    pub open spec fn spec_with_encoding_type(self, t: EnumEncodingType) -> Self {
        match self.enum_options {
            Some(opts) => ByteCodingAttr {
                enum_options: Some(ByteCodingEnumAttr { encoding_type: Some(t), ..opts }),
                ..self
            },
            None => ByteCodingAttr {
                enum_options: Some(
                    ByteCodingEnumAttr { encoding_type: Some(t), inferred_values: false },
                ),
                ..self
            },
        }
    }

    /// Applies a `key = literal` entry; on failure `self` is unchanged.
    pub fn set_name_value(&mut self, key: &AttrKey, value: &AttrLit) -> (r: Result<
        (),
        AttrErrorKind,
    >)
        ensures
            match r {
                Ok(()) => Ok::<Self, AttrErrorKind>(*final(self)) == old(self).spec_set_name_value(
                    *key,
                    *value,
                ),
                Err(k) => *final(self) == *old(self) && old(self).spec_set_name_value(*key, *value)
                    == Err::<Self, AttrErrorKind>(k),
            },
    {
        match key {
            AttrKey::PreEncFunc => match value {
                AttrLit::Str(s) => {
                    self.pre_enc_func = Some(s.clone());
                    Ok(())
                },
                _ => Err(AttrErrorKind::ExpectedString),
            },
            AttrKey::PostEncFunc => match value {
                AttrLit::Str(s) => {
                    self.post_enc_func = Some(s.clone());
                    Ok(())
                },
                _ => Err(AttrErrorKind::ExpectedString),
            },
            AttrKey::PreDecFunc => match value {
                AttrLit::Str(s) => {
                    self.pre_dec_func = Some(s.clone());
                    Ok(())
                },
                _ => Err(AttrErrorKind::ExpectedString),
            },
            AttrKey::PostDecFunc => match value {
                AttrLit::Str(s) => {
                    self.post_dec_func = Some(s.clone());
                    Ok(())
                },
                _ => Err(AttrErrorKind::ExpectedString),
            },
            AttrKey::EncodingType => match value {
                AttrLit::Str(s) => match encoding_type_of(s) {
                    Some(t) => {
                        let inferred = match &self.enum_options {
                            Some(opts) => opts.inferred_values,
                            None => false,
                        };
                        self.enum_options = Some(
                            ByteCodingEnumAttr {
                                encoding_type: Some(t),
                                inferred_values: inferred,
                            },
                        );
                        Ok(())
                    },
                    None => Err(AttrErrorKind::UnknownEncodingType),
                },
                _ => Err(AttrErrorKind::ExpectedString),
            },
            _ => Err(AttrErrorKind::UnknownKey),
        }
    }

    /// What applying a bare flag does to a type-level resolution.
    pub open spec fn spec_set_path(self, key: AttrKey) -> Result<Self, AttrErrorKind> {
        match key {
            AttrKey::InferredValues => Ok(self.spec_with_inferred_values()),
            _ => Err(AttrErrorKind::UnknownKey),
        }
    }

    pub open spec fn spec_with_inferred_values(self) -> Self {
        match self.enum_options {
            Some(opts) => ByteCodingAttr {
                enum_options: Some(ByteCodingEnumAttr { inferred_values: true, ..opts }),
                ..self
            },
            None => ByteCodingAttr {
                enum_options: Some(
                    ByteCodingEnumAttr { encoding_type: None, inferred_values: true },
                ),
                ..self
            },
        }
    }

    /// Applies a bare flag; on failure `self` is unchanged.
    pub fn set_path(&mut self, key: &AttrKey) -> (r: Result<(), AttrErrorKind>)
        ensures
            match r {
                Ok(()) => Ok::<Self, AttrErrorKind>(*final(self)) == old(self).spec_set_path(*key),
                Err(k) => *final(self) == *old(self) && old(self).spec_set_path(*key) == Err::<
                    Self,
                    AttrErrorKind,
                >(k),
            },
    {
        match key {
            AttrKey::InferredValues => {
                let encoding = match &self.enum_options {
                    Some(opts) => opts.encoding_type,
                    None => None,
                };
                self.enum_options = Some(
                    ByteCodingEnumAttr { encoding_type: encoding, inferred_values: true },
                );
                Ok(())
            },
            _ => Err(AttrErrorKind::UnknownKey),
        }
    }

    /// What applying one block entry does to a type-level resolution.
    pub open spec fn spec_apply_entry(self, e: AttrEntry) -> Result<Self, AttrErrorKind> {
        match e {
            AttrEntry::KeyValue(k, v) => self.spec_set_name_value(k, v),
            AttrEntry::Path(k) => self.spec_set_path(k),
            AttrEntry::Unsupported => Err(AttrErrorKind::UnexpectedEntry),
        }
    }

    /// The entries of one block applied in order, starting from `self`,
    /// stopping at the first failure (reported with the entry's index).
    pub open spec fn spec_from_entries(self, entries: Seq<AttrEntry>, i: int) -> Result<
        Self,
        (int, AttrErrorKind),
    >
        decreases entries.len() - i,
    {
        if i < 0 || i >= entries.len() {
            Ok(self)
        } else {
            match self.spec_apply_entry(entries[i]) {
                Ok(a) => a.spec_from_entries(entries, i + 1),
                Err(k) => Err((i, k)),
            }
        }
    }

    /// Resolves one annotation block into a fresh type-level resolution.
    pub fn from_block(block: &AttrBlock) -> (r: Result<Self, (usize, AttrErrorKind)>)
        ensures
            match r {
                Ok(a) => Self::spec_default().spec_from_entries(block.entries@, 0) == Ok::<
                    Self,
                    (int, AttrErrorKind),
                >(a),
                Err((i, k)) => Self::spec_default().spec_from_entries(block.entries@, 0) == Err::<
                    Self,
                    (int, AttrErrorKind),
                >((i as int, k)),
            },
    {
        let mut a = Self::new();
        let n = block.entries.len();
        let mut i: usize = 0;
        while i < n
            invariant
                i <= n,
                n == block.entries@.len(),
                Self::spec_default().spec_from_entries(block.entries@, 0) == a.spec_from_entries(
                    block.entries@,
                    i as int,
                ),
            decreases n - i,
        {
            let entry = &block.entries[i];
            let step = match entry {
                AttrEntry::KeyValue(k, v) => a.set_name_value(k, v),
                AttrEntry::Path(k) => a.set_path(k),
                AttrEntry::Unsupported => Err(AttrErrorKind::UnexpectedEntry),
            };
            match step {
                Ok(()) => {
                    i = i + 1;
                },
                Err(k) => {
                    return Err((i, k));
                },
            }
        }
        Ok(a)
    }

    /// What resolving a list of blocks yields: each block resolved on its
    /// own, the results merged left to right over the empty resolution,
    /// together with the index of the first block that set a union-only
    /// option.  A failure carries the block and entry indices.
    pub open spec fn spec_from_data(
        blocks: Seq<AttrBlock>,
        i: int,
        acc: ByteCodingAttr,
        first_enum: Option<int>,
    ) -> Result<(ByteCodingAttr, Option<int>), AttrError>
        decreases blocks.len() - i,
    {
        if i < 0 || i >= blocks.len() {
            Ok((acc, first_enum))
        } else {
            match Self::spec_default().spec_from_entries(blocks[i].entries@, 0) {
                Ok(a) => Self::spec_from_data(
                    blocks,
                    i + 1,
                    acc.spec_merged(a),
                    if first_enum is None && a.enum_options is Some {
                        Some(i)
                    } else {
                        first_enum
                    },
                ),
                Err((e, k)) => Err(
                    AttrError { kind: k, block: i as usize, entry: e as usize },
                ),
            }
        }
    }

    /// Resolves all annotation blocks of one declared type.  Also reports the
    /// index of the first block that set a union-only option, so that a
    /// record can reject it.
    pub fn from_data(blocks: &Vec<AttrBlock>) -> (r: Result<
        (ByteCodingAttr, Option<usize>),
        AttrError,
    >)
        ensures
            match r {
                Ok((a, first)) => Self::spec_from_data(blocks@, 0, Self::spec_default(), None)
                    == Ok::<(ByteCodingAttr, Option<int>), AttrError>(
                    (
                        a,
                        match first {
                            Some(b) => Some(b as int),
                            None => None,
                        },
                    ),
                ),
                Err(e) => Self::spec_from_data(blocks@, 0, Self::spec_default(), None) == Err::<
                    (ByteCodingAttr, Option<int>),
                    AttrError,
                >(e),
            },
    {
        let mut acc = Self::new();
        let mut first_enum: Option<usize> = None;
        let n = blocks.len();
        let mut i: usize = 0;
        while i < n
            invariant
                i <= n,
                n == blocks@.len(),
                Self::spec_from_data(blocks@, 0, Self::spec_default(), None) == Self::spec_from_data(
                    blocks@,
                    i as int,
                    acc,
                    match first_enum {
                        Some(b) => Some(b as int),
                        None => None,
                    },
                ),
                match first_enum {
                    Some(b) => b < i,
                    None => true,
                },
            decreases n - i,
        {
            match Self::from_block(&blocks[i]) {
                Ok(a) => {
                    if first_enum.is_none() && a.enum_options.is_some() {
                        first_enum = Some(i);
                    }
                    acc = acc.merged(a);
                    i = i + 1;
                },
                Err((e, k)) => {
                    return Err(AttrError { kind: k, block: i, entry: e });
                },
            }
        }
        Ok((acc, first_enum))
    }
}

impl Default for ByteCodingAttr {
    fn default() -> (r: Self)
        ensures
            r == Self::spec_default(),
    {
        ByteCodingAttr {
            pre_enc_func: None,
            post_enc_func: None,
            pre_dec_func: None,
            post_dec_func: None,
            enum_options: None,
        }
    }
}

impl ByteCodingEnumVariantAttr {
    pub open spec fn spec_default() -> Self {
        ByteCodingEnumVariantAttr { value: None }
    }

    pub fn new() -> (r: Self)
        ensures
            r == Self::spec_default(),
    {
        Self::default()
    }

    /// `other` merged over `self`: a later explicit value wins.
    pub open spec fn spec_merge(self, other: Self) -> Self {
        ByteCodingEnumVariantAttr {
            value: if other.value is Some {
                other.value
            } else {
                self.value
            },
        }
    }

    pub fn merge(&mut self, other: Self)
        ensures
            *final(self) == old(self).spec_merge(other),
    {
        if other.value.is_some() {
            self.value = other.value;
        }
    }

    /// What applying one block entry does to a variant resolution.  Only
    /// `value = <integer>` entries are accepted; a bare flag is an
    /// unexpected entry here.
    pub open spec fn spec_apply_entry(self, e: AttrEntry) -> Result<Self, AttrErrorKind> {
        match e {
            AttrEntry::KeyValue(k, v) => match k {
                AttrKey::Value => match v {
                    AttrLit::Int(n) => Ok(ByteCodingEnumVariantAttr { value: Some(n) }),
                    AttrLit::IntTooLarge => Err(AttrErrorKind::InvalidInteger),
                    _ => Err(AttrErrorKind::ExpectedNumber),
                },
                _ => Err(AttrErrorKind::UnknownKey),
            },
            _ => Err(AttrErrorKind::UnexpectedEntry),
        }
    }

    pub open spec fn spec_from_entries(self, entries: Seq<AttrEntry>, i: int) -> Result<
        Self,
        (int, AttrErrorKind),
    >
        decreases entries.len() - i,
    {
        if i < 0 || i >= entries.len() {
            Ok(self)
        } else {
            match self.spec_apply_entry(entries[i]) {
                Ok(a) => a.spec_from_entries(entries, i + 1),
                Err(k) => Err((i, k)),
            }
        }
    }

    /// All blocks of one variant resolved in order over the empty resolution.
    pub open spec fn spec_parse_attributes(blocks: Seq<AttrBlock>, i: int, acc: Self) -> Result<
        Self,
        AttrError,
    >
        decreases blocks.len() - i,
    {
        if i < 0 || i >= blocks.len() {
            Ok(acc)
        } else {
            match Self::spec_default().spec_from_entries(blocks[i].entries@, 0) {
                Ok(a) => Self::spec_parse_attributes(blocks, i + 1, acc.spec_merge(a)),
                Err((e, k)) => Err(AttrError { kind: k, block: i as usize, entry: e as usize }),
            }
        }
    }

    /// Resolves the annotation blocks of one union variant.
    pub fn parse_attributes(blocks: &Vec<AttrBlock>) -> (r: Result<Self, AttrError>)
        ensures
            r == Self::spec_parse_attributes(blocks@, 0, Self::spec_default()),
    {
        let mut acc = Self::new();
        let n = blocks.len();
        let mut i: usize = 0;
        while i < n
            invariant
                i <= n,
                n == blocks@.len(),
                Self::spec_parse_attributes(blocks@, 0, Self::spec_default())
                    == Self::spec_parse_attributes(blocks@, i as int, acc),
            decreases n - i,
        {
            let block = &blocks[i];
            let m = block.entries.len();
            let mut a = Self::new();
            let mut j: usize = 0;
            while j < m
                invariant
                    j <= m,
                    m == block.entries@.len(),
                    i < n,
                    n == blocks@.len(),
                    block.entries@ == blocks@[i as int].entries@,
                    Self::spec_parse_attributes(blocks@, 0, Self::spec_default())
                        == Self::spec_parse_attributes(blocks@, i as int, acc),
                    Self::spec_default().spec_from_entries(block.entries@, 0) == a.spec_from_entries(
                        block.entries@,
                        j as int,
                    ),
                decreases m - j,
            {
                let step: Result<Self, AttrErrorKind> = match &block.entries[j] {
                    AttrEntry::KeyValue(k, v) => match k {
                        AttrKey::Value => match v {
                            AttrLit::Int(n) => Ok(
                                ByteCodingEnumVariantAttr { value: Some(*n) },
                            ),
                            AttrLit::IntTooLarge => Err(AttrErrorKind::InvalidInteger),
                            _ => Err(AttrErrorKind::ExpectedNumber),
                        },
                        _ => Err(AttrErrorKind::UnknownKey),
                    },
                    _ => Err(AttrErrorKind::UnexpectedEntry),
                };
                match step {
                    Ok(a2) => {
                        proof {
                            assert(a.spec_apply_entry(block.entries@[j as int]) == Ok::<
                                Self,
                                AttrErrorKind,
                            >(a2));
                        }
                        a = a2;
                        j = j + 1;
                    },
                    Err(k) => {
                        proof {
                            assert(a.spec_apply_entry(block.entries@[j as int]) == Err::<
                                Self,
                                AttrErrorKind,
                            >(k));
                            assert(a.spec_from_entries(block.entries@, j as int) == Err::<
                                Self,
                                (int, AttrErrorKind),
                            >((j as int, k)));
                            assert(block.entries@ == blocks@[i as int].entries@);
                            assert(Self::spec_default().spec_from_entries(
                                blocks@[i as int].entries@,
                                0,
                            ) == Err::<Self, (int, AttrErrorKind)>((j as int, k)));
                            assert(Self::spec_parse_attributes(blocks@, i as int, acc) == Err::<
                                Self,
                                AttrError,
                            >(AttrError { kind: k, block: i, entry: j }));
                        }
                        return Err(AttrError { kind: k, block: i, entry: j });
                    },
                }
            }
            acc.merge(a);
            i = i + 1;
        }
        Ok(acc)
    }
}

impl Default for ByteCodingEnumVariantAttr {
    fn default() -> (r: Self)
        ensures
            r == Self::spec_default(),
    {
        ByteCodingEnumVariantAttr { value: None }
    }
}

impl ByteCodingStructFieldAttr {
    pub open spec fn spec_default() -> Self {
        ByteCodingStructFieldAttr { order_no: None, ignore: false }
    }

    pub fn new() -> (r: Self)
        ensures
            r == Self::spec_default(),
    {
        Self::default()
    }

    /// `other` merged over `self`: a later order number wins; the ignore
    /// flags combine with "or".
    pub open spec fn spec_merge(self, other: Self) -> Self {
        ByteCodingStructFieldAttr {
            order_no: if other.order_no is Some {
                other.order_no
            } else {
                self.order_no
            },
            ignore: self.ignore || other.ignore,
        }
    }

    pub fn merge(&mut self, other: Self)
        ensures
            *final(self) == old(self).spec_merge(other),
    {
        if other.order_no.is_some() {
            self.order_no = other.order_no;
        }
        self.ignore = self.ignore || other.ignore;
    }

    /// What applying one block entry does to a field resolution.  The key
    /// `order_no` takes an integer that must fit the machine's word; the
    /// bare flag `ignore` excludes the field from the wire.
    pub open spec fn spec_apply_entry(self, e: AttrEntry) -> Result<Self, AttrErrorKind> {
        match e {
            AttrEntry::KeyValue(k, v) => match k {
                AttrKey::OrderNo => match v {
                    AttrLit::Int(n) => if n <= usize::MAX {
                        Ok(ByteCodingStructFieldAttr { order_no: Some(n as usize), ..self })
                    } else {
                        Err(AttrErrorKind::InvalidInteger)
                    },
                    AttrLit::IntTooLarge => Err(AttrErrorKind::InvalidInteger),
                    _ => Err(AttrErrorKind::ExpectedNumber),
                },
                _ => Err(AttrErrorKind::UnknownKey),
            },
            AttrEntry::Path(k) => match k {
                AttrKey::Ignore => Ok(ByteCodingStructFieldAttr { ignore: true, ..self }),
                _ => Err(AttrErrorKind::UnknownKey),
            },
            AttrEntry::Unsupported => Err(AttrErrorKind::UnexpectedEntry),
        }
    }

    pub open spec fn spec_from_entries(self, entries: Seq<AttrEntry>, i: int) -> Result<
        Self,
        (int, AttrErrorKind),
    >
        decreases entries.len() - i,
    {
        if i < 0 || i >= entries.len() {
            Ok(self)
        } else {
            match self.spec_apply_entry(entries[i]) {
                Ok(a) => a.spec_from_entries(entries, i + 1),
                Err(k) => Err((i, k)),
            }
        }
    }

    /// All blocks of one field resolved in order over the empty resolution.
    pub open spec fn spec_parse_attributes(blocks: Seq<AttrBlock>, i: int, acc: Self) -> Result<
        Self,
        AttrError,
    >
        decreases blocks.len() - i,
    {
        if i < 0 || i >= blocks.len() {
            Ok(acc)
        } else {
            match Self::spec_default().spec_from_entries(blocks[i].entries@, 0) {
                Ok(a) => Self::spec_parse_attributes(blocks, i + 1, acc.spec_merge(a)),
                Err((e, k)) => Err(AttrError { kind: k, block: i as usize, entry: e as usize }),
            }
        }
    }

    /// Resolves the annotation blocks of one record field.
    pub fn parse_attributes(blocks: &Vec<AttrBlock>) -> (r: Result<Self, AttrError>)
        ensures
            r == Self::spec_parse_attributes(blocks@, 0, Self::spec_default()),
    {
        let mut acc = Self::new();
        let n = blocks.len();
        let mut i: usize = 0;
        while i < n
            invariant
                i <= n,
                n == blocks@.len(),
                Self::spec_parse_attributes(blocks@, 0, Self::spec_default())
                    == Self::spec_parse_attributes(blocks@, i as int, acc),
            decreases n - i,
        {
            let block = &blocks[i];
            let m = block.entries.len();
            let mut a = Self::new();
            let mut j: usize = 0;
            while j < m
                invariant
                    j <= m,
                    m == block.entries@.len(),
                    i < n,
                    n == blocks@.len(),
                    block.entries@ == blocks@[i as int].entries@,
                    Self::spec_parse_attributes(blocks@, 0, Self::spec_default())
                        == Self::spec_parse_attributes(blocks@, i as int, acc),
                    Self::spec_default().spec_from_entries(block.entries@, 0) == a.spec_from_entries(
                        block.entries@,
                        j as int,
                    ),
                decreases m - j,
            {
                let step: Result<Self, AttrErrorKind> = match &block.entries[j] {
                    AttrEntry::KeyValue(k, v) => match k {
                        AttrKey::OrderNo => match v {
                            AttrLit::Int(n) => if *n <= usize::MAX as u128 {
                                Ok(
                                    ByteCodingStructFieldAttr {
                                        order_no: Some(*n as usize),
                                        ignore: a.ignore,
                                    },
                                )
                            } else {
                                Err(AttrErrorKind::InvalidInteger)
                            },
                            AttrLit::IntTooLarge => Err(AttrErrorKind::InvalidInteger),
                            _ => Err(AttrErrorKind::ExpectedNumber),
                        },
                        _ => Err(AttrErrorKind::UnknownKey),
                    },
                    AttrEntry::Path(k) => match k {
                        AttrKey::Ignore => Ok(
                            ByteCodingStructFieldAttr { order_no: a.order_no, ignore: true },
                        ),
                        _ => Err(AttrErrorKind::UnknownKey),
                    },
                    AttrEntry::Unsupported => Err(AttrErrorKind::UnexpectedEntry),
                };
                match step {
                    Ok(a2) => {
                        proof {
                            assert(a.spec_apply_entry(block.entries@[j as int]) == Ok::<
                                Self,
                                AttrErrorKind,
                            >(a2));
                        }
                        a = a2;
                        j = j + 1;
                    },
                    Err(k) => {
                        proof {
                            assert(a.spec_apply_entry(block.entries@[j as int]) == Err::<
                                Self,
                                AttrErrorKind,
                            >(k));
                            assert(a.spec_from_entries(block.entries@, j as int) == Err::<
                                Self,
                                (int, AttrErrorKind),
                            >((j as int, k)));
                            assert(block.entries@ == blocks@[i as int].entries@);
                            assert(Self::spec_default().spec_from_entries(
                                blocks@[i as int].entries@,
                                0,
                            ) == Err::<Self, (int, AttrErrorKind)>((j as int, k)));
                            assert(Self::spec_parse_attributes(blocks@, i as int, acc) == Err::<
                                Self,
                                AttrError,
                            >(AttrError { kind: k, block: i, entry: j }));
                        }
                        return Err(AttrError { kind: k, block: i, entry: j });
                    },
                }
            }
            acc.merge(a);
            i = i + 1;
        }
        Ok(acc)
    }
}

impl Default for ByteCodingStructFieldAttr {
    fn default() -> (r: Self)
        ensures
            r == Self::spec_default(),
    {
        ByteCodingStructFieldAttr { order_no: None, ignore: false }
    }
}

} // verus!
