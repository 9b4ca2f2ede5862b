use byte_coding::attrs::AttrBlock;
use byte_coding::attrs::AttrEntry;
use byte_coding::attrs::AttrErrorKind;
use byte_coding::attrs::AttrKey;
use byte_coding::attrs::AttrLit;
use byte_coding::attrs::ByteCodingAttr;
use byte_coding::attrs::ByteCodingEnumVariantAttr;
use byte_coding::attrs::ByteCodingStructFieldAttr;
use byte_coding::attrs::EnumEncodingType;
use byte_coding::tags::assign_tags;
use byte_coding::tags::parse_enum_variant_value;
use byte_coding::tags::Discriminant;
use byte_coding::tags::TagErrorKind;
use byte_coding::tags::VariantSource;
use byte_coding::order::resolve_field_order;

fn block(entries: Vec<AttrEntry>) -> AttrBlock {
    AttrBlock { entries }
}

fn str_entry(key: AttrKey, value: &str) -> AttrEntry {
    AttrEntry::KeyValue(key, AttrLit::Str(value.to_string()))
}

#[test]
fn type_attr_merging_last_write_wins() {
    let blocks = vec![
        block(vec![
            str_entry(AttrKey::PreEncFunc, "first"),
            str_entry(AttrKey::PostDecFunc, "keep"),
        ]),
        block(vec![str_entry(AttrKey::PreEncFunc, "second")]),
    ];
    let (attr, first_enum) = ByteCodingAttr::from_data(&blocks).unwrap();
    assert_eq!(attr.pre_enc_func, Some("second".to_string()));
    assert_eq!(attr.post_dec_func, Some("keep".to_string()));
    assert_eq!(attr.pre_dec_func, None);
    assert_eq!(attr.post_enc_func, None);
    assert_eq!(attr.enum_options, None);
    assert_eq!(first_enum, None);
}

#[test]
fn type_attr_union_options() {
    let blocks = vec![
        block(vec![str_entry(AttrKey::EncodingType, "u64")]),
        block(vec![AttrEntry::Path(AttrKey::InferredValues)]),
    ];
    let (attr, first_enum) = ByteCodingAttr::from_data(&blocks).unwrap();
    let opts = attr.enum_options.unwrap();
    assert_eq!(opts.encoding_type, Some(EnumEncodingType::U64));
    assert!(opts.inferred_values);
    assert_eq!(first_enum, Some(0));
}

#[test]
fn type_attr_unknown_key_fails() {
    let blocks = vec![block(vec![str_entry(AttrKey::Unknown, "x")])];
    let err = ByteCodingAttr::from_data(&blocks).unwrap_err();
    assert_eq!(err.kind, AttrErrorKind::UnknownKey);
    assert_eq!(err.block, 0);
    assert_eq!(err.entry, 0);
}

#[test]
fn type_attr_expects_string() {
    let blocks = vec![block(vec![AttrEntry::KeyValue(
        AttrKey::PreDecFunc,
        AttrLit::Int(3),
    )])];
    let err = ByteCodingAttr::from_data(&blocks).unwrap_err();
    assert_eq!(err.kind, AttrErrorKind::ExpectedString);
}

#[test]
fn type_attr_unknown_encoding_type() {
    let blocks = vec![block(vec![str_entry(AttrKey::EncodingType, "u7")])];
    let err = ByteCodingAttr::from_data(&blocks).unwrap_err();
    assert_eq!(err.kind, AttrErrorKind::UnknownEncodingType);
}

#[test]
fn type_attr_unsupported_entry() {
    let blocks = vec![block(vec![
        str_entry(AttrKey::PreEncFunc, "ok"),
        AttrEntry::Unsupported,
    ])];
    let err = ByteCodingAttr::from_data(&blocks).unwrap_err();
    assert_eq!(err.kind, AttrErrorKind::UnexpectedEntry);
    assert_eq!(err.entry, 1);
}

#[test]
fn variant_attr_value() {
    let blocks = vec![block(vec![AttrEntry::KeyValue(
        AttrKey::Value,
        AttrLit::Int(7),
    )])];
    let attr = ByteCodingEnumVariantAttr::parse_attributes(&blocks).unwrap();
    assert_eq!(attr.value, Some(7));
}

#[test]
fn variant_attr_expects_number() {
    let blocks = vec![block(vec![str_entry(AttrKey::Value, "7")])];
    let err = ByteCodingEnumVariantAttr::parse_attributes(&blocks).unwrap_err();
    assert_eq!(err.kind, AttrErrorKind::ExpectedNumber);
}

#[test]
fn variant_attr_rejects_huge_literal() {
    let blocks = vec![block(vec![AttrEntry::KeyValue(
        AttrKey::Value,
        AttrLit::IntTooLarge,
    )])];
    let err = ByteCodingEnumVariantAttr::parse_attributes(&blocks).unwrap_err();
    assert_eq!(err.kind, AttrErrorKind::InvalidInteger);
}

#[test]
fn field_attr_order_and_ignore() {
    let blocks = vec![
        block(vec![AttrEntry::KeyValue(AttrKey::OrderNo, AttrLit::Int(4))]),
        block(vec![AttrEntry::Path(AttrKey::Ignore)]),
    ];
    let attr = ByteCodingStructFieldAttr::parse_attributes(&blocks).unwrap();
    assert_eq!(attr.order_no, Some(4));
    assert!(attr.ignore);
}

#[test]
fn field_attr_unknown_flag() {
    let blocks = vec![block(vec![AttrEntry::Path(AttrKey::Unknown)])];
    let err = ByteCodingStructFieldAttr::parse_attributes(&blocks).unwrap_err();
    assert_eq!(err.kind, AttrErrorKind::UnknownKey);
}

fn field(order_no: Option<usize>) -> ByteCodingStructFieldAttr {
    ByteCodingStructFieldAttr {
        order_no,
        ignore: false,
    }
}

#[test]
fn order_stability() {
    let attrs = vec![field(None), field(Some(2)), field(Some(0)), field(None)];
    let order = resolve_field_order(&attrs);
    assert_eq!(order, vec![2, 1, 0, 3]);
}

#[test]
fn order_equal_keys_keep_declaration_order() {
    let attrs = vec![field(Some(1)), field(Some(1)), field(Some(0))];
    let order = resolve_field_order(&attrs);
    assert_eq!(order, vec![2, 0, 1]);
}

fn variant(value: Option<u128>, discriminant: Option<Discriminant>) -> VariantSource {
    VariantSource {
        attr: ByteCodingEnumVariantAttr { value },
        discriminant,
    }
}

#[test]
fn inference_continuity() {
    let variants = vec![variant(None, None), variant(Some(10), None), variant(None, None)];
    let tags = assign_tags(&variants, true, EnumEncodingType::U16).unwrap();
    assert_eq!(tags, vec![0, 10, 11]);
}

#[test]
fn explicit_value_beats_discriminant() {
    let variants = vec![variant(Some(9), Some(Discriminant::IntLit(1)))];
    let tags = assign_tags(&variants, false, EnumEncodingType::U16).unwrap();
    assert_eq!(tags, vec![9]);
}

#[test]
fn duplicate_tag_rejected() {
    let variants = vec![
        variant(Some(3), None),
        variant(None, Some(Discriminant::IntLit(3))),
    ];
    let err = assign_tags(&variants, false, EnumEncodingType::U16).unwrap_err();
    assert_eq!(err.kind, TagErrorKind::DuplicateValue);
    assert_eq!(err.variant, 1);
}

#[test]
fn missing_tag_source_rejected() {
    let variants = vec![variant(None, None)];
    let err = assign_tags(&variants, false, EnumEncodingType::U16).unwrap_err();
    assert_eq!(err.kind, TagErrorKind::NoSource);
}

#[test]
fn non_literal_discriminant_rejected() {
    let variants = vec![variant(None, Some(Discriminant::OtherExpr))];
    let err = assign_tags(&variants, false, EnumEncodingType::U16).unwrap_err();
    assert_eq!(err.kind, TagErrorKind::UnsupportedExpr);
}

#[test]
fn tag_too_wide_rejected() {
    let variants = vec![variant(Some(256), None)];
    let err = assign_tags(&variants, false, EnumEncodingType::U8).unwrap_err();
    assert_eq!(err.kind, TagErrorKind::ValueTooLarge);
}

#[test]
fn wrapping_inference_collides() {
    let variants = vec![
        variant(Some(u128::MAX), None),
        variant(None, None),
        variant(None, Some(Discriminant::IntLit(0))),
    ];
    let err = assign_tags(&variants, true, EnumEncodingType::U128).unwrap_err();
    assert_eq!(err.kind, TagErrorKind::DuplicateValue);
    assert_eq!(err.variant, 2);
}

#[test]
fn empty_union_resolves() {
    let variants: Vec<VariantSource> = vec![];
    let tags = assign_tags(&variants, false, EnumEncodingType::U16).unwrap();
    assert!(tags.is_empty());
}

#[test]
fn variant_value_records_used_tags() {
    let mut found = Vec::new();
    let attr = ByteCodingEnumVariantAttr { value: Some(5) };
    let v = parse_enum_variant_value(None, None, &attr, &mut found).unwrap();
    assert_eq!(v, 5);
    assert_eq!(found, vec![5]);
    let err = parse_enum_variant_value(None, None, &attr, &mut found).unwrap_err();
    assert_eq!(err, TagErrorKind::DuplicateValue);
}
