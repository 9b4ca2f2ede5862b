use byte_coding::attrs::AttrBlock;
use byte_coding::attrs::AttrEntry;
use byte_coding::attrs::AttrKey;
use byte_coding::attrs::AttrLit;
use byte_coding::codec::decode_record;
use byte_coding::codec::decode_union;
use byte_coding::codec::decode_value;
use byte_coding::codec::default_value;
use byte_coding::codec::encode_record;
use byte_coding::codec::encode_union;
use byte_coding::codec::encode_value;
use byte_coding::codec::Value;
use byte_coding::schema::resolve_record;
use byte_coding::schema::resolve_union;
use byte_coding::schema::FieldDecl;
use byte_coding::schema::FieldType;
use byte_coding::schema::RecordDecl;
use byte_coding::schema::ResolveError;
use byte_coding::schema::UnionDecl;
use byte_coding::schema::VariantDecl;
use byte_coding::tags::Discriminant;

fn no_attrs() -> Vec<AttrBlock> {
    Vec::new()
}

fn one_entry(entry: AttrEntry) -> Vec<AttrBlock> {
    vec![AttrBlock {
        entries: vec![entry],
    }]
}

fn value_entry(n: u128) -> Vec<AttrBlock> {
    one_entry(AttrEntry::KeyValue(AttrKey::Value, AttrLit::Int(n)))
}

fn plain_field(ty: FieldType) -> FieldDecl {
    FieldDecl {
        ty,
        attrs: no_attrs(),
    }
}

fn str_value(s: &str) -> Value {
    Value::Str(s.to_string())
}

fn unwrap_str(v: &Value) -> String {
    match v {
        Value::Str(s) => s.clone(),
        _ => panic!("expected a string value"),
    }
}

fn unwrap_u32(v: &Value) -> u32 {
    match v {
        Value::U32(x) => *x,
        _ => panic!("expected a 32-bit value"),
    }
}

fn unwrap_u64(v: &Value) -> u64 {
    match v {
        Value::U64(x) => *x,
        _ => panic!("expected a 64-bit value"),
    }
}

/// The union used by the tagged-union tests: four variants at a 16-bit tag
/// width, one tag from a discriminant, three from explicit values, two
/// carrying a (u32, u64) payload.
fn example_union() -> UnionDecl {
    UnionDecl {
        variants: vec![
            VariantDecl {
                fields: vec![],
                discriminant: Some(Discriminant::IntLit(1)),
                attrs: no_attrs(),
            },
            VariantDecl {
                fields: vec![],
                discriminant: None,
                attrs: value_entry(2),
            },
            VariantDecl {
                fields: vec![FieldType::U32, FieldType::U64],
                discriminant: None,
                attrs: value_entry(3),
            },
            VariantDecl {
                fields: vec![FieldType::U32, FieldType::U64],
                discriminant: None,
                attrs: value_entry(4),
            },
        ],
        attrs: one_entry(AttrEntry::KeyValue(
            AttrKey::EncodingType,
            AttrLit::Str("u16".to_string()),
        )),
    }
}

/// The record used by the ignored-field tests: a string field followed by an
/// ignored optional string.
fn example_ignored_record() -> RecordDecl {
    RecordDecl {
        fields: vec![
            plain_field(FieldType::Str),
            FieldDecl {
                ty: FieldType::OptionOf(Box::new(FieldType::Str)),
                attrs: one_entry(AttrEntry::Path(AttrKey::Ignore)),
            },
        ],
        attrs: no_attrs(),
    }
}

#[test]
fn test_example1_encoding() {
    let decl = RecordDecl {
        fields: vec![plain_field(FieldType::Str)],
        attrs: no_attrs(),
    };
    let schema = resolve_record(&decl).unwrap();
    let vals = vec![str_value("test")];
    let mut buf = Vec::new();
    encode_record(&schema, &vals, &mut buf);
    assert_eq!(buf, vec![4, 0, 0, 0, 0, 0, 0, 0, b't', b'e', b's', b't']);
}

#[test]
fn test_example1_decoding() {
    let decl = RecordDecl {
        fields: vec![plain_field(FieldType::Str)],
        attrs: no_attrs(),
    };
    let schema = resolve_record(&decl).unwrap();
    let encoded = vec![4, 0, 0, 0, 0, 0, 0, 0, b't', b'e', b's', b't'];
    let (fields, rest) = decode_record(&schema, &encoded).unwrap();
    assert!(rest.is_empty());
    assert_eq!(fields.len(), 1);
    assert_eq!(unwrap_str(&fields[0]), "test");
}

#[test]
fn test_example3_encoding_1() {
    let schema = resolve_union(&example_union()).unwrap();
    let mut buf = Vec::new();
    encode_union(&schema, 0, &Vec::new(), &mut buf);
    assert_eq!(buf, vec![1, 0]);
}

#[test]
fn test_example3_encoding_2() {
    let schema = resolve_union(&example_union()).unwrap();
    let mut buf = Vec::new();
    encode_union(&schema, 1, &Vec::new(), &mut buf);
    assert_eq!(buf, vec![2, 0]);
}

#[test]
fn test_example3_encoding_3() {
    let schema = resolve_union(&example_union()).unwrap();
    let mut buf = Vec::new();
    encode_union(&schema, 2, &vec![Value::U32(100), Value::U64(200)], &mut buf);
    assert_eq!(buf, vec![3, 0, 100, 0, 0, 0, 200, 0, 0, 0, 0, 0, 0, 0]);
}

#[test]
fn test_example3_encoding_4() {
    let schema = resolve_union(&example_union()).unwrap();
    let mut buf = Vec::new();
    encode_union(&schema, 3, &vec![Value::U32(100), Value::U64(200)], &mut buf);
    assert_eq!(buf, vec![4, 0, 100, 0, 0, 0, 200, 0, 0, 0, 0, 0, 0, 0]);
}

#[test]
fn test_example3_decoding_1() {
    let schema = resolve_union(&example_union()).unwrap();
    let ((variant, fields), rest) = decode_union(&schema, &[1, 0]).unwrap();
    assert_eq!(variant, 0);
    assert!(fields.is_empty());
    assert!(rest.is_empty());
}

#[test]
fn test_example3_decoding_2() {
    let schema = resolve_union(&example_union()).unwrap();
    let ((variant, fields), rest) = decode_union(&schema, &[2, 0]).unwrap();
    assert_eq!(variant, 1);
    assert!(fields.is_empty());
    assert!(rest.is_empty());
}

#[test]
fn test_example3_decoding_3() {
    let schema = resolve_union(&example_union()).unwrap();
    let encoded = vec![3, 0, 100, 0, 0, 0, 200, 0, 0, 0, 0, 0, 0, 0];
    let ((variant, fields), rest) = decode_union(&schema, &encoded).unwrap();
    assert_eq!(variant, 2);
    assert_eq!(unwrap_u32(&fields[0]), 100);
    assert_eq!(unwrap_u64(&fields[1]), 200);
    assert!(rest.is_empty());
}

#[test]
fn test_example3_decoding_4() {
    let schema = resolve_union(&example_union()).unwrap();
    let encoded = vec![4, 0, 100, 0, 0, 0, 200, 0, 0, 0, 0, 0, 0, 0];
    let ((variant, fields), rest) = decode_union(&schema, &encoded).unwrap();
    assert_eq!(variant, 3);
    assert_eq!(unwrap_u32(&fields[0]), 100);
    assert_eq!(unwrap_u64(&fields[1]), 200);
    assert!(rest.is_empty());
}

#[test]
fn test_example5_encoding() {
    let schema = resolve_record(&example_ignored_record()).unwrap();
    let vals = vec![
        str_value("f1"),
        Value::OptionOf(Some(Box::new(str_value("field_2")))),
    ];
    let mut buf = Vec::new();
    encode_record(&schema, &vals, &mut buf);
    assert_eq!(buf, vec![2, 0, 0, 0, 0, 0, 0, 0, b'f', b'1']);
}

#[test]
fn test_example5_decoding() {
    let schema = resolve_record(&example_ignored_record()).unwrap();
    let vals = vec![
        str_value("f1"),
        Value::OptionOf(Some(Box::new(str_value("field_2")))),
    ];
    let mut buf = Vec::new();
    encode_record(&schema, &vals, &mut buf);

    let (fields, rest) = decode_record(&schema, &buf).unwrap();
    assert!(rest.is_empty());
    assert_eq!(unwrap_str(&fields[0]), "f1");
    match &fields[1] {
        Value::OptionOf(None) => {}
        _ => panic!("the ignored field must come back as its default"),
    }
}

#[test]
fn record_order_numbers_reorder_the_wire() {
    let decl = RecordDecl {
        fields: vec![
            plain_field(FieldType::Str),
            FieldDecl {
                ty: FieldType::U8,
                attrs: one_entry(AttrEntry::KeyValue(AttrKey::OrderNo, AttrLit::Int(1))),
            },
            FieldDecl {
                ty: FieldType::OptionOf(Box::new(FieldType::Str)),
                attrs: one_entry(AttrEntry::KeyValue(AttrKey::OrderNo, AttrLit::Int(0))),
            },
        ],
        attrs: no_attrs(),
    };
    let schema = resolve_record(&decl).unwrap();
    assert_eq!(schema.order, vec![2, 1, 0]);
    let vals = vec![str_value("tea"), Value::U8(82), Value::OptionOf(None)];
    let mut buf = Vec::new();
    encode_record(&schema, &vals, &mut buf);
    assert_eq!(
        buf,
        vec![0, 82, 3, 0, 0, 0, 0, 0, 0, 0, b't', b'e', b'a']
    );
}

#[test]
fn union_options_on_record_rejected() {
    let decl = RecordDecl {
        fields: vec![plain_field(FieldType::U8)],
        attrs: one_entry(AttrEntry::Path(AttrKey::InferredValues)),
    };
    match resolve_record(&decl).unwrap_err() {
        ResolveError::EnumOptionsOnRecord { block } => assert_eq!(block, 0),
        _ => panic!("expected the union-only option to be rejected"),
    }
}

#[test]
fn union_decode_rejects_unknown_tag() {
    let schema = resolve_union(&example_union()).unwrap();
    assert!(decode_union(&schema, &[9, 0]).is_none());
}

#[test]
fn union_decode_insufficient_tag_bytes() {
    let decl = UnionDecl {
        variants: vec![VariantDecl {
            fields: vec![],
            discriminant: None,
            attrs: value_entry(1),
        }],
        attrs: one_entry(AttrEntry::KeyValue(
            AttrKey::EncodingType,
            AttrLit::Str("u32".to_string()),
        )),
    };
    let schema = resolve_union(&decl).unwrap();
    assert!(decode_union(&schema, &[1, 0]).is_none());
}

#[test]
fn string_decode_rejects_invalid_utf8() {
    let bytes = vec![2, 0, 0, 0, 0, 0, 0, 0, 0xff, 0xfe];
    assert!(decode_value(&FieldType::Str, &bytes).is_none());
}

#[test]
fn string_value_round_trip() {
    let encoded = vec![4, 0, 0, 0, 0, 0, 0, 0, b't', b'e', b's', b't'];
    let (v, rest) = decode_value(&FieldType::Str, &encoded).unwrap();
    assert_eq!(unwrap_str(&v), "test");
    assert!(rest.is_empty());

    let mut buf = Vec::new();
    encode_value(&FieldType::Str, &str_value("test"), &mut buf);
    assert_eq!(buf, encoded);
}

#[test]
fn packed_bool_field_round_trip() {
    let bools = vec![
        Value::Bool(true),
        Value::Bool(false),
        Value::Bool(true),
        Value::Bool(false),
        Value::Bool(true),
        Value::Bool(false),
        Value::Bool(true),
        Value::Bool(false),
    ];
    let mut buf = Vec::new();
    encode_value(&FieldType::BoolArray8, &Value::Array(bools), &mut buf);
    assert_eq!(buf, vec![0b10101010]);

    let (v, rest) = decode_value(&FieldType::BoolArray8, &buf).unwrap();
    assert!(rest.is_empty());
    match v {
        Value::Array(vs) => {
            let expected = [true, false, true, false, true, false, true, false];
            assert_eq!(vs.len(), 8);
            for (i, b) in vs.iter().enumerate() {
                match b {
                    Value::Bool(x) => assert_eq!(*x, expected[i]),
                    _ => panic!("expected a boolean element"),
                }
            }
        }
        _ => panic!("expected an array value"),
    }
}

#[test]
fn list_value_round_trip() {
    let list = Value::List(vec![Value::U16(7), Value::U16(8)]);
    let ty = FieldType::ListOf(Box::new(FieldType::U16));
    let mut buf = Vec::new();
    encode_value(&ty, &list, &mut buf);
    assert_eq!(buf, vec![2, 0, 0, 0, 0, 0, 0, 0, 7, 0, 8, 0]);

    let (v, rest) = decode_value(&ty, &buf).unwrap();
    assert!(rest.is_empty());
    match v {
        Value::List(vs) => {
            assert_eq!(vs.len(), 2);
            match (&vs[0], &vs[1]) {
                (Value::U16(a), Value::U16(b)) => {
                    assert_eq!(*a, 7);
                    assert_eq!(*b, 8);
                }
                _ => panic!("expected 16-bit elements"),
            }
        }
        _ => panic!("expected a list value"),
    }
}

#[test]
fn defaults_have_their_types() {
    match default_value(&FieldType::Str) {
        Value::Str(s) => assert_eq!(s, ""),
        _ => panic!("expected an empty string"),
    }
    match default_value(&FieldType::ArrayOf(Box::new(FieldType::U8), 3)) {
        Value::Array(vs) => assert_eq!(vs.len(), 3),
        _ => panic!("expected an array"),
    }
}
