use byte_coding::attrs::ByteCodingEnumVariantAttr;
use byte_coding::attrs::EnumEncodingType;
use byte_coding::codec::encode_union;
use byte_coding::schema::resolve_union;
use byte_coding::schema::UnionDecl;
use byte_coding::schema::VariantDecl;
use byte_coding::tags::assign_tags;
use byte_coding::tags::VariantSource;
use byte_coding::Decodable;
use byte_coding::Encodable;

#[test]
fn u128_exact_bytes() {
    let v = 1u128 + (2u128 << 8);
    let encoded = v.encoded();
    assert_eq!(encoded.len(), 16);
    assert_eq!(encoded[0], 1);
    assert_eq!(encoded[1], 2);
    assert!(encoded[2..].iter().all(|b| *b == 0));
    let back: u128 = Decodable::decode(&encoded).unwrap();
    assert_eq!(back, v);
}

#[test]
fn usize_is_eight_bytes() {
    assert_eq!(300usize.encoded(), vec![44, 1, 0, 0, 0, 0, 0, 0]);
    let back: usize = Decodable::decode(&[44, 1, 0, 0, 0, 0, 0, 0]).unwrap();
    assert_eq!(back, 300);
}

#[test]
fn isize_is_eight_bytes() {
    assert_eq!(
        (-2isize).encoded(),
        vec![254, 255, 255, 255, 255, 255, 255, 255]
    );
    let back: isize = Decodable::decode(&[254, 255, 255, 255, 255, 255, 255, 255]).unwrap();
    assert_eq!(back, -2);
}

#[test]
fn bool_is_one_byte_any_nonzero_is_true() {
    assert_eq!(true.encoded(), vec![1]);
    assert_eq!(false.encoded(), vec![0]);
    let b: bool = Decodable::decode(&[7]).unwrap();
    assert!(b);
}

#[test]
fn option_presence_byte() {
    assert_eq!(Some(5u8).encoded(), vec![1, 5]);
    assert_eq!(None::<u8>.encoded(), vec![0]);
    let present: Option<u8> = Decodable::decode(&[2, 9]).unwrap();
    assert_eq!(present, Some(9));
}

#[test]
fn empty_string_and_list() {
    assert_eq!("".encoded(), vec![0, 0, 0, 0, 0, 0, 0, 0]);
    let empty: Vec<u16> = Vec::new();
    assert_eq!(empty.encoded(), vec![0, 0, 0, 0, 0, 0, 0, 0]);
    let back: Vec<u16> = Decodable::decode(&[0, 0, 0, 0, 0, 0, 0, 0]).unwrap();
    assert!(back.is_empty());
}

#[test]
fn short_buffers_fail_to_decode() {
    assert!(u16::decode(&[1]).is_none());
    assert!(u64::decode(&[1, 2, 3]).is_none());
    assert!(String::decode(&[4, 0, 0, 0, 0, 0, 0, 0, b'a']).is_none());
    assert!(<[bool; 8]>::decode(&[]).is_none());
}

#[test]
fn tag_boundary_values_fit_their_width() {
    let variants = vec![VariantSource {
        attr: ByteCodingEnumVariantAttr { value: Some(255) },
        discriminant: None,
    }];
    let tags = assign_tags(&variants, false, EnumEncodingType::U8).unwrap();
    assert_eq!(tags, vec![255]);

    let wide = vec![VariantSource {
        attr: ByteCodingEnumVariantAttr { value: Some(u128::MAX) },
        discriminant: None,
    }];
    let tags = assign_tags(&wide, false, EnumEncodingType::U128).unwrap();
    assert_eq!(tags, vec![u128::MAX]);
}

#[test]
fn wide_tags_hit_the_wire_at_their_width() {
    let decl = UnionDecl {
        variants: vec![VariantDecl {
            fields: vec![],
            discriminant: None,
            attrs: vec![byte_coding::attrs::AttrBlock {
                entries: vec![byte_coding::attrs::AttrEntry::KeyValue(
                    byte_coding::attrs::AttrKey::Value,
                    byte_coding::attrs::AttrLit::Int(0x0403_0201),
                )],
            }],
        }],
        attrs: vec![byte_coding::attrs::AttrBlock {
            entries: vec![byte_coding::attrs::AttrEntry::KeyValue(
                byte_coding::attrs::AttrKey::EncodingType,
                byte_coding::attrs::AttrLit::Str("u32".to_string()),
            )],
        }],
    };
    let schema = resolve_union(&decl).unwrap();
    let mut buf = Vec::new();
    encode_union(&schema, 0, &Vec::new(), &mut buf);
    assert_eq!(buf, vec![1, 2, 3, 4]);
}
