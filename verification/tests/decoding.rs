use byte_coding::Decodable;
use byte_coding::Encodable;

#[test]
fn test_u8() {
    let b = u8::MAX - 1;
    let encoded = b.encoded();
    let res = Decodable::decode(&encoded).unwrap();

    assert_eq!(b, res);
}

#[test]
fn test_u16() {
    let b = u16::MAX - 1;
    let encoded = b.encoded();
    let res = Decodable::decode(&encoded).unwrap();

    assert_eq!(b, res);
}

#[test]
fn test_u32() {
    let b = u32::MAX - 1;
    let encoded = b.encoded();
    let res = Decodable::decode(&encoded).unwrap();

    assert_eq!(b, res);
}

#[test]
fn test_u64() {
    let b = u64::MAX - 1;
    let encoded = b.encoded();
    let res = Decodable::decode(&encoded).unwrap();

    assert_eq!(b, res);
}

#[test]
fn test_string() {
    let b = "test";
    let encoded = b.encoded();
    let res: String = Decodable::decode(&encoded).unwrap();

    assert_eq!(b, res);
}

#[test]
fn test_option_string_1() {
    let b = Some("test".to_string());
    let encoded = b.encoded();
    let res: Option<String> = Decodable::decode(&encoded).unwrap();

    assert_eq!(b, res);
}

#[test]
fn test_option_string_2() {
    let b = None;
    let encoded = b.encoded();
    let res: Option<String> = Decodable::decode(&encoded).unwrap();

    assert_eq!(b, res);
}

#[test]
fn test_bool_array() {
    let b = [true, false, true, false, true, false, true, false];
    let encoded = b.encoded();
    let res: [bool; 8] = Decodable::decode(&encoded).unwrap();

    assert_eq!(b, res);
}

#[test]
fn test_bool_array_2() {
    let b = [
        true, false, true, false, true, false, true, false, true, false, true, false, true,
        false, true, false,
    ];
    let encoded = b.encoded();
    let res: [bool; 16] = Decodable::decode(&encoded).unwrap();

    assert_eq!(b, res);
}

#[test]
fn test_bool_array_3() {
    let b = [
        true, false, true, false, true, false, true, false, true, false, true, false, true,
        false, true, false, true,
    ];
    let encoded = b.encoded();
    let res: [bool; 17] = Decodable::decode(&encoded).unwrap();

    assert_eq!(b, res);
}

#[test]
fn test_vec() {
    let b = vec![1u64, 2, 3, 4];
    let encoded = b.encoded();
    let res: Vec<u64> = Decodable::decode(&encoded).unwrap();

    assert_eq!(b, res);
}

#[test]
fn test_vec_bool_1() {
    let b = vec![true, false, true];
    let encoded = b.encoded();
    let res: Vec<bool> = Decodable::decode(&encoded).unwrap();

    assert_eq!(b, res);
}

#[test]
fn test_vec_bool_2() {
    let b = vec![true, false, true, true, false, true, true, false];
    let encoded = b.encoded();
    let res: Vec<bool> = Decodable::decode(&encoded).unwrap();

    assert_eq!(b, res);
}

#[test]
fn test_vec_bool_3() {
    let b = vec![
        true, false, true, true, false, true, true, false, true, true, false, true, true,
        false, true, true, false, true,
    ];
    let encoded = b.encoded();
    let res: Vec<bool> = Decodable::decode(&encoded).unwrap();

    assert_eq!(b, res);
}

#[test]
fn test_array() {
    let b = ["abc", "bc", "c", "defghijklmnopq"];
    let encoded = b.encoded();
    let res: [String; 4] = Decodable::decode(&encoded).unwrap();

    assert_eq!(b.map(|v| v.to_string()), res);
}

#[test]
fn test_bool() {
    let b = true;
    let encoded = b.encoded();
    let res: bool = Decodable::decode(&encoded).unwrap();

    assert_eq!(b, res);
}
