use byte_coding::Encodable;

#[test]
fn test_encoding_bool() {
    let bools = [true, true, false, false, true, true, false, false];
    assert_eq!(bools.encoded(), vec![0b11001100]);
}

#[test]
fn test_encoding_bool_2() {
    let bools = [true, false, true, false, true, false, true, false];
    assert_eq!(bools.encoded(), vec![0b10101010]);
}

#[test]
fn test_encoding_u64() {
    assert_eq!(52u64.encoded(), vec![52, 0, 0, 0, 0, 0, 0, 0]);
}

#[test]
fn test_encoding_i64() {
    assert_eq!(
        (-52i64).encoded(),
        vec![204, 255, 255, 255, 255, 255, 255, 255]
    );
}

#[test]
fn test_encoding_vec_u64() {
    assert_eq!(
        vec![123u64, 1024u64, 18u64].encoded(),
        vec![
            3, 0, 0, 0, 0, 0, 0, 0, 123, 0, 0, 0, 0, 0, 0, 0, 0, 4, 0, 0, 0, 0, 0, 0, 18, 0, 0,
            0, 0, 0, 0, 0
        ]
    );
}

#[test]
fn test_encoding_arr_u64() {
    assert_eq!(
        [123u64, 1024u64, 18u64].encoded(),
        vec![123, 0, 0, 0, 0, 0, 0, 0, 0, 4, 0, 0, 0, 0, 0, 0, 18, 0, 0, 0, 0, 0, 0, 0]
    );
}

#[test]
fn test_encoding_str() {
    assert_eq!(
        "test".encoded(),
        vec![4, 0, 0, 0, 0, 0, 0, 0, b't', b'e', b's', b't']
    );
}
