use byte_coding::Coder;

#[test]
fn test_decode_next_object() {
    let mut coder = Coder::from(vec![0xff, 0xff, 0xee, 0xee, 0xdd, 0xdd]);

    let f: u16 = coder.decode_next_object().unwrap();
    assert_eq!(f, 0xffff);

    let e: u16 = coder.decode_next_object().unwrap();
    assert_eq!(e, 0xeeee);

    let d: u16 = coder.decode_next_object().unwrap();
    assert_eq!(d, 0xdddd);
}

#[test]
fn test_encode() {
    let mut coder = Coder::new();

    coder.encode_object(0xffffu16);
    coder.encode_object(0xeeeeu16);
    coder.encode_object(0xddddu16);

    let f: u16 = coder.decode_next_object().unwrap();
    assert_eq!(f, 0xffff);

    let e: u16 = coder.decode_next_object().unwrap();
    assert_eq!(e, 0xeeee);

    let d: u16 = coder.decode_next_object().unwrap();
    assert_eq!(d, 0xdddd);
}

#[test]
fn test_encode_2() {
    let mut coder = Coder::new();

    coder.encode_object("test");
    coder.encode_object("test2");
    coder.encode_object("test3");

    let f: String = coder.decode_next_object().unwrap();
    assert_eq!(f, "test".to_string());

    let e: String = coder.decode_next_object().unwrap();
    assert_eq!(e, "test2".to_string());

    let d: String = coder.decode_next_object().unwrap();
    assert_eq!(d, "test3".to_string());
}

#[test]
fn coder_reset_and_buffer() {
    let mut coder = Coder::new();
    coder.encode(&7u16);
    assert_eq!(coder.buffer(), &vec![7, 0]);

    let first: u16 = coder.decode_next_object().unwrap();
    assert_eq!(first, 7);
    coder.reset_decode_index();
    let again: u16 = coder.decode_next_object().unwrap();
    assert_eq!(again, 7);
}
