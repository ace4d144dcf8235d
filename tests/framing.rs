use spare::framing::{be_to_u64, decode_frame, encode_frame, is_ready, payload_frame, u64_to_be};

#[test]
fn payload_echo_bytes() {
    let f = payload_frame(&Some("abc".to_string()));
    assert_eq!(f, vec![0x00, 0x00, 0x00, 0x00, 0x00, 0x00, 0x00, 0x03, 0x61, 0x62, 0x63]);
}

#[test]
fn no_payload_is_eight_zero_bytes() {
    assert_eq!(payload_frame(&None), vec![0u8; 8]);
}

#[test]
fn frame_round_trip() {
    for p in [vec![], vec![1u8], b"hello".to_vec(), vec![0xffu8; 300]] {
        let f = encode_frame(&p);
        assert_eq!(f.len(), p.len() + 8);
        assert_eq!(decode_frame(&f), Some(p));
    }
}

#[test]
fn decode_rejects_wrong_length() {
    assert_eq!(decode_frame(&[0, 0, 0]), None);
    assert_eq!(decode_frame(&[0, 0, 0, 0, 0, 0, 0, 2, 9]), None);
    assert_eq!(decode_frame(&[0, 0, 0, 0, 0, 0, 0, 0]), Some(vec![]));
}

#[test]
fn big_endian_header() {
    assert_eq!(u64_to_be(5), vec![0, 0, 0, 0, 0, 0, 0, 5]);
    assert_eq!(u64_to_be(0x0102_0304_0506_0708), vec![1, 2, 3, 4, 5, 6, 7, 8]);
    assert_eq!(be_to_u64(&[0, 0, 0, 0, 0, 0, 1, 0]), 256);
    assert_eq!(be_to_u64(&[0xff; 8]), u64::MAX);
    assert_eq!(be_to_u64(&u64_to_be(123456789)), 123456789);
}

#[test]
fn handshake_must_be_ready() {
    assert!(is_ready(b"ready"));
    assert!(!is_ready(b"reads"));
    assert!(!is_ready(b"ready!"));
    assert!(!is_ready(b""));
}

#[test]
fn response_hello() {
    let mut bytes = vec![0, 0, 0, 0, 0, 0, 0, 5];
    bytes.extend_from_slice(b"hello");
    assert_eq!(be_to_u64(&bytes[..8]), 5);
    assert_eq!(decode_frame(&bytes), Some(b"hello".to_vec()));
}
