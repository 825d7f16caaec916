use mctp_usbredir::error::Error;
use mctp_usbredir::framing::{decode, encode};

#[test]
fn encode_ten_bytes_wire_format() {
    let payload = [0xAAu8; 10];
    let mut expected = vec![0, 0, 0, 10];
    expected.extend_from_slice(&payload);
    assert_eq!(encode(&payload).unwrap(), expected);
}

#[test]
fn encode_empty_payload() {
    assert_eq!(encode(&[]).unwrap(), vec![0, 0, 0, 0]);
}

#[test]
fn encode_header_is_big_endian() {
    let payload = vec![1u8; 0x0102];
    let e = encode(&payload).unwrap();
    assert_eq!(&e[..4], &[0, 0, 1, 2]);
    assert_eq!(e.len(), 4 + 0x0102);
}

#[test]
fn round_trip_gives_payload_and_nothing_else() {
    for p in [vec![], vec![7u8], vec![1, 2, 3, 4, 5], vec![0xffu8; 300]] {
        let e = encode(&p).unwrap();
        let (f, rem) = decode(&e).unwrap();
        assert_eq!(f, &p[..]);
        assert!(rem.is_empty());
    }
}

#[test]
fn decode_keeps_second_frame() {
    let mut buf = encode(&[1, 2]).unwrap();
    let second = encode(&[3, 4, 5]).unwrap();
    buf.extend_from_slice(&second);
    let (f, rem) = decode(&buf).unwrap();
    assert_eq!(f, &[1, 2]);
    assert_eq!(rem, &second[..]);
    let (f, rem) = decode(rem).unwrap();
    assert_eq!(f, &[3, 4, 5]);
    assert!(rem.is_empty());
}

#[test]
fn decode_short_header_fails() {
    assert_eq!(decode(&[0, 0, 0]), Err(Error::Framing));
    assert_eq!(decode(&[]), Err(Error::Framing));
}

#[test]
fn decode_declared_length_too_long_fails() {
    assert_eq!(decode(&[0, 0, 0, 3, 1, 2]), Err(Error::Framing));
    assert_eq!(decode(&[0xff, 0xff, 0xff, 0xff, 1]), Err(Error::Framing));
}
