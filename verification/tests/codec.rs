//! Frame codec tests: encoding layout, checksum discipline, decode
//! acceptance and rejection, boundary payload sizes.

use dccnet::network::{DecodeError, Payload, MAX_DATA_SIZE, PAYLOAD_HEADER_SIZE};

/// The Internet checksum fold over 16-bit big-endian words, the final
/// odd byte padded with a zero low byte.
fn ones_complement_sum(frame: &[u8]) -> u32 {
    let mut sum: u32 = 0;
    let mut i = 0;
    while i < frame.len() {
        let hi = frame[i] as u32;
        let lo = if i + 1 < frame.len() { frame[i + 1] as u32 } else { 0 };
        sum += (hi << 8) | lo;
        if sum > 0xFFFF {
            sum = (sum & 0xFFFF) + (sum >> 16);
        }
        i += 2;
    }
    sum
}

#[test]
fn framing_round_trip_bytes() {
    // payload "abc", id 1, flags 0
    let p = Payload::new(b"abc".to_vec(), 1, 0);
    let bytes = p.as_bytes();
    let expected: Vec<u8> = vec![
        0xDC, 0xC0, 0x23, 0xC2, 0xDC, 0xC0, 0x23, 0xC2, 0x9C, 0x31, 0x00, 0x03, 0x00, 0x01,
        0x00, 0x61, 0x62, 0x63,
    ];
    assert_eq!(bytes, expected);
}

#[test]
fn checksum_field_makes_sum_ffff() {
    let p = Payload::new(b"abc".to_vec(), 1, 0);
    assert_eq!(ones_complement_sum(&p.as_bytes()), 0xFFFF);
    let q = Payload::new(Vec::new(), 0, 0x80);
    assert_eq!(ones_complement_sum(&q.as_bytes()), 0xFFFF);
    let r = Payload::new(vec![7u8; 4096], 1, 0x40);
    assert_eq!(ones_complement_sum(&r.as_bytes()), 0xFFFF);
}

#[test]
fn odd_length_payload_pads_checksum_not_length() {
    // 2-byte payload gives a 17-byte frame: the checksum pads the odd
    // tail with a zero byte, but the length field stays 2.
    let p = Payload::new(b"hi".to_vec(), 0, 0);
    let bytes = p.as_bytes();
    assert_eq!(bytes.len(), 17);
    assert_eq!(bytes[10], 0x00);
    assert_eq!(bytes[11], 0x02);
    assert_eq!(ones_complement_sum(&bytes), 0xFFFF);
    let expected: Vec<u8> = vec![
        0xDC, 0xC0, 0x23, 0xC2, 0xDC, 0xC0, 0x23, 0xC2, 0x95, 0x8F, 0x00, 0x02, 0x00, 0x00,
        0x00, 0x68, 0x69,
    ];
    assert_eq!(bytes, expected);
}

#[test]
fn decode_of_encode_is_identity() {
    for (data, id, flag) in [
        (Vec::new(), 0u16, 0u8),
        (b"abc".to_vec(), 1, 0),
        (b"x".to_vec(), 0, 0x40),
        (vec![0xABu8; 4096], 1, 0),
    ] {
        let p = Payload::new(data.clone(), id, flag);
        let decoded = Payload::from_bytes(&p.as_bytes()).expect("well-formed frame must decode");
        assert_eq!(decoded.f_sync, 0xDCC023C2);
        assert_eq!(decoded.s_sync, 0xDCC023C2);
        assert_eq!(decoded.chksum, p.chksum);
        assert_eq!(decoded.length as usize, data.len());
        assert_eq!(decoded.id, id);
        assert_eq!(decoded.flag, flag);
        assert_eq!(decoded.data, data);
    }
}

#[test]
fn decode_rejects_short_header() {
    let buf = [0xDCu8, 0xC0, 0x23, 0xC2];
    assert!(matches!(Payload::from_bytes(&buf), Err(DecodeError::ShortHeader)));
    assert!(matches!(Payload::from_bytes(&[]), Err(DecodeError::ShortHeader)));
    // 14 bytes: one short of a header
    assert!(matches!(Payload::from_bytes(&[0u8; 14]), Err(DecodeError::ShortHeader)));
}

#[test]
fn decode_rejects_bad_sync() {
    let p = Payload::new(b"abc".to_vec(), 1, 0);
    let mut bytes = p.as_bytes();
    bytes[0] = 0x00;
    assert!(matches!(Payload::from_bytes(&bytes), Err(DecodeError::BadSync)));
    let mut bytes2 = p.as_bytes();
    bytes2[4] = 0xFF;
    assert!(matches!(Payload::from_bytes(&bytes2), Err(DecodeError::BadSync)));
}

#[test]
fn decode_rejects_length_mismatch() {
    let p = Payload::new(b"abc".to_vec(), 1, 0);
    let mut bytes = p.as_bytes();
    bytes.push(0x00); // one stray byte after the payload
    assert!(matches!(Payload::from_bytes(&bytes), Err(DecodeError::ShortBody)));
    let mut truncated = p.as_bytes();
    truncated.pop();
    assert!(matches!(Payload::from_bytes(&truncated), Err(DecodeError::ShortBody)));
}

#[test]
fn decode_rejects_bad_checksum() {
    let p = Payload::new(b"abc".to_vec(), 1, 0);
    let mut bytes = p.as_bytes();
    bytes[17] ^= 0x01; // corrupt the payload, keep the length
    assert!(matches!(Payload::from_bytes(&bytes), Err(DecodeError::BadChecksum)));
    let mut bytes2 = p.as_bytes();
    bytes2[8] ^= 0xFF; // corrupt the stored checksum itself
    assert!(matches!(Payload::from_bytes(&bytes2), Err(DecodeError::BadChecksum)));
}

#[test]
fn payload_of_zero_and_max_length_are_valid() {
    let empty = Payload::new(Vec::new(), 0, 0);
    assert_eq!(empty.length, 0);
    assert_eq!(empty.as_bytes().len(), PAYLOAD_HEADER_SIZE);
    assert!(Payload::from_bytes(&empty.as_bytes()).is_ok());

    let max = Payload::new(vec![0x55u8; MAX_DATA_SIZE], 1, 0);
    assert_eq!(max.length as usize, MAX_DATA_SIZE);
    assert!(Payload::from_bytes(&max.as_bytes()).is_ok());
}

#[test]
fn decode_rejects_length_over_maximum() {
    // Hand-build a 15 + 4097 byte buffer with length = 4097 and a
    // checksum that would validate: the length bound must reject it
    // before the checksum is even considered.
    let data = vec![0x11u8; 4097];
    let mut buf = Vec::new();
    buf.extend_from_slice(&0xDCC023C2u32.to_be_bytes());
    buf.extend_from_slice(&0xDCC023C2u32.to_be_bytes());
    buf.extend_from_slice(&[0, 0]);
    buf.extend_from_slice(&4097u16.to_be_bytes());
    buf.extend_from_slice(&[0, 0]);
    buf.push(0);
    buf.extend_from_slice(&data);
    let sum = ones_complement_sum(&buf);
    let chk = !(sum as u16);
    buf[8] = (chk >> 8) as u8;
    buf[9] = chk as u8;
    assert_eq!(ones_complement_sum(&buf), 0xFFFF);
    assert!(matches!(Payload::from_bytes(&buf), Err(DecodeError::BadLength)));
}
