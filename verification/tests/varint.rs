use minibroker::error::DecodeError;
use minibroker::{decode_int, decode_unsigned_int, ByteCursor};

#[test]
fn test_decode_int() {
    let mut buf = ByteCursor::new(vec![0x3c]);
    println!("{}", decode_int(&mut buf).unwrap());
}

#[test]
fn test_zigzag_single_byte_decodes_to_30() {
    let mut buf = ByteCursor::new(vec![0x3c]);
    assert_eq!(decode_int(&mut buf), Ok(30));
    assert_eq!(buf.pos, 1);
}

#[test]
fn test_zigzag_negative() {
    let mut buf = ByteCursor::new(vec![0x01]);
    assert_eq!(decode_int(&mut buf), Ok(-1));
    let mut buf = ByteCursor::new(vec![0x03]);
    assert_eq!(decode_int(&mut buf), Ok(-2));
}

#[test]
fn test_unsigned_multi_byte_consumes_exactly_needed() {
    // 150 = 0x96 0x01; the trailing byte must stay unread.
    let mut buf = ByteCursor::new(vec![0x96, 0x01, 0x55]);
    assert_eq!(decode_unsigned_int(&mut buf), Ok(150));
    assert_eq!(buf.pos, 2);
}

#[test]
fn test_unsigned_single_byte() {
    let mut buf = ByteCursor::new(vec![0x7f, 0x7f]);
    assert_eq!(decode_unsigned_int(&mut buf), Ok(127));
    assert_eq!(buf.pos, 1);
}

#[test]
fn test_unsigned_stops_after_five_groups() {
    // Five continuation-flagged bytes: the decoder stops regardless and
    // never touches a sixth byte.
    let mut buf = ByteCursor::new(vec![0xff, 0xff, 0xff, 0xff, 0xff, 0x01]);
    assert_eq!(decode_unsigned_int(&mut buf), Ok(0xffffffff));
    assert_eq!(buf.pos, 5);
}

#[test]
fn test_unsigned_truncated_input() {
    let mut buf = ByteCursor::new(vec![0x80]);
    assert_eq!(decode_unsigned_int(&mut buf), Err(DecodeError::TruncatedInput));
    assert_eq!(buf.pos, 0);
}

#[test]
fn test_zigzag_truncated_input() {
    let mut buf = ByteCursor::new(vec![0xc5]);
    assert_eq!(decode_int(&mut buf), Err(DecodeError::TruncatedInput));
}

#[test]
fn test_zigzag_two_bytes() {
    // 300 = 0xac 0x02 unsigned; zigzag-decodes to 150.
    let mut buf = ByteCursor::new(vec![0xac, 0x02]);
    assert_eq!(decode_int(&mut buf), Ok(150));
    assert_eq!(buf.pos, 2);
}
