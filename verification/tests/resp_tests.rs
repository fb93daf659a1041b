use netlab::resp::{decimal, write_decimal, write_frame, write_frame_without_lengths, RespFrame};

#[test]
fn decimal_digits_of_numbers() {
    assert_eq!(decimal(0), b"0".to_vec());
    assert_eq!(decimal(7), b"7".to_vec());
    assert_eq!(decimal(10), b"10".to_vec());
    assert_eq!(decimal(4096), b"4096".to_vec());
    assert_eq!(decimal(u64::MAX), b"18446744073709551615".to_vec());
}

#[test]
fn write_decimal_writes_every_number() {
    assert_eq!(write_decimal(42), b"42\r\n".to_vec());
    assert_eq!(write_decimal(0), b"0\r\n".to_vec());
    assert_eq!(write_decimal(1_000_000_000_000), b"1000000000000\r\n".to_vec());
    assert_eq!(write_decimal(u64::MAX), b"18446744073709551615\r\n".to_vec());
}

#[test]
fn write_simple_and_error_frames() {
    assert_eq!(write_frame(&RespFrame::Simple("OK".to_string())), b"+OK\r\n".to_vec());
    assert_eq!(write_frame(&RespFrame::Error("ERR bad".to_string())), b"-ERR bad\r\n".to_vec());
    assert_eq!(
        write_frame(&RespFrame::Simple("é".to_string())),
        vec![b'+', 0xC3, 0xA9, b'\r', b'\n']
    );
}

#[test]
fn write_integer_frames() {
    assert_eq!(write_frame(&RespFrame::Integer(0)), b":0\r\n".to_vec());
    assert_eq!(write_frame(&RespFrame::Integer(123_456_789_012)), b":123456789012\r\n".to_vec());
    assert_eq!(
        write_frame(&RespFrame::Integer(u64::MAX)),
        b":18446744073709551615\r\n".to_vec()
    );
}

#[test]
fn write_null_and_bulk_frames() {
    assert_eq!(write_frame(&RespFrame::Null), b"$-1\r\n".to_vec());
    assert_eq!(write_frame(&RespFrame::Bulk(b"abc".to_vec())), b"$3\r\nabc\r\n".to_vec());
    assert_eq!(write_frame(&RespFrame::Bulk(Vec::new())), b"$0\r\n\r\n".to_vec());
}

#[test]
fn write_frames_without_lengths() {
    assert_eq!(write_frame_without_lengths(&RespFrame::Integer(5)), b":".to_vec());
    assert_eq!(write_frame_without_lengths(&RespFrame::Bulk(b"xy".to_vec())), b"$xy\r\n".to_vec());
    assert_eq!(write_frame_without_lengths(&RespFrame::Simple("a".to_string())), b"+a\r\n".to_vec());
    assert_eq!(write_frame_without_lengths(&RespFrame::Null), b"$-1\r\n".to_vec());
}
