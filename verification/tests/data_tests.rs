use netlab::data::{ByteCursor, Data, DataError};

fn record(field1: u32, field2: i16, text: &str) -> Data {
    Data { field1, field2, field3: text.to_string() }
}

fn expected_bytes(field1: u32, field2: i16, text: &str) -> Vec<u8> {
    let mut v = Vec::new();
    v.extend_from_slice(&field1.to_ne_bytes());
    v.extend_from_slice(&field2.to_ne_bytes());
    v.extend_from_slice(&(text.len() as u32).to_ne_bytes());
    v.extend_from_slice(text.as_bytes());
    v
}

#[test]
fn serialize_lays_out_fields_in_native_order() {
    let bytes = record(0x0102_0304, -2, "hi").serialize();
    assert_eq!(bytes, expected_bytes(0x0102_0304, -2, "hi"));
    assert_eq!(bytes.len(), 12);
    let little = vec![4, 3, 2, 1, 0xFE, 0xFF, 2, 0, 0, 0, b'h', b'i'];
    let big = vec![1, 2, 3, 4, 0xFF, 0xFE, 0, 0, 0, 2, b'h', b'i'];
    assert!(bytes == little || bytes == big);
}

#[test]
fn serialize_counts_string_length_in_bytes() {
    let bytes = record(7, 0, "héllo").serialize();
    assert_eq!(bytes, expected_bytes(7, 0, "héllo"));
    assert_eq!(&bytes[6..10], &6u32.to_ne_bytes());
}

#[test]
fn deserialize_reads_back_serialized_record() {
    let bytes = record(4000, -1234, "Hello server 4000").serialize();
    let mut cursor = ByteCursor::new(&bytes);
    let d = Data::deserialize(&mut cursor).unwrap();
    assert_eq!(d.field1, 4000);
    assert_eq!(d.field2, -1234);
    assert_eq!(d.field3, "Hello server 4000");
    assert_eq!(cursor.position(), bytes.len());
}

#[test]
fn deserialize_reads_consecutive_records() {
    let mut bytes = record(1, 1, "a").serialize();
    bytes.extend(record(2, i16::MIN, "").serialize());
    bytes.extend(record(u32::MAX, i16::MAX, "ünïcode").serialize());
    let mut cursor = ByteCursor::new(&bytes);
    let a = Data::deserialize(&mut cursor).unwrap();
    let b = Data::deserialize(&mut cursor).unwrap();
    let c = Data::deserialize(&mut cursor).unwrap();
    assert_eq!((a.field1, a.field2, a.field3.as_str()), (1, 1, "a"));
    assert_eq!((b.field1, b.field2, b.field3.as_str()), (2, i16::MIN, ""));
    assert_eq!((c.field1, c.field2, c.field3.as_str()), (u32::MAX, i16::MAX, "ünïcode"));
    assert_eq!(Data::deserialize(&mut cursor).unwrap_err(), DataError::UnexpectedEof);
}

#[test]
fn deserialize_reports_truncated_record_and_moves_to_end() {
    let bytes = record(9, 9, "abcdef").serialize();
    for keep in 0..bytes.len() {
        let cut = &bytes[..keep];
        let mut cursor = ByteCursor::new(cut);
        assert_eq!(Data::deserialize(&mut cursor).unwrap_err(), DataError::UnexpectedEof);
        assert_eq!(cursor.position(), keep);
    }
}

#[test]
fn deserialize_rejects_invalid_utf8_after_consuming_it() {
    let mut bytes = Vec::new();
    bytes.extend_from_slice(&5u32.to_ne_bytes());
    bytes.extend_from_slice(&6i16.to_ne_bytes());
    bytes.extend_from_slice(&2u32.to_ne_bytes());
    bytes.extend_from_slice(&[0xC3, 0x28, 0xFF]);
    let mut cursor = ByteCursor::new(&bytes);
    assert_eq!(Data::deserialize(&mut cursor).unwrap_err(), DataError::InvalidUtf8);
    assert_eq!(cursor.position(), 12);
}

#[test]
fn deserialize_from_a_later_position() {
    let mut bytes = vec![0xAA, 0xBB, 0xCC];
    bytes.extend(record(3, 4, "xy").serialize());
    let mut cursor = ByteCursor::new(&bytes);
    cursor.set_position(3);
    let d = Data::deserialize(&mut cursor).unwrap();
    assert_eq!((d.field1, d.field2, d.field3.as_str()), (3, 4, "xy"));
    assert_eq!(cursor.position(), bytes.len());
}

#[test]
fn cursor_read_exact_semantics() {
    let data = [1u8, 2, 3, 4, 5];
    let mut cursor = ByteCursor::new(&data);
    assert_eq!(cursor.read_exact(2), Some(vec![1, 2]));
    assert_eq!(cursor.position(), 2);
    assert_eq!(cursor.read_exact(0), Some(vec![]));
    assert_eq!(cursor.read_exact(4), None);
    assert_eq!(cursor.position(), 5);
    cursor.set_position(9);
    assert_eq!(cursor.read_exact(0), Some(vec![]));
    assert_eq!(cursor.position(), 9);
    assert_eq!(cursor.read_exact(1), None);
    assert_eq!(cursor.position(), 5);
}

#[test]
fn consumed_bytes_are_the_encoding_of_the_read_record() {
    let mut bytes = vec![9u8, 9];
    bytes.extend(record(77, -5, "ok").serialize());
    bytes.extend_from_slice(b"tail");
    let mut cursor = ByteCursor::new(&bytes);
    cursor.set_position(2);
    let d = Data::deserialize(&mut cursor).unwrap();
    let end = cursor.position();
    assert_eq!(d.serialize(), bytes[2..end].to_vec());
    assert_eq!(end, 2 + 10 + 2);
}
