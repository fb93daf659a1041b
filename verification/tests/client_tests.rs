use netlab::client::{decode_reply, ReplyError};

#[test]
fn reply_decodes_utf8() {
    assert_eq!(decode_reply(b"Hello client".to_vec()).unwrap(), "Hello client");
    assert_eq!(decode_reply("grüß".as_bytes().to_vec()).unwrap(), "grüß");
    assert_eq!(decode_reply(Vec::new()).unwrap(), "");
}

#[test]
fn reply_rejects_invalid_utf8() {
    assert_eq!(decode_reply(vec![0xFF, 0xFE]).unwrap_err(), ReplyError::InvalidUtf8);
}
