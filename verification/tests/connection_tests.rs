use netlab::connection::{
    decide_check, decide_parse, parse_frame_bytes, CheckDecision, CheckFailure,
    FrameBuffer, FrameError, ReadEnd,
};
use netlab::frame_path::find_check_overflow;
use netlab::resp::RespFrame;

fn simple(f: &RespFrame) -> &str {
    match f {
        RespFrame::Simple(s) => s,
        other => panic!("not a simple frame: {:?}", other),
    }
}

#[test]
fn parse_whole_simple_frame() {
    let (frame, len) = parse_frame_bytes(b"+OK\r\nrest").unwrap().unwrap();
    assert_eq!(simple(&frame), "OK");
    assert_eq!(len, 5);
}

#[test]
fn parse_needs_more_bytes() {
    assert!(parse_frame_bytes(b"").unwrap().is_none());
    assert!(parse_frame_bytes(b"+OK").unwrap().is_none());
    assert!(parse_frame_bytes(b"$5\r\nab").unwrap().is_none());
    assert!(parse_frame_bytes(b"*2\r\n$3\r\nget\r\n").unwrap().is_none());
}

#[test]
fn parse_command_array() {
    let bytes = b"*2\r\n$3\r\nget\r\n$3\r\nfoo\r\n";
    let (frame, len) = parse_frame_bytes(bytes).unwrap().unwrap();
    assert_eq!(len, bytes.len());
    match frame {
        RespFrame::Array(items) => {
            assert_eq!(items.len(), 2);
            match (&items[0], &items[1]) {
                (RespFrame::Bulk(a), RespFrame::Bulk(b)) => {
                    assert_eq!(a, b"get");
                    assert_eq!(b, b"foo");
                }
                other => panic!("unexpected items {:?}", other),
            }
        }
        other => panic!("not an array: {:?}", other),
    }
}

#[test]
fn parse_integer_null_and_error_frames() {
    match parse_frame_bytes(b":1234\r\n").unwrap().unwrap() {
        (RespFrame::Integer(n), 7) => assert_eq!(n, 1234),
        other => panic!("{:?}", other),
    }
    match parse_frame_bytes(b"$-1\r\n").unwrap().unwrap() {
        (RespFrame::Null, 5) => {}
        other => panic!("{:?}", other),
    }
    match parse_frame_bytes(b"-ERR x\r\n").unwrap().unwrap() {
        (RespFrame::Error(s), 8) => assert_eq!(s, "ERR x"),
        other => panic!("{:?}", other),
    }
}

#[test]
fn parse_rejects_bad_type_byte() {
    match parse_frame_bytes(b"!x\r\n") {
        Err(FrameError::Protocol(m)) => {
            assert_eq!(m, "protocol error; invalid frame type byte `33`")
        }
        other => panic!("{:?}", other),
    }
}

#[test]
fn parse_rejects_bad_null_after_check() {
    match parse_frame_bytes(b"$-x\r\n") {
        Err(FrameError::Protocol(m)) => assert_eq!(m, "protocol error; invalid frame format"),
        other => panic!("{:?}", other),
    }
}

#[test]
fn decisions_on_outside_results() {
    match decide_check(Ok(9)) {
        CheckDecision::Parse(9) => {}
        other => panic!("{:?}", other),
    }
    assert!(matches!(
        decide_check(Err(CheckFailure::Incomplete)),
        CheckDecision::NeedMore
    ));
    match decide_check(Err(CheckFailure::Invalid("bad".to_string()))) {
        CheckDecision::Fail(FrameError::Protocol(m)) => assert_eq!(m, "bad"),
        other => panic!("{:?}", other),
    }
    match decide_parse(4, Ok(RespFrame::Null)) {
        Ok(Some((RespFrame::Null, 4))) => {}
        other => panic!("{:?}", other),
    }
    match decide_parse(4, Err("oops".to_string())) {
        Err(FrameError::Protocol(m)) => assert_eq!(m, "oops"),
        other => panic!("{:?}", other),
    }
}

#[test]
fn overflow_is_found_only_on_the_checker_path() {
    assert!(find_check_overflow(b"$18446744073709551615\r\nx"));
    assert!(find_check_overflow(b"*1\r\n$0018446744073709551614\r\n"));
    assert!(find_check_overflow(b"*2\r\n+a\r\n$18446744073709551614\r\n"));
    assert!(!find_check_overflow(b"$18446744073709551613\r\n"));
    assert!(!find_check_overflow(b"$18446744073709551616\r\n"));
    assert!(!find_check_overflow(b"$23\r\n$18446744073709551615\r\n\r\n"));
    assert!(!find_check_overflow(b"+OK\r\n$18446744073709551615\r\n"));
    assert!(!find_check_overflow(b"+OK"));
    assert!(!find_check_overflow(b""));
}

#[test]
fn frames_payload_with_dollar_number_parses() {
    let bytes = b"$23\r\n$18446744073709551615\r\n\r\n";
    match parse_frame_bytes(bytes).unwrap().unwrap() {
        (RespFrame::Bulk(b), n) => {
            assert_eq!(b, b"$18446744073709551615\r\n".to_vec());
            assert_eq!(n, bytes.len());
        }
        other => panic!("{:?}", other),
    }
}

#[test]
fn fresh_buffer_has_room_and_reports_clean_close() {
    let mut fb = FrameBuffer::new();
    assert_eq!(fb.len(), 0);
    assert_eq!(fb.cursor(), 0);
    assert!(fb.filled_bytes().is_empty());
    assert!(!fb.parse_would_overflow());
    assert!(fb.parse_frame().unwrap().is_none());
    assert_eq!(fb.prepare_read(), 4096);
    assert_eq!(fb.len(), 4096);
    assert_eq!(fb.after_read(&[]), ReadEnd::Closed);
}

#[test]
fn frames_come_out_once_in_order() {
    let mut fb = FrameBuffer::new();
    let room = fb.prepare_read();
    let sent = b"+one\r\n:2\r\n$5\r\nthr";
    assert!(sent.len() <= room);
    assert_eq!(fb.after_read(sent), ReadEnd::Continue);
    assert_eq!(simple(&fb.parse_frame().unwrap().unwrap()), "one");
    assert!(matches!(fb.parse_frame().unwrap().unwrap(), RespFrame::Integer(2)));
    assert!(fb.parse_frame().unwrap().is_none());
    assert_eq!(fb.filled_bytes(), b"$5\r\nthr");
    fb.prepare_read();
    assert_eq!(fb.after_read(b"ee\r\n"), ReadEnd::Continue);
    match fb.parse_frame().unwrap().unwrap() {
        RespFrame::Bulk(b) => assert_eq!(b, b"three"),
        other => panic!("{:?}", other),
    }
    assert!(fb.filled_bytes().is_empty());
    assert_eq!(fb.len(), 4096);
    assert_eq!(fb.after_read(&[]), ReadEnd::Closed);
}

#[test]
fn close_in_the_middle_of_a_frame_is_a_reset() {
    let mut fb = FrameBuffer::new();
    fb.prepare_read();
    assert_eq!(fb.after_read(b"+partial"), ReadEnd::Continue);
    assert!(fb.parse_frame().unwrap().is_none());
    assert_eq!(fb.after_read(&[]), ReadEnd::Reset);
}

#[test]
fn full_buffer_doubles() {
    let mut fb = FrameBuffer::new();
    let room = fb.prepare_read();
    let data = vec![b'x'; room];
    assert_eq!(fb.after_read(&data), ReadEnd::Continue);
    assert_eq!(fb.prepare_read(), 4096);
    assert_eq!(fb.len(), 8192);
    assert_eq!(fb.filled_bytes(), &data[..]);
}
