use netlab::kv::{Db, ServerCommand};
use netlab::resp::RespFrame;

fn bulk(s: &str) -> RespFrame {
    RespFrame::Bulk(s.as_bytes().to_vec())
}

fn command(parts: &[&str]) -> RespFrame {
    RespFrame::Array(parts.iter().map(|p| bulk(p)).collect())
}

fn is_ok(f: &RespFrame) -> bool {
    matches!(f, RespFrame::Simple(s) if s == "OK")
}

#[test]
fn set_then_get_returns_value() {
    let mut db = Db::new();
    let r = db.process_frame(&command(&["set", "hello", "world"])).unwrap();
    assert!(is_ok(&r));
    match db.process_frame(&command(&["GET", "hello"])).unwrap() {
        RespFrame::Bulk(v) => assert_eq!(v, b"world"),
        other => panic!("{:?}", other),
    }
}

#[test]
fn get_of_missing_key_is_null() {
    let mut db = Db::new();
    assert!(matches!(db.process_frame(&command(&["get", "nope"])).unwrap(), RespFrame::Null));
}

#[test]
fn second_set_overrides_first() {
    let mut db = Db::new();
    db.apply(ServerCommand::Put { key: "k".to_string(), value: b"1".to_vec() });
    db.apply(ServerCommand::Put { key: "other".to_string(), value: b"x".to_vec() });
    db.apply(ServerCommand::Put { key: "k".to_string(), value: b"2".to_vec() });
    assert_eq!(db.get(&"k".to_string()), Some(b"2".to_vec()));
    assert_eq!(db.get(&"other".to_string()), Some(b"x".to_vec()));
    assert_eq!(db.get(&"missing".to_string()), None);
}

#[test]
fn other_commands_answer_null() {
    let mut db = Db::new();
    let r = db.process_frame(&command(&["ping"])).unwrap();
    assert!(matches!(r, RespFrame::Null));
    let r = db.apply(ServerCommand::Other { description: "x".to_string() });
    assert!(matches!(r, RespFrame::Null));
}

#[test]
fn non_array_frame_is_not_a_command() {
    let mut db = Db::new();
    let err = db.process_frame(&RespFrame::Simple("get".to_string())).unwrap_err();
    assert_eq!(err, "protocol error; expected array, got Simple(\"get\")");
}

#[test]
fn extra_arguments_are_rejected() {
    let mut db = Db::new();
    let err = db.process_frame(&command(&["get", "k", "more"])).unwrap_err();
    assert_eq!(err, "protocol error; expected end of frame, but there was more");
    assert_eq!(db.get(&"k".to_string()), None);
}

#[test]
fn set_with_expiry_is_stored() {
    let mut db = Db::new();
    let r = db.process_frame(&command(&["set", "a", "b", "EX", "10"])).unwrap();
    assert!(is_ok(&r));
    assert_eq!(db.get(&"a".to_string()), Some(b"b".to_vec()));
}

#[test]
fn a_run_of_commands_is_answered_in_order() {
    let mut db = Db::new();
    let frames = vec![
        command(&["get", "a"]),
        command(&["set", "a", "1"]),
        command(&["get", "a"]),
        command(&["set", "a", "2"]),
        command(&["ping"]),
        command(&["get", "a"]),
    ];
    let replies: Vec<RespFrame> = frames.iter().map(|f| db.process_frame(f).unwrap()).collect();
    assert_eq!(replies.len(), 6);
    assert!(matches!(replies[0], RespFrame::Null));
    assert!(is_ok(&replies[1]));
    assert!(matches!(&replies[2], RespFrame::Bulk(v) if v == b"1"));
    assert!(is_ok(&replies[3]));
    assert!(matches!(replies[4], RespFrame::Null));
    assert!(matches!(&replies[5], RespFrame::Bulk(v) if v == b"2"));
}
