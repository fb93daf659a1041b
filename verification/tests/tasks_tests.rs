use netlab::tasks::{
    receive_step, send_step, CountingFuture, PollState, ReceiveEvent, ReceivePoll, SendEvent,
    SendPoll, Sleep,
};
use std::time::Duration;

#[test]
fn counting_future_is_ready_after_four_polls() {
    let mut f = CountingFuture::new(0);
    for expected in 1..=4 {
        assert_eq!(f.poll_step(), PollState::Pending);
        assert_eq!(f.count(), expected);
    }
    assert_eq!(f.poll_step(), PollState::Ready(()));
    assert_eq!(f.count(), 4);
    assert_eq!(f.poll_step(), PollState::Ready(()));
}

#[test]
fn counting_future_started_at_three() {
    let mut f = CountingFuture::new(3);
    assert_eq!(f.poll_step(), PollState::Pending);
    assert_eq!(f.poll_step(), PollState::Ready(()));
}

#[test]
fn sleep_pending_before_deadline_ready_after() {
    let long = Sleep::new(Duration::from_secs(3600));
    assert_eq!(long.poll(), PollState::Pending);
    let short = Sleep::new(Duration::from_millis(0));
    assert_eq!(short.poll(), PollState::Ready(()));
    assert!(long.has_deadline());
    let never = Sleep::new(Duration::MAX);
    assert!(!never.has_deadline());
    assert_eq!(never.poll(), PollState::Pending);
    assert_eq!(Sleep::outcome(true), PollState::Pending);
    assert_eq!(Sleep::outcome(false), PollState::Ready(()));
}

#[test]
fn receiver_collects_chunks_until_end() {
    let mut buffer = Vec::new();
    assert!(matches!(receive_step(&mut buffer, ReceiveEvent::Busy), ReceivePoll::Pending));
    assert!(matches!(
        receive_step(&mut buffer, ReceiveEvent::Read(b"hel".to_vec())),
        ReceivePoll::Pending
    ));
    assert!(matches!(receive_step(&mut buffer, ReceiveEvent::WouldBlock), ReceivePoll::Pending));
    assert!(matches!(
        receive_step(&mut buffer, ReceiveEvent::Read(b"lo".to_vec())),
        ReceivePoll::Pending
    ));
    match receive_step(&mut buffer, ReceiveEvent::Read(Vec::new())) {
        ReceivePoll::Done(all) => assert_eq!(all, b"hello"),
        other => panic!("{:?}", other),
    }
    assert!(matches!(receive_step(&mut buffer, ReceiveEvent::Failed), ReceivePoll::Failed));
    assert_eq!(buffer, b"hello");
}

#[test]
fn sender_answers() {
    assert_eq!(send_step(SendEvent::Written), SendPoll::Done);
    assert_eq!(send_step(SendEvent::Busy), SendPoll::Pending);
    assert_eq!(send_step(SendEvent::WouldBlock), SendPoll::Pending);
    assert_eq!(send_step(SendEvent::Failed), SendPoll::Failed);
}
