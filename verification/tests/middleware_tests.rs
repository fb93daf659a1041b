use netlab::middleware::{
    slow_read_step, timeout_after_inner, timeout_after_timer, Logging, MyErr, SlowReadStep,
    TimeOut, Timeout, TimeoutError, SLOW_READ_FIRST_DELAY_SECS, SLOW_READ_NEXT_DELAY_MILLIS,
};
use netlab::tasks::PollState;
use std::time::Duration;

#[test]
fn constructors_keep_their_arguments() {
    let l = Logging::new(5u8);
    assert_eq!(l.inner, 5);
    let t = TimeOut::new("svc", 3);
    assert_eq!(*t.inner(), "svc");
    assert_eq!(t.secs(), 3);
    let t2 = Timeout::new(7u32, Duration::from_millis(250));
    assert_eq!(*t2.inner(), 7);
    assert_eq!(t2.timeout(), Duration::from_millis(250));
    let c = t2.clone();
    assert_eq!(c.timeout(), Duration::from_millis(250));
}

#[test]
fn fired_timer_fails_the_request() {
    let r: Option<PollState<Result<u8, TimeoutError<&str>>>> = timeout_after_timer(true);
    assert_eq!(r, Some(PollState::Ready(Err(TimeoutError::Timeout))));
    let r: Option<PollState<Result<u8, TimeoutError<&str>>>> = timeout_after_timer(false);
    assert_eq!(r, None);
}

#[test]
fn inner_answer_passes_through() {
    assert_eq!(
        timeout_after_inner::<u8, &str>(PollState::Pending),
        PollState::Pending
    );
    assert_eq!(
        timeout_after_inner::<u8, &str>(PollState::Ready(Ok(1))),
        PollState::Ready(Ok(1))
    );
    assert_eq!(
        timeout_after_inner::<u8, &str>(PollState::Ready(Err("boom"))),
        PollState::Ready(Err(TimeoutError::ServiceErr("boom")))
    );
}

#[test]
fn readiness_errors_are_wrapped() {
    assert_eq!(TimeoutError::from_ready(Err::<(), _>(3)), Err(TimeoutError::ServiceErr(3)));
    assert_eq!(TimeoutError::<i32>::from_ready(Ok(())), Ok(()));
    assert_eq!(MyErr::from_ready(Err::<(), _>('e')), Err(MyErr::InnerError('e')));
    assert_eq!(MyErr::<char>::from_ready(Ok(())), Ok(()));
}

#[test]
fn timed_outcome_mapping() {
    assert_eq!(MyErr::<&str>::from_outcome::<u8>(None), Err(MyErr::Timeout));
    assert_eq!(MyErr::<&str>::from_outcome(Some(Ok(9u8))), Ok(9));
    assert_eq!(MyErr::from_outcome::<u8>(Some(Err("x"))), Err(MyErr::InnerError("x")));
}

#[test]
fn error_messages() {
    assert_eq!(TimeoutError::<()>::Timeout.message(), "request timed out");
    assert_eq!(MyErr::<()>::Timeout.message(), "ERROR");
}

#[test]
fn slow_reader_waits_then_reads() {
    assert_eq!(slow_read_step(false), SlowReadStep::Wait);
    assert_eq!(slow_read_step(true), SlowReadStep::ResetAndRead);
    assert_eq!(SLOW_READ_FIRST_DELAY_SECS, 6);
    assert_eq!(SLOW_READ_NEXT_DELAY_MILLIS, 100);
}
