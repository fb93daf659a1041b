//! Service middleware: a logging wrapper, two timeout wrappers and a slowed-down
//! reader, with the decisions their futures take on each poll.
use vstd::prelude::*;
use crate::tasks::PollState;

verus! {

/// The empty server type of the service experiments.
pub struct Server {}

/// The empty request type of the service experiments.
pub struct Request {}

/// The empty response type of the service experiments.
pub struct Response {}

// ---------------------------------------------------------------------------
// Logging
// ---------------------------------------------------------------------------

/// A service that logs each request and how long its answer took.
#[derive(Debug, Clone)]
pub struct Logging<S> {
    pub inner: S,
}

impl<S> Logging<S> {
    /// Wraps `s`.
    pub fn new(s: S) -> (r: Self)
        ensures
            r.inner == s,
    {
        Logging { inner: s }
    }
}

/// The future of a logged request: the inner future, when it started, and the
/// request's method and path.
pub struct LoggingFuture<S> {
    pub inner: S,
    pub start: std::time::Instant,
    pub method: String,
    pub path: String,
}

// ---------------------------------------------------------------------------
// Timeout after a number of seconds
// ---------------------------------------------------------------------------

/// Why a request through `TimeOut` failed.
#[derive(Debug, Clone, PartialEq, Eq, Structural)]
pub enum TimeoutError<E> {
    /// The request took longer than allowed.
    Timeout,
    /// The inner service failed.
    ServiceErr(E),
}

impl<E> TimeoutError<E> {
    /// The error's message.
    pub fn message(&self) -> (r: String)
        ensures
            r@ == seq!['r', 'e', 'q', 'u', 'e', 's', 't', ' ', 't', 'i', 'm', 'e', 'd', ' ', 'o', 'u', 't'],
    {
        let m = String::from_str("request timed out");
        proof {
            reveal_strlit("request timed out");
            assert(m@ =~= seq!['r', 'e', 'q', 'u', 'e', 's', 't', ' ', 't', 'i', 'm', 'e', 'd', ' ', 'o', 'u', 't']);
        }
        m
    }

    /// The readiness of the wrapped service, its error marked as the service's.
    pub fn from_ready(ready: Result<(), E>) -> (r: Result<(), TimeoutError<E>>)
        ensures
            match ready {
                Ok(()) => r is Ok,
                Err(e) => r == Err::<(), TimeoutError<E>>(TimeoutError::ServiceErr(e)),
            },
    {
        match ready {
            Ok(()) => Ok(()),
            Err(e) => Err(TimeoutError::ServiceErr(e)),
        }
    }
}

/// A service whose requests fail once they take longer than `secs` seconds.
#[derive(Clone)]
pub struct TimeOut<S> {
    inner: S,
    secs: u64,
}

impl<S> TimeOut<S> {
    /// The wrapped service.
    pub closed spec fn spec_inner(&self) -> S {
        self.inner
    }

    /// The allowed time, in seconds.
    pub closed spec fn spec_secs(&self) -> u64 {
        self.secs
    }

    /// Wraps `inner`, allowing `secs` seconds per request.
    pub fn new(inner: S, secs: u64) -> (r: Self)
        ensures
            r.spec_inner() == inner,
            r.spec_secs() == secs,
    {
        TimeOut { inner, secs }
    }

    /// The wrapped service.
    pub fn inner(&self) -> (r: &S)
        ensures
            *r == self.spec_inner(),
    {
        &self.inner
    }

    /// The wrapped service, to be changed in place.
    pub fn inner_mut(&mut self) -> (r: &mut S)
        ensures
            *r == old(self).spec_inner(),
            final(self).spec_inner() == *final(r),
            final(self).spec_secs() == old(self).spec_secs(),
    {
        &mut self.inner
    }

    /// The allowed time, in seconds.
    pub fn secs(&self) -> (r: u64)
        ensures
            r == self.spec_secs(),
    {
        self.secs
    }
}

/// The first half of a poll of a timed request: once the timer has fired the
/// request fails with `Timeout`, without polling the inner future; `None` means the
/// inner future is polled next.
pub fn timeout_after_timer<R, E>(timer_fired: bool) -> (r: Option<
    PollState<Result<R, TimeoutError<E>>>,
>)
    ensures
        timer_fired ==> r == Some(PollState::Ready(Err::<R, TimeoutError<E>>(TimeoutError::Timeout))),
        !timer_fired ==> r is None,
{
    if timer_fired {
        Some(PollState::Ready(Err(TimeoutError::Timeout)))
    } else {
        None
    }
}

/// The second half of a poll of a timed request: the inner future's answer, its
/// error marked as the service's.
pub fn timeout_after_inner<R, E>(inner: PollState<Result<R, E>>) -> (r: PollState<
    Result<R, TimeoutError<E>>,
>)
    ensures
        match inner {
            PollState::Pending => r is Pending,
            PollState::Ready(Ok(v)) => r == PollState::Ready(Ok::<R, TimeoutError<E>>(v)),
            PollState::Ready(Err(e)) => r == PollState::Ready(
                Err::<R, TimeoutError<E>>(TimeoutError::ServiceErr(e)),
            ),
        },
{
    match inner {
        PollState::Pending => PollState::Pending,
        PollState::Ready(Ok(v)) => PollState::Ready(Ok(v)),
        PollState::Ready(Err(e)) => PollState::Ready(Err(TimeoutError::ServiceErr(e))),
    }
}

// ---------------------------------------------------------------------------
// Timeout after a duration
// ---------------------------------------------------------------------------

/// `Duration::clone`: a copy of the duration (the type is `Copy`).
pub assume_specification[ <core::time::Duration as Clone>::clone ](d: &core::time::Duration) -> (r: core::time::Duration)
    ensures
        r == *d,
;

/// Why a request through `Timeout` failed.
#[derive(Debug, PartialEq, Eq, Structural)]
pub enum MyErr<T> {
    /// The inner service failed.
    InnerError(T),
    /// The request took longer than allowed.
    Timeout,
}

impl<T> MyErr<T> {
    /// The error's message.
    pub fn message(&self) -> (r: String)
        ensures
            r@ == seq!['E', 'R', 'R', 'O', 'R'],
    {
        let m = String::from_str("ERROR");
        proof {
            reveal_strlit("ERROR");
            assert(m@ =~= seq!['E', 'R', 'R', 'O', 'R']);
        }
        m
    }

    /// The readiness of the wrapped service, its error marked as the inner one.
    pub fn from_ready(ready: Result<(), T>) -> (r: Result<(), MyErr<T>>)
        ensures
            match ready {
                Ok(()) => r is Ok,
                Err(e) => r == Err::<(), MyErr<T>>(MyErr::InnerError(e)),
            },
    {
        match ready {
            Ok(()) => Ok(()),
            Err(e) => Err(MyErr::InnerError(e)),
        }
    }

    /// The answer to a timed request: `None` when the time ran out first, otherwise
    /// the inner answer with its error marked as the inner one.
    pub fn from_outcome<R>(outcome: Option<Result<R, T>>) -> (r: Result<R, MyErr<T>>)
        ensures
            match outcome {
                None => r == Err::<R, MyErr<T>>(MyErr::Timeout),
                Some(Ok(v)) => r == Ok::<R, MyErr<T>>(v),
                Some(Err(e)) => r == Err::<R, MyErr<T>>(MyErr::InnerError(e)),
            },
    {
        match outcome {
            None => Err(MyErr::Timeout),
            Some(Ok(v)) => Ok(v),
            Some(Err(e)) => Err(MyErr::InnerError(e)),
        }
    }
}

/// A service whose requests fail once they take longer than a given duration.
#[derive(Debug, Clone)]
pub struct Timeout<S> {
    inner: S,
    timeout: std::time::Duration,
}

impl<S> Timeout<S> {
    /// The wrapped service.
    pub closed spec fn spec_inner(&self) -> S {
        self.inner
    }

    /// The allowed time.
    pub closed spec fn spec_timeout(&self) -> std::time::Duration {
        self.timeout
    }

    /// Wraps `inner`, allowing `timeout` per request.
    pub fn new(inner: S, timeout: std::time::Duration) -> (r: Self)
        ensures
            r.spec_inner() == inner,
            r.spec_timeout() == timeout,
    {
        Timeout { inner, timeout }
    }

    /// The wrapped service.
    pub fn inner(&self) -> (r: &S)
        ensures
            *r == self.spec_inner(),
    {
        &self.inner
    }

    /// The wrapped service, to be changed in place.
    pub fn inner_mut(&mut self) -> (r: &mut S)
        ensures
            *r == old(self).spec_inner(),
            final(self).spec_inner() == *final(r),
            final(self).spec_timeout() == old(self).spec_timeout(),
    {
        &mut self.inner
    }

    /// The allowed time.
    pub fn timeout(&self) -> (r: std::time::Duration)
        ensures
            r == self.spec_timeout(),
    {
        self.timeout
    }
}

// ---------------------------------------------------------------------------
// A reader that waits before each read
// ---------------------------------------------------------------------------

/// Seconds a slowed reader waits before its first read.
pub const SLOW_READ_FIRST_DELAY_SECS: u64 = 6;

/// Milliseconds a slowed reader waits before each later read.
pub const SLOW_READ_NEXT_DELAY_MILLIS: u64 = 100;

/// What a slowed reader does on a poll.
#[derive(Debug, PartialEq, Eq, Structural)]
pub enum SlowReadStep {
    /// The wait is not over: pending.
    Wait,
    /// The wait is over: restart it for 100 ms and read from the inner reader.
    ResetAndRead,
}

/// What a slowed reader does, given whether its wait is over.
pub fn slow_read_step(sleep_done: bool) -> (r: SlowReadStep)
    ensures
        r == if sleep_done {
            SlowReadStep::ResetAndRead
        } else {
            SlowReadStep::Wait
        },
{
    if sleep_done {
        SlowReadStep::ResetAndRead
    } else {
        SlowReadStep::Wait
    }
}

} // verus!
