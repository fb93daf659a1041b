//! The decisions of the hand-written futures of the small async runtime: each poll
//! turns what the future observed into its answer, `Ready` or `Pending` (after which
//! the future asks to be woken again).
use vstd::prelude::*;
use crate::bytes_util::append_bytes;

verus! {

#[verifier::external_type_specification]
#[verifier::external_body]
pub struct ExInstant(std::time::Instant);

/// The answer to one poll of a future.
#[derive(Debug, PartialEq, Eq, Structural)]
pub enum PollState<T> {
    Ready(T),
    Pending,
}

// ---------------------------------------------------------------------------
// A future that counts to four
// ---------------------------------------------------------------------------

/// The count at which a `CountingFuture` is done.
pub const COUNT_DONE: i32 = 4;

/// A future that is ready once it has counted up to four, one step per poll.
pub struct CountingFuture {
    count: i32,
}

/// One poll of a counting future at `count`: whether it is ready, and its count after.
pub open spec fn count_poll(count: int) -> (bool, int) {
    if count == COUNT_DONE {
        (true, count)
    } else {
        (false, count + 1)
    }
}

/// The count after `k` polls that each found the future not yet done.
pub open spec fn count_after(count: int, k: nat) -> int
    decreases k,
{
    if k == 0 {
        count
    } else {
        count_poll(count_after(count, (k - 1) as nat)).1
    }
}

impl CountingFuture {
    /// The current count.
    pub closed spec fn spec_count(&self) -> i32 {
        self.count
    }

    /// A future starting at `count`.
    pub fn new(count: i32) -> (r: Self)
        ensures
            r.spec_count() == count,
    {
        CountingFuture { count }
    }

    /// The current count.
    pub fn count(&self) -> (r: i32)
        ensures
            r == self.spec_count(),
    {
        self.count
    }

    /// One poll: at four the future is ready and stays at four; otherwise its count
    /// goes up by one and it is pending. Counting past `i32::MAX` overflows, which
    /// `requires` rules out.
    pub fn poll_step(&mut self) -> (r: PollState<()>)
        requires
            old(self).spec_count() == COUNT_DONE || old(self).spec_count() < i32::MAX,
        ensures
            final(self).spec_count() == count_poll(old(self).spec_count() as int).1,
            (r is Ready) == count_poll(old(self).spec_count() as int).0,
    {
        if self.count == COUNT_DONE {
            PollState::Ready(())
        } else {
            self.count = self.count + 1;
            PollState::Pending
        }
    }
}

/// A counting future started at any count up to four answers `Pending` to exactly
/// its first `4 - count` polls and `Ready` to the next one.
pub proof fn lemma_counting_finishes(count: int, k: nat)
    requires
        count <= COUNT_DONE,
    ensures
        k < COUNT_DONE - count ==> !count_poll(count_after(count, k)).0,
        k == COUNT_DONE - count ==> count_poll(count_after(count, k)).0,
        k <= COUNT_DONE - count ==> count_after(count, k) == count + k,
    decreases k,
{
    if k > 0 {
        lemma_counting_finishes(count, (k - 1) as nat);
    }
}

// ---------------------------------------------------------------------------
// A future that sleeps until a deadline
// ---------------------------------------------------------------------------

/// `Instant::now`: the current reading of the monotonic clock. Nothing is promised of
/// the value.
#[verifier::external_body]
fn instant_now() -> (r: std::time::Instant) {
    std::time::Instant::now()
}

/// What `Instant::checked_add` gives: the instant `d` after `t`, or `None` when that
/// lies past the clock's range.
pub uninterp spec fn instant_sum(t: std::time::Instant, d: std::time::Duration) -> Option<
    std::time::Instant,
>;

/// What `<` on instants gives: whether `a` comes before `b`.
pub uninterp spec fn instant_lt(a: std::time::Instant, b: std::time::Instant) -> bool;

/// `Instant::checked_add`: the instant `d` after `t`, or `None` when that lies past
/// the clock's range; a function of `t` and `d` alone.
#[verifier::external_body]
fn instant_checked_add(t: std::time::Instant, d: std::time::Duration) -> (r: Option<
    std::time::Instant,
>)
    ensures
        r == instant_sum(t, d),
{
    t.checked_add(d)
}

/// `Instant < Instant`: whether `a` comes before `b`; a function of the two alone.
#[verifier::external_body]
fn instant_before(a: &std::time::Instant, b: &std::time::Instant) -> (r: bool)
    ensures
        r == instant_lt(*a, *b),
{
    *a < *b
}

/// A future that is ready once the clock has reached its deadline: `duration`
/// after the clock reading taken when it was made. A deadline past the clock's range
/// is kept as `None`.
pub struct Sleep {
    duration: std::time::Duration,
    start: std::time::Instant,
    when: Option<std::time::Instant>,
}

impl Sleep {
    /// How long after its start the future becomes ready.
    pub closed spec fn spec_duration(&self) -> std::time::Duration {
        self.duration
    }

    /// The clock reading from which the duration counts.
    pub closed spec fn spec_start(&self) -> std::time::Instant {
        self.start
    }

    /// The deadline, when it lies within the clock's range.
    pub closed spec fn spec_when(&self) -> Option<std::time::Instant> {
        self.when
    }

    /// Whether the deadline lies within the clock's range.
    pub open spec fn spec_has_deadline(&self) -> bool {
        self.spec_when() is Some
    }

    /// A future that starts now and becomes ready `duration` later: it starts at the
    /// clock reading it takes, and its deadline is what `checked_add` gives for that
    /// reading and `duration`. Which reading the clock gives is not known.
    pub fn new(duration: std::time::Duration) -> (r: Self)
        ensures
            r.spec_duration() == duration,
            r.spec_when() == instant_sum(r.spec_start(), duration),
            exists|start: std::time::Instant| #[trigger] instant_sum(start, duration) == r.spec_when(),
    {
        let start = instant_now();
        Sleep::starting_at(start, duration)
    }

    /// A future that starts at the clock reading `start` and becomes ready `duration`
    /// later: its deadline is what `checked_add` gives for `start` and `duration`.
    pub fn starting_at(start: std::time::Instant, duration: std::time::Duration) -> (r: Self)
        ensures
            r.spec_duration() == duration,
            r.spec_start() == start,
            r.spec_when() == instant_sum(start, duration),
    {
        let when = instant_checked_add(start, duration);
        Sleep { duration, start, when }
    }

    /// Whether the deadline lies within the clock's range.
    pub fn has_deadline(&self) -> (r: bool)
        ensures
            r == self.spec_has_deadline(),
    {
        self.when.is_some()
    }

    /// The answer to a poll, given whether the clock still reads before the deadline.
    pub fn outcome(before_deadline: bool) -> (r: PollState<()>)
        ensures
            r is Pending <==> before_deadline,
    {
        if before_deadline {
            PollState::Pending
        } else {
            PollState::Ready(())
        }
    }

    /// One poll: reads the clock, and is pending exactly when the reading comes before
    /// the deadline. Without a deadline in the clock's range it stays pending.
    pub fn poll(&self) -> (r: PollState<()>)
        ensures
            match self.spec_when() {
                None => r is Pending,
                Some(when) => exists|now: std::time::Instant|
                    (r is Pending <==> #[trigger] instant_lt(now, when)),
            },
    {
        match &self.when {
            None => PollState::Pending,
            Some(when) => {
                let now = instant_now();
                let before = instant_before(&now, when);
                assert(before == instant_lt(now, *when));
                Sleep::outcome(before)
            },
        }
    }
}

// ---------------------------------------------------------------------------
// Futures that receive and send over a non-blocking stream
// ---------------------------------------------------------------------------

/// What a poll of a receiving future observed.
#[derive(Debug)]
pub enum ReceiveEvent {
    /// The stream is locked by another task.
    Busy,
    /// A read delivered these bytes; none means the peer closed the stream.
    Read(Vec<u8>),
    /// The read would have blocked.
    WouldBlock,
    /// The read, or switching the stream to non-blocking mode, failed.
    Failed,
}

/// The answer of a receiving future.
#[derive(Debug)]
pub enum ReceivePoll {
    /// Not done; wake the task again.
    Pending,
    /// The peer closed the stream: everything received.
    Done(Vec<u8>),
    /// Reading failed; the error goes to the caller.
    Failed,
}

/// An observation of a receiving future, over the view of its bytes.
pub enum ReceiveEventModel {
    Busy,
    Read(Seq<u8>),
    WouldBlock,
    Failed,
}

/// The answer of a receiving future, over the view of its bytes.
pub enum ReceivePollModel {
    Pending,
    Done(Seq<u8>),
    Failed,
}

impl ReceiveEvent {
    /// The observation over the view of its bytes.
    pub open spec fn model(&self) -> ReceiveEventModel {
        match self {
            ReceiveEvent::Busy => ReceiveEventModel::Busy,
            ReceiveEvent::Read(data) => ReceiveEventModel::Read(data@),
            ReceiveEvent::WouldBlock => ReceiveEventModel::WouldBlock,
            ReceiveEvent::Failed => ReceiveEventModel::Failed,
        }
    }
}

impl ReceivePoll {
    /// The answer over the view of its bytes.
    pub open spec fn model(&self) -> ReceivePollModel {
        match self {
            ReceivePoll::Pending => ReceivePollModel::Pending,
            ReceivePoll::Done(all) => ReceivePollModel::Done(all@),
            ReceivePoll::Failed => ReceivePollModel::Failed,
        }
    }
}

/// One observation of a receiving future that has collected `collected`: what it
/// has collected afterwards and its answer. Bytes read are appended; a read of no
/// bytes means the end of the stream and yields everything collected; a failure
/// ends it; being locked out or blocked leaves it pending.
pub open spec fn receive_model(collected: Seq<u8>, event: ReceiveEventModel) -> (
    Seq<u8>,
    ReceivePollModel,
) {
    match event {
        ReceiveEventModel::Read(data) => if data.len() == 0 {
            (collected, ReceivePollModel::Done(collected))
        } else {
            (collected + data, ReceivePollModel::Pending)
        },
        ReceiveEventModel::Failed => (collected, ReceivePollModel::Failed),
        _ => (collected, ReceivePollModel::Pending),
    }
}

/// What a receiving future has collected after a run of observations, each of
/// which left it pending.
pub open spec fn receive_run(collected: Seq<u8>, events: Seq<ReceiveEventModel>) -> Seq<u8>
    decreases events.len(),
{
    if events.len() == 0 {
        collected
    } else {
        receive_model(receive_run(collected, events.drop_last()), events.last()).0
    }
}

/// The bytes that the reads among `events` delivered, in order.
pub open spec fn bytes_read(events: Seq<ReceiveEventModel>) -> Seq<u8>
    decreases events.len(),
{
    if events.len() == 0 {
        Seq::empty()
    } else {
        bytes_read(events.drop_last()) + match events.last() {
            ReceiveEventModel::Read(data) => data,
            _ => Seq::empty(),
        }
    }
}

/// An observation that leaves a receiving future pending.
pub open spec fn keeps_pending(event: ReceiveEventModel) -> bool {
    match event {
        ReceiveEventModel::Read(data) => data.len() > 0,
        ReceiveEventModel::Failed => false,
        _ => true,
    }
}

/// Takes in one observation of a receiving future that collects into `buffer`, as
/// `receive_model` describes.
pub fn receive_step(buffer: &mut Vec<u8>, event: ReceiveEvent) -> (r: ReceivePoll)
    ensures
        final(buffer)@ == receive_model(old(buffer)@, event.model()).0,
        r.model() == receive_model(old(buffer)@, event.model()).1,
        match event {
            ReceiveEvent::Read(data) => if data@.len() == 0 {
                &&& final(buffer)@ == old(buffer)@
                &&& r matches ReceivePoll::Done(all) && all@ == old(buffer)@
            } else {
                &&& final(buffer)@ == old(buffer)@ + data@
                &&& r is Pending
            },
            ReceiveEvent::Failed => final(buffer)@ == old(buffer)@ && r is Failed,
            _ => final(buffer)@ == old(buffer)@ && r is Pending,
        },
{
    match event {
        ReceiveEvent::Read(data) => {
            if data.len() == 0 {
                let mut all: Vec<u8> = Vec::new();
                append_bytes(&mut all, buffer.as_slice());
                ReceivePoll::Done(all)
            } else {
                append_bytes(buffer, data.as_slice());
                ReceivePoll::Pending
            }
        },
        ReceiveEvent::Failed => ReceivePoll::Failed,
        ReceiveEvent::Busy => ReceivePoll::Pending,
        ReceiveEvent::WouldBlock => ReceivePoll::Pending,
    }
}

/// A read that delivers at least one byte appends it to what was collected and
/// leaves the future pending, waiting for more; only a read of no bytes, the end of
/// the stream, finishes it with everything collected. Being locked out or blocked
/// changes nothing and leaves it pending, and a failure ends it.
pub proof fn lemma_receive_answers(collected: Seq<u8>, data: Seq<u8>, event: ReceiveEventModel)
    ensures
        data.len() > 0 ==> receive_model(collected, ReceiveEventModel::Read(data)) == (
            collected + data,
            ReceivePollModel::Pending,
        ),
        receive_model(collected, ReceiveEventModel::Read(Seq::empty())) == (
            collected,
            ReceivePollModel::Done(collected),
        ),
        receive_model(collected, ReceiveEventModel::Busy) == (
            collected,
            ReceivePollModel::Pending,
        ),
        receive_model(collected, ReceiveEventModel::WouldBlock) == (
            collected,
            ReceivePollModel::Pending,
        ),
        receive_model(collected, ReceiveEventModel::Failed) == (
            collected,
            ReceivePollModel::Failed,
        ),
        keeps_pending(event) ==> receive_model(collected, event).1 == ReceivePollModel::Pending,
{
}

/// A receiving future that stays pending through a run of reads, lock-outs and
/// would-blocks, and then sees the end of the stream, yields exactly the bytes those
/// reads delivered, in order, after what it had collected before.
pub proof fn lemma_receive_collects_in_order(
    collected: Seq<u8>,
    events: Seq<ReceiveEventModel>,
)
    requires
        forall|i: int| 0 <= i < events.len() ==> keeps_pending(#[trigger] events[i]),
    ensures
        receive_run(collected, events) == collected + bytes_read(events),
        receive_model(receive_run(collected, events), ReceiveEventModel::Read(Seq::empty())).1
            == ReceivePollModel::Done(collected + bytes_read(events)),
    decreases events.len(),
{
    if events.len() == 0 {
        assert(collected + Seq::<u8>::empty() =~= collected);
    } else {
        let init = events.drop_last();
        assert forall|i: int| 0 <= i < init.len() implies keeps_pending(#[trigger] init[i]) by {
            assert(init[i] == events[i]);
        }
        lemma_receive_collects_in_order(collected, init);
        assert(keeps_pending(events[events.len() - 1]));
        match events.last() {
            ReceiveEventModel::Read(data) => {
                assert(collected + bytes_read(init) + data =~= collected + (bytes_read(init)
                    + data));
            },
            _ => {
                assert(bytes_read(init) + Seq::<u8>::empty() =~= bytes_read(init));
            },
        }
    }
}

/// What a poll of a sending future observed.
#[derive(Debug, PartialEq, Eq, Structural)]
pub enum SendEvent {
    /// The stream is locked by another task.
    Busy,
    /// The whole buffer was written.
    Written,
    /// The write would have blocked.
    WouldBlock,
    /// The write, or switching the stream to non-blocking mode, failed.
    Failed,
}

/// The answer of a sending future.
#[derive(Debug, PartialEq, Eq, Structural)]
pub enum SendPoll {
    /// Not done; wake the task again.
    Pending,
    /// Everything was sent.
    Done,
    /// Writing failed; the error goes to the caller.
    Failed,
}

/// The answer of a sending future to one observation: done once written, failed on
/// an error, pending when locked out or blocked.
pub fn send_step(event: SendEvent) -> (r: SendPoll)
    ensures
        r == match event {
            SendEvent::Written => SendPoll::Done,
            SendEvent::Failed => SendPoll::Failed,
            SendEvent::Busy => SendPoll::Pending,
            SendEvent::WouldBlock => SendPoll::Pending,
        },
{
    match event {
        SendEvent::Written => SendPoll::Done,
        SendEvent::Failed => SendPoll::Failed,
        SendEvent::Busy => SendPoll::Pending,
        SendEvent::WouldBlock => SendPoll::Pending,
    }
}

} // verus!
