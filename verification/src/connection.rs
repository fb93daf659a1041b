//! The read side of a frame connection: a growable buffer of received bytes, a
//! cursor marking how far it is filled, and the parsing of whole frames off its
//! front with the frame parser of mini-redis.
use vstd::prelude::*;
use vstd::slice::slice_subrange;
use crate::frame_path::check_overflows;
use crate::resp::RespFrame;

verus! {

#[verifier::external_type_specification]
#[verifier::external_body]
pub struct ExBytesMut(bytes::BytesMut);

#[verifier::external_type_specification]
#[verifier::external_body]
pub struct ExMiniRedisFrame(mini_redis::Frame);

// ---------------------------------------------------------------------------
// BytesMut
// ---------------------------------------------------------------------------

/// The bytes a `BytesMut` holds, from its start to its length.
pub uninterp spec fn bytes_mut_contents(buf: bytes::BytesMut) -> Seq<u8>;

/// `BytesMut::with_capacity`: an empty buffer. A capacity above `isize::MAX`
/// panics, which `requires` rules out.
#[verifier::external_body]
fn bytes_mut_with_capacity(capacity: usize) -> (r: bytes::BytesMut)
    requires
        capacity <= isize::MAX,
    ensures
        bytes_mut_contents(r) == Seq::<u8>::empty(),
{
    bytes::BytesMut::with_capacity(capacity)
}

/// `BytesMut::len`: the number of bytes held.
#[verifier::external_body]
fn bytes_mut_len(buf: &bytes::BytesMut) -> (r: usize)
    ensures
        r == bytes_mut_contents(*buf).len(),
{
    buf.len()
}

/// `BytesMut::resize`: truncates to `new_len`, or extends with copies of `value`.
/// It panics when the new capacity exceeds `isize::MAX`, which `requires` rules out.
#[verifier::external_body]
fn bytes_mut_resize(buf: &mut bytes::BytesMut, new_len: usize, value: u8)
    requires
        new_len <= isize::MAX,
    ensures
        bytes_mut_contents(*final(buf)) == if new_len <= bytes_mut_contents(*old(buf)).len() {
            bytes_mut_contents(*old(buf)).subrange(0, new_len as int)
        } else {
            bytes_mut_contents(*old(buf)) + Seq::new(
                (new_len - bytes_mut_contents(*old(buf)).len()) as nat,
                |i: int| value,
            )
        },
{
    buf.resize(new_len, value)
}

/// `Buf::advance` on a `BytesMut`: drops the first `count` bytes. It panics when
/// fewer are held, which `requires` rules out.
#[verifier::external_body]
fn bytes_mut_advance(buf: &mut bytes::BytesMut, count: usize)
    requires
        count <= bytes_mut_contents(*old(buf)).len(),
    ensures
        bytes_mut_contents(*final(buf)) == bytes_mut_contents(*old(buf)).subrange(
            count as int,
            bytes_mut_contents(*old(buf)).len() as int,
        ),
{
    bytes::Buf::advance(buf, count)
}

/// `&buf[..]` on a `BytesMut`: all the bytes held.
#[verifier::external_body]
fn bytes_mut_as_slice(buf: &bytes::BytesMut) -> (r: &[u8])
    ensures
        r@ == bytes_mut_contents(*buf),
{
    &buf[..]
}

/// `buf[pos..pos + data.len()].copy_from_slice(data)` on a `BytesMut`: overwrites
/// bytes in place. Slicing past the end panics, which `requires` rules out.
#[verifier::external_body]
fn bytes_mut_copy_at(buf: &mut bytes::BytesMut, pos: usize, data: &[u8])
    requires
        pos + data@.len() <= bytes_mut_contents(*old(buf)).len(),
    ensures
        bytes_mut_contents(*final(buf)) == bytes_mut_contents(*old(buf)).subrange(0, pos as int)
            + data@ + bytes_mut_contents(*old(buf)).subrange(
            pos + data@.len(),
            bytes_mut_contents(*old(buf)).len() as int,
        ),
{
    buf[pos..pos + data.len()].copy_from_slice(data)
}

// ---------------------------------------------------------------------------
// The frame parser of mini-redis
// ---------------------------------------------------------------------------

/// Why `Frame::check` rejected a buffer.
#[derive(Debug)]
pub enum CheckFailure {
    /// The buffer holds only the start of a frame.
    Incomplete,
    /// The buffer does not start with a well-formed frame; the parser's message.
    Invalid(String),
}

/// What `mini_redis::Frame::check` reports for a buffer: the length of the whole
/// frame at its start, or why there is none.
pub uninterp spec fn frame_check_result(buf: Seq<u8>) -> Result<nat, CheckFailure>;

/// What `mini_redis::Frame::parse` gives for a buffer that starts with a whole
/// frame: the frame, or the parser's message.
pub uninterp spec fn frame_parse_result(buf: Seq<u8>) -> Result<RespFrame, Seq<char>>;

/// Converts a frame of mini-redis into the library's frame, variant by variant.
#[verifier::external_body]
fn resp_from_mini_redis(frame: mini_redis::Frame) -> RespFrame {
    match frame {
        mini_redis::Frame::Simple(s) => RespFrame::Simple(s),
        mini_redis::Frame::Error(s) => RespFrame::Error(s),
        mini_redis::Frame::Integer(n) => RespFrame::Integer(n),
        mini_redis::Frame::Bulk(b) => RespFrame::Bulk(b.to_vec()),
        mini_redis::Frame::Null => RespFrame::Null,
        mini_redis::Frame::Array(v) => RespFrame::Array(
            v.into_iter().map(resp_from_mini_redis).collect(),
        ),
    }
}

/// `mini_redis::Frame::check` on a cursor over `buf` at position 0: the position it
/// stops at when a whole frame is there, which lies within the buffer and past the
/// type byte. On a bulk length of `usize::MAX - 1` or `usize::MAX` the checker
/// overflows and panics; `requires` rules out the buffers on which its walk reaches
/// such a length. Arrays nested deeply enough to exhaust the stack are not ruled out.
#[verifier::external_body]
fn frame_check(buf: &[u8]) -> (r: Result<usize, CheckFailure>)
    requires
        !check_overflows(buf@),
    ensures
        match frame_check_result(buf@) {
            Ok(n) => 1 <= n <= buf@.len() && r == Ok::<usize, CheckFailure>(n as usize),
            Err(e) => r == Err::<usize, CheckFailure>(e),
        },
{
    let mut cursor = std::io::Cursor::new(buf);
    match mini_redis::Frame::check(&mut cursor) {
        Ok(()) => Ok(cursor.position() as usize),
        Err(mini_redis::frame::Error::Incomplete) => Err(CheckFailure::Incomplete),
        Err(e) => Err(CheckFailure::Invalid(e.to_string())),
    }
}

/// `mini_redis::Frame::parse` on a cursor over `buf` at position 0, converted to the
/// library's frame, or the error's message. Called only where `Frame::check` found
/// a whole frame without overflowing: the parser then takes the same path and neither
/// panics nor overflows.
#[verifier::external_body]
fn frame_parse(buf: &[u8]) -> (r: Result<RespFrame, String>)
    requires
        frame_check_result(buf@) is Ok,
        !check_overflows(buf@),
    ensures
        match r {
            Ok(f) => frame_parse_result(buf@) == Ok::<RespFrame, Seq<char>>(f),
            Err(m) => frame_parse_result(buf@) == Err::<RespFrame, Seq<char>>(m@),
        },
{
    let mut cursor = std::io::Cursor::new(buf);
    match mini_redis::Frame::parse(&mut cursor) {
        Ok(frame) => Ok(resp_from_mini_redis(frame)),
        Err(e) => Err(e.to_string()),
    }
}

// ---------------------------------------------------------------------------
// The frame buffer of a connection
// ---------------------------------------------------------------------------

/// Why reading a frame failed.
#[derive(Debug)]
pub enum FrameError {
    /// The bytes are not a well-formed frame; the parser's message.
    Protocol(String),
}

/// What a connection does once `Frame::check` has looked at its buffer.
#[derive(Debug)]
pub enum CheckDecision {
    /// A whole frame of this many bytes is there: parse it.
    Parse(usize),
    /// More bytes are needed.
    NeedMore,
    /// The buffer holds no well-formed frame.
    Fail(FrameError),
}

/// What the connection does after reading into its buffer.
#[derive(Debug, PartialEq, Eq, Structural)]
pub enum ReadEnd {
    /// Bytes arrived: try to parse again.
    Continue,
    /// The peer closed the connection between frames: there is no frame.
    Closed,
    /// The peer closed the connection in the middle of a frame.
    Reset,
}

/// Initial length of a connection's buffer.
pub const INITIAL_CAPACITY: usize = 4096;

/// The buffer of a connection: a run of bytes whose front, up to the cursor, holds
/// what was received and not yet handed out as frames.
pub struct FrameBuffer {
    buffer: bytes::BytesMut,
    cursor: usize,
}

/// What `parse_frame` returns for a buffer: the frame, no frame yet, or the
/// parser's message; and how many bytes it takes off the front.
pub open spec fn parse_outcome(buf: Seq<u8>) -> (Result<Option<RespFrame>, Seq<char>>, nat) {
    match frame_check_result(buf) {
        Ok(n) => match frame_parse_result(buf) {
            Ok(f) => (Ok(Some(f)), n),
            Err(m) => (Err(m), 0),
        },
        Err(CheckFailure::Incomplete) => (Ok(None), 0),
        Err(CheckFailure::Invalid(m)) => (Err(m@), 0),
    }
}

/// What to do with the result of `Frame::check`.
pub fn decide_check(checked: Result<usize, CheckFailure>) -> (r: CheckDecision)
    ensures
        match checked {
            Ok(n) => r == CheckDecision::Parse(n),
            Err(CheckFailure::Incomplete) => r is NeedMore,
            Err(CheckFailure::Invalid(m)) => r matches CheckDecision::Fail(
                FrameError::Protocol(m2),
            ) && m2@ == m@,
        },
{
    match checked {
        Ok(n) => CheckDecision::Parse(n),
        Err(CheckFailure::Incomplete) => CheckDecision::NeedMore,
        Err(CheckFailure::Invalid(m)) => CheckDecision::Fail(FrameError::Protocol(m)),
    }
}

/// What to do with the result of `Frame::parse` on a buffer whose first `len`
/// bytes `Frame::check` found to be a whole frame.
pub fn decide_parse(len: usize, parsed: Result<RespFrame, String>) -> (r: Result<
    Option<(RespFrame, usize)>,
    FrameError,
>)
    ensures
        match parsed {
            Ok(f) => r == Ok::<Option<(RespFrame, usize)>, FrameError>(Some((f, len))),
            Err(m) => r matches Err(FrameError::Protocol(m2)) && m2@ == m@,
        },
{
    match parsed {
        Ok(frame) => Ok(Some((frame, len))),
        Err(m) => Err(FrameError::Protocol(m)),
    }
}

/// Parses the frame at the start of `buf`, if a whole one is there: the frame and its
/// length in bytes, nothing when more bytes are needed, or the parser's message.
pub fn parse_frame_bytes(buf: &[u8]) -> (r: Result<Option<(RespFrame, usize)>, FrameError>)
    requires
        !check_overflows(buf@),
    ensures
        match parse_outcome(buf@) {
            (Ok(Some(f)), n) => n <= buf@.len() && r == Ok::<
                Option<(RespFrame, usize)>,
                FrameError,
            >(Some((f, n as usize))),
            (Ok(None), _) => r == Ok::<Option<(RespFrame, usize)>, FrameError>(None),
            (Err(m), _) => r matches Err(FrameError::Protocol(m2)) && m2@ == m,
        },
        match frame_check_result(buf@) {
            Ok(n) => match frame_parse_result(buf@) {
                Ok(f) => r == Ok::<Option<(RespFrame, usize)>, FrameError>(Some((f, n as usize))),
                Err(m) => r matches Err(FrameError::Protocol(m2)) && m2@ == m,
            },
            Err(CheckFailure::Incomplete) => r == Ok::<Option<(RespFrame, usize)>, FrameError>(
                None,
            ),
            Err(CheckFailure::Invalid(m)) => r matches Err(FrameError::Protocol(m2)) && m2@ == m@,
        },
        r matches Ok(Some((_, used))) ==> 1 <= used <= buf@.len(),
{
    let checked = frame_check(buf);
    proof {
        if let Ok(n) = frame_check_result(buf@) {
            assert(buf@.len() == buf.len());
            assert(checked == Ok::<usize, CheckFailure>(n as usize));
            assert(n as usize == n);
        }
    }
    match decide_check(checked) {
        CheckDecision::Parse(len) => decide_parse(len, frame_parse(buf)),
        CheckDecision::NeedMore => Ok(None),
        CheckDecision::Fail(e) => Err(e),
    }
}

/// The length a full buffer of `len` bytes grows to: twice as long, or 4096 bytes
/// when it is empty.
pub open spec fn grown_len(len: nat) -> nat {
    if len == 0 {
        INITIAL_CAPACITY as nat
    } else {
        2 * len
    }
}

impl FrameBuffer {
    /// All the bytes of the buffer, filled or not.
    pub closed spec fn contents(&self) -> Seq<u8> {
        bytes_mut_contents(self.buffer)
    }

    /// How many bytes at the front of the buffer reads have filled.
    pub closed spec fn spec_cursor(&self) -> nat {
        self.cursor as nat
    }

    /// The bytes received and not yet handed out as frames.
    pub open spec fn filled(&self) -> Seq<u8> {
        self.contents().subrange(0, self.spec_cursor() as int)
    }

    /// The buffer holds at most `isize::MAX` bytes, and the cursor lies within it.
    pub open spec fn wf(&self) -> bool {
        &&& self.contents().len() <= isize::MAX
        &&& self.spec_cursor() <= self.contents().len()
    }

    /// An empty buffer with room for 4096 bytes, its cursor at the start.
    pub fn new() -> (r: Self)
        ensures
            r.wf(),
            r.contents() == Seq::<u8>::empty(),
            r.spec_cursor() == 0,
    {
        FrameBuffer { buffer: bytes_mut_with_capacity(INITIAL_CAPACITY), cursor: 0 }
    }

    /// The bytes received and not yet handed out as frames.
    pub fn filled_bytes(&self) -> (r: &[u8])
        requires
            self.wf(),
        ensures
            r@ == self.filled(),
    {
        slice_subrange(bytes_mut_as_slice(&self.buffer), 0, self.cursor)
    }

    /// The number of bytes of the buffer, filled or not.
    pub fn len(&self) -> (r: usize)
        ensures
            r == self.contents().len(),
    {
        bytes_mut_len(&self.buffer)
    }

    /// How many bytes at the front of the buffer reads have filled.
    pub fn cursor(&self) -> (r: usize)
        ensures
            r == self.spec_cursor(),
    {
        self.cursor
    }

    /// Whether checking the filled bytes for a frame would overflow the checker.
    pub fn parse_would_overflow(&self) -> (r: bool)
        requires
            self.wf(),
        ensures
            r == check_overflows(self.filled()),
    {
        crate::frame_path::find_check_overflow(self.filled_bytes())
    }

    /// Takes one whole frame off the front of the filled bytes, if one is there; the
    /// bytes after it move to the front, and the buffer keeps its length.
    pub fn parse_frame(&mut self) -> (r: Result<Option<RespFrame>, FrameError>)
        requires
            old(self).wf(),
            !check_overflows(old(self).filled()),
        ensures
            final(self).wf(),
            final(self).contents().len() == old(self).contents().len(),
            ({
                let (out, used) = parse_outcome(old(self).filled());
                &&& final(self).filled() == old(self).filled().subrange(
                    used as int,
                    old(self).filled().len() as int,
                )
                &&& match out {
                    Ok(Some(f)) => r == Ok::<Option<RespFrame>, FrameError>(Some(f)),
                    Ok(None) => r == Ok::<Option<RespFrame>, FrameError>(None),
                    Err(m) => r matches Err(FrameError::Protocol(m2)) && m2@ == m,
                }
            }),
            match frame_check_result(old(self).filled()) {
                Ok(n) => match frame_parse_result(old(self).filled()) {
                    Ok(f) => {
                        &&& r == Ok::<Option<RespFrame>, FrameError>(Some(f))
                        &&& final(self).filled() == old(self).filled().subrange(
                            n as int,
                            old(self).filled().len() as int,
                        )
                    },
                    Err(m) => {
                        &&& r matches Err(FrameError::Protocol(m2)) && m2@ == m
                        &&& final(self).filled() == old(self).filled()
                    },
                },
                Err(CheckFailure::Incomplete) => {
                    &&& r == Ok::<Option<RespFrame>, FrameError>(None)
                    &&& final(self).filled() == old(self).filled()
                },
                Err(CheckFailure::Invalid(m)) => {
                    &&& r matches Err(FrameError::Protocol(m2)) && m2@ == m@
                    &&& final(self).filled() == old(self).filled()
                },
            },
    {
        let ghost before = self.filled();
        let parsed = parse_frame_bytes(self.filled_bytes());
        match parsed {
            Ok(Some((frame, used))) => {
                let len = bytes_mut_len(&self.buffer);
                bytes_mut_advance(&mut self.buffer, used);
                bytes_mut_resize(&mut self.buffer, len, 0);
                self.cursor = self.cursor - used;
                assert(self.filled() =~= before.subrange(used as int, before.len() as int));
                Ok(Some(frame))
            },
            Ok(None) => {
                assert(before.subrange(0, before.len() as int) =~= before);
                Ok(None)
            },
            Err(e) => {
                assert(before.subrange(0, before.len() as int) =~= before);
                Err(e)
            },
        }
    }

    /// Makes room for a read when the buffer is filled to its end, by doubling its
    /// length with zeros (to 4096 bytes when it is empty), and returns how many bytes
    /// the next read may fill. Doubling past `isize::MAX` bytes overflows, which
    /// `requires` rules out.
    pub fn prepare_read(&mut self) -> (room: usize)
        requires
            old(self).wf(),
            old(self).spec_cursor() == old(self).contents().len() ==> 2 * old(self).spec_cursor()
                <= isize::MAX,
        ensures
            final(self).wf(),
            final(self).spec_cursor() == old(self).spec_cursor(),
            final(self).filled() == old(self).filled(),
            final(self).contents().len() == if old(self).spec_cursor() == old(self).contents().len() {
                grown_len(old(self).contents().len())
            } else {
                old(self).contents().len()
            },
            old(self).spec_cursor() == old(self).contents().len() ==> final(self).contents().len()
                == if old(self).contents().len() == 0 {
                4096
            } else {
                2 * old(self).contents().len()
            },
            old(self).spec_cursor() < old(self).contents().len() ==> final(self).contents()
                == old(self).contents(),
            room == final(self).contents().len() - final(self).spec_cursor(),
            room > 0,
    {
        let len = bytes_mut_len(&self.buffer);
        if len == self.cursor {
            let grown = if self.cursor == 0 {
                INITIAL_CAPACITY
            } else {
                self.cursor * 2
            };
            bytes_mut_resize(&mut self.buffer, grown, 0);
            assert(self.filled() =~= old(self).filled());
        }
        bytes_mut_len(&self.buffer) - self.cursor
    }

    /// Takes in the bytes a read delivered: they are written at the cursor, which
    /// moves past them. No bytes means the peer closed the connection: between
    /// frames when nothing was left unread, in the middle of one otherwise.
    pub fn after_read(&mut self, data: &[u8]) -> (r: ReadEnd)
        requires
            old(self).wf(),
            old(self).spec_cursor() + data@.len() <= old(self).contents().len(),
        ensures
            final(self).wf(),
            final(self).contents().len() == old(self).contents().len(),
            data@.len() == 0 ==> {
                &&& final(self).filled() == old(self).filled()
                &&& r == if old(self).filled().len() == 0 {
                    ReadEnd::Closed
                } else {
                    ReadEnd::Reset
                }
            },
            data@.len() > 0 ==> {
                &&& r == ReadEnd::Continue
                &&& final(self).filled() == old(self).filled() + data@
            },
    {
        if data.len() == 0 {
            if self.cursor == 0 {
                ReadEnd::Closed
            } else {
                ReadEnd::Reset
            }
        } else {
            bytes_mut_copy_at(&mut self.buffer, self.cursor, data);
            self.cursor = self.cursor + data.len();
            assert(self.filled() =~= old(self).filled() + data@);
            ReadEnd::Continue
        }
    }
}

/// When `Frame::check` finds a whole frame of `n` bytes at the front of a buffer and
/// the parse succeeds, parsing gives that frame and takes exactly those `n` bytes,
/// whatever the frame's kind; the bytes after them stay for the next frame.
pub proof fn lemma_parse_takes_checked_length(buf: Seq<u8>, n: nat, f: RespFrame)
    requires
        frame_check_result(buf) == Ok::<nat, CheckFailure>(n),
        frame_parse_result(buf) == Ok::<RespFrame, Seq<char>>(f),
    ensures
        parse_outcome(buf) == (Ok::<Option<RespFrame>, Seq<char>>(Some(f)), n),
{
}

/// Parsing takes no bytes when more are needed, when the bytes are not a
/// well-formed frame, or when the parse fails: more bytes needed gives no frame, and
/// the other two give the parser's message.
pub proof fn lemma_parse_failure_takes_nothing(buf: Seq<u8>)
    ensures
        frame_check_result(buf) is Err || frame_parse_result(buf) is Err ==> parse_outcome(
            buf,
        ).1 == 0,
        frame_check_result(buf) matches Err(CheckFailure::Incomplete) ==> parse_outcome(buf).0
            == Ok::<Option<RespFrame>, Seq<char>>(None),
        frame_check_result(buf) matches Err(CheckFailure::Invalid(m)) ==> parse_outcome(buf).0
            == Err::<Option<RespFrame>, Seq<char>>(m@),
        frame_check_result(buf) is Ok ==> (frame_parse_result(buf) matches Err(m) ==> parse_outcome(
            buf,
        ).0 == Err::<Option<RespFrame>, Seq<char>>(m)),
{
}

/// No byte is lost or handed out twice: when what was received is what was handed
/// out as frames followed by the filled bytes, it stays so after a read appends to the
/// filled bytes and after a frame takes `used` bytes off their front.
pub proof fn lemma_stream_accounting(
    received: Seq<u8>,
    handed_out: Seq<u8>,
    filled: Seq<u8>,
    data: Seq<u8>,
    used: nat,
)
    requires
        received == handed_out + filled,
        used <= filled.len(),
    ensures
        received + data == handed_out + (filled + data),
        received == (handed_out + filled.subrange(0, used as int)) + filled.subrange(
            used as int,
            filled.len() as int,
        ),
{
    assert(received + data =~= handed_out + (filled + data));
    assert(received =~= (handed_out + filled.subrange(0, used as int)) + filled.subrange(
        used as int,
        filled.len() as int,
    ));
}

} // verus!
