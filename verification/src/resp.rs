//! Frames of the Redis serialization protocol and the bytes a connection writes
//! for each of them.
use vstd::prelude::*;
use vstd::utf8::*;
use crate::bytes_util::append_bytes;

verus! {

/// A frame of the Redis protocol.
#[derive(Debug)]
pub enum RespFrame {
    Simple(String),
    Error(String),
    Integer(u64),
    Bulk(Vec<u8>),
    Null,
    Array(Vec<RespFrame>),
}

// ---------------------------------------------------------------------------
// Decimal numbers
// ---------------------------------------------------------------------------

/// The ASCII decimal digits of `n`, most significant first, with no leading zero.
pub open spec fn decimal_digits(n: nat) -> Seq<u8>
    decreases n,
{
    if n < 10 {
        seq![(48 + n) as u8]
    } else {
        decimal_digits(n / 10).push((48 + n % 10) as u8)
    }
}

/// The number that a sequence of ASCII decimal digits spells.
pub open spec fn digits_value(s: Seq<u8>) -> nat
    decreases s.len(),
{
    if s.len() == 0 {
        0
    } else {
        digits_value(s.drop_last()) * 10 + (s.last() - 48) as nat
    }
}

/// Every byte of `s` is an ASCII decimal digit.
pub open spec fn all_digits(s: Seq<u8>) -> bool {
    forall|i: int| 0 <= i < s.len() ==> 48 <= #[trigger] s[i] <= 57
}

/// `10^k`.
pub open spec fn pow10(k: nat) -> nat
    decreases k,
{
    if k == 0 {
        1
    } else {
        10 * pow10((k - 1) as nat)
    }
}

/// The decimal digits of `n`.
pub fn decimal(n: u64) -> (r: Vec<u8>)
    ensures
        r@ == decimal_digits(n as nat),
    decreases n,
{
    if n < 10 {
        let mut v: Vec<u8> = Vec::new();
        v.push(48u8 + (n as u8));
        v
    } else {
        let mut v = decimal(n / 10);
        v.push(48u8 + ((n % 10) as u8));
        v
    }
}

/// `\r\n`.
pub open spec fn crlf() -> Seq<u8> {
    seq![13u8, 10u8]
}

/// The decimal line a connection writes for a number: its digits and `\r\n`.
pub fn write_decimal(val: u64) -> (r: Vec<u8>)
    ensures
        r@ == decimal_digits(val as nat) + crlf(),
{
    let mut digits = decimal(val);
    digits.push(13u8);
    digits.push(10u8);
    assert(digits@ =~= decimal_digits(val as nat) + crlf());
    digits
}

// ---------------------------------------------------------------------------
// Writing frames
// ---------------------------------------------------------------------------

/// What writing `frame` sends. Arrays are not written.
pub open spec fn frame_bytes(frame: RespFrame) -> Seq<u8> {
    match frame {
        RespFrame::Simple(s) => seq![43u8] + encode_utf8(s@) + crlf(),
        RespFrame::Error(s) => seq![45u8] + encode_utf8(s@) + crlf(),
        RespFrame::Integer(v) => seq![58u8] + decimal_digits(v as nat) + crlf(),
        RespFrame::Null => seq![36u8, 45u8, 49u8, 13u8, 10u8],
        RespFrame::Bulk(b) => seq![36u8] + decimal_digits(b@.len()) + crlf() + b@ + crlf(),
        RespFrame::Array(_) => Seq::empty(),
    }
}

/// The bytes a connection writes for `frame`: `+text\r\n`, `-text\r\n`,
/// `:number\r\n`, `$-1\r\n`, or `$length\r\nbytes\r\n`.
pub fn write_frame(frame: &RespFrame) -> (r: Vec<u8>)
    requires
        !(frame is Array),
    ensures
        r@ == frame_bytes(*frame),
        match *frame {
            RespFrame::Simple(s) => r@ == seq![43u8] + encode_utf8(s@) + crlf(),
            RespFrame::Error(s) => r@ == seq![45u8] + encode_utf8(s@) + crlf(),
            RespFrame::Integer(v) => r@ == seq![58u8] + decimal_digits(v as nat) + crlf(),
            RespFrame::Null => r@ == seq![36u8, 45u8, 49u8, 13u8, 10u8],
            RespFrame::Bulk(b) => r@ == seq![36u8] + decimal_digits(b@.len()) + crlf() + b@
                + crlf(),
            RespFrame::Array(_) => true,
        },
{
    let mut out: Vec<u8> = Vec::new();
    match frame {
        RespFrame::Simple(val) => {
            out.push(43u8);
            append_bytes(&mut out, val.as_str().as_bytes());
            out.push(13u8);
            out.push(10u8);
            assert(out@ =~= seq![43u8] + encode_utf8(val@) + crlf());
        },
        RespFrame::Error(val) => {
            out.push(45u8);
            append_bytes(&mut out, val.as_str().as_bytes());
            out.push(13u8);
            out.push(10u8);
            assert(out@ =~= seq![45u8] + encode_utf8(val@) + crlf());
        },
        RespFrame::Integer(val) => {
            out.push(58u8);
            let line = write_decimal(*val);
            append_bytes(&mut out, line.as_slice());
            assert(out@ =~= seq![58u8] + decimal_digits(*val as nat) + crlf());
        },
        RespFrame::Null => {
            out.push(36u8);
            out.push(45u8);
            out.push(49u8);
            out.push(13u8);
            out.push(10u8);
            assert(out@ =~= seq![36u8, 45u8, 49u8, 13u8, 10u8]);
        },
        RespFrame::Bulk(val) => {
            let len = val.len();
            out.push(36u8);
            let line = write_decimal(len as u64);
            append_bytes(&mut out, line.as_slice());
            append_bytes(&mut out, val.as_slice());
            out.push(13u8);
            out.push(10u8);
            assert(out@ =~= seq![36u8] + decimal_digits(val@.len()) + crlf() + val@ + crlf());
        },
        RespFrame::Array(_) => {},
    }
    out
}

/// What the buffered connection of the `frame` experiment writes for a frame: the
/// same as `frame_bytes` except that an integer frame is only its type byte and a bulk
/// frame carries no length line.
pub open spec fn frame_write_without_lengths(frame: RespFrame) -> Seq<u8> {
    match frame {
        RespFrame::Integer(_) => seq![58u8],
        RespFrame::Bulk(b) => seq![36u8] + b@ + crlf(),
        _ => frame_bytes(frame),
    }
}

/// The bytes the buffered connection writes for `frame`, which never writes a number:
/// `+text\r\n`, `-text\r\n`, `:`, `$-1\r\n`, or `$bytes\r\n`.
pub fn write_frame_without_lengths(frame: &RespFrame) -> (r: Vec<u8>)
    requires
        !(frame is Array),
    ensures
        r@ == frame_write_without_lengths(*frame),
        match *frame {
            RespFrame::Simple(s) => r@ == seq![43u8] + encode_utf8(s@) + crlf(),
            RespFrame::Error(s) => r@ == seq![45u8] + encode_utf8(s@) + crlf(),
            RespFrame::Integer(_) => r@ == seq![58u8],
            RespFrame::Null => r@ == seq![36u8, 45u8, 49u8, 13u8, 10u8],
            RespFrame::Bulk(b) => r@ == seq![36u8] + b@ + crlf(),
            RespFrame::Array(_) => true,
        },
{
    match frame {
        RespFrame::Integer(_) => {
            let mut out: Vec<u8> = Vec::new();
            out.push(58u8);
            assert(out@ =~= seq![58u8]);
            out
        },
        RespFrame::Bulk(val) => {
            let mut out: Vec<u8> = Vec::new();
            out.push(36u8);
            append_bytes(&mut out, val.as_slice());
            out.push(13u8);
            out.push(10u8);
            assert(out@ =~= seq![36u8] + val@ + crlf());
            out
        },
        _ => write_frame(frame),
    }
}

// ---------------------------------------------------------------------------
// Laws of the decimal encoding
// ---------------------------------------------------------------------------

/// The decimal digits of a number are ASCII digits, start with a non-zero digit
/// unless the number is zero, and spell the number back.
pub proof fn lemma_decimal_roundtrip(n: nat)
    ensures
        all_digits(decimal_digits(n)),
        decimal_digits(n).len() >= 1,
        n != 0 ==> decimal_digits(n)[0] != 48u8,
        digits_value(decimal_digits(n)) == n,
    decreases n,
{
    if n < 10 {
        let d = decimal_digits(n);
        assert(d.drop_last() =~= Seq::<u8>::empty());
        assert(d.last() - 48 == n);
        assert(digits_value(d) == digits_value(d.drop_last()) * 10 + (d.last() - 48) as nat);
    } else {
        lemma_decimal_roundtrip(n / 10);
        let d = decimal_digits(n);
        assert(d.drop_last() =~= decimal_digits(n / 10));
        assert(d[0] == decimal_digits(n / 10)[0]);
        assert(n / 10 != 0);
        assert(d.last() == (48 + n % 10) as u8);
        assert((n / 10) * 10 + n % 10 == n) by (nonlinear_arith);
        assert(d.last() - 48 == n % 10);
        assert(digits_value(d) == digits_value(d.drop_last()) * 10 + (d.last() - 48) as nat);
        assert(digits_value(d.drop_last()) == n / 10);
    }
}

proof fn lemma_pow10_positive(k: nat)
    ensures
        pow10(k) >= 1,
    decreases k,
{
    if k > 0 {
        lemma_pow10_positive((k - 1) as nat);
    }
}

/// A number has at most `k` decimal digits exactly when it is below `10^k`.
pub proof fn lemma_decimal_len(n: nat, k: nat)
    requires
        k >= 1,
    ensures
        decimal_digits(n).len() <= k <==> n < pow10(k),
    decreases n,
{
    lemma_pow10_positive((k - 1) as nat);
    if n < 10 {
        assert(pow10(k) == 10 * pow10((k - 1) as nat));
    } else {
        let p = pow10((k - 1) as nat);
        assert(pow10(k) == 10 * p);
        if k == 1 {
            lemma_decimal_roundtrip(n / 10);
            assert(p == 1);
        } else {
            lemma_decimal_len(n / 10, (k - 1) as nat);
            assert(n / 10 < p <==> n < 10 * p) by (nonlinear_arith)
                requires
                    p >= 1,
            ;
        }
    }
}

/// The bytes of an integer frame are `:`, digits spelling the number, and `\r\n`.
pub proof fn lemma_integer_frame(v: u64)
    ensures
        ({
            let bytes = frame_bytes(RespFrame::Integer(v));
            let digits = bytes.subrange(1, bytes.len() - 2);
            &&& bytes[0] == 58u8
            &&& all_digits(digits)
            &&& digits_value(digits) == v
            &&& bytes.subrange(bytes.len() - 2, bytes.len() as int) == crlf()
        }),
{
    lemma_decimal_roundtrip(v as nat);
    let bytes = frame_bytes(RespFrame::Integer(v));
    assert(bytes.subrange(1, bytes.len() - 2) =~= decimal_digits(v as nat));
    assert(bytes.subrange(bytes.len() - 2, bytes.len() as int) =~= crlf());
}

/// The bytes of a simple frame are `+`, the UTF-8 bytes of its text, which decode
/// back to the text, and `\r\n`.
pub proof fn lemma_simple_frame(text: String)
    ensures
        ({
            let bytes = frame_bytes(RespFrame::Simple(text));
            let body = bytes.subrange(1, bytes.len() - 2);
            &&& bytes[0] == 43u8
            &&& body == encode_utf8(text@)
            &&& decode_utf8(body) == text@
            &&& bytes.subrange(bytes.len() - 2, bytes.len() as int) == crlf()
        }),
{
    encode_utf8_decode_utf8(text@);
    let bytes = frame_bytes(RespFrame::Simple(text));
    assert(bytes.subrange(1, bytes.len() - 2) =~= encode_utf8(text@));
    assert(bytes.subrange(bytes.len() - 2, bytes.len() as int) =~= crlf());
}

/// The bytes of an error frame are `-`, the UTF-8 bytes of its message, which decode
/// back to the message, and `\r\n`.
pub proof fn lemma_error_frame(message: String)
    ensures
        ({
            let bytes = frame_bytes(RespFrame::Error(message));
            let body = bytes.subrange(1, bytes.len() - 2);
            &&& bytes[0] == 45u8
            &&& body == encode_utf8(message@)
            &&& decode_utf8(body) == message@
            &&& bytes.subrange(bytes.len() - 2, bytes.len() as int) == crlf()
        }),
{
    encode_utf8_decode_utf8(message@);
    let bytes = frame_bytes(RespFrame::Error(message));
    assert(bytes.subrange(1, bytes.len() - 2) =~= encode_utf8(message@));
    assert(bytes.subrange(bytes.len() - 2, bytes.len() as int) =~= crlf());
}

/// The bytes of a bulk frame are `$`, digits spelling the payload's length, `\r\n`,
/// the payload and `\r\n`.
pub proof fn lemma_bulk_frame(payload: Seq<u8>, b: Vec<u8>)
    requires
        b@ == payload,
    ensures
        ({
            let bytes = frame_bytes(RespFrame::Bulk(b));
            let digits = decimal_digits(payload.len());
            let d = digits.len() as int;
            &&& bytes[0] == 36u8
            &&& bytes.subrange(1, 1 + d) == digits
            &&& all_digits(digits)
            &&& digits_value(digits) == payload.len()
            &&& bytes.subrange(1 + d, 3 + d) == crlf()
            &&& bytes.subrange(3 + d, 3 + d + payload.len()) == payload
            &&& bytes.subrange(3 + d + payload.len(), bytes.len() as int) == crlf()
        }),
{
    lemma_decimal_roundtrip(payload.len());
    let bytes = frame_bytes(RespFrame::Bulk(b));
    let digits = decimal_digits(payload.len());
    let d = digits.len() as int;
    assert(bytes.subrange(1, 1 + d) =~= digits);
    assert(bytes.subrange(1 + d, 3 + d) =~= crlf());
    assert(bytes.subrange(3 + d, 3 + d + payload.len()) =~= payload);
    assert(bytes.subrange(3 + d + payload.len(), bytes.len() as int) =~= crlf());
}

/// Every `u64` has at most twenty decimal digits.
pub proof fn lemma_u64_decimal_len(v: u64)
    ensures
        decimal_digits(v as nat).len() <= 20,
{
    reveal_with_fuel(pow10, 21);
    assert(pow10(20) == 100000000000000000000);
    lemma_decimal_len(v as nat, 20);
}

} // verus!
