//! The headers that the frame checker of mini-redis reads on its way through a
//! buffer, followed as far as needed to tell where it overflows: on a bulk length
//! of `usize::MAX - 1` or `usize::MAX` it adds the two bytes of `\r\n` and panics.
//! Frames of an array are read one after another; a stack of item counts stands
//! for the checker's recursion.
use vstd::prelude::*;
use crate::resp::digits_value;

verus! {

/// An ASCII decimal digit.
pub open spec fn is_digit(b: u8) -> bool {
    48 <= b <= 57
}

/// The index of the first byte at or after `start` that is not a digit.
pub open spec fn digit_run_end(s: Seq<u8>, start: int) -> int
    decreases s.len() - start,
{
    if 0 <= start < s.len() && is_digit(s[start]) {
        digit_run_end(s, start + 1)
    } else {
        start
    }
}

/// The index of the first `\r` at or after `i` that a `\n` follows, where the
/// checker's line ends.
pub open spec fn line_end(s: Seq<u8>, i: int) -> Option<int>
    decreases s.len() - i,
{
    if i < 0 || i + 1 >= s.len() {
        None
    } else if s[i] == 13u8 && s[i + 1] == 10u8 {
        Some(i)
    } else {
        line_end(s, i + 1)
    }
}

/// How the checker's reading of a decimal line ends.
#[derive(Debug, PartialEq, Eq, Structural)]
pub enum DecimalRead {
    /// No line end yet.
    Incomplete,
    /// The line starts with no digit, or its number exceeds `u64::MAX`.
    Invalid,
    /// The number, and where reading goes on after the line.
    Value(u64, usize),
}

/// The checker's reading of a decimal line at `p`: the number its leading digits
/// spell, and the position after the line.
pub open spec fn decimal_at(s: Seq<u8>, p: int) -> DecimalRead {
    match line_end(s, p) {
        None => DecimalRead::Incomplete,
        Some(e) => {
            let end = digit_run_end(s, p);
            if end == p || digits_value(s.subrange(p, end)) > u64::MAX {
                DecimalRead::Invalid
            } else {
                DecimalRead::Value(digits_value(s.subrange(p, end)) as u64, (e + 2) as usize)
            }
        },
    }
}

/// How the checker's walk ends.
#[derive(Debug, PartialEq, Eq, Structural)]
pub enum PathEnd {
    /// A whole frame ends at this position.
    Done(usize),
    /// More bytes are needed.
    Incomplete,
    /// The bytes are not a frame.
    Invalid,
    /// A bulk length on which the checker overflows.
    Overflow,
}

/// What the checker does with the header at `pos`.
#[derive(Debug, PartialEq, Eq, Structural)]
pub enum HeaderStep {
    /// A frame without items, ending at this position.
    Scalar(usize),
    /// An array of this many items, which start at this position.
    Array(u64, usize),
    /// The walk ends.
    Stop(PathEnd),
}

/// What the checker does with the header at `pos`.
pub open spec fn header_step(s: Seq<u8>, pos: int) -> HeaderStep {
    if pos < 0 || pos >= s.len() {
        HeaderStep::Stop(PathEnd::Incomplete)
    } else {
        let p = pos + 1;
        let b = s[pos];
        if b == 43u8 || b == 45u8 {
            match line_end(s, p) {
                None => HeaderStep::Stop(PathEnd::Incomplete),
                Some(e) => HeaderStep::Scalar((e + 2) as usize),
            }
        } else if b == 58u8 {
            match decimal_at(s, p) {
                DecimalRead::Incomplete => HeaderStep::Stop(PathEnd::Incomplete),
                DecimalRead::Invalid => HeaderStep::Stop(PathEnd::Invalid),
                DecimalRead::Value(_, n) => HeaderStep::Scalar(n),
            }
        } else if b == 36u8 {
            if p >= s.len() {
                HeaderStep::Stop(PathEnd::Incomplete)
            } else if s[p] == 45u8 {
                if s.len() - p < 4 {
                    HeaderStep::Stop(PathEnd::Incomplete)
                } else {
                    HeaderStep::Scalar((p + 4) as usize)
                }
            } else {
                match decimal_at(s, p) {
                    DecimalRead::Incomplete => HeaderStep::Stop(PathEnd::Incomplete),
                    DecimalRead::Invalid => HeaderStep::Stop(PathEnd::Invalid),
                    DecimalRead::Value(v, n) => if v > usize::MAX {
                        HeaderStep::Stop(PathEnd::Invalid)
                    } else if v >= usize::MAX - 1 {
                        HeaderStep::Stop(PathEnd::Overflow)
                    } else if s.len() - n < v + 2 {
                        HeaderStep::Stop(PathEnd::Incomplete)
                    } else {
                        HeaderStep::Scalar((n + v + 2) as usize)
                    },
                }
            }
        } else if b == 42u8 {
            match decimal_at(s, p) {
                DecimalRead::Incomplete => HeaderStep::Stop(PathEnd::Incomplete),
                DecimalRead::Invalid => HeaderStep::Stop(PathEnd::Invalid),
                DecimalRead::Value(k, n) => HeaderStep::Array(k, n),
            }
        } else {
            HeaderStep::Stop(PathEnd::Invalid)
        }
    }
}

/// The checker's walk from `pos`, with `pending` the numbers of frames still to read
/// at each level of nesting, innermost last.
pub open spec fn check_run(s: Seq<u8>, pos: int, pending: Seq<u64>) -> PathEnd
    decreases s.len() - pos, pending.len(),
{
    if pending.len() == 0 {
        PathEnd::Done(pos as usize)
    } else if pending.last() == 0 {
        check_run(s, pos, pending.drop_last())
    } else {
        let rest = pending.drop_last().push((pending.last() - 1) as u64);
        match header_step(s, pos) {
            HeaderStep::Scalar(n) => if pos < n <= s.len() {
                check_run(s, n as int, rest)
            } else {
                PathEnd::Invalid
            },
            HeaderStep::Array(k, n) => if pos < n <= s.len() {
                check_run(s, n as int, rest.push(k))
            } else {
                PathEnd::Invalid
            },
            HeaderStep::Stop(e) => e,
        }
    }
}

/// Checking a frame at the start of `s` reaches a bulk length on which the checker
/// of mini-redis overflows.
pub open spec fn check_overflows(s: Seq<u8>) -> bool {
    check_run(s, 0, seq![1u64]) == PathEnd::Overflow
}

proof fn lemma_line_end_bounds(s: Seq<u8>, i: int)
    ensures
        line_end(s, i) matches Some(e) ==> i <= e && e + 1 < s.len(),
    decreases s.len() - i,
{
    if !(i < 0 || i + 1 >= s.len()) && !(s[i] == 13u8 && s[i + 1] == 10u8) {
        lemma_line_end_bounds(s, i + 1);
    }
}

/// The first line end at or after `i`.
fn find_line_end(s: &[u8], i: usize) -> (r: Option<usize>)
    ensures
        match line_end(s@, i as int) {
            Some(e) => i <= e && e + 1 < s@.len() && r == Some(e as usize),
            None => r is None,
        },
{
    proof {
        lemma_line_end_bounds(s@, i as int);
    }
    let mut j: usize = i;
    while j < s.len() && s.len() - j > 1
        invariant
            i <= j,
            line_end(s@, i as int) == line_end(s@, j as int),
        decreases s@.len() - j,
    {
        if s[j] == 13u8 && s[j + 1] == 10u8 {
            return Some(j);
        }
        j = j + 1;
    }
    None
}

/// The value of the digits starting at `start`, or `None` when it exceeds `u64::MAX`;
/// also the index where the digits end.
fn digit_run_value(s: &[u8], start: usize) -> (r: (usize, Option<u64>))
    requires
        start <= s@.len(),
    ensures
        r.0 == digit_run_end(s@, start as int),
        match r.1 {
            Some(v) => v == digits_value(s@.subrange(start as int, r.0 as int)),
            None => digits_value(s@.subrange(start as int, r.0 as int)) > u64::MAX,
        },
{
    let mut j: usize = start;
    let mut value: u128 = 0;
    let mut over = false;
    assert(s@.subrange(start as int, start as int) =~= Seq::<u8>::empty());
    while j < s.len() && 48u8 <= s[j] && s[j] <= 57u8
        invariant
            start <= j <= s@.len(),
            digit_run_end(s@, start as int) == digit_run_end(s@, j as int),
            !over ==> value == digits_value(s@.subrange(start as int, j as int)) && value
                <= u64::MAX,
            over ==> digits_value(s@.subrange(start as int, j as int)) > u64::MAX,
        decreases s@.len() - j,
    {
        let ghost before = s@.subrange(start as int, j as int);
        let d = s[j] - 48u8;
        assert(s@.subrange(start as int, j + 1) =~= before.push(s@[j as int]));
        assert(s@.subrange(start as int, j + 1).drop_last() =~= before);
        if !over {
            let next: u128 = value * 10 + (d as u128);
            if next > u64::MAX as u128 {
                over = true;
            } else {
                value = next;
            }
        }
        j = j + 1;
    }
    if over {
        (j, None)
    } else {
        (j, Some(value as u64))
    }
}

/// The checker's reading of a decimal line at `p`.
fn read_decimal(s: &[u8], p: usize) -> (r: DecimalRead)
    requires
        p <= s@.len(),
    ensures
        r == decimal_at(s@, p as int),
        match r {
            DecimalRead::Value(_, n) => p < n <= s@.len(),
            _ => true,
        },
{
    let len = s.len();
    match find_line_end(s, p) {
        None => DecimalRead::Incomplete,
        Some(e) => {
            assert(e + 2 <= len);
            let (end, v) = digit_run_value(s, p);
            if end == p {
                return DecimalRead::Invalid;
            }
            match v {
                None => DecimalRead::Invalid,
                Some(v) => DecimalRead::Value(v, e + 2),
            }
        },
    }
}

/// What the checker does with the header at `pos`.
fn read_header(s: &[u8], pos: usize) -> (r: HeaderStep)
    requires
        pos <= s@.len(),
    ensures
        r == header_step(s@, pos as int),
{
    if pos >= s.len() {
        return HeaderStep::Stop(PathEnd::Incomplete);
    }
    let p = pos + 1;
    let b = s[pos];
    if b == 43u8 || b == 45u8 {
        match find_line_end(s, p) {
            None => HeaderStep::Stop(PathEnd::Incomplete),
            Some(e) => HeaderStep::Scalar(e + 2),
        }
    } else if b == 58u8 {
        match read_decimal(s, p) {
            DecimalRead::Incomplete => HeaderStep::Stop(PathEnd::Incomplete),
            DecimalRead::Invalid => HeaderStep::Stop(PathEnd::Invalid),
            DecimalRead::Value(_, n) => HeaderStep::Scalar(n),
        }
    } else if b == 36u8 {
        if p >= s.len() {
            HeaderStep::Stop(PathEnd::Incomplete)
        } else if s[p] == 45u8 {
            if s.len() - p < 4 {
                HeaderStep::Stop(PathEnd::Incomplete)
            } else {
                HeaderStep::Scalar(p + 4)
            }
        } else {
            match read_decimal(s, p) {
                DecimalRead::Incomplete => HeaderStep::Stop(PathEnd::Incomplete),
                DecimalRead::Invalid => HeaderStep::Stop(PathEnd::Invalid),
                DecimalRead::Value(v, n) => {
                    if v > usize::MAX as u64 {
                        HeaderStep::Stop(PathEnd::Invalid)
                    } else if v >= (usize::MAX - 1) as u64 {
                        HeaderStep::Stop(PathEnd::Overflow)
                    } else if ((s.len() - n) as u64) < v + 2 {
                        HeaderStep::Stop(PathEnd::Incomplete)
                    } else {
                        HeaderStep::Scalar(n + (v as usize) + 2)
                    }
                },
            }
        }
    } else if b == 42u8 {
        match read_decimal(s, p) {
            DecimalRead::Incomplete => HeaderStep::Stop(PathEnd::Incomplete),
            DecimalRead::Invalid => HeaderStep::Stop(PathEnd::Invalid),
            DecimalRead::Value(k, n) => HeaderStep::Array(k, n),
        }
    } else {
        HeaderStep::Stop(PathEnd::Invalid)
    }
}

/// Whether checking a frame at the start of `s` reaches a bulk length on which the
/// checker of mini-redis overflows.
pub fn find_check_overflow(s: &[u8]) -> (r: bool)
    ensures
        r == check_overflows(s@),
{
    let mut pending: Vec<u64> = Vec::new();
    pending.push(1u64);
    let mut pos: usize = 0;
    assert(pending@ =~= seq![1u64]);
    loop
        invariant
            pos <= s@.len(),
            check_run(s@, 0, seq![1u64]) == check_run(s@, pos as int, pending@),
        decreases s@.len() - pos, pending@.len(),
    {
        if pending.len() == 0 {
            return false;
        }
        let last = pending.len() - 1;
        let top = pending[last];
        if top == 0 {
            let ghost before_pop = pending@;
            pending.pop();
            assert(pending@ =~= before_pop.drop_last());
            continue;
        }
        let ghost before = pending@;
        match read_header(s, pos) {
            HeaderStep::Scalar(n) => {
                if !(pos < n && n <= s.len()) {
                    return false;
                }
                pending.set(last, top - 1);
                assert(pending@ =~= before.drop_last().push((before.last() - 1) as u64));
                pos = n;
            },
            HeaderStep::Array(k, n) => {
                if !(pos < n && n <= s.len()) {
                    return false;
                }
                pending.set(last, top - 1);
                pending.push(k);
                assert(pending@ =~= before.drop_last().push((before.last() - 1) as u64).push(k));
                pos = n;
            },
            HeaderStep::Stop(e) => {
                return e == PathEnd::Overflow;
            },
        }
    }
}

} // verus!
