//! A small binary record: a `u32`, an `i16` and a length-prefixed UTF-8 string,
//! the integers written in the machine's native byte order.
use vstd::prelude::*;
use vstd::endian::{endianness, Endian};
use vstd::utf8::*;
use crate::bytes_util::append_bytes;

verus! {

broadcast use {encode_utf8_valid_utf8, encode_utf8_decode_utf8};

#[verifier::external_type_specification]
#[verifier::external_body]
pub struct ExFromUtf8Error(std::string::FromUtf8Error);

// ---------------------------------------------------------------------------
// Byte orders
// ---------------------------------------------------------------------------

/// Lays out a little-endian byte sequence in the byte order of the machine.
pub open spec fn native_order(le: Seq<u8>) -> Seq<u8> {
    match endianness() {
        Endian::Little => le,
        Endian::Big => le.reverse(),
    }
}

/// The four little-endian bytes of `x`.
pub open spec fn le_u32_bytes(x: u32) -> Seq<u8> {
    seq![
        (x % 256) as u8,
        ((x / 256) % 256) as u8,
        ((x / 65536) % 256) as u8,
        (x / 16777216) as u8,
    ]
}

/// The `u32` whose little-endian bytes are the first four of `b`.
pub open spec fn le_u32_value(b: Seq<u8>) -> u32 {
    (b[0] + 256 * b[1] + 65536 * b[2] + 16777216 * b[3]) as u32
}

/// The two's-complement bit pattern of `x` read as an unsigned number.
pub open spec fn i16_bits(x: i16) -> u16 {
    if x < 0 {
        (x + 65536) as u16
    } else {
        x as u16
    }
}

/// The two little-endian bytes of `x`.
pub open spec fn le_i16_bytes(x: i16) -> Seq<u8> {
    seq![(i16_bits(x) % 256) as u8, (i16_bits(x) / 256) as u8]
}

/// The `i16` whose little-endian bytes are the first two of `b`.
pub open spec fn le_i16_value(b: Seq<u8>) -> i16 {
    let v = b[0] + 256 * b[1];
    if v >= 32768 {
        (v - 65536) as i16
    } else {
        v as i16
    }
}

/// `u32::to_ne_bytes`: the bytes of `x` in the machine's byte order.
#[verifier::external_body]
fn u32_to_ne_bytes(x: u32) -> (r: [u8; 4])
    ensures
        r@ == native_order(le_u32_bytes(x)),
{
    x.to_ne_bytes()
}

/// `u32::from_ne_bytes`: the number whose bytes, in the machine's byte order, are `b`.
#[verifier::external_body]
fn u32_from_ne_bytes(b: [u8; 4]) -> (r: u32)
    ensures
        r == le_u32_value(native_order(b@)),
{
    u32::from_ne_bytes(b)
}

/// `i16::to_ne_bytes`: the two's-complement bytes of `x` in the machine's byte order.
#[verifier::external_body]
fn i16_to_ne_bytes(x: i16) -> (r: [u8; 2])
    ensures
        r@ == native_order(le_i16_bytes(x)),
{
    x.to_ne_bytes()
}

/// `i16::from_ne_bytes`: the number whose two's-complement bytes, in the machine's
/// byte order, are `b`.
#[verifier::external_body]
fn i16_from_ne_bytes(b: [u8; 2]) -> (r: i16)
    ensures
        r == le_i16_value(native_order(b@)),
{
    i16::from_ne_bytes(b)
}

/// `String::from_utf8`: succeeds exactly on valid UTF-8, with the decoded characters.
#[verifier::external_body]
pub(crate) fn string_from_utf8(bytes: Vec<u8>) -> (r: Result<String, std::string::FromUtf8Error>)
    ensures
        r is Ok <==> valid_utf8(bytes@),
        r matches Ok(s) ==> s@ == decode_utf8(bytes@),
{
    String::from_utf8(bytes)
}

// ---------------------------------------------------------------------------
// A read cursor over a byte slice
// ---------------------------------------------------------------------------

/// The bytes of `data` from position `pos` on; nothing when `pos` lies past the end.
pub open spec fn remaining_bytes(data: Seq<u8>, pos: nat) -> Seq<u8> {
    if pos <= data.len() {
        data.subrange(pos as int, data.len() as int)
    } else {
        Seq::empty()
    }
}

/// A position in a borrowed byte slice, read forward. The position may lie past the
/// end of the slice, in which case nothing remains to be read.
pub struct ByteCursor<'a> {
    data: &'a [u8],
    pos: usize,
}

impl<'a> ByteCursor<'a> {
    /// The bytes the cursor reads from.
    pub closed spec fn spec_data(&self) -> Seq<u8> {
        self.data@
    }

    /// The cursor's position.
    pub closed spec fn spec_pos(&self) -> nat {
        self.pos as nat
    }

    /// A cursor at the start of `data`.
    pub fn new(data: &'a [u8]) -> (c: Self)
        ensures
            c.spec_data() == data@,
            c.spec_pos() == 0,
    {
        ByteCursor { data, pos: 0 }
    }

    /// The current position.
    pub fn position(&self) -> (p: usize)
        ensures
            p == self.spec_pos(),
    {
        self.pos
    }

    /// Moves the cursor to `pos`, which may lie past the end.
    pub fn set_position(&mut self, pos: usize)
        ensures
            final(self).spec_data() == old(self).spec_data(),
            final(self).spec_pos() == pos,
    {
        self.pos = pos;
    }

    /// Reads exactly `n` bytes. When fewer than `n` remain, nothing is returned and
    /// the cursor moves to the end of the data.
    pub fn read_exact(&mut self, n: usize) -> (r: Option<Vec<u8>>)
        ensures
            final(self).spec_data() == old(self).spec_data(),
            ({
                let rest = remaining_bytes(old(self).spec_data(), old(self).spec_pos());
                if n <= rest.len() {
                    &&& r matches Some(v) && v@ == rest.subrange(0, n as int)
                    &&& final(self).spec_pos() == old(self).spec_pos() + n
                } else {
                    &&& r is None
                    &&& final(self).spec_pos() == old(self).spec_data().len()
                }
            }),
    {
        let len = self.data.len();
        if self.pos > len {
            if n == 0 {
                return Some(Vec::new());
            }
            self.pos = len;
            return None;
        }
        if len - self.pos < n {
            self.pos = len;
            return None;
        }
        let mut out: Vec<u8> = Vec::new();
        let mut i: usize = 0;
        while i < n
            invariant
                self.pos + n <= self.data@.len(),
                len == self.data@.len(),
                i <= n,
                out@ == self.data@.subrange(self.pos as int, self.pos + i),
            decreases n - i,
        {
            out.push(self.data[self.pos + i]);
            i = i + 1;
        }
        self.pos = self.pos + n;
        Some(out)
    }
}

// ---------------------------------------------------------------------------
// The record
// ---------------------------------------------------------------------------

/// A record sent by the client to the server.
#[derive(Debug)]
pub struct Data {
    pub field1: u32,
    pub field2: i16,
    pub field3: String,
}

/// Why a record could not be read.
#[derive(Debug, Clone, Copy, PartialEq, Eq, Structural)]
pub enum DataError {
    /// The bytes ended before the record did.
    UnexpectedEof,
    /// The string field is not valid UTF-8.
    InvalidUtf8,
}

/// Number of bytes before the string: two `u32`s and an `i16`.
pub open spec fn header_len() -> nat {
    10
}

/// The bytes of a record: `field1`, `field2`, the byte length of the string taken
/// modulo 2^32, and the string's UTF-8 bytes.
pub open spec fn record_bytes(field1: u32, field2: i16, text: Seq<char>) -> Seq<u8> {
    native_order(le_u32_bytes(field1)) + native_order(le_i16_bytes(field2)) + native_order(
        le_u32_bytes((encode_utf8(text).len() % 0x1_0000_0000) as u32),
    ) + encode_utf8(text)
}

/// What reading a record from `data` at position `pos` gives: the fields or the
/// error, and the position afterwards. A record cut short leaves the position at
/// the end of `data`; a string that is not UTF-8 is still consumed.
pub open spec fn read_record(data: Seq<u8>, pos: nat) -> (
    Result<(u32, i16, Seq<char>), DataError>,
    nat,
) {
    let rest = remaining_bytes(data, pos);
    if rest.len() < header_len() {
        (Err(DataError::UnexpectedEof), data.len())
    } else {
        let field1 = le_u32_value(native_order(rest.subrange(0, 4)));
        let field2 = le_i16_value(native_order(rest.subrange(4, 6)));
        let text_len = le_u32_value(native_order(rest.subrange(6, 10))) as nat;
        if rest.len() < header_len() + text_len {
            (Err(DataError::UnexpectedEof), data.len())
        } else {
            let text = rest.subrange(10, 10 + text_len as int);
            let end = pos + header_len() + text_len;
            if valid_utf8(text) {
                (Ok((field1, field2, decode_utf8(text))), end)
            } else {
                (Err(DataError::InvalidUtf8), end)
            }
        }
    }
}

impl Data {
    /// The bytes of this record, as `record_bytes` lays them out.
    pub fn serialize(&self) -> (r: Vec<u8>)
        ensures
            r@ == record_bytes(self.field1, self.field2, self.field3@),
    {
        let mut bytes: Vec<u8> = Vec::new();
        let b1 = u32_to_ne_bytes(self.field1);
        append_bytes(&mut bytes, b1.as_slice());
        let b2 = i16_to_ne_bytes(self.field2);
        append_bytes(&mut bytes, b2.as_slice());
        let text = self.field3.as_str().as_bytes();
        let text_len = text.len();
        let truncated: u32 = ((text_len as u64) % 0x1_0000_0000u64) as u32;
        let b3 = u32_to_ne_bytes(truncated);
        append_bytes(&mut bytes, b3.as_slice());
        append_bytes(&mut bytes, text);
        bytes
    }

    /// Reads one record at the cursor, as `read_record` describes, and moves the
    /// cursor past what was read.
    pub fn deserialize(cursor: &mut ByteCursor) -> (r: Result<Data, DataError>)
        ensures
            final(cursor).spec_data() == old(cursor).spec_data(),
            final(cursor).spec_pos() == read_record(
                old(cursor).spec_data(),
                old(cursor).spec_pos(),
            ).1,
            match read_record(old(cursor).spec_data(), old(cursor).spec_pos()).0 {
                Ok((f1, f2, text)) => r matches Ok(d) && d.field1 == f1 && d.field2 == f2
                    && d.field3@ == text,
                Err(e) => r == Err::<Data, DataError>(e),
            },
    {
        let ghost data = cursor.spec_data();
        let ghost pos = cursor.spec_pos();
        let ghost rest = remaining_bytes(data, pos);
        let b1 = match cursor.read_exact(4) {
            Some(v) => v,
            None => return Err(DataError::UnexpectedEof),
        };
        let b2 = match cursor.read_exact(2) {
            Some(v) => v,
            None => {
                return Err(DataError::UnexpectedEof);
            },
        };
        let b3 = match cursor.read_exact(4) {
            Some(v) => v,
            None => {
                return Err(DataError::UnexpectedEof);
            },
        };
        assert(rest.len() >= 10);
        assert(b1@ == rest.subrange(0, 4));
        assert(b2@ == rest.subrange(4, 6));
        assert(b3@ == rest.subrange(6, 10));
        let a1: [u8; 4] = [b1[0], b1[1], b1[2], b1[3]];
        let a2: [u8; 2] = [b2[0], b2[1]];
        let a3: [u8; 4] = [b3[0], b3[1], b3[2], b3[3]];
        assert(a1@ =~= b1@);
        assert(a2@ =~= b2@);
        assert(a3@ =~= b3@);
        let field1 = u32_from_ne_bytes(a1);
        let field2 = i16_from_ne_bytes(a2);
        let text_len = u32_from_ne_bytes(a3);
        assert(cursor.spec_pos() == pos + 10);
        assert(remaining_bytes(data, pos + 10) =~= rest.subrange(10, rest.len() as int));
        let text = match cursor.read_exact(text_len as usize) {
            Some(v) => v,
            None => {
                return Err(DataError::UnexpectedEof);
            },
        };
        assert(text@ =~= rest.subrange(10, 10 + text_len as int));
        match string_from_utf8(text) {
            Ok(field3) => Ok(Data { field1, field2, field3 }),
            Err(_) => Err(DataError::InvalidUtf8),
        }
    }
}

// ---------------------------------------------------------------------------
// Laws
// ---------------------------------------------------------------------------

proof fn lemma_native_order_twice(s: Seq<u8>)
    ensures
        native_order(native_order(s)) == s,
{
    match endianness() {
        Endian::Little => {},
        Endian::Big => {
            assert(s.reverse().reverse() =~= s);
        },
    }
}

proof fn lemma_native_order_len(s: Seq<u8>)
    ensures
        native_order(s).len() == s.len(),
{
}

proof fn lemma_le_u32_roundtrip(x: u32)
    ensures
        le_u32_value(le_u32_bytes(x)) == x,
{
    let b = le_u32_bytes(x);
    assert(b[0] + 256 * b[1] + 65536 * b[2] + 16777216 * b[3] == x) by (nonlinear_arith)
        requires
            b[0] == x % 256,
            b[1] == (x / 256) % 256,
            b[2] == (x / 65536) % 256,
            b[3] == x / 16777216,
            x < 0x1_0000_0000,
    ;
}

proof fn lemma_le_i16_roundtrip(x: i16)
    ensures
        le_i16_value(le_i16_bytes(x)) == x,
{
    let u = i16_bits(x);
    let b = le_i16_bytes(x);
    assert(b[0] + 256 * b[1] == u) by (nonlinear_arith)
        requires
            b[0] == u % 256,
            b[1] == u / 256,
    ;
}

/// The header of an encoded record and the facts about it that reading relies on.
proof fn lemma_record_layout(field1: u32, field2: i16, text: Seq<char>)
    requires
        encode_utf8(text).len() < 0x1_0000_0000,
    ensures
        ({
            let enc = record_bytes(field1, field2, text);
            &&& enc.len() == header_len() + encode_utf8(text).len()
            &&& le_u32_value(native_order(enc.subrange(0, 4))) == field1
            &&& le_i16_value(native_order(enc.subrange(4, 6))) == field2
            &&& le_u32_value(native_order(enc.subrange(6, 10))) == encode_utf8(text).len()
            &&& enc.subrange(10, enc.len() as int) == encode_utf8(text)
        }),
{
    let len = encode_utf8(text).len();
    let h1 = native_order(le_u32_bytes(field1));
    let h2 = native_order(le_i16_bytes(field2));
    let h3 = native_order(le_u32_bytes((len % 0x1_0000_0000) as u32));
    lemma_native_order_len(le_u32_bytes(field1));
    lemma_native_order_len(le_i16_bytes(field2));
    lemma_native_order_len(le_u32_bytes((len % 0x1_0000_0000) as u32));
    let enc = record_bytes(field1, field2, text);
    assert(enc.subrange(0, 4) =~= h1);
    assert(enc.subrange(4, 6) =~= h2);
    assert(enc.subrange(6, 10) =~= h3);
    assert(enc.subrange(10, enc.len() as int) =~= encode_utf8(text));
    lemma_native_order_twice(le_u32_bytes(field1));
    lemma_native_order_twice(le_i16_bytes(field2));
    lemma_native_order_twice(le_u32_bytes((len % 0x1_0000_0000) as u32));
    lemma_le_u32_roundtrip(field1);
    lemma_le_i16_roundtrip(field2);
    lemma_le_u32_roundtrip((len % 0x1_0000_0000) as u32);
}

/// Reading a record back from the bytes `serialize` wrote for it gives the same
/// three fields and leaves the position right after those bytes, whatever comes
/// before or after them, as long as the string's UTF-8 length fits in a `u32`.
pub proof fn lemma_record_roundtrip(
    field1: u32,
    field2: i16,
    text: Seq<char>,
    before: Seq<u8>,
    after: Seq<u8>,
)
    requires
        encode_utf8(text).len() < 0x1_0000_0000,
    ensures
        ({
            let enc = record_bytes(field1, field2, text);
            read_record(before + enc + after, before.len()) == (
                Ok::<(u32, i16, Seq<char>), DataError>((field1, field2, text)),
                before.len() + enc.len(),
            )
        }),
{
    let enc = record_bytes(field1, field2, text);
    lemma_record_layout(field1, field2, text);
    let data = before + enc + after;
    let rest = remaining_bytes(data, before.len());
    assert(rest =~= enc + after);
    assert(rest.subrange(0, 4) =~= enc.subrange(0, 4));
    assert(rest.subrange(4, 6) =~= enc.subrange(4, 6));
    assert(rest.subrange(6, 10) =~= enc.subrange(6, 10));
    assert(rest.subrange(10, 10 + encode_utf8(text).len() as int) =~= encode_utf8(text));
}

/// A record cut short anywhere, even after an arbitrary prefix, reads as
/// `UnexpectedEof` and leaves the position at the end of the bytes.
pub proof fn lemma_truncated_record(
    field1: u32,
    field2: i16,
    text: Seq<char>,
    before: Seq<u8>,
    keep: nat,
)
    requires
        encode_utf8(text).len() < 0x1_0000_0000,
        keep < record_bytes(field1, field2, text).len(),
    ensures
        ({
            let data = before + record_bytes(field1, field2, text).subrange(0, keep as int);
            read_record(data, before.len()) == (
                Err::<(u32, i16, Seq<char>), DataError>(DataError::UnexpectedEof),
                data.len(),
            )
        }),
{
    let enc = record_bytes(field1, field2, text);
    lemma_record_layout(field1, field2, text);
    let data = before + enc.subrange(0, keep as int);
    let rest = remaining_bytes(data, before.len());
    assert(rest =~= enc.subrange(0, keep as int));
    if keep >= 10 {
        assert(rest.subrange(6, 10) =~= enc.subrange(6, 10));
    }
}

proof fn lemma_u32_bytes_canonical(b: Seq<u8>)
    requires
        b.len() == 4,
    ensures
        native_order(le_u32_bytes(le_u32_value(native_order(b)))) == b,
{
    let c = native_order(b);
    lemma_native_order_len(b);
    let v = le_u32_value(c);
    let (c0, c1, c2, c3) = (c[0] as int, c[1] as int, c[2] as int, c[3] as int);
    assert(c0 + 256 * c1 + 65536 * c2 + 16777216 * c3 < 0x1_0000_0000) by (nonlinear_arith)
        requires
            0 <= c0 < 256,
            0 <= c1 < 256,
            0 <= c2 < 256,
            0 <= c3 < 256,
    ;
    let w = c0 + 256 * c1 + 65536 * c2 + 16777216 * c3;
    assert(v == w);
    assert(w % 256 == c0 && (w / 256) % 256 == c1 && (w / 65536) % 256 == c2 && w / 16777216
        == c3) by (nonlinear_arith)
        requires
            0 <= c0 < 256,
            0 <= c1 < 256,
            0 <= c2 < 256,
            0 <= c3 < 256,
            w == c0 + 256 * c1 + 65536 * c2 + 16777216 * c3,
    ;
    assert(le_u32_bytes(v) =~= c);
    lemma_native_order_twice(b);
}

proof fn lemma_i16_bytes_canonical(b: Seq<u8>)
    requires
        b.len() == 2,
    ensures
        native_order(le_i16_bytes(le_i16_value(native_order(b)))) == b,
{
    let c = native_order(b);
    lemma_native_order_len(b);
    let (c0, c1) = (c[0] as int, c[1] as int);
    let w = c0 + 256 * c1;
    assert(w % 256 == c0 && w / 256 == c1) by (nonlinear_arith)
        requires
            0 <= c0 < 256,
            0 <= c1 < 256,
            w == c0 + 256 * c1,
    ;
    assert(i16_bits(le_i16_value(c)) == w);
    assert(le_i16_bytes(le_i16_value(c)) =~= c);
    lemma_native_order_twice(b);
}

/// The record format is canonical: the bytes a successful read consumes are exactly
/// the bytes `serialize` writes for the record it reads.
pub proof fn lemma_record_canonical(data: Seq<u8>, pos: nat)
    ensures
        read_record(data, pos).0 matches Ok((f1, f2, text)) ==> {
            let end = read_record(data, pos).1;
            &&& pos <= end <= data.len()
            &&& data.subrange(pos as int, end as int) == record_bytes(f1, f2, text)
        },
{
    let rest = remaining_bytes(data, pos);
    if rest.len() >= header_len() {
        let len = le_u32_value(native_order(rest.subrange(6, 10))) as nat;
        if rest.len() >= header_len() + len {
            let bytes = rest.subrange(10, 10 + len as int);
            if valid_utf8(bytes) {
                let f1 = le_u32_value(native_order(rest.subrange(0, 4)));
                let f2 = le_i16_value(native_order(rest.subrange(4, 6)));
                let text = decode_utf8(bytes);
                decode_utf8_encode_utf8(bytes);
                assert(encode_utf8(text) == bytes);
                assert((encode_utf8(text).len() % 0x1_0000_0000) as u32 == le_u32_value(
                    native_order(rest.subrange(6, 10)),
                ));
                lemma_u32_bytes_canonical(rest.subrange(0, 4));
                lemma_i16_bytes_canonical(rest.subrange(4, 6));
                lemma_u32_bytes_canonical(rest.subrange(6, 10));
                let end = pos + header_len() + len;
                assert(data.subrange(pos as int, end as int) =~= rest.subrange(0, 4) + rest.subrange(
                    4,
                    6,
                ) + rest.subrange(6, 10) + bytes);
            }
        }
    }
}

} // verus!
