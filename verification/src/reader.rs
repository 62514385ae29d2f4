//! Big-endian reads from a `bytes::Bytes` buffer.
//!
//! Every read consumes the bytes it returns from the front of the buffer; a read that
//! finds too few bytes fails and leaves the buffer as it was.
use bytes::Buf;
use bytes::Bytes;
use crate::result::ParseError;
use vstd::prelude::*;

verus! {

#[verifier::external_type_specification]
#[verifier::external_body]
pub struct ExBytes(Bytes);

/// The bytes that a `Bytes` buffer still holds, front first.
pub uninterp spec fn bytes_view(b: Bytes) -> Seq<u8>;

/// The unsigned value of two bytes in big-endian order.
pub open spec fn be_u16(a: u8, b: u8) -> u16 {
    (a as int * 0x100 + b as int) as u16
}

/// The unsigned value of four bytes in big-endian order.
pub open spec fn be_u32(a: u8, b: u8, c: u8, d: u8) -> u32 {
    (a as int * 0x100_0000 + b as int * 0x1_0000 + c as int * 0x100 + d as int) as u32
}

/// The unsigned value of eight bytes in big-endian order.
pub open spec fn be_u64(s: Seq<u8>) -> u64
    recommends
        s.len() >= 8,
{
    (be_u32(s[0], s[1], s[2], s[3]) as int * 0x1_0000_0000 + be_u32(s[4], s[5], s[6], s[7]) as int) as u64
}

/// The two's complement reading of a byte.
pub open spec fn u8_as_i8(v: u8) -> i8 {
    if v < 0x80 { v as i8 } else { (v as int - 0x100) as i8 }
}

/// The two's complement reading of a 16-bit value.
pub open spec fn u16_as_i16(v: u16) -> i16 {
    if v < 0x8000 { v as i16 } else { (v as int - 0x1_0000) as i16 }
}

/// The big-endian `u16` at the front of `s`.
pub open spec fn peek_u16(s: Seq<u8>) -> u16
    recommends
        s.len() >= 2,
{
    be_u16(s[0], s[1])
}

/// The big-endian `u32` at the front of `s`.
pub open spec fn peek_u32(s: Seq<u8>) -> u32
    recommends
        s.len() >= 4,
{
    be_u32(s[0], s[1], s[2], s[3])
}

/// The outcome of reading a value from the front of a byte sequence: the value and the
/// bytes after it, a refusal of the input, or an input on which the reader cannot
/// complete.
pub enum Outcome<T> {
    Done(T, Seq<u8>),
    Fail,
    Stuck,
}

/// The outcome of reading `pre` followed by the values of `o`.
pub open spec fn prepend<T>(pre: Seq<T>, o: Outcome<Seq<T>>) -> Outcome<Seq<T>> {
    match o {
        Outcome::Done(v, rest) => Outcome::Done(pre + v, rest),
        Outcome::Fail => Outcome::Fail,
        Outcome::Stuck => Outcome::Stuck,
    }
}

/// Prepending two sequences in turn is prepending their concatenation.
pub proof fn lemma_prepend_push<T>(pre: Seq<T>, a: T, o: Outcome<Seq<T>>)
    ensures
        prepend(pre, prepend(seq![a], o)) == prepend(pre.push(a), o),
{
    match o {
        Outcome::Done(v, rest) => {
            assert(pre + (seq![a] + v) =~= pre.push(a) + v);
        },
        _ => {},
    }
}

/// `a` is what remains of `b` after some bytes were taken from its front.
pub open spec fn is_suffix(a: Seq<u8>, b: Seq<u8>) -> bool {
    a.len() <= b.len() && a =~= b.subrange(b.len() - a.len(), b.len() as int)
}

/// Dropping bytes from the front leaves a suffix, and a suffix of a suffix is a suffix.
pub proof fn lemma_suffix(a: Seq<u8>, b: Seq<u8>, c: Seq<u8>, k: int)
    ensures
        0 <= k <= c.len() ==> is_suffix(c.skip(k), c),
        is_suffix(c, c),
        is_suffix(a, b) && is_suffix(b, c) ==> is_suffix(a, c),
{
    if is_suffix(a, b) && is_suffix(b, c) {
        assert(a =~= c.subrange(c.len() - a.len(), c.len() as int));
    }
}

/// `Bytes::copy_from_slice`: a buffer that holds a copy of `data`.
#[verifier::external_body]
pub fn bytes_from_slice(data: &[u8]) -> (r: Bytes)
    ensures
        bytes_view(r) == data@,
{
    Bytes::copy_from_slice(data)
}

/// `Bytes::len`: the number of bytes the buffer holds.
#[verifier::external_body]
pub fn bytes_len(b: &Bytes) -> (r: usize)
    ensures
        r == bytes_view(*b).len(),
{
    b.len()
}

/// The first byte of a `Bytes` buffer, read through its `Deref` to a slice; `None` when
/// the buffer is empty.
#[verifier::external_body]
pub fn bytes_first(b: &Bytes) -> (r: Option<u8>)
    ensures
        bytes_view(*b).len() >= 1 ==> r == Some(bytes_view(*b)[0]),
        bytes_view(*b).len() == 0 ==> r is None,
{
    b.first().copied()
}

/// `Buf::advance` on `Bytes`: drops `n` bytes from the front (it panics past the end).
#[verifier::external_body]
pub fn bytes_advance(b: &mut Bytes, n: usize)
    requires
        n <= bytes_view(*old(b)).len(),
    ensures
        bytes_view(*final(b)) == bytes_view(*old(b)).skip(n as int),
{
    b.advance(n)
}

/// `Buf::try_get_u8` on `Bytes`: the first byte, consumed; `None` on an empty buffer,
/// which is then left as it was.
#[verifier::external_body]
pub fn try_get_u8(b: &mut Bytes) -> (r: Option<u8>)
    ensures
        bytes_view(*old(b)).len() >= 1 ==> r == Some(bytes_view(*old(b))[0])
            && bytes_view(*final(b)) == bytes_view(*old(b)).skip(1),
        bytes_view(*old(b)).len() < 1 ==> r is None && bytes_view(*final(b)) == bytes_view(*old(b)),
{
    b.try_get_u8().ok()
}

/// `Buf::try_get_i8` on `Bytes`: the first byte read as two's complement, consumed;
/// `None` on an empty buffer, which is then left as it was.
#[verifier::external_body]
pub fn try_get_i8(b: &mut Bytes) -> (r: Option<i8>)
    ensures
        bytes_view(*old(b)).len() >= 1 ==> r == Some(u8_as_i8(bytes_view(*old(b))[0]))
            && bytes_view(*final(b)) == bytes_view(*old(b)).skip(1),
        bytes_view(*old(b)).len() < 1 ==> r is None && bytes_view(*final(b)) == bytes_view(*old(b)),
{
    b.try_get_i8().ok()
}

/// `Buf::try_get_u16` on `Bytes`: the first two bytes in big-endian order, consumed;
/// `None` when fewer remain, and the buffer is then left as it was.
#[verifier::external_body]
pub fn try_get_u16(b: &mut Bytes) -> (r: Option<u16>)
    ensures
        bytes_view(*old(b)).len() >= 2 ==> r == Some(peek_u16(bytes_view(*old(b))))
            && bytes_view(*final(b)) == bytes_view(*old(b)).skip(2),
        bytes_view(*old(b)).len() < 2 ==> r is None && bytes_view(*final(b)) == bytes_view(*old(b)),
{
    b.try_get_u16().ok()
}

/// `Buf::try_get_i16` on `Bytes`: the first two bytes in big-endian order read as two's
/// complement, consumed; `None` when fewer remain, and the buffer is then left as it was.
#[verifier::external_body]
pub fn try_get_i16(b: &mut Bytes) -> (r: Option<i16>)
    ensures
        bytes_view(*old(b)).len() >= 2 ==> r == Some(u16_as_i16(peek_u16(bytes_view(*old(b)))))
            && bytes_view(*final(b)) == bytes_view(*old(b)).skip(2),
        bytes_view(*old(b)).len() < 2 ==> r is None && bytes_view(*final(b)) == bytes_view(*old(b)),
{
    b.try_get_i16().ok()
}

/// `Buf::try_get_u32` on `Bytes`: the first four bytes in big-endian order, consumed;
/// `None` when fewer remain, and the buffer is then left as it was.
#[verifier::external_body]
pub fn try_get_u32(b: &mut Bytes) -> (r: Option<u32>)
    ensures
        bytes_view(*old(b)).len() >= 4 ==> r == Some(peek_u32(bytes_view(*old(b))))
            && bytes_view(*final(b)) == bytes_view(*old(b)).skip(4),
        bytes_view(*old(b)).len() < 4 ==> r is None && bytes_view(*final(b)) == bytes_view(*old(b)),
{
    b.try_get_u32().ok()
}

/// `Buf::try_get_u64` on `Bytes`: the first eight bytes in big-endian order, consumed;
/// `None` when fewer remain, and the buffer is then left as it was.
#[verifier::external_body]
pub fn try_get_u64(b: &mut Bytes) -> (r: Option<u64>)
    ensures
        bytes_view(*old(b)).len() >= 8 ==> r == Some(be_u64(bytes_view(*old(b))))
            && bytes_view(*final(b)) == bytes_view(*old(b)).skip(8),
        bytes_view(*old(b)).len() < 8 ==> r is None && bytes_view(*final(b)) == bytes_view(*old(b)),
{
    b.try_get_u64().ok()
}


/// Reads a `u8` from the front of `bytes`; too few bytes is an error.
pub fn read_u8(bytes: &mut Bytes) -> (r: Result<u8, ParseError>)
    ensures
        bytes_view(*old(bytes)).len() >= 1 ==> r == Ok::<u8, ParseError>(bytes_view(*old(bytes))[0])
            && bytes_view(*final(bytes)) == bytes_view(*old(bytes)).skip(1),
        bytes_view(*old(bytes)).len() < 1 ==> r == Err::<u8, ParseError>(ParseError::UnexpectedEnd)
            && bytes_view(*final(bytes)) == bytes_view(*old(bytes)),
{
    match try_get_u8(bytes) {
        Some(v) => Ok(v),
        None => Err(ParseError::UnexpectedEnd),
    }
}

/// Reads a `i8` from the front of `bytes`; too few bytes is an error.
pub fn read_i8(bytes: &mut Bytes) -> (r: Result<i8, ParseError>)
    ensures
        bytes_view(*old(bytes)).len() >= 1 ==> r == Ok::<i8, ParseError>(u8_as_i8(bytes_view(*old(bytes))[0]))
            && bytes_view(*final(bytes)) == bytes_view(*old(bytes)).skip(1),
        bytes_view(*old(bytes)).len() < 1 ==> r == Err::<i8, ParseError>(ParseError::UnexpectedEnd)
            && bytes_view(*final(bytes)) == bytes_view(*old(bytes)),
{
    match try_get_i8(bytes) {
        Some(v) => Ok(v),
        None => Err(ParseError::UnexpectedEnd),
    }
}

/// Reads a `u16` from the front of `bytes`; too few bytes is an error.
pub fn read_u16(bytes: &mut Bytes) -> (r: Result<u16, ParseError>)
    ensures
        bytes_view(*old(bytes)).len() >= 2 ==> r == Ok::<u16, ParseError>(peek_u16(bytes_view(*old(bytes))))
            && bytes_view(*final(bytes)) == bytes_view(*old(bytes)).skip(2),
        bytes_view(*old(bytes)).len() < 2 ==> r == Err::<u16, ParseError>(ParseError::UnexpectedEnd)
            && bytes_view(*final(bytes)) == bytes_view(*old(bytes)),
{
    match try_get_u16(bytes) {
        Some(v) => Ok(v),
        None => Err(ParseError::UnexpectedEnd),
    }
}

/// Reads a `i16` from the front of `bytes`; too few bytes is an error.
pub fn read_i16(bytes: &mut Bytes) -> (r: Result<i16, ParseError>)
    ensures
        bytes_view(*old(bytes)).len() >= 2 ==> r == Ok::<i16, ParseError>(u16_as_i16(peek_u16(bytes_view(*old(bytes)))))
            && bytes_view(*final(bytes)) == bytes_view(*old(bytes)).skip(2),
        bytes_view(*old(bytes)).len() < 2 ==> r == Err::<i16, ParseError>(ParseError::UnexpectedEnd)
            && bytes_view(*final(bytes)) == bytes_view(*old(bytes)),
{
    match try_get_i16(bytes) {
        Some(v) => Ok(v),
        None => Err(ParseError::UnexpectedEnd),
    }
}

/// Reads a `u32` from the front of `bytes`; too few bytes is an error.
pub fn read_u32(bytes: &mut Bytes) -> (r: Result<u32, ParseError>)
    ensures
        bytes_view(*old(bytes)).len() >= 4 ==> r == Ok::<u32, ParseError>(peek_u32(bytes_view(*old(bytes))))
            && bytes_view(*final(bytes)) == bytes_view(*old(bytes)).skip(4),
        bytes_view(*old(bytes)).len() < 4 ==> r == Err::<u32, ParseError>(ParseError::UnexpectedEnd)
            && bytes_view(*final(bytes)) == bytes_view(*old(bytes)),
{
    match try_get_u32(bytes) {
        Some(v) => Ok(v),
        None => Err(ParseError::UnexpectedEnd),
    }
}

/// Reads a `u8` and then an `i8`.
pub fn read_u8_i8(bytes: &mut Bytes) -> (r: Result<(u8, i8), ParseError>)
    ensures
        bytes_view(*old(bytes)).len() >= 2 ==> r == Ok::<(u8, i8), ParseError>((
            bytes_view(*old(bytes))[0],
            u8_as_i8(bytes_view(*old(bytes))[1]),
        )) && bytes_view(*final(bytes)) == bytes_view(*old(bytes)).skip(2),
        bytes_view(*old(bytes)).len() < 2 ==> r is Err,
        is_suffix(bytes_view(*final(bytes)), bytes_view(*old(bytes))),
{
    let ghost s0 = bytes_view(*bytes);
    proof {
        lemma_suffix(s0, s0, s0, 0);
        lemma_suffix(s0, s0, s0, 1);
        lemma_suffix(s0, s0, s0, 2);
    }
    let a = read_u8(bytes)?;
    let b = read_i8(bytes)?;
    assert(s0.skip(1).skip(1) =~= s0.skip(2));
    Ok((a, b))
}

/// Reads a `u16` and then two `u8`s.
pub fn read_u16_u8_u8(bytes: &mut Bytes) -> (r: Result<(u16, u8, u8), ParseError>)
    ensures
        bytes_view(*old(bytes)).len() >= 4 ==> r == Ok::<(u16, u8, u8), ParseError>((
            peek_u16(bytes_view(*old(bytes))),
            bytes_view(*old(bytes))[2],
            bytes_view(*old(bytes))[3],
        )) && bytes_view(*final(bytes)) == bytes_view(*old(bytes)).skip(4),
        bytes_view(*old(bytes)).len() < 4 ==> r is Err,
        is_suffix(bytes_view(*final(bytes)), bytes_view(*old(bytes))),
{
    let ghost s0 = bytes_view(*bytes);
    proof {
        lemma_suffix(s0, s0, s0, 0);
        lemma_suffix(s0, s0, s0, 2);
        lemma_suffix(s0, s0, s0, 3);
        lemma_suffix(s0, s0, s0, 4);
    }
    let a = read_u16(bytes)?;
    let b = read_u8(bytes)?;
    let c = read_u8(bytes)?;
    assert(s0.skip(2).skip(1) =~= s0.skip(3));
    assert(s0.skip(3).skip(1) =~= s0.skip(4));
    Ok((a, b, c))
}

} // verus!
