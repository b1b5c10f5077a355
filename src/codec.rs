//! Little-endian integers and null-terminated strings on byte buffers.

use byteorder::{ByteOrder, LittleEndian};
use vstd::prelude::*;

verus! {

/// Everything that can go wrong while encoding or decoding a packet.
#[derive(Debug, Clone, Copy, PartialEq, Eq, Structural)]
pub enum Error {
    /// The first four bytes are not "CITP".
    BadMagic,
    /// The base header names another layer than the one asked for.
    WrongLayer,
    /// The message tag is none of the known messages of the layer.
    UnknownMessageTag(u32),
    /// The buffer ends before a string's terminating zero byte.
    UnterminatedString,
    /// The buffer ends in the middle of a fixed-width field.
    UnexpectedEof,
    /// The declared packet size disagrees with the bytes present or consumed.
    SizeMismatch,
    /// A string to be written holds a zero byte.
    InteriorNul,
    /// The packet would not fit the 32-bit size field.
    TooLarge,
}

/// The two bytes of `n`, least significant first.
pub open spec fn le16(n: u16) -> Seq<u8> {
    seq![(n % 256) as u8, (n / 256) as u8]
}

/// The four bytes of `n`, least significant first.
pub open spec fn le32(n: u32) -> Seq<u8> {
    seq![(n % 256) as u8, ((n / 256) % 256) as u8, ((n / 65536) % 256) as u8, (n / 16777216) as u8]
}

/// The integer whose little-endian bytes stand at `b[pos]`, `b[pos + 1]`.
pub open spec fn u16_at(b: Seq<u8>, pos: int) -> u16 {
    (b[pos] as int + 256 * b[pos + 1] as int) as u16
}

/// The integer whose little-endian bytes stand at `b[pos]` to `b[pos + 3]`.
pub open spec fn u32_at(b: Seq<u8>, pos: int) -> u32 {
    (b[pos] as int + 256 * (b[pos + 1] as int + 256 * (b[pos + 2] as int + 256 * b[pos + 3] as int))) as u32
}

/// No byte of `s` is zero.
pub open spec fn no_nul(s: Seq<u8>) -> bool {
    forall|i: int| 0 <= i < s.len() ==> s[i] != 0
}

/// A string as it stands on the wire: its bytes, then a zero byte.
pub open spec fn cstr(s: Seq<u8>) -> Seq<u8> {
    s.push(0u8)
}

/// The index of the first zero byte of `b` at or after `pos`.
pub open spec fn nul_from(b: Seq<u8>, pos: int) -> Option<int>
    decreases b.len() - pos,
{
    if pos < 0 || pos >= b.len() {
        None
    } else if b[pos] == 0 {
        Some(pos)
    } else {
        nul_from(b, pos + 1)
    }
}

/// Reading a 16-bit integer at `pos`: the value and the position after it.
pub open spec fn parse_u16(b: Seq<u8>, pos: int) -> Result<(u16, int), Error> {
    if pos + 2 <= b.len() {
        Ok((u16_at(b, pos), pos + 2))
    } else {
        Err(Error::UnexpectedEof)
    }
}

/// Reading a 32-bit integer at `pos`: the value and the position after it.
pub open spec fn parse_u32(b: Seq<u8>, pos: int) -> Result<(u32, int), Error> {
    if pos + 4 <= b.len() {
        Ok((u32_at(b, pos), pos + 4))
    } else {
        Err(Error::UnexpectedEof)
    }
}

/// Reading a null-terminated string at `pos`: its content and the position after its
/// terminator.
pub open spec fn parse_cstring(b: Seq<u8>, pos: int) -> Result<(Seq<u8>, int), Error> {
    match nul_from(b, pos) {
        Some(k) => Ok((b.subrange(pos, k), k + 1)),
        None => Err(Error::UnterminatedString),
    }
}

/// Relies on byteorder's `LittleEndian::read_u16`: the first two bytes of the slice, least
/// significant first (it panics on fewer than two).
#[verifier::external_body]
fn le_read_u16(b: &[u8]) -> (r: u16)
    requires
        b@.len() >= 2,
    ensures
        r as int == b@[0] as int + 256 * b@[1] as int,
{
    LittleEndian::read_u16(b)
}

/// Relies on byteorder's `LittleEndian::read_u32`: the first four bytes of the slice, least
/// significant first (it panics on fewer than four).
#[verifier::external_body]
fn le_read_u32(b: &[u8]) -> (r: u32)
    requires
        b@.len() >= 4,
    ensures
        r as int == b@[0] as int + 256 * (b@[1] as int + 256 * (b@[2] as int + 256
            * b@[3] as int)),
{
    LittleEndian::read_u32(b)
}

/// Relies on byteorder's `LittleEndian::write_u16`: it stores `n` least significant byte first.
#[verifier::external_body]
fn le_bytes_u16(n: u16) -> (r: [u8; 2])
    ensures
        r@ == le16(n),
{
    let mut b = [0u8; 2];
    LittleEndian::write_u16(&mut b, n);
    b
}

/// Relies on byteorder's `LittleEndian::write_u32`: it stores `n` least significant byte first.
#[verifier::external_body]
fn le_bytes_u32(n: u32) -> (r: [u8; 4])
    ensures
        r@ == le32(n),
{
    let mut b = [0u8; 4];
    LittleEndian::write_u32(&mut b, n);
    b
}

/// Reads a little-endian 16-bit integer at `pos`.
pub fn read_u16_le(buf: &[u8], pos: usize) -> (r: Result<(u16, usize), Error>)
    ensures
        match r {
            Ok((v, e)) => parse_u16(buf@, pos as int) == Ok::<(u16, int), Error>((v, e as int)),
            Err(x) => parse_u16(buf@, pos as int) == Err::<(u16, int), Error>(x),
        },
{
    if pos > buf.len() || buf.len() - pos < 2 {
        return Err(Error::UnexpectedEof);
    }
    let v = le_read_u16(slice_from(buf, pos));
    Ok((v, pos + 2))
}

/// Reads a little-endian 32-bit integer at `pos`.
pub fn read_u32_le(buf: &[u8], pos: usize) -> (r: Result<(u32, usize), Error>)
    ensures
        match r {
            Ok((v, e)) => parse_u32(buf@, pos as int) == Ok::<(u32, int), Error>((v, e as int)),
            Err(x) => parse_u32(buf@, pos as int) == Err::<(u32, int), Error>(x),
        },
{
    if pos > buf.len() || buf.len() - pos < 4 {
        return Err(Error::UnexpectedEof);
    }
    let v = le_read_u32(slice_from(buf, pos));
    Ok((v, pos + 4))
}

/// The bytes of `buf` from `pos` on.
fn slice_from(buf: &[u8], pos: usize) -> (r: &[u8])
    requires
        pos <= buf@.len(),
    ensures
        r@ == buf@.subrange(pos as int, buf@.len() as int),
{
    vstd::slice::slice_subrange(buf, pos, buf.len())
}

/// Appends the two little-endian bytes of `n`.
pub fn write_u16_le(out: &mut Vec<u8>, n: u16)
    ensures
        final(out)@ == old(out)@ + le16(n),
{
    let b = le_bytes_u16(n);
    out.push(b[0]);
    out.push(b[1]);
    assert(out@ =~= old(out)@ + le16(n));
}

/// Appends the four little-endian bytes of `n`.
pub fn write_u32_le(out: &mut Vec<u8>, n: u32)
    ensures
        final(out)@ == old(out)@ + le32(n),
{
    let b = le_bytes_u32(n);
    out.push(b[0]);
    out.push(b[1]);
    out.push(b[2]);
    out.push(b[3]);
    assert(out@ =~= old(out)@ + le32(n));
}

/// The number of bytes that `s` takes on the wire: its content and the terminator.
pub fn size_of_cstring(s: &[u8]) -> (r: usize)
    requires
        s@.len() < usize::MAX,
    ensures
        r == cstr(s@).len(),
{
    s.len() + 1
}

/// Appends `s` and a zero byte; refuses a string that holds a zero byte itself, and then
/// appends nothing.
pub fn write_cstring(out: &mut Vec<u8>, s: &[u8]) -> (r: Result<(), Error>)
    ensures
        r is Ok <==> no_nul(s@),
        r is Ok ==> final(out)@ == old(out)@ + cstr(s@),
        r is Err ==> r == Err::<(), Error>(Error::InteriorNul) && final(out)@ == old(out)@,
{
    let mut i: usize = 0;
    while i < s.len()
        invariant
            i <= s@.len(),
            no_nul(s@.take(i as int)),
        decreases s@.len() - i,
    {
        if s[i] == 0 {
            assert(s@[i as int] == 0);
            return Err(Error::InteriorNul);
        }
        i = i + 1;
        assert(no_nul(s@.take(i as int))) by {
            assert forall|j: int| 0 <= j < i implies s@.take(i as int)[j] != 0 by {
                if j < i - 1 {
                    assert(s@.take(i - 1)[j] == s@[j]);
                }
            }
        }
    }
    assert(s@.take(i as int) =~= s@);
    let ghost start = out@;
    let mut k: usize = 0;
    while k < s.len()
        invariant
            k <= s@.len(),
            out@ == start + s@.take(k as int),
        decreases s@.len() - k,
    {
        out.push(s[k]);
        k = k + 1;
        assert(out@ =~= start + s@.take(k as int));
    }
    out.push(0u8);
    assert(out@ =~= start + cstr(s@));
    Ok(())
}

/// Reads a null-terminated string at `pos`: its content without the terminator, and the
/// position just after the terminator.
pub fn read_cstring(buf: &[u8], pos: usize) -> (r: Result<(Vec<u8>, usize), Error>)
    ensures
        match r {
            Ok((s, e)) => parse_cstring(buf@, pos as int) == Ok::<(Seq<u8>, int), Error>(
                (s@, e as int),
            ),
            Err(x) => parse_cstring(buf@, pos as int) == Err::<(Seq<u8>, int), Error>(x),
        },
{
    if pos > buf.len() {
        return Err(Error::UnterminatedString);
    }
    let mut i: usize = pos;
    while i < buf.len()
        invariant
            pos <= i <= buf@.len(),
            nul_from(buf@, pos as int) == nul_from(buf@, i as int),
        decreases buf@.len() - i,
    {
        if buf[i] == 0 {
            let mut s: Vec<u8> = Vec::new();
            let mut k: usize = pos;
            while k < i
                invariant
                    pos <= k <= i < buf@.len(),
                    s@ == buf@.subrange(pos as int, k as int),
                decreases i - k,
            {
                s.push(buf[k]);
                k = k + 1;
                assert(s@ =~= buf@.subrange(pos as int, k as int));
            }
            return Ok((s, i + 1));
        }
        i = i + 1;
    }
    Err(Error::UnterminatedString)
}

/// Two bytes written by `le16` read back as the same integer.
pub proof fn lemma_le16(b: Seq<u8>, pos: int, n: u16)
    requires
        0 <= pos,
        pos + 2 <= b.len(),
        b.subrange(pos, pos + 2) == le16(n),
    ensures
        u16_at(b, pos) == n,
{
    assert(b[pos] == b.subrange(pos, pos + 2)[0]);
    assert(b[pos + 1] == b.subrange(pos, pos + 2)[1]);
}

/// Four bytes written by `le32` read back as the same integer.
pub proof fn lemma_le32(b: Seq<u8>, pos: int, n: u32)
    requires
        0 <= pos,
        pos + 4 <= b.len(),
        b.subrange(pos, pos + 4) == le32(n),
    ensures
        u32_at(b, pos) == n,
{
    assert(b[pos] == b.subrange(pos, pos + 4)[0]);
    assert(b[pos + 1] == b.subrange(pos, pos + 4)[1]);
    assert(b[pos + 2] == b.subrange(pos, pos + 4)[2]);
    assert(b[pos + 3] == b.subrange(pos, pos + 4)[3]);
    let x = n as int;
    assert(x == x % 256 + 256 * ((x / 256) % 256 + 256 * ((x / 65536) % 256 + 256 * (x
        / 16777216)))) by (nonlinear_arith)
        requires
            0 <= x < 0x1_0000_0000,
    ;
}

/// The search for a zero byte finds the first one.
proof fn lemma_nul_from_at(b: Seq<u8>, pos: int, k: int)
    requires
        0 <= pos <= k < b.len(),
        b[k] == 0,
        forall|i: int| pos <= i < k ==> b[i] != 0,
    ensures
        nul_from(b, pos) == Some(k),
    decreases k - pos,
{
    if pos < k {
        lemma_nul_from_at(b, pos + 1, k);
    }
}

/// The search for a zero byte finds none where the rest of the buffer holds none.
proof fn lemma_nul_from_none(b: Seq<u8>, pos: int)
    requires
        0 <= pos,
        forall|i: int| pos <= i < b.len() ==> b[i] != 0,
    ensures
        nul_from(b, pos) is None,
    decreases b.len() - pos,
{
    if pos < b.len() {
        lemma_nul_from_none(b, pos + 1);
    }
}

/// A string written by `cstr` reads back whole, and reading stops after its terminator.
pub proof fn lemma_cstring_found(b: Seq<u8>, pos: int, s: Seq<u8>)
    requires
        0 <= pos,
        pos + s.len() + 1 <= b.len(),
        b.subrange(pos, pos + s.len() + 1) == cstr(s),
        no_nul(s),
    ensures
        parse_cstring(b, pos) == Ok::<(Seq<u8>, int), Error>((s, pos + s.len() + 1)),
{
    let w = b.subrange(pos, pos + s.len() + 1);
    assert(b[pos + s.len()] == w[s.len() as int]);
    assert forall|i: int| pos <= i < pos + s.len() implies b[i] != 0 by {
        assert(b[i] == w[i - pos]);
        assert(w[i - pos] == s[i - pos]);
    }
    lemma_nul_from_at(b, pos, pos + s.len());
    assert(b.subrange(pos, pos + s.len()) =~= s);
}

/// A buffer that ends inside a string (its terminator lost) fails to read it.
pub proof fn lemma_cstring_cut(b: Seq<u8>, pos: int, s: Seq<u8>)
    requires
        0 <= pos <= b.len(),
        b.len() <= pos + s.len(),
        b.subrange(pos, b.len() as int) == s.take(b.len() - pos),
        no_nul(s),
    ensures
        parse_cstring(b, pos) == Err::<(Seq<u8>, int), Error>(Error::UnterminatedString),
{
    assert forall|i: int| pos <= i < b.len() implies b[i] != 0 by {
        assert(b[i] == b.subrange(pos, b.len() as int)[i - pos]);
        assert(s.take(b.len() - pos)[i - pos] == s[i - pos]);
    }
    lemma_nul_from_none(b, pos);
}

} // verus!
