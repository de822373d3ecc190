//! The primitives that every message body is made of: integers in either
//! byte order, runs of raw bytes, length-prefixed strings and the IPv4-mapped
//! form of an address.
//!
//! A decoder is specified as a function from the bytes that are left to the
//! decoded value and the bytes that follow it. An encoder is specified as the
//! bytes it appends. The lemmas at the end say that decoding what was encoded
//! gives the value back, whatever follows.

use crate::error::DecodeError;
use byteorder::{BigEndian, ByteOrder, LittleEndian};
use vstd::prelude::*;
use vstd::slice::{slice_subrange, slice_to_vec};
use vstd::string::*;
use vstd::utf8::*;

verus! {

/// The 16-bit number with the high byte `hi` and the low byte `lo`.
pub open spec fn be16(hi: u8, lo: u8) -> u16 {
    (hi as int * 0x100 + lo as int) as u16
}

/// The 32-bit number whose bytes are `b0` to `b3`, most significant first.
pub open spec fn be32(b0: u8, b1: u8, b2: u8, b3: u8) -> u32 {
    (b0 as int * 0x100_0000 + b1 as int * 0x1_0000 + b2 as int * 0x100 + b3 as int) as u32
}

/// The two bytes of `n` in the chosen byte order.
pub open spec fn u16_bytes(n: u16, big: bool) -> Seq<u8> {
    if big {
        seq![(n / 0x100) as u8, (n % 0x100) as u8]
    } else {
        seq![(n % 0x100) as u8, (n / 0x100) as u8]
    }
}

/// The four bytes of `n` in the chosen byte order.
pub open spec fn u32_bytes(n: u32, big: bool) -> Seq<u8> {
    if big {
        seq![
            (n / 0x100_0000) as u8,
            (n / 0x1_0000 % 0x100) as u8,
            (n / 0x100 % 0x100) as u8,
            (n % 0x100) as u8,
        ]
    } else {
        seq![
            (n % 0x100) as u8,
            (n / 0x100 % 0x100) as u8,
            (n / 0x1_0000 % 0x100) as u8,
            (n / 0x100_0000) as u8,
        ]
    }
}

/// The number that the first two bytes of `s` spell in the chosen byte order.
pub open spec fn u16_at(s: Seq<u8>, big: bool) -> u16
    recommends
        s.len() >= 2,
{
    if big {
        be16(s[0], s[1])
    } else {
        be16(s[1], s[0])
    }
}

/// The number that the first four bytes of `s` spell in the chosen byte order.
pub open spec fn u32_at(s: Seq<u8>, big: bool) -> u32
    recommends
        s.len() >= 4,
{
    if big {
        be32(s[0], s[1], s[2], s[3])
    } else {
        be32(s[3], s[2], s[1], s[0])
    }
}

/// One byte, and what follows it.
pub open spec fn take_u8(s: Seq<u8>) -> Result<(u8, Seq<u8>), DecodeError> {
    if s.len() < 1 {
        Err(DecodeError::Truncated)
    } else {
        Ok((s[0], s.skip(1)))
    }
}

/// A 16-bit number, and what follows it.
pub open spec fn take_u16(s: Seq<u8>, big: bool) -> Result<(u16, Seq<u8>), DecodeError> {
    if s.len() < 2 {
        Err(DecodeError::Truncated)
    } else {
        Ok((u16_at(s, big), s.skip(2)))
    }
}

/// A 32-bit number, and what follows it.
pub open spec fn take_u32(s: Seq<u8>, big: bool) -> Result<(u32, Seq<u8>), DecodeError> {
    if s.len() < 4 {
        Err(DecodeError::Truncated)
    } else {
        Ok((u32_at(s, big), s.skip(4)))
    }
}

/// The next `n` bytes, and what follows them.
pub open spec fn take_bytes(s: Seq<u8>, n: nat) -> Result<(Seq<u8>, Seq<u8>), DecodeError> {
    if s.len() < n {
        Err(DecodeError::Truncated)
    } else {
        Ok((s.take(n as int), s.skip(n as int)))
    }
}

/// A string behind a one-byte length, and what follows it.
pub open spec fn take_string(s: Seq<u8>) -> Result<(Seq<char>, Seq<u8>), DecodeError> {
    match take_u8(s) {
        Err(e) => Err(e),
        Ok((n, s1)) => match take_bytes(s1, n as nat) {
            Err(e) => Err(e),
            Ok((raw, s2)) => if valid_utf8(raw) {
                Ok((decode_utf8(raw), s2))
            } else {
                Err(DecodeError::MalformedString)
            },
        },
    }
}

/// Whether a one-byte length can announce the text.
pub open spec fn short_text(chars: Seq<char>) -> bool {
    encode_utf8(chars).len() <= 0xff
}

/// The text in UTF-8 behind its length in bytes.
pub open spec fn string_bytes(chars: Seq<char>) -> Seq<u8> {
    seq![encode_utf8(chars).len() as u8] + encode_utf8(chars)
}

/// What a reader reports, held against what the grammar `expected` says of
/// the bytes from the place where it started: the same error, or the same
/// value and, as what follows it, the bytes from the place where the reader
/// stopped.
pub open spec fn reads<T>(
    r: Result<(T, usize), DecodeError>,
    bytes: Seq<u8>,
    expected: Result<(T, Seq<u8>), DecodeError>,
) -> bool {
    match r {
        Ok((v, next)) => next <= bytes.len() && expected == Ok::<(T, Seq<u8>), DecodeError>(
            (v, bytes.skip(next as int)),
        ),
        Err(e) => expected == Err::<(T, Seq<u8>), DecodeError>(e),
    }
}

/// The value of a decoder that has to use up its input: bytes that remain
/// after the value are an error.
pub open spec fn exact<T>(r: Result<(T, Seq<u8>), DecodeError>) -> Result<T, DecodeError> {
    match r {
        Ok((v, rest)) => if rest.len() == 0 {
            Ok(v)
        } else {
            Err(DecodeError::TrailingBytes)
        },
        Err(e) => Err(e),
    }
}

/// What a decoder reports, held against what the grammar says of the same
/// bytes: the same error, or a value whose view is the grammar's value.
pub open spec fn decoded<M: View>(
    r: Result<M, DecodeError>,
    expected: Result<M::V, DecodeError>,
) -> bool {
    match r {
        Ok(m) => expected == Ok::<M::V, DecodeError>(m@),
        Err(e) => expected == Err::<M::V, DecodeError>(e),
    }
}

/// `byteorder::BigEndian::read_u16`: the number that the first two bytes of
/// the buffer spell, high byte first. It panics on a shorter buffer.
#[verifier::external_body]
fn read_u16_be(buf: &[u8]) -> (n: u16)
    requires
        buf@.len() >= 2,
    ensures
        n == be16(buf@[0], buf@[1]),
{
    BigEndian::read_u16(buf)
}

/// `byteorder::LittleEndian::read_u16`: the number that the first two bytes
/// of the buffer spell, low byte first. It panics on a shorter buffer.
#[verifier::external_body]
fn read_u16_le(buf: &[u8]) -> (n: u16)
    requires
        buf@.len() >= 2,
    ensures
        n == be16(buf@[1], buf@[0]),
{
    LittleEndian::read_u16(buf)
}

/// `byteorder::BigEndian::read_u32`: the number that the first four bytes of
/// the buffer spell, most significant first. It panics on a shorter buffer.
#[verifier::external_body]
fn read_u32_be(buf: &[u8]) -> (n: u32)
    requires
        buf@.len() >= 4,
    ensures
        n == be32(buf@[0], buf@[1], buf@[2], buf@[3]),
{
    BigEndian::read_u32(buf)
}

/// `byteorder::LittleEndian::read_u32`: the number that the first four bytes
/// of the buffer spell, least significant first. It panics on a shorter
/// buffer.
#[verifier::external_body]
fn read_u32_le(buf: &[u8]) -> (n: u32)
    requires
        buf@.len() >= 4,
    ensures
        n == be32(buf@[3], buf@[2], buf@[1], buf@[0]),
{
    LittleEndian::read_u32(buf)
}

/// `byteorder::BigEndian::write_u16`, on a buffer of two bytes: the bytes of
/// `n`, high byte first.
#[verifier::external_body]
fn write_u16_be(n: u16) -> (out: [u8; 2])
    ensures
        out@ == u16_bytes(n, true),
{
    let mut out = [0u8; 2];
    BigEndian::write_u16(&mut out, n);
    out
}

/// `byteorder::LittleEndian::write_u16`, on a buffer of two bytes: the bytes
/// of `n`, low byte first.
#[verifier::external_body]
fn write_u16_le(n: u16) -> (out: [u8; 2])
    ensures
        out@ == u16_bytes(n, false),
{
    let mut out = [0u8; 2];
    LittleEndian::write_u16(&mut out, n);
    out
}

/// `byteorder::BigEndian::write_u32`, on a buffer of four bytes: the bytes of
/// `n`, most significant first.
#[verifier::external_body]
fn write_u32_be(n: u32) -> (out: [u8; 4])
    ensures
        out@ == u32_bytes(n, true),
{
    let mut out = [0u8; 4];
    BigEndian::write_u32(&mut out, n);
    out
}

/// `byteorder::LittleEndian::write_u32`, on a buffer of four bytes: the bytes
/// of `n`, least significant first.
#[verifier::external_body]
fn write_u32_le(n: u32) -> (out: [u8; 4])
    ensures
        out@ == u32_bytes(n, false),
{
    let mut out = [0u8; 4];
    LittleEndian::write_u32(&mut out, n);
    out
}

/// `String::from_utf8`: the text that the bytes spell where they are UTF-8,
/// and nothing where they are not.
#[verifier::external_body]
fn string_from_utf8(raw: Vec<u8>) -> (r: Option<String>)
    ensures
        r is Some <==> valid_utf8(raw@),
        r matches Some(s) ==> s@ == decode_utf8(raw@),
{
    match String::from_utf8(raw) {
        Ok(text) => Some(text),
        Err(_) => None,
    }
}

/// Skipping twice is skipping once by the sum.
pub proof fn lemma_skip_skip(s: Seq<u8>, a: int, b: int)
    requires
        0 <= a,
        0 <= b,
        a + b <= s.len(),
    ensures
        s.skip(a).skip(b) == s.skip(a + b),
        s.skip(a).take(b) == s.subrange(a, a + b),
{
    assert(s.skip(a).skip(b) =~= s.skip(a + b));
    assert(s.skip(a).take(b) =~= s.subrange(a, a + b));
}

/// Skipping nothing changes nothing.
pub proof fn lemma_skip_zero(s: Seq<u8>)
    ensures
        s.skip(0) == s,
{
    assert(s.skip(0) =~= s);
}

/// Succeeds where the reader stopped at the end of `bytes`.
pub fn finish(bytes: &[u8], next: usize) -> (r: Result<(), DecodeError>)
    requires
        next <= bytes@.len(),
    ensures
        r is Ok <==> bytes@.skip(next as int).len() == 0,
        r matches Err(e) ==> e == DecodeError::TrailingBytes,
{
    if next == bytes.len() {
        Ok(())
    } else {
        Err(DecodeError::TrailingBytes)
    }
}

/// Reads one byte at `pos`.
pub fn read_u8(bytes: &[u8], pos: usize) -> (r: Result<(u8, usize), DecodeError>)
    requires
        pos <= bytes@.len(),
    ensures
        reads(r, bytes@, take_u8(bytes@.skip(pos as int))),
        r matches Ok((_, next)) ==> next == pos + 1,
{
    if bytes.len() - pos < 1 {
        return Err(DecodeError::Truncated);
    }
    proof {
        lemma_skip_skip(bytes@, pos as int, 1);
    }
    Ok((bytes[pos], pos + 1))
}

/// Reads a 16-bit number at `pos` in the chosen byte order.
pub fn read_u16(bytes: &[u8], pos: usize, big: bool) -> (r: Result<(u16, usize), DecodeError>)
    requires
        pos <= bytes@.len(),
    ensures
        reads(r, bytes@, take_u16(bytes@.skip(pos as int), big)),
        r matches Ok((_, next)) ==> next == pos + 2,
{
    if bytes.len() - pos < 2 {
        return Err(DecodeError::Truncated);
    }
    let field = slice_subrange(bytes, pos, pos + 2);
    let n: u16 = if big {
        read_u16_be(field)
    } else {
        read_u16_le(field)
    };
    proof {
        lemma_skip_skip(bytes@, pos as int, 2);
    }
    Ok((n, pos + 2))
}

/// Reads a 32-bit number at `pos` in the chosen byte order.
pub fn read_u32(bytes: &[u8], pos: usize, big: bool) -> (r: Result<(u32, usize), DecodeError>)
    requires
        pos <= bytes@.len(),
    ensures
        reads(r, bytes@, take_u32(bytes@.skip(pos as int), big)),
        r matches Ok((_, next)) ==> next == pos + 4,
{
    if bytes.len() - pos < 4 {
        return Err(DecodeError::Truncated);
    }
    let field = slice_subrange(bytes, pos, pos + 4);
    let n: u32 = if big {
        read_u32_be(field)
    } else {
        read_u32_le(field)
    };
    proof {
        lemma_skip_skip(bytes@, pos as int, 4);
    }
    Ok((n, pos + 4))
}

/// Reads `n` raw bytes at `pos`.
pub fn read_bytes(bytes: &[u8], pos: usize, n: usize) -> (r: Result<(Vec<u8>, usize), DecodeError>)
    requires
        pos <= bytes@.len(),
    ensures
        match r {
            Ok((v, next)) => next <= bytes@.len() && take_bytes(bytes@.skip(pos as int), n as nat)
                == Ok::<(Seq<u8>, Seq<u8>), DecodeError>((v@, bytes@.skip(next as int))),
            Err(e) => take_bytes(bytes@.skip(pos as int), n as nat) == Err::<
                (Seq<u8>, Seq<u8>),
                DecodeError,
            >(e),
        },
        r matches Ok((_, next)) ==> next == pos + n,
{
    if bytes.len() - pos < n {
        return Err(DecodeError::Truncated);
    }
    let field = slice_subrange(bytes, pos, pos + n);
    let v = slice_to_vec(field);
    proof {
        lemma_skip_skip(bytes@, pos as int, n as int);
    }
    Ok((v, pos + n))
}

/// Reads a string behind a one-byte length at `pos`.
pub fn read_string(bytes: &[u8], pos: usize) -> (r: Result<(String, usize), DecodeError>)
    requires
        pos <= bytes@.len(),
    ensures
        match r {
            Ok((v, next)) => next <= bytes@.len() && take_string(bytes@.skip(pos as int)) == Ok::<
                (Seq<char>, Seq<u8>),
                DecodeError,
            >((v@, bytes@.skip(next as int))),
            Err(e) => take_string(bytes@.skip(pos as int)) == Err::<
                (Seq<char>, Seq<u8>),
                DecodeError,
            >(e),
        },
        r matches Ok((_, next)) ==> next > pos,
{
    let (n, p1) = match read_u8(bytes, pos) {
        Ok(x) => x,
        Err(e) => return Err(e),
    };
    let (raw, p2) = match read_bytes(bytes, p1, n as usize) {
        Ok(x) => x,
        Err(e) => return Err(e),
    };
    match string_from_utf8(raw) {
        Some(text) => Ok((text, p2)),
        None => Err(DecodeError::MalformedString),
    }
}

/// Copies the `N` bytes at `pos` into an array.
pub fn read_array<const N: usize>(bytes: &[u8], pos: usize) -> (out: [u8; N])
    requires
        pos + N <= bytes@.len(),
    ensures
        out@ == bytes@.subrange(pos as int, pos + N),
{
    let mut out: [u8; N] = [0u8; N];
    let len: usize = bytes.len();
    let mut i: usize = 0;
    while i < N
        invariant
            i <= N,
            pos + N <= bytes@.len(),
            bytes@.len() == len,
            forall|j: int| 0 <= j < i ==> out@[j] == bytes@[pos + j],
        decreases N - i,
    {
        out[i] = bytes[pos + i];
        i = i + 1;
    }
    assert(out@ =~= bytes@.subrange(pos as int, pos + N));
    out
}

/// Appends one byte.
pub fn put_u8(out: &mut Vec<u8>, v: u8)
    ensures
        final(out)@ == old(out)@ + seq![v],
{
    out.push(v);
    assert(out@ =~= old(out)@ + seq![v]);
}

/// Appends a 16-bit number in the chosen byte order.
pub fn put_u16(out: &mut Vec<u8>, n: u16, big: bool)
    ensures
        final(out)@ == old(out)@ + u16_bytes(n, big),
{
    let field: [u8; 2] = if big {
        write_u16_be(n)
    } else {
        write_u16_le(n)
    };
    out.extend_from_slice(field.as_slice());
}

/// Appends a 32-bit number in the chosen byte order.
pub fn put_u32(out: &mut Vec<u8>, n: u32, big: bool)
    ensures
        final(out)@ == old(out)@ + u32_bytes(n, big),
{
    let field: [u8; 4] = if big {
        write_u32_be(n)
    } else {
        write_u32_le(n)
    };
    out.extend_from_slice(field.as_slice());
}

/// Appends raw bytes.
pub fn put_bytes(out: &mut Vec<u8>, bytes: &[u8])
    ensures
        final(out)@ == old(out)@ + bytes@,
{
    out.extend_from_slice(bytes);
}

/// Appends a string behind its one-byte length.
pub fn put_string(out: &mut Vec<u8>, text: &str)
    requires
        short_text(text@),
    ensures
        final(out)@ == old(out)@ + string_bytes(text@),
{
    let raw = text.as_bytes();
    let n: usize = raw.len();
    out.push(n as u8);
    out.extend_from_slice(raw);
    assert(out@ =~= old(out)@ + string_bytes(text@));
}

/// Whether the text fits behind a one-byte length.
pub fn is_short_text(text: &str) -> (b: bool)
    ensures
        b == short_text(text@),
{
    text.as_bytes().len() <= 0xff
}

/// The sixteen bytes that carry an IPv4 address: ten zero bytes, two bytes
/// `0xFF`, and the four bytes of the address.
pub open spec fn ipv4_mapped(ip: Seq<u8>) -> Seq<u8> {
    Seq::new(10, |i: int| 0u8) + seq![0xFFu8, 0xFFu8] + ip
}

/// Whether sixteen bytes carry an IPv4 address.
pub open spec fn is_ipv4_mapped(addr: Seq<u8>) -> bool {
    &&& addr.len() == 16
    &&& forall|i: int| 0 <= i < 10 ==> addr[i] == 0
    &&& addr[10] == 0xFF
    &&& addr[11] == 0xFF
}

/// The IPv4 address in its sixteen-byte form.
pub fn map_ipv4(ip: [u8; 4]) -> (addr: [u8; 16])
    ensures
        addr@ == ipv4_mapped(ip@),
        is_ipv4_mapped(addr@),
        addr@.subrange(12, 16) == ip@,
{
    let mut addr: [u8; 16] = [0u8; 16];
    addr[10] = 0xFF;
    addr[11] = 0xFF;
    addr[12] = ip[0];
    addr[13] = ip[1];
    addr[14] = ip[2];
    addr[15] = ip[3];
    assert(addr@ =~= ipv4_mapped(ip@));
    assert(addr@.subrange(12, 16) =~= ip@);
    addr
}

/// The IPv4 address that sixteen bytes carry, if they carry one.
pub fn unmap_ipv4(addr: &[u8; 16]) -> (ip: Option<[u8; 4]>)
    ensures
        ip is Some <==> is_ipv4_mapped(addr@),
        ip matches Some(v) ==> v@ == addr@.subrange(12, 16) && addr@ == ipv4_mapped(v@),
{
    let mut i: usize = 0;
    while i < 10
        invariant
            i <= 10,
            forall|j: int| 0 <= j < i ==> addr@[j] == 0,
        decreases 10 - i,
    {
        if addr[i] != 0 {
            return None;
        }
        i = i + 1;
    }
    if addr[10] != 0xFF || addr[11] != 0xFF {
        return None;
    }
    let ip: [u8; 4] = [addr[12], addr[13], addr[14], addr[15]];
    assert(ip@ =~= addr@.subrange(12, 16));
    assert(addr@ =~= ipv4_mapped(ip@));
    Some(ip)
}

/// Concatenation does not care how it is bracketed.
pub proof fn lemma_concat_assoc(a: Seq<u8>, b: Seq<u8>, c: Seq<u8>)
    ensures
        (a + b) + c == a + (b + c),
{
    assert((a + b) + c =~= a + (b + c));
}

/// A byte that was written is read back, whatever follows.
pub proof fn lemma_take_u8(v: u8, rest: Seq<u8>)
    ensures
        take_u8(seq![v] + rest) == Ok::<(u8, Seq<u8>), DecodeError>((v, rest)),
{
    assert((seq![v] + rest).skip(1) =~= rest);
}

/// A 16-bit number that was written is read back in the same byte order,
/// whatever follows.
pub proof fn lemma_take_u16(n: u16, big: bool, rest: Seq<u8>)
    ensures
        u16_bytes(n, big).len() == 2,
        take_u16(u16_bytes(n, big) + rest, big) == Ok::<(u16, Seq<u8>), DecodeError>((n, rest)),
{
    let s = u16_bytes(n, big) + rest;
    assert(s.skip(2) =~= rest);
    assert(s[0] == u16_bytes(n, big)[0]);
    assert(s[1] == u16_bytes(n, big)[1]);
}

/// A 32-bit number that was written is read back in the same byte order,
/// whatever follows.
pub proof fn lemma_take_u32(n: u32, big: bool, rest: Seq<u8>)
    ensures
        u32_bytes(n, big).len() == 4,
        take_u32(u32_bytes(n, big) + rest, big) == Ok::<(u32, Seq<u8>), DecodeError>((n, rest)),
{
    let s = u32_bytes(n, big) + rest;
    assert(s.skip(4) =~= rest);
    assert(s[0] == u32_bytes(n, big)[0]);
    assert(s[1] == u32_bytes(n, big)[1]);
    assert(s[2] == u32_bytes(n, big)[2]);
    assert(s[3] == u32_bytes(n, big)[3]);
}

/// Raw bytes that were written are read back, whatever follows.
pub proof fn lemma_take_bytes(raw: Seq<u8>, rest: Seq<u8>)
    ensures
        take_bytes(raw + rest, raw.len()) == Ok::<(Seq<u8>, Seq<u8>), DecodeError>((raw, rest)),
{
    let s = raw + rest;
    assert(s.take(raw.len() as int) =~= raw);
    assert(s.skip(raw.len() as int) =~= rest);
}

/// A string that was written is read back, whatever follows.
pub proof fn lemma_take_string(chars: Seq<char>, rest: Seq<u8>)
    requires
        short_text(chars),
    ensures
        take_string(string_bytes(chars) + rest) == Ok::<(Seq<char>, Seq<u8>), DecodeError>(
            (chars, rest),
        ),
{
    let raw = encode_utf8(chars);
    let n = raw.len() as u8;
    lemma_concat_assoc(seq![n], raw, rest);
    lemma_take_u8(n, raw + rest);
    lemma_take_bytes(raw, rest);
    encode_utf8_valid_utf8(chars);
    encode_utf8_decode_utf8(chars);
}

/// A number put together from four bytes comes apart into them.
pub proof fn lemma_be32_parts(b0: u8, b1: u8, b2: u8, b3: u8)
    ensures
        be32(b0, b1, b2, b3) / 0x100_0000 == b0,
        be32(b0, b1, b2, b3) / 0x1_0000 % 0x100 == b1,
        be32(b0, b1, b2, b3) / 0x100 % 0x100 == b2,
        be32(b0, b1, b2, b3) % 0x100 == b3,
{
    let hi: int = b0 as int * 0x100 + b1 as int;
    let mid: int = hi * 0x100 + b2 as int;
    let n: int = mid * 0x100 + b3 as int;
    assert(n == b0 as int * 0x100_0000 + b1 as int * 0x1_0000 + b2 as int * 0x100 + b3 as int);
    assert(0 <= n < 0x1_0000_0000);
    assert(be32(b0, b1, b2, b3) == n);
    assert(n / 0x100 == mid);
    assert(n % 0x100 == b3 as int);
    assert(mid / 0x100 == hi);
    assert(mid % 0x100 == b2 as int);
    assert(hi / 0x100 == b0 as int);
    assert(hi % 0x100 == b1 as int);
    assert(n / 0x1_0000 == hi);
    assert(n / 0x100_0000 == b0 as int);
}

/// The bytes of a number that was read from four bytes are those bytes.
pub proof fn lemma_u32_bytes_of(s: Seq<u8>, big: bool)
    requires
        s.len() == 4,
    ensures
        u32_bytes(u32_at(s, big), big) == s,
{
    if big {
        lemma_be32_parts(s[0], s[1], s[2], s[3]);
    } else {
        lemma_be32_parts(s[3], s[2], s[1], s[0]);
    }
    assert(u32_bytes(u32_at(s, big), big) =~= s);
}

/// The bytes of a number that was read from two bytes are those bytes.
pub proof fn lemma_u16_bytes_of(s: Seq<u8>, big: bool)
    requires
        s.len() == 2,
    ensures
        u16_bytes(u16_at(s, big), big) == s,
{
    assert(u16_bytes(u16_at(s, big), big) =~= s);
}

/// `count` items, each as `item` reads it, and what follows them.
pub open spec fn take_list<T>(
    item: spec_fn(Seq<u8>) -> Result<(T, Seq<u8>), DecodeError>,
    s: Seq<u8>,
    count: nat,
) -> Result<(Seq<T>, Seq<u8>), DecodeError>
    decreases count,
{
    if count == 0 {
        Ok((Seq::<T>::empty(), s))
    } else {
        match item(s) {
            Err(e) => Err(e),
            Ok((x, s1)) => match take_list(item, s1, (count - 1) as nat) {
                Err(e) => Err(e),
                Ok((xs, s2)) => Ok((seq![x] + xs, s2)),
            },
        }
    }
}

/// The items of `list` one after the other, each as `enc` writes it.
pub open spec fn list_wire<T>(enc: spec_fn(T) -> Seq<u8>, list: Seq<T>) -> Seq<u8>
    decreases list.len(),
{
    if list.len() == 0 {
        Seq::<u8>::empty()
    } else {
        enc(list[0]) + list_wire(enc, list.drop_first())
    }
}

/// The result `r` of reading the rest of a list, with the items `acc` that
/// were read before it put in front.
pub open spec fn prepend<T>(acc: Seq<T>, r: Result<(Seq<T>, Seq<u8>), DecodeError>) -> Result<
    (Seq<T>, Seq<u8>),
    DecodeError,
> {
    match r {
        Ok((xs, rest)) => Ok((acc + xs, rest)),
        Err(e) => Err(e),
    }
}

/// Reading a list is reading its first item and then the rest.
pub proof fn lemma_take_list_step<T>(
    item: spec_fn(Seq<u8>) -> Result<(T, Seq<u8>), DecodeError>,
    s: Seq<u8>,
    count: nat,
    acc: Seq<T>,
)
    requires
        count > 0,
    ensures
        item(s) matches Err(e) ==> prepend(acc, take_list(item, s, count)) == Err::<
            (Seq<T>, Seq<u8>),
            DecodeError,
        >(e),
        item(s) matches Ok((x, s1)) ==> prepend(acc, take_list(item, s, count)) == prepend(
            acc.push(x),
            take_list(item, s1, (count - 1) as nat),
        ),
{
    match item(s) {
        Err(e) => {},
        Ok((x, s1)) => {
            match take_list(item, s1, (count - 1) as nat) {
                Err(e) => {},
                Ok((xs, s2)) => {
                    assert(acc + (seq![x] + xs) =~= acc.push(x) + xs);
                },
            }
        },
    }
}

/// Nothing is put in front of the whole list, and a list of no items is
/// read without taking a byte.
pub proof fn lemma_take_list_ends<T>(
    item: spec_fn(Seq<u8>) -> Result<(T, Seq<u8>), DecodeError>,
    s: Seq<u8>,
    count: nat,
    acc: Seq<T>,
)
    ensures
        prepend(Seq::<T>::empty(), take_list(item, s, count)) == take_list(item, s, count),
        prepend(acc, take_list(item, s, 0)) == Ok::<(Seq<T>, Seq<u8>), DecodeError>((acc, s)),
{
    match take_list(item, s, count) {
        Err(e) => {},
        Ok((xs, rest)) => {
            assert(Seq::<T>::empty() + xs =~= xs);
        },
    }
    assert(acc + Seq::<T>::empty() =~= acc);
}

/// Writing a list with one more item at its end appends that item.
pub proof fn lemma_list_wire_push<T>(enc: spec_fn(T) -> Seq<u8>, list: Seq<T>, x: T)
    ensures
        list_wire(enc, list.push(x)) == list_wire(enc, list) + enc(x),
    decreases list.len(),
{
    let longer = list.push(x);
    assert(list_wire(enc, longer) == enc(longer[0]) + list_wire(enc, longer.drop_first()));
    if list.len() == 0 {
        assert(longer.drop_first().len() == 0);
        assert(list_wire(enc, longer.drop_first()) == Seq::<u8>::empty());
        assert(list_wire(enc, list) == Seq::<u8>::empty());
        assert(enc(x) + Seq::<u8>::empty() =~= Seq::<u8>::empty() + enc(x));
    } else {
        assert(longer.drop_first() =~= list.drop_first().push(x));
        lemma_list_wire_push(enc, list.drop_first(), x);
        lemma_concat_assoc(enc(list[0]), list_wire(enc, list.drop_first()), enc(x));
    }
}

/// A list that was written is read back, whatever follows, where each of its
/// items is.
pub proof fn lemma_take_list_roundtrip<T>(
    item: spec_fn(Seq<u8>) -> Result<(T, Seq<u8>), DecodeError>,
    enc: spec_fn(T) -> Seq<u8>,
    list: Seq<T>,
    rest: Seq<u8>,
)
    requires
        forall|i: int, r: Seq<u8>|
            0 <= i < list.len() ==> #[trigger] item(enc(list[i]) + r) == Ok::<
                (T, Seq<u8>),
                DecodeError,
            >((list[i], r)),
    ensures
        take_list(item, list_wire(enc, list) + rest, list.len()) == Ok::<
            (Seq<T>, Seq<u8>),
            DecodeError,
        >((list, rest)),
    decreases list.len(),
{
    if list.len() == 0 {
        assert(list_wire(enc, list) + rest =~= rest);
        assert(list =~= Seq::<T>::empty());
    } else {
        let tail = list.drop_first();
        let after = list_wire(enc, tail) + rest;
        assert(list_wire(enc, list) + rest =~= enc(list[0]) + after);
        assert(item(enc(list[0]) + after) == Ok::<(T, Seq<u8>), DecodeError>((list[0], after)));
        assert forall|i: int, r: Seq<u8>| 0 <= i < tail.len() implies #[trigger] item(
            enc(tail[i]) + r,
        ) == Ok::<(T, Seq<u8>), DecodeError>((tail[i], r)) by {
            assert(tail[i] == list[i + 1]);
        }
        lemma_take_list_roundtrip(item, enc, tail, rest);
        assert(seq![list[0]] + tail =~= list);
    }
}

/// A 16-bit number is read back from the place where its bytes stand.
pub proof fn lemma_u16_at(n: u16, big: bool, s: Seq<u8>, k: int)
    requires
        0 <= k,
        k + 2 <= s.len(),
        s.subrange(k, k + 2) == u16_bytes(n, big),
    ensures
        u16_at(s.skip(k), big) == n,
{
    let field = s.subrange(k, k + 2);
    assert(s.skip(k)[0] == field[0] && s.skip(k)[1] == field[1]);
    lemma_take_u16(n, big, Seq::<u8>::empty());
    let padded = u16_bytes(n, big) + Seq::<u8>::empty();
    assert(padded[0] == field[0] && padded[1] == field[1]);
}

/// A 32-bit number is read back from the place where its bytes stand.
pub proof fn lemma_u32_at(n: u32, big: bool, s: Seq<u8>, k: int)
    requires
        0 <= k,
        k + 4 <= s.len(),
        s.subrange(k, k + 4) == u32_bytes(n, big),
    ensures
        u32_at(s.skip(k), big) == n,
{
    let field = s.subrange(k, k + 4);
    assert(s.skip(k)[0] == field[0] && s.skip(k)[1] == field[1] && s.skip(k)[2] == field[2]
        && s.skip(k)[3] == field[3]);
    lemma_take_u32(n, big, Seq::<u8>::empty());
    let padded = u32_bytes(n, big) + Seq::<u8>::empty();
    assert(padded[0] == field[0] && padded[1] == field[1] && padded[2] == field[2] && padded[3]
        == field[3]);
}

/// The reader of one string, as a grammar for the items of a list.
pub open spec fn string_item() -> spec_fn(Seq<u8>) -> Result<(Seq<char>, Seq<u8>), DecodeError> {
    |s: Seq<u8>| take_string(s)
}

/// The writer of one string, as a grammar for the items of a list.
pub open spec fn string_enc() -> spec_fn(Seq<char>) -> Seq<u8> {
    |chars: Seq<char>| string_bytes(chars)
}

/// Whether every text of the list fits behind a one-byte length.
pub open spec fn short_texts(list: Seq<Seq<char>>) -> bool {
    forall|i: int| 0 <= i < list.len() ==> short_text(#[trigger] list[i])
}

/// A list of strings that was written is read back, whatever follows.
pub proof fn lemma_take_strings(list: Seq<Seq<char>>, rest: Seq<u8>)
    requires
        short_texts(list),
    ensures
        take_list(string_item(), list_wire(string_enc(), list) + rest, list.len()) == Ok::<
            (Seq<Seq<char>>, Seq<u8>),
            DecodeError,
        >((list, rest)),
{
    assert forall|i: int, r: Seq<u8>| 0 <= i < list.len() implies #[trigger] string_item()(
        string_enc()(list[i]) + r,
    ) == Ok::<(Seq<char>, Seq<u8>), DecodeError>((list[i], r)) by {
        lemma_take_string(list[i], r);
    }
    lemma_take_list_roundtrip(string_item(), string_enc(), list, rest);
}

/// Whether every text of the list fits behind a one-byte length.
pub fn are_short_texts(list: &Vec<String>) -> (b: bool)
    ensures
        b == short_texts(list.deep_view()),
{
    let mut i: usize = 0;
    while i < list.len()
        invariant
            i <= list.len(),
            forall|j: int| 0 <= j < i ==> short_text(#[trigger] list.deep_view()[j]),
        decreases list.len() - i,
    {
        if !is_short_text(list[i].as_str()) {
            assert(!short_text(list.deep_view()[i as int]));
            return false;
        }
        i = i + 1;
    }
    true
}

/// Appends the strings of a list, each behind its one-byte length.
pub fn put_strings(out: &mut Vec<u8>, list: &Vec<String>)
    requires
        short_texts(list.deep_view()),
    ensures
        final(out)@ == old(out)@ + list_wire(string_enc(), list.deep_view()),
{
    let ghost before = out@;
    let ghost texts = list.deep_view();
    let mut i: usize = 0;
    assert(texts.take(0) =~= Seq::<Seq<char>>::empty());
    assert(before + Seq::<u8>::empty() =~= before);
    while i < list.len()
        invariant
            i <= list.len(),
            texts == list.deep_view(),
            short_texts(texts),
            out@ == before + list_wire(string_enc(), texts.take(i as int)),
        decreases list.len() - i,
    {
        proof {
            lemma_list_wire_push(string_enc(), texts.take(i as int), texts[i as int]);
            assert(texts.take(i as int).push(texts[i as int]) =~= texts.take(i + 1));
            lemma_concat_assoc(
                before,
                list_wire(string_enc(), texts.take(i as int)),
                string_bytes(texts[i as int]),
            );
        }
        put_string(out, list[i].as_str());
        i = i + 1;
    }
    assert(texts.take(list.len() as int) =~= texts);
}

/// Reads `count` strings at `pos`, each behind its one-byte length.
pub fn read_strings(bytes: &[u8], pos: usize, count: usize) -> (r: Result<
    (Vec<String>, usize),
    DecodeError,
>)
    requires
        pos <= bytes@.len(),
    ensures
        match r {
            Ok((v, next)) => next <= bytes@.len() && take_list(
                string_item(),
                bytes@.skip(pos as int),
                count as nat,
            ) == Ok::<(Seq<Seq<char>>, Seq<u8>), DecodeError>(
                (v.deep_view(), bytes@.skip(next as int)),
            ),
            Err(e) => take_list(string_item(), bytes@.skip(pos as int), count as nat) == Err::<
                (Seq<Seq<char>>, Seq<u8>),
                DecodeError,
            >(e),
        },
{
    let ghost whole = take_list(string_item(), bytes@.skip(pos as int), count as nat);
    let mut acc: Vec<String> = Vec::new();
    let mut at: usize = pos;
    let mut i: usize = 0;
    proof {
        lemma_take_list_ends(string_item(), bytes@.skip(pos as int), count as nat, acc.deep_view());
        assert(acc.deep_view() =~= Seq::<Seq<char>>::empty());
    }
    while i < count
        invariant
            i <= count,
            at <= bytes@.len(),
            whole == take_list(string_item(), bytes@.skip(pos as int), count as nat),
            whole == prepend(
                acc.deep_view(),
                take_list(string_item(), bytes@.skip(at as int), (count - i) as nat),
            ),
        decreases count - i,
    {
        proof {
            lemma_take_list_step(
                string_item(),
                bytes@.skip(at as int),
                (count - i) as nat,
                acc.deep_view(),
            );
            assert(string_item()(bytes@.skip(at as int)) == take_string(bytes@.skip(at as int)));
        }
        let ghost before = acc.deep_view();
        let (text, next) = match read_string(bytes, at) {
            Ok(x) => x,
            Err(e) => return Err(e),
        };
        acc.push(text);
        assert(acc.deep_view() =~= before.push(text@));
        at = next;
        i = i + 1;
    }
    proof {
        lemma_take_list_ends(string_item(), bytes@.skip(at as int), 0, acc.deep_view());
    }
    Ok((acc, at))
}

/// What lies inside the first of two joined runs of bytes lies at the same
/// place in the whole, and the second run is what follows the first.
pub proof fn lemma_split(head: Seq<u8>, tail: Seq<u8>, i: int, j: int)
    requires
        0 <= i <= j <= head.len(),
    ensures
        (head + tail).subrange(i, j) == head.subrange(i, j),
        (head + tail).skip(head.len() as int) == tail,
        (head + tail).skip(i).len() >= j - i,
{
    assert((head + tail).subrange(i, j) =~= head.subrange(i, j));
    assert((head + tail).skip(head.len() as int) =~= tail);
}

/// A list of short strings takes at most 256 bytes for each of them.
pub proof fn lemma_strings_length(list: Seq<Seq<char>>)
    requires
        short_texts(list),
    ensures
        list_wire(string_enc(), list).len() <= 256 * list.len(),
    decreases list.len(),
{
    if list.len() > 0 {
        let tail = list.drop_first();
        assert forall|i: int| 0 <= i < tail.len() implies short_text(#[trigger] tail[i]) by {
            assert(tail[i] == list[i + 1]);
        }
        lemma_strings_length(tail);
        assert(short_text(list[0]));
        assert(string_enc()(list[0]) == string_bytes(list[0]));
    }
}

/// Whether two runs of bytes are the same.
pub fn bytes_eq(a: &[u8], b: &[u8]) -> (r: bool)
    ensures
        r == (a@ == b@),
{
    if a.len() != b.len() {
        return false;
    }
    let mut i: usize = 0;
    while i < a.len()
        invariant
            i <= a.len(),
            a@.len() == b@.len(),
            forall|j: int| 0 <= j < i ==> a@[j] == b@[j],
        decreases a.len() - i,
    {
        if a[i] != b[i] {
            return false;
        }
        i = i + 1;
    }
    assert(a@ =~= b@);
    true
}

/// Whether two texts are the same.
pub fn text_eq(a: &str, b: &str) -> (r: bool)
    ensures
        r == (a@ == b@),
{
    proof {
        encode_utf8_decode_utf8(a@);
        encode_utf8_decode_utf8(b@);
    }
    bytes_eq(a.as_bytes(), b.as_bytes())
}

/// Two 32-bit numbers that take up all of the input.
pub open spec fn parse_u32_pair(s: Seq<u8>, big: bool) -> Result<(u32, u32), DecodeError> {
    if s.len() < 8 {
        Err(DecodeError::Truncated)
    } else if s.len() > 8 {
        Err(DecodeError::TrailingBytes)
    } else {
        Ok((u32_at(s.skip(0), big), u32_at(s.skip(4), big)))
    }
}

/// Two 32-bit numbers that were written one after the other are read back.
pub proof fn lemma_u32_pair(a: u32, b: u32, big: bool)
    ensures
        parse_u32_pair(u32_bytes(a, big) + u32_bytes(b, big), big) == Ok::<
            (u32, u32),
            DecodeError,
        >((a, b)),
{
    let s = u32_bytes(a, big) + u32_bytes(b, big);
    assert(s.subrange(0, 4) =~= u32_bytes(a, big));
    assert(s.subrange(4, 8) =~= u32_bytes(b, big));
    lemma_u32_at(a, big, s, 0);
    lemma_u32_at(b, big, s, 4);
}

/// Reads two 32-bit numbers that take up all of `bytes`.
pub fn read_u32_pair(bytes: &[u8], big: bool) -> (r: Result<(u32, u32), DecodeError>)
    ensures
        r == parse_u32_pair(bytes@, big),
{
    if bytes.len() < 8 {
        return Err(DecodeError::Truncated);
    }
    if bytes.len() > 8 {
        return Err(DecodeError::TrailingBytes);
    }
    let a: u32 = match read_u32(bytes, 0, big) {
        Ok((n, _)) => n,
        Err(e) => return Err(e),
    };
    let b: u32 = match read_u32(bytes, 4, big) {
        Ok((n, _)) => n,
        Err(e) => return Err(e),
    };
    Ok((a, b))
}

/// The bytes of two 32-bit numbers, one after the other.
pub fn write_u32_pair(a: u32, b: u32, big: bool) -> (out: Vec<u8>)
    ensures
        out@ == u32_bytes(a, big) + u32_bytes(b, big),
        out@.len() == 8,
{
    let mut out: Vec<u8> = Vec::new();
    put_u32(&mut out, a, big);
    put_u32(&mut out, b, big);
    assert(out@ =~= u32_bytes(a, big) + u32_bytes(b, big));
    out
}

/// A text of plain ASCII takes one byte for each character, so that it fits
/// behind a one-byte length where it has at most 255 characters.
pub proof fn lemma_ascii_is_short(chars: Seq<char>)
    requires
        is_ascii_chars(chars),
        chars.len() <= 0xff,
    ensures
        short_text(chars),
        encode_utf8(chars).len() == chars.len(),
{
    is_ascii_chars_encode_utf8(chars);
}

/// The protocol name `tcp` fits behind a one-byte length.
pub proof fn lemma_tcp_is_short()
    ensures
        short_text("tcp"@),
{
    reveal_strlit("tcp");
    lemma_ascii_is_short("tcp"@);
}

/// Eight bytes that hold two 32-bit numbers are the bytes of those numbers.
pub proof fn lemma_u32_pair_bytes(s: Seq<u8>, big: bool)
    ensures
        parse_u32_pair(s, big) matches Ok((a, b)) ==> u32_bytes(a, big) + u32_bytes(b, big) == s,
{
    if parse_u32_pair(s, big) is Ok {
        let a = u32_at(s.skip(0), big);
        let b = u32_at(s.skip(4), big);
        lemma_u32_bytes_of(s.subrange(0, 4), big);
        lemma_u32_bytes_of(s.subrange(4, 8), big);
        assert(u32_at(s.subrange(0, 4), big) == a);
        assert(u32_at(s.subrange(4, 8), big) == b);
        assert(u32_bytes(a, big) + u32_bytes(b, big) =~= s);
    }
}

} // verus!
