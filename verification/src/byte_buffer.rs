//! Trusted interface to `bytebuffer::ByteBuffer`, the cursor-based byte reader
//! that the ZIP central-directory parser reads through.

use bytebuffer::{ByteBuffer, Endian};
use vstd::prelude::*;

verus! {

#[verifier::external_type_specification]
#[verifier::external_body]
pub struct ExByteBuffer(ByteBuffer);

/// The bytes held by a `ByteBuffer`.
pub uninterp spec fn byte_buffer_bytes(b: ByteBuffer) -> Seq<u8>;

/// The position of a `ByteBuffer`'s read cursor.
pub uninterp spec fn byte_buffer_read_pos(b: ByteBuffer) -> int;

/// Whether a `ByteBuffer` decodes numbers in little-endian order.
pub uninterp spec fn byte_buffer_little_endian(b: ByteBuffer) -> bool;

/// Whether a `ByteBuffer` is in the middle of a bitwise read.
pub uninterp spec fn byte_buffer_pending_bits(b: ByteBuffer) -> bool;

/// The unsigned number that `bytes` encode in the given byte order.
pub open spec fn decode_uint(bytes: Seq<u8>, little: bool) -> nat
    decreases bytes.len(),
{
    if bytes.len() == 0 {
        0
    } else if little {
        bytes[0] as nat + 256 * decode_uint(bytes.drop_first(), little)
    } else {
        decode_uint(bytes.drop_last(), little) * 256 + bytes.last() as nat
    }
}

/// The two's-complement reading of a 64-bit pattern.
pub open spec fn signed64(n: nat) -> int {
    if n < 0x8000_0000_0000_0000 {
        n as int
    } else {
        n - 0x1_0000_0000_0000_0000
    }
}

/// `b2` is `b1` with its read cursor moved to `pos`, all else unchanged.
pub open spec fn same_buffer_at(b1: ByteBuffer, b2: ByteBuffer, pos: int) -> bool {
    &&& byte_buffer_bytes(b2) == byte_buffer_bytes(b1)
    &&& byte_buffer_little_endian(b2) == byte_buffer_little_endian(b1)
    &&& byte_buffer_read_pos(b2) == pos
    &&& !byte_buffer_pending_bits(b2)
}

/// A read of `n` bytes: it succeeds exactly when `n` bytes remain after the cursor;
/// on success the cursor advances by `n`, on failure nothing changes.
pub open spec fn read_outcome(b1: ByteBuffer, b2: ByteBuffer, n: int, ok: bool) -> bool {
    let pos = byte_buffer_read_pos(b1);
    &&& ok <==> pos + n <= byte_buffer_bytes(b1).len()
    &&& ok ==> same_buffer_at(b1, b2, pos + n)
    &&& !ok ==> same_buffer_at(b1, b2, pos)
}

/// The number that the `n` bytes at the cursor of `b` encode in its byte order.
pub open spec fn number_at_cursor(b: ByteBuffer, n: int) -> nat {
    let pos = byte_buffer_read_pos(b);
    decode_uint(byte_buffer_bytes(b).subrange(pos, pos + n), byte_buffer_little_endian(b))
}

/// `ByteBuffer::from_vec`: a buffer over `data`, cursor at the start, big-endian,
/// no bitwise read in progress.
#[verifier::external_body]
pub(crate) fn buffer_from_vec(data: Vec<u8>) -> (b: ByteBuffer)
    ensures
        byte_buffer_bytes(b) == data@,
        byte_buffer_read_pos(b) == 0,
        !byte_buffer_little_endian(b),
        !byte_buffer_pending_bits(b),
{
    ByteBuffer::from_vec(data)
}

/// `ByteBuffer::set_endian`: selects little-endian order when `little` holds,
/// big-endian otherwise; nothing else changes.
#[verifier::external_body]
pub(crate) fn buffer_set_endian(b: &mut ByteBuffer, little: bool)
    ensures
        byte_buffer_bytes(*final(b)) == byte_buffer_bytes(*old(b)),
        byte_buffer_read_pos(*final(b)) == byte_buffer_read_pos(*old(b)),
        byte_buffer_pending_bits(*final(b)) == byte_buffer_pending_bits(*old(b)),
        byte_buffer_little_endian(*final(b)) == little,
{
    if little {
        b.set_endian(Endian::LittleEndian)
    } else {
        b.set_endian(Endian::BigEndian)
    }
}

/// `ByteBuffer::len`: the number of bytes held.
#[verifier::external_body]
pub(crate) fn buffer_len(b: &ByteBuffer) -> (n: usize)
    ensures
        n == byte_buffer_bytes(*b).len(),
        n <= isize::MAX,
{
    b.len()
}

/// `ByteBuffer::get_rpos`: the read cursor.
#[verifier::external_body]
pub(crate) fn buffer_get_rpos(b: &ByteBuffer) -> (pos: usize)
    ensures
        pos == byte_buffer_read_pos(*b),
        pos <= byte_buffer_bytes(*b).len() <= isize::MAX,
{
    b.get_rpos()
}

/// `ByteBuffer::set_rpos`: moves the read cursor to `min(pos, len)`.
#[verifier::external_body]
pub(crate) fn buffer_set_rpos(b: &mut ByteBuffer, pos: usize)
    requires
        !byte_buffer_pending_bits(*old(b)),
    ensures
        same_buffer_at(
            *old(b),
            *final(b),
            if pos < byte_buffer_bytes(*old(b)).len() { pos as int } else { byte_buffer_bytes(*old(b)).len() as int },
        ),
{
    b.set_rpos(pos)
}

/// `ByteBuffer::as_bytes`: the bytes held.
#[verifier::external_body]
pub(crate) fn buffer_as_bytes(b: &ByteBuffer) -> (s: &[u8])
    ensures
        s@ == byte_buffer_bytes(*b),
{
    b.as_bytes()
}

/// `ByteBuffer::read_u16`: two bytes at the cursor in the buffer's byte order.
#[verifier::external_body]
pub(crate) fn buffer_read_u16(b: &mut ByteBuffer) -> (r: Option<u16>)
    requires
        !byte_buffer_pending_bits(*old(b)),
    ensures
        read_outcome(*old(b), *final(b), 2, r is Some),
        r matches Some(v) ==> v == number_at_cursor(*old(b), 2),
{
    match b.read_u16() {
        Ok(v) => Some(v),
        Err(_) => None,
    }
}

/// `ByteBuffer::read_u32`: four bytes at the cursor in the buffer's byte order.
#[verifier::external_body]
pub(crate) fn buffer_read_u32(b: &mut ByteBuffer) -> (r: Option<u32>)
    requires
        !byte_buffer_pending_bits(*old(b)),
    ensures
        read_outcome(*old(b), *final(b), 4, r is Some),
        r matches Some(v) ==> v == number_at_cursor(*old(b), 4),
{
    match b.read_u32() {
        Ok(v) => Some(v),
        Err(_) => None,
    }
}

/// `ByteBuffer::read_i64`: eight bytes at the cursor in the buffer's byte order, as a
/// two's-complement number.
#[verifier::external_body]
pub(crate) fn buffer_read_i64(b: &mut ByteBuffer) -> (r: Option<i64>)
    requires
        !byte_buffer_pending_bits(*old(b)),
    ensures
        read_outcome(*old(b), *final(b), 8, r is Some),
        r matches Some(v) ==> v as int == signed64(number_at_cursor(*old(b), 8)),
{
    match b.read_i64() {
        Ok(v) => Some(v),
        Err(_) => None,
    }
}

/// `ByteBuffer::read_bytes`: `n` bytes at the cursor.
#[verifier::external_body]
pub(crate) fn buffer_read_bytes(b: &mut ByteBuffer, n: usize) -> (r: Option<Vec<u8>>)
    requires
        !byte_buffer_pending_bits(*old(b)),
        byte_buffer_read_pos(*old(b)) + n <= usize::MAX,
    ensures
        read_outcome(*old(b), *final(b), n as int, r is Some),
        r matches Some(v) ==> v@ == byte_buffer_bytes(*old(b)).subrange(
            byte_buffer_read_pos(*old(b)),
            byte_buffer_read_pos(*old(b)) + n,
        ),
{
    match b.read_bytes(n) {
        Ok(v) => Some(v),
        Err(_) => None,
    }
}

} // verus!
