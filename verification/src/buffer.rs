//! The byte buffers of the `bytes` crate, seen as sequences of bytes, and integers in network
//! byte order.
//!
//! Running out of memory is outside every contract here, as it is for `Vec`.
use vstd::arithmetic::div_mod::lemma_fundamental_div_mod_converse;
use vstd::prelude::*;

verus! {

/// `bytes::BytesMut`, a growable byte buffer.
#[verifier::external_type_specification]
#[verifier::external_body]
pub struct ExBytesMut(bytes::BytesMut);

/// `bytes::Bytes`, a byte buffer that no longer changes.
#[verifier::external_type_specification]
#[verifier::external_body]
pub struct ExBytes(bytes::Bytes);

/// The bytes that a `BytesMut` holds, first to last.
pub uninterp spec fn buffer_bytes(buffer: bytes::BytesMut) -> Seq<u8>;

/// The bytes that a `Bytes` holds, first to last.
pub uninterp spec fn frozen_bytes(buffer: bytes::Bytes) -> Seq<u8>;

/// Calls `BytesMut::new`: the buffer is empty.
#[verifier::external_body]
pub(crate) fn new_buffer() -> (r: bytes::BytesMut)
    ensures
        buffer_bytes(r) == Seq::<u8>::empty(),
{
    bytes::BytesMut::new()
}

/// Calls `BytesMut::from` on a slice: the buffer holds a copy of it.
#[verifier::external_body]
pub(crate) fn buffer_from(bytes: &[u8]) -> (r: bytes::BytesMut)
    ensures
        buffer_bytes(r) == bytes@,
{
    bytes::BytesMut::from(bytes)
}

/// Calls `BytesMut::as_ref`, which hands out the bytes in place.
#[verifier::external_body]
pub(crate) fn buffer_slice(buffer: &bytes::BytesMut) -> (r: &[u8])
    ensures
        r@ == buffer_bytes(*buffer),
{
    buffer.as_ref()
}

/// Calls `BytesMut::len`, the number of bytes held.
#[verifier::external_body]
pub(crate) fn buffer_len(buffer: &bytes::BytesMut) -> (r: usize)
    ensures
        r == buffer_bytes(*buffer).len(),
{
    buffer.len()
}

/// Calls `BytesMut::extend_from_slice`, which appends a copy of the slice.
#[verifier::external_body]
pub(crate) fn put_bytes(buffer: &mut bytes::BytesMut, bytes: &[u8])
    ensures
        buffer_bytes(*final(buffer)) == buffer_bytes(*old(buffer)) + bytes@,
{
    buffer.extend_from_slice(bytes);
}

/// Calls `BufMut::put_u8`, which appends one byte.
#[verifier::external_body]
pub(crate) fn put_u8(buffer: &mut bytes::BytesMut, byte: u8)
    ensures
        buffer_bytes(*final(buffer)) == buffer_bytes(*old(buffer)).push(byte),
{
    bytes::BufMut::put_u8(buffer, byte);
}

/// Calls `BufMut::put_i32`, which appends the four bytes of the number, most significant first.
#[verifier::external_body]
pub(crate) fn put_i32(buffer: &mut bytes::BytesMut, value: i32)
    ensures
        buffer_bytes(*final(buffer)) == buffer_bytes(*old(buffer)) + be_bytes4(value as int),
{
    bytes::BufMut::put_i32(buffer, value);
}

/// Calls `BytesMut::split_to`, which takes the first `at` bytes out of the buffer. The call
/// panics where the buffer is shorter.
#[verifier::external_body]
pub(crate) fn split_to(buffer: &mut bytes::BytesMut, at: usize) -> (r: bytes::BytesMut)
    requires
        at <= buffer_bytes(*old(buffer)).len(),
    ensures
        buffer_bytes(r) == buffer_bytes(*old(buffer)).take(at as int),
        buffer_bytes(*final(buffer)) == buffer_bytes(*old(buffer)).skip(at as int),
{
    buffer.split_to(at)
}

/// Calls `BytesMut::clear`, which drops every byte.
#[verifier::external_body]
pub(crate) fn clear_buffer(buffer: &mut bytes::BytesMut)
    ensures
        buffer_bytes(*final(buffer)) == Seq::<u8>::empty(),
{
    buffer.clear();
}

/// Calls `BytesMut::freeze`, which keeps the bytes.
#[verifier::external_body]
pub(crate) fn freeze(buffer: bytes::BytesMut) -> (r: bytes::Bytes)
    ensures
        frozen_bytes(r) == buffer_bytes(buffer),
{
    buffer.freeze()
}

/// Calls `Bytes::as_ref`, which hands out the bytes in place.
#[verifier::external_body]
pub(crate) fn frozen_slice(buffer: &bytes::Bytes) -> (r: &[u8])
    ensures
        r@ == frozen_bytes(*buffer),
{
    buffer.as_ref()
}

// ---------------------------------------------------------------------------
// Integers in network byte order
// ---------------------------------------------------------------------------

/// The number modulo 2^32, as an unsigned number.
pub open spec fn low32(value: int) -> int {
    value % 0x1_0000_0000
}

/// The low 32 bits of a number as a signed number, as `as i32` gives them.
pub open spec fn wrap32(value: int) -> int {
    if low32(value) < 0x8000_0000 {
        low32(value)
    } else {
        low32(value) - 0x1_0000_0000
    }
}

/// The low 32 bits of a number in four bytes, most significant first.
pub open spec fn be_bytes4(value: int) -> Seq<u8> {
    let u = low32(value);
    seq![
        (u / 0x100_0000) as u8,
        ((u / 0x1_0000) % 0x100) as u8,
        ((u / 0x100) % 0x100) as u8,
        (u % 0x100) as u8,
    ]
}

/// The signed number that four bytes write, most significant first.
pub open spec fn be_value4(a: u8, b: u8, c: u8, d: u8) -> int {
    wrap32(a * 0x100_0000 + b * 0x1_0000 + c * 0x100 + d)
}

/// The signed number in the four bytes of `bytes` from `at` on.
pub open spec fn be_at(bytes: Seq<u8>, at: int) -> int {
    be_value4(bytes[at], bytes[at + 1], bytes[at + 2], bytes[at + 3])
}

/// The signed number in the two bytes of `bytes` from `at` on, most significant first.
pub open spec fn be16_at(bytes: Seq<u8>, at: int) -> int {
    let u = bytes[at] * 0x100 + bytes[at + 1];
    if u < 0x8000 {
        u
    } else {
        u - 0x1_0000
    }
}

/// A number keeps its value through four bytes in network order.
pub proof fn law_be_round_trip(value: i32)
    ensures
        be_bytes4(value as int).len() == 4,
        be_at(be_bytes4(value as int), 0) == value,
{
    let u = low32(value as int);
    assert(0 <= u < 0x1_0000_0000);
    assert(u == (u / 0x100_0000) * 0x100_0000 + ((u / 0x1_0000) % 0x100) * 0x1_0000 + ((u / 0x100)
        % 0x100) * 0x100 + u % 0x100);
    assert(low32(u) == u);
    assert(wrap32(value as int) == value);
}

/// Four bytes keep their value through a number.
pub proof fn law_be_bytes_round_trip(a: u8, b: u8, c: u8, d: u8)
    ensures
        be_bytes4(be_value4(a, b, c, d)) == seq![a, b, c, d],
{
    let u = a * 0x100_0000 + b * 0x1_0000 + c * 0x100 + d;
    assert(0 <= u < 0x1_0000_0000);
    assert(low32(wrap32(u)) == u);
    let ab = a * 0x100 + b;
    let abc = ab * 0x100 + c;
    lemma_fundamental_div_mod_converse(u, 0x100, abc, d as int);
    lemma_fundamental_div_mod_converse(abc, 0x100, ab, c as int);
    lemma_fundamental_div_mod_converse(u, 0x1_0000, ab, c * 0x100 + d);
    lemma_fundamental_div_mod_converse(ab, 0x100, a as int, b as int);
    lemma_fundamental_div_mod_converse(u, 0x100_0000, a as int, b * 0x1_0000 + c * 0x100 + d);
    assert(be_bytes4(be_value4(a, b, c, d)) =~= seq![a, b, c, d]);
}

/// The low 32 bits of a length as a signed number.
pub(crate) fn wrap_i32(value: u128) -> (r: i32)
    ensures
        r == wrap32(value as int),
{
    let low: u64 = (value % 0x1_0000_0000) as u64;
    if low < 0x8000_0000 {
        low as i32
    } else {
        (low as i64 - 0x1_0000_0000i64) as i32
    }
}

/// Reads four bytes in network order from `at` on.
pub(crate) fn read_be32(bytes: &[u8], at: usize) -> (r: i32)
    requires
        at + 4 <= bytes@.len(),
    ensures
        r == be_at(bytes@, at as int),
{
    let u: u64 = (bytes[at] as u64) * 0x100_0000 + (bytes[at + 1] as u64) * 0x1_0000 + (bytes[at
        + 2] as u64) * 0x100 + (bytes[at + 3] as u64);
    if u < 0x8000_0000 {
        u as i32
    } else {
        (u as i64 - 0x1_0000_0000i64) as i32
    }
}

/// Reads two bytes in network order from `at` on.
pub(crate) fn read_be16(bytes: &[u8], at: usize) -> (r: i16)
    requires
        at + 2 <= bytes@.len(),
    ensures
        r == be16_at(bytes@, at as int),
{
    let u: u32 = (bytes[at] as u32) * 0x100 + (bytes[at + 1] as u32);
    if u < 0x8000 {
        u as i16
    } else {
        (u as i32 - 0x1_0000i32) as i16
    }
}

/// Where the first zero byte stands; the length where there is none.
pub open spec fn zero_at(bytes: Seq<u8>) -> int
    decreases bytes.len(),
{
    if bytes.len() == 0 || bytes[0] == 0 {
        0
    } else {
        1 + zero_at(bytes.drop_first())
    }
}

/// Finds the first zero byte.
pub(crate) fn find_zero(bytes: &[u8]) -> (r: usize)
    ensures
        r == zero_at(bytes@),
        r <= bytes@.len(),
        r < bytes@.len() ==> bytes@[r as int] == 0,
{
    let mut i: usize = 0;
    assert(bytes@.skip(0) =~= bytes@);
    while i < bytes.len() && bytes[i] != 0
        invariant
            i <= bytes@.len(),
            i + zero_at(bytes@.skip(i as int)) == zero_at(bytes@),
        decreases bytes@.len() - i,
    {
        assert(bytes@.skip(i as int).drop_first() =~= bytes@.skip(i + 1));
        i += 1;
    }
    i
}

/// Numbers stand with their highest byte first, and a set top bit makes them negative.
pub proof fn law_highest_byte_first(bytes: Seq<u8>, at: int)
    requires
        0 <= at,
        at + 4 <= bytes.len(),
    ensures
        ({
            let plain = 0x100_0000 * bytes[at] + 0x1_0000 * bytes[at + 1] + 0x100 * bytes[at + 2]
                + bytes[at + 3];
            &&& bytes[at] < 128 ==> be_at(bytes, at) == plain
            &&& bytes[at] >= 128 ==> be_at(bytes, at) == plain - 0x1_0000_0000
        }),
        bytes[at] < 128 ==> be16_at(bytes, at) == 0x100 * bytes[at] + bytes[at + 1],
        bytes[at] >= 128 ==> be16_at(bytes, at) == 0x100 * bytes[at] + bytes[at + 1] - 0x1_0000,
{
}

/// The first zero byte stands where it is found, and none before it.
pub proof fn law_first_zero(bytes: Seq<u8>)
    ensures
        0 <= zero_at(bytes) <= bytes.len(),
        zero_at(bytes) < bytes.len() ==> bytes[zero_at(bytes)] == 0,
        forall|i: int| 0 <= i < zero_at(bytes) ==> #[trigger] bytes[i] != 0,
    decreases bytes.len(),
{
    if bytes.len() > 0 && bytes[0] != 0 {
        let rest = bytes.drop_first();
        law_first_zero(rest);
        assert forall|i: int| 0 <= i < zero_at(bytes) implies #[trigger] bytes[i] != 0 by {
            if i > 0 {
                assert(rest[i - 1] == bytes[i]);
            }
        }
    }
}

} // verus!
