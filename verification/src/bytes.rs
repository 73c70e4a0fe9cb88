//! Byte-string helpers shared by the codecs.

use vstd::prelude::*;

verus! {

/// The two bytes of `value`, most significant first.
pub open spec fn be16(value: u16) -> Seq<u8> {
    seq![(value / 256) as u8, (value % 256) as u8]
}

/// The four bytes of `value`, most significant first.
pub open spec fn be32(value: u32) -> Seq<u8> {
    seq![
        (value / 0x100_0000) as u8,
        (value / 0x1_0000 % 256) as u8,
        (value / 256 % 256) as u8,
        (value % 256) as u8,
    ]
}

/// The number whose big-endian bytes are the two bytes at `at`.
pub open spec fn be16_at(bytes: Seq<u8>, at: int) -> u16 {
    (bytes[at] * 256 + bytes[at + 1]) as u16
}

/// The number whose big-endian bytes are the four bytes at `at`.
pub open spec fn be32_at(bytes: Seq<u8>, at: int) -> u32 {
    (bytes[at] * 0x100_0000 + bytes[at + 1] * 0x1_0000 + bytes[at + 2] * 256 + bytes[at + 3]) as u32
}

/// Reading back a 16-bit number that was written big-endian gives the number.
pub proof fn lemma_be16_round_trip(bytes: Seq<u8>, at: int, value: u16)
    requires
        0 <= at,
        at + 2 <= bytes.len(),
        bytes.subrange(at, at + 2) == be16(value),
    ensures
        be16_at(bytes, at) == value,
{
    let part = bytes.subrange(at, at + 2);
    assert(bytes[at] == part[0]);
    assert(bytes[at + 1] == part[1]);
}

/// Reading back a 32-bit number that was written big-endian gives the number.
pub proof fn lemma_be32_round_trip(bytes: Seq<u8>, at: int, value: u32)
    requires
        0 <= at,
        at + 4 <= bytes.len(),
        bytes.subrange(at, at + 4) == be32(value),
    ensures
        be32_at(bytes, at) == value,
{
    let part = bytes.subrange(at, at + 4);
    assert(bytes[at] == part[0]);
    assert(bytes[at + 1] == part[1]);
    assert(bytes[at + 2] == part[2]);
    assert(bytes[at + 3] == part[3]);
}

/// Writing back a 16-bit number that was read big-endian gives its bytes.
pub proof fn lemma_be16_rewritten(bytes: Seq<u8>, at: int)
    requires
        0 <= at,
        at + 2 <= bytes.len(),
    ensures
        be16(be16_at(bytes, at)) == bytes.subrange(at, at + 2),
{
    assert(be16(be16_at(bytes, at)) =~= bytes.subrange(at, at + 2));
}

/// Writing back a 32-bit number that was read big-endian gives its bytes.
pub proof fn lemma_be32_rewritten(bytes: Seq<u8>, at: int)
    requires
        0 <= at,
        at + 4 <= bytes.len(),
    ensures
        be32(be32_at(bytes, at)) == bytes.subrange(at, at + 4),
{
    let (a, b, c, d) = (bytes[at] as int, bytes[at + 1] as int, bytes[at + 2] as int, bytes[at
        + 3] as int);
    let value = be32_at(bytes, at) as int;
    assert(value == a * 0x100_0000 + b * 0x1_0000 + c * 256 + d);
    lemma_base_256_digits(value, a, b, c, d);
    assert(be32(be32_at(bytes, at)) =~= bytes.subrange(at, at + 4));
}

/// The digits of a number in base 256 are what division and remainder give.
proof fn lemma_base_256_digits(value: int, a: int, b: int, c: int, d: int)
    requires
        0 <= a < 256,
        0 <= b < 256,
        0 <= c < 256,
        0 <= d < 256,
        value == a * 0x100_0000 + b * 0x1_0000 + c * 256 + d,
    ensures
        value / 0x100_0000 == a,
        value / 0x1_0000 % 256 == b,
        value / 256 % 256 == c,
        value % 256 == d,
{
    assert(value / 0x1_0000 == a * 256 + b);
    assert(value / 256 == a * 0x1_0000 + b * 256 + c);
}

/// Splits `value` into its two bytes, most significant first.
pub(crate) fn be16_bytes(value: u16) -> (bytes: [u8; 2])
    ensures
        bytes@ == be16(value),
{
    let bytes: [u8; 2] = [(value / 256) as u8, (value % 256) as u8];
    assert(bytes@ =~= be16(value));
    bytes
}

/// Splits `value` into its four bytes, most significant first.
pub(crate) fn be32_bytes(value: u32) -> (bytes: [u8; 4])
    ensures
        bytes@ == be32(value),
{
    let bytes: [u8; 4] = [
        (value / 0x100_0000) as u8,
        (value / 0x1_0000 % 256) as u8,
        (value / 256 % 256) as u8,
        (value % 256) as u8,
    ];
    assert(bytes@ =~= be32(value));
    bytes
}

/// Reads the big-endian 16-bit number at `at`.
pub(crate) fn read_be16(bytes: &[u8], at: usize) -> (value: u16)
    requires
        at + 2 <= bytes@.len(),
    ensures
        value == be16_at(bytes@, at as int),
{
    bytes[at] as u16 * 256 + bytes[at + 1] as u16
}

/// Reads the big-endian 32-bit number at `at`.
pub(crate) fn read_be32(bytes: &[u8], at: usize) -> (value: u32)
    requires
        at + 4 <= bytes@.len(),
    ensures
        value == be32_at(bytes@, at as int),
{
    bytes[at] as u32 * 0x100_0000 + bytes[at + 1] as u32 * 0x1_0000 + bytes[at + 2] as u32 * 256
        + bytes[at + 3] as u32
}

/// Copies `bytes` into `buf`, starting at `at`.
pub(crate) fn put<const N: usize>(buf: &mut [u8; N], at: usize, bytes: &[u8])
    requires
        at + bytes@.len() <= N,
    ensures
        final(buf)@ == old(buf)@.take(at as int) + bytes@ + old(buf)@.skip(at + bytes@.len()),
{
    let ghost before = buf@;
    let mut i: usize = 0;
    while i < bytes.len()
        invariant
            i <= bytes@.len(),
            at + bytes@.len() <= N,
            before.len() == N,
            buf@ == before.take(at as int) + bytes@.take(i as int) + before.skip(at + i),
        decreases bytes@.len() - i,
    {
        let ghost partly = buf@;
        buf[at + i] = bytes[i];
        assert(buf@ =~= partly.update(at + i, bytes@[i as int]));
        i += 1;
        assert(buf@ =~= before.take(at as int) + bytes@.take(i as int) + before.skip(at + i));
    }
    assert(bytes@.take(i as int) =~= bytes@);
}

/// Tells whether two byte strings are equal.
pub(crate) fn same_bytes(a: &[u8], b: &[u8]) -> (same: bool)
    ensures
        same == (a@ == b@),
{
    if a.len() != b.len() {
        return false;
    }
    let mut i: usize = 0;
    while i < a.len()
        invariant
            i <= a@.len() == b@.len(),
            a@.take(i as int) == b@.take(i as int),
        decreases a@.len() - i,
    {
        if a[i] != b[i] {
            assert(a@[i as int] != b@[i as int]);
            return false;
        }
        i += 1;
        assert(a@.take(i as int) =~= a@.take(i - 1).push(a@[i - 1]));
        assert(b@.take(i as int) =~= b@.take(i - 1).push(b@[i - 1]));
    }
    assert(a@.take(i as int) =~= a@);
    assert(b@.take(i as int) =~= b@);
    true
}

/// The bytes of `bytes` from `at` on.
pub(crate) fn tail(bytes: &[u8], at: usize) -> (rest: &[u8])
    requires
        at <= bytes@.len(),
    ensures
        rest@ == bytes@.skip(at as int),
{
    let rest = vstd::slice::slice_subrange(bytes, at, bytes.len());
    assert(rest@ =~= bytes@.skip(at as int));
    rest
}

} // verus!
