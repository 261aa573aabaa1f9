//! Big-endian integers inside byte sequences.

use byteorder::{BigEndian, ByteOrder};
use vstd::arithmetic::div_mod::{lemma_fundamental_div_mod, lemma_fundamental_div_mod_converse};
use vstd::prelude::*;
use vstd::slice::slice_subrange;

verus! {

/// The four bytes of `s` that start at `at`, read as a big-endian integer.
pub open spec fn be_u32_at(s: Seq<u8>, at: int) -> u32
    recommends
        0 <= at,
        at + 4 <= s.len(),
{
    (s[at] * 0x100_0000 + s[at + 1] * 0x1_0000 + s[at + 2] * 0x100 + s[at + 3]) as u32
}

/// The eight bytes of `s` that start at `at`, read as a big-endian integer.
pub open spec fn be_u64_at(s: Seq<u8>, at: int) -> u64
    recommends
        0 <= at,
        at + 8 <= s.len(),
{
    (be_u32_at(s, at) * 0x1_0000_0000 + be_u32_at(s, at + 4)) as u64
}

/// Calls `byteorder::BigEndian::read_u32`. Taken on trust, not proved: the
/// result is the big-endian value of the first four bytes of `buf`, whatever
/// follows them. The outside function panics on a shorter buffer, which the
/// precondition excludes.
#[verifier::external_body]
fn read_be_u32(buf: &[u8]) -> (value: u32)
    requires
        buf@.len() >= 4,
    ensures
        value == be_u32_at(buf@, 0),
{
    BigEndian::read_u32(buf)
}

/// Calls `byteorder::BigEndian::read_u64`. Taken on trust, not proved: the
/// result is the big-endian value of the first eight bytes of `buf`, whatever
/// follows them. The outside function panics on a shorter buffer, which the
/// precondition excludes.
#[verifier::external_body]
fn read_be_u64(buf: &[u8]) -> (value: u64)
    requires
        buf@.len() >= 8,
    ensures
        value == be_u64_at(buf@, 0),
{
    BigEndian::read_u64(buf)
}

/// Reads the big-endian `u32` stored at `at` in `bytes`.
pub(crate) fn u32_at(bytes: &[u8], at: usize) -> (value: u32)
    requires
        at + 4 <= bytes.len(),
    ensures
        value == be_u32_at(bytes@, at as int),
{
    read_be_u32(slice_subrange(bytes, at, at + 4))
}

/// Reads the big-endian `u64` stored at `at` in `bytes`.
pub(crate) fn u64_at(bytes: &[u8], at: usize) -> (value: u64)
    requires
        at + 8 <= bytes.len(),
    ensures
        value == be_u64_at(bytes@, at as int),
{
    read_be_u64(slice_subrange(bytes, at, at + 8))
}

/// The four bytes that hold `x` in big-endian order.
pub open spec fn be_bytes_u32(x: u32) -> Seq<u8> {
    seq![
        (x / 0x100_0000) as u8,
        (x / 0x1_0000 % 0x100) as u8,
        (x / 0x100 % 0x100) as u8,
        (x % 0x100) as u8,
    ]
}

/// The eight bytes that hold `x` in big-endian order.
pub open spec fn be_bytes_u64(x: u64) -> Seq<u8> {
    be_bytes_u32((x / 0x1_0000_0000) as u32) + be_bytes_u32((x % 0x1_0000_0000) as u32)
}

/// Appends the big-endian bytes of `x` to `out`.
pub fn push_be_u32(out: &mut Vec<u8>, x: u32)
    ensures
        final(out)@ == old(out)@ + be_bytes_u32(x),
        final(out)@.len() == old(out)@.len() + 4,
{
    out.push((x / 0x100_0000) as u8);
    out.push((x / 0x1_0000 % 0x100) as u8);
    out.push((x / 0x100 % 0x100) as u8);
    out.push((x % 0x100) as u8);
    assert(out@ =~= old(out)@ + be_bytes_u32(x));
}

/// Appends the big-endian bytes of `x` to `out`.
pub fn push_be_u64(out: &mut Vec<u8>, x: u64)
    ensures
        final(out)@ == old(out)@ + be_bytes_u64(x),
        final(out)@.len() == old(out)@.len() + 8,
{
    push_be_u32(out, (x / 0x1_0000_0000) as u32);
    push_be_u32(out, (x % 0x1_0000_0000) as u32);
    assert(out@ =~= old(out)@ + be_bytes_u64(x));
}

/// Four bytes, joined most significant first, make a 32-bit value from which
/// division and remainder by powers of 256 take each byte out again.
proof fn lemma_bytes_of_joined(b0: u8, b1: u8, b2: u8, b3: u8)
    ensures
        0 <= b0 * 0x100_0000 + b1 * 0x1_0000 + b2 * 0x100 + b3 <= 0xFFFF_FFFF,
        (b0 * 0x100_0000 + b1 * 0x1_0000 + b2 * 0x100 + b3) / 0x100_0000 == b0,
        (b0 * 0x100_0000 + b1 * 0x1_0000 + b2 * 0x100 + b3) / 0x1_0000 % 0x100 == b1,
        (b0 * 0x100_0000 + b1 * 0x1_0000 + b2 * 0x100 + b3) / 0x100 % 0x100 == b2,
        (b0 * 0x100_0000 + b1 * 0x1_0000 + b2 * 0x100 + b3) % 0x100 == b3,
{
    let x: int = b0 * 0x100_0000 + b1 * 0x1_0000 + b2 * 0x100 + b3;
    let top2: int = b0 * 0x100 + b1;
    let top3: int = b0 * 0x1_0000 + b1 * 0x100 + b2;
    lemma_fundamental_div_mod_converse(x, 0x100_0000, b0 as int, b1 * 0x1_0000 + b2 * 0x100 + b3);
    lemma_fundamental_div_mod_converse(x, 0x1_0000, top2, b2 * 0x100 + b3);
    lemma_fundamental_div_mod_converse(top2, 0x100, b0 as int, b1 as int);
    lemma_fundamental_div_mod_converse(x, 0x100, top3, b3 as int);
    lemma_fundamental_div_mod_converse(top3, 0x100, top2, b2 as int);
}

/// A 32-bit value is its four bytes joined most significant first.
proof fn lemma_joined_of_bytes(x: u32)
    ensures
        x / 0x100_0000 < 0x100,
        (x / 0x100_0000) * 0x100_0000 + (x / 0x1_0000 % 0x100) * 0x1_0000 + (x / 0x100 % 0x100)
            * 0x100 + x % 0x100 == x,
{
    let x: int = x as int;
    let top3 = x / 0x100;
    let top2 = top3 / 0x100;
    let top1 = top2 / 0x100;
    lemma_fundamental_div_mod(x, 0x100);
    lemma_fundamental_div_mod(top3, 0x100);
    lemma_fundamental_div_mod(top2, 0x100);
    lemma_fundamental_div_mod_converse(x, 0x1_0000, top2, (top3 % 0x100) * 0x100 + x % 0x100);
    lemma_fundamental_div_mod_converse(
        x,
        0x100_0000,
        top1,
        (top2 % 0x100) * 0x1_0000 + (top3 % 0x100) * 0x100 + x % 0x100,
    );
}

/// Reading back the bytes written for `x` gives `x`.
pub proof fn lemma_u32_read_of_written(x: u32)
    ensures
        be_bytes_u32(x).len() == 4,
        be_u32_at(be_bytes_u32(x), 0) == x,
{
    lemma_joined_of_bytes(x);
}

/// Writing the value read at `at` gives the four bytes that were read.
pub proof fn lemma_u32_written_of_read(s: Seq<u8>, at: int)
    requires
        0 <= at,
        at + 4 <= s.len(),
    ensures
        be_bytes_u32(be_u32_at(s, at)) == s.subrange(at, at + 4),
{
    lemma_bytes_of_joined(s[at], s[at + 1], s[at + 2], s[at + 3]);
    assert(be_bytes_u32(be_u32_at(s, at)) =~= s.subrange(at, at + 4));
}

/// Reading back the bytes written for `x` gives `x`.
pub proof fn lemma_u64_read_of_written(x: u64)
    ensures
        be_bytes_u64(x).len() == 8,
        be_u64_at(be_bytes_u64(x), 0) == x,
{
    let hi = (x / 0x1_0000_0000) as u32;
    let lo = (x % 0x1_0000_0000) as u32;
    lemma_fundamental_div_mod(x as int, 0x1_0000_0000);
    lemma_u32_read_of_written(hi);
    lemma_u32_read_of_written(lo);
    let s = be_bytes_u64(x);
    assert(s[0] == be_bytes_u32(hi)[0] && s[1] == be_bytes_u32(hi)[1] && s[2] == be_bytes_u32(
        hi,
    )[2] && s[3] == be_bytes_u32(hi)[3]);
    assert(s[4] == be_bytes_u32(lo)[0] && s[5] == be_bytes_u32(lo)[1] && s[6] == be_bytes_u32(
        lo,
    )[2] && s[7] == be_bytes_u32(lo)[3]);
    assert(be_u32_at(s, 0) == hi);
    assert(be_u32_at(s, 4) == lo);
}

/// Writing the value read at `at` gives the eight bytes that were read.
pub proof fn lemma_u64_written_of_read(s: Seq<u8>, at: int)
    requires
        0 <= at,
        at + 8 <= s.len(),
    ensures
        be_bytes_u64(be_u64_at(s, at)) == s.subrange(at, at + 8),
{
    lemma_u32_written_of_read(s, at);
    lemma_u32_written_of_read(s, at + 4);
    let hi = be_u32_at(s, at);
    let lo = be_u32_at(s, at + 4);
    let x = be_u64_at(s, at);
    lemma_fundamental_div_mod_converse(x as int, 0x1_0000_0000, hi as int, lo as int);
    assert(s.subrange(at, at + 4) + s.subrange(at + 4, at + 8) =~= s.subrange(at, at + 8));
}

/// Where the four bytes at `at` in `s` are those written for `x`, reading at
/// `at` gives `x`.
pub(crate) proof fn lemma_u32_at_part(s: Seq<u8>, at: int, x: u32)
    requires
        0 <= at,
        at + 4 <= s.len(),
        s.subrange(at, at + 4) == be_bytes_u32(x),
    ensures
        be_u32_at(s, at) == x,
{
    let part = s.subrange(at, at + 4);
    assert(part[0] == s[at] && part[1] == s[at + 1] && part[2] == s[at + 2] && part[3] == s[at
        + 3]);
    lemma_u32_read_of_written(x);
}

/// Where the eight bytes at `at` in `s` are those written for `x`, reading
/// at `at` gives `x`.
pub(crate) proof fn lemma_u64_at_part(s: Seq<u8>, at: int, x: u64)
    requires
        0 <= at,
        at + 8 <= s.len(),
        s.subrange(at, at + 8) == be_bytes_u64(x),
    ensures
        be_u64_at(s, at) == x,
{
    let part = s.subrange(at, at + 8);
    assert(forall|i: int| 0 <= i < 8 ==> part[i] == s[at + i]);
    assert(be_u32_at(part, 0) == be_u32_at(s, at));
    assert(be_u32_at(part, 4) == be_u32_at(s, at + 4));
    lemma_u64_read_of_written(x);
}

} // verus!
