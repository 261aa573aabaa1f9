//! Fixed-width byte fields copied out of, and back into, byte sequences.

use vstd::prelude::*;

verus! {

/// Copies the `N` bytes of `bytes` that start at `at` into an array.
pub(crate) fn array_at<const N: usize>(bytes: &[u8], at: usize) -> (out: [u8; N])
    requires
        at + N <= bytes.len(),
    ensures
        out@ == bytes@.subrange(at as int, at + N),
{
    let mut out: [u8; N] = [0u8; N];
    let mut i: usize = 0;
    while i < N
        invariant
            i <= N,
            at + N <= bytes.len(),
            forall|k: int| 0 <= k < i ==> out@[k] == bytes@[at + k],
        decreases N - i,
    {
        out[i] = bytes[at + i];
        i += 1;
    }
    assert(out@ =~= bytes@.subrange(at as int, at + N));
    out
}

/// Appends every byte of `field` to `out`.
pub fn push_bytes(out: &mut Vec<u8>, field: &[u8])
    ensures
        final(out)@ == old(out)@ + field@,
        final(out)@.len() == old(out)@.len() + field@.len(),
{
    let mut i: usize = 0;
    while i < field.len()
        invariant
            i <= field.len(),
            out@ == old(out)@ + field@.subrange(0, i as int),
        decreases field.len() - i,
    {
        out.push(field[i]);
        i += 1;
        assert(out@ =~= old(out)@ + field@.subrange(0, i as int));
    }
    assert(field@.subrange(0, field.len() as int) =~= field@);
}

/// Two windows of `s` that touch, joined, are the window over both.
pub(crate) proof fn lemma_join(s: Seq<u8>, a: int, b: int, c: int)
    requires
        0 <= a <= b <= c <= s.len(),
    ensures
        s.subrange(a, b) + s.subrange(b, c) == s.subrange(a, c),
{
    assert(s.subrange(a, b) + s.subrange(b, c) =~= s.subrange(a, c));
}

/// Where the first `end` bytes of `s` are `head` followed by `tail`, and
/// `head` has `mid` bytes, `s` starts with `head`, and `tail` is what follows
/// up to `end`.
pub(crate) proof fn lemma_split(s: Seq<u8>, head: Seq<u8>, tail: Seq<u8>, mid: int, end: int)
    requires
        head.len() == mid,
        tail.len() == end - mid,
        end <= s.len(),
        s.subrange(0, end) == head + tail,
    ensures
        s.subrange(0, mid) == head,
        s.subrange(mid, end) == tail,
{
    let joined = s.subrange(0, end);
    assert forall|i: int| 0 <= i < mid implies s[i] == head[i] by {
        assert(joined[i] == (head + tail)[i]);
    }
    assert forall|i: int| 0 <= i < end - mid implies s[mid + i] == tail[i] by {
        assert(joined[mid + i] == (head + tail)[mid + i]);
    }
    assert(s.subrange(0, mid) =~= head);
    assert(s.subrange(mid, end) =~= tail);
}

/// Whether `a` and `b` hold the same bytes.
pub fn bytes_equal(a: &[u8], b: &[u8]) -> (equal: bool)
    ensures
        equal == (a@ == b@),
{
    if a.len() != b.len() {
        return false;
    }
    let mut i: usize = 0;
    while i < a.len()
        invariant
            i <= a.len(),
            a.len() == b.len(),
            forall|k: int| 0 <= k < i ==> a@[k] == b@[k],
        decreases a.len() - i,
    {
        if a[i] != b[i] {
            return false;
        }
        i += 1;
    }
    assert(a@ =~= b@);
    true
}

} // verus!
