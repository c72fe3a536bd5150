//! Byte-layout helpers shared by the wire formats.

use vstd::prelude::*;

verus! {

/// Copies `src` into `dst` from offset `at` on.
pub(crate) fn copy_into<const N: usize>(dst: &mut [u8; N], at: usize, src: &[u8])
    requires
        at + src@.len() <= N,
    ensures
        final(dst)@ == old(dst)@.subrange(0, at as int) + src@ + old(dst)@.subrange(
            at + src@.len(),
            N as int,
        ),
{
    let mut k: usize = 0;
    while k < src.len()
        invariant
            at + src@.len() <= N,
            k <= src@.len(),
            dst@.len() == N,
            dst@ == old(dst)@.subrange(0, at as int) + src@.subrange(0, k as int) + old(
                dst,
            )@.subrange(at + k, N as int),
        decreases src@.len() - k,
    {
        dst[at + k] = src[k];
        k = k + 1;
        assert(dst@ =~= old(dst)@.subrange(0, at as int) + src@.subrange(0, k as int) + old(
            dst,
        )@.subrange(at + k, N as int));
    }
    assert(src@.subrange(0, k as int) =~= src@);
}

/// Each 32-byte word of `le` with its bytes in reverse order.
pub open spec fn words_reversed(le: Seq<u8>) -> Seq<u8> {
    Seq::new(le.len(), |i: int| le[32 * (i / 32) + 31 - i % 32])
}

/// Writes `le` into `dst` with each 32-byte word reversed.
pub(crate) fn write_words_reversed<const N: usize>(dst: &mut [u8; N], le: &[u8])
    requires
        le@.len() == N,
        N % 32 == 0,
    ensures
        final(dst)@ == words_reversed(le@),
{
    let mut i: usize = 0;
    while i < N
        invariant
            le@.len() == N,
            N % 32 == 0,
            i <= N,
            dst@.len() == N,
            forall|k: int| 0 <= k < i ==> #[trigger] dst@[k] == le@[32 * (k / 32) + 31 - k % 32],
        decreases N - i,
    {
        assert(32 * (i / 32) + 31 - i % 32 < N) by {
            assert(i / 32 < N / 32);
        }
        dst[i] = le[32 * (i / 32) + 31 - i % 32];
        i = i + 1;
    }
    assert(dst@ =~= words_reversed(le@));
}

} // verus!
