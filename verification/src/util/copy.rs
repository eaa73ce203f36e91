//! Copying a range of bytes from one buffer into another.
use vstd::prelude::*;

verus! {

/// `dst` with the `len` bytes at `dst_start` replaced by the `len` bytes of
/// `src` at `src_start`.
pub open spec fn copied(
    dst: Seq<u8>,
    dst_start: int,
    src: Seq<u8>,
    src_start: int,
    len: int,
) -> Seq<u8> {
    Seq::new(
        dst.len(),
        |k: int|
            if dst_start <= k < dst_start + len {
                src[src_start + k - dst_start]
            } else {
                dst[k]
            },
    )
}

/// Copies the `len` bytes of `src` at `src_start` into `dst` at `dst_start`.
pub fn copy_bytes(src: &[u8], src_start: usize, dst: &mut [u8], dst_start: usize, len: usize)
    requires
        src_start + len <= src@.len(),
        dst_start + len <= old(dst)@.len(),
    ensures
        final(dst)@ == copied(old(dst)@, dst_start as int, src@, src_start as int, len as int),
{
    let src_len = src.len();
    let dst_len = dst.len();
    let mut i: usize = 0;
    while i < len
        invariant
            src_len == src@.len(),
            dst_len == dst@.len(),
            i <= len,
            src_start + len <= src@.len(),
            dst_start + len <= old(dst)@.len(),
            dst@ == copied(old(dst)@, dst_start as int, src@, src_start as int, i as int),
        decreases len - i,
    {
        dst[dst_start + i] = src[src_start + i];
        i = i + 1;
        assert(dst@ =~= copied(old(dst)@, dst_start as int, src@, src_start as int, i as int));
    }
}

} // verus!
