use vstd::prelude::*;

verus! {

/// The byte `i` lies in the 4-byte little-endian word at `offset`.
pub open spec fn in_word(offset: int, i: int) -> bool {
    offset <= i < offset + 4
}

/// The WASI call `environ_sizes_get`: an app has no environment variables, so
/// both the number of variables (the word at `offset0`) and the size of their text
/// (the word at `offset1`) are written as zero, and the call succeeds.
pub fn environ_sizes_get(data: &mut [u8], offset0: i32, offset1: i32) -> (res: i32)
    requires
        0 <= offset0,
        offset0 + 4 <= old(data)@.len(),
        0 <= offset1,
        offset1 + 4 <= old(data)@.len(),
    ensures
        res == 0,
        final(data)@.len() == old(data)@.len(),
        forall|i: int|
            0 <= i < old(data)@.len() ==> #[trigger] final(data)@[i] == if in_word(offset0 as int, i) || in_word(
                offset1 as int,
                i,
            ) {
                0u8
            } else {
                old(data)@[i]
            },
{
    let o0 = offset0 as usize;
    let o1 = offset1 as usize;
    data[o0] = 0;
    data[o0 + 1] = 0;
    data[o0 + 2] = 0;
    data[o0 + 3] = 0;
    data[o1] = 0;
    data[o1 + 1] = 0;
    data[o1 + 2] = 0;
    data[o1 + 3] = 0;
    0
}

} // verus!
