use vstd::prelude::*;

verus! {

/// `Vec::shrink_to_fit`: frees the spare capacity; the items stay as they are.
#[verifier::external_body]
fn shrink_to_fit(v: &mut Vec<u8>)
    ensures
        final(v)@ == old(v)@,
{
    v.shrink_to_fit();
}

/// Replace the content of the vector with the buffer.
pub fn rewrite_vec(stash: &mut Vec<u8>, buf: &[u8])
    ensures
        final(stash)@ == buf@,
{
    let stash_len = stash.len();
    let buf_len = buf.len();
    if stash_len < buf_len {
        let mut i: usize = 0;
        while i < stash_len
            invariant
                stash_len == stash@.len(),
                stash_len < buf_len == buf@.len(),
                0 <= i <= stash_len,
                forall|k: int| 0 <= k < i ==> stash@[k] == buf@[k],
            decreases stash_len - i,
        {
            stash.set(i, buf[i]);
            i = i + 1;
        }
        let mut j: usize = stash_len;
        while j < buf_len
            invariant
                buf_len == buf@.len(),
                stash_len <= j <= buf_len,
                stash@.len() == j,
                forall|k: int| 0 <= k < j ==> stash@[k] == buf@[k],
            decreases buf_len - j,
        {
            stash.push(buf[j]);
            j = j + 1;
        }
        assert(stash@ =~= buf@);
    } else {
        stash.truncate(buf_len);
        shrink_to_fit(stash);
        let mut i: usize = 0;
        while i < buf_len
            invariant
                buf_len == stash@.len(),
                buf_len == buf@.len(),
                0 <= i <= buf_len,
                forall|k: int| 0 <= k < i ==> stash@[k] == buf@[k],
            decreases buf_len - i,
        {
            stash.set(i, buf[i]);
            i = i + 1;
        }
        assert(stash@ =~= buf@);
    }
}

/// The buffer after loading a stash into it: the stash, cut to the buffer's
/// size if it is longer, and the rest of the buffer left as it was.
pub open spec fn loaded(buf: Seq<u8>, stash: Seq<u8>) -> Seq<u8> {
    if stash.len() > buf.len() {
        stash.subrange(0, buf.len() as int)
    } else {
        stash + buf.subrange(stash.len() as int, buf.len() as int)
    }
}

/// What was saved as a stash is what loading it gives back: after a stash
/// holds `data`, loading it into a buffer at least as long puts `data` at the
/// start of the buffer and leaves the rest of it as it was.
pub proof fn law_stash_round_trip(buf: Seq<u8>, data: Seq<u8>)
    requires
        data.len() <= buf.len(),
    ensures
        loaded(buf, data).len() == buf.len(),
        loaded(buf, data).subrange(0, data.len() as int) == data,
        loaded(buf, data).subrange(data.len() as int, buf.len() as int)
            == buf.subrange(data.len() as int, buf.len() as int),
{
    assert(loaded(buf, data).subrange(0, data.len() as int) =~= data);
    assert(loaded(buf, data).subrange(data.len() as int, buf.len() as int)
        =~= buf.subrange(data.len() as int, buf.len() as int));
}

/// Copy the stash into the buffer (as much of it as fits).
///
/// Returns the stash size and whether the whole stash fit into the buffer.
pub fn load_stash(stash: &[u8], buf: &mut [u8]) -> (res: (u32, bool))
    requires
        stash@.len() <= u32::MAX,
    ensures
        res.0 == stash@.len(),
        res.1 == (stash@.len() <= old(buf)@.len()),
        final(buf)@ == loaded(old(buf)@, stash@),
{
    let stash_len = stash.len();
    let buf_len = buf.len();
    let n = if stash_len > buf_len { buf_len } else { stash_len };
    let mut i: usize = 0;
    while i < n
        invariant
            n <= stash_len == stash@.len(),
            n <= buf_len == buf@.len(),
            buf_len == old(buf)@.len(),
            n == (if stash_len > buf_len { buf_len } else { stash_len }),
            0 <= i <= n,
            forall|k: int| 0 <= k < i ==> buf@[k] == stash@[k],
            forall|k: int| i <= k < buf_len ==> buf@[k] == old(buf)@[k],
        decreases n - i,
    {
        buf[i] = stash[i];
        i = i + 1;
    }
    assert(buf@ =~= loaded(old(buf)@, stash@));
    (stash_len as u32, stash_len <= buf_len)
}

} // verus!
