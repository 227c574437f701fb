use vstd::prelude::*;
use vstd::string::StringSliceAdditionalSpecFns;
use firefly_meta::ValidationError;
use crate::files::{NameError, path_part_check, str_from_utf8};
use crate::config::{FullID, id_bytes, is_id_char};
use crate::error::HostError;

verus! {

broadcast use vstd::utf8::encode_utf8_valid_utf8, vstd::utf8::is_char_boundary_iff_not_is_continuation_byte;

/// How many parts a path may have at most: `{data,roms,sys}/AUTHOR_ID/APP_ID/FILE_NAME`.
pub const MAX_DEPTH: usize = 4;

/// The parts of a path: the bytes between its slashes, as `str::split('/')` gives
/// them (an empty path has one empty part).
pub open spec fn split_path(b: Seq<u8>) -> Seq<Seq<u8>>
    decreases b.len(),
{
    if b.len() == 0 {
        seq![Seq::<u8>::empty()]
    } else {
        let rest = split_path(b.drop_first());
        if b[0] == 47 {
            seq![Seq::<u8>::empty()] + rest
        } else {
            rest.update(0, seq![b[0]] + rest[0])
        }
    }
}

/// The check of every part of a path, in order: the error of the first part
/// that is not a valid name.
pub open spec fn parts_check(parts: Seq<Seq<u8>>) -> Result<(), NameError>
    decreases parts.len(),
{
    if parts.len() == 0 {
        Ok(())
    } else {
        match path_part_check(parts[0]) {
            Err(e) => Err(e),
            Ok(_) => parts_check(parts.drop_first()),
        }
    }
}

proof fn lemma_split_nonempty(b: Seq<u8>)
    ensures
        split_path(b).len() >= 1,
    decreases b.len(),
{
    if b.len() > 0 {
        lemma_split_nonempty(b.drop_first());
    }
}

/// A path with no slash is one part.
proof fn lemma_split_no_slash(b: Seq<u8>)
    requires
        forall|i: int| 0 <= i < b.len() ==> b[i] != 47,
    ensures
        split_path(b) == seq![b],
    decreases b.len(),
{
    if b.len() > 0 {
        let t = b.drop_first();
        assert forall|i: int| 0 <= i < t.len() implies t[i] != 47 by {
            assert(t[i] == b[i + 1]);
        }
        lemma_split_no_slash(t);
        assert(b[0] != 47);
        assert(seq![b[0]] + t =~= b);
        assert(split_path(b) == split_path(t).update(0, seq![b[0]] + split_path(t)[0]));
        assert(split_path(b) =~= seq![b]);
    } else {
        assert(b =~= Seq::<u8>::empty());
    }
}

/// A single part that passes makes a path that passes.
proof fn lemma_parts_check_one(p: Seq<u8>)
    requires
        path_part_check(p) is Ok,
    ensures
        parts_check(seq![p]) is Ok,
{
    assert(seq![p].drop_first() =~= Seq::<Seq<u8>>::empty());
    assert(parts_check(Seq::<Seq<u8>>::empty()) is Ok);
    assert(seq![p][0] == p);
}

/// The part before the first slash, then the parts after it.
proof fn lemma_split_at_slash(b: Seq<u8>, j: int)
    requires
        0 <= j < b.len(),
        b[j] == 47,
        forall|i: int| 0 <= i < j ==> b[i] != 47,
    ensures
        split_path(b) == seq![b.subrange(0, j)] + split_path(b.subrange(j + 1, b.len() as int)),
    decreases j,
{
    if j == 0 {
        assert(b.drop_first() =~= b.subrange(1, b.len() as int));
        assert(b.subrange(0, 0) =~= Seq::<u8>::empty());
    } else {
        let t = b.drop_first();
        lemma_split_at_slash(t, j - 1);
        assert(t.subrange(j, t.len() as int) =~= b.subrange(j + 1, b.len() as int));
        assert(seq![b[0]] + t.subrange(0, j - 1) =~= b.subrange(0, j));
        assert(split_path(b) =~= seq![b.subrange(0, j)] + split_path(b.subrange(j + 1, b.len() as int)));
    }
}

/// Parts that all pass leave the check to the parts after them.
proof fn lemma_parts_check_append(a: Seq<Seq<u8>>, b: Seq<Seq<u8>>)
    requires
        parts_check(a) is Ok,
    ensures
        parts_check(a + b) == parts_check(b),
    decreases a.len(),
{
    if a.len() > 0 {
        assert((a + b).drop_first() =~= a.drop_first() + b);
        lemma_parts_check_append(a.drop_first(), b);
    } else {
        assert(a + b =~= b);
    }
}

/// A part that fails fails the whole path.
proof fn lemma_parts_check_fail(a: Seq<Seq<u8>>, p: Seq<u8>, b: Seq<Seq<u8>>)
    requires
        parts_check(a) is Ok,
        path_part_check(p) is Err,
    ensures
        parts_check(a + seq![p] + b) == path_part_check(p),
{
    lemma_parts_check_append(a, seq![p] + b);
    assert(a + seq![p] + b =~= a + (seq![p] + b));
    assert((seq![p] + b)[0] == p);
}

/// The items of a vector of path parts, each as its bytes.
pub uninterp spec fn path_items_of(v: heapless::Vec<&str, 4>) -> Seq<Seq<u8>>;

/// `heapless::Vec::new`: an empty vector with room for 4 parts.
#[verifier::external_body]
fn path_vec_new<'a>() -> (v: heapless::Vec<&'a str, 4>)
    ensures
        path_items_of(v) == Seq::<Seq<u8>>::empty(),
{
    heapless::Vec::new()
}

/// `heapless::Vec::push`: appends the part if the vector has fewer than 4 parts,
/// otherwise gives the part back and leaves the vector as it is.
#[verifier::external_body]
fn path_vec_push<'a>(v: &mut heapless::Vec<&'a str, 4>, part: &'a str) -> (res: Result<(), &'a str>)
    ensures
        path_items_of(*old(v)).len() < 4 ==> res is Ok && path_items_of(*final(v)) == path_items_of(*old(v)).push(
            part.spec_bytes(),
        ),
        path_items_of(*old(v)).len() >= 4 ==> (res matches Err(back) && back == part) && path_items_of(*final(v))
            == path_items_of(*old(v)),
{
    v.push(part)
}

/// `firefly_meta::validate_path_part`, with its error carried over variant by
/// variant: the checks of its source are those of [`path_part_check`], in that order.
#[verifier::external_body]
fn meta_validate_path_part(s: &str) -> (res: Result<(), NameError>)
    ensures
        res == path_part_check(s.spec_bytes()),
{
    match firefly_meta::validate_path_part(s) {
        Ok(()) => Ok(()),
        Err(ValidationError::TrailingMinus) => Err(NameError::TrailingMinus),
        Err(ValidationError::DoubleMinus) => Err(NameError::DoubleMinus),
        Err(ValidationError::Empty) => Err(NameError::Empty),
        Err(ValidationError::InvalidChar(c)) => Err(NameError::InvalidChar(c)),
        Err(ValidationError::InvalidFirstChar(c)) => Err(NameError::InvalidFirstChar(c)),
        Err(ValidationError::TooLong) => Err(NameError::TooLong),
        Err(ValidationError::TrailingSpace) => Err(NameError::TrailingSpace),
        Err(ValidationError::TrailingDot) => Err(NameError::TrailingDot),
    }
}

/// Split a path on its slashes and check each part, see [`split_path`] and
/// [`parts_check`]. A path of more than [`MAX_DEPTH`] parts is a bug of the caller.
pub fn path_parts(path: &str) -> (res: Result<heapless::Vec<&str, 4>, NameError>)
    requires
        split_path(path.spec_bytes()).len() <= MAX_DEPTH,
    ensures
        match parts_check(split_path(path.spec_bytes())) {
            Err(e) => res matches Err(r) && r == e,
            Ok(_) => res matches Ok(v) && path_items_of(v) == split_path(path.spec_bytes()),
        },
{
    let ghost all = path.spec_bytes();
    let mut parts = path_vec_new();
    let mut rest: &str = path;
    loop
        invariant
            all == path.spec_bytes(),
            split_path(all).len() <= 4,
            split_path(all) == path_items_of(parts) + split_path(rest.spec_bytes()),
            parts_check(path_items_of(parts)) is Ok,
        decreases rest.spec_bytes().len(),
    {
        let bytes = rest.as_bytes();
        let ghost rb = rest.spec_bytes();
        let n = bytes.len();
        let mut j: usize = 0;
        while j < n && bytes[j] != 47
            invariant
                n == rb.len(),
                bytes@ == rb,
                0 <= j <= n,
                forall|i: int| 0 <= i < j ==> rb[i] != 47,
            decreases n - j,
        {
            j = j + 1;
        }
        proof {
            lemma_split_nonempty(rb);
        }
        if j == n {
            proof {
                lemma_split_no_slash(rb);
                assert(split_path(all) == path_items_of(parts) + seq![rb]);
            }
            match meta_validate_path_part(rest) {
                Err(e) => {
                    proof {
                        lemma_parts_check_fail(path_items_of(parts), rb, Seq::empty());
                        assert(path_items_of(parts) + seq![rb] + Seq::<Seq<u8>>::empty() =~= split_path(all));
                    }
                    return Err(e);
                },
                Ok(()) => {},
            }
            let ghost before = path_items_of(parts);
            let _ = path_vec_push(&mut parts, rest);
            proof {
                assert(path_items_of(parts) =~= split_path(all));
                lemma_parts_check_one(rb);
                lemma_parts_check_append(before, seq![rb]);
            }
            return Ok(parts);
        }
        proof {
            lemma_split_at_slash(rb, j as int);
            assert(!vstd::utf8::is_continuation_byte(rb[j as int]));
        }
        let (part, tail) = rest.split_at(j);
        proof {
            let tb = tail.spec_bytes();
            assert(tb[0] == 47);
            assert(vstd::utf8::valid_utf8(tb));
            reveal_with_fuel(vstd::utf8::is_char_boundary, 2);
            assert(vstd::utf8::length_of_first_scalar(tb) == 1);
            assert(vstd::utf8::is_char_boundary(tb, 1));
        }
        let (_, next) = tail.split_at(1);
        let ghost pb = part.spec_bytes();
        let ghost nb = next.spec_bytes();
        proof {
            assert(nb =~= rb.subrange(j + 1, rb.len() as int));
            assert(split_path(all) == path_items_of(parts) + seq![pb] + split_path(nb)) by {
                assert(path_items_of(parts) + (seq![pb] + split_path(nb)) =~= path_items_of(parts) + seq![pb]
                    + split_path(nb));
            }
            lemma_split_nonempty(nb);
        }
        match meta_validate_path_part(part) {
            Err(e) => {
                proof {
                    lemma_parts_check_fail(path_items_of(parts), pb, split_path(nb));
                }
                return Err(e);
            },
            Ok(()) => {},
        }
        let ghost before = path_items_of(parts);
        let _ = path_vec_push(&mut parts, part);
        proof {
            assert(path_items_of(parts) == before.push(pb));
            assert(before.push(pb) =~= before + seq![pb]);
            lemma_parts_check_one(pb);
            lemma_parts_check_append(before, seq![pb]);
        }
        rest = next;
    }
}

/// The path and the buffer given by pointers into the app memory of the given size
/// both start in the memory, and the region that starts first ends before the other begins
/// and the other ends within the memory.
pub open spec fn subslices_ok(len: int, path_ptr: int, path_len: int, buf_ptr: int, buf_len: int) -> bool {
    &&& buf_ptr < len
    &&& path_ptr < len
    &&& if path_ptr < buf_ptr {
        path_ptr + path_len <= buf_ptr && buf_len <= len - buf_ptr
    } else {
        buf_ptr + buf_len <= path_ptr && path_len <= len - path_ptr
    }
}

/// The names of the entries of a directory, each as its bytes.
pub open spec fn entry_names(names: Seq<Vec<u8>>) -> Seq<Seq<u8>> {
    names.map_values(|v: Vec<u8>| v@)
}

/// The bytes of a directory listing: for each entry, in order, the length of its
/// name as one byte (modulo 256), then the name.
pub open spec fn listing_bytes(names: Seq<Seq<u8>>) -> Seq<u8>
    decreases names.len(),
{
    if names.len() == 0 {
        Seq::empty()
    } else {
        listing_bytes(names.drop_last()) + seq![(names.last().len() % 256) as u8] + names.last()
    }
}

/// The size of a directory listing: each entry takes its name and one byte more.
pub open spec fn listing_size(names: Seq<Seq<u8>>) -> int
    decreases names.len(),
{
    if names.len() == 0 {
        0
    } else {
        listing_size(names.drop_last()) + names.last().len() + 1
    }
}

/// The size that the listing's buffer must have is the size of the listing.
pub proof fn law_listing_size(names: Seq<Seq<u8>>)
    ensures
        listing_bytes(names).len() == listing_size(names),
    decreases names.len(),
{
    if names.len() > 0 {
        law_listing_size(names.drop_last());
    }
}

/// The listing of the first `k + 1` entries is that of the first `k` and one more entry.
proof fn lemma_listing_step(names: Seq<Seq<u8>>, k: int)
    requires
        0 <= k < names.len(),
    ensures
        listing_size(names.take(k + 1)) == listing_size(names.take(k)) + names[k].len() + 1,
        listing_bytes(names.take(k + 1)) == listing_bytes(names.take(k)) + seq![(names[k].len() % 256) as u8]
            + names[k],
{
    assert(names.take(k + 1).drop_last() =~= names.take(k));
    assert(names.take(k + 1).last() == names[k]);
}

/// The listing of some first entries is no bigger than the whole listing.
proof fn lemma_listing_prefix(names: Seq<Seq<u8>>, k: int)
    requires
        0 <= k <= names.len(),
    ensures
        listing_size(names.take(k)) <= listing_size(names),
    decreases names.len() - k,
{
    if k < names.len() {
        lemma_listing_step(names, k);
        lemma_listing_prefix(names, k + 1);
    } else {
        assert(names.take(k) =~= names);
    }
}

/// The size of the buffer that a directory listing needs, see [`listing_size`].
pub fn dir_listing_size(names: &[Vec<u8>]) -> (res: usize)
    requires
        listing_size(entry_names(names@)) <= usize::MAX,
    ensures
        res == listing_size(entry_names(names@)),
{
    let ghost all = entry_names(names@);
    let mut size: usize = 0;
    let mut k: usize = 0;
    while k < names.len()
        invariant
            all == entry_names(names@),
            all.len() == names@.len(),
            listing_size(all) <= usize::MAX,
            0 <= k <= names.len(),
            size == listing_size(all.take(k as int)),
        decreases names.len() - k,
    {
        proof {
            lemma_listing_step(all, k as int);
            lemma_listing_prefix(all, k + 1);
            assert(all[k as int] == names@[k as int]@);
        }
        size = size + names[k].len() + 1;
        k = k + 1;
    }
    proof {
        assert(all.take(k as int) =~= all);
    }
    size
}

/// Write a directory listing into the start of the buffer, see [`listing_bytes`],
/// and give its size; the rest of the buffer stays as it was. The buffer must fit
/// the listing: [`dir_listing_size`] gives the size it needs.
pub fn write_dir_listing(names: &[Vec<u8>], buf: &mut [u8]) -> (res: usize)
    requires
        listing_size(entry_names(names@)) <= old(buf)@.len(),
    ensures
        res == listing_size(entry_names(names@)),
        final(buf)@.len() == old(buf)@.len(),
        final(buf)@.subrange(0, res as int) == listing_bytes(entry_names(names@)),
        final(buf)@.subrange(res as int, old(buf)@.len() as int) == old(buf)@.subrange(
            res as int,
            old(buf)@.len() as int,
        ),
{
    let ghost all = entry_names(names@);
    let ghost orig = buf@;
    let n = buf.len();
    let mut pos: usize = 0;
    let mut k: usize = 0;
    proof {
        assert(all.take(0) =~= Seq::<Seq<u8>>::empty());
        assert(buf@.subrange(0, 0) =~= Seq::<u8>::empty());
        assert(buf@.subrange(0, n as int) =~= orig.subrange(0, n as int));
    }
    while k < names.len()
        invariant
            all == entry_names(names@),
            all.len() == names@.len(),
            listing_size(all) <= n,
            n == buf@.len(),
            n == orig.len(),
            0 <= k <= names.len(),
            pos == listing_size(all.take(k as int)),
            buf@.subrange(0, pos as int) == listing_bytes(all.take(k as int)),
            buf@.subrange(pos as int, n as int) == orig.subrange(pos as int, n as int),
        decreases names.len() - k,
    {
        let name = &names[k];
        proof {
            lemma_listing_step(all, k as int);
            lemma_listing_prefix(all, k + 1);
            assert(all[k as int] == name@);
            law_listing_size(all.take(k as int));
        }
        let m = name.len();
        let ghost before = buf@;
        buf[pos] = (m % 256) as u8;
        let mut i: usize = 0;
        while i < m
            invariant
                m == name@.len(),
                pos + 1 + m <= n,
                n == buf@.len(),
                n == before.len(),
                0 <= i <= m,
                buf@.subrange(0, pos as int) == before.subrange(0, pos as int),
                buf@[pos as int] == (m % 256) as u8,
                buf@.subrange(pos + 1, pos + 1 + i) == name@.subrange(0, i as int),
                buf@.subrange(pos + 1 + i, n as int) == before.subrange(pos + 1 + i, n as int),
            decreases m - i,
        {
            let ghost inner = buf@;
            buf[pos + 1 + i] = name[i];
            i = i + 1;
            proof {
                assert(buf@.subrange(0, pos as int) =~= inner.subrange(0, pos as int));
                assert(buf@.subrange(pos + 1, pos + 1 + i) =~= name@.subrange(0, i as int)) by {
                    assert forall|t: int| 0 <= t < i implies #[trigger] buf@.subrange(pos + 1, pos + 1 + i)[t]
                        == name@.subrange(0, i as int)[t] by {
                        if t < i - 1 {
                            assert(inner.subrange(pos + 1, pos + i)[t] == name@.subrange(0, i - 1)[t]);
                        }
                    }
                }
                assert(buf@.subrange(pos + 1 + i, n as int) =~= before.subrange(pos + 1 + i, n as int)) by {
                    assert forall|t: int| 0 <= t < n - (pos + 1 + i) implies #[trigger] buf@.subrange(
                        pos + 1 + i,
                        n as int,
                    )[t] == before.subrange(pos + 1 + i, n as int)[t] by {
                        assert(inner.subrange(pos + i, n as int)[t + 1] == before.subrange(pos + i, n as int)[t
                            + 1]);
                    }
                }
            }
        }
        let ghost next = (pos + 1 + m) as int;
        proof {
            assert(buf@.subrange(0, next) =~= buf@.subrange(0, pos as int) + seq![(m % 256) as u8] + name@)
                by {
                assert(name@.subrange(0, m as int) =~= name@);
                assert forall|t: int| 0 <= t < next implies #[trigger] buf@.subrange(0, next)[t] == (
                buf@.subrange(0, pos as int) + seq![(m % 256) as u8] + name@)[t] by {
                    if t < pos {
                        assert(buf@.subrange(0, pos as int)[t] == buf@[t]);
                    } else if t > pos {
                        assert(buf@.subrange(pos + 1, next)[t - pos - 1] == name@[t - pos - 1]);
                    }
                }
            }
            assert(before.subrange(0, pos as int) == listing_bytes(all.take(k as int)));
            assert(before.subrange(next, n as int) =~= orig.subrange(next, n as int)) by {
                assert forall|t: int| 0 <= t < n - next implies #[trigger] before.subrange(next, n as int)[t]
                    == orig.subrange(next, n as int)[t] by {
                    assert(before.subrange(pos as int, n as int)[t + next - pos] == orig.subrange(
                        pos as int,
                        n as int,
                    )[t + next - pos]);
                }
            }
        }
        pos = pos + 1 + m;
        k = k + 1;
    }
    proof {
        assert(all.take(k as int) =~= all);
    }
    pos
}

/// The first byte of an ID that may not appear in an ID, as the error.
pub open spec fn id_chars_check(b: Seq<u8>) -> Result<(), NameError>
    decreases b.len(),
{
    if b.len() == 0 {
        Ok(())
    } else if !is_id_char(b[0]) {
        Err(NameError::InvalidChar(b[0]))
    } else {
        id_chars_check(b.drop_first())
    }
}

/// The check of an author or app ID, in the order of its steps: at most 16
/// bytes, no minus at either end, no two minuses in a row, not empty, and only
/// the bytes of [`is_id_char`].
pub open spec fn id_check(b: Seq<u8>) -> Result<(), NameError> {
    if b.len() > 16 {
        Err(NameError::TooLong)
    } else if b.len() > 0 && (b[0] == 45 || b[b.len() - 1] == 45) {
        Err(NameError::TrailingMinus)
    } else if exists|i: int| 0 <= i < b.len() - 1 && #[trigger] b[i] == 45 && b[i + 1] == 45 {
        Err(NameError::DoubleMinus)
    } else if b.len() == 0 {
        Err(NameError::Empty)
    } else {
        id_chars_check(b)
    }
}

/// `firefly_meta::validate_id`, with its error carried over variant by variant:
/// the checks of its source are those of [`id_check`], in that order.
#[verifier::external_body]
fn meta_validate_id(s: &str) -> (res: Result<(), NameError>)
    ensures
        res == id_check(s.spec_bytes()),
{
    match firefly_meta::validate_id(s) {
        Ok(()) => Ok(()),
        Err(ValidationError::TrailingMinus) => Err(NameError::TrailingMinus),
        Err(ValidationError::DoubleMinus) => Err(NameError::DoubleMinus),
        Err(ValidationError::Empty) => Err(NameError::Empty),
        Err(ValidationError::InvalidChar(c)) => Err(NameError::InvalidChar(c)),
        Err(ValidationError::InvalidFirstChar(c)) => Err(NameError::InvalidFirstChar(c)),
        Err(ValidationError::TooLong) => Err(NameError::TooLong),
        Err(ValidationError::TrailingSpace) => Err(NameError::TrailingSpace),
        Err(ValidationError::TrailingDot) => Err(NameError::TrailingDot),
    }
}

/// The ID that an app gives by a pointer and a length into its memory: the bytes
/// must lie in the memory, be UTF-8, and pass [`id_check`].
pub open spec fn spec_get_id(mem: Seq<u8>, ptr: int, len: int) -> Result<Seq<u8>, HostError> {
    if ptr + len > mem.len() {
        Err(HostError::OomPointer)
    } else {
        let b = mem.subrange(ptr, ptr + len);
        if !vstd::utf8::valid_utf8(b) {
            Err(HostError::IdUtf8)
        } else {
            match id_check(b) {
                Err(e) => Err(HostError::Id(e)),
                Ok(_) => Ok(b),
            }
        }
    }
}

/// Load, parse, and validate an ID, see [`spec_get_id`].
pub fn get_id(data: &[u8], ptr: u32, len: u32) -> (res: Result<&str, HostError>)
    ensures
        match spec_get_id(data@, ptr as int, len as int) {
            Ok(b) => res matches Ok(s) && s.spec_bytes() == b,
            Err(e) => res matches Err(r) && r == e,
        },
{
    let p = ptr as usize;
    let n = len as usize;
    if p > data.len() || n > data.len() - p {
        return Err(HostError::OomPointer);
    }
    let bytes = vstd::slice::slice_subrange(data, p, p + n);
    let id = match str_from_utf8(bytes) {
        None => return Err(HostError::IdUtf8),
        Some(s) => s,
    };
    match meta_validate_id(id) {
        Err(e) => Err(HostError::Id(e)),
        Ok(()) => Ok(id),
    }
}

/// The app that an app with sudo asks to run instead of itself: its author ID
/// and its app ID, each given as by [`get_id`], the author's first.
pub fn run_app_id(data: &[u8], author_ptr: u32, author_len: u32, app_ptr: u32, app_len: u32) -> (res: Result<
    FullID,
    HostError,
>)
    ensures
        match spec_get_id(data@, author_ptr as int, author_len as int) {
            Err(e) => res matches Err(r) && r == e,
            Ok(author) => match spec_get_id(data@, app_ptr as int, app_len as int) {
                Err(e) => res matches Err(r) && r == e,
                Ok(app) => res matches Ok(id) && id_bytes(id.author) == author && id_bytes(id.app) == app,
            },
        },
{
    let author = get_id(data, author_ptr, author_len)?;
    let app = get_id(data, app_ptr, app_len)?;
    // Both IDs passed the check, so each has at most 16 bytes and fits.
    match FullID::from_str(author, app) {
        Some(id) => Ok(id),
        None => Err(HostError::OomPointer),
    }
}

/// Get 2 subslices (one of which is mutable) from a slice.
///
/// The rust borrow checker requires that there is only one mutable reference
/// to a slice or any number of immutable references. If you need to mutate
/// a slice, you cannot have other references to it.
///
/// This function returns a mutable and immutable reference to separate regions
/// of the given slice. It is safe because the function ensures that the regions
/// don't intersect.
pub fn get_safe_subsclices<'a>(
    data: &'a mut [u8],
    path_ptr: u32,
    path_len: u32,
    buf_ptr: u32,
    buf_len: u32,
) -> (res: Option<(&'a [u8], &'a mut [u8])>)
    ensures
        res is Some <==> subslices_ok(
            old(data)@.len() as int,
            path_ptr as int,
            path_len as int,
            buf_ptr as int,
            buf_len as int,
        ),
        res matches Some((path, buf)) ==> {
            &&& path@ == old(data)@.subrange(path_ptr as int, path_ptr + path_len)
            &&& buf@ == old(data)@.subrange(buf_ptr as int, buf_ptr + buf_len)
            &&& final(data)@ == old(data)@.subrange(0, buf_ptr as int) + final(buf)@ + old(data)@.subrange(
                buf_ptr + buf_len,
                old(data)@.len() as int,
            )
        },
        res is None ==> final(data)@ == old(data)@,
{
    let len = data.len();
    let path_ptr = path_ptr as usize;
    let path_len = path_len as usize;
    let buf_ptr = buf_ptr as usize;
    let buf_len = buf_len as usize;
    if buf_ptr >= len || path_ptr >= len {
        return None;
    }
    if path_ptr < buf_ptr {
        if path_len > buf_ptr - path_ptr || buf_len > len - buf_ptr {
            return None;
        }
        let (left, right) = data.split_at_mut(buf_ptr);
        let path = vstd::slice::slice_subrange(left, path_ptr, path_ptr + path_len);
        let (buf, _) = right.split_at_mut(buf_len);
        Some((path, buf))
    } else {
        if buf_len > path_ptr - buf_ptr || path_len > len - path_ptr {
            return None;
        }
        let (left, right) = data.split_at_mut(path_ptr);
        let (_, rest) = left.split_at_mut(buf_ptr);
        let (buf, _) = rest.split_at_mut(buf_len);
        let path = vstd::slice::slice_subrange(right, 0, path_len);
        Some((path, buf))
    }
}

} // verus!
