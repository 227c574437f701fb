use vstd::prelude::*;
use crate::runtime::bytes_eq;

verus! {

/// What looking up a device name in the friends file finds.
///
/// The friends file is a list of records, each a length byte followed by that many
/// bytes of a device name. Empty records are skipped. Friend IDs count the names
/// from 1 in the order of the file.
#[derive(Debug, Clone, Copy, PartialEq, Eq, Structural)]
pub enum FriendLookup {
    /// The name is in the file, with this ID.
    Known(u16),
    /// The name is not in the file: append its record, see [`friend_record`],
    /// and it gets this ID.
    New(u16),
    /// The name gets no ID: it is longer than 16 bytes, or the file ends
    /// in the middle of a record before the name is found.
    NoId,
    /// A record longer than 16 bytes comes before the name, or the names
    /// before it are more than a friend ID can count.
    Invalid,
}

/// Scan the records of the friends file from byte `pos` on, where the next name
/// has the ID `i`. When the name isn't found, the ID given is the one after the next.
pub open spec fn scan_friends(file: Seq<u8>, name: Seq<u8>, pos: int, i: int) -> FriendLookup
    decreases file.len() - pos,
{
    if pos < 0 || pos >= file.len() {
        if i + 1 > u16::MAX { FriendLookup::Invalid } else { FriendLookup::New((i + 1) as u16) }
    } else {
        let size = file[pos] as int;
        if size == 0 {
            scan_friends(file, name, pos + 1, i)
        } else if size > 16 {
            FriendLookup::Invalid
        } else if pos + 1 + size > file.len() {
            FriendLookup::NoId
        } else if file.subrange(pos + 1, pos + 1 + size) == name {
            FriendLookup::Known(i as u16)
        } else if i + 1 > u16::MAX {
            FriendLookup::Invalid
        } else {
            scan_friends(file, name, pos + 1 + size, i + 1)
        }
    }
}

/// The ID of a device in the friends file (if there is one), see [`scan_friends`].
/// Without the file, the name is the first friend.
pub open spec fn spec_friend_lookup(file: Option<Seq<u8>>, name: Seq<u8>) -> FriendLookup {
    if name.len() > 16 {
        FriendLookup::NoId
    } else {
        match file {
            None => FriendLookup::New(1),
            Some(f) => scan_friends(f, name, 0, 1),
        }
    }
}

/// Look the device name up in the friends file, see [`spec_friend_lookup`].
pub fn friend_lookup(file: Option<&[u8]>, name: &[u8]) -> (res: FriendLookup)
    ensures
        res == spec_friend_lookup(
            match file {
                Some(f) => Some(f@),
                None => None,
            },
            name@,
        ),
{
    let ghost target = spec_friend_lookup(
        match file {
            Some(f) => Some(f@),
            None => None,
        },
        name@,
    );
    if name.len() > 16 {
        return FriendLookup::NoId;
    }
    let data = match file {
        None => return FriendLookup::New(1),
        Some(f) => f,
    };
    assert(target == scan_friends(data@, name@, 0, 1));
    let n = data.len();
    let mut pos: usize = 0;
    let mut i: u32 = 1;
    loop
        invariant
            n == data@.len(),
            pos <= n,
            1 <= i <= u16::MAX,
            target == scan_friends(data@, name@, pos as int, i as int),
            target == spec_friend_lookup(
                match file {
                    Some(f) => Some(f@),
                    None => None,
                },
                name@,
            ),
        decreases n - pos,
    {
        if pos >= n {
            if i + 1 > 65535 {
                return FriendLookup::Invalid;
            }
            return FriendLookup::New((i + 1) as u16);
        }
        let size = data[pos] as usize;
        if size == 0 {
            pos = pos + 1;
            continue;
        }
        if size > 16 {
            return FriendLookup::Invalid;
        }
        if size > n - pos - 1 {
            return FriendLookup::NoId;
        }
        let record = vstd::slice::slice_subrange(data, pos + 1, pos + 1 + size);
        if bytes_eq(record, name) {
            return FriendLookup::Known(i as u16);
        }
        if i + 1 > 65535 {
            return FriendLookup::Invalid;
        }
        pos = pos + 1 + size;
        i = i + 1;
    }
}

/// The record of a name in the friends file: its length and its bytes.
pub fn friend_record(name: &[u8]) -> (res: Vec<u8>)
    requires
        name@.len() <= 16,
    ensures
        res@ == seq![name@.len() as u8] + name@,
{
    let mut out: Vec<u8> = Vec::new();
    out.push(name.len() as u8);
    let n = name.len();
    let mut k: usize = 0;
    while k < n
        invariant
            n == name@.len(),
            0 <= k <= n,
            out@ == seq![name@.len() as u8] + name@.subrange(0, k as int),
        decreases n - k,
    {
        out.push(name[k]);
        k = k + 1;
        assert(out@ =~= seq![name@.len() as u8] + name@.subrange(0, k as int));
    }
    assert(name@.subrange(0, n as int) =~= name@);
    out
}

/// The first device in a new friends file keeps its ID: without the file, a name gets
/// ID 1, and the file made of its record finds the name with ID 1.
pub proof fn law_first_friend_keeps_id(name: Seq<u8>)
    requires
        0 < name.len() <= 16,
    ensures
        spec_friend_lookup(None, name) == FriendLookup::New(1),
        spec_friend_lookup(Some(seq![name.len() as u8] + name), name) == FriendLookup::Known(1),
{
    let f = seq![name.len() as u8] + name;
    assert(f.subrange(1, 1 + name.len() as int) =~= name);
}

/// A name that the lookup gives ID `id` to, once its record is appended to the file,
/// is found with ID `id - 1`.
pub proof fn law_appended_friend_found_one_lower(file: Seq<u8>, name: Seq<u8>, id: u16)
    requires
        0 < name.len() <= 16,
        scan_friends(file, name, 0, 1) == FriendLookup::New(id),
    ensures
        scan_friends(file + seq![name.len() as u8] + name, name, 0, 1) == FriendLookup::Known((id - 1) as u16),
{
    lemma_scan_append(file, name, 0, 1, id);
}

/// Scanning the file with a record appended goes the same way as scanning the
/// file, up to its end, where it finds the appended name.
proof fn lemma_scan_append(file: Seq<u8>, name: Seq<u8>, pos: int, i: int, id: u16)
    requires
        0 < name.len() <= 16,
        0 <= pos <= file.len(),
        1 <= i,
        scan_friends(file, name, pos, i) == FriendLookup::New(id),
    ensures
        scan_friends(file + seq![name.len() as u8] + name, name, pos, i) == FriendLookup::Known((id - 1) as u16),
    decreases file.len() - pos,
{
    let ext = file + seq![name.len() as u8] + name;
    if pos == file.len() {
        assert(ext[pos] == name.len() as u8);
        assert(ext.subrange(pos + 1, pos + 1 + name.len()) =~= name);
    } else {
        let size = file[pos] as int;
        assert(ext[pos] == file[pos]);
        if size == 0 {
            lemma_scan_append(file, name, pos + 1, i, id);
        } else {
            assert(pos + 1 + size <= file.len());
            assert(ext.subrange(pos + 1, pos + 1 + size) =~= file.subrange(pos + 1, pos + 1 + size));
            lemma_scan_append(file, name, pos + 1 + size, i + 1, id);
        }
    }
}

} // verus!
