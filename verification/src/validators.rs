use vstd::prelude::*;
use vstd::string::StringSliceAdditionalSpecFns;

verus! {

/// ASCII letters and digits.
pub open spec fn is_ascii_alnum(c: u8) -> bool {
    (48 <= c <= 57) || (65 <= c <= 90) || (97 <= c <= 122)
}

/// Bytes that may appear in an author ID or an app ID.
pub open spec fn is_id_byte(c: u8) -> bool {
    is_ascii_alnum(c) || c == 45
}

/// The full app ID check, stated over the bytes of the string: 3 to 40 bytes,
/// only ASCII letters, digits, hyphens and exactly one dot, which is neither the
/// first nor the last byte, so that the author ID and the app ID are not empty.
pub open spec fn spec_valid_full_id(b: Seq<u8>) -> bool {
    &&& 3 <= b.len() <= 40
    &&& b[0] != 46
    &&& b[b.len() - 1] != 46
    &&& exists|i: int| 0 <= i < b.len() && #[trigger] b[i] == 46
    &&& forall|i: int| 0 <= i < b.len() ==> #[trigger] b[i] == 46 || is_id_byte(b[i])
    &&& forall|i: int, j: int| 0 <= i < j < b.len() && #[trigger] b[i] == 46 ==> #[trigger] b[j] != 46
}

fn is_alnum(c: u8) -> (res: bool)
    ensures
        res == is_ascii_alnum(c),
{
    (48 <= c && c <= 57) || (65 <= c && c <= 90) || (97 <= c && c <= 122)
}

/// Validate the full app ID.
///
/// The ID must contain the author ID and the short app ID separated by dot.
/// Both parts should have at least one character and may contain only
/// alphanumeric ASCII characters and hyphen.
pub fn valid_full_id(s: &str) -> (res: bool)
    ensures
        res == spec_valid_full_id(s.spec_bytes()),
{
    let bytes = s.as_bytes();
    let n = bytes.len();
    let ghost b = bytes@;
    let mut dot_found = false;
    let mut i: usize = 0;
    while i < n
        invariant
            b == s.spec_bytes(),
            b == bytes@,
            n == b.len(),
            0 <= i <= n,
            i > 0 ==> b[0] != 46,
            forall|k: int| 0 <= k < i ==> #[trigger] b[k] == 46 || is_id_byte(b[k]),
            forall|k: int, j: int| 0 <= k < j < i && #[trigger] b[k] == 46 ==> #[trigger] b[j] != 46,
            dot_found <==> exists|k: int| 0 <= k < i && #[trigger] b[k] == 46,
        decreases n - i,
    {
        let c = bytes[i];
        if c == 46 {
            // don't start with dot
            if i == 0 {
                return false;
            }
            // only one dot is allowed
            if dot_found {
                let ghost k = choose|k: int| 0 <= k < i && #[trigger] b[k] == 46;
                assert(b[k] == 46 && b[i as int] == 46);
                return false;
            }
            dot_found = true;
        } else if !is_alnum(c) && c != 45 {
            assert(!(b[i as int] == 46 || is_id_byte(b[i as int])));
            return false;
        }
        i = i + 1;
    }
    dot_found && 3 <= n && n <= 40 && bytes[n - 1] != 46
}

} // verus!
