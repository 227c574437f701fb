use vstd::prelude::*;
use vstd::string::StringSliceAdditionalSpecFns;

verus! {

broadcast use vstd::utf8::encode_utf8_valid_utf8, vstd::utf8::is_char_boundary_iff_not_is_continuation_byte;

#[verifier::external_type_specification]
#[verifier::external_body]
pub struct ExHeaplessString<const N: usize>(heapless::String<N>);

#[verifier::external_type_specification]
#[verifier::external_body]
pub struct ExValidationError(firefly_types::ValidationError);

/// The bytes of a short ID string.
pub uninterp spec fn id_bytes(s: heapless::String<16>) -> Seq<u8>;

/// `heapless::String::try_from`: the string, if it has at most 16 bytes.
#[verifier::external_body]
pub(crate) fn short_string(s: &str) -> (res: Option<heapless::String<16>>)
    ensures
        res is Some <==> s.spec_bytes().len() <= 16,
        res matches Some(h) ==> id_bytes(h) == s.spec_bytes(),
{
    heapless::String::try_from(s).ok()
}

/// `heapless::String::as_str`: the string with the same bytes.
#[verifier::external_body]
pub(crate) fn short_str(s: &heapless::String<16>) -> (res: &str)
    ensures
        res.spec_bytes() == id_bytes(*s),
{
    s.as_str()
}

/// A byte that may appear in an ID: an ASCII lowercase letter, a digit, or a minus.
pub open spec fn is_id_char(c: u8) -> bool {
    (97 <= c <= 122) || (48 <= c <= 57) || c == 45
}

/// The ID check of `firefly_types::validate_id`: 1 to 16 bytes, only ASCII lowercase
/// letters, digits, and minus, no minus at either end, and no two minuses in a row.
pub open spec fn spec_valid_id(b: Seq<u8>) -> bool {
    &&& 0 < b.len() <= 16
    &&& b[0] != 45
    &&& b[b.len() - 1] != 45
    &&& forall|i: int| 0 <= i < b.len() ==> is_id_char(#[trigger] b[i])
    &&& forall|i: int| 0 <= i < b.len() - 1 ==> !(#[trigger] b[i] == 45 && b[i + 1] == 45)
}

/// `firefly_types::validate_id`: Ok exactly if the ID passes [`spec_valid_id`].
#[verifier::external_body]
pub(crate) fn validate_id(s: &str) -> (res: Result<(), firefly_types::ValidationError>)
    ensures
        res is Ok <==> spec_valid_id(s.spec_bytes()),
{
    firefly_types::validate_id(s)
}

/// The name under which this device joins a multiplayer game: the name from its
/// settings if it has at most 16 bytes, else an empty name.
pub fn device_name(name: &str) -> (res: heapless::String<16>)
    ensures
        id_bytes(res) == if name.spec_bytes().len() <= 16 {
            name.spec_bytes()
        } else {
            Seq::<u8>::empty()
        },
{
    match short_string(name) {
        Some(s) => s,
        None => {
            let empty = short_string("");
            proof {
                reveal_strlit("");
            }
            empty.unwrap()
        },
    }
}

/// Why a full app ID cannot be parsed.
#[derive(Debug, Clone, Copy, PartialEq, Eq, Structural)]
pub enum FullIDError {
    NoDot,
    LongAuthor,
    LongApp,
}

impl FullIDError {
    /// The message shown for the error.
    pub fn as_str(&self) -> (res: &'static str)
        ensures
            res == match *self {
                FullIDError::NoDot => "the full app ID must contain a dot",
                FullIDError::LongAuthor => "author ID is too long",
                FullIDError::LongApp => "app ID is too long",
            },
    {
        match self {
            FullIDError::NoDot => "the full app ID must contain a dot",
            FullIDError::LongAuthor => "author ID is too long",
            FullIDError::LongApp => "app ID is too long",
        }
    }
}

/// Which part of a full app ID is invalid.
pub enum IdValidationError {
    InvalidAuthorID(firefly_types::ValidationError),
    InvalidAppID(firefly_types::ValidationError),
}

/// The author and app ID combo. Must be unique. Cannot be changed.
pub struct FullID {
    pub author: heapless::String<16>,
    pub app: heapless::String<16>,
}

/// The index of the first dot in the bytes, if any.
pub open spec fn first_dot(b: Seq<u8>) -> Option<int> {
    if exists|i: int| 0 <= i < b.len() && b[i] == 46 {
        Some(choose|i: int| 0 <= i < b.len() && b[i] == 46 && forall|j: int| 0 <= j < i ==> b[j] != 46)
    } else {
        None
    }
}

/// The result of parsing a full app ID: the author before the first dot
/// and the app after it, each at most 16 bytes.
pub open spec fn spec_parse_full_id(b: Seq<u8>) -> Result<(Seq<u8>, Seq<u8>), FullIDError> {
    match first_dot(b) {
        None => Err(FullIDError::NoDot),
        Some(d) => if d > 16 {
            Err(FullIDError::LongAuthor)
        } else if b.len() - d - 1 > 16 {
            Err(FullIDError::LongApp)
        } else {
            Ok((b.subrange(0, d), b.subrange(d + 1, b.len() as int)))
        },
    }
}

/// Parsing `author.app` gives back the author and the app, when the author
/// holds no dot and each part has at most 16 bytes.
pub proof fn law_full_id_round_trip(author: Seq<u8>, app: Seq<u8>)
    requires
        author.len() <= 16,
        app.len() <= 16,
        forall|i: int| 0 <= i < author.len() ==> #[trigger] author[i] != 46,
    ensures
        spec_parse_full_id(author + seq![46u8] + app) == Ok::<(Seq<u8>, Seq<u8>), FullIDError>((author, app)),
{
    let b = author + seq![46u8] + app;
    let n = author.len() as int;
    assert(b[n] == 46);
    let d = first_dot(b)->0;
    assert(d == n) by {
        if d < n {
            assert(b[d] == author[d]);
        }
        if d > n {
            assert(b[n] != 46);
        }
    }
    assert(b.subrange(0, n) =~= author);
    assert(b.subrange(n + 1, b.len() as int) =~= app);
}

impl FullID {
    pub fn new(author: heapless::String<16>, app: heapless::String<16>) -> (res: Self)
        ensures
            res.author == author,
            res.app == app,
    {
        FullID { author, app }
    }

    /// The ID from its two parts, if both have at most 16 bytes.
    pub fn from_str(author: &str, app: &str) -> (res: Option<Self>)
        ensures
            res is Some <==> author.spec_bytes().len() <= 16 && app.spec_bytes().len() <= 16,
            res matches Some(id) ==> id_bytes(id.author) == author.spec_bytes() && id_bytes(id.app)
                == app.spec_bytes(),
    {
        let author = short_string(author)?;
        let app = short_string(app)?;
        Some(FullID { author, app })
    }

    pub fn author(&self) -> (res: &str)
        ensures
            res.spec_bytes() == id_bytes(self.author),
    {
        short_str(&self.author)
    }

    pub fn app(&self) -> (res: &str)
        ensures
            res.spec_bytes() == id_bytes(self.app),
    {
        short_str(&self.app)
    }

    /// Check that both parts of the ID are valid IDs.
    pub fn validate(&self) -> (res: Result<(), IdValidationError>)
        ensures
            res matches Err(IdValidationError::InvalidAuthorID(_)) <==> !spec_valid_id(id_bytes(self.author)),
            res matches Err(IdValidationError::InvalidAppID(_)) <==> spec_valid_id(id_bytes(self.author))
                && !spec_valid_id(id_bytes(self.app)),
            res is Ok <==> spec_valid_id(id_bytes(self.author)) && spec_valid_id(id_bytes(self.app)),
    {
        if let Err(err) = validate_id(self.author()) {
            return Err(IdValidationError::InvalidAuthorID(err));
        }
        if let Err(err) = validate_id(self.app()) {
            return Err(IdValidationError::InvalidAppID(err));
        }
        Ok(())
    }

    /// Parse the full app ID: the author ID and the app ID separated by the first dot.
    pub fn try_from_str(value: &str) -> (res: Result<Self, FullIDError>)
        ensures
            match spec_parse_full_id(value.spec_bytes()) {
                Err(e) => res == Err::<FullID, FullIDError>(e),
                Ok((author, app)) => res matches Ok(id) && id_bytes(id.author) == author && id_bytes(id.app) == app,
            },
    {
        let bytes = value.as_bytes();
        let ghost b = bytes@;
        let n = bytes.len();
        let mut dot: usize = 0;
        while dot < n && bytes[dot] != 46
            invariant
                0 <= dot <= n,
                n == b.len(),
                b == bytes@,
                forall|j: int| 0 <= j < dot ==> b[j] != 46,
            decreases n - dot,
        {
            dot = dot + 1;
        }
        if dot == n {
            assert(!(exists|i: int| 0 <= i < b.len() && b[i] == 46));
            return Err(FullIDError::NoDot);
        }
        proof {
            assert(0 <= dot < b.len() && b[dot as int] == 46);
            let d = first_dot(b)->0;
            assert(d == dot) by {
                if d < dot {
                    assert(b[d] != 46);
                }
                if d > dot {
                    assert(b[dot as int] != 46);
                }
            }
            assert(!vstd::utf8::is_continuation_byte(b[dot as int]));
        }
        let (author_id, rest) = value.split_at(dot);
        let author_id = match short_string(author_id) {
            None => return Err(FullIDError::LongAuthor),
            Some(a) => a,
        };
        proof {
            let rb = rest.spec_bytes();
            assert(rb[0] == 46);
            assert(vstd::utf8::valid_utf8(rb));
            reveal_with_fuel(vstd::utf8::is_char_boundary, 2);
            assert(vstd::utf8::length_of_first_scalar(rb) == 1);
            assert(vstd::utf8::is_char_boundary(rb, 1));
        }
        let (_, app_id) = rest.split_at(1);
        assert(app_id.spec_bytes() =~= b.subrange(dot + 1, b.len() as int));
        let app_id = match short_string(app_id) {
            None => return Err(FullIDError::LongApp),
            Some(a) => a,
        };
        Ok(FullID { author: author_id, app: app_id })
    }
}

} // verus!
