//! What the library takes from the machine it runs on: fresh identifiers,
//! the clock, and the reading of a path.

use vstd::prelude::*;

verus! {

/// Whether `c` is a decimal digit or one of the letters `a` to `f`.
pub open spec fn is_lower_hex(c: char) -> bool {
    ('0' <= c && c <= '9') || ('a' <= c && c <= 'f')
}

/// The shape of a UUID in its hyphenated lower-case form, such as
/// `67e55044-10b1-426f-9247-bb680e5fe0c8`, with the version digit of a
/// random UUID.
pub open spec fn is_random_uuid_text(s: Seq<char>) -> bool {
    &&& s.len() == 36
    &&& forall|i: int|
        0 <= i < 36 ==> if i == 8 || i == 13 || i == 18 || i == 23 {
            s[i] == '-'
        } else {
            is_lower_hex(#[trigger] s[i])
        }
    &&& s[14] == '4'
}

/// A fresh random identifier, as text.
///
/// Trusted: the body calls `uuid::Uuid::new_v4` and formats the result with
/// its `Display`, which writes the hyphenated lower-case form. The contract
/// claims that shape and the version digit, and nothing of the random bits.
/// `new_v4` panics where the operating system hands out no random bytes.
#[verifier::external_body]
pub(crate) fn fresh_uuid() -> (id: String)
    ensures
        is_random_uuid_text(id@),
{
    uuid::Uuid::new_v4().to_string()
}

/// The seconds since the Unix epoch by the system clock; `None` where the
/// clock stands before the epoch.
///
/// Trusted: the body calls `std::time::SystemTime::elapsed` on
/// `UNIX_EPOCH`, which measures the epoch against the system clock, and
/// takes the whole seconds of the answer. Nothing is claimed of the result.
#[verifier::external_body]
fn seconds_since_epoch() -> (seconds: Option<u64>) {
    std::time::UNIX_EPOCH.elapsed().ok().map(|d| d.as_secs())
}

/// The time in seconds since the Unix epoch, 0 where the system clock
/// stands before it.
pub(crate) fn chrono_timestamp() -> u64 {
    timestamp_of(seconds_since_epoch())
}

/// The timestamp that a reading of the clock gives: the seconds that it
/// shows, and 0 where it shows none.
pub fn timestamp_of(reading: Option<u64>) -> (seconds: u64)
    ensures
        seconds == match reading {
            Some(shown) => shown,
            None => 0,
        },
{
    match reading {
        Some(shown) => shown,
        None => 0,
    }
}

/// Whether `name` is a segment of `path`: a stretch of it that is not
/// empty and holds no slash.
pub open spec fn is_path_segment(name: Seq<char>, path: Seq<char>) -> bool {
    &&& name.len() > 0
    &&& forall|i: int| 0 <= i < name.len() ==> name[i] != '/'
    &&& exists|before: Seq<char>, after: Seq<char>| path == #[trigger] (before + name + after)
}

/// The last segment of `path`, where it has one that names a file.
///
/// Trusted: the body calls `std::path::Path::file_name`, which gives the
/// final component of the path, and takes it as text; the path is text, so
/// nothing is replaced on the way. Which segment is the final one depends
/// on the platform. On every platform a component is a stretch of the path
/// between separators, and the slash is a separator, which is what the
/// contract claims.
#[verifier::external_body]
pub(crate) fn file_name_of(path: &str) -> (name: Option<String>)
    ensures
        name matches Some(text) ==> is_path_segment(text@, path@),
{
    std::path::Path::new(path).file_name().map(|n| n.to_string_lossy().into_owned())
}

} // verus!
