//! Identifiers: the UUIDs of chunks, of vector-store points and of
//! sessions, and the time stamps of files.

use vstd::prelude::*;

verus! {

/// A lower-case hexadecimal digit.
pub open spec fn is_lower_hex(c: char) -> bool {
    ('0' <= c && c <= '9') || ('a' <= c && c <= 'f')
}

/// The hyphenated form of a UUID: 32 lower-case hexadecimal digits in
/// groups of 8, 4, 4, 4 and 12, with a hyphen between the groups.
pub open spec fn is_hyphenated_uuid(s: Seq<char>) -> bool {
    &&& s.len() == 36
    &&& forall|i: int|
        0 <= i < 36 ==> if i == 8 || i == 13 || i == 18 || i == 23 {
            #[trigger] s[i] == '-'
        } else {
            is_lower_hex(s[i])
        }
}

/// The hyphenated form of the UUID that `text` denotes: `None` where it
/// denotes none.
pub uninterp spec fn parsed_uuid(text: Seq<char>) -> Option<Seq<char>>;

/// The RFC 3339 text, in UTC, of the instant `secs` seconds and `nanos`
/// nanoseconds after the Unix epoch: `None` where the instant is out of
/// range.
pub uninterp spec fn rfc3339_text(secs: i64, nanos: u32) -> Option<Seq<char>>;

/// Reads a UUID and gives it back in hyphenated form.
///
/// Trusted: this is `uuid::Uuid::parse_str`, a function of the text alone,
/// followed by the `Display` form of the UUID, which the crate writes as
/// the hyphenated lower-case form. The contract names the result and states
/// that form.
#[verifier::external_body]
fn parse_uuid(text: &str) -> (r: Option<String>)
    ensures
        match r {
            Some(id) => parsed_uuid(text@) == Some(id@) && is_hyphenated_uuid(id@),
            None => parsed_uuid(text@) is None,
        },
{
    uuid::Uuid::parse_str(text).ok().map(|id| id.to_string())
}

/// A fresh random UUID in hyphenated form.
///
/// Trusted: this is `uuid::Uuid::new_v4`, which draws random bits, followed
/// by the `Display` form of the UUID. Only the form of the text is claimed.
#[verifier::external_body]
fn random_uuid() -> (r: String)
    ensures
        is_hyphenated_uuid(r@),
{
    uuid::Uuid::new_v4().to_string()
}

/// Whether `text` is the RFC 3339 text, in UTC, of some instant.
pub open spec fn is_rfc3339_stamp(text: Seq<char>) -> bool {
    exists|secs: i64, nanos: u32| rfc3339_text(secs, nanos) == Some(text)
}

/// The current time as RFC 3339 text in UTC.
///
/// Trusted: this is `chrono::Utc::now` written with
/// `chrono::DateTime::to_rfc3339`. It reads the clock, and builds its result
/// with `chrono::DateTime::from_timestamp` from the seconds and nanoseconds
/// that the clock gave. So the contract claims that the text is the RFC 3339
/// text of some instant, and nothing of which one.
#[verifier::external_body]
pub(crate) fn clock_rfc3339() -> (r: String)
    ensures
        is_rfc3339_stamp(r@),
{
    chrono::Utc::now().to_rfc3339()
}

/// Writes an instant as RFC 3339 text in UTC.
///
/// Trusted: this is `chrono::DateTime::from_timestamp`, which gives `None`
/// for an instant out of range, written with `chrono::DateTime::to_rfc3339`.
/// Both are functions of the two numbers alone; the contract only names the
/// result.
#[verifier::external_body]
fn timestamp_rfc3339(secs: i64, nanos: u32) -> (r: Option<String>)
    ensures
        match r {
            Some(text) => rfc3339_text(secs, nanos) == Some(text@),
            None => rfc3339_text(secs, nanos) is None,
        },
{
    chrono::DateTime::<chrono::Utc>::from_timestamp(secs, nanos).map(|t| t.to_rfc3339())
}

/// A fresh identifier, for a chunk or for a session: a random UUID in
/// hyphenated form.
pub fn fresh_uuid() -> (r: String)
    ensures
        is_hyphenated_uuid(r@),
{
    random_uuid()
}

/// The identifier of the vector-store point of a chunk, given what a fresh
/// UUID would be: the chunk's own id in hyphenated form where it is a UUID,
/// else the fresh one.
pub open spec fn spec_point_id(chunk_id: Seq<char>, fresh: Seq<char>) -> Seq<char> {
    match parsed_uuid(chunk_id) {
        Some(id) => id,
        None => fresh,
    }
}

/// The identifier of the vector-store point of a chunk: the chunk's id
/// where it is a UUID, else `fresh`.
pub fn point_id_or(chunk_id: &str, fresh: String) -> (r: String)
    ensures
        r@ == spec_point_id(chunk_id@, fresh@),
{
    match parse_uuid(chunk_id) {
        Some(id) => id,
        None => fresh,
    }
}

/// The identifier of the vector-store point of a chunk: the chunk's id in
/// hyphenated form where it is a UUID, else a fresh random UUID (under which
/// the chunk will not be found again by its id).
pub fn point_id(chunk_id: &str) -> (r: String)
    ensures
        is_hyphenated_uuid(r@),
        parsed_uuid(chunk_id@) matches Some(id) ==> r@ == id,
{
    match parse_uuid(chunk_id) {
        Some(id) => id,
        None => random_uuid(),
    }
}

/// An instant as seconds and nanoseconds after the Unix epoch, from its
/// distance to the epoch and the side it lies on: `None` where the seconds
/// do not fit.
pub open spec fn spec_unix_instant(before_epoch: bool, secs: u64, nanos: u32) -> Option<(i64, u32)> {
    if secs >= 0x7FFF_FFFF_FFFF_FFFF || nanos >= 1_000_000_000 {
        None
    } else if !before_epoch {
        Some((secs as i64, nanos))
    } else if nanos == 0 {
        Some(((-(secs as int)) as i64, 0u32))
    } else {
        Some(((-(secs as int) - 1) as i64, (1_000_000_000 - nanos) as u32))
    }
}

/// The modification time of a file as the ingest state records it, from
/// the distance of the instant to the Unix epoch (`secs` seconds and `nanos`
/// nanoseconds) and whether it lies before the epoch: `None` where the
/// instant is out of range.
pub fn file_stamp(before_epoch: bool, secs: u64, nanos: u32) -> (r: Option<String>)
    ensures
        crate::text::opt_string_view(r) == match spec_unix_instant(before_epoch, secs, nanos) {
            Some((s, n)) => rfc3339_text(s, n),
            None => None,
        },
{
    if secs >= 0x7FFF_FFFF_FFFF_FFFF || nanos >= 1_000_000_000 {
        None
    } else if !before_epoch {
        timestamp_rfc3339(secs as i64, nanos)
    } else if nanos == 0 {
        timestamp_rfc3339(-(secs as i64), 0)
    } else {
        timestamp_rfc3339(-(secs as i64) - 1, 1_000_000_000 - nanos)
    }
}

} // verus!
