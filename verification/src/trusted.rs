use vstd::prelude::*;

use crate::date::DATE_FORMAT;
use crate::text::text_of;

verus! {

/// What the `time` crate writes for the moment `unix_seconds` after the Unix
/// epoch, taken in UTC, under the format description `description`; `None`
/// where it writes nothing, because it cannot hold the moment, cannot read
/// the description or cannot format the one by the other.
pub uninterp spec fn formatted_moment(unix_seconds: int, description: Seq<char>) -> Option<Seq<char>>;

/// Calls `time::OffsetDateTime::from_unix_timestamp` for the moment,
/// `time::format_description::parse_borrowed::<1>` for the description and
/// `time::OffsetDateTime::format` with the two.
///
/// Believed, not proved: what comes back depends on the two arguments alone,
/// and is `None` exactly where one of the three calls fails. The claim is made
/// for the one description that the library uses.
#[verifier::external_body]
pub(crate) fn format_moment(unix_seconds: i64, description: &str) -> (text: Option<String>)
    requires
        description@ == DATE_FORMAT@,
    ensures
        text_of(text) == formatted_moment(unix_seconds as int, description@),
{
    let moment = time::OffsetDateTime::from_unix_timestamp(unix_seconds).ok()?;
    let items = time::format_description::parse_borrowed::<1>(description).ok()?;
    moment.format(&items).ok()
}

/// What `std` writes for a string under `{:?}`: the text between double
/// quotes, with its special characters escaped.
pub uninterp spec fn debug_text(text: Seq<char>) -> Seq<char>;

/// Formats `text` with `format!` under `{:?}`, which is the `Debug`
/// implementation of `str`.
///
/// Believed, not proved: what comes back depends on the text alone.
#[verifier::external_body]
pub(crate) fn debug_string(text: &str) -> (quoted: String)
    ensures
        quoted@ == debug_text(text@),
{
    format!("{:?}", text)
}

} // verus!
