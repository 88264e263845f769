use vstd::prelude::*;

use crate::text::text_of;
use crate::trusted::{format_moment, formatted_moment};

verus! {

/// The form in which the index gives a date: year, month, day, hour, minute
/// and second, as a format description of the `time` crate.
pub const DATE_FORMAT: &'static str = "[year]-[month]-[day]-[hour]:[minute]:[second]";

/// The date that the index gives for a modification time, which is counted in
/// seconds from the Unix epoch; `None` where no date can be written for it.
pub open spec fn date_of(unix_seconds: i64) -> Option<Seq<char>> {
    formatted_moment(unix_seconds as int, DATE_FORMAT@)
}

/// Writes a modification time as a date in UTC, in the form `DATE_FORMAT`.
pub fn format_date(unix_seconds: i64) -> (date: Option<String>)
    ensures
        text_of(date) == date_of(unix_seconds),
{
    format_moment(unix_seconds, DATE_FORMAT)
}

} // verus!
