//! Rendering a commit's recorded time as text with its own UTC offset.

use crate::model::CommitTime;
use vstd::prelude::*;

verus! {

/// What chrono writes for the instant `seconds` after the epoch, seen from
/// the fixed offset `east_seconds` east of UTC, in RFC 3339 form; `None`
/// where chrono cannot represent the instant.
pub uninterp spec fn rfc3339_text(seconds: int, east_seconds: int) -> Option<Seq<char>>;

/// The offset east of UTC, in seconds. The recorded minutes carry their
/// own sign, negative for west of UTC; the recorded sign character only
/// tells a zero written as negative apart, which is the same offset, so
/// the result does not depend on it.
pub open spec fn east_seconds_of(sign: char, offset_minutes: int) -> int {
    offset_minutes * 60
}

/// The instants from the epoch to the end of the year 9999, all of which
/// chrono represents.
pub open spec fn in_plain_range(seconds: int) -> bool {
    0 <= seconds < 253_402_300_800
}

/// An offset is usable when it is less than a day either way.
pub open spec fn offset_in_range(east_seconds: int) -> bool {
    -86_400 < east_seconds < 86_400
}

/// The rendered time of a commit, or `None` where the offset is a day or
/// more, or the instant cannot be represented.
pub open spec fn datetime_text(t: CommitTime) -> Option<Seq<char>> {
    let east = east_seconds_of(t.sign, t.offset_minutes as int);
    if offset_in_range(east) {
        rfc3339_text(t.seconds as int, east)
    } else {
        None
    }
}

/// Calls chrono: `FixedOffset::east_opt` for the zone, `DateTime::from_timestamp`
/// for the instant, then `with_timezone` and `to_rfc3339` for the text. The
/// result is a function of the two numbers alone; it is `None` exactly where
/// `from_timestamp` finds the instant out of the calendar's range, which
/// reaches far beyond the years 1970 to 9999. `east_opt` accepts every
/// offset that the precondition admits.
#[verifier::external_body]
fn rfc3339_at(seconds: i64, east_seconds: i32) -> (r: Option<String>)
    requires
        -86_400 < east_seconds < 86_400,
    ensures
        r is Some <==> rfc3339_text(seconds as int, east_seconds as int) is Some,
        r is Some ==> r.unwrap()@ == rfc3339_text(seconds as int, east_seconds as int).unwrap(),
        in_plain_range(seconds as int) ==> r is Some,
{
    let zone = chrono::FixedOffset::east_opt(east_seconds).unwrap();
    chrono::DateTime::from_timestamp(seconds, 0).map(|utc| utc.with_timezone(&zone).to_rfc3339())
}

/// Renders a commit's time in ISO 8601 form with the commit's own offset
/// (not normalised to UTC): the instant is `seconds`, the offset is the
/// recorded minutes with their sign. Returns `None`, and never panics,
/// where the offset is a day or more or the instant is out of the
/// calendar's range; an instant from 1970 to 9999 with an offset of less
/// than a day always has a text.
pub fn gittime_to_datetime(t: &CommitTime) -> (r: Option<String>)
    ensures
        r is Some <==> datetime_text(*t) is Some,
        r is Some ==> r.unwrap()@ == datetime_text(*t).unwrap(),
        r is Some ==> r.unwrap()@ == rfc3339_text(t.seconds as int, t.offset_minutes * 60).unwrap(),
        !(-1440 < t.offset_minutes < 1440) ==> r is None,
        in_plain_range(t.seconds as int) && -1440 < t.offset_minutes < 1440 ==> r is Some,
{
    let minutes: i32 = t.offset_minutes;
    if minutes <= -1440 || minutes >= 1440 {
        return None;
    }
    let east: i32 = minutes * 60;
    rfc3339_at(t.seconds, east)
}

} // verus!
