//! Points in time.
use crate::names::is_plain_name;
use crate::text::{concat2, decimal, decimal_text, law_decimal_notation, number_of};
use vstd::prelude::*;
use vstd::string::StringExecFns;

verus! {

/// The first second, counted from the start of 1970 in UTC, that calendar dates reach.
pub const MIN_SECS: i64 = -8_334_601_228_800;

/// The last second, counted from the start of 1970 in UTC, that calendar dates reach.
pub const MAX_SECS: i64 = 8_210_266_876_799;

/// The number of nanoseconds in a second.
pub const NANOS_PER_SEC: u32 = 1_000_000_000;

/// How the time of a backup is written into its name.
pub const STAMP_FORMAT: &'static str = "%Y%m%d-%H%M%S-%3f";

/// What `chrono` writes for a point in time by RFC 3339, in UTC.
pub uninterp spec fn rfc3339_text(secs: i64, nanos: u32) -> Seq<char>;

/// What `chrono` writes for a point in time by a format of its own, in UTC.
pub uninterp spec fn formatted_utc(secs: i64, nanos: u32, format: Seq<char>) -> Seq<char>;

/// Calls `chrono::DateTime::to_rfc3339` on a UTC time. The contract names the text. The time has
/// to be one that calendar dates reach.
#[verifier::external_body]
fn show_rfc3339(secs: i64, nanos: u32) -> (text: String)
    requires
        MIN_SECS <= secs <= MAX_SECS,
        nanos < NANOS_PER_SEC,
    ensures
        text@ == rfc3339_text(secs, nanos),
{
    chrono::DateTime::from_timestamp(secs, nanos).unwrap().to_rfc3339()
}

/// Calls `chrono::DateTime::format` on a UTC time. The contract names the text, and says that a
/// backup stamp consists of digits and signs, and that times in different milliseconds have
/// different stamps. The time has to be one that calendar dates reach, and the format is the one
/// of backup stamps.
#[verifier::external_body]
fn show_formatted(secs: i64, nanos: u32, format: &str) -> (text: String)
    requires
        MIN_SECS <= secs <= MAX_SECS,
        nanos < NANOS_PER_SEC,
        format@ == STAMP_FORMAT@,
    ensures
        text@ == formatted_utc(secs, nanos, format@),
        forall|i: int|
            0 <= i < text@.len() ==> '0' <= #[trigger] text@[i] <= '9' || text@[i] == '-'
                || text@[i] == '+',
        is_stamp_of(text@, secs, nanos),
{
    chrono::DateTime::from_timestamp(secs, nanos).unwrap().format(format).to_string()
}

/// A point in time that calendar dates reach: whole seconds from the start of 1970 in UTC,
/// and the nanoseconds that follow.
#[derive(Debug)]
pub struct Timestamp {
    secs: i64,
    nanos: u32,
}

/// A point in time, as a value of the model.
pub struct TimestampView {
    pub secs: i64,
    pub nanos: u32,
}

impl View for Timestamp {
    type V = TimestampView;

    closed spec fn view(&self) -> TimestampView {
        TimestampView { secs: self.secs, nanos: self.nanos }
    }
}

/// Whether calendar dates reach a point in time.
pub open spec fn is_in_range(time: TimestampView) -> bool {
    MIN_SECS <= time.secs <= MAX_SECS && time.nanos < NANOS_PER_SEC
}

/// Whether two points in time lie in the same millisecond.
pub open spec fn same_millisecond(a: TimestampView, b: TimestampView) -> bool {
    a.secs == b.secs && a.nanos / 1_000_000 == b.nanos / 1_000_000
}

/// Whether a text is the stamp of no time but those in the millisecond of the given one.
pub open spec fn is_stamp_of(text: Seq<char>, secs: i64, nanos: u32) -> bool {
    forall|other: TimestampView|
        is_in_range(other) && #[trigger] formatted_utc(other.secs, other.nanos, STAMP_FORMAT@)
            == text ==> same_millisecond(other, (TimestampView { secs, nanos }))
}

/// The start of 1970 in UTC.
pub open spec fn epoch() -> TimestampView {
    TimestampView { secs: 0, nanos: 0 }
}

/// The nanoseconds from the start of 1970 to a point in time; none for an earlier point.
pub open spec fn nanos_since_epoch(time: TimestampView) -> nat {
    if time.secs < 0 {
        0
    } else {
        (time.secs * NANOS_PER_SEC + time.nanos) as nat
    }
}

/// The whole milliseconds from the start of 1970 to a point in time; none for an earlier point.
pub open spec fn millis_since_epoch(time: TimestampView) -> nat {
    nanos_since_epoch(time) / 1_000_000
}

/// The name of a backup that is made at a point in time.
pub open spec fn backup_file_name(time: TimestampView) -> Seq<char> {
    "config-"@ + formatted_utc(time.secs, time.nanos, STAMP_FORMAT@) + ".json"@
}

/// Whether calendar dates reach a point in time, and a backup that is made then has a plain name
/// that no backup has that is made in another millisecond. It is so of every `Timestamp`.
pub open spec fn has_own_name(time: TimestampView) -> bool {
    &&& is_in_range(time)
    &&& is_plain_name(backup_file_name(time))
    &&& forall|other: TimestampView|
        is_in_range(other) && #[trigger] backup_file_name(other) == backup_file_name(time)
            ==> same_millisecond(other, time)
}

/// The name of the file that holds a configuration while it is checked.
pub open spec fn check_file_name(time: TimestampView) -> Seq<char> {
    "sing-box-config-api-check-"@ + decimal(nanos_since_epoch(time)) + ".json"@
}

impl Timestamp {
    #[verifier::type_invariant]
    spec fn in_range(self) -> bool {
        MIN_SECS <= self.secs <= MAX_SECS && self.nanos < NANOS_PER_SEC
    }

    /// The point in time `nanos` nanoseconds after second `secs`, where calendar dates reach it.
    pub fn new(secs: i64, nanos: u32) -> (r: Option<Timestamp>)
        ensures
            r is Some <==> MIN_SECS <= secs <= MAX_SECS && nanos < NANOS_PER_SEC,
            r matches Some(time) ==> time@ == (TimestampView { secs, nanos }),
    {
        if MIN_SECS <= secs && secs <= MAX_SECS && nanos < NANOS_PER_SEC {
            Some(Timestamp { secs, nanos })
        } else {
            None
        }
    }

    /// The start of 1970 in UTC.
    pub fn epoch() -> (r: Timestamp)
        ensures
            r@ == epoch(),
    {
        Timestamp { secs: 0, nanos: 0 }
    }

    /// The point in time by RFC 3339, in UTC.
    pub fn to_rfc3339(&self) -> (r: String)
        ensures
            r@ == rfc3339_text(self@.secs, self@.nanos),
    {
        proof {
            use_type_invariant(self);
        }
        show_rfc3339(self.secs, self.nanos)
    }

    /// The nanoseconds from the start of 1970; none for an earlier point in time.
    pub fn nanos_since_epoch(&self) -> (r: u128)
        ensures
            r == nanos_since_epoch(self@),
    {
        proof {
            use_type_invariant(self);
        }
        if self.secs < 0 {
            0
        } else {
            self.secs as u128 * NANOS_PER_SEC as u128 + self.nanos as u128
        }
    }

    /// The whole milliseconds from the start of 1970; none for an earlier point in time.
    pub fn millis_since_epoch(&self) -> (r: u128)
        ensures
            r == millis_since_epoch(self@),
    {
        self.nanos_since_epoch() / 1_000_000
    }

    /// The name of a backup that is made at this point in time.
    pub fn backup_file_name(&self) -> (r: String)
        ensures
            r@ == backup_file_name(self@),
            has_own_name(self@),
    {
        proof {
            use_type_invariant(self);
        }
        let stamp = show_formatted(self.secs, self.nanos, STAMP_FORMAT);
        let mut name = concat2("config-", stamp.as_str());
        name.append(".json");
        proof {
            reveal_strlit("config-");
            reveal_strlit(".json");
            assert(name@[0] == 'c');
            assert(seq!['.'][0] == '.' && seq!['.', '.'][0] == '.');
            assert forall|i: int| 0 <= i < name@.len() implies name@[i] != '/' by {
                if i < 7 {
                    assert(name@[i] == "config-"@[i]);
                } else if i < 7 + stamp@.len() {
                    assert(name@[i] == stamp@[i - 7]);
                } else {
                    assert(name@[i] == ".json"@[i - 7 - stamp@.len()]);
                }
            }
            assert forall|other: TimestampView|
                is_in_range(other) && #[trigger] backup_file_name(other)
                    == name@ implies same_millisecond(other, self@) by {
                let text = formatted_utc(other.secs, other.nanos, STAMP_FORMAT@);
                assert(name@.subrange(7, name@.len() - 5) =~= stamp@);
                assert(backup_file_name(other).subrange(7, name@.len() - 5) =~= text);
            }
        }
        name
    }

    /// The name of the file that holds a configuration while it is checked.
    pub fn check_file_name(&self) -> (r: String)
        ensures
            r@ == check_file_name(self@),
    {
        let mut name = concat2(
            "sing-box-config-api-check-",
            decimal_text(self.nanos_since_epoch()).as_str(),
        );
        name.append(".json");
        name
    }
}

/// Time is counted in whole milliseconds from the start of 1970, and not at all before.
pub proof fn law_time_is_counted_from_1970(time: TimestampView)
    ensures
        time.secs >= 0 ==> millis_since_epoch(time) == time.secs * 1000 + time.nanos / 1_000_000,
        time.secs >= 0 ==> nanos_since_epoch(time) == time.secs * 1_000_000_000 + time.nanos,
        time.secs < 0 ==> millis_since_epoch(time) == 0 && nanos_since_epoch(time) == 0,
{
}

/// A later point in time is not counted as an earlier one.
pub proof fn law_later_times_are_not_counted_as_earlier(a: TimestampView, b: TimestampView)
    requires
        a.nanos < NANOS_PER_SEC,
        b.nanos < NANOS_PER_SEC,
        a.secs < b.secs || (a.secs == b.secs && a.nanos <= b.nanos),
    ensures
        nanos_since_epoch(a) <= nanos_since_epoch(b),
        millis_since_epoch(a) <= millis_since_epoch(b),
{
}

/// The name of a backup is the time in UTC, in the format of backup stamps, in its frame.
pub proof fn law_backup_names_hold_the_time(time: TimestampView)
    ensures
        "config-"@.is_prefix_of(backup_file_name(time)),
        ".json"@.is_suffix_of(backup_file_name(time)),
        backup_file_name(time).subrange(7, backup_file_name(time).len() - 5) == formatted_utc(
            time.secs,
            time.nanos,
            "%Y%m%d-%H%M%S-%3f"@,
        ),
{
    reveal_strlit("config-");
    reveal_strlit(".json");
    let name = backup_file_name(time);
    let stamp = formatted_utc(time.secs, time.nanos, STAMP_FORMAT@);
    assert(name.subrange(0, 7) =~= "config-"@);
    assert(name.subrange(name.len() - 5, name.len() as int) =~= ".json"@);
    assert(name.subrange(7, name.len() - 5) =~= stamp);
}

/// The name of a check's file holds the nanoseconds since 1970 as a number, in its frame. So checks
/// at different nanoseconds since 1970 have files of different names.
pub proof fn law_check_names_hold_the_time(time: TimestampView)
    ensures
        "sing-box-config-api-check-"@.is_prefix_of(check_file_name(time)),
        ".json"@.is_suffix_of(check_file_name(time)),
        number_of(check_file_name(time).subrange(26, check_file_name(time).len() - 5)) == (
        if time.secs < 0 {
            0
        } else {
            time.secs * 1_000_000_000 + time.nanos
        }),
        forall|i: int|
            26 <= i < check_file_name(time).len() - 5 ==> '0' <= #[trigger] check_file_name(time)[i]
                <= '9',
        check_file_name(time).len() > 31,
{
    reveal_strlit("sing-box-config-api-check-");
    reveal_strlit(".json");
    let name = check_file_name(time);
    let digits = decimal(nanos_since_epoch(time));
    law_decimal_notation(nanos_since_epoch(time));
    assert(name.subrange(0, 26) =~= "sing-box-config-api-check-"@);
    assert(name.subrange(name.len() - 5, name.len() as int) =~= ".json"@);
    assert(name.subrange(26, name.len() - 5) =~= digits);
    assert forall|i: int| 26 <= i < name.len() - 5 implies '0' <= #[trigger] name[i] <= '9' by {
        assert(name[i] == digits[i - 26]);
    }
}

/// Calendar dates reach from the start of the year -262143 to the end of the year 262142, and what
/// they reach is a whole second and less than a second more.
pub proof fn law_calendar_dates_reach_far(time: TimestampView)
    ensures
        is_in_range(time) <==> -8_334_601_228_800 <= time.secs <= 8_210_266_876_799 && time.nanos
            < 1_000_000_000,
{
}

} // verus!
