//! Publication dates: reading them from text and writing them for a feed.
//!
//! Dates are read and written by the `anydate` and `time` crates. Here a date is
//! held as plain numbers.
use crate::formats::format_handled;
use crate::text::{chars_of, digits_value, join3, plain_view, same};
use vstd::prelude::*;

verus! {

/// The first second of the year -9999, counted from the start of 1970.
pub const FIRST_SECOND: i64 = -377_705_116_800;

/// The last second of the year 9999, counted from the start of 1970.
pub const LAST_SECOND: i64 = 253_402_300_799;

/// The first second of the year 1900, counted from the start of 1970.
pub const SECOND_OF_1900: i64 = -2_208_988_800;

/// The first second of the calendar of `anydate`, counted from the start of 1970.
pub const FIRST_INSTANT: i64 = -8_334_601_228_800;

/// The last second of the calendar of `anydate`, counted from the start of 1970.
pub const LAST_INSTANT: i64 = 8_210_266_876_799;

/// A date and time that `anydate` reads in any time zone.
pub const ANY_DATE: &'static str = "1 January 2000 13:00";

/// A time zone of `anydate` that is UTC.
pub const ZERO_ZONE: &'static str = "WET";

/// The Julian day of the first of January 1970.
pub const JULIAN_DAY_OF_1970: i64 = 2_440_588;

/// A date and time with an offset from UTC.
#[derive(Debug, Clone, Copy, PartialEq, Eq, Structural)]
pub struct PubDate {
    /// The seconds from the start of 1970 to the date, both on a clock that shows
    /// the local time.
    pub local_seconds: i64,
    /// The nanoseconds since that second.
    pub nanosecond: u32,
    /// How many seconds the local time is ahead of UTC.
    pub offset_seconds: i32,
}

impl PubDate {
    /// A date whose local year has at most four digits, with an offset of less
    /// than 26 hours.
    pub open spec fn valid(self) -> bool {
        &&& FIRST_SECOND <= self.local_seconds <= LAST_SECOND
        &&& -93_600 < self.offset_seconds < 93_600
    }

    /// A date that can be written in a feed: from the year 1900 on, with an offset
    /// of whole minutes.
    pub open spec fn formattable(self) -> bool {
        &&& self.valid()
        &&& SECOND_OF_1900 <= self.local_seconds
        &&& self.offset_seconds as int % 60 == 0
    }

    /// Whether the date can be written in a feed.
    pub fn is_formattable(&self) -> (r: bool)
        ensures
            r == self.formattable(),
    {
        let offset: i32 = if self.offset_seconds < 0 {
            if self.offset_seconds <= -93_600 {
                return false;
            }
            -self.offset_seconds
        } else {
            self.offset_seconds
        };
        FIRST_SECOND <= self.local_seconds && self.local_seconds <= LAST_SECOND && offset < 93_600
            && SECOND_OF_1900 <= self.local_seconds && offset % 60 == 0
    }

    /// The date as RFC 2822 writes it, such as `Fri, 15 Mar 2024 09:45:00 +0000`.
    pub fn to_rfc2822(&self) -> (r: String)
        requires
            self.formattable(),
        ensures
            r@ == rfc2822_text(self.local_seconds, self.offset_seconds),
    {
        format_rfc2822(self.local_seconds, self.offset_seconds)
    }
}

/// A date of a given Julian day, in UTC, some seconds after midnight.
pub open spec fn utc_date(julian_day: int, seconds: int, nanosecond: u32) -> PubDate {
    PubDate {
        local_seconds: ((julian_day - JULIAN_DAY_OF_1970) * 86_400 + seconds) as i64,
        nanosecond,
        offset_seconds: 0,
    }
}

/// What `anydate::parse` makes of a text: the seconds from the start of 1970, and
/// how many seconds the local time is ahead of UTC; or its error message.
pub uninterp spec fn anydate_time(text: Seq<char>) -> Result<(i64, i32), Seq<char>>;

/// Whether `time::format_description::parse_owned` accepts a format, or its error
/// message.
pub uninterp spec fn format_check(format: Seq<char>) -> Result<(), Seq<char>>;

/// The Julian day of the date that `time::Date::parse` reads from a text by a
/// format, or the error message.
pub uninterp spec fn date_by_format(format: Seq<char>, text: Seq<char>) -> Result<i32, Seq<char>>;

/// The date and time that `time::OffsetDateTime::parse` reads from a text by a
/// format: the seconds from the start of 1970, the nanoseconds since that second
/// and how many seconds the local time is ahead of UTC; or the error message.
pub uninterp spec fn offset_date_time_by_format(format: Seq<char>, text: Seq<char>) -> Result<
    (i64, u32, i32),
    Seq<char>,
>;

/// The date and time that `time::PrimitiveDateTime::parse` reads from a text by a
/// format: the Julian day, the hour, the minute, the second and the nanoseconds;
/// or the error message.
pub uninterp spec fn plain_date_time_by_format(format: Seq<char>, text: Seq<char>) -> Result<
    (i32, u8, u8, u8, u32),
    Seq<char>,
>;

/// The text that `time::format_description::well_known::Rfc2822` gives for a local
/// time and an offset.
pub uninterp spec fn rfc2822_text(local_seconds: i64, offset_seconds: i32) -> Seq<char>;

/// Calls `anydate::parse`. Trusted: the outcome depends on the text alone, a date lies
/// in the calendar of `chrono`, and an offset is less than a day. It may overflow or
/// panic on a text that is not `anydate_handles`.
#[verifier::external_body]
pub(crate) fn parse_anydate(text: &str) -> (r: Result<(i64, i32), String>)
    requires
        anydate_handles(text@),
    ensures
        plain_view(r) == anydate_time(text@),
        r matches Ok(time) ==> FIRST_INSTANT <= time.0 <= LAST_INSTANT && -86_400 < time.1
            < 86_400,
{
    let date = anydate::parse(text).map_err(|err| err.to_string())?;
    Ok((date.timestamp(), date.timezone().local_minus_utc()))
}

/// Calls `time::format_description::parse_owned` for version 2 of the format
/// descriptions. Trusted: whether it accepts a text depends on the text alone. Its
/// assertions may fail on one that is not `format_handled`.
#[verifier::external_body]
pub(crate) fn check_format(format: &str) -> (r: Result<(), String>)
    requires
        format_handled(format@),
    ensures
        plain_view(r) == format_check(format@),
{
    let format = time::format_description::parse_owned::<2>(format);
    format.map(|_| ()).map_err(|err| err.to_string())
}

/// Calls `time::Date::parse`. Trusted: the outcome depends on the format and the
/// text alone, and a date lies between the years -9999 and 9999.
#[verifier::external_body]
pub(crate) fn parse_date_by_format(format: &str, text: &str) -> (r: Result<i32, String>)
    requires
        format_handled(format@),
    ensures
        plain_view(r) == date_by_format(format@, text@),
        r matches Ok(julian_day) ==> -1_930_999 <= julian_day <= 5_373_484,
{
    let format = time::format_description::parse_owned::<2>(format).map_err(|e| e.to_string())?;
    time::Date::parse(text, &format).map(|date| date.to_julian_day()).map_err(|e| e.to_string())
}

/// Calls `time::OffsetDateTime::parse`. Trusted: the outcome depends on the format
/// and the text alone, the local date lies between the years -9999 and 9999, and
/// an offset is less than 26 hours.
#[verifier::external_body]
pub(crate) fn parse_offset_date_time(format: &str, text: &str) -> (r: Result<
    (i64, u32, i32),
    String,
>)
    requires
        format_handled(format@),
    ensures
        plain_view(r) == offset_date_time_by_format(format@, text@),
        r matches Ok(time) ==> -93_600 < time.2 < 93_600 && FIRST_SECOND <= time.0 + time.2
            <= LAST_SECOND,
{
    let format = time::format_description::parse_owned::<2>(format).map_err(|e| e.to_string())?;
    let date = time::OffsetDateTime::parse(text, &format).map_err(|e| e.to_string())?;
    Ok((date.unix_timestamp(), date.nanosecond(), date.offset().whole_seconds()))
}

/// Calls `time::PrimitiveDateTime::parse`. Trusted: the outcome depends on the
/// format and the text alone, the date lies between the years -9999 and 9999, and
/// the time is one of a day.
#[verifier::external_body]
pub(crate) fn parse_plain_date_time(format: &str, text: &str) -> (r: Result<
    (i32, u8, u8, u8, u32),
    String,
>)
    requires
        format_handled(format@),
    ensures
        plain_view(r) == plain_date_time_by_format(format@, text@),
        r matches Ok(time) ==> -1_930_999 <= time.0 <= 5_373_484 && time.1 < 24 && time.2 < 60
            && time.3 < 60,
{
    let format = time::format_description::parse_owned::<2>(format).map_err(|e| e.to_string())?;
    let date = time::PrimitiveDateTime::parse(text, &format).map_err(|e| e.to_string())?;
    let day: i32 = date.to_julian_day();
    Ok((day, date.hour(), date.minute(), date.second(), date.nanosecond()))
}

/// Calls `time::OffsetDateTime::format` with `Rfc2822`. Trusted: the text depends
/// on the local time and the offset alone.
#[verifier::external_body]
fn format_rfc2822(local_seconds: i64, offset_seconds: i32) -> (r: String)
    requires
        SECOND_OF_1900 <= local_seconds <= LAST_SECOND,
        -93_600 < offset_seconds < 93_600,
        offset_seconds as int % 60 == 0,
    ensures
        r@ == rfc2822_text(local_seconds, offset_seconds),
{
    let offset = time::UtcOffset::from_whole_seconds(offset_seconds).unwrap();
    let local = time::OffsetDateTime::from_unix_timestamp(local_seconds).unwrap();
    local.replace_offset(offset).format(&time::format_description::well_known::Rfc2822).unwrap()
}

/// Whether a character is an ASCII digit.
pub open spec fn is_digit(c: char) -> bool {
    '0' <= c <= '9'
}

/// The number that the leading digits of a text continue from `before`.
pub open spec fn leading_number(s: Seq<char>, before: nat) -> nat
    decreases s.len(),
{
    if s.len() > 0 && is_digit(s[0]) {
        leading_number(s.drop_first(), before * 10 + (s[0] as nat - '0' as nat) as nat)
    } else {
        before
    }
}

/// Whether a text is made of a given count of digits only.
pub open spec fn digits_only(s: Seq<char>, count: nat) -> bool {
    s.len() == count && forall|k: int| 0 <= k < s.len() ==> is_digit(#[trigger] s[k])
}

/// A text as it stands before and behind its last space.
pub open spec fn at_last_space(s: Seq<char>) -> Option<(Seq<char>, Seq<char>)>
    decreases s.len(),
{
    if s.len() == 0 {
        None
    } else if s.last() == ' ' {
        Some((s.drop_last(), Seq::empty()))
    } else {
        match at_last_space(s.drop_last()) {
            Some(parts) => Some((parts.0, parts.1.push(s.last()))),
            None => None,
        }
    }
}

/// Whether a date and time leaves the calendar of `anydate` when it is taken to be in
/// a time zone. The date and time is read as one in UTC, and the zone as that of
/// another date.
pub open spec fn zone_overflows(date_time: Seq<char>, zone: Seq<char>) -> bool {
    match (
        anydate_time(date_time + " "@ + ZERO_ZONE@),
        anydate_time(ANY_DATE@ + " "@ + zone),
    ) {
        (Ok(date), Ok(other)) => !(FIRST_INSTANT <= date.0 - other.1 <= LAST_INSTANT),
        _ => false,
    }
}

/// The texts that `anydate::parse` is given. Left out are a count of milliseconds
/// or microseconds that is out of the range of its nanoseconds, and a date at the very
/// end of its calendar with a time zone that takes it out of there.
pub open spec fn anydate_handles(s: Seq<char>) -> bool {
    &&& !(digits_only(s, 13) && leading_number(s, 0) > 9_223_372_036_854)
    &&& !(digits_only(s, 16) && leading_number(s, 0) > 9_223_372_036_854_775)
    &&& at_last_space(s) matches Some(parts) ==> {
        ||| parts.0 == ANY_DATE@
        ||| parts.1 == ZERO_ZONE@
        ||| !zone_overflows(parts.0, parts.1)
    }
}

/// What stands behind a space and holds none stands behind the last one.
proof fn lemma_at_last_space(front: Seq<char>, back: Seq<char>)
    requires
        forall|k: int| 0 <= k < back.len() ==> #[trigger] back[k] != ' ',
    ensures
        at_last_space(front + " "@ + back) == Some((front, back)),
        forall|n: nat| !digits_only(front + " "@ + back, n),
    decreases back.len(),
{
    reveal_strlit(" ");
    let s = front + " "@ + back;
    assert(s[front.len() as int] == ' ');
    if back.len() == 0 {
        assert(s.drop_last() =~= front);
        assert(back =~= Seq::empty());
    } else {
        assert(s.drop_last() =~= front + " "@ + back.drop_last());
        lemma_at_last_space(front, back.drop_last());
        assert(back.drop_last().push(back.last()) =~= back);
    }
}

/// More digits never make a number smaller.
proof fn lemma_leading_number_grows(s: Seq<char>, before: nat)
    ensures
        leading_number(s, before) >= before,
    decreases s.len(),
{
    if s.len() > 0 && is_digit(s[0]) {
        lemma_leading_number_grows(
            s.drop_first(),
            before * 10 + (s[0] as nat - '0' as nat) as nat,
        );
    }
}

/// The number that the leading digits of a text make, up to a limit.
fn leading_digits(s: &Vec<char>) -> (r: u64)
    ensures
        leading_number(s@, 0) < 100_000_000_000_000_000 ==> r == leading_number(s@, 0),
        leading_number(s@, 0) >= 100_000_000_000_000_000 ==> r >= 100_000_000_000_000_000,
{
    let mut number: u64 = 0;
    let mut i: usize = 0;
    assert(s@.skip(0) =~= s@);
    while i < s.len()
        invariant
            i <= s.len(),
            number < 100_000_000_000_000_000,
            leading_number(s@, 0) == leading_number(s@.skip(i as int), number as nat),
        decreases s.len() - i,
    {
        let c: char = s[i];
        let ghost rest = s@.skip(i as int);
        assert(rest[0] == c);
        if c < '0' || c > '9' {
            return number;
        }
        assert(rest.drop_first() =~= s@.skip(i + 1));
        number = number * 10 + (c as u64 - '0' as u64);
        i = i + 1;
        if number >= 100_000_000_000_000_000 {
            proof {
                lemma_leading_number_grows(s@.skip(i as int), number as nat);
            }
            return number;
        }
    }
    number
}

/// Whether a text is made of digits only.
fn all_digits(s: &Vec<char>) -> (r: bool)
    ensures
        r == digits_only(s@, s@.len()),
{
    for i in 0..s.len()
        invariant
            forall|k: int| 0 <= k < i ==> is_digit(#[trigger] s@[k]),
    {
        if s[i] < '0' || s[i] > '9' {
            assert(!is_digit(s@[i as int]));
            return false;
        }
    }
    true
}

/// Whether `anydate::parse` may be given a text.
pub fn can_parse_anydate(text: &str) -> (r: bool)
    ensures
        r == anydate_handles(text@),
{
    let s = chars_of(text);
    if all_digits(&s) {
        let number: u64 = leading_digits(&s);
        if s.len() == 13 && number > 9_223_372_036_854 {
            return false;
        }
        if s.len() == 16 && number > 9_223_372_036_854_775 {
            return false;
        }
    }
    let mut i: usize = s.len();
    while i > 0
        invariant
            s@ == text@,
            0 <= i <= s.len(),
            forall|k: int| i <= k < s.len() ==> #[trigger] s@[k] != ' ',
            !(digits_only(s@, 13) && leading_number(s@, 0) > 9_223_372_036_854),
            !(digits_only(s@, 16) && leading_number(s@, 0) > 9_223_372_036_854_775),
        decreases i,
    {
        i = i - 1;
        if s[i] == ' ' {
            let front = text.substring_char(0, i);
            let back = text.substring_char(i + 1, s.len());
            proof {
                reveal_strlit(" ");
                assert(text@ =~= front@ + " "@ + back@);
                lemma_at_last_space(front@, back@);
            }
            return same(front, ANY_DATE) || same(back, ZERO_ZONE) || !leaves_calendar(front, back);
        }
    }
    proof {
        lemma_no_space(s@);
    }
    true
}

/// A text without a space has no last one.
proof fn lemma_no_space(s: Seq<char>)
    requires
        forall|k: int| 0 <= k < s.len() ==> #[trigger] s[k] != ' ',
    ensures
        at_last_space(s) is None,
    decreases s.len(),
{
    if s.len() > 0 {
        assert(s[s.len() - 1] != ' ');
        assert forall|k: int| 0 <= k < s.drop_last().len() implies #[trigger] s.drop_last()[k]
            != ' ' by {
            assert(s[k] != ' ');
        }
        lemma_no_space(s.drop_last());
    }
}

/// Tells whether a date and time leaves the calendar of `anydate` in a time zone.
fn leaves_calendar(date_time: &str, zone: &str) -> (r: bool)
    requires
        forall|k: int| 0 <= k < zone@.len() ==> #[trigger] zone@[k] != ' ',
    ensures
        r == zone_overflows(date_time@, zone@),
{
    proof {
        reveal_strlit("WET");
        lemma_at_last_space(date_time@, ZERO_ZONE@);
        lemma_at_last_space(ANY_DATE@, zone@);
    }
    let date = parse_anydate(join3(date_time, " ", ZERO_ZONE).as_str());
    let other = parse_anydate(join3(ANY_DATE, " ", zone).as_str());
    match (date, other) {
        (Ok(date), Ok(other)) => {
            let instant: i64 = date.0 - other.1 as i64;
            instant < FIRST_INSTANT || instant > LAST_INSTANT
        },
        _ => false,
    }
}

/// A feed can hold the dates from the year 1900 to the year 9999 in their local time,
/// with an offset of whole minutes and of less than 26 hours.
pub proof fn law_dates_that_feeds_hold(date: PubDate)
    ensures
        date.formattable() <==> -2_208_988_800 <= date.local_seconds <= 253_402_300_799 && -93_600
            < date.offset_seconds < 93_600 && date.offset_seconds as int % 60 == 0,
        date.valid() <==> -377_705_116_800 <= date.local_seconds <= 253_402_300_799 && -93_600
            < date.offset_seconds < 93_600,
{
}

/// A text with a space is handed to `anydate` unless the date and time before its last
/// space leaves the calendar in the time zone behind it. What stands for UTC and for any
/// date is handed on in any case.
pub proof fn law_zones_within_calendar(date_time: Seq<char>, zone: Seq<char>)
    requires
        forall|k: int| 0 <= k < zone.len() ==> #[trigger] zone[k] != ' ',
    ensures
        anydate_handles(date_time + " "@ + zone) <==> {
            ||| date_time == "1 January 2000 13:00"@
            ||| zone == "WET"@
            ||| match (
                anydate_time(date_time + " "@ + "WET"@),
                anydate_time("1 January 2000 13:00"@ + " "@ + zone),
            ) {
                (Ok(date), Ok(other)) => -8_334_601_228_800 <= date.0 - other.1
                    <= 8_210_266_876_799,
                _ => true,
            }
        },
{
    lemma_at_last_space(date_time, zone);
}

/// A text without a space is handed to `anydate` unless it is a count of milliseconds or
/// of microseconds that is out of the range of a 64-bit count of nanoseconds.
pub proof fn law_counts_within_range(text: Seq<char>)
    requires
        forall|k: int| 0 <= k < text.len() ==> #[trigger] text[k] != ' ',
    ensures
        text.len() != 13 && text.len() != 16 ==> anydate_handles(text),
        (exists|k: int| 0 <= k < text.len() && !('0' <= #[trigger] text[k] <= '9'))
            ==> anydate_handles(text),
        (forall|k: int| 0 <= k < text.len() ==> '0' <= #[trigger] text[k] <= '9') ==> {
            &&& text.len() == 13 ==> (anydate_handles(text) <==> digits_value(text) * 1_000_000
                <= i64::MAX)
            &&& text.len() == 16 ==> (anydate_handles(text) <==> digits_value(text) * 1_000
                <= i64::MAX)
        },
{
    lemma_no_space(text);
    if exists|k: int| 0 <= k < text.len() && !('0' <= #[trigger] text[k] <= '9') {
        let k = choose|k: int| 0 <= k < text.len() && !('0' <= #[trigger] text[k] <= '9');
        assert(!is_digit(text[k]));
    }
    if forall|k: int| 0 <= k < text.len() ==> '0' <= #[trigger] text[k] <= '9' {
        lemma_digits_value(Seq::empty(), text);
        assert(Seq::<char>::empty() + text =~= text);
        assert forall|k: int| 0 <= k < text.len() implies is_digit(#[trigger] text[k]) by {}
    }
}

/// Leading digits are read from the left as `digits_value` reads them from the right.
proof fn lemma_digits_value(front: Seq<char>, back: Seq<char>)
    requires
        forall|k: int| 0 <= k < back.len() ==> '0' <= #[trigger] back[k] <= '9',
    ensures
        leading_number(back, digits_value(front)) == digits_value(front + back),
    decreases back.len(),
{
    if back.len() > 0 {
        assert(back[0] >= '0');
        let next = front.push(back[0]);
        assert(next.drop_last() =~= front);
        assert forall|k: int| 0 <= k < back.drop_first().len() implies '0'
            <= #[trigger] back.drop_first()[k] <= '9' by {
            assert(back[k + 1] >= '0');
        }
        lemma_digits_value(next, back.drop_first());
        assert(next + back.drop_first() =~= front + back);
    } else {
        assert(front + back =~= front);
    }
}

} // verus!
