//! The configuration: which feeds to make, and how.
use crate::dates::{
    anydate_handles, anydate_time, can_parse_anydate, check_format, date_by_format, format_check,
    offset_date_time_by_format, parse_anydate, parse_date_by_format, parse_offset_date_time,
    parse_plain_date_time, plain_date_time_by_format, utc_date, PubDate, FIRST_SECOND,
    JULIAN_DAY_OF_1970, LAST_SECOND,
};
use crate::formats::{format_handled, is_handled};
use crate::text::plain_view;
use vstd::prelude::*;

verus! {

/// The digest of a configuration file.
#[derive(Debug, Eq, PartialEq, Clone, Copy)]
pub struct ConfigHash<'a>(pub &'a str);

/// A configuration file.
#[derive(Debug)]
pub struct Config {
    /// What holds for all feeds.
    pub rsspls: RssplsConfig,
    /// The feeds.
    pub feed: Vec<ChannelConfig>,
    /// The Blake2b digest of the file.
    pub hash: String,
}

/// What holds for all feeds.
#[derive(Debug)]
pub struct RssplsConfig {
    /// The directory in which to save feeds.
    pub output: Option<String>,
    /// The proxy to use for HTTP requests.
    pub proxy: Option<String>,
    /// The hook to run after a feed is written, for feeds without one of their own.
    pub post_update_hook: Option<Vec<String>>,
    /// Whether pages may be local files.
    pub file_urls: bool,
    /// Whether to go without the verification of certificates.
    pub insecure_disable_certificate_verification: bool,
}

/// A feed.
#[derive(Debug)]
pub struct ChannelConfig {
    /// Its title.
    pub title: String,
    /// The name of the file to save it in.
    pub filename: String,
    /// The user agent to name in HTTP requests.
    pub user_agent: Option<String>,
    /// The hook to run after the feed is written.
    pub post_update_hook: Option<Vec<String>>,
    /// Where its items come from.
    pub config: FeedConfig,
}

/// Where the items of a feed come from.
#[derive(Debug)]
pub struct FeedConfig {
    /// What the page is.
    pub source: FeedSource,
    /// The URL of the page.
    pub url: String,
    /// What finds the items on the page.
    pub item: String,
    /// What finds the heading of an item.
    pub heading: String,
    /// What finds the link of an item.
    pub link: Option<String>,
    /// What finds the parts of an item's summary.
    pub summary: Vec<String>,
    /// What finds the date of an item.
    pub date: Option<DateConfig>,
    /// What finds the media file of an item.
    pub media: Option<String>,
    /// How many items there must be.
    pub min_items: Option<usize>,
}

/// What finds and reads the date of an item.
#[derive(Debug)]
pub struct DateConfig {
    /// What finds the date.
    pub selector: String,
    /// What it is.
    pub type_: DateType,
    /// How it is written, in the format descriptions of the `time` crate.
    pub format: Option<String>,
}

/// What a page is.
#[derive(Debug, Clone, Copy, PartialEq, Eq, Structural)]
pub enum FeedSource {
    /// An HTML page.
    Html,
    /// A JSON document.
    Json,
}

/// What a date is.
#[derive(Debug, Clone, Copy, PartialEq, Eq, Structural)]
pub enum DateType {
    /// A date without a time.
    Date,
    /// A date and a time.
    DateTime,
}

impl Default for FeedSource {
    fn default() -> (r: FeedSource)
        ensures
            r is Html,
    {
        FeedSource::Html
    }
}

impl Default for DateType {
    fn default() -> (r: DateType)
        ensures
            r is DateTime,
    {
        DateType::DateTime
    }
}

impl Default for DateConfig {
    fn default() -> (r: DateConfig)
        ensures
            r.selector@ == Seq::<char>::empty(),
            r.type_ is DateTime,
            r.format is None,
    {
        DateConfig { selector: String::new(), type_: DateType::DateTime, format: None }
    }
}

/// How many bytes the digest of a configuration file has.
pub const DIGEST_SIZE: usize = 32;

/// The digest of a given size in bytes that `cryptoxide::blake2b::Blake2b` gives for
/// some bytes, in hexadecimal digits.
pub uninterp spec fn blake2b_hex(size: usize, bytes: Seq<u8>) -> Seq<char>;

/// Whether a character is a hexadecimal digit, and no upper case letter.
pub open spec fn is_hex_digit(c: char) -> bool {
    '0' <= c <= '9' || 'a' <= c <= 'f'
}

/// Calls `cryptoxide::blake2b::Blake2b`. Trusted: the digest depends on the size and the
/// bytes alone, and has two hexadecimal digits for each byte of its size.
#[verifier::external_body]
fn digest(size: usize, bytes: &[u8]) -> (r: String)
    requires
        1 <= size <= 64,
    ensures
        r@ == blake2b_hex(size, bytes@),
        r@.len() == 2 * size,
        forall|k: int| 0 <= k < r@.len() ==> is_hex_digit(#[trigger] r@[k]),
{
    let mut context = cryptoxide::blake2b::Blake2b::new(size);
    cryptoxide::digest::Digest::input(&mut context, bytes);
    cryptoxide::digest::Digest::result_str(&mut context)
}

/// The hook that a feed runs: its own, or else the one for all feeds.
pub open spec fn inherited_hook(
    own: Option<Seq<String>>,
    global: Option<Seq<String>>,
) -> Option<Seq<String>> {
    if own is Some {
        own
    } else {
        global
    }
}

/// The view of a hook.
pub open spec fn hook_view(hook: Option<Vec<String>>) -> Option<Seq<String>> {
    match hook {
        Some(words) => Some(words@),
        None => None,
    }
}

/// Whether two feeds differ in nothing but their hooks.
pub open spec fn same_but_hook(a: ChannelConfig, b: ChannelConfig) -> bool {
    &&& a.title == b.title
    &&& a.filename == b.filename
    &&& a.user_agent == b.user_agent
    &&& a.config == b.config
}

/// Copies a hook.
fn clone_hook(hook: &Option<Vec<String>>) -> (r: Option<Vec<String>>)
    ensures
        hook_view(r) == hook_view(*hook),
{
    match hook {
        Some(words) => {
            let mut copy: Vec<String> = Vec::new();
            for i in 0..words.len()
                invariant
                    copy@ =~= words@.take(i as int),
            {
                copy.push(words[i].clone());
            }
            assert(words@.take(words.len() as int) =~= words@);
            Some(copy)
        },
        None => None,
    }
}

impl Config {
    /// Completes a configuration that was parsed from the bytes of its file: the
    /// digest of the file is noted, and feeds without a hook get the one for all.
    pub fn read(raw_config: &[u8], parsed: Config) -> (r: Config)
        ensures
            r.hash@ == blake2b_hex(DIGEST_SIZE, raw_config@),
            r.hash@.len() == 64,
            forall|k: int| 0 <= k < r.hash@.len() ==> is_hex_digit(#[trigger] r.hash@[k]),
            r.rsspls == parsed.rsspls,
            r.feed@.len() == parsed.feed@.len(),
            forall|i: int|
                0 <= i < r.feed@.len() ==> {
                    &&& same_but_hook(#[trigger] r.feed@[i], parsed.feed@[i])
                    &&& hook_view(r.feed@[i].post_update_hook) == inherited_hook(
                        hook_view(parsed.feed@[i].post_update_hook),
                        hook_view(parsed.rsspls.post_update_hook),
                    )
                },
    {
        let hash = digest(DIGEST_SIZE, raw_config);
        let rsspls = parsed.rsspls;
        let ghost given = parsed.feed@;
        let mut feed: Vec<ChannelConfig> = parsed.feed;
        let count: usize = feed.len();
        for i in 0..count
            invariant
                count == feed@.len() == given.len(),
                forall|k: int| i <= k < count ==> #[trigger] feed@[k] == given[k],
                forall|k: int|
                    0 <= k < i ==> {
                        &&& same_but_hook(#[trigger] feed@[k], given[k])
                        &&& hook_view(feed@[k].post_update_hook) == inherited_hook(
                            hook_view(given[k].post_update_hook),
                            hook_view(rsspls.post_update_hook),
                        )
                    },
        {
            if feed[i].post_update_hook.is_none() {
                let hook = clone_hook(&rsspls.post_update_hook);
                feed[i].post_update_hook = hook;
            }
        }
        Config { rsspls, feed, hash }
    }
}

/// A date that `anydate` has read, where it is one that can be kept.
pub open spec fn anydate_fits(outcome: Result<(i64, i32), Seq<char>>) -> bool {
    outcome matches Ok(time) ==> FIRST_SECOND <= time.0 <= LAST_SECOND && FIRST_SECOND <= time.0
        + time.1 <= LAST_SECOND
}

/// The date for what `anydate` has read.
pub open spec fn from_anydate(outcome: Result<(i64, i32), Seq<char>>) -> Result<
    PubDate,
    Seq<char>,
> {
    match outcome {
        Ok(time) => Ok(
            PubDate {
                local_seconds: (time.0 + time.1) as i64,
                nanosecond: 0,
                offset_seconds: time.1,
            },
        ),
        Err(message) => Err(message),
    }
}

/// The date for what was read by a format for dates: midnight of that day, in UTC.
pub open spec fn from_date(outcome: Result<i32, Seq<char>>) -> Result<PubDate, Seq<char>> {
    match outcome {
        Ok(julian_day) => Ok(utc_date(julian_day as int, 0, 0)),
        Err(message) => Err(message),
    }
}

/// The date for what was read by a format for dates and times: with the offset
/// that was read, or else in UTC.
pub open spec fn from_date_time(
    with_offset: Result<(i64, u32, i32), Seq<char>>,
    plain: Result<(i32, u8, u8, u8, u32), Seq<char>>,
) -> Result<PubDate, Seq<char>> {
    match (with_offset, plain) {
        (Ok(time), _) => Ok(
            PubDate {
                local_seconds: (time.0 + time.2) as i64,
                nanosecond: time.1,
                offset_seconds: time.2,
            },
        ),
        (Err(_), Ok(time)) => Ok(
            utc_date(time.0 as int, time.1 * 3_600 + time.2 * 60 + time.3, time.4),
        ),
        (Err(_), Err(message)) => Err(message),
    }
}

impl DateConfig {
    /// Whether a text can be read as a date. With a format, all are where the format is
    /// one that is handed to `time`. Without, all are but those that overflow the dates
    /// of `anydate` or lie outside the years that can be kept.
    pub open spec fn can_parse(self, text: Seq<char>) -> bool {
        match self.format {
            Some(format) => format_handled(format@),
            None => anydate_handles(text) && anydate_fits(anydate_time(text)),
        }
    }

    /// The date that a text holds, or a message where it holds none.
    pub open spec fn parsed(self, text: Seq<char>) -> Result<PubDate, Seq<char>> {
        match (self.format, self.type_) {
            (None, _) => from_anydate(anydate_time(text)),
            (Some(format), DateType::Date) => from_date(date_by_format(format@, text)),
            (Some(format), DateType::DateTime) => from_date_time(
                offset_date_time_by_format(format@, text),
                plain_date_time_by_format(format@, text),
            ),
        }
    }

    /// What finds the date.
    pub fn selector(&self) -> (r: &str)
        ensures
            r@ == self.selector@,
    {
        self.selector.as_str()
    }

    /// The configuration of a date that is given by its selector alone.
    pub fn from_str(s: &str) -> (r: DateConfig)
        ensures
            r.selector@ == s@,
            r.type_ is DateTime,
            r.format is None,
    {
        DateConfig { selector: s.to_owned(), type_: DateType::DateTime, format: None }
    }

    /// Reads a date from a text: by the format, or by guessing where there is none.
    pub fn parse(&self, date: &str) -> (r: Result<PubDate, String>)
        requires
            self.can_parse(date@),
        ensures
            plain_view(r) == self.parsed(date@),
            r matches Ok(d) ==> d.valid(),
    {
        match &self.format {
            None => date_from_anydate(parse_anydate(date)),
            Some(format) => match self.type_ {
                DateType::Date => date_from_day(parse_date_by_format(format.as_str(), date)),
                DateType::DateTime => date_from_time(
                    parse_offset_date_time(format.as_str(), date),
                    parse_plain_date_time(format.as_str(), date),
                ),
            },
        }
    }

    /// Reads a date from a text, where that can be done; `None` where it cannot.
    pub fn try_parse(&self, date: &str) -> (r: Option<Result<PubDate, String>>)
        ensures
            r is Some <==> self.can_parse(date@),
            r matches Some(outcome) ==> plain_view(outcome) == self.parsed(date@),
            r matches Some(Ok(d)) ==> d.valid(),
    {
        match &self.format {
            Some(format) => {
                if !is_handled(format.as_str()) {
                    return None;
                }
            },
            None => {
                if !can_parse_anydate(date) {
                    return None;
                }
                match parse_anydate(date) {
                    Ok(time) => {
                        if time.0 < FIRST_SECOND || time.0 > LAST_SECOND {
                            return None;
                        }
                        let local: i64 = time.0 + time.1 as i64;
                        if local < FIRST_SECOND || local > LAST_SECOND {
                            return None;
                        }
                    },
                    Err(_) => {},
                }
            },
        }
        Some(self.parse(date))
    }
}

/// The date for what `anydate` has read.
pub fn date_from_anydate(outcome: Result<(i64, i32), String>) -> (r: Result<PubDate, String>)
    requires
        anydate_fits(plain_view(outcome)),
        outcome matches Ok(time) ==> -86_400 < time.1 < 86_400,
    ensures
        plain_view(r) == from_anydate(plain_view(outcome)),
        r matches Ok(d) ==> d.valid(),
{
    match outcome {
        Ok(time) => Ok(
            PubDate {
                local_seconds: time.0 + time.1 as i64,
                nanosecond: 0,
                offset_seconds: time.1,
            },
        ),
        Err(message) => Err(message),
    }
}

/// The date for the Julian day that was read.
pub fn date_from_day(outcome: Result<i32, String>) -> (r: Result<PubDate, String>)
    requires
        outcome matches Ok(julian_day) ==> -1_930_999 <= julian_day <= 5_373_484,
    ensures
        plain_view(r) == from_date(plain_view(outcome)),
        r matches Ok(d) ==> d.valid(),
{
    match outcome {
        Ok(julian_day) => Ok(
            PubDate {
                local_seconds: (julian_day as i64 - JULIAN_DAY_OF_1970) * 86_400,
                nanosecond: 0,
                offset_seconds: 0,
            },
        ),
        Err(message) => Err(message),
    }
}

/// The date for what was read as a date and time with and without an offset.
pub fn date_from_time(
    with_offset: Result<(i64, u32, i32), String>,
    plain: Result<(i32, u8, u8, u8, u32), String>,
) -> (r: Result<PubDate, String>)
    requires
        with_offset matches Ok(time) ==> -93_600 < time.2 < 93_600 && FIRST_SECOND <= time.0
            + time.2 <= LAST_SECOND,
        plain matches Ok(time) ==> -1_930_999 <= time.0 <= 5_373_484 && time.1 < 24 && time.2 < 60
            && time.3 < 60,
    ensures
        plain_view(r) == from_date_time(plain_view(with_offset), plain_view(plain)),
        r matches Ok(d) ==> d.valid(),
{
    match with_offset {
        Ok(time) => Ok(
            PubDate {
                local_seconds: time.0 + time.2 as i64,
                nanosecond: time.1,
                offset_seconds: time.2,
            },
        ),
        Err(_) => match plain {
            Ok(time) => Ok(
                PubDate {
                    local_seconds: (time.0 as i64 - JULIAN_DAY_OF_1970) * 86_400 + (time.1 as i64
                        * 3_600 + time.2 as i64 * 60 + time.3 as i64),
                    nanosecond: time.4,
                    offset_seconds: 0,
                },
            ),
            Err(message) => Err(message),
        },
    }
}

/// What is wrong with a format for dates: a nested part of it, or what `time` says.
pub open spec fn format_verdict(format: Seq<char>) -> Result<(), Seq<char>> {
    if format_handled(format) {
        format_check(format)
    } else {
        Err("invalid nested format description"@)
    }
}

/// Takes a format for dates from the configuration. `Err` holds the message where
/// there is one that is not valid.
pub fn deserialize_format(format: Option<String>) -> (r: Result<Option<String>, String>)
    ensures
        (match (format, r) {
            (None, Ok(kept)) => kept is None,
            (Some(text), Ok(kept)) => format_verdict(text@) is Ok && kept == Some(text),
            (Some(text), Err(message)) => format_verdict(text@) == Err::<(), Seq<char>>(message@),
            (None, Err(_)) => false,
        }),
{
    match format {
        None => Ok(None),
        Some(text) => {
            if !is_handled(text.as_str()) {
                return Err("invalid nested format description".to_owned());
            }
            match check_format(text.as_str()) {
                Ok(()) => Ok(Some(text)),
                Err(message) => Err(message),
            }
        },
    }
}

/// A format that was taken from the configuration reads every text: what it does not
/// fit is no date, and nothing else.
pub proof fn law_accepted_formats_read_all(date: DateConfig, text: Seq<char>)
    requires
        date.format is Some,
        format_verdict(date.format->0@) is Ok,
    ensures
        date.can_parse(text),
{
}

/// A value of the configuration that is a text or a list of texts.
#[derive(Debug)]
pub enum StringOrSeq {
    /// One text.
    One(String),
    /// A list of texts.
    Many(Vec<String>),
}

/// Takes a list of texts from the configuration, where one text stands for a list
/// of itself.
pub fn string_or_seq_string(value: StringOrSeq) -> (r: Vec<String>)
    ensures
        r@ == (match value {
            StringOrSeq::One(text) => seq![text],
            StringOrSeq::Many(texts) => texts@,
        }),
{
    match value {
        StringOrSeq::One(text) => {
            let mut texts: Vec<String> = Vec::new();
            texts.push(text);
            texts
        },
        StringOrSeq::Many(texts) => texts,
    }
}

/// A value of the configuration that is a text or the settings for a date.
#[derive(Debug)]
pub enum StringOrStruct {
    /// The selector alone.
    Selector(String),
    /// All settings.
    Settings(DateConfig),
}

/// The settings for a date that a value of the configuration stands for.
pub open spec fn date_settings(value: StringOrStruct, date: DateConfig) -> bool {
    match value {
        StringOrStruct::Selector(selector) => date.selector@ == selector@ && date.type_ is DateTime
            && date.format is None,
        StringOrStruct::Settings(settings) => date == settings,
    }
}

/// Takes the settings for a date from the configuration, where a text stands for a
/// selector with no other settings.
pub fn string_or_struct(value: StringOrStruct) -> (r: DateConfig)
    ensures
        date_settings(value, r),
{
    match value {
        StringOrStruct::Selector(selector) => DateConfig::from_str(selector.as_str()),
        StringOrStruct::Settings(settings) => settings,
    }
}

/// Takes the settings for a date from the configuration, if there are any.
pub fn opt_string_or_struct(value: Option<StringOrStruct>) -> (r: Option<DateConfig>)
    ensures
        (match (value, r) {
            (None, None) => true,
            (Some(value), Some(date)) => date_settings(value, date),
            _ => false,
        }),
{
    match value {
        None => None,
        Some(value) => Some(string_or_struct(value)),
    }
}

/// A feed's own hook decides, even one without words; a feed that says nothing of a
/// hook has the one for all feeds.
pub proof fn law_own_hook_decides(own: Seq<String>, global: Option<Seq<String>>)
    ensures
        inherited_hook(Some(own), global) == Some(own),
        inherited_hook(None, global) == global,
{
}

/// Without a format it does not matter what a date is said to be.
pub proof fn law_type_needs_format(a: DateConfig, b: DateConfig, text: Seq<char>)
    requires
        a.format is None,
        b.format is None,
    ensures
        a.parsed(text) == b.parsed(text),
        a.can_parse(text) == b.can_parse(text),
{
}

/// A date that is read by a format for dates is midnight of a day in UTC.
pub proof fn law_days_start_at_midnight(date: DateConfig, text: Seq<char>)
    requires
        date.format is Some,
        date.type_ is Date,
    ensures
        date.parsed(text) matches Ok(d) ==> d.local_seconds as int % 86_400 == 0 && d.nanosecond == 0
            && d.offset_seconds == 0,
{
    match date_by_format(date.format->0@, text) {
        Ok(julian_day) => {
            let days = julian_day - JULIAN_DAY_OF_1970;
            assert((days * 86_400) % 86_400 == 0) by (nonlinear_arith);
        },
        Err(_) => {},
    }
}

/// A time that is read without an offset is in UTC, and one that is read with an
/// offset keeps it.
pub proof fn law_times_keep_their_offset(date: DateConfig, text: Seq<char>)
    requires
        date.format is Some,
        date.type_ is DateTime,
    ensures
        date.parsed(text) matches Ok(d) ==> d.offset_seconds == (match offset_date_time_by_format(
            date.format->0@,
            text,
        ) {
            Ok(time) => time.2,
            Err(_) => 0,
        }),
{
}

/// The moment that was read is kept, and so is the offset: going back from the local time
/// by the offset gives the seconds that were read. Without a format that is what `anydate`
/// read; with one for dates it is midnight in UTC of the Julian day that was read; with
/// one for dates and times it is what was read with an offset or, where nothing was, what
/// was read without one, in UTC.
pub proof fn law_moment_read_is_kept(date: DateConfig, text: Seq<char>)
    ensures
        date.format is None ==> (match anydate_time(text) {
            Ok(time) => i64::MIN <= time.0 + time.1 <= i64::MAX ==> (date.parsed(text) matches Ok(d)
                && d.local_seconds - d.offset_seconds == time.0 && d.offset_seconds == time.1
                && d.nanosecond == 0),
            Err(message) => date.parsed(text) == Err::<PubDate, Seq<char>>(message),
        }),
        date.format matches Some(format) ==> (date.type_ is Date ==> (match date_by_format(
            format@,
            text,
        ) {
            Ok(day) => date.parsed(text) matches Ok(d) && d.local_seconds == (day - 2_440_588)
                * 86_400 && d.offset_seconds == 0 && d.nanosecond == 0,
            Err(message) => date.parsed(text) == Err::<PubDate, Seq<char>>(message),
        })),
        date.format matches Some(format) ==> (date.type_ is DateTime ==> (match (
            offset_date_time_by_format(format@, text),
            plain_date_time_by_format(format@, text),
        ) {
            (Ok(time), _) => i64::MIN <= time.0 + time.2 <= i64::MAX ==> (date.parsed(
                text,
            ) matches Ok(d) && d.local_seconds - d.offset_seconds == time.0 && d.offset_seconds
                == time.2 && d.nanosecond == time.1),
            (Err(_), Ok(time)) => date.parsed(text) matches Ok(d) && d.local_seconds == (time.0
                - 2_440_588) * 86_400 + time.1 * 3_600 + time.2 * 60 + time.3 && d.offset_seconds
                == 0 && d.nanosecond == time.4,
            (Err(_), Err(message)) => date.parsed(text) == Err::<PubDate, Seq<char>>(message),
        })),
{
}

/// A text can be read by a format exactly where the format can be handed on. It can be
/// read without one exactly where `anydate` can be given it and what that reads, if
/// anything, lies in the years from -9999 to 9999 both in UTC and in its local time.
pub proof fn law_what_can_be_read(date: DateConfig, text: Seq<char>)
    ensures
        date.format matches Some(format) ==> date.can_parse(text) == format_handled(format@),
        date.format is None ==> (date.can_parse(text) <==> anydate_handles(text) && (anydate_time(
            text,
        ) matches Ok(time) ==> -377_705_116_800 <= time.0 <= 253_402_300_799 && -377_705_116_800
            <= time.0 + time.1 <= 253_402_300_799)),
{
}

/// A format is taken exactly where `time` accepts it and each that is nested in it, and
/// what `time` says of it is the message where it is not.
pub proof fn law_formats_taken_where_accepted(format: Seq<char>)
    ensures
        format_verdict(format) is Ok <==> format_handled(format) && format_check(format) is Ok,
        format_handled(format) ==> (format_check(format) matches Err(message) ==> format_verdict(
            format,
        ) == Err::<(), Seq<char>>(message)),
{
}

/// The settings for a date that are given in full are kept, and a selector alone stands
/// for settings with that selector, for a date and time without a format.
pub proof fn law_date_settings_kept(
    selector: String,
    settings: DateConfig,
    a: DateConfig,
    b: DateConfig,
)
    ensures
        date_settings(StringOrStruct::Selector(selector), a) <==> a.selector@ == selector@
            && a.type_ is DateTime && a.format is None,
        date_settings(StringOrStruct::Settings(settings), b) <==> b == settings,
{
}

/// Two feeds that differ in nothing but their hooks have everything else in common.
pub proof fn law_only_hooks_differ(a: ChannelConfig, b: ChannelConfig)
    ensures
        same_but_hook(a, b) <==> a.title == b.title && a.filename == b.filename && a.user_agent
            == b.user_agent && a.config == b.config,
{
}

/// The view of a hook is its words.
pub proof fn law_view_of_hook(hook: Option<Vec<String>>)
    ensures
        hook is None <==> hook_view(hook) is None,
        hook matches Some(words) ==> hook_view(hook) == Some(words@),
{
}

} // verus!
