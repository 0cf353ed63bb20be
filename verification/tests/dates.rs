use rsspls::dates::{can_parse_anydate, PubDate};
use rsspls::formats::is_handled;
use rsspls::text::{chars_of, join2, join3, same, to_decimal, trim_date};

#[test]
fn test_trim_date() {
    assert_eq!(trim_date("2021-05-20 —"), "2021-05-20");
    assert_eq!(
        trim_date("2022-04-20T06:38:27+10:00"),
        "2022-04-20T06:38:27+10:00"
    );
}

#[test]
fn trimming_takes_all_or_nothing() {
    assert_eq!(trim_date(""), "");
    assert_eq!(trim_date(" — "), "");
    assert_eq!(trim_date("é"), "é");
    assert_eq!(trim_date("(a b)"), "a b");
}

#[test]
fn dates_as_feeds_write_them() {
    let date = |local_seconds: i64, offset_seconds: i32| PubDate {
        local_seconds,
        nanosecond: 5,
        offset_seconds,
    };
    assert!(date(0, 0).is_formattable());
    assert_eq!(date(0, 0).to_rfc2822(), "Thu, 01 Jan 1970 00:00:00 +0000");
    assert_eq!(date(86_399, -5_400).to_rfc2822(), "Thu, 01 Jan 1970 23:59:59 -0130");
    // Neither a year before 1900 nor an offset with seconds can be written.
    assert!(!date(-2_208_988_801, 0).is_formattable());
    assert!(date(-2_208_988_800, 0).is_formattable());
    assert_eq!(date(-2_208_988_800, 0).to_rfc2822(), "Mon, 01 Jan 1900 00:00:00 +0000");
    assert!(!date(0, 61).is_formattable());
    assert!(!date(0, -61).is_formattable());
}

#[test]
fn texts_that_overflow() {
    assert!(can_parse_anydate("2022-07-13"));
    assert!(can_parse_anydate("9223372036854"));
    assert!(!can_parse_anydate("9223372036855"));
    assert!(!can_parse_anydate("9223372036854776"));
    // A time zone may take a date out of the calendar.
    assert!(!can_parse_anydate("31 Dec +262,142 23:00 PST"));
    assert!(!can_parse_anydate("31 Dec +262142 23:00 pst"));
    assert!(!can_parse_anydate("December 31 +262,142 23:00:00 PST"));
    assert!(!can_parse_anydate("12/31/+262142 23:00 PST"));
    assert!(!can_parse_anydate("1 Jan -262143 00:30 CET"));
    assert!(can_parse_anydate("31 Dec +262142 23:00 CET"));
    assert!(can_parse_anydate("31 Dec +262142 23:00 WET"));
    assert!(can_parse_anydate("31 Dec +262142 23:00 foo"));
    assert!(can_parse_anydate("31 Dec +262142 23:00"));
    assert!(can_parse_anydate("1 Jan -262143 00:30 PST"));
    assert!(can_parse_anydate("31 Dec 1999 23:00 PST"));
    // Other texts with such a year are merely no dates.
    assert!(can_parse_anydate("posted-262142"));
    assert!(can_parse_anydate("posted on +262142 PST"));
    assert!(can_parse_anydate("+262143-01-01"));
    assert!(can_parse_anydate("31 Dec 262142 23:00:00 PST"));
    assert!(can_parse_anydate("1/1/-262143 CET"));
}

#[test]
fn numbers_and_texts() {
    assert_eq!(to_decimal(0), "0");
    assert_eq!(to_decimal(90_210), "90210");
    assert_eq!(join2("a", "b"), "ab");
    assert_eq!(join3("a", "", "c"), "ac");
    assert_eq!(chars_of("aé"), ['a', 'é']);
    assert!(same("é", "é"));
    assert!(!same("e", "é"));
}

#[test]
fn formats_that_are_handed_on() {
    assert!(is_handled("[year]-[month]-[day]"));
    assert!(is_handled("[day padding:none][first [st][nd][rd][th]], [year]"));
    assert!(is_handled("[hour]:[minute][optional [:[second]]]"));
    assert!(is_handled("[bad]"));
    assert!(is_handled(r"\[[year]\]"));
    assert!(is_handled("[year"));
    assert!(!is_handled("[optional[[bad]]]"));
    assert!(!is_handled("[optional [[bad]]]"));
    assert!(!is_handled("[first [[optional [[bad]]]]]"));
    assert!(!is_handled("[a[[bad]"));
    assert!(!is_handled("[day [[ ]"));
    assert!(is_handled("[a["));
}
