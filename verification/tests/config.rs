use rsspls::config::{
    date_from_anydate, date_from_day, date_from_time, deserialize_format, opt_string_or_struct,
    string_or_seq_string, string_or_struct, ChannelConfig, Config, DateConfig, DateType, FeedConfig,
    FeedSource, RssplsConfig, StringOrSeq, StringOrStruct,
};

fn test_date(format: &str) -> DateConfig {
    DateConfig {
        selector: String::new(),
        type_: DateType::Date,
        format: deserialize_format(Some(format.to_string())).unwrap(),
    }
}

fn test_anydate() -> DateConfig {
    DateConfig {
        selector: String::new(),
        type_: DateType::Date,
        format: None,
    }
}

fn words(hook: &[&str]) -> Option<Vec<String>> {
    Some(hook.iter().map(|word| word.to_string()).collect())
}

fn read_config(global: Option<Vec<String>>, own: Option<Vec<String>>, raw: &str) -> Config {
    let parsed = Config {
        rsspls: RssplsConfig {
            output: None,
            proxy: None,
            post_update_hook: global,
            file_urls: false,
            insecure_disable_certificate_verification: false,
        },
        feed: vec![ChannelConfig {
            title: "Example".to_string(),
            filename: "example.xml".to_string(),
            user_agent: None,
            post_update_hook: own,
            config: FeedConfig {
                source: FeedSource::default(),
                url: "https://example.com".to_string(),
                item: "article".to_string(),
                heading: "h1".to_string(),
                link: None,
                summary: Vec::new(),
                date: None,
                media: None,
                min_items: None,
            },
        }],
        hash: String::new(),
    };
    Config::read(raw.as_bytes(), parsed)
}

#[test]
fn test_without_format() {
    for text in ["January 8, 2021", "2022-07-13", "12/31/1999"] {
        assert!(matches!(test_anydate().try_parse(text), Some(Ok(_))));
        assert!(test_anydate().parse(text).is_ok());
    }
}

#[test]
fn test_with_date_format() {
    assert!(
        test_date("[day padding:none]/[month padding:none]/[year]")
            .parse("1/2/1945")
            .is_ok()
    );
    assert!(test_date("[weekday case_sensitive:false], [month repr:long case_sensitive:false] [day padding:none][first [st][nd][rd][th]], [year]")
        .parse("Friday, January 8th, 2021").is_ok());
    assert!(test_date("[weekday case_sensitive:false], [month repr:long case_sensitive:false] [day padding:none], [year]")
        .parse("Friday, January 8, 2021").is_ok());
}

#[test]
fn test_with_date_time_format() {
    assert!(test_date("[weekday case_sensitive:false], [month repr:long case_sensitive:false] [day padding:none][first [st][nd][rd][th]], [year] [hour repr:12]:[minute][period case:lower]")
        .parse("Friday, January 8th, 2021 12:13pm").is_ok());
    assert!(test_date("[weekday case_sensitive:false], [month repr:long case_sensitive:false] [day padding:none], [year] [hour repr:24]:[minute]")
        .parse("Friday, January 8, 2021 21:33").is_ok());
}

#[test]
fn test_feed_source_defaults_to_html() {
    assert_eq!(FeedSource::default(), FeedSource::Html);
    assert_ne!(FeedSource::default(), FeedSource::Json);
}

#[test]
fn test_feed_inherits_global_post_update_hook() {
    let config = read_config(words(&["echo", "global"]), None, "");
    let feed = config.feed.into_iter().next().unwrap();
    assert_eq!(
        feed.post_update_hook,
        Some(vec!["echo".to_string(), "global".to_string()])
    );
}

#[test]
fn test_feed_post_update_hook_overrides_global() {
    let config = read_config(words(&["echo", "global"]), words(&["echo", "feed"]), "");
    let feed = config.feed.into_iter().next().unwrap();
    assert_eq!(
        feed.post_update_hook,
        Some(vec!["echo".to_string(), "feed".to_string()])
    );
}

#[test]
fn test_empty_feed_post_update_hook_disables_global() {
    let config = read_config(words(&["echo", "global"]), Some(vec![]), "");
    let feed = config.feed.into_iter().next().unwrap();
    assert_eq!(feed.post_update_hook, Some(vec![]));
}

#[test]
fn no_hook_anywhere_is_no_hook() {
    let config = read_config(None, None, "");
    assert_eq!(config.feed[0].post_update_hook, None);
    assert_eq!(config.feed[0].title, "Example");
}

#[test]
fn the_hash_is_the_digest_of_the_file() {
    // BLAKE2b with a digest of 32 bytes, of no bytes at all.
    let config = read_config(None, None, "");
    assert_eq!(
        config.hash,
        "0e5751c026e543b2e8ab2eb06099daa1d1e5df47778f7787faab45cdf12fe3a8"
    );
    let other = read_config(None, None, "[rsspls]");
    assert_eq!(other.hash.len(), 64);
    assert_ne!(other.hash, config.hash);
    assert!(other.hash.chars().all(|c| c.is_ascii_digit() || ('a'..='f').contains(&c)));
}

#[test]
fn defaults_of_dates() {
    assert_eq!(DateType::default(), DateType::DateTime);
    let date = DateConfig::default();
    assert_eq!(date.selector(), "");
    assert_eq!(date.type_, DateType::DateTime);
    assert!(date.format.is_none());
    let date = DateConfig::from_str(".date");
    assert_eq!(date.selector(), ".date");
    assert_eq!(date.type_, DateType::DateTime);
    assert!(date.format.is_none());
}

#[test]
fn guessed_dates() {
    let date = test_anydate().parse("2022-07-13T10:20:30Z").unwrap();
    assert_eq!(date.local_seconds, 1_657_707_630);
    assert_eq!(date.offset_seconds, 0);
    assert!(test_anydate().parse("no date at all").is_err());
    // An offset shifts the local time and is kept.
    let date = test_anydate().parse("2022-07-13T10:20:30+02:00").unwrap();
    assert_eq!(date.local_seconds, 1_657_707_630);
    assert_eq!(date.offset_seconds, 7_200);
}

#[test]
fn dates_that_cannot_be_read() {
    // Milliseconds from the start of 1970 that are beyond what can be kept.
    assert!(test_anydate().try_parse("9999999999999").is_none());
    // With a format the same text is merely not a date.
    assert!(matches!(
        test_date("[year]-[month]-[day]").try_parse("9999999999999"),
        Some(Err(_))
    ));
}

#[test]
fn days_are_midnight_in_utc() {
    let date = test_date("[year]-[month]-[day]").parse("1970-01-02").unwrap();
    assert_eq!(date.local_seconds, 86_400);
    assert_eq!(date.nanosecond, 0);
    assert_eq!(date.offset_seconds, 0);
}

#[test]
fn times_keep_their_offset() {
    let date = DateConfig {
        selector: String::new(),
        type_: DateType::DateTime,
        format: Some(
            "[year]-[month]-[day] [hour]:[minute] [offset_hour sign:mandatory]".to_string(),
        ),
    };
    let date = date.parse("1970-01-02 03:00 +01").unwrap();
    assert_eq!(date.local_seconds, 86_400 + 3 * 3_600);
    assert_eq!(date.offset_seconds, 3_600);
    let plain = DateConfig {
        selector: String::new(),
        type_: DateType::DateTime,
        format: Some("[year]-[month]-[day] [hour]:[minute]".to_string()),
    };
    let date = plain.parse("1970-01-02 03:00").unwrap();
    assert_eq!(date.local_seconds, 86_400 + 3 * 3_600);
    assert_eq!(date.offset_seconds, 0);
    assert!(plain.parse("1970-01-02").is_err());
}

#[test]
fn dates_from_parts() {
    let date = date_from_anydate(Ok((0, -3_600))).unwrap();
    assert_eq!(date.local_seconds, -3_600);
    assert_eq!(date_from_anydate(Err("no".to_string())).err(), Some("no".to_string()));
    let date = date_from_day(Ok(2_440_588)).unwrap();
    assert_eq!(date.local_seconds, 0);
    let date = date_from_time(Err("a".to_string()), Ok((2_440_588, 1, 2, 3, 4))).unwrap();
    assert_eq!((date.local_seconds, date.nanosecond), (3_723, 4));
    let both = date_from_time(Err("a".to_string()), Err("b".to_string()));
    assert_eq!(both.err(), Some("b".to_string()));
}

#[test]
fn formats() {
    assert_eq!(deserialize_format(None), Ok(None));
    assert_eq!(
        deserialize_format(Some("[year]".to_string())),
        Ok(Some("[year]".to_string()))
    );
    assert!(deserialize_format(Some("[nothing]".to_string())).is_err());
    assert_eq!(
        deserialize_format(Some("[optional[[bad]]]".to_string())),
        Err("invalid nested format description".to_string())
    );
    assert!(deserialize_format(Some("[hour][optional [:[minute]]]".to_string())).is_ok());
    let date = DateConfig {
        selector: String::new(),
        type_: DateType::Date,
        format: Some("[optional[[bad]]]".to_string()),
    };
    assert!(date.try_parse("2022").is_none());
}

#[test]
fn values_of_two_kinds() {
    assert_eq!(string_or_seq_string(StringOrSeq::One("p".to_string())), vec!["p"]);
    assert_eq!(
        string_or_seq_string(StringOrSeq::Many(vec!["a".to_string(), "b".to_string()])),
        vec!["a", "b"]
    );
    let date = string_or_struct(StringOrStruct::Selector("time".to_string()));
    assert_eq!(date.selector(), "time");
    let date = opt_string_or_struct(Some(StringOrStruct::Settings(test_date("[year]")))).unwrap();
    assert_eq!(date.type_, DateType::Date);
    assert!(opt_string_or_struct(None).is_none());
}
