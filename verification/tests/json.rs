use rsspls::config::{ChannelConfig, DateConfig, FeedConfig, FeedSource};
use rsspls::errors::Part;
use rsspls::feed::{process_feed, FetchResult, ProcessResult};
use rsspls::json::{
    document_filter, item_filters, process_json_item, take_needed, text_of_value, FilterInput,
    JsonPage, JsonValue, RunOutcome,
};
use rsspls::paths::PathStyle;

fn config() -> FeedConfig {
    FeedConfig {
        source: FeedSource::Json,
        url: "https://example.com/api/posts".to_string(),
        item: ".posts[]".to_string(),
        heading: ".title".to_string(),
        link: Some(".url".to_string()),
        summary: Vec::new(),
        date: None,
        media: None,
        min_items: None,
    }
}

fn channel(config: FeedConfig) -> ChannelConfig {
    ChannelConfig {
        title: "Example API".to_string(),
        filename: "example-api.xml".to_string(),
        user_agent: None,
        post_update_hook: None,
        config,
    }
}

fn text(value: &str) -> RunOutcome {
    RunOutcome::Values(vec![JsonValue::Text(value.to_string())])
}

fn other(value: &str) -> RunOutcome {
    RunOutcome::Values(vec![JsonValue::Other(value.to_string())])
}

fn nothing() -> RunOutcome {
    RunOutcome::Values(vec![])
}

fn fetched() -> FetchResult {
    FetchResult::Fetched { html: "{}".to_string(), headers: Some("h".to_string()) }
}

fn made(config: FeedConfig, page: JsonPage) -> Option<Result<ProcessResult, String>> {
    process_feed(PathStyle::Unix, &channel(config), fetched(), Some(page))
        .map(|result| result.map_err(|err| err.message()))
}

const PAGE: &str = "https://example.com/api/posts";

#[test]
fn filters_and_what_they_run_on() {
    let config = FeedConfig {
        summary: vec![".a".to_string(), ".b".to_string()],
        date: Some(DateConfig::from_str(".time")),
        media: Some(".file".to_string()),
        ..config()
    };
    let filter = document_filter(&config);
    assert_eq!(filter.text, ".posts[]");
    assert_eq!(filter.input, FilterInput::Document);
    assert!(filter.all);
    let filters = item_filters(&config);
    let found: Vec<_> = filters.iter().map(|filter| (filter.part, filter.text.as_str())).collect();
    assert_eq!(
        found,
        [
            (Part::Heading, ".title"),
            (Part::Link, ".url"),
            (Part::Summary, ".a"),
            (Part::Summary, ".b"),
            (Part::Date, ".time"),
            (Part::Media, ".file"),
        ]
    );
    assert!(filters.iter().all(|filter| filter.input == FilterInput::Item));
    assert!(filters.iter().all(|filter| filter.all == (filter.part == Part::Summary)));
    let none = FeedConfig { link: None, ..self::config() };
    assert_eq!(item_filters(&none)[1].text, "empty");
    assert_eq!(item_filters(&none).len(), 2);
}

#[test]
fn items_from_values() {
    let config = FeedConfig {
        summary: vec![".summary".to_string(), ".nothing[".to_string(), ".meta[]".to_string()],
        date: Some(DateConfig::from_str(".time")),
        media: Some(".file".to_string()),
        ..config()
    };
    let outcomes = vec![
        text("First"),
        text("/post/1"),
        text("A "),
        RunOutcome::Invalid,
        RunOutcome::Values(vec![
            JsonValue::Other("{\"a\":1}".to_string()),
            JsonValue::Text("z".to_string()),
        ]),
        other("1700000000000"),
        text("/a.mp3"),
    ];
    let made = process_json_item(PathStyle::Unix, &config, &outcomes, PAGE).unwrap();
    assert_eq!(made.title.as_deref(), Some("First"));
    assert_eq!(made.link.as_deref(), Some("https://example.com/post/1"));
    let guid = made.guid.unwrap();
    assert_eq!(guid.value, "https://example.com/post/1");
    assert!(!guid.permalink);
    assert_eq!(made.description.as_deref(), Some("A {\"a\":1}z"));
    assert_eq!(made.pub_date.as_deref(), Some("Tue, 14 Nov 2023 22:13:20 +0000"));
    let enclosure = made.enclosure.unwrap();
    assert_eq!(enclosure.url, "https://example.com/a.mp3");
    assert_eq!(enclosure.mime_type, "audio/mpeg");
}

#[test]
fn values_that_are_no_strings_count_as_json_text() {
    assert_eq!(text_of_value(&JsonValue::Text("12".to_string())), "12");
    assert_eq!(text_of_value(&JsonValue::Other("12".to_string())), "12");
    assert_eq!(text_of_value(&JsonValue::Other("null".to_string())), "null");
    let page = JsonPage::Items(vec![
        vec![text("A"), text("https://example.com/a")],
        vec![other("2"), text("https://example.com/b")],
    ]);
    match made(config(), page) {
        Some(Ok(ProcessResult::Made { channel, .. })) => {
            let found: Vec<_> = channel
                .items()
                .iter()
                .map(|item| (item.title.as_deref().unwrap(), item.link.as_deref().unwrap()))
                .collect();
            assert_eq!(
                found,
                [("A", "https://example.com/a"), ("2", "https://example.com/b")]
            );
        }
        other => panic!("expected a feed but got: {other:?}"),
    }
}

#[test]
fn items_that_fail() {
    let message = |config: FeedConfig, outcomes: Vec<RunOutcome>| {
        process_json_item(PathStyle::Unix, &config, &outcomes, PAGE).unwrap_err().message()
    };
    assert_eq!(
        message(config(), vec![nothing(), text("/1")]),
        "heading filter did not give anything: .title"
    );
    assert_eq!(
        message(config(), vec![text("t"), RunOutcome::Invalid]),
        "invalid filter for link: .url"
    );
    assert_eq!(message(config(), vec![text("t")]), "not all filters were run on an item");
    let failed = || RunOutcome::Failed("cannot index".to_string());
    let err = take_needed(Part::Link, ".a.b", &failed()).unwrap_err();
    assert_eq!(err.message(), "filter for link failed: .a.b");
    assert_eq!(err.cause().as_deref(), Some("cannot index"));
    let summary = FeedConfig { summary: vec![".s".to_string(), ".a.b".to_string()], ..config() };
    assert_eq!(
        message(summary, vec![text("t"), text("/1"), text("x"), failed()]),
        "filter for summary failed: .a.b"
    );
    let media = || FeedConfig { media: Some(".m".to_string()), ..config() };
    assert_eq!(
        message(media(), vec![text("t"), text("/1"), text("http://[::1")]),
        "media enclosure url invalid: invalid IPv6 address"
    );
    assert_eq!(
        message(media(), vec![text("t"), text("/1"), nothing()]),
        "media filter did not give anything: .m"
    );
    // A configured part whose filter was not run does not go unnoticed.
    assert_eq!(
        message(media(), vec![text("t"), text("/1")]),
        "not all filters were run on an item"
    );
}

#[test]
fn dates_are_optional() {
    let dated = FeedConfig { date: Some(DateConfig::from_str(".d")), ..config() };
    let item = |outcome| {
        process_json_item(PathStyle::Unix, &dated, &vec![text("t"), text("/1"), outcome], PAGE)
    };
    assert_eq!(item(nothing()).unwrap().pub_date, None);
    assert_eq!(item(other("null")).unwrap().pub_date, None);
    assert_eq!(
        item(text("2022-07-13T10:20:30Z")).unwrap().pub_date.as_deref(),
        Some("Wed, 13 Jul 2022 10:20:30 +0000")
    );
    assert_eq!(
        item(RunOutcome::Invalid).unwrap_err().message(),
        "invalid filter for date: .d"
    );
}

#[test]
fn feeds_from_documents() {
    let items = vec![
        vec![text("One"), text("/1")],
        vec![text("x"), nothing()],
        vec![text("Two"), text("/2")],
    ];
    match made(config(), JsonPage::Items(items)) {
        Some(Ok(ProcessResult::Made { channel, headers, skipped })) => {
            assert_eq!(channel.title, "Example API");
            assert_eq!(channel.link, PAGE);
            assert_eq!(channel.items().len(), 2);
            assert_eq!(channel.items()[1].title.as_deref(), Some("Two"));
            assert_eq!(headers.as_deref(), Some("h"));
            assert_eq!(skipped[0].message(), "link filter did not give anything: .url");
        }
        other => panic!("expected a feed but got: {other:?}"),
    }
}

#[test]
fn documents_that_fail() {
    let message = |config: FeedConfig, page: JsonPage| made(config, page).unwrap().unwrap_err();
    assert_eq!(
        message(config(), JsonPage::NotJson("eof".to_string())),
        "unable to parse JSON"
    );
    assert_eq!(
        message(config(), JsonPage::InvalidItemFilter),
        "invalid filter for item: .posts[]"
    );
    assert_eq!(
        message(config(), JsonPage::ItemFilterFailed("no".to_string())),
        "filter for item failed: .posts[]"
    );
    let many = FeedConfig { min_items: Some(1), ..config() };
    assert_eq!(
        message(many, JsonPage::Items(vec![])),
        "expected at least 1 items but created 0"
    );
    let nowhere = FeedConfig { url: "x".to_string(), ..config() };
    assert_eq!(message(nowhere, JsonPage::Items(vec![])), "unable to parse x as a URL");
    let err = process_feed(PathStyle::Unix, &channel(config()), fetched(), None);
    assert_eq!(err.unwrap().unwrap_err().message(), "not all filters were run on an item");
}

#[test]
fn json_feeds_need_a_link() {
    let none = || channel(FeedConfig { link: None, ..config() });
    for given in [FetchResult::NotModified, fetched()] {
        let result = process_feed(PathStyle::Unix, &none(), given, Some(JsonPage::Items(vec![])));
        assert_eq!(
            result.unwrap().unwrap_err().message(),
            "a JSON feed needs a link filter"
        );
    }
}

#[test]
fn documents_that_are_as_they_were() {
    let result = process_feed(
        PathStyle::Unix,
        &channel(config()),
        FetchResult::NotModified,
        None,
    );
    assert!(matches!(result, Some(Ok(ProcessResult::NotModified))));
}

#[test]
fn dates_that_no_feed_can_hold() {
    let dated = FeedConfig { date: Some(DateConfig::from_str(".d")), ..config() };
    let old = vec![text("t"), text("/1"), text("1850-01-01")];
    assert!(made(dated, JsonPage::Items(vec![old])).is_none());
}
