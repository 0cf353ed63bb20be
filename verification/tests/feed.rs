use rsspls::config::{ChannelConfig, DateConfig, DateType, FeedConfig, FeedSource};
use rsspls::errors::FeedErrorOf;
use rsspls::feed::{
    finish_feed, link_selector, minimum_is_void, process_elements, process_feed, sort_outcomes,
    Channel, FetchResult, ProcessResult,
};
use rsspls::fetch::{plan_fetch, Client, Origin};
use rsspls::html::Page;
use rsspls::item::DEFAULT_LINK_SELECTOR;
use rsspls::paths::PathStyle;
use rsspls::version::{version, version_string};

const HTML: &str = r#"<html><body><header><nav>
    <a href="install.html">Install</a><a href="docs.html">Documentation</a>
    <a href="news.html">News</a><a href="source.html">Source</a><a href="about.html">About</a>
    </nav></header><main><a href="other.html">Other</a></main></body></html>"#;

fn test_config() -> FeedConfig {
    FeedConfig {
        source: FeedSource::Html,
        url: "file:///tmp/site/index.html".to_string(),
        item: String::new(),
        heading: String::new(),
        link: None,
        summary: Vec::new(),
        date: None,
        media: None,
        min_items: None,
    }
}

fn test_channel(title: &str, config: FeedConfig) -> ChannelConfig {
    ChannelConfig {
        title: title.to_string(),
        filename: "site.rss".to_string(),
        user_agent: None,
        post_update_hook: None,
        config,
    }
}

fn test_date(format: &str) -> DateConfig {
    test_date_with_selector("", format)
}

fn test_date_with_selector(selector: &str, format: &str) -> DateConfig {
    DateConfig {
        selector: selector.to_string(),
        type_: DateType::default(),
        format: Some(format.to_string()),
    }
}

fn fetched(html: &str) -> FetchResult {
    FetchResult::Fetched { html: html.to_string(), headers: None }
}

fn made(channel: &ChannelConfig, html: &str) -> Box<Channel> {
    let (_, origin) = plan_fetch(&Client { file_urls: true }, channel).unwrap();
    assert_eq!(origin, Origin::Local);
    match process_feed(PathStyle::Unix, channel, fetched(html), None) {
        Some(Ok(ProcessResult::Made { channel, .. })) => channel,
        other => panic!("expected a feed but got: {other:?}"),
    }
}

const HUNGARIAN_FORMAT: &str =
    "[year]. [month]. [day]. [hour]:[minute][end trailing_input:discard]";

#[test]
fn test_date_hungarian_style() {
    let date = test_date(HUNGARIAN_FORMAT);
    assert!(date.parse("2024. 03. 15. 09:45").is_ok());
    assert!(date.parse("2024. 03. 15. 09:45 some trailing text").is_ok());
    assert!(date.parse("1999. 12. 31. 23:59").is_ok());
}

#[test]
fn test_process_local_html_hungarian_date() {
    let html = r#"<html><body>
            <article class="post">
                <h2><a href="/post/1">First Post</a></h2>
                <span class="date">2024. 03. 15. 09:45</span>
            </article>
            <article class="post">
                <h2><a href="/post/2">Second Post</a></h2>
                <span class="date">1999. 12. 31. 23:59 - trailing content</span>
            </article>
        </body></html>"#;

    let config = FeedConfig {
        item: "article.post".to_string(),
        heading: "h2".to_string(),
        link: Some("a".to_string()),
        date: Some(test_date_with_selector(".date", HUNGARIAN_FORMAT)),
        ..test_config()
    };
    let channel = made(&test_channel("Site", config), html);

    assert_eq!(channel.items().len(), 2);
    assert_eq!(channel.items()[0].title, Some("First Post".to_string()));
    assert_eq!(
        channel.items()[0].pub_date,
        Some("Fri, 15 Mar 2024 09:45:00 +0000".to_string())
    );
    assert_eq!(channel.items()[1].title, Some("Second Post".to_string()));
    assert_eq!(
        channel.items()[1].pub_date,
        Some("Fri, 31 Dec 1999 23:59:00 +0000".to_string())
    );
}

#[test]
fn test_advanced_css_selectors() {
    let html = r#"<html><body>
            <div id="d1"><h1><a href="/title-1">Title 1</a></h1></div>
            <div id="d2"><p>Only paragraph</p></div>
            <div id="d3"></div>
            <div id="d4"><h1><a href="/title-2">Title 2</a></h1></div>
            <div id="d5"><span>No title</span></div>
        </body></html>"#;

    let config = FeedConfig {
        item: "div:has(h1)".to_string(),
        heading: "h1".to_string(),
        link: Some("h1 a".to_string()),
        ..test_config()
    };
    let channel = made(&test_channel("Advanced CSS", config), html);

    assert_eq!(channel.items().len(), 2);
}

#[test]
fn test_process_local_html() {
    let config = FeedConfig {
        item: "nav a".to_string(),
        heading: "a".to_string(),
        ..test_config()
    };
    let channel = made(&test_channel("Local Site", config), HTML);

    assert_eq!(channel.items().len(), 5);
    assert_eq!(channel.items()[0].title, Some("Install".to_string()));
    assert_eq!(
        channel.items()[0].link,
        Some("file:///tmp/site/install.html".to_string())
    );
    assert_eq!(channel.title, "Local Site");
    assert_eq!(channel.link, "file:///tmp/site/index.html");
    assert_eq!(channel.generator.as_deref(), Some("rsspls version 0.11.3"));
}

#[test]
fn test_process_local_files_disabled() {
    let config = FeedConfig {
        url: "file:///tmp/rsspls.local.html".to_string(),
        item: "nav a".to_string(),
        heading: "a".to_string(),
        ..test_config()
    };
    let channel = test_channel("Local Site", config);

    let Err(err) = plan_fetch(&Client { file_urls: false }, &channel) else {
        panic!("expected error")
    };

    assert!(err.message().contains("file URLs are not enabled in config"));
}

#[test]
fn versions_agree() {
    assert_eq!(version_string(), format!("rsspls version {}", version()));
    assert_eq!(version(), "0.11.3");
}

#[test]
fn links_are_found_without_a_selector() {
    assert_eq!(DEFAULT_LINK_SELECTOR, "a[href], area[href]");
    assert_eq!(link_selector(&test_config()), DEFAULT_LINK_SELECTOR);
    let config = FeedConfig {
        item: ".item".to_string(),
        heading: "h2".to_string(),
        ..test_config()
    };
    let html = "<div class=item><h2>One</h2><a>no</a><a href=one>yes</a></div>
        <div class=item><h2>Two</h2><map><area href=two></map></div>";
    let channel = made(&test_channel("T", config), html);
    assert_eq!(channel.items()[0].link.as_deref(), Some("file:///tmp/site/one"));
    assert_eq!(channel.items()[1].link.as_deref(), Some("file:///tmp/site/two"));
    let config = FeedConfig { link: Some("h2".to_string()), ..test_config() };
    assert_eq!(link_selector(&config), "h2");
}

#[test]
fn bad_items_are_skipped_and_accounted_for() {
    let config = FeedConfig {
        item: "p".to_string(),
        heading: "b".to_string(),
        link: Some("a".to_string()),
        ..test_config()
    };
    let html = "<p><b>One</b><a href=1>x</a></p><p>none</p><p><b>Two</b><a href=2>x</a></p><p><b>x</b></p>";
    let channel = test_channel("T", config);
    match process_feed(PathStyle::Unix, &channel, fetched(html), None) {
        Some(Ok(ProcessResult::Made { channel, headers, skipped })) => {
            let titles: Vec<_> = channel.items().iter().map(|i| i.title.clone().unwrap()).collect();
            assert_eq!(titles, ["One", "Two"]);
            let messages: Vec<_> = skipped.iter().map(|err| err.message()).collect();
            assert_eq!(
                messages,
                [
                    "heading selector did not match anything: b",
                    "link selector did not match anything"
                ]
            );
            assert_eq!(headers, None);
        }
        other => panic!("expected a feed but got: {other:?}"),
    }
}

#[test]
fn too_few_items_fail() {
    let config = |min_items| FeedConfig {
        item: "nav a".to_string(),
        heading: "a".to_string(),
        min_items,
        ..test_config()
    };
    let count = |min_items, html: &str| {
        match process_feed(
            PathStyle::Unix,
            &test_channel("T", config(min_items)),
            fetched(html),
            None,
        ).unwrap() {
            Ok(ProcessResult::Made { channel, .. }) => Ok(channel.items().len()),
            Ok(ProcessResult::NotModified) => unreachable!(),
            Err(err) => Err(err.message()),
        }
    };
    assert_eq!(count(Some(5), HTML), Ok(5));
    assert_eq!(count(Some(6), HTML), Err("expected at least 6 items but created 5".to_string()));
    assert_eq!(count(Some(1), ""), Err("expected at least 1 items but created 0".to_string()));
    assert_eq!(count(Some(0), ""), Ok(0));
    assert_eq!(count(None, ""), Ok(0));
    assert!(minimum_is_void(&config(Some(0))));
    assert!(!minimum_is_void(&config(Some(1))));
    assert!(!minimum_is_void(&config(None)));
}

#[test]
fn feeds_that_fail() {
    let channel = test_channel("T", FeedConfig { url: "no url".to_string(), ..test_config() });
    let err = process_feed(PathStyle::Unix, &channel, FetchResult::NotModified, None).unwrap().unwrap_err();
    assert_eq!(err.message(), "unable to parse no url as a URL");
    assert_eq!(err.cause().as_deref(), Some("relative URL without a base"));
    let channel = test_channel("T", FeedConfig { item: "a[".to_string(), ..test_config() });
    let err = process_feed(PathStyle::Unix, &channel, fetched(HTML), None).unwrap().unwrap_err();
    assert_eq!(err.message(), "invalid selector for item: a[");
    assert_eq!(err.cause(), None);
}

#[test]
fn unmodified_pages_give_no_feed() {
    let channel = test_channel("T", test_config());
    assert!(matches!(
        process_feed(PathStyle::Unix, &channel, FetchResult::NotModified, None),
        Some(Ok(ProcessResult::NotModified))
    ));
}

#[test]
fn unwritable_dates_give_none() {
    let config = FeedConfig {
        item: "p".to_string(),
        heading: "b".to_string(),
        link: Some("a".to_string()),
        date: Some(DateConfig::from_str("i")),
        ..test_config()
    };
    let channel = test_channel("T", config);
    let html = |date: &str| fetched(&format!("<p><b>t</b><a href=x>x</a><i>{date}</i></p>"));
    assert!(process_feed(PathStyle::Unix, &channel, html("1850-01-01"), None).is_none());
    assert!(matches!(
        process_feed(PathStyle::Unix, &channel, html("1950-01-01"), None),
        Some(Ok(ProcessResult::Made { .. }))
    ));
}

#[test]
fn texts_that_are_no_dates_do_not_matter() {
    let config = FeedConfig {
        item: "p".to_string(),
        heading: "b".to_string(),
        link: Some("a".to_string()),
        date: Some(DateConfig::from_str("i")),
        min_items: Some(0),
        ..test_config()
    };
    let html = "<p><b>t</b><a href=x>x</a><i>posted-262142</i></p>";
    let channel = made(&test_channel("T", config), html);
    assert_eq!(channel.items().len(), 1);
    assert_eq!(channel.items()[0].pub_date, None);
}

#[test]
fn outcomes_are_sorted_in_order() {
    let page = Page::parse("<p><b>1</b><a href=1>x</a></p><p></p><p><b>2</b><a href=2>x</a></p>");
    let config = FeedConfig { heading: "b".to_string(), link: Some("a".to_string()), ..test_config() };
    let elements = page.select("p").unwrap();
    let outcomes = process_elements(PathStyle::Unix, &config, &page, &elements, "http://a/");
    assert_eq!(outcomes.len(), 3);
    let (items, errors) = sort_outcomes(outcomes);
    assert_eq!(items.len(), 2);
    assert_eq!(errors.len(), 1);
    assert_eq!(items[1].link.as_deref(), Some("http://a/2"));
}

#[test]
fn headers_are_handed_on() {
    let channel = test_channel("T", test_config());
    let result = finish_feed(
        &channel,
        "http://a/".to_string(),
        vec![Err(FeedErrorOf::NoLink)],
        Some("h".to_string()),
    );
    match result {
        Ok(ProcessResult::Made { channel, headers, skipped }) => {
            assert_eq!(channel.link, "http://a/");
            assert_eq!(headers.as_deref(), Some("h"));
            assert_eq!(skipped.len(), 1);
        }
        other => panic!("expected a feed but got: {other:?}"),
    }
}
