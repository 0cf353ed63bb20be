use rsspls::config::{ChannelConfig, ConfigHash, FeedConfig, FeedSource};
use rsspls::fetch::{
    add_headers, cached_headers, fetch_webpage, fetch_webpage_http, fetch_webpage_local,
    is_full_path, keep_text_headers, plan_fetch, read_answer, require_path, Answer, Client, Header, Origin,
    RequestCacheWrite,
};
use rsspls::links::read_url;

fn config(url: &str, source: FeedSource, link: Option<&str>) -> FeedConfig {
    FeedConfig {
        source,
        url: url.to_string(),
        item: String::new(),
        heading: String::new(),
        link: link.map(str::to_string),
        summary: Vec::new(),
        date: None,
        media: None,
        min_items: None,
    }
}

fn channel(config: FeedConfig) -> ChannelConfig {
    ChannelConfig {
        title: "T".to_string(),
        filename: "t.xml".to_string(),
        user_agent: None,
        post_update_hook: None,
        config,
    }
}

fn headers(pairs: &[(&str, &str)]) -> Vec<Header> {
    pairs.iter().map(|(name, value)| (name.to_string(), value.to_string())).collect()
}

fn answer_headers(pairs: &[(&str, &[u8])]) -> Vec<(String, Vec<u8>)> {
    pairs.iter().map(|(name, value)| (name.to_string(), value.to_vec())).collect()
}

#[test]
fn origins_of_pages() {
    let enabled = Client { file_urls: true };
    let disabled = Client { file_urls: false };
    let file = read_url("file:///tmp/x.html").unwrap();
    let page = read_url("https://example.com").unwrap();
    assert_eq!(fetch_webpage(&enabled, &file).unwrap(), Origin::Local);
    assert_eq!(fetch_webpage(&enabled, &page).unwrap(), Origin::Http);
    assert_eq!(fetch_webpage(&disabled, &page).unwrap(), Origin::Http);
    assert_eq!(
        fetch_webpage(&disabled, &file).unwrap_err().message(),
        "unable to fetch: file:///tmp/x.html as file URLs are not enabled in config"
    );
}

#[test]
fn plans_of_fetches() {
    let client = Client { file_urls: false };
    let plan = |url: &str, source, link| plan_fetch(&client, &channel(config(url, source, link)));
    let (url, origin) = plan("http://example.com", FeedSource::Html, None).unwrap();
    assert_eq!(url.text, "http://example.com/");
    assert_eq!(origin, Origin::Http);
    assert!(plan("http://example.com", FeedSource::Json, Some(".url")).is_ok());
    let err = plan("http://example.com", FeedSource::Json, None).unwrap_err();
    assert_eq!(err.message(), "a JSON feed needs a link filter");
    let err = plan("example", FeedSource::Json, None).unwrap_err();
    assert_eq!(err.message(), "unable to parse example as a URL");
    assert!(plan("file:///x", FeedSource::Html, None).is_err());
}

#[test]
fn paths_of_local_files() {
    let url = read_url("file:///tmp/a%20b.html").unwrap();
    assert_eq!(fetch_webpage_local(&url).unwrap(), "/tmp/a b.html");
    let url = read_url("file://elsewhere/tmp/x.html").unwrap();
    assert_eq!(
        fetch_webpage_local(&url).unwrap_err().message(),
        "unable to extract path from: file://elsewhere/tmp/x.html"
    );
    // A drive alone is no path on Windows, and neither is a host without a share.
    for text in [
        "file:///C:",
        "file:///c%3A",
        "file://localhost/C:?q#f",
        "file://elsewhere",
        "file://elsewhere//x",
        "file://elsewhere/%5Cx",
    ] {
        let url = read_url(text).unwrap();
        let err = fetch_webpage_local(&url).unwrap_err();
        assert_eq!(err.message(), format!("unable to extract path from: {}", url.text));
    }
    let url = read_url("file:///C:/x").unwrap();
    assert_eq!(fetch_webpage_local(&url).unwrap(), "/C:/x");
    let url = read_url("file:///etc").unwrap();
    assert_eq!(fetch_webpage_local(&url).unwrap(), "/etc");
    assert_eq!(require_path(&url, Some("/x".to_string())).unwrap(), "/x");
    assert!(require_path(&url, None).is_err());
}

#[test]
fn full_paths_of_urls() {
    for text in [
        "file:///C:/",
        "file:///CC:",
        "file:///C|",
        "file:///C%3B",
        "file://host/C%3A",
        "file://host/x",
        "file:///x?/C:",
        "file:////",
        "file:///",
        "mailto:C:",
        "http://localhost/C:/x",
        "foo:/.//C:",
        "foo://host#/C:",
        "foo://host",
        "foo",
    ] {
        assert!(is_full_path(text), "{text}");
    }
    for text in [
        "file:///C:",
        "file:///z%3a#x",
        "foo:/C:",
        "http://localhost/C:?q",
        "foo://user@localhost:80/C:",
        "file://host/",
        "file://host/?x",
        "file://host/%2f",
        "file://host/%5Cx/y",
    ] {
        assert!(!is_full_path(text), "{text}");
    }
}

#[test]
fn requests_without_cache() {
    assert_eq!(add_headers(&None, &None), headers(&[]));
    assert_eq!(
        add_headers(&None, &Some("ua".to_string())),
        headers(&[("user-agent", "ua")])
    );
    assert_eq!(add_headers(&Some(Vec::new()), &None), headers(&[]));
}

#[test]
fn requests_ask_for_changes_only() {
    let cached = Some(headers(&[
        ("content-type", "text/html"),
        ("ETag", "\"1\""),
        ("last-modified", "Fri, 15 Mar 2024 09:45:00 GMT"),
        ("etag", "\"2\""),
    ]));
    assert_eq!(
        add_headers(&cached, &Some("ua".to_string())),
        headers(&[
            ("user-agent", "ua"),
            ("if-modified-since", "Fri, 15 Mar 2024 09:45:00 GMT"),
            ("if-none-match", "\"1\""),
        ])
    );
    assert_eq!(
        add_headers(&Some(headers(&[("etag", "x")])), &None),
        headers(&[("if-none-match", "x")])
    );
}

#[test]
fn answers_by_status() {
    let config = config("http://example.com", FeedSource::Html, None);
    let given = answer_headers(&[("etag", b"x"), ("odd", b"\xff"), ("tab", b"a\tb")]);
    let hash = ConfigHash("hash");
    let answer = |status| fetch_webpage_http(&config, status, &given, hash);
    assert!(matches!(answer(304), Ok(Answer::NotModified)));
    for status in [200, 204, 299] {
        match answer(status) {
            Ok(Answer::Page(cache)) => {
                assert_eq!(cache.headers, headers(&[("etag", "x"), ("tab", "a\tb")]));
                assert_eq!(cache.version, "0.11.3");
                assert_eq!(cache.config_hash, "hash");
            }
            other => panic!("expected a page but got: {other:?}"),
        }
    }
    assert_eq!(
        answer(404).unwrap_err().message(),
        "failed to fetch http://example.com: 404 Not Found"
    );
    assert_eq!(
        answer(599).unwrap_err().message(),
        "failed to fetch http://example.com: 599 Unknown Status"
    );
    assert!(answer(199).is_err());
    assert!(answer(300).is_err());
    let err = read_answer(&config, 500, Some("Oops".to_string()), &given, hash).unwrap_err();
    assert_eq!(err.message(), "failed to fetch http://example.com: 500 Oops");
}

#[test]
fn headers_that_are_text() {
    let given = answer_headers(&[("a", b"~ "), ("b", b"\x7f"), ("c", b""), ("d", b"\n"), ("e", "é".as_bytes())]);
    assert_eq!(keep_text_headers(&given), headers(&[("a", "~ "), ("c", "")]));
}

#[test]
fn kept_headers_come_back() {
    let cache = |version: &str| RequestCacheWrite {
        headers: headers(&[("etag", "x")]),
        version: version.to_string(),
        config_hash: "hash".to_string(),
    };
    assert_eq!(
        cached_headers(cache("0.11.3"), ConfigHash("hash")),
        Some(headers(&[("etag", "x")]))
    );
    assert_eq!(cached_headers(cache("0.11.3"), ConfigHash("other")), None);
    assert_eq!(cached_headers(cache("0.11.2"), ConfigHash("hash")), None);
}
