use rsspls::config::{DateConfig, FeedConfig, FeedSource};
use rsspls::dates::PubDate;
use rsspls::errors::{FeedErrorOf, Part};
use rsspls::html::{
    link_text, select_first_including_self, select_including_self, Page,
};
use rsspls::item::{
    build_enclosure, build_item, can_process_item, description_from, extract_description,
    extract_enclosure, extract_pub_date, has_usable_date, parse_date, process_item, require,
};
use rsspls::links::read_url;
use rsspls::paths::PathStyle;

fn test_config() -> FeedConfig {
    FeedConfig {
        source: FeedSource::Html,
        url: String::new(),
        item: String::new(),
        heading: String::new(),
        link: None,
        summary: Vec::new(),
        date: None,
        media: None,
        min_items: None,
    }
}

fn base() -> String {
    read_url("http://example.com").unwrap().text
}

fn first(page: &Page, selector: &str) -> usize {
    page.select(selector).unwrap()[0]
}

fn dated(selector: &str) -> FeedConfig {
    FeedConfig {
        heading: "h2".to_string(),
        date: Some(DateConfig::from_str(selector)),
        ..test_config()
    }
}

#[test]
fn test_process_item_normalizes_link_and_guid() {
    let html = r#"<html><body><article class="post"><h2><a href="/post/1">First Post</a></h2></article></body></html>"#;
    let page = Page::parse(html);
    let item = first(&page, "article.post");
    let config = FeedConfig {
        heading: "h2".to_string(),
        link: Some("a".to_string()),
        ..test_config()
    };

    let rss_item = process_item(PathStyle::Unix, &config, &page, item, "a", &base()).unwrap();

    assert_eq!(rss_item.link.as_deref(), Some("http://example.com/post/1"));
    assert_eq!(
        rss_item.guid.as_ref().map(|guid| guid.value.as_str()),
        Some("http://example.com/post/1")
    );
    assert!(!rss_item.guid.unwrap().permalink);
    assert_eq!(rss_item.title.as_deref(), Some("First Post"));
    assert!(rss_item.description.is_none());
    assert!(rss_item.pub_date.is_none());
    assert!(rss_item.enclosure.is_none());
}

#[test]
fn test_extract_description_rewrites_hrefs_to_absolute_urls() {
    let html = r#"<html><body><article class="item"><p class="summary">Read <a href="/more">more</a></p></article></body></html>"#;
    let page = Page::parse(html);
    let item = first(&page, ".item");
    let config = FeedConfig {
        summary: vec![".summary".to_string()],
        ..test_config()
    };

    let description = extract_description(&config, &page, item, &base())
        .unwrap()
        .unwrap();

    assert_eq!(
        description,
        r#"<p class="summary">Read <a href="http://example.com/more">more</a></p>"#
    );
}

#[test]
fn test_extract_description_leaves_src_attributes_unchanged() {
    let html = r#"<html><body><article class="item"><p class="summary"><img src="/image.jpg"><a href="/more">more</a></p></article></body></html>"#;
    let page = Page::parse(html);
    let item = first(&page, ".item");
    let config = FeedConfig {
        summary: vec![".summary".to_string()],
        ..test_config()
    };

    let description = extract_description(&config, &page, item, &base())
        .unwrap()
        .unwrap();

    assert_eq!(
        description,
        r#"<p class="summary"><img src="/image.jpg"><a href="http://example.com/more">more</a></p>"#
    );
}

#[test]
fn test_extract_description_multi() {
    // Test CSS selector for description that matches multiple elements
    let html = r#"<html><body><div class="item"><p>one</p><span>two</span></body></html>"#;
    let page = Page::parse(html);
    let item = first(&page, ".item");
    let config = FeedConfig {
        summary: vec!["span, p".to_string()],
        ..test_config()
    };

    let description = extract_description(&config, &page, item, &base())
        .unwrap()
        .unwrap();

    // Items come out in DOM order
    assert_eq!(description, "<p>one</p><span>two</span>");
}

#[test]
fn test_extract_description_array() {
    // Test CSS selectors for description, each of which matches one element
    let html = r#"<html><body><div class="item"><p>one</p><span>two</span></body></html>"#;
    let page = Page::parse(html);
    let item = first(&page, ".item");
    let config = FeedConfig {
        summary: vec!["span".to_string(), "p".to_string()],
        ..test_config()
    };

    let description = extract_description(&config, &page, item, &base())
        .unwrap()
        .unwrap();

    // Items come out in the order of the selector array
    assert_eq!(description, "<span>two</span><p>one</p>");
}

#[test]
fn invalid_summary_selectors_are_passed_over() {
    let page = Page::parse("<div class=item><p>one</p></div>");
    let item = first(&page, ".item");
    let config = FeedConfig {
        summary: vec!["p[".to_string(), "p".to_string()],
        ..test_config()
    };
    let description = extract_description(&config, &page, item, &base()).unwrap();
    assert_eq!(description.as_deref(), Some("<p>one</p>"));
    let config = FeedConfig {
        summary: vec!["p[".to_string(), "em".to_string()],
        ..test_config()
    };
    assert!(extract_description(&config, &page, item, &base()).unwrap().is_none());
    assert_eq!(description_from(String::new()), None);
    assert_eq!(description_from("x".to_string()), Some("x".to_string()));
}

#[test]
fn an_element_is_found_before_those_below_it() {
    let page = Page::parse("<div id=a><div id=b>in<b>ner</b></div></div>");
    let outer = first(&page, "#a");
    let inner = first(&page, "#b");
    assert_eq!(select_first_including_self(&page, outer, "div"), Ok(Some(outer)));
    assert_eq!(select_first_including_self(&page, outer, "#b"), Ok(Some(inner)));
    assert_eq!(select_first_including_self(&page, outer, "em"), Ok(None));
    assert_eq!(select_first_including_self(&page, outer, "["), Err(()));
    assert_eq!(select_including_self(&page, outer, "div"), Ok(vec![outer, inner]));
    assert_eq!(select_including_self(&page, inner, "div"), Ok(vec![inner]));
    assert_eq!(select_including_self(&page, inner, "["), Err(()));
    assert_eq!(link_text(&page, outer), "inner");
    assert_eq!(page.name(outer), "div");
    assert_eq!(page.attr(inner, "id").as_deref(), Some("b"));
    assert_eq!(page.attr(inner, "class"), None);
    assert_eq!(page.html(inner), r#"<div id="b">in<b>ner</b></div>"#);
    assert!(page.select("[").is_none());
}

#[test]
fn missing_parts_are_errors() {
    let page = Page::parse("<div class=item><h2>t</h2><a>no href</a></div>");
    let item = first(&page, ".item");
    let config = |heading: &str| FeedConfig { heading: heading.to_string(), ..test_config() };
    let message = |heading: &str, link: &str| {
        process_item(PathStyle::Unix, &config(heading), &page, item, link, &base()).unwrap_err().message()
    };
    assert_eq!(message("h2[", "a"), "invalid selector for heading: h2[");
    assert_eq!(message("h3", "a"), "heading selector did not match anything: h3");
    assert_eq!(message("h2", "a["), "invalid selector for link: a[");
    assert_eq!(message("h2", "b"), "link selector did not match anything");
    assert_eq!(message("h2", "a"), "element selected as link has no 'href' attribute");
}

#[test]
fn found_or_error() {
    assert!(matches!(require(Part::Heading, "h2", Ok(Some(3))), Ok(3)));
    assert!(matches!(require(Part::Media, "img", Ok(None)), Err(FeedErrorOf::NoMedia)));
    assert!(matches!(require(Part::Link, "a", Ok(None)), Err(FeedErrorOf::NoLink)));
    assert!(matches!(
        require(Part::Link, "a[", Err(())),
        Err(FeedErrorOf::InvalidSelector { part: Part::Link, .. })
    ));
}

#[test]
fn a_link_that_is_no_url_identifies_its_item() {
    let page = Page::parse(r#"<div class=item><h2>t</h2><a href="http://[::1">x</a></div>"#);
    let item = first(&page, ".item");
    let config = FeedConfig { heading: "h2".to_string(), ..test_config() };
    let rss_item = process_item(PathStyle::Unix, &config, &page, item, "a", &base()).unwrap();
    assert_eq!(rss_item.link, None);
    assert_eq!(rss_item.guid.unwrap().value, "http://[::1");
}

#[test]
fn media_files() {
    let html = r#"<div class=item><audio src="/a.mp3"></audio><a href="b.png">b</a><i>i</i><img src="http://[::1"></div>"#;
    let page = Page::parse(html);
    let item = first(&page, ".item");
    let config = |media: &str| FeedConfig { media: Some(media.to_string()), ..test_config() };
    let enclosure = extract_enclosure(PathStyle::Unix, &config("audio"), &page, item, &base()).unwrap().unwrap();
    assert_eq!(enclosure.url, "http://example.com/a.mp3");
    assert_eq!(enclosure.length, "0");
    assert_eq!(enclosure.mime_type, "audio/mpeg");
    let enclosure = extract_enclosure(PathStyle::Unix, &config("a"), &page, item, &base()).unwrap().unwrap();
    assert_eq!(enclosure.url, "http://example.com/b.png");
    assert_eq!(enclosure.mime_type, "image/png");
    assert!(extract_enclosure(PathStyle::Unix, &test_config(), &page, item, &base()).unwrap().is_none());
    let message = |media: &str| {
        extract_enclosure(PathStyle::Unix, &config(media), &page, item, &base()).unwrap_err().message()
    };
    assert_eq!(message("a["), "invalid selector for media: a[");
    assert_eq!(message("video"), "media selector did not match anything");
    assert_eq!(message("i"), "element selected as media has no 'src' or 'href' attribute");
    assert_eq!(message("img"), "media enclosure url invalid: invalid IPv6 address");
}

#[test]
fn enclosures_from_resolved_urls() {
    let enclosure = build_enclosure(PathStyle::Unix, Ok(("data:x".to_string(), None))).unwrap();
    assert_eq!(enclosure.mime_type, "application/octet-stream");
    let err = build_enclosure(PathStyle::Unix, Err("bad".to_string())).unwrap_err();
    assert_eq!(err.message(), "media enclosure url invalid: bad");
}

#[test]
fn dates_of_items() {
    let html = r#"<div class=item><time datetime="2022-04-20T06:38:27+10:00">1 May 1999</time>
        <time id=t datetime="soon">2021-05-20 —</time><p datetime="2001-01-01">2002-02-02</p><i>?</i></div>"#;
    let page = Page::parse(html);
    let item = first(&page, ".item");
    // The attribute of a time element comes first.
    let date = extract_pub_date(&dated("time"), &page, item).unwrap().unwrap();
    assert_eq!(date.to_rfc2822(), "Wed, 20 Apr 2022 06:38:27 +1000");
    // Where it holds no date, the text is read, without what surrounds the date.
    let node = first(&page, "#t");
    let date = parse_date(&DateConfig::from_str(""), &page, node).unwrap();
    assert_eq!(date.to_rfc2822(), "Thu, 20 May 2021 00:00:00 +0000");
    // The attribute of another element does not count.
    let date = extract_pub_date(&dated("p"), &page, item).unwrap().unwrap();
    assert_eq!(date.to_rfc2822(), "Sat, 02 Feb 2002 00:00:00 +0000");
    // A date that is not found or not understood is no error.
    assert_eq!(extract_pub_date(&dated("em"), &page, item).unwrap(), None);
    assert_eq!(extract_pub_date(&dated("i"), &page, item).unwrap(), None);
    assert_eq!(extract_pub_date(&test_config(), &page, item).unwrap(), None);
    let err = extract_pub_date(&dated("["), &page, item).unwrap_err();
    assert_eq!(err.message(), "invalid selector for date: [");
}

#[test]
fn dates_that_a_feed_cannot_hold() {
    let page = Page::parse("<div class=item><h2>t</h2><a href=/x>x</a><p>1850-01-01</p></div>");
    let item = first(&page, ".item");
    let old = dated("p");
    assert!(!has_usable_date(&old, &page, item));
    assert!(!can_process_item(&old, &page, item, "a", &base()));
    // It does not come to the date where the item fails before.
    assert!(can_process_item(&old, &page, item, "b", &base()));
    let none = dated("em");
    assert!(can_process_item(&none, &page, item, "a", &base()));
    assert!(process_item(PathStyle::Unix, &none, &page, item, "a", &base()).is_ok());
}

#[test]
fn items_from_parts() {
    let date = PubDate { local_seconds: 0, nanosecond: 0, offset_seconds: 0 };
    let item = build_item(
        "T".to_string(),
        "/x".to_string(),
        Ok(("http://a/x".to_string(), None)),
        Some(date),
        Some("d".to_string()),
        None,
    );
    assert_eq!(item.title.as_deref(), Some("T"));
    assert_eq!(item.link.as_deref(), Some("http://a/x"));
    assert_eq!(item.guid.unwrap().value, "/x");
    assert_eq!(item.pub_date.as_deref(), Some("Thu, 01 Jan 1970 00:00:00 +0000"));
    assert_eq!(item.description.as_deref(), Some("d"));
}

#[test]
fn summaries_that_cannot_be_rewritten() {
    let html = "<div class=item><select><template><style>x</style></template></select></div>";
    let page = Page::parse(html);
    let item = first(&page, ".item");
    let config = FeedConfig { summary: vec!["select".to_string()], ..test_config() };
    let err = extract_description(&config, &page, item, &base()).unwrap_err();
    assert_eq!(err.message(), "unable to rewrite hrefs in HTML fragment");
    assert!(err.cause().is_some());
}

#[test]
fn elements_come_once_and_in_order() {
    let page = Page::parse("<div><p>a</p><div><p>b</p></div></div><p>c</p>");
    let found = page.select("div, p, div p").unwrap();
    assert_eq!(found.len(), 5);
    assert!(found.windows(2).all(|pair| pair[0] < pair[1]));
    for element in &found {
        assert_eq!(
            select_first_including_self(&page, *element, "div, p, div p"),
            Ok(Some(*element))
        );
    }
    let texts: Vec<String> = found.iter().map(|element| link_text(&page, *element)).collect();
    assert_eq!(texts, ["ab", "a", "b", "b", "c"]);
}
