use rsspls::paths::PathStyle;
use rsspls::links::{
    choose_href, media_type, read_url, resolve, rewrite_href_value, rewrite_hrefs_in_html,
};

const BASE: &str = "http://example.com/";

#[test]
fn test_rewrite_hrefs_in_html() {
    let html = r#"<html><body><a href="/cool">cool thing</a> <div href="dont-do-this">ok</div><a href="http://example.com">example</a></body></html>"#;
    let expected = r#"<html><body><a href="http://example.com/cool">cool thing</a> <div href="http://example.com/dont-do-this">ok</div><a href="http://example.com/">example</a></body></html>"#;
    let base_url = read_url("http://example.com").unwrap();
    let rewritten = rewrite_hrefs_in_html(html, &base_url.text).unwrap();
    assert_eq!(rewritten, expected);
}

#[test]
fn test_rewrite_hrefs_in_html_leaves_invalid_hrefs_unchanged() {
    let html = r#"<p><a href="http://[::1">broken</a></p>"#;
    let base_url = read_url("http://example.com").unwrap();
    let rewritten = rewrite_hrefs_in_html(html, &base_url.text).unwrap();
    assert_eq!(rewritten, html);
}

#[test]
fn urls_are_normalised() {
    let url = read_url("HTTP://Example.com").unwrap();
    assert_eq!(url.text, "http://example.com/");
    assert_eq!(url.scheme, "http");
    assert_eq!(
        read_url("no url").err(),
        Some("relative URL without a base".to_string())
    );
}

#[test]
fn references_are_resolved() {
    assert_eq!(
        resolve(BASE, "a/b.mp3?x=1"),
        Ok((
            "http://example.com/a/b.mp3?x=1".to_string(),
            Some("b.mp3".to_string())
        ))
    );
    assert_eq!(resolve(BASE, "mailto:a@b"), Ok(("mailto:a@b".to_string(), None)));
    assert!(resolve(BASE, "http://[::1").is_err());
}

#[test]
fn hrefs_are_chosen() {
    assert_eq!(rewrite_href_value("/x", BASE), "http://example.com/x");
    assert_eq!(rewrite_href_value("http://[::1", BASE), "http://[::1");
    assert_eq!(
        choose_href(Ok(("http://a/".to_string(), None)), "/"),
        "http://a/"
    );
    assert_eq!(choose_href(Err("no".to_string()), "/"), "/");
}

#[test]
fn media_types() {
    assert_eq!(media_type(PathStyle::Unix, Some("b.mp3".to_string())), "audio/mpeg");
    assert_eq!(media_type(PathStyle::Unix, Some("b".to_string())), "application/octet-stream");
    assert_eq!(media_type(PathStyle::Unix, Some(".mp3".to_string())), "application/octet-stream");
    assert_eq!(media_type(PathStyle::Unix, None), "application/octet-stream");
    // On Windows `x:` is a drive.
    assert_eq!(media_type(PathStyle::Unix, Some("x:.png".to_string())), "image/png");
    assert_eq!(
        media_type(PathStyle::Windows, Some("x:.png".to_string())),
        "application/octet-stream"
    );
}

#[test]
fn html_that_cannot_be_rewritten() {
    let html = r#"<select><xmp><script>"use strict";</script></select>"#;
    assert!(rewrite_hrefs_in_html(html, BASE).is_err());
}
