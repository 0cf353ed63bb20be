//! Links: resolving them against a page's URL, rewriting those inside a piece of
//! HTML, and the media types that they suggest.
use crate::paths::{extension, extension_of, lemma_extension, PathStyle};
use crate::text::{opt_view, text_view, views};
use vstd::prelude::*;

verus! {

/// What `url::Url::parse` makes of a text: the URL as it writes it and its scheme,
/// or its error message.
pub uninterp spec fn parsed_url(text: Seq<char>) -> Result<(Seq<char>, Seq<char>), Seq<char>>;

/// What `url::ParseOptions::parse` makes of a reference on a page: the URL as it
/// writes it and the last segment of its path, or its error message.
pub uninterp spec fn resolved_url(page: Seq<char>, reference: Seq<char>) -> Result<
    (Seq<char>, Option<Seq<char>>),
    Seq<char>,
>;

/// The values of an attribute of those elements that match a selector, as
/// `lol_html::rewrite_str` comes across them in a piece of HTML, or its error message.
pub uninterp spec fn attributes_in(
    html: Seq<char>,
    selector: Seq<char>,
    attribute: Seq<char>,
) -> Result<Seq<Seq<char>>, Seq<char>>;

/// A piece of HTML in which `lol_html::rewrite_str` has set an attribute of those
/// elements that match a selector to other values, one for each; or its error message.
pub uninterp spec fn html_with_attributes(
    html: Seq<char>,
    selector: Seq<char>,
    attribute: Seq<char>,
    values: Seq<Seq<char>>,
) -> Result<Seq<char>, Seq<char>>;

/// The media type that `mime_guess::from_ext` guesses first for the extension of a file
/// name, or else the one for any bytes.
pub uninterp spec fn guessed_mime(extension: Seq<char>) -> Seq<char>;

/// The attribute that holds a link.
pub const LINK_ATTRIBUTE: &'static str = "href";

/// What finds the elements that hold a link.
pub const LINK_HOLDERS: &'static str = "*[href]";

/// The media type of a file of which nothing is known.
pub const ANY_BYTES: &'static str = "application/octet-stream";

/// A URL, as resolved on a page.
pub type Resolved = Result<(String, Option<String>), String>;

/// The view of a resolved URL.
pub open spec fn resolved_view(r: Resolved) -> Result<(Seq<char>, Option<Seq<char>>), Seq<char>> {
    match r {
        Ok(url) => Ok((url.0@, opt_view(url.1))),
        Err(message) => Err(message@),
    }
}

/// Calls `url::Url::parse`. Trusted: the outcome depends on the text alone.
#[verifier::external_body]
fn parse_url(text: &str) -> (r: Result<(String, String), String>)
    ensures
        (match r {
            Ok(url) => Ok((url.0@, url.1@)),
            Err(message) => Err(message@),
        }) == parsed_url(text@),
{
    let url = url::Url::parse(text).map_err(|err| err.to_string())?;
    Ok((url.to_string(), url.scheme().to_string()))
}

/// Calls `url::ParseOptions::parse` with the page's URL as base. Trusted: the
/// outcome depends on the page's URL and the reference alone.
#[verifier::external_body]
fn parse_reference(page: &str, reference: &str) -> (r: Resolved)
    ensures
        resolved_view(r) == resolved_url(page@, reference@),
{
    let base = url::Url::parse(page).map_err(|err| err.to_string())?;
    let options = url::Url::options().base_url(Some(&base));
    let url = options.parse(reference).map_err(|err| err.to_string())?;
    let segment = url.path_segments().and_then(|mut segments| segments.next_back());
    Ok((url.to_string(), segment.map(str::to_string)))
}

/// Calls `lol_html::rewrite_str` with a handler that reads an attribute of each element
/// that matches a selector. Trusted: the values depend on the HTML, the selector and the
/// attribute alone. Its assertions may fail on other selectors, such as one with a
/// pseudo-element inside `:not(..)`, so only that for links is admitted.
#[verifier::external_body]
fn read_attributes(html: &str, selector: &str, attribute: &str) -> (r: Result<Vec<String>, String>)
    requires
        selector@ == LINK_HOLDERS@,
        attribute@ == LINK_ATTRIBUTE@,
    ensures
        (match r {
            Ok(values) => Ok(views(values@)),
            Err(message) => Err(message@),
        }) == attributes_in(html@, selector@, attribute@),
{
    let mut values: Vec<String> = Vec::new();
    let selector = selector.parse::<lol_html::Selector>().map_err(|err| err.to_string())?;
    let mut settings = lol_html::RewriteStrSettings::default();
    let handlers = lol_html::ElementContentHandlers::default();
    let handlers = handlers.element(|el: &mut lol_html::html_content::Element<'_, '_>| {
        values.push(el.get_attribute(attribute).unwrap_or_default());
        Ok(())
    });
    settings.element_content_handlers.push((std::borrow::Cow::Owned(selector), handlers));
    let outcome = lol_html::rewrite_str(html, settings).map_err(|err| err.to_string());
    outcome.map(|_| values)
}

/// Calls `lol_html::rewrite_str` with a handler that sets an attribute of each element
/// that matches a selector. Trusted: the outcome depends on the HTML, the selector, the
/// attribute and the values alone.
#[verifier::external_body]
fn write_attributes(html: &str, selector: &str, attribute: &str, values: &Vec<String>) -> (r: Result<
    String,
    String,
>)
    requires
        selector@ == LINK_HOLDERS@,
        attribute@ == LINK_ATTRIBUTE@,
        attributes_in(html@, selector@, attribute@) matches Ok(found) && found.len() == values@.len(),
    ensures
        text_view(r) == html_with_attributes(html@, selector@, attribute@, views(values@)),
{
    let mut values = values.iter();
    let selector = selector.parse::<lol_html::Selector>().map_err(|err| err.to_string())?;
    let mut settings = lol_html::RewriteStrSettings::default();
    let handlers = lol_html::ElementContentHandlers::default();
    let handlers = handlers.element(|el: &mut lol_html::html_content::Element<'_, '_>| {
        Ok(el.set_attribute(attribute, values.next().unwrap())?)
    });
    settings.element_content_handlers.push((std::borrow::Cow::Owned(selector), handlers));
    lol_html::rewrite_str(html, settings).map_err(|err| err.to_string())
}

/// Calls `mime_guess::from_ext` and `first_or_octet_stream`. Trusted: the media type
/// depends on the extension alone.
#[verifier::external_body]
fn guess_mime(extension: &str) -> (r: String)
    ensures
        r@ == guessed_mime(extension@),
{
    mime_guess::from_ext(extension).first_or_octet_stream().to_string()
}

/// The URL of a page and its scheme.
#[derive(Debug)]
pub struct PageUrl {
    /// The URL as the `url` crate writes it.
    pub text: String,
    /// Its scheme, such as `https`.
    pub scheme: String,
}

/// Reads a URL. `Err` holds the message where the text is none.
pub fn read_url(text: &str) -> (r: Result<PageUrl, String>)
    ensures
        (match r {
            Ok(url) => Ok((url.text@, url.scheme@)),
            Err(message) => Err(message@),
        }) == parsed_url(text@),
{
    match parse_url(text) {
        Ok(url) => Ok(PageUrl { text: url.0, scheme: url.1 }),
        Err(message) => Err(message),
    }
}

/// Resolves a reference that stands on a page.
pub fn resolve(page: &str, reference: &str) -> (r: Resolved)
    ensures
        resolved_view(r) == resolved_url(page@, reference@),
{
    parse_reference(page, reference)
}

/// The value that a link gets: its URL, or what it was where it has none.
pub open spec fn href_chosen(
    resolved: Result<(Seq<char>, Option<Seq<char>>), Seq<char>>,
    href: Seq<char>,
) -> Seq<char> {
    match resolved {
        Ok(url) => url.0,
        Err(_) => href,
    }
}

/// The value that a link on a page gets.
pub open spec fn href_rewritten(page: Seq<char>, href: Seq<char>) -> Seq<char> {
    href_chosen(resolved_url(page, href), href)
}

/// The values that the links on a page get.
pub open spec fn hrefs_rewritten(page: Seq<char>, hrefs: Seq<Seq<char>>) -> Seq<Seq<char>> {
    hrefs.map_values(|href: Seq<char>| href_rewritten(page, href))
}

/// A piece of HTML from a page with its links rewritten.
pub open spec fn html_rewritten(page: Seq<char>, html: Seq<char>) -> Result<Seq<char>, Seq<char>> {
    match attributes_in(html, LINK_HOLDERS@, LINK_ATTRIBUTE@) {
        Ok(hrefs) => html_with_attributes(
            html,
            LINK_HOLDERS@,
            LINK_ATTRIBUTE@,
            hrefs_rewritten(page, hrefs),
        ),
        Err(message) => Err(message),
    }
}

/// The media type for the last segment of a URL's path, which goes by its extension.
/// What that is depends on the platform.
pub open spec fn mime_of(style: PathStyle, segment: Option<Seq<char>>) -> Seq<char> {
    match segment {
        Some(file_name) => match extension_of(style, file_name) {
            Some(extension) => guessed_mime(extension),
            None => ANY_BYTES@,
        },
        None => ANY_BYTES@,
    }
}

/// Chooses the value for a link, given what came of resolving it.
pub fn choose_href(resolved: Resolved, href: &str) -> (r: String)
    ensures
        r@ == href_chosen(resolved_view(resolved), href@),
{
    match resolved {
        Ok(url) => url.0,
        Err(_) => href.to_owned(),
    }
}

/// Rewrites a link on a page to a full URL. One that is no URL stays as it is.
pub fn rewrite_href_value(href: &str, page: &str) -> (r: String)
    ensures
        r@ == href_rewritten(page@, href@),
{
    choose_href(parse_reference(page, href), href)
}

/// Rewrites all links in a piece of HTML from a page to full URLs. `Err` holds the
/// message where the HTML cannot be rewritten.
pub fn rewrite_hrefs_in_html(html: &str, page: &str) -> (r: Result<String, String>)
    ensures
        text_view(r) == html_rewritten(page@, html@),
{
    let hrefs = match read_attributes(html, LINK_HOLDERS, LINK_ATTRIBUTE) {
        Ok(hrefs) => hrefs,
        Err(message) => {
            return Err(message);
        },
    };
    let mut rewritten: Vec<String> = Vec::new();
    for i in 0..hrefs.len()
        invariant
            rewritten@.len() == i,
            forall|k: int|
                0 <= k < i ==> (#[trigger] rewritten@[k])@ == href_rewritten(page@, hrefs@[k]@),
    {
        rewritten.push(rewrite_href_value(hrefs[i].as_str(), page));
    }
    assert(views(rewritten@) =~= hrefs_rewritten(page@, views(hrefs@)));
    write_attributes(html, LINK_HOLDERS, LINK_ATTRIBUTE, &rewritten)
}

/// The media type that the last segment of a URL's path suggests.
pub fn media_type(style: PathStyle, segment: Option<String>) -> (r: String)
    ensures
        r@ == mime_of(style, opt_view(segment)),
{
    match segment {
        Some(file_name) => match extension(style, file_name.as_str()) {
            Some(extension) => guess_mime(extension.as_str()),
            None => ANY_BYTES.to_owned(),
        },
        None => ANY_BYTES.to_owned(),
    }
}

/// A link that is no URL stays as it is, in a page's own links and in the HTML
/// that is taken from it.
pub proof fn law_invalid_hrefs_unchanged(page: Seq<char>, hrefs: Seq<Seq<char>>, k: int)
    requires
        0 <= k < hrefs.len(),
        resolved_url(page, hrefs[k]) is Err,
    ensures
        hrefs_rewritten(page, hrefs)[k] == hrefs[k],
{
}

/// Every link that can be resolved on its page is rewritten to the resolved URL,
/// and no link is added or lost.
pub proof fn law_hrefs_resolved(page: Seq<char>, hrefs: Seq<Seq<char>>)
    ensures
        hrefs_rewritten(page, hrefs).len() == hrefs.len(),
        forall|k: int|
            0 <= k < hrefs.len() ==> (resolved_url(page, hrefs[k]) matches Ok(url)
                ==> #[trigger] hrefs_rewritten(page, hrefs)[k] == url.0),
{
}

/// The HTML of a page has every link in it set to what that leads to on the page, or
/// left as it is where it leads nowhere, and is otherwise what `lol_html` makes of it:
/// whatever values stand in this relation to the links are those that are written.
pub proof fn law_every_link_in_html_rewritten(
    page: Seq<char>,
    html: Seq<char>,
    values: Seq<Seq<char>>,
)
    ensures
        attributes_in(html, "*[href]"@, "href"@) matches Ok(hrefs) ==> (values.len() == hrefs.len()
            && (forall|k: int|
            0 <= k < hrefs.len() ==> #[trigger] values[k] == (match resolved_url(page, hrefs[k]) {
                Ok(url) => url.0,
                Err(_) => hrefs[k],
            })) ==> html_rewritten(page, html) == html_with_attributes(
            html,
            "*[href]"@,
            "href"@,
            values,
        )),
        attributes_in(html, "*[href]"@, "href"@) matches Err(message) ==> html_rewritten(page, html)
            == Err::<Seq<char>, Seq<char>>(message),
{
    match attributes_in(html, LINK_HOLDERS@, LINK_ATTRIBUTE@) {
        Ok(hrefs) => {
            if values.len() == hrefs.len() && (forall|k: int|
                0 <= k < hrefs.len() ==> #[trigger] values[k] == href_rewritten(page, hrefs[k])) {
                assert(values =~= hrefs_rewritten(page, hrefs));
            }
        },
        Err(_) => {},
    }
}

/// A link is rewritten to what it leads to on the page, and stays as it is where it leads
/// nowhere.
pub proof fn law_link_leads_to_its_url(page: Seq<char>, href: Seq<char>)
    ensures
        resolved_url(page, href) matches Ok(url) ==> href_rewritten(page, href) == url.0,
        resolved_url(page, href) is Err ==> href_rewritten(page, href) == href,
{
}

/// A file name that ends with a dot and an extension has the media type for that
/// extension. Without an extension, and without a file name, it is that of any bytes.
pub proof fn law_extension_decides_media_type(
    style: PathStyle,
    base: Seq<char>,
    extension: Seq<char>,
)
    requires
        base.len() > 0,
        forall|k: int|
            0 <= k < base.len() ==> (#[trigger] base[k]) != '/' && base[k] != '\\' && base[k] != ':'
                && base[k] != '.',
        forall|k: int|
            0 <= k < extension.len() ==> (#[trigger] extension[k]) != '/' && extension[k] != '\\'
                && extension[k] != '.',
    ensures
        mime_of(style, Some(base + seq!['.'] + extension)) == guessed_mime(extension),
        mime_of(style, Some(base)) == "application/octet-stream"@,
        mime_of(style, None) == "application/octet-stream"@,
{
    lemma_extension(style, base, Some(extension));
    lemma_extension(style, base, None);
}

/// The view of a resolved URL has the URL and the last segment of its path.
pub proof fn law_view_of_resolved(resolved: Resolved)
    ensures
        resolved matches Ok(url) ==> resolved_view(resolved) == Ok::<
            (Seq<char>, Option<Seq<char>>),
            Seq<char>,
        >((url.0@, opt_view(url.1))),
        resolved matches Err(message) ==> resolved_view(resolved) == Err::<
            (Seq<char>, Option<Seq<char>>),
            Seq<char>,
        >(message@),
{
}

} // verus!
