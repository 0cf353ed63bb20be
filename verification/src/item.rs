//! The items of a feed, and how one is made from an element of an HTML page.
use crate::config::{DateConfig, FeedConfig};
use crate::dates::{anydate_time, rfc2822_text, PubDate};
use crate::errors::{FeedError, FeedErrorOf, Part};
use crate::html::{
    all_including_self, css_valid, element_attr, element_html, element_matches, element_name,
    element_text, first_including_self, link_text, matches_below, select_first_including_self,
    select_including_self, Page,
};
use crate::links::{
    href_rewritten, html_rewritten, media_type, mime_of, resolve, resolved_url, resolved_view,
    rewrite_href_value, rewrite_hrefs_in_html, Resolved, LINK_ATTRIBUTE,
};
use crate::paths::PathStyle;
use crate::text::{opt_view, same, trim_date, trimmed, views};
use vstd::prelude::*;

verus! {

/// What finds the link of an item where the configuration does not say.
pub const DEFAULT_LINK_SELECTOR: &'static str = "a[href], area[href]";

/// The identifier of an item. `S` is the type of text.
#[derive(Debug)]
pub struct GuidOf<S> {
    /// The identifier.
    pub value: S,
    /// Whether it is a URL that leads to the item.
    pub permalink: bool,
}

/// A media file that belongs to an item. `S` is the type of text.
#[derive(Debug)]
pub struct EnclosureOf<S> {
    /// Where it is.
    pub url: S,
    /// How many bytes it has, or `0` where that is not known.
    pub length: S,
    /// Its media type.
    pub mime_type: S,
}

/// An item of a feed. `S` is the type of text: `String` in a value, `Seq<char>` in
/// its view.
#[derive(Debug)]
pub struct ItemOf<S> {
    /// Its title.
    pub title: Option<S>,
    /// Where it is.
    pub link: Option<S>,
    /// What identifies it.
    pub guid: Option<GuidOf<S>>,
    /// When it was published.
    pub pub_date: Option<S>,
    /// What it is about, as HTML.
    pub description: Option<S>,
    /// Its media file.
    pub enclosure: Option<EnclosureOf<S>>,
}

/// An item of a feed.
pub type Item = ItemOf<String>;

/// The identifier of an item.
pub type Guid = GuidOf<String>;

/// A media file that belongs to an item.
pub type Enclosure = EnclosureOf<String>;

impl View for GuidOf<String> {
    type V = GuidOf<Seq<char>>;

    open spec fn view(&self) -> GuidOf<Seq<char>> {
        GuidOf { value: self.value@, permalink: self.permalink }
    }
}

impl View for EnclosureOf<String> {
    type V = EnclosureOf<Seq<char>>;

    open spec fn view(&self) -> EnclosureOf<Seq<char>> {
        EnclosureOf { url: self.url@, length: self.length@, mime_type: self.mime_type@ }
    }
}

impl View for ItemOf<String> {
    type V = ItemOf<Seq<char>>;

    open spec fn view(&self) -> ItemOf<Seq<char>> {
        ItemOf {
            title: opt_view(self.title),
            link: opt_view(self.link),
            guid: match self.guid {
                Some(guid) => Some(guid@),
                None => None,
            },
            pub_date: opt_view(self.pub_date),
            description: opt_view(self.description),
            enclosure: enclosure_view(self.enclosure),
        }
    }
}

/// The view of an optional media file.
pub open spec fn enclosure_view(enclosure: Option<Enclosure>) -> Option<EnclosureOf<Seq<char>>> {
    match enclosure {
        Some(enclosure) => Some(enclosure@),
        None => None,
    }
}

/// The view of an item, or of why there is none.
pub open spec fn item_view(item: Result<Item, FeedError>) -> Result<
    ItemOf<Seq<char>>,
    FeedErrorOf<Seq<char>>,
> {
    match item {
        Ok(item) => Ok(item@),
        Err(err) => Err(err@),
    }
}

/// The error for an item in which nothing matched a selector.
pub open spec fn missing(part: Part, selector: Seq<char>) -> FeedErrorOf<Seq<char>> {
    match part {
        Part::Link => FeedErrorOf::NoLink,
        Part::Media => FeedErrorOf::NoMedia,
        _ => FeedErrorOf::NoHeading { selector },
    }
}

/// What was found for a part of an item: `found` is `Err` where the selector is not
/// valid.
pub open spec fn needed(part: Part, selector: Seq<char>, found: Result<Option<usize>, ()>) -> Result<
    usize,
    FeedErrorOf<Seq<char>>,
> {
    match found {
        Err(()) => Err(FeedErrorOf::InvalidSelector { part, selector }),
        Ok(None) => Err(missing(part, selector)),
        Ok(Some(element)) => Ok(element),
    }
}

/// What a selector finds in an item, or `Err` where it is not valid.
pub open spec fn looked_up(source: Seq<char>, item: usize, selector: Seq<char>) -> Result<
    Option<usize>,
    (),
> {
    if css_valid(selector) {
        Ok(first_including_self(source, item, selector))
    } else {
        Err(())
    }
}

/// The element for a part of an item.
pub open spec fn part_of(source: Seq<char>, item: usize, part: Part, selector: Seq<char>) -> Result<
    usize,
    FeedErrorOf<Seq<char>>,
> {
    needed(part, selector, looked_up(source, item, selector))
}

/// The `href` attribute of the link of an item.
pub open spec fn href_of(source: Seq<char>, item: usize, selector: Seq<char>) -> Result<
    Seq<char>,
    FeedErrorOf<Seq<char>>,
> {
    match part_of(source, item, Part::Link, selector) {
        Err(err) => Err(err),
        Ok(link) => match element_attr(source, link, LINK_ATTRIBUTE@) {
            Some(href) => Ok(href),
            None => Err(FeedErrorOf::NoHref),
        },
    }
}

/// The elements that make up the summary of an item: those that match the first
/// selector, then those that match the second, and so on. A selector that is not
/// valid is passed over.
pub open spec fn summary_nodes(source: Seq<char>, item: usize, selectors: Seq<Seq<char>>) -> Seq<
    usize,
>
    decreases selectors.len(),
{
    if selectors.len() == 0 {
        Seq::empty()
    } else {
        summary_nodes(source, item, selectors.drop_last()) + (if css_valid(selectors.last()) {
            all_including_self(source, item, selectors.last())
        } else {
            Seq::empty()
        })
    }
}

/// The HTML of some elements of a page, one after the other, with links rewritten.
pub open spec fn joined_html(source: Seq<char>, nodes: Seq<usize>, page_url: Seq<char>) -> Result<
    Seq<char>,
    FeedErrorOf<Seq<char>>,
>
    decreases nodes.len(),
{
    if nodes.len() == 0 {
        Ok(Seq::empty())
    } else {
        match joined_html(source, nodes.drop_last(), page_url) {
            Err(err) => Err(err),
            Ok(front) => match html_rewritten(page_url, element_html(source, nodes.last())) {
                Ok(html) => Ok(front + html),
                Err(cause) => Err(FeedErrorOf::Rewrite { cause }),
            },
        }
    }
}

/// A description, which an empty text is not.
pub open spec fn non_empty(text: Seq<char>) -> Option<Seq<char>> {
    if text.len() == 0 {
        None
    } else {
        Some(text)
    }
}

/// The description of an item.
pub open spec fn description_of(
    source: Seq<char>,
    item: usize,
    selectors: Seq<Seq<char>>,
    page_url: Seq<char>,
) -> Result<Option<Seq<char>>, FeedErrorOf<Seq<char>>> {
    match joined_html(source, summary_nodes(source, item, selectors), page_url) {
        Ok(text) => Ok(non_empty(text)),
        Err(err) => Err(err),
    }
}

/// The view of a description, or of why there is none.
pub open spec fn description_view(description: Result<Option<String>, FeedError>) -> Result<
    Option<Seq<char>>,
    FeedErrorOf<Seq<char>>,
> {
    match description {
        Ok(text) => Ok(opt_view(text)),
        Err(err) => Err(err@),
    }
}

/// The `datetime` attribute of an element, if it is a `time` element.
pub open spec fn datetime_of(source: Seq<char>, node: usize) -> Option<Seq<char>> {
    if element_name(source, node) == "time"@ {
        element_attr(source, node, "datetime"@)
    } else {
        None
    }
}

/// The date of an element, given what its `datetime` attribute, if it counts, and
/// its text are read as.
pub open spec fn date_chosen(
    datetime: Option<Result<PubDate, Seq<char>>>,
    text: Result<PubDate, Seq<char>>,
) -> Option<PubDate> {
    match (datetime, text) {
        (Some(Ok(d)), _) => Some(d),
        (_, Ok(d)) => Some(d),
        _ => None,
    }
}

/// The date that an element shows: that in its `datetime` attribute, or else that
/// in its text.
pub open spec fn node_date(date: DateConfig, source: Seq<char>, node: usize) -> Option<PubDate> {
    date_chosen(
        match datetime_of(source, node) {
            Some(datetime) => Some(date.parsed(trimmed(datetime))),
            None => None,
        },
        date.parsed(trimmed(element_text(source, node))),
    )
}

/// Whether the date that an element shows can be read.
pub open spec fn node_date_readable(date: DateConfig, source: Seq<char>, node: usize) -> bool {
    match datetime_of(source, node) {
        Some(datetime) => {
            &&& date.can_parse(trimmed(datetime))
            &&& date.parsed(trimmed(datetime)) is Err ==> date.can_parse(
                trimmed(element_text(source, node)),
            )
        },
        None => date.can_parse(trimmed(element_text(source, node))),
    }
}

/// The date of an item.
pub open spec fn item_date(date: Option<DateConfig>, source: Seq<char>, item: usize) -> Result<
    Option<PubDate>,
    FeedErrorOf<Seq<char>>,
> {
    match date {
        None => Ok(None),
        Some(date) => match looked_up(source, item, date.selector@) {
            Err(()) => Err(
                FeedErrorOf::InvalidSelector { part: Part::Date, selector: date.selector@ },
            ),
            Ok(None) => Ok(None),
            Ok(Some(node)) => Ok(node_date(date, source, node)),
        },
    }
}

/// Whether the date of an item can be read.
pub open spec fn item_date_readable(
    date: Option<DateConfig>,
    source: Seq<char>,
    item: usize,
) -> bool {
    date matches Some(date) ==> (looked_up(source, item, date.selector@) matches Ok(Some(node))
        ==> node_date_readable(date, source, node))
}

/// Whether the date of an item can be read and, if there is one, written.
pub open spec fn item_date_usable(date: Option<DateConfig>, source: Seq<char>, item: usize) -> bool {
    &&& item_date_readable(date, source, item)
    &&& item_date(date, source, item) matches Ok(Some(d)) ==> d.formattable()
}

/// The view of a date, or of why there is none.
pub open spec fn date_view(date: Result<Option<PubDate>, FeedError>) -> Result<
    Option<PubDate>,
    FeedErrorOf<Seq<char>>,
> {
    match date {
        Ok(date) => Ok(date),
        Err(err) => Err(err@),
    }
}

/// The URL of the media file that an element shows.
pub open spec fn media_url(source: Seq<char>, media: usize) -> Option<Seq<char>> {
    match element_attr(source, media, "src"@) {
        Some(src) => Some(src),
        None => element_attr(source, media, LINK_ATTRIBUTE@),
    }
}

/// The media file for a URL, given what came of resolving it.
pub open spec fn enclosure_for(
    style: PathStyle,
    resolved: Result<(Seq<char>, Option<Seq<char>>), Seq<char>>,
) -> Result<EnclosureOf<Seq<char>>, FeedErrorOf<Seq<char>>> {
    match resolved {
        Ok(url) => Ok(EnclosureOf { url: url.0, length: "0"@, mime_type: mime_of(style, url.1) }),
        Err(cause) => Err(FeedErrorOf::InvalidMediaUrl { cause }),
    }
}

/// The media file of an item.
pub open spec fn enclosure_of(
    style: PathStyle,
    media: Option<Seq<char>>,
    source: Seq<char>,
    item: usize,
    page_url: Seq<char>,
) -> Result<Option<EnclosureOf<Seq<char>>>, FeedErrorOf<Seq<char>>> {
    match media {
        None => Ok(None),
        Some(selector) => match part_of(source, item, Part::Media, selector) {
            Err(err) => Err(err),
            Ok(element) => match media_url(source, element) {
                None => Err(FeedErrorOf::NoMediaUrl),
                Some(url) => match enclosure_for(style, resolved_url(page_url, url)) {
                    Ok(enclosure) => Ok(Some(enclosure)),
                    Err(err) => Err(err),
                },
            },
        },
    }
}

/// The view of an optional media file, or of why there is none.
pub open spec fn enclosure_result_view(enclosure: Result<Option<Enclosure>, FeedError>) -> Result<
    Option<EnclosureOf<Seq<char>>>,
    FeedErrorOf<Seq<char>>,
> {
    match enclosure {
        Ok(enclosure) => Ok(enclosure_view(enclosure)),
        Err(err) => Err(err@),
    }
}

/// The first field of a resolved URL: the URL itself.
pub open spec fn url_of(
    resolved: Result<(Seq<char>, Option<Seq<char>>), Seq<char>>,
) -> Option<Seq<char>> {
    match resolved {
        Ok(url) => Some(url.0),
        Err(_) => None,
    }
}

/// A date as it stands in a feed.
pub open spec fn written_date(date: Option<PubDate>) -> Option<Seq<char>> {
    match date {
        Some(d) => Some(rfc2822_text(d.local_seconds, d.offset_seconds)),
        None => None,
    }
}

/// An item with a title and a link. `href` is the link as rewritten, and `link` its
/// URL.
pub open spec fn built(
    title: Seq<char>,
    href: Seq<char>,
    link: Option<Seq<char>>,
    date: Option<PubDate>,
    description: Option<Seq<char>>,
    enclosure: Option<EnclosureOf<Seq<char>>>,
) -> ItemOf<Seq<char>> {
    ItemOf {
        title: Some(title),
        link,
        guid: Some(GuidOf { value: href, permalink: false }),
        pub_date: written_date(date),
        description,
        enclosure,
    }
}

/// What an item starts from: its title, its link as rewritten and its description.
pub open spec fn start_of(
    config: FeedConfig,
    source: Seq<char>,
    item: usize,
    link_selector: Seq<char>,
    page_url: Seq<char>,
) -> Result<(Seq<char>, Seq<char>, Option<Seq<char>>), FeedErrorOf<Seq<char>>> {
    match part_of(source, item, Part::Heading, config.heading@) {
        Err(err) => Err(err),
        Ok(heading) => match href_of(source, item, link_selector) {
            Err(err) => Err(err),
            Ok(href) => match description_of(source, item, views(config.summary@), page_url) {
                Err(err) => Err(err),
                Ok(description) => Ok(
                    (element_text(source, heading), href_rewritten(page_url, href), description),
                ),
            },
        },
    }
}

/// The item for an element of a page.
pub open spec fn item_of(
    style: PathStyle,
    config: FeedConfig,
    source: Seq<char>,
    item: usize,
    link_selector: Seq<char>,
    page_url: Seq<char>,
) -> Result<ItemOf<Seq<char>>, FeedErrorOf<Seq<char>>> {
    match start_of(config, source, item, link_selector, page_url) {
        Err(err) => Err(err),
        Ok(start) => match item_date(config.date, source, item) {
            Err(err) => Err(err),
            Ok(date) => match enclosure_of(style, opt_view(config.media), source, item, page_url) {
                Err(err) => Err(err),
                Ok(enclosure) => Ok(
                    built(
                        start.0,
                        start.1,
                        url_of(resolved_url(page_url, start.1)),
                        date,
                        start.2,
                        enclosure,
                    ),
                ),
            },
        },
    }
}

/// Whether an item can be made for an element: its date, if it comes to that, can
/// be read and written.
pub open spec fn item_possible(
    config: FeedConfig,
    source: Seq<char>,
    item: usize,
    link_selector: Seq<char>,
    page_url: Seq<char>,
) -> bool {
    start_of(config, source, item, link_selector, page_url) is Ok ==> item_date_usable(
        config.date,
        source,
        item,
    )
}

/// Takes the element for a part of an item from what was found for it.
pub fn require(part: Part, selector: &str, found: Result<Option<usize>, ()>) -> (r: Result<
    usize,
    FeedError,
>)
    ensures
        (match r {
            Ok(element) => Ok(element),
            Err(err) => Err(err@),
        }) == needed(part, selector@, found),
{
    match found {
        Err(()) => Err(FeedErrorOf::InvalidSelector { part, selector: selector.to_owned() }),
        Ok(None) => match part {
            Part::Link => Err(FeedErrorOf::NoLink),
            Part::Media => Err(FeedErrorOf::NoMedia),
            _ => Err(FeedErrorOf::NoHeading { selector: selector.to_owned() }),
        },
        Ok(Some(element)) => Ok(element),
    }
}

/// Finds the element for a part of an item.
fn find_part(page: &Page, item: usize, part: Part, selector: &str) -> (r: Result<usize, FeedError>)
    ensures
        (match r {
            Ok(element) => Ok(element),
            Err(err) => Err(err@),
        }) == part_of(page@, item, part, selector@),
{
    require(part, selector, select_first_including_self(page, item, selector))
}

/// Finds the link of an item and reads its `href` attribute.
fn find_href(page: &Page, item: usize, selector: &str) -> (r: Result<String, FeedError>)
    ensures
        (match r {
            Ok(href) => Ok(href@),
            Err(err) => Err(err@),
        }) == href_of(page@, item, selector@),
{
    match find_part(page, item, Part::Link, selector) {
        Err(err) => Err(err),
        Ok(link) => match page.attr(link, LINK_ATTRIBUTE) {
            Some(href) => Ok(href),
            None => Err(FeedErrorOf::NoHref),
        },
    }
}

/// Makes a description of a text, which an empty one is not.
pub fn description_from(text: String) -> (r: Option<String>)
    ensures
        opt_view(r) == non_empty(text@),
{
    if text.as_str().unicode_len() == 0 {
        None
    } else {
        Some(text)
    }
}

/// Finds the elements that make up the summary of an item.
fn find_summary(page: &Page, item: usize, selectors: &Vec<String>) -> (r: Vec<usize>)
    ensures
        r@ == summary_nodes(page@, item, views(selectors@)),
{
    let mut nodes: Vec<usize> = Vec::new();
    for i in 0..selectors.len()
        invariant
            nodes@ == summary_nodes(page@, item, views(selectors@).take(i as int)),
    {
        proof {
            let next = views(selectors@).take(i + 1);
            assert(next.drop_last() =~= views(selectors@).take(i as int));
            assert(next.last() == selectors@[i as int]@);
        }
        match select_including_self(page, item, selectors[i].as_str()) {
            Ok(mut found) => {
                nodes.append(&mut found);
            },
            Err(()) => {},
        }
    }
    assert(views(selectors@).take(selectors.len() as int) =~= views(selectors@));
    nodes
}

/// Makes the description of an item: the HTML of the elements that its summary is
/// made of, with links rewritten to full URLs.
pub fn extract_description(config: &FeedConfig, page: &Page, item: usize, page_url: &str) -> (r:
    Result<Option<String>, FeedError>)
    ensures
        description_view(r) == description_of(page@, item, views(config.summary@), page_url@),
{
    let nodes = find_summary(page, item, &config.summary);
    let mut description = String::new();
    for i in 0..nodes.len()
        invariant
            nodes@ == summary_nodes(page@, item, views(config.summary@)),
            joined_html(page@, nodes@.take(i as int), page_url@) == Ok::<
                Seq<char>,
                FeedErrorOf<Seq<char>>,
            >(description@),
    {
        proof {
            assert(nodes@.take(i + 1).drop_last() =~= nodes@.take(i as int));
        }
        match rewrite_hrefs_in_html(page.html(nodes[i]).as_str(), page_url) {
            Ok(html) => {
                description = description.concat(html.as_str());
            },
            Err(cause) => {
                proof {
                    lemma_joined_fails(page@, nodes@, page_url@, i + 1);
                }
                return Err(FeedErrorOf::Rewrite { cause });
            },
        }
    }
    assert(nodes@.take(nodes.len() as int) =~= nodes@);
    Ok(description_from(description))
}

/// Where some elements cannot be joined, neither can more.
proof fn lemma_joined_fails(source: Seq<char>, nodes: Seq<usize>, page_url: Seq<char>, count: int)
    requires
        0 <= count <= nodes.len(),
        joined_html(source, nodes.take(count), page_url) is Err,
    ensures
        joined_html(source, nodes, page_url) == joined_html(source, nodes.take(count), page_url),
    decreases nodes.len(),
{
    if count == nodes.len() {
        assert(nodes.take(count) =~= nodes);
    } else {
        assert(nodes.drop_last().take(count) =~= nodes.take(count));
        lemma_joined_fails(source, nodes.drop_last(), page_url, count);
    }
}

/// Reads the date that an element shows: that in the `datetime` attribute of a
/// `time` element, or else that in the text.
pub fn parse_date(date: &DateConfig, page: &Page, node: usize) -> (r: Option<PubDate>)
    requires
        node_date_readable(*date, page@, node),
    ensures
        r == node_date(*date, page@, node),
        r matches Some(d) ==> d.valid(),
{
    if same(page.name(node).as_str(), "time") {
        match page.attr(node, "datetime") {
            Some(datetime) => match date.parse(trim_date(datetime.as_str())) {
                Ok(d) => {
                    return Some(d);
                },
                Err(_) => {},
            },
            None => {},
        }
    }
    match date.parse(trim_date(link_text(page, node).as_str())) {
        Ok(d) => Some(d),
        Err(_) => None,
    }
}

/// Finds and reads the date of an item.
pub fn extract_pub_date(config: &FeedConfig, page: &Page, item: usize) -> (r: Result<
    Option<PubDate>,
    FeedError,
>)
    requires
        item_date_readable(config.date, page@, item),
    ensures
        date_view(r) == item_date(config.date, page@, item),
        r matches Ok(Some(d)) ==> d.valid(),
{
    match &config.date {
        None => Ok(None),
        Some(date) => match select_first_including_self(page, item, date.selector()) {
            Err(()) => Err(
                FeedErrorOf::InvalidSelector {
                    part: Part::Date,
                    selector: date.selector().to_owned(),
                },
            ),
            Ok(None) => Ok(None),
            Ok(Some(node)) => Ok(parse_date(date, page, node)),
        },
    }
}

/// Tells whether the date that an element shows can be read.
fn can_parse_date(date: &DateConfig, page: &Page, node: usize) -> (r: bool)
    ensures
        r == node_date_readable(*date, page@, node),
{
    if same(page.name(node).as_str(), "time") {
        match page.attr(node, "datetime") {
            Some(datetime) => match date.try_parse(trim_date(datetime.as_str())) {
                None => {
                    return false;
                },
                Some(Ok(_)) => {
                    return true;
                },
                Some(Err(_)) => {},
            },
            None => {},
        }
    }
    date.try_parse(trim_date(link_text(page, node).as_str())).is_some()
}

/// Tells whether the date of an item can be read and, if there is one, written.
pub fn has_usable_date(config: &FeedConfig, page: &Page, item: usize) -> (r: bool)
    ensures
        r == item_date_usable(config.date, page@, item),
{
    match &config.date {
        None => true,
        Some(date) => match select_first_including_self(page, item, date.selector()) {
            Ok(Some(node)) => {
                if !can_parse_date(date, page, node) {
                    return false;
                }
                match parse_date(date, page, node) {
                    Some(d) => d.is_formattable(),
                    None => true,
                }
            },
            _ => true,
        },
    }
}

/// Makes the media file for a URL, given what came of resolving it.
pub fn build_enclosure(style: PathStyle, resolved: Resolved) -> (r: Result<Enclosure, FeedError>)
    ensures
        (match r {
            Ok(enclosure) => Ok(enclosure@),
            Err(err) => Err(err@),
        }) == enclosure_for(style, resolved_view(resolved)),
{
    match resolved {
        Ok(url) => Ok(
            EnclosureOf { url: url.0, length: "0".to_owned(), mime_type: media_type(style, url.1) },
        ),
        Err(cause) => Err(FeedErrorOf::InvalidMediaUrl { cause }),
    }
}

/// Finds the media file of an item.
pub fn extract_enclosure(
    style: PathStyle,
    config: &FeedConfig,
    page: &Page,
    item: usize,
    page_url: &str,
) -> (r: Result<Option<Enclosure>, FeedError>)
    ensures
        enclosure_result_view(r) == enclosure_of(
            style,
            opt_view(config.media),
            page@,
            item,
            page_url@,
        ),
{
    let selector = match &config.media {
        None => {
            return Ok(None);
        },
        Some(selector) => selector,
    };
    let media = match find_part(page, item, Part::Media, selector.as_str()) {
        Err(err) => {
            return Err(err);
        },
        Ok(media) => media,
    };
    let url = match page.attr(media, "src") {
        Some(src) => src,
        None => match page.attr(media, LINK_ATTRIBUTE) {
            Some(href) => href,
            None => {
                return Err(FeedErrorOf::NoMediaUrl);
            },
        },
    };
    match build_enclosure(style, resolve(page_url, url.as_str())) {
        Ok(enclosure) => Ok(Some(enclosure)),
        Err(err) => Err(err),
    }
}

/// Makes an item. `href` is its link as rewritten, and `resolved` what came of
/// resolving that.
pub fn build_item(
    title: String,
    href: String,
    resolved: Resolved,
    date: Option<PubDate>,
    description: Option<String>,
    enclosure: Option<Enclosure>,
) -> (r: Item)
    requires
        date matches Some(d) ==> d.formattable(),
    ensures
        r@ == built(
            title@,
            href@,
            url_of(resolved_view(resolved)),
            date,
            opt_view(description),
            enclosure_view(enclosure),
        ),
{
    let link = match resolved {
        Ok(url) => Some(url.0),
        Err(_) => None,
    };
    let pub_date = match date {
        Some(d) => Some(d.to_rfc2822()),
        None => None,
    };
    ItemOf {
        title: Some(title),
        link,
        guid: Some(GuidOf { value: href, permalink: false }),
        pub_date,
        description,
        enclosure,
    }
}

/// Finds what an item starts from: its title, its link as rewritten and its
/// description.
fn start_item(
    config: &FeedConfig,
    page: &Page,
    item: usize,
    link_selector: &str,
    page_url: &str,
) -> (r: Result<(String, String, Option<String>), FeedError>)
    ensures
        (match r {
            Ok(start) => Ok((start.0@, start.1@, opt_view(start.2))),
            Err(err) => Err(err@),
        }) == start_of(*config, page@, item, link_selector@, page_url@),
{
    let heading = match find_part(page, item, Part::Heading, config.heading.as_str()) {
        Err(err) => {
            return Err(err);
        },
        Ok(heading) => heading,
    };
    let href = match find_href(page, item, link_selector) {
        Err(err) => {
            return Err(err);
        },
        Ok(href) => href,
    };
    match extract_description(config, page, item, page_url) {
        Err(err) => Err(err),
        Ok(description) => Ok(
            (link_text(page, heading), rewrite_href_value(href.as_str(), page_url), description),
        ),
    }
}

/// Makes the item for an element of a page.
pub fn process_item(
    style: PathStyle,
    config: &FeedConfig,
    page: &Page,
    item: usize,
    link_selector: &str,
    page_url: &str,
) -> (r: Result<Item, FeedError>)
    requires
        item_possible(*config, page@, item, link_selector@, page_url@),
    ensures
        item_view(r) == item_of(style, *config, page@, item, link_selector@, page_url@),
{
    let start = match start_item(config, page, item, link_selector, page_url) {
        Err(err) => {
            return Err(err);
        },
        Ok(start) => start,
    };
    let date = match extract_pub_date(config, page, item) {
        Err(err) => {
            return Err(err);
        },
        Ok(date) => date,
    };
    let enclosure = match extract_enclosure(style, config, page, item, page_url) {
        Err(err) => {
            return Err(err);
        },
        Ok(enclosure) => enclosure,
    };
    let resolved = resolve(page_url, start.1.as_str());
    Ok(build_item(start.0, start.1, resolved, date, start.2, enclosure))
}

/// Tells whether an item can be made for an element of a page.
pub fn can_process_item(
    config: &FeedConfig,
    page: &Page,
    item: usize,
    link_selector: &str,
    page_url: &str,
) -> (r: bool)
    ensures
        r == item_possible(*config, page@, item, link_selector@, page_url@),
{
    has_usable_date(config, page, item) || start_item(
        config,
        page,
        item,
        link_selector,
        page_url,
    ).is_err()
}

/// Every item has a title and an identifier. The identifier is the item's link as
/// rewritten and is not said to lead to the item; the link is what the identifier
/// resolves to on the page.
pub proof fn law_link_follows_guid(
    style: PathStyle,
    config: FeedConfig,
    source: Seq<char>,
    item: usize,
    link_selector: Seq<char>,
    page_url: Seq<char>,
)
    ensures
        item_of(style, config, source, item, link_selector, page_url) matches Ok(made) ==> {
            &&& made.title is Some
            &&& made.guid matches Some(guid) && {
                &&& href_of(source, item, link_selector) matches Ok(href) && guid.value
                    == href_rewritten(page_url, href)
                &&& !guid.permalink
                &&& made.link == url_of(resolved_url(page_url, guid.value))
            }
        },
{
}

/// An item whose link is no URL has no link, and the link as it stands on the page
/// identifies it.
pub proof fn law_unusable_link(
    style: PathStyle,
    config: FeedConfig,
    source: Seq<char>,
    item: usize,
    link_selector: Seq<char>,
    page_url: Seq<char>,
    href: Seq<char>,
)
    requires
        href_of(source, item, link_selector) == Ok::<Seq<char>, FeedErrorOf<Seq<char>>>(href),
        resolved_url(page_url, href) is Err,
    ensures
        item_of(style, config, source, item, link_selector, page_url) matches Ok(made) ==> {
            &&& made.link is None
            &&& made.guid == Some(GuidOf { value: href, permalink: false })
        },
{
}

/// The parts of a summary come in the order of the selectors: what several
/// selectors find is what the first ones find, then what the others find.
pub proof fn law_summary_in_selector_order(
    source: Seq<char>,
    item: usize,
    first: Seq<Seq<char>>,
    second: Seq<Seq<char>>,
)
    ensures
        summary_nodes(source, item, first + second) == summary_nodes(source, item, first)
            + summary_nodes(source, item, second),
    decreases second.len(),
{
    if second.len() == 0 {
        assert(first + second =~= first);
        assert(summary_nodes(source, item, first) + summary_nodes(source, item, second)
            =~= summary_nodes(source, item, first));
    } else {
        law_summary_in_selector_order(source, item, first, second.drop_last());
        assert((first + second).drop_last() =~= first + second.drop_last());
        assert((first + second).last() == second.last());
        assert(summary_nodes(source, item, first + second) =~= summary_nodes(source, item, first)
            + summary_nodes(source, item, second));
    }
}

/// The parts of a summary are joined in their order, with nothing between them.
pub proof fn law_summary_joined_in_order(
    source: Seq<char>,
    first: Seq<usize>,
    second: Seq<usize>,
    page_url: Seq<char>,
)
    ensures
        joined_html(source, first + second, page_url) == (match (
            joined_html(source, first, page_url),
            joined_html(source, second, page_url),
        ) {
            (Ok(a), Ok(b)) => Ok(a + b),
            (Err(err), _) => Err(err),
            (_, Err(err)) => Err(err),
        }),
    decreases second.len(),
{
    if second.len() == 0 {
        assert(first + second =~= first);
        assert(joined_html(source, first, page_url) matches Ok(a) ==> a + Seq::<char>::empty()
            =~= a);
    } else {
        law_summary_joined_in_order(source, first, second.drop_last(), page_url);
        assert((first + second).drop_last() =~= first + second.drop_last());
        assert((first + second).last() == second.last());
        match (
            joined_html(source, first, page_url),
            joined_html(source, second.drop_last(), page_url),
            html_rewritten(page_url, element_html(source, second.last())),
        ) {
            (Ok(a), Ok(b), Ok(c)) => {
                assert((a + b) + c =~= a + (b + c));
            },
            _ => {},
        }
    }
}

/// A summary selector that is not valid changes nothing about the description.
pub proof fn law_invalid_summary_selector_passed_over(
    source: Seq<char>,
    item: usize,
    before: Seq<Seq<char>>,
    selector: Seq<char>,
    after: Seq<Seq<char>>,
    page_url: Seq<char>,
)
    requires
        !css_valid(selector),
    ensures
        description_of(source, item, before.push(selector) + after, page_url) == description_of(
            source,
            item,
            before + after,
            page_url,
        ),
{
    law_summary_in_selector_order(source, item, before.push(selector), after);
    law_summary_in_selector_order(source, item, before, after);
    assert(before.push(selector).drop_last() =~= before);
    assert(summary_nodes(source, item, before.push(selector)) =~= summary_nodes(
        source,
        item,
        before,
    ));
}

/// An item has a media file exactly where the configuration asks for one, and its
/// size is not known.
pub proof fn law_media_where_configured(
    style: PathStyle,
    config: FeedConfig,
    source: Seq<char>,
    item: usize,
    link_selector: Seq<char>,
    page_url: Seq<char>,
)
    ensures
        item_of(style, config, source, item, link_selector, page_url) matches Ok(made) ==> {
            &&& made.enclosure is Some <==> config.media is Some
            &&& made.enclosure matches Some(enclosure) ==> enclosure.length == "0"@
        },
{
}

/// A `datetime` attribute that can be read decides over the text of its element.
pub proof fn law_datetime_decides(date: DateConfig, source: Seq<char>, node: usize)
    requires
        datetime_of(source, node) is Some,
        date.parsed(trimmed(datetime_of(source, node)->0)) is Ok,
    ensures
        node_date(date, source, node) == Some(
            date.parsed(trimmed(datetime_of(source, node)->0))->Ok_0,
        ),
{
}

/// A date that is not found, or not understood, does not keep an item from the
/// feed: only an invalid selector for it does.
pub proof fn law_missing_date_is_no_error(
    date: Option<DateConfig>,
    source: Seq<char>,
    item: usize,
)
    ensures
        item_date(date, source, item) is Err <==> (date matches Some(d) && !css_valid(d.selector@)),
{
}

/// Whether a valid selector finds an element for an item: the item itself where it
/// matches, or else the first match below it.
pub open spec fn finds(source: Seq<char>, item: usize, selector: Seq<char>, element: usize) -> bool {
    &&& css_valid(selector)
    &&& if element_matches(source, item, selector) {
        element == item
    } else {
        matches_below(source, item, selector).len() > 0 && element == matches_below(
            source,
            item,
            selector,
        )[0]
    }
}

/// Whether a valid selector finds nothing for an item.
pub open spec fn finds_nothing(source: Seq<char>, item: usize, selector: Seq<char>) -> bool {
    &&& css_valid(selector)
    &&& !element_matches(source, item, selector)
    &&& matches_below(source, item, selector).len() == 0
}

/// All that a selector finds for an item: the item itself where it matches, then the
/// matches below it. One that is not valid finds nothing.
pub open spec fn found_by(source: Seq<char>, item: usize, selector: Seq<char>) -> Seq<usize> {
    if !css_valid(selector) {
        Seq::empty()
    } else if element_matches(source, item, selector) {
        seq![item] + matches_below(source, item, selector)
    } else {
        matches_below(source, item, selector)
    }
}

/// What several selectors find for an item, one after the other.
pub open spec fn found_by_all(source: Seq<char>, item: usize, selectors: Seq<Seq<char>>) -> Seq<
    usize,
> {
    selectors.map_values(|selector: Seq<char>| found_by(source, item, selector)).flatten()
}

/// Whether the links in the HTML of all of some elements can be rewritten.
pub open spec fn all_rewritable(source: Seq<char>, nodes: Seq<usize>, page_url: Seq<char>) -> bool {
    forall|k: int|
        0 <= k < nodes.len() ==> html_rewritten(
            page_url,
            element_html(source, #[trigger] nodes[k]),
        ) is Ok
}

/// The HTML of elements with links rewritten, one after the other.
pub open spec fn html_of_all(source: Seq<char>, nodes: Seq<usize>, page_url: Seq<char>) -> Seq<char> {
    nodes.map_values(
        |node: usize| html_rewritten(page_url, element_html(source, node))->Ok_0,
    ).flatten()
}

/// Whether the element at a place is the first whose HTML cannot be rewritten, and an
/// error says why.
pub open spec fn not_rewritten_first(
    source: Seq<char>,
    nodes: Seq<usize>,
    page_url: Seq<char>,
    k: int,
    err: FeedErrorOf<Seq<char>>,
) -> bool {
    &&& 0 <= k < nodes.len()
    &&& forall|j: int|
        0 <= j < k ==> html_rewritten(page_url, element_html(source, #[trigger] nodes[j])) is Ok
    &&& html_rewritten(page_url, element_html(source, nodes[k])) matches Err(cause) && err == (
    FeedErrorOf::Rewrite::<Seq<char>> { cause })
}

/// The elements of a summary are what its selectors find, one after the other.
proof fn lemma_summary_nodes(source: Seq<char>, item: usize, selectors: Seq<Seq<char>>)
    ensures
        summary_nodes(source, item, selectors) == found_by_all(source, item, selectors),
    decreases selectors.len(),
{
    let found = |selector: Seq<char>| found_by(source, item, selector);
    if selectors.len() > 0 {
        lemma_summary_nodes(source, item, selectors.drop_last());
        let front = selectors.drop_last().map_values(found);
        assert(selectors.map_values(found) =~= front.push(found_by(source, item, selectors.last())));
        front.lemma_flatten_push(found_by(source, item, selectors.last()));
        assert(summary_nodes(source, item, selectors) =~= found_by_all(source, item, selectors));
    } else {
        assert(selectors.map_values(found) =~= Seq::empty());
        assert(summary_nodes(source, item, selectors) =~= found_by_all(source, item, selectors));
    }
}

/// The HTML of elements is joined where all of it can be rewritten, and nowhere else.
proof fn lemma_joined_html(source: Seq<char>, nodes: Seq<usize>, page_url: Seq<char>)
    ensures
        joined_html(source, nodes, page_url) is Ok <==> all_rewritable(source, nodes, page_url),
        joined_html(source, nodes, page_url) matches Ok(text) ==> text == html_of_all(
            source,
            nodes,
            page_url,
        ),
        joined_html(source, nodes, page_url) matches Err(err) ==> exists|k: int|
            not_rewritten_first(source, nodes, page_url, k, err),
    decreases nodes.len(),
{
    let html = |node: usize| html_rewritten(page_url, element_html(source, node))->Ok_0;
    if nodes.len() > 0 {
        let front = nodes.drop_last();
        lemma_joined_html(source, front, page_url);
        let last = nodes.last();
        assert(nodes[nodes.len() - 1] == last);
        assert(nodes.map_values(html) =~= front.map_values(html).push(html(last)));
        front.map_values(html).lemma_flatten_push(html(last));
        if all_rewritable(source, nodes, page_url) {
            assert forall|k: int| 0 <= k < front.len() implies html_rewritten(
                page_url,
                element_html(source, #[trigger] front[k]),
            ) is Ok by {
                assert(nodes[k] == front[k]);
            }
        }
        if all_rewritable(source, front, page_url) {
            assert forall|k: int| 0 <= k < front.len() implies html_rewritten(
                page_url,
                element_html(source, #[trigger] nodes[k]),
            ) is Ok by {
                assert(nodes[k] == front[k]);
            }
            if html_rewritten(page_url, element_html(source, last)) is Err {
                assert(not_rewritten_first(
                    source,
                    nodes,
                    page_url,
                    nodes.len() - 1,
                    joined_html(source, nodes, page_url)->Err_0,
                ));
            }
        } else {
            let err = joined_html(source, front, page_url)->Err_0;
            let k = choose|k: int| not_rewritten_first(source, front, page_url, k, err);
            assert(nodes[k] == front[k]);
            assert forall|j: int| 0 <= j < k implies html_rewritten(
                page_url,
                element_html(source, #[trigger] nodes[j]),
            ) is Ok by {
                assert(nodes[j] == front[j]);
            }
            assert(not_rewritten_first(source, nodes, page_url, k, err));
        }
        if all_rewritable(source, front, page_url) && html_rewritten(
            page_url,
            element_html(source, last),
        ) is Ok {
            assert forall|k: int| 0 <= k < nodes.len() implies html_rewritten(
                page_url,
                element_html(source, #[trigger] nodes[k]),
            ) is Ok by {
                if k < front.len() {
                    assert(nodes[k] == front[k]);
                }
            }
        }
    } else {
        assert(nodes.map_values(html) =~= Seq::empty());
        assert(html_of_all(source, nodes, page_url) =~= Seq::empty());
    }
}

/// The title of an item is the text of the element that the heading selector finds. Its
/// identifier is what the `href` attribute of the element that the link selector finds
/// leads to on the page, or that attribute as it stands where it leads nowhere; and its
/// link is what that leads to.
pub proof fn law_title_and_link_from_element(
    style: PathStyle,
    config: FeedConfig,
    source: Seq<char>,
    item: usize,
    link_selector: Seq<char>,
    page_url: Seq<char>,
    heading: usize,
    link: usize,
)
    requires
        finds(source, item, config.heading@, heading),
        finds(source, item, link_selector, link),
    ensures
        item_of(style, config, source, item, link_selector, page_url) matches Ok(made) ==> {
            let href = element_attr(source, link, "href"@);
            &&& made.title == Some(element_text(source, heading))
            &&& href is Some
            &&& made.guid matches Some(guid) && !guid.permalink && guid.value == (
            match resolved_url(page_url, href->0) {
                Ok(url) => url.0,
                Err(_) => href->0,
            })
            &&& made.link == (match resolved_url(page_url, made.guid->0.value) {
                Ok(url) => Some(url.0),
                Err(_) => None,
            })
        },
{
}

/// The description of an item is the HTML of all elements that the summary selectors
/// find for it, in the order of the selectors and for each in the order of the page,
/// with their links rewritten. There is none exactly where that is empty.
pub proof fn law_description_from_summary(
    style: PathStyle,
    config: FeedConfig,
    source: Seq<char>,
    item: usize,
    link_selector: Seq<char>,
    page_url: Seq<char>,
)
    ensures
        item_of(style, config, source, item, link_selector, page_url) matches Ok(made) ==> {
            let nodes = found_by_all(source, item, views(config.summary@));
            let html = html_of_all(source, nodes, page_url);
            &&& all_rewritable(source, nodes, page_url)
            &&& made.description is None <==> html.len() == 0
            &&& made.description matches Some(description) ==> description == html
        },
{
    lemma_summary_nodes(source, item, views(config.summary@));
    lemma_joined_html(source, found_by_all(source, item, views(config.summary@)), page_url);
}

/// The date that an element shows: that in the `datetime` attribute of a `time` element
/// where it can be read, or else that in its text where it can be read.
pub open spec fn shown_date(date: DateConfig, source: Seq<char>, node: usize) -> Option<PubDate> {
    let attribute = element_attr(source, node, "datetime"@);
    if element_name(source, node) == "time"@ && attribute is Some && date.parsed(
        trimmed(attribute->0),
    ) is Ok {
        Some(date.parsed(trimmed(attribute->0))->Ok_0)
    } else if date.parsed(trimmed(element_text(source, node))) is Ok {
        Some(date.parsed(trimmed(element_text(source, node)))->Ok_0)
    } else {
        None
    }
}

/// The publication date of an item is the date that the element shows which the date
/// selector finds, written with its own local time and its own offset from UTC. There is
/// none where no date is configured, found or understood.
pub proof fn law_date_written_as_read(
    style: PathStyle,
    config: FeedConfig,
    source: Seq<char>,
    item: usize,
    link_selector: Seq<char>,
    page_url: Seq<char>,
    node: usize,
)
    ensures
        item_of(style, config, source, item, link_selector, page_url) matches Ok(made) ==> {
            &&& config.date is None ==> made.pub_date is None
            &&& config.date matches Some(date) ==> {
                &&& css_valid(date.selector@)
                &&& finds_nothing(source, item, date.selector@) ==> made.pub_date is None
                &&& finds(source, item, date.selector@, node) ==> (match shown_date(
                    date,
                    source,
                    node,
                ) {
                    Some(d) => made.pub_date == Some(
                        rfc2822_text(d.local_seconds, d.offset_seconds),
                    ),
                    None => made.pub_date is None,
                })
            }
        },
{
}

/// The moment at which an item was published is kept: where `anydate` reads a number of
/// seconds and an offset from what the item shows, the feed has the local time at that
/// moment and that offset.
pub proof fn law_moment_of_publication_kept(
    style: PathStyle,
    config: FeedConfig,
    source: Seq<char>,
    item: usize,
    link_selector: Seq<char>,
    page_url: Seq<char>,
    date: DateConfig,
    node: usize,
    shown: Seq<char>,
    seconds: i64,
    offset: i32,
)
    requires
        config.date == Some(date),
        date.format is None,
        finds(source, item, date.selector@, node),
        shown == trimmed(
            if element_name(source, node) == "time"@ && element_attr(source, node, "datetime"@)
                is Some && anydate_time(trimmed(element_attr(source, node, "datetime"@)->0)) is Ok {
                element_attr(source, node, "datetime"@)->0
            } else {
                element_text(source, node)
            },
        ),
        anydate_time(shown) == Ok::<(i64, i32), Seq<char>>((seconds, offset)),
    ensures
        item_of(style, config, source, item, link_selector, page_url) matches Ok(made)
            ==> made.pub_date == Some(rfc2822_text((seconds + offset) as i64, offset)),
{
}

/// The media file of an item is what the `src` attribute, or else the `href` attribute,
/// of the element that the media selector finds leads to on the page. It does not depend
/// on the item's own link. Its media type is that for the last segment of its URL.
pub proof fn law_media_resolved_on_page(
    style: PathStyle,
    config: FeedConfig,
    source: Seq<char>,
    item: usize,
    link_selector: Seq<char>,
    page_url: Seq<char>,
    media: usize,
)
    ensures
        item_of(style, config, source, item, link_selector, page_url) matches Ok(made) ==> {
            &&& config.media is None ==> made.enclosure is None
            &&& config.media is Some && finds(source, item, config.media->0@, media) ==> {
                let src = element_attr(source, media, "src"@);
                let href = element_attr(source, media, "href"@);
                let reference = if src is Some {
                    src
                } else {
                    href
                };
                &&& reference is Some
                &&& resolved_url(page_url, reference->0) matches Ok(url) && made.enclosure == Some(
                    EnclosureOf {
                        url: url.0,
                        length: "0"@,
                        mime_type: mime_of(style, url.1),
                    },
                )
            }
        },
{
}

/// Two items that differ in their headings, links and summaries only have the same media
/// file and the same date.
pub proof fn law_media_and_date_apart_from_link(
    style: PathStyle,
    config: FeedConfig,
    other: FeedConfig,
    source: Seq<char>,
    item: usize,
    link_selector: Seq<char>,
    other_selector: Seq<char>,
    page_url: Seq<char>,
)
    requires
        config.media == other.media,
        config.date == other.date,
    ensures
        item_of(style, config, source, item, link_selector, page_url) matches Ok(a) ==> (item_of(
            style,
            other,
            source,
            item,
            other_selector,
            page_url,
        ) matches Ok(b) ==> a.enclosure == b.enclosure && a.pub_date == b.pub_date),
{
}

/// Whether the media file of an item can be made.
pub open spec fn has_media(
    source: Seq<char>,
    item: usize,
    selector: Seq<char>,
    page_url: Seq<char>,
    media: usize,
) -> bool {
    &&& finds(source, item, selector, media)
    &&& match (element_attr(source, media, "src"@), element_attr(source, media, "href"@)) {
        (Some(src), _) => resolved_url(page_url, src) is Ok,
        (None, Some(href)) => resolved_url(page_url, href) is Ok,
        (None, None) => false,
    }
}

/// An item is made exactly where a heading and a link with a `href` attribute are found,
/// all HTML of its summary can be rewritten, the selector for its date is valid, and its
/// media file is found and has a URL; the last two as far as they are configured.
pub proof fn law_item_made_where_parts_found(
    style: PathStyle,
    config: FeedConfig,
    source: Seq<char>,
    item: usize,
    link_selector: Seq<char>,
    page_url: Seq<char>,
)
    ensures
        item_of(style, config, source, item, link_selector, page_url) is Ok <==> {
            &&& exists|heading: usize| #[trigger] finds(source, item, config.heading@, heading)
            &&& exists|link: usize| #[trigger]
                finds(source, item, link_selector, link) && element_attr(source, link, "href"@)
                    is Some
            &&& all_rewritable(
                source,
                found_by_all(source, item, views(config.summary@)),
                page_url,
            )
            &&& config.date matches Some(date) ==> css_valid(date.selector@)
            &&& config.media matches Some(selector) ==> exists|media: usize| #[trigger]
                has_media(source, item, selector@, page_url, media)
        },
{
    lemma_summary_nodes(source, item, views(config.summary@));
    lemma_joined_html(source, found_by_all(source, item, views(config.summary@)), page_url);
    lemma_finds(source, item, config.heading@);
    lemma_finds(source, item, link_selector);
    match config.media {
        Some(selector) => {
            lemma_finds(source, item, selector@);
            match first_including_self(source, item, selector@) {
                Some(media) => {
                    assert(has_media(source, item, selector@, page_url, media) <==> enclosure_of(
                        style,
                        Some(selector@),
                        source,
                        item,
                        page_url,
                    ) is Ok);
                },
                None => {},
            }
        },
        None => {},
    }
}

/// What is found first is found.
proof fn lemma_finds(source: Seq<char>, item: usize, selector: Seq<char>)
    ensures
        (exists|element: usize| #[trigger] finds(source, item, selector, element)) <==> (css_valid(
            selector,
        ) && first_including_self(source, item, selector) is Some),
        forall|element: usize| #[trigger]
            finds(source, item, selector, element) ==> first_including_self(source, item, selector)
                == Some(element),
        css_valid(selector) ==> (first_including_self(source, item, selector) matches Some(element)
            ==> finds(source, item, selector, element)),
{
    match first_including_self(source, item, selector) {
        Some(element) => {
            assert(finds(source, item, selector, element) <==> css_valid(selector));
        },
        None => {},
    }
}

/// Why an item is not made: the first that is wrong of its heading, its link, its
/// summary, its date and its media file decides.
pub proof fn law_first_fault_decides(
    style: PathStyle,
    config: FeedConfig,
    source: Seq<char>,
    item: usize,
    link_selector: Seq<char>,
    page_url: Seq<char>,
    heading: usize,
    link: usize,
    media: usize,
)
    ensures
        ({
            let result = item_of(style, config, source, item, link_selector, page_url);
            let headed = finds(source, item, config.heading@, heading);
            let linked = headed && finds(source, item, link_selector, link) && element_attr(
                source,
                link,
                "href"@,
            ) is Some;
            let described = linked && all_rewritable(
                source,
                found_by_all(source, item, views(config.summary@)),
                page_url,
            );
            let dated = described && (config.date matches Some(date) ==> css_valid(date.selector@));
            &&& !css_valid(config.heading@) ==> result == Err::<
                ItemOf<Seq<char>>,
                FeedErrorOf<Seq<char>>,
            >(FeedErrorOf::InvalidSelector { part: Part::Heading, selector: config.heading@ })
            &&& finds_nothing(source, item, config.heading@) ==> result == Err::<
                ItemOf<Seq<char>>,
                FeedErrorOf<Seq<char>>,
            >(FeedErrorOf::NoHeading { selector: config.heading@ })
            &&& headed && !css_valid(link_selector) ==> result == Err::<
                ItemOf<Seq<char>>,
                FeedErrorOf<Seq<char>>,
            >(FeedErrorOf::InvalidSelector { part: Part::Link, selector: link_selector })
            &&& headed && finds_nothing(source, item, link_selector) ==> result == Err::<
                ItemOf<Seq<char>>,
                FeedErrorOf<Seq<char>>,
            >(FeedErrorOf::NoLink)
            &&& headed && finds(source, item, link_selector, link) && element_attr(
                source,
                link,
                "href"@,
            ) is None ==> result == Err::<ItemOf<Seq<char>>, FeedErrorOf<Seq<char>>>(
                FeedErrorOf::NoHref,
            )
            &&& linked && !described ==> (result matches Err(err) && exists|k: int|
                not_rewritten_first(
                    source,
                    found_by_all(source, item, views(config.summary@)),
                    page_url,
                    k,
                    err,
                ))
            &&& described && !dated ==> (result matches Err(err) && err == (
            FeedErrorOf::InvalidSelector::<Seq<char>> {
                part: Part::Date,
                selector: config.date->0.selector@,
            }))
            &&& dated && config.media is Some ==> {
                let selector = config.media->0@;
                &&& !css_valid(selector) ==> result == Err::<
                    ItemOf<Seq<char>>,
                    FeedErrorOf<Seq<char>>,
                >(FeedErrorOf::InvalidSelector { part: Part::Media, selector })
                &&& finds_nothing(source, item, selector) ==> result == Err::<
                    ItemOf<Seq<char>>,
                    FeedErrorOf<Seq<char>>,
                >(FeedErrorOf::NoMedia)
                &&& finds(source, item, selector, media) ==> (match (
                    element_attr(source, media, "src"@),
                    element_attr(source, media, "href"@),
                ) {
                    (None, None) => result == Err::<ItemOf<Seq<char>>, FeedErrorOf<Seq<char>>>(
                        FeedErrorOf::NoMediaUrl,
                    ),
                    (Some(src), _) => resolved_url(page_url, src) matches Err(cause) ==> result
                        == Err::<ItemOf<Seq<char>>, FeedErrorOf<Seq<char>>>(
                        FeedErrorOf::InvalidMediaUrl { cause },
                    ),
                    (None, Some(href)) => resolved_url(page_url, href) matches Err(cause) ==> result
                        == Err::<ItemOf<Seq<char>>, FeedErrorOf<Seq<char>>>(
                        FeedErrorOf::InvalidMediaUrl { cause },
                    ),
                })
            }
        }),
{
    lemma_summary_nodes(source, item, views(config.summary@));
    lemma_joined_html(source, found_by_all(source, item, views(config.summary@)), page_url);
}

/// Only a date can keep an item from being tried, and only one that cannot be read or
/// that a feed cannot hold: without a date, or where none is found, an item can always be
/// tried, and so can one whose date can be read and written, and one that fails for its
/// heading, its link or its summary.
pub proof fn law_only_dates_stand_in_the_way(
    config: FeedConfig,
    source: Seq<char>,
    item: usize,
    link_selector: Seq<char>,
    page_url: Seq<char>,
    node: usize,
    link: usize,
)
    ensures
        !css_valid(config.heading@) || finds_nothing(source, item, config.heading@) || !css_valid(
            link_selector,
        ) || finds_nothing(source, item, link_selector) || !all_rewritable(
            source,
            found_by_all(source, item, views(config.summary@)),
            page_url,
        ) || (finds(source, item, link_selector, link) && element_attr(source, link, "href"@)
            is None) ==> item_possible(config, source, item, link_selector, page_url),
        config.date matches Some(date) ==> (!css_valid(date.selector@) ==> item_possible(
            config,
            source,
            item,
            link_selector,
            page_url,
        )),
        config.date is None ==> item_possible(config, source, item, link_selector, page_url),
        config.date matches Some(date) ==> {
            &&& finds_nothing(source, item, date.selector@) ==> item_possible(
                config,
                source,
                item,
                link_selector,
                page_url,
            )
            &&& finds(source, item, date.selector@, node) && reads_shown_date(date, source, node)
                && (shown_date(date, source, node) matches Some(d) ==> d.formattable())
                ==> item_possible(config, source, item, link_selector, page_url)
        },
{
    lemma_summary_nodes(source, item, views(config.summary@));
    lemma_joined_html(source, found_by_all(source, item, views(config.summary@)), page_url);
}

/// Whether what an element shows can be read: its `datetime` attribute where it is a
/// `time` element that has one, and its text where that attribute does not decide.
pub open spec fn reads_shown_date(date: DateConfig, source: Seq<char>, node: usize) -> bool {
    let attribute = element_attr(source, node, "datetime"@);
    let counts = element_name(source, node) == "time"@ && attribute is Some;
    &&& counts ==> date.can_parse(trimmed(attribute->0))
    &&& !(counts && date.parsed(trimmed(attribute->0)) is Ok) ==> date.can_parse(
        trimmed(element_text(source, node)),
    )
}

/// The view of an item has all that the item is made of.
pub proof fn law_view_of_item(item: Item)
    ensures
        item@.title == opt_view(item.title),
        item@.link == opt_view(item.link),
        item@.pub_date == opt_view(item.pub_date),
        item@.description == opt_view(item.description),
        (match (item.guid, item@.guid) {
            (Some(guid), Some(view)) => view.value == guid.value@ && view.permalink
                == guid.permalink,
            (None, None) => true,
            _ => false,
        }),
        (match (item.enclosure, item@.enclosure) {
            (Some(enclosure), Some(view)) => view.url == enclosure.url@ && view.length
                == enclosure.length@ && view.mime_type == enclosure.mime_type@,
            (None, None) => true,
            _ => false,
        }),
        item_view(Ok(item)) == Ok::<ItemOf<Seq<char>>, FeedErrorOf<Seq<char>>>(item@),
{
}

/// What an item is built of is what it has: its title, its link and identifier, its date
/// with its own local time and offset, its description and its media file.
pub proof fn law_item_has_its_parts(
    title: Seq<char>,
    href: Seq<char>,
    link: Option<Seq<char>>,
    date: Option<PubDate>,
    description: Option<Seq<char>>,
    enclosure: Option<EnclosureOf<Seq<char>>>,
)
    ensures
        ({
            let item = built(title, href, link, date, description, enclosure);
            &&& item.title == Some(title)
            &&& item.link == link
            &&& item.guid matches Some(guid) && guid.value == href && !guid.permalink
            &&& item.pub_date is Some <==> date is Some
            &&& date matches Some(d) ==> item.pub_date == Some(
                rfc2822_text(d.local_seconds, d.offset_seconds),
            )
            &&& item.description == description
            &&& item.enclosure == enclosure
        }),
{
}

/// The description of an item splits where its selectors do: what a list of selectors
/// gives is what its first part gives, followed by what its second part gives.
pub proof fn law_description_splits(
    source: Seq<char>,
    item: usize,
    first: Seq<Seq<char>>,
    second: Seq<Seq<char>>,
    page_url: Seq<char>,
)
    ensures
        description_of(source, item, first, page_url) matches Ok(a) ==> (description_of(
            source,
            item,
            second,
            page_url,
        ) matches Ok(b) ==> (description_of(source, item, first + second, page_url) matches Ok(all)
            && or_empty(all) == or_empty(a) + or_empty(b))),
{
    law_summary_in_selector_order(source, item, first, second);
    law_summary_joined_in_order(
        source,
        summary_nodes(source, item, first),
        summary_nodes(source, item, second),
        page_url,
    );
    match (
        joined_html(source, summary_nodes(source, item, first), page_url),
        joined_html(source, summary_nodes(source, item, second), page_url),
    ) {
        (Ok(a), Ok(b)) => {
            assert(a.len() == 0 ==> a =~= Seq::empty());
            assert(b.len() == 0 ==> b =~= Seq::empty());
            assert((a + b).len() == 0 ==> a + b =~= Seq::empty());
        },
        _ => {},
    }
}

/// A text, which is empty where there is none.
pub open spec fn or_empty(text: Option<Seq<char>>) -> Seq<char> {
    match text {
        Some(text) => text,
        None => Seq::empty(),
    }
}

/// The views of the parts of an item have all that the parts are made of, and that of an
/// error is the error.
pub proof fn law_views_of_parts(
    description: Option<String>,
    date: Option<PubDate>,
    enclosure: Option<Enclosure>,
    err: FeedError,
)
    ensures
        description_view(Ok(description)) == Ok::<Option<Seq<char>>, FeedErrorOf<Seq<char>>>(
            opt_view(description),
        ),
        description_view(Err(err)) == Err::<Option<Seq<char>>, FeedErrorOf<Seq<char>>>(err@),
        date_view(Ok(date)) == Ok::<Option<PubDate>, FeedErrorOf<Seq<char>>>(date),
        date_view(Err(err)) == Err::<Option<PubDate>, FeedErrorOf<Seq<char>>>(err@),
        enclosure is None <==> enclosure_view(enclosure) is None,
        enclosure matches Some(file) ==> (enclosure_view(enclosure) matches Some(view) && view.url
            == file.url@ && view.length == file.length@ && view.mime_type == file.mime_type@),
        enclosure_result_view(Ok(enclosure)) == Ok::<
            Option<EnclosureOf<Seq<char>>>,
            FeedErrorOf<Seq<char>>,
        >(enclosure_view(enclosure)),
        enclosure_result_view(Err(err)) == Err::<
            Option<EnclosureOf<Seq<char>>>,
            FeedErrorOf<Seq<char>>,
        >(err@),
        item_view(Err(err)) == Err::<ItemOf<Seq<char>>, FeedErrorOf<Seq<char>>>(err@),
{
}

} // verus!
