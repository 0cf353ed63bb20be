//! Feeds: what is made of a web page, and of the items that were found on it.
use crate::config::{ChannelConfig, FeedConfig, FeedSource};
use crate::errors::{FeedError, FeedErrorOf, Part};
use crate::html::{css_valid, page_matches, Page};
use crate::item::{
    can_process_item, item_of, item_possible, item_view, process_item, Item, ItemOf,
    DEFAULT_LINK_SELECTOR,
};
use crate::json::{
    json_item_of, json_item_possible, json_outcomes, json_page_feed, json_page_possible,
    process_json_page, JsonPage, RunOutcome,
};
use crate::links::{parsed_url, read_url};
use crate::paths::PathStyle;
use crate::text::opt_view;
use crate::version::{version_string, GENERATOR};
use vstd::prelude::*;

verus! {

/// A feed.
#[derive(Debug)]
pub struct Channel {
    /// Its title.
    pub title: String,
    /// The URL of the page that it was made of.
    pub link: String,
    /// What made it.
    pub generator: Option<String>,
    /// Its items.
    pub items: Vec<Item>,
}

/// The view of a feed.
pub struct ChannelView {
    /// Its title.
    pub title: Seq<char>,
    /// The URL of the page that it was made of.
    pub link: Seq<char>,
    /// What made it.
    pub generator: Option<Seq<char>>,
    /// Its items.
    pub items: Seq<ItemOf<Seq<char>>>,
}

impl View for Channel {
    type V = ChannelView;

    open spec fn view(&self) -> ChannelView {
        ChannelView {
            title: self.title@,
            link: self.link@,
            generator: opt_view(self.generator),
            items: item_views(self.items@),
        }
    }
}

impl Channel {
    /// The items of the feed.
    pub fn items(&self) -> (r: &Vec<Item>)
        ensures
            *r == self.items,
    {
        &self.items
    }
}

/// What came of fetching a page.
#[derive(Debug)]
pub enum FetchResult {
    /// It is as it was.
    NotModified,
    /// It was fetched.
    Fetched {
        /// The page.
        html: String,
        /// The headers that came with it, as they are to be kept.
        headers: Option<String>,
    },
}

/// What came of making a feed.
#[derive(Debug)]
pub enum ProcessResult {
    /// Its page is as it was.
    NotModified,
    /// The feed was made.
    Made {
        /// The feed.
        channel: Box<Channel>,
        /// The headers that came with its page, as they are to be kept.
        headers: Option<String>,
        /// Why items that were found on the page are not in the feed.
        skipped: Vec<FeedError>,
    },
}

/// The view of what came of making a feed.
pub enum ProcessView {
    /// Its page is as it was.
    NotModified,
    /// The feed was made.
    Made {
        /// The feed.
        channel: ChannelView,
        /// The headers that came with its page, as they are to be kept.
        headers: Option<Seq<char>>,
        /// Why items that were found on the page are not in the feed.
        skipped: Seq<FeedErrorOf<Seq<char>>>,
    },
}

impl View for ProcessResult {
    type V = ProcessView;

    open spec fn view(&self) -> ProcessView {
        match *self {
            ProcessResult::NotModified => ProcessView::NotModified,
            ProcessResult::Made { channel, headers, skipped } => ProcessView::Made {
                channel: (*channel)@,
                headers: opt_view(headers),
                skipped: error_views(skipped@),
            },
        }
    }
}

/// What came of the items of a feed, in order.
pub type Outcomes = Seq<Result<ItemOf<Seq<char>>, FeedErrorOf<Seq<char>>>>;

/// The views of items.
pub open spec fn item_views(items: Seq<Item>) -> Seq<ItemOf<Seq<char>>> {
    items.map_values(|item: Item| item@)
}

/// The views of errors.
pub open spec fn error_views(errors: Seq<FeedError>) -> Seq<FeedErrorOf<Seq<char>>> {
    errors.map_values(|err: FeedError| err@)
}

/// The views of what came of items.
pub open spec fn outcome_views(outcomes: Seq<Result<Item, FeedError>>) -> Outcomes {
    outcomes.map_values(|outcome: Result<Item, FeedError>| item_view(outcome))
}

/// The view of what came of making a feed, or of why it was not made.
pub open spec fn process_view(result: Result<ProcessResult, FeedError>) -> Result<
    ProcessView,
    FeedErrorOf<Seq<char>>,
> {
    match result {
        Ok(result) => Ok(result@),
        Err(err) => Err(err@),
    }
}

/// The items that could be made, in order.
pub open spec fn made(outcomes: Outcomes) -> Seq<ItemOf<Seq<char>>>
    decreases outcomes.len(),
{
    if outcomes.len() == 0 {
        Seq::empty()
    } else {
        match outcomes.last() {
            Ok(item) => made(outcomes.drop_last()).push(item),
            Err(_) => made(outcomes.drop_last()),
        }
    }
}

/// Why the other items could not be made, in order.
pub open spec fn failed(outcomes: Outcomes) -> Seq<FeedErrorOf<Seq<char>>>
    decreases outcomes.len(),
{
    if outcomes.len() == 0 {
        Seq::empty()
    } else {
        match outcomes.last() {
            Ok(_) => failed(outcomes.drop_last()),
            Err(err) => failed(outcomes.drop_last()).push(err),
        }
    }
}

/// Whether there are as many items as the configuration asks for.
pub open spec fn enough(config: FeedConfig, count: nat) -> bool {
    config.min_items matches Some(minimum) ==> minimum <= count
}

/// The feed for what came of its items.
pub open spec fn finished(
    channel: ChannelConfig,
    link: Seq<char>,
    outcomes: Outcomes,
    headers: Option<Seq<char>>,
) -> Result<ProcessView, FeedErrorOf<Seq<char>>> {
    if enough(channel.config, made(outcomes).len()) {
        Ok(
            ProcessView::Made {
                channel: ChannelView {
                    title: channel.title@,
                    link,
                    generator: Some(GENERATOR@),
                    items: made(outcomes),
                },
                headers,
                skipped: failed(outcomes),
            },
        )
    } else {
        Err(
            FeedErrorOf::TooFewItems {
                minimum: channel.config.min_items->0,
                created: made(outcomes).len() as usize,
            },
        )
    }
}

/// What finds the link of an item.
pub open spec fn link_selector_of(config: FeedConfig) -> Seq<char> {
    match config.link {
        Some(selector) => selector@,
        None => DEFAULT_LINK_SELECTOR@,
    }
}

/// What comes of the items for some elements of a page.
pub open spec fn outcomes_of(
    style: PathStyle,
    config: FeedConfig,
    source: Seq<char>,
    elements: Seq<usize>,
    page_url: Seq<char>,
) -> Outcomes {
    elements.map_values(
        |element: usize|
            item_of(style, config, source, element, link_selector_of(config), page_url),
    )
}

/// Whether items can be made for some elements of a page.
pub open spec fn elements_possible(
    config: FeedConfig,
    source: Seq<char>,
    elements: Seq<usize>,
    page_url: Seq<char>,
) -> bool {
    forall|k: int|
        0 <= k < elements.len() ==> item_possible(
            config,
            source,
            #[trigger] elements[k],
            link_selector_of(config),
            page_url,
        )
}

/// The feed for an HTML page.
pub open spec fn page_feed(
    style: PathStyle,
    channel: ChannelConfig,
    link: Seq<char>,
    source: Seq<char>,
    headers: Option<Seq<char>>,
) -> Result<ProcessView, FeedErrorOf<Seq<char>>> {
    if css_valid(channel.config.item@) {
        finished(
            channel,
            link,
            outcomes_of(
                style,
                channel.config,
                source,
                page_matches(source, channel.config.item@),
                link,
            ),
            headers,
        )
    } else {
        Err(FeedErrorOf::InvalidSelector { part: Part::Item, selector: channel.config.item@ })
    }
}

/// The feed for what came of fetching its page: of the page as HTML, or, where the
/// source is JSON, of what came of running the filters on it. A JSON feed must have a
/// link filter.
pub open spec fn feed_of(
    style: PathStyle,
    channel: ChannelConfig,
    fetched: FetchResult,
    filtered: Option<JsonPage>,
) -> Result<ProcessView, FeedErrorOf<Seq<char>>> {
    match parsed_url(channel.config.url@) {
        Err(cause) => Err(FeedErrorOf::InvalidUrl { url: channel.config.url@, cause }),
        Ok(url) => if channel.config.source is Json && channel.config.link is None {
            Err(FeedErrorOf::LinkRequired)
        } else {
            match fetched {
                FetchResult::NotModified => Ok(ProcessView::NotModified),
                FetchResult::Fetched { html, headers } => match channel.config.source {
                    FeedSource::Html => page_feed(style, channel, url.0, html@, opt_view(headers)),
                    FeedSource::Json => match filtered {
                        Some(page) => json_page_feed(
                            style,
                            channel,
                            url.0,
                            page,
                            opt_view(headers),
                        ),
                        None => Err(FeedErrorOf::FilterNotRun),
                    },
                },
            }
        },
    }
}

/// Whether the items of an HTML page can be made.
pub open spec fn page_possible(config: FeedConfig, source: Seq<char>, page_url: Seq<char>) -> bool {
    css_valid(config.item@) ==> elements_possible(
        config,
        source,
        page_matches(source, config.item@),
        page_url,
    )
}

/// Whether the items of a feed can be made.
pub open spec fn feed_possible(
    channel: ChannelConfig,
    fetched: FetchResult,
    filtered: Option<JsonPage>,
) -> bool {
    match (parsed_url(channel.config.url@), fetched, channel.config.source) {
        (Ok(url), FetchResult::Fetched { html, headers: _ }, FeedSource::Html) => page_possible(
            channel.config,
            html@,
            url.0,
        ),
        (Ok(url), FetchResult::Fetched { .. }, FeedSource::Json) => channel.config.link is Some
            ==> (filtered matches Some(page) ==> json_page_possible(channel.config, page, url.0)),
        _ => true,
    }
}

/// Sorts what came of items into those that were made and why others were not.
pub fn sort_outcomes(outcomes: Vec<Result<Item, FeedError>>) -> (r: (Vec<Item>, Vec<FeedError>))
    ensures
        item_views(r.0@) == made(outcome_views(outcomes@)),
        error_views(r.1@) == failed(outcome_views(outcomes@)),
        r.0@.len() + r.1@.len() == outcomes@.len(),
{
    let ghost all = outcome_views(outcomes@);
    let mut items: Vec<Item> = Vec::new();
    let mut errors: Vec<FeedError> = Vec::new();
    for outcome in it: outcomes
        invariant
            all == outcome_views(outcomes@),
            it.seq() == outcomes@,
            item_views(items@) == made(all.take(it.index())),
            error_views(errors@) == failed(all.take(it.index())),
            items@.len() + errors@.len() == it.index(),
    {
        proof {
            let next = all.take(it.index() + 1);
            assert(next.drop_last() =~= all.take(it.index()));
            assert(next.last() == item_view(outcome));
        }
        match outcome {
            Ok(item) => {
                let ghost before = items@;
                items.push(item);
                assert(item_views(items@) =~= item_views(before).push(item@));
            },
            Err(err) => {
                let ghost before = errors@;
                errors.push(err);
                assert(error_views(errors@) =~= error_views(before).push(err@));
            },
        }
    }
    assert(all.take(all.len() as int) =~= all);
    (items, errors)
}

/// Makes the feed for what came of its items. It fails where there are fewer items
/// than the configuration asks for.
pub fn finish_feed(
    channel: &ChannelConfig,
    link: String,
    outcomes: Vec<Result<Item, FeedError>>,
    headers: Option<String>,
) -> (r: Result<ProcessResult, FeedError>)
    ensures
        process_view(r) == finished(*channel, link@, outcome_views(outcomes@), opt_view(headers)),
{
    let (items, skipped) = sort_outcomes(outcomes);
    match channel.config.min_items {
        Some(minimum) => {
            if items.len() < minimum {
                return Err(FeedErrorOf::TooFewItems { minimum, created: items.len() });
            }
        },
        None => {},
    }
    Ok(
        ProcessResult::Made {
            channel: Box::new(
                Channel {
                    title: channel.title.clone(),
                    link,
                    generator: Some(version_string().to_owned()),
                    items,
                },
            ),
            headers,
            skipped,
        },
    )
}

/// What finds the link of an item: the selector in the configuration, or else one
/// for everything that links.
pub fn link_selector(config: &FeedConfig) -> (r: &str)
    ensures
        r@ == link_selector_of(*config),
{
    match &config.link {
        Some(selector) => selector.as_str(),
        None => DEFAULT_LINK_SELECTOR,
    }
}

/// Tells whether items can be made for some elements of a page.
fn can_process_elements(config: &FeedConfig, page: &Page, elements: &Vec<usize>, page_url: &str)
    -> (r: bool)
    ensures
        r == elements_possible(*config, page@, elements@, page_url@),
{
    for i in 0..elements.len()
        invariant
            forall|k: int|
                0 <= k < i ==> item_possible(
                    *config,
                    page@,
                    #[trigger] elements@[k],
                    link_selector_of(*config),
                    page_url@,
                ),
    {
        if !can_process_item(config, page, elements[i], link_selector(config), page_url) {
            return false;
        }
    }
    true
}

/// Makes the items for some elements of a page.
pub fn process_elements(
    style: PathStyle,
    config: &FeedConfig,
    page: &Page,
    elements: &Vec<usize>,
    page_url: &str,
) -> (r: Vec<Result<Item, FeedError>>)
    requires
        elements_possible(*config, page@, elements@, page_url@),
    ensures
        outcome_views(r@) == outcomes_of(style, *config, page@, elements@, page_url@),
{
    let mut outcomes: Vec<Result<Item, FeedError>> = Vec::new();
    for i in 0..elements.len()
        invariant
            elements_possible(*config, page@, elements@, page_url@),
            outcomes@.len() == i,
            forall|k: int|
                0 <= k < i ==> item_view(#[trigger] outcomes@[k]) == item_of(
                    style,
                    *config,
                    page@,
                    elements@[k],
                    link_selector_of(*config),
                    page_url@,
                ),
    {
        outcomes.push(
            process_item(style, config, page, elements[i], link_selector(config), page_url),
        );
    }
    assert(outcome_views(outcomes@) =~= outcomes_of(style, *config, page@, elements@, page_url@));
    outcomes
}

/// Makes a feed of an HTML page. `None` where an item has a date that cannot be read or
/// that a feed cannot hold.
fn process_page(
    style: PathStyle,
    channel: &ChannelConfig,
    link: String,
    html: &str,
    headers: Option<String>,
) -> (r: Option<Result<ProcessResult, FeedError>>)
    ensures
        r is Some <==> page_possible(channel.config, html@, link@),
        r matches Some(result) ==> process_view(result) == page_feed(
            style,
            *channel,
            link@,
            html@,
            opt_view(headers),
        ),
{
    let config = &channel.config;
    let page = Page::parse(html);
    let elements = match page.select(config.item.as_str()) {
        Some(elements) => elements,
        None => {
            return Some(
                Err(
                    FeedErrorOf::InvalidSelector {
                        part: Part::Item,
                        selector: config.item.clone(),
                    },
                ),
            );
        },
    };
    if !can_process_elements(config, &page, &elements, link.as_str()) {
        return None;
    }
    let outcomes = process_elements(style, config, &page, &elements, link.as_str());
    Some(finish_feed(channel, link, outcomes, headers))
}

/// Makes a feed, given what came of fetching its page and, where that is a JSON
/// document, of running the filters on it. `None` where an item has a date that cannot
/// be read or that a feed cannot hold.
pub fn process_feed(
    style: PathStyle,
    channel: &ChannelConfig,
    fetched: FetchResult,
    filtered: Option<JsonPage>,
) -> (r: Option<Result<ProcessResult, FeedError>>)
    ensures
        r is Some <==> feed_possible(*channel, fetched, filtered),
        r matches Some(result) ==> process_view(result) == feed_of(
            style,
            *channel,
            fetched,
            filtered,
        ),
{
    let config = &channel.config;
    let url = match read_url(config.url.as_str()) {
        Ok(url) => url,
        Err(cause) => {
            return Some(Err(FeedErrorOf::InvalidUrl { url: config.url.clone(), cause }));
        },
    };
    if config.source == FeedSource::Json && config.link.is_none() {
        return Some(Err(FeedErrorOf::LinkRequired));
    }
    let (html, headers) = match fetched {
        FetchResult::Fetched { html, headers } => (html, headers),
        FetchResult::NotModified => {
            return Some(Ok(ProcessResult::NotModified));
        },
    };
    match config.source {
        FeedSource::Html => process_page(style, channel, url.text, html.as_str(), headers),
        FeedSource::Json => match filtered {
            Some(page) => process_json_page(style, channel, url.text, page, headers),
            None => Some(Err(FeedErrorOf::FilterNotRun)),
        },
    }
}

/// Every item that was found is either in the feed or it is known why it is not.
pub proof fn law_every_item_accounted_for(outcomes: Outcomes)
    ensures
        made(outcomes).len() + failed(outcomes).len() == outcomes.len(),
        forall|k: int|
            0 <= k < outcomes.len() ==> (match #[trigger] outcomes[k] {
                Ok(item) => made(outcomes).contains(item),
                Err(err) => failed(outcomes).contains(err),
            }),
    decreases outcomes.len(),
{
    if outcomes.len() > 0 {
        let front = outcomes.drop_last();
        law_every_item_accounted_for(front);
        assert forall|k: int| 0 <= k < outcomes.len() implies (match #[trigger] outcomes[k] {
            Ok(item) => made(outcomes).contains(item),
            Err(err) => failed(outcomes).contains(err),
        }) by {
            if k < front.len() {
                assert(front[k] == outcomes[k]);
                match outcomes[k] {
                    Ok(item) => {
                        let at = choose|i: int| 0 <= i < made(front).len() && made(front)[i] == item;
                        assert(made(outcomes)[at] == item);
                    },
                    Err(err) => {
                        let at = choose|i: int|
                            0 <= i < failed(front).len() && failed(front)[i] == err;
                        assert(failed(outcomes)[at] == err);
                    },
                }
            } else {
                match outcomes[k] {
                    Ok(item) => {
                        assert(made(outcomes)[made(outcomes).len() - 1] == item);
                    },
                    Err(err) => {
                        assert(failed(outcomes)[failed(outcomes).len() - 1] == err);
                    },
                }
            }
        }
    }
}

/// The items of a feed, and the reasons why others are not in it, come in the order
/// of the page: what comes of two pieces of a page, one after the other, is what
/// comes of the first, then what comes of the second.
pub proof fn law_order_kept(first: Outcomes, second: Outcomes)
    ensures
        made(first + second) == made(first) + made(second),
        failed(first + second) == failed(first) + failed(second),
    decreases second.len(),
{
    if second.len() == 0 {
        assert(first + second =~= first);
        assert(made(first) + made(second) =~= made(first));
        assert(failed(first) + failed(second) =~= failed(first));
    } else {
        law_order_kept(first, second.drop_last());
        assert((first + second).drop_last() =~= first + second.drop_last());
        assert((first + second).last() == second.last());
        match second.last() {
            Ok(item) => {
                assert((made(first) + made(second.drop_last())).push(item) =~= made(first) + made(
                    second,
                ));
            },
            Err(err) => {
                assert((failed(first) + failed(second.drop_last())).push(err) =~= failed(first)
                    + failed(second));
            },
        }
    }
}

/// A feed fails for its number of items exactly where a minimum is set and fewer
/// were made; a minimum of zero is always met.
pub proof fn law_minimum_decides(
    channel: ChannelConfig,
    link: Seq<char>,
    outcomes: Outcomes,
    headers: Option<Seq<char>>,
)
    ensures
        finished(channel, link, outcomes, headers) is Err <==> (channel.config.min_items matches Some(
            minimum,
        ) && made(outcomes).len() < minimum),
        channel.config.min_items == Some(0usize) ==> finished(channel, link, outcomes, headers)
            is Ok,
        channel.config.min_items is None ==> finished(channel, link, outcomes, headers) is Ok,
{
}

/// The item that came of an element, where one did.
pub open spec fn as_item(outcome: Result<ItemOf<Seq<char>>, FeedErrorOf<Seq<char>>>) -> Option<
    ItemOf<Seq<char>>,
> {
    match outcome {
        Ok(item) => Some(item),
        Err(_) => None,
    }
}

/// The reason why no item came of an element, where none did.
pub open spec fn as_reason(
    outcome: Result<ItemOf<Seq<char>>, FeedErrorOf<Seq<char>>>,
) -> Option<FeedErrorOf<Seq<char>>> {
    match outcome {
        Ok(_) => None,
        Err(err) => Some(err),
    }
}

/// Whether a feed was made of exactly what came of its elements: its items are those
/// that could be made, all of them and in order, and the others are accounted for in
/// order. It is not made exactly where there are fewer items than the minimum.
pub open spec fn holds_all(
    result: Result<ProcessView, FeedErrorOf<Seq<char>>>,
    outcomes: Outcomes,
    min_items: Option<usize>,
) -> bool {
    &&& result matches Err(err) ==> {
        &&& err matches FeedErrorOf::TooFewItems { minimum, created }
        &&& min_items == Some(minimum)
        &&& created < minimum
        &&& created == outcomes.filter_map(|o| as_item(o)).len()
    }
    &&& result matches Ok(ProcessView::Made { channel, headers: _, skipped }) ==> {
        &&& min_items matches Some(minimum) ==> minimum <= channel.items.len()
        &&& channel.items == outcomes.filter_map(|o| as_item(o))
        &&& skipped == outcomes.filter_map(|o| as_reason(o))
        &&& channel.items.len() + skipped.len() == outcomes.len()
        &&& forall|k: int|
            0 <= k < outcomes.len() ==> (match #[trigger] outcomes[k] {
                Ok(item) => outcomes.take(k).filter_map(|o| as_item(o)).len() < channel.items.len()
                    && channel.items[outcomes.take(k).filter_map(|o| as_item(o)).len() as int]
                    == item,
                Err(_) => true,
            })
    }
    &&& !(result matches Ok(ProcessView::NotModified))
}

/// What a feed holds is what `filter_map` takes from the outcomes.
proof fn lemma_sorted(outcomes: Outcomes)
    ensures
        made(outcomes) == outcomes.filter_map(|o| as_item(o)),
        failed(outcomes) == outcomes.filter_map(|o| as_reason(o)),
        made(outcomes).len() + failed(outcomes).len() == outcomes.len(),
    decreases outcomes.len(),
{
    if outcomes.len() > 0 {
        lemma_sorted(outcomes.drop_last());
        assert(made(outcomes) =~= outcomes.filter_map(|o| as_item(o)));
        assert(failed(outcomes) =~= outcomes.filter_map(|o| as_reason(o)));
    }
}

/// An item stands in a feed behind those that were made before it.
proof fn lemma_place_of_item(outcomes: Outcomes, k: int)
    requires
        0 <= k < outcomes.len(),
        outcomes[k] is Ok,
    ensures
        made(outcomes.take(k)).len() < made(outcomes).len(),
        made(outcomes)[made(outcomes.take(k)).len() as int] == outcomes[k]->Ok_0,
    decreases outcomes.len(),
{
    let front = outcomes.drop_last();
    if k == front.len() {
        assert(outcomes.take(k) =~= front);
    } else {
        assert(front.take(k) =~= outcomes.take(k));
        assert(front[k] == outcomes[k]);
        lemma_place_of_item(front, k);
    }
}

/// A feed that is finished holds every item that could be made, none twice and none left
/// out, in the order in which they were found: the item that comes of an element stands
/// behind exactly those that come of the elements before it. It carries the configured
/// title, its link and the headers. Where there are fewer items than the configuration
/// asks for, there is no feed, and the error says how many there are.
pub proof fn law_feed_holds_every_item(
    channel: ChannelConfig,
    link: Seq<char>,
    outcomes: Outcomes,
    headers: Option<Seq<char>>,
)
    ensures
        holds_all(
            finished(channel, link, outcomes, headers),
            outcomes,
            channel.config.min_items,
        ),
        finished(channel, link, outcomes, headers) matches Ok(
            ProcessView::Made { channel: feed, headers: kept, skipped: _ },
        ) ==> {
            &&& feed.title == channel.title@
            &&& feed.link == link
            &&& feed.generator == Some("rsspls version 0.11.3"@)
            &&& kept == headers
        },
{
    lemma_holds_all(channel, link, outcomes, headers);
}

/// A feed from an HTML page is made of all elements that the item selector matches, in
/// the order of the page: each either is an item of the feed or is accounted for. An
/// item's link is found by the configured selector or, without one, by that for
/// everything that links; and the page's own URL is what its links are resolved on.
pub proof fn law_every_element_becomes_an_item(
    style: PathStyle,
    channel: ChannelConfig,
    html: String,
    headers: Option<String>,
    filtered: Option<JsonPage>,
    page_url: Seq<char>,
    scheme: Seq<char>,
)
    requires
        channel.config.source is Html,
        parsed_url(channel.config.url@) == Ok::<(Seq<char>, Seq<char>), Seq<char>>(
            (page_url, scheme),
        ),
    ensures
        ({
            let result = feed_of(style, channel, FetchResult::Fetched { html, headers }, filtered);
            if css_valid(channel.config.item@) {
                holds_all(
                    result,
                    page_matches(html@, channel.config.item@).map_values(
                        |element: usize|
                            item_of(
                                style,
                                channel.config,
                                html@,
                                element,
                                match channel.config.link {
                                    Some(selector) => selector@,
                                    None => "a[href], area[href]"@,
                                },
                                page_url,
                            ),
                    ),
                    channel.config.min_items,
                )
            } else {
                result == Err::<ProcessView, FeedErrorOf<Seq<char>>>(
                    FeedErrorOf::InvalidSelector {
                        part: Part::Item,
                        selector: channel.config.item@,
                    },
                )
            }
        }),
{
    let outcomes = page_matches(html@, channel.config.item@).map_values(
        |element: usize|
            item_of(
                style,
                channel.config,
                html@,
                element,
                match channel.config.link {
                    Some(selector) => selector@,
                    None => "a[href], area[href]"@,
                },
                page_url,
            ),
    );
    assert(outcomes =~= outcomes_of(
        style,
        channel.config,
        html@,
        page_matches(html@, channel.config.item@),
        page_url,
    ));
    lemma_holds_all(channel, page_url, outcomes, opt_view(headers));
}

/// A feed that is finished holds all.
proof fn lemma_holds_all(
    channel: ChannelConfig,
    link: Seq<char>,
    outcomes: Outcomes,
    headers: Option<Seq<char>>,
)
    ensures
        holds_all(
            finished(channel, link, outcomes, headers),
            outcomes,
            channel.config.min_items,
        ),
{
    lemma_sorted(outcomes);
    assert forall|k: int| 0 <= k < outcomes.len() implies (match #[trigger] outcomes[k] {
        Ok(item) => outcomes.take(k).filter_map(|o| as_item(o)).len() < made(outcomes).len()
            && made(outcomes)[outcomes.take(k).filter_map(|o| as_item(o)).len() as int] == item,
        Err(_) => true,
    }) by {
        if outcomes[k] is Ok {
            lemma_sorted(outcomes.take(k));
            lemma_place_of_item(outcomes, k);
        }
    }
}

/// A feed from a JSON document is made of all values that the filter for items gave, in
/// their order: each either is an item of the feed or is accounted for. It fails where
/// the document is no JSON or that filter is not valid or fails.
pub proof fn law_every_value_becomes_an_item(
    style: PathStyle,
    channel: ChannelConfig,
    html: String,
    headers: Option<String>,
    page: JsonPage,
    page_url: Seq<char>,
    scheme: Seq<char>,
)
    requires
        channel.config.source is Json,
        channel.config.link is Some,
        parsed_url(channel.config.url@) == Ok::<(Seq<char>, Seq<char>), Seq<char>>(
            (page_url, scheme),
        ),
    ensures
        ({
            let result = feed_of(style, channel, FetchResult::Fetched { html, headers }, Some(page));
            match page {
                JsonPage::Items(items) => holds_all(
                    result,
                    items@.map_values(
                        |outcomes: Vec<RunOutcome>|
                            json_item_of(style, channel.config, outcomes@, page_url),
                    ),
                    channel.config.min_items,
                ),
                JsonPage::NotJson(cause) => result == Err::<ProcessView, FeedErrorOf<Seq<char>>>(
                    FeedErrorOf::InvalidJson { cause: cause@ },
                ),
                JsonPage::InvalidItemFilter => result == Err::<
                    ProcessView,
                    FeedErrorOf<Seq<char>>,
                >(
                    FeedErrorOf::InvalidFilter { part: Part::Item, filter: channel.config.item@ },
                ),
                JsonPage::ItemFilterFailed(cause) => result == Err::<
                    ProcessView,
                    FeedErrorOf<Seq<char>>,
                >(
                    FeedErrorOf::FilterFailed {
                        part: Part::Item,
                        filter: channel.config.item@,
                        cause: cause@,
                    },
                ),
            }
        }),
{
    match page {
        JsonPage::Items(items) => {
            let outcomes = items@.map_values(
                |outcomes: Vec<RunOutcome>|
                    json_item_of(style, channel.config, outcomes@, page_url),
            );
            assert(outcomes =~= json_outcomes(style, channel.config, items@, page_url));
            lemma_holds_all(channel, page_url, outcomes, opt_view(headers));
        },
        _ => {},
    }
}

/// A feed whose page is as it was is not made again, whatever its items are.
pub proof fn law_unmodified_page_gives_no_feed(
    style: PathStyle,
    channel: ChannelConfig,
    filtered: Option<JsonPage>,
)
    requires
        parsed_url(channel.config.url@) is Ok,
        channel.config.source is Json ==> channel.config.link is Some,
    ensures
        feed_possible(channel, FetchResult::NotModified, filtered),
        feed_of(style, channel, FetchResult::NotModified, filtered) == Ok::<
            ProcessView,
            FeedErrorOf<Seq<char>>,
        >(ProcessView::NotModified),
{
}

/// No feed is made of a JSON document without a link filter, whatever was fetched.
pub proof fn law_json_link_required(
    style: PathStyle,
    channel: ChannelConfig,
    fetched: FetchResult,
    filtered: Option<JsonPage>,
)
    requires
        channel.config.source is Json,
        channel.config.link is None,
    ensures
        feed_possible(channel, fetched, filtered),
        feed_of(style, channel, fetched, filtered) is Err,
        parsed_url(channel.config.url@) is Ok ==> feed_of(style, channel, fetched, filtered) == Err::<
            ProcessView,
            FeedErrorOf<Seq<char>>,
        >(FeedErrorOf::LinkRequired),
{
}

/// The source decides what a feed is made of: one from HTML does not depend on filters,
/// and one from JSON does not depend on the text that they were run on.
pub proof fn law_source_decides(
    style: PathStyle,
    channel: ChannelConfig,
    html: String,
    other: String,
    headers: Option<String>,
    filtered: Option<JsonPage>,
    others: Option<JsonPage>,
)
    ensures
        channel.config.source is Html ==> feed_of(
            style,
            channel,
            FetchResult::Fetched { html, headers },
            filtered,
        ) == feed_of(style, channel, FetchResult::Fetched { html, headers }, others),
        channel.config.source is Json ==> feed_of(
            style,
            channel,
            FetchResult::Fetched { html, headers },
            filtered,
        ) == feed_of(style, channel, FetchResult::Fetched { html: other, headers }, filtered),
{
}

/// A feed that is made of a page carries the configured title, the URL of the page
/// and the headers that came with it.
pub proof fn law_feed_names_its_page(
    style: PathStyle,
    channel: ChannelConfig,
    fetched: FetchResult,
    filtered: Option<JsonPage>,
)
    ensures
        feed_of(style, channel, fetched, filtered) matches Ok(
            ProcessView::Made { channel: feed, headers, skipped: _ },
        ) ==> {
            &&& feed.title == channel.title@
            &&& parsed_url(channel.config.url@) matches Ok(url) && feed.link == url.0
            &&& feed.generator == Some(GENERATOR@)
            &&& fetched matches FetchResult::Fetched { html: _, headers: given } && headers
                == opt_view(given)
        },
{
}

/// An item that cannot be made does not keep the others from the feed: a feed from an
/// HTML page fails only for its URL, its item selector or its number of items.
pub proof fn law_bad_items_are_skipped(
    style: PathStyle,
    channel: ChannelConfig,
    fetched: FetchResult,
    filtered: Option<JsonPage>,
)
    requires
        channel.config.source is Html,
    ensures
        feed_of(style, channel, fetched, filtered) matches Err(err) ==> {
            ||| err is InvalidUrl
            ||| err matches FeedErrorOf::InvalidSelector { part, selector: _ } && part is Item
            ||| err is TooFewItems
        },
        channel.config.min_items is None && parsed_url(channel.config.url@) is Ok && css_valid(
            channel.config.item@,
        ) ==> feed_of(style, channel, fetched, filtered) is Ok,
{
}

/// Tells whether to warn of a configuration: a minimum of zero items is one that no
/// feed can miss.
pub fn minimum_is_void(config: &FeedConfig) -> (r: bool)
    ensures
        r == (config.min_items == Some(0usize)),
{
    match config.min_items {
        Some(minimum) => minimum == 0,
        None => false,
    }
}

/// The view of a feed, and of what came of making one, has all that it is made of.
pub proof fn law_views_of_feeds(channel: Channel, result: ProcessResult)
    ensures
        channel@.title == channel.title@,
        channel@.link == channel.link@,
        channel@.generator == opt_view(channel.generator),
        channel@.items.len() == channel.items@.len(),
        forall|k: int|
            0 <= k < channel.items@.len() ==> channel@.items[k] == (#[trigger] channel.items@[k])@,
        result is NotModified <==> result@ is NotModified,
        result matches ProcessResult::Made { channel: feed, headers, skipped } ==> (
        result@ matches ProcessView::Made { channel: feed_view, headers: kept, skipped: reasons }
            && feed_view == (*feed)@ && kept == opt_view(headers) && reasons.len() == skipped@.len()
            && forall|k: int|
            0 <= k < skipped@.len() ==> reasons[k] == (#[trigger] skipped@[k])@),
{
}

/// No feed is made of a JSON document on which the filters were not run, and it can be
/// tried exactly where all its items can.
pub proof fn law_json_feed_tried_where_items_can(
    style: PathStyle,
    channel: ChannelConfig,
    html: String,
    headers: Option<String>,
    items: Vec<Vec<RunOutcome>>,
    page_url: Seq<char>,
    scheme: Seq<char>,
)
    requires
        channel.config.source is Json,
        channel.config.link is Some,
        parsed_url(channel.config.url@) == Ok::<(Seq<char>, Seq<char>), Seq<char>>(
            (page_url, scheme),
        ),
    ensures
        feed_of(style, channel, FetchResult::Fetched { html, headers }, None) == Err::<
            ProcessView,
            FeedErrorOf<Seq<char>>,
        >(FeedErrorOf::FilterNotRun),
        feed_possible(channel, FetchResult::Fetched { html, headers }, None),
        feed_possible(
            channel,
            FetchResult::Fetched { html, headers },
            Some(JsonPage::Items(items)),
        ) <==> forall|k: int|
            0 <= k < items@.len() ==> json_item_possible(
                channel.config,
                (#[trigger] items@[k])@,
                page_url,
            ),
{
}

/// A URL that is none is reported, whatever was fetched.
pub proof fn law_invalid_url_reported(
    style: PathStyle,
    channel: ChannelConfig,
    fetched: FetchResult,
    filtered: Option<JsonPage>,
)
    ensures
        parsed_url(channel.config.url@) matches Err(cause) ==> feed_of(
            style,
            channel,
            fetched,
            filtered,
        ) == Err::<ProcessView, FeedErrorOf<Seq<char>>>(
            FeedErrorOf::InvalidUrl { url: channel.config.url@, cause },
        ) && feed_possible(channel, fetched, filtered),
{
}

/// A feed can always be tried whose page is as it was, and so can one without a date.
pub proof fn law_feeds_without_dates_can_be_tried(
    channel: ChannelConfig,
    fetched: FetchResult,
    filtered: Option<JsonPage>,
)
    ensures
        channel.config.date is None ==> feed_possible(channel, fetched, filtered),
        fetched is NotModified ==> feed_possible(channel, fetched, filtered),
{
}

/// A feed from an HTML page can be tried exactly where all its elements can.
pub proof fn law_feed_tried_where_elements_can(
    channel: ChannelConfig,
    html: String,
    headers: Option<String>,
    filtered: Option<JsonPage>,
    page_url: Seq<char>,
    scheme: Seq<char>,
)
    requires
        channel.config.source is Html,
        css_valid(channel.config.item@),
        parsed_url(channel.config.url@) == Ok::<(Seq<char>, Seq<char>), Seq<char>>(
            (page_url, scheme),
        ),
    ensures
        feed_possible(channel, FetchResult::Fetched { html, headers }, filtered) <==> forall|k: int|
            0 <= k < page_matches(html@, channel.config.item@).len() ==> item_possible(
                channel.config,
                html@,
                #[trigger] page_matches(html@, channel.config.item@)[k],
                match channel.config.link {
                    Some(selector) => selector@,
                    None => "a[href], area[href]"@,
                },
                page_url,
            ),
{
}

/// The views of what came of items, and of what came of a feed, are those of each.
pub proof fn law_views_of_what_came(
    outcomes: Seq<Result<Item, FeedError>>,
    result: ProcessResult,
    err: FeedError,
)
    ensures
        outcome_views(outcomes).len() == outcomes.len(),
        forall|k: int|
            0 <= k < outcomes.len() ==> outcome_views(outcomes)[k] == item_view(
                #[trigger] outcomes[k],
            ),
        process_view(Ok(result)) == Ok::<ProcessView, FeedErrorOf<Seq<char>>>(result@),
        process_view(Err(err)) == Err::<ProcessView, FeedErrorOf<Seq<char>>>(err@),
{
}

} // verus!
