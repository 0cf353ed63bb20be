//! Feeds from JSON documents: which filters find their parts, and what is made of the
//! values that the filters give.
//!
//! A filter is a program that gives a stream of values, and may fail or never stop.
//! The filters are run elsewhere. Here is said which filter runs on what, and their
//! values become the parts of items.
use crate::config::{ChannelConfig, DateConfig, FeedConfig};
use crate::dates::{rfc2822_text, PubDate};
use crate::errors::{FeedError, FeedErrorOf, Part};
use crate::feed::{
    finish_feed, finished, outcome_views, process_view, Outcomes, ProcessResult, ProcessView,
};
use crate::item::{
    build_enclosure, build_item, built, date_view, description_from, description_view,
    enclosure_for, enclosure_result_view, item_view, non_empty, url_of, Enclosure, EnclosureOf,
    Item, ItemOf,
};
use crate::links::{href_rewritten, mime_of, resolve, resolved_url, rewrite_href_value};
use crate::paths::PathStyle;
use crate::text::{opt_view, trim_date, trimmed, views};
use vstd::prelude::*;
use vstd::seq_lib::lemma_flatten_concat;

verus! {

/// The filter that gives nothing, in place of a link filter that is not configured.
pub const NOTHING: &'static str = "empty";

/// What a filter runs on.
#[derive(Debug, Clone, Copy, PartialEq, Eq, Structural)]
pub enum FilterInput {
    /// The whole document.
    Document,
    /// A value that the filter for items gave.
    Item,
}

/// A filter to run. `S` is the type of text.
#[derive(Debug)]
pub struct FilterOf<S> {
    /// What it is for.
    pub part: Part,
    /// What it runs on.
    pub input: FilterInput,
    /// Whether all its values count, or the first only.
    pub all: bool,
    /// Its text.
    pub text: S,
}

/// A filter to run.
pub type Filter = FilterOf<String>;

impl View for FilterOf<String> {
    type V = FilterOf<Seq<char>>;

    open spec fn view(&self) -> FilterOf<Seq<char>> {
        FilterOf { part: self.part, input: self.input, all: self.all, text: self.text@ }
    }
}

/// A value that a filter gave.
#[derive(Debug)]
pub enum JsonValue {
    /// A string.
    Text(String),
    /// Another value, as JSON text.
    Other(String),
}

/// What came of running a filter.
#[derive(Debug)]
pub enum RunOutcome {
    /// It is not a valid filter.
    Invalid,
    /// It failed, with this message.
    Failed(String),
    /// It gave these values.
    Values(Vec<JsonValue>),
}

/// What came of reading a JSON document and running the filters on it.
#[derive(Debug)]
pub enum JsonPage {
    /// It is no JSON, for this reason.
    NotJson(String),
    /// The filter for items is not valid.
    InvalidItemFilter,
    /// The filter for items failed, with this message.
    ItemFilterFailed(String),
    /// It has items, and for each this came of the filters for an item, in their order.
    Items(Vec<Vec<RunOutcome>>),
}

/// The views of filters.
pub open spec fn filter_views(filters: Seq<Filter>) -> Seq<FilterOf<Seq<char>>> {
    filters.map_values(|filter: Filter| filter@)
}

/// The filter that finds the items of a feed. It runs on the whole document, and each
/// of its values is an item.
pub open spec fn document_filter_of(config: FeedConfig) -> FilterOf<Seq<char>> {
    FilterOf { part: Part::Item, input: FilterInput::Document, all: true, text: config.item@ }
}

/// The filter that finds the link of an item.
pub open spec fn link_filter_of(config: FeedConfig) -> Seq<char> {
    match config.link {
        Some(filter) => filter@,
        None => NOTHING@,
    }
}

/// A filter that runs on an item. All its values count for a summary, and the first for
/// any other part.
pub open spec fn item_filter(part: Part, text: Seq<char>) -> FilterOf<Seq<char>> {
    FilterOf { part, input: FilterInput::Item, all: part is Summary, text }
}

/// The filters that run on each item, in order: for the heading, for the link, for the
/// parts of the summary, and, where they are configured, for the date and the media file.
pub open spec fn item_filters_of(config: FeedConfig) -> Seq<FilterOf<Seq<char>>> {
    seq![
        item_filter(Part::Heading, config.heading@),
        item_filter(Part::Link, link_filter_of(config)),
    ] + views(config.summary@).map_values(|text: Seq<char>| item_filter(Part::Summary, text)) + (
    match config.date {
        Some(date) => seq![item_filter(Part::Date, date.selector@)],
        None => Seq::empty(),
    }) + (match config.media {
        Some(media) => seq![item_filter(Part::Media, media@)],
        None => Seq::empty(),
    })
}

/// Where the filter for the date stands among those for an item.
pub open spec fn date_place(config: FeedConfig) -> int {
    2 + config.summary@.len() as int
}

/// Where the filter for the media file stands among those for an item.
pub open spec fn media_place(config: FeedConfig) -> int {
    date_place(config) + (if config.date is Some {
        1int
    } else {
        0int
    })
}

/// The text of a value: a string is its own text, and any other value is its JSON
/// text.
pub open spec fn value_text(value: JsonValue) -> Seq<char> {
    match value {
        JsonValue::Text(text) => text@,
        JsonValue::Other(json) => json@,
    }
}

/// The texts of values, one after the other.
pub open spec fn joined_values(values: Seq<JsonValue>) -> Seq<char>
    decreases values.len(),
{
    if values.len() == 0 {
        Seq::empty()
    } else {
        joined_values(values.drop_last()) + value_text(values.last())
    }
}

/// The first value that a filter gave for a part of an item.
pub open spec fn first_text(part: Part, filter: Seq<char>, outcome: RunOutcome) -> Result<
    Option<Seq<char>>,
    FeedErrorOf<Seq<char>>,
> {
    match outcome {
        RunOutcome::Invalid => Err(FeedErrorOf::InvalidFilter { part, filter }),
        RunOutcome::Failed(cause) => Err(FeedErrorOf::FilterFailed { part, filter, cause: cause@ }),
        RunOutcome::Values(values) => Ok(
            if values@.len() > 0 {
                Some(value_text(values@[0]))
            } else {
                None
            },
        ),
    }
}

/// The first value that a filter gave for a part that an item must have.
pub open spec fn needed_text(part: Part, filter: Seq<char>, outcome: RunOutcome) -> Result<
    Seq<char>,
    FeedErrorOf<Seq<char>>,
> {
    match first_text(part, filter, outcome) {
        Err(err) => Err(err),
        Ok(None) => Err(FeedErrorOf::NoOutput { part, filter }),
        Ok(Some(text)) => Ok(text),
    }
}

/// What one filter adds to a summary: all its values. One that is not valid adds
/// nothing.
pub open spec fn summary_text(filter: Seq<char>, outcome: RunOutcome) -> Result<
    Seq<char>,
    FeedErrorOf<Seq<char>>,
> {
    match outcome {
        RunOutcome::Invalid => Ok(Seq::empty()),
        RunOutcome::Failed(cause) => Err(
            FeedErrorOf::FilterFailed { part: Part::Summary, filter, cause: cause@ },
        ),
        RunOutcome::Values(values) => Ok(joined_values(values@)),
    }
}

/// What the filters for a summary give, one after the other.
pub open spec fn joined_summary(filters: Seq<Seq<char>>, outcomes: Seq<RunOutcome>) -> Result<
    Seq<char>,
    FeedErrorOf<Seq<char>>,
>
    decreases filters.len(),
{
    if filters.len() == 0 {
        Ok(Seq::empty())
    } else {
        match joined_summary(filters.drop_last(), outcomes.drop_last()) {
            Err(err) => Err(err),
            Ok(front) => match summary_text(filters.last(), outcomes.last()) {
                Err(err) => Err(err),
                Ok(text) => Ok(front + text),
            },
        }
    }
}

/// The description that the filters for a summary give.
pub open spec fn json_description(filters: Seq<Seq<char>>, outcomes: Seq<RunOutcome>) -> Result<
    Option<Seq<char>>,
    FeedErrorOf<Seq<char>>,
> {
    match joined_summary(filters, outcomes) {
        Ok(text) => Ok(non_empty(text)),
        Err(err) => Err(err),
    }
}

/// The date that a filter gives.
pub open spec fn json_date(date: DateConfig, outcome: RunOutcome) -> Result<
    Option<PubDate>,
    FeedErrorOf<Seq<char>>,
> {
    match first_text(Part::Date, date.selector@, outcome) {
        Err(err) => Err(err),
        Ok(None) => Ok(None),
        Ok(Some(text)) => match date.parsed(trimmed(text)) {
            Ok(d) => Ok(Some(d)),
            Err(_) => Ok(None),
        },
    }
}

/// The date of an item, where one is configured.
pub open spec fn json_item_date(config: FeedConfig, outcomes: Seq<RunOutcome>) -> Result<
    Option<PubDate>,
    FeedErrorOf<Seq<char>>,
> {
    match config.date {
        Some(date) => json_date(date, outcomes[date_place(config)]),
        None => Ok(None),
    }
}

/// Whether the date of an item can be read and, if there is one, written.
pub open spec fn json_date_usable(config: FeedConfig, outcomes: Seq<RunOutcome>) -> bool {
    config.date matches Some(date) ==> {
        let outcome = outcomes[date_place(config)];
        &&& first_text(Part::Date, date.selector@, outcome) matches Ok(Some(text))
            ==> date.can_parse(trimmed(text))
        &&& json_date(date, outcome) matches Ok(Some(d)) ==> d.formattable()
    }
}

/// The media file of an item, where one is configured.
pub open spec fn json_enclosure(
    style: PathStyle,
    config: FeedConfig,
    outcomes: Seq<RunOutcome>,
    page_url: Seq<char>,
) -> Result<Option<EnclosureOf<Seq<char>>>, FeedErrorOf<Seq<char>>> {
    match config.media {
        None => Ok(None),
        Some(filter) => match needed_text(Part::Media, filter@, outcomes[media_place(config)]) {
            Err(err) => Err(err),
            Ok(url) => match enclosure_for(style, resolved_url(page_url, url)) {
                Err(err) => Err(err),
                Ok(enclosure) => Ok(Some(enclosure)),
            },
        },
    }
}

/// What an item starts from: its title, its link as rewritten and its description.
pub open spec fn json_start(
    config: FeedConfig,
    outcomes: Seq<RunOutcome>,
    page_url: Seq<char>,
) -> Result<(Seq<char>, Seq<char>, Option<Seq<char>>), FeedErrorOf<Seq<char>>> {
    if outcomes.len() != item_filters_of(config).len() {
        Err(FeedErrorOf::FilterNotRun)
    } else {
        match needed_text(Part::Heading, config.heading@, outcomes[0]) {
            Err(err) => Err(err),
            Ok(title) => match needed_text(Part::Link, link_filter_of(config), outcomes[1]) {
                Err(err) => Err(err),
                Ok(link) => match json_description(
                    views(config.summary@),
                    outcomes.subrange(2, date_place(config)),
                ) {
                    Err(err) => Err(err),
                    Ok(description) => Ok((title, href_rewritten(page_url, link), description)),
                },
            },
        }
    }
}

/// The item for what came of the filters for an item.
pub open spec fn json_item_of(
    style: PathStyle,
    config: FeedConfig,
    outcomes: Seq<RunOutcome>,
    page_url: Seq<char>,
) -> Result<ItemOf<Seq<char>>, FeedErrorOf<Seq<char>>> {
    match json_start(config, outcomes, page_url) {
        Err(err) => Err(err),
        Ok(start) => match json_item_date(config, outcomes) {
            Err(err) => Err(err),
            Ok(date) => match json_enclosure(style, config, outcomes, page_url) {
                Err(err) => Err(err),
                Ok(enclosure) => Ok(
                    built(
                        start.0,
                        start.1,
                        url_of(resolved_url(page_url, start.1)),
                        date,
                        start.2,
                        enclosure,
                    ),
                ),
            },
        },
    }
}

/// Whether an item can be made of what came of the filters.
pub open spec fn json_item_possible(
    config: FeedConfig,
    outcomes: Seq<RunOutcome>,
    page_url: Seq<char>,
) -> bool {
    json_start(config, outcomes, page_url) is Ok ==> json_date_usable(config, outcomes)
}

/// What comes of the items of a document.
pub open spec fn json_outcomes(
    style: PathStyle,
    config: FeedConfig,
    items: Seq<Vec<RunOutcome>>,
    page_url: Seq<char>,
) -> Outcomes {
    items.map_values(|item: Vec<RunOutcome>| json_item_of(style, config, item@, page_url))
}

/// The feed for a document.
pub open spec fn json_page_feed(
    style: PathStyle,
    channel: ChannelConfig,
    link: Seq<char>,
    page: JsonPage,
    headers: Option<Seq<char>>,
) -> Result<ProcessView, FeedErrorOf<Seq<char>>> {
    match page {
        JsonPage::NotJson(cause) => Err(FeedErrorOf::InvalidJson { cause: cause@ }),
        JsonPage::InvalidItemFilter => Err(
            FeedErrorOf::InvalidFilter { part: Part::Item, filter: channel.config.item@ },
        ),
        JsonPage::ItemFilterFailed(cause) => Err(
            FeedErrorOf::FilterFailed {
                part: Part::Item,
                filter: channel.config.item@,
                cause: cause@,
            },
        ),
        JsonPage::Items(items) => finished(
            channel,
            link,
            json_outcomes(style, channel.config, items@, link),
            headers,
        ),
    }
}

/// Whether items can be made of what came of the filters for them.
pub open spec fn json_items_possible(
    config: FeedConfig,
    items: Seq<Vec<RunOutcome>>,
    page_url: Seq<char>,
) -> bool {
    forall|k: int|
        0 <= k < items.len() ==> json_item_possible(config, (#[trigger] items[k])@, page_url)
}

/// Whether the items of a document can be made.
pub open spec fn json_page_possible(config: FeedConfig, page: JsonPage, page_url: Seq<char>) -> bool {
    page matches JsonPage::Items(items) ==> json_items_possible(config, items@, page_url)
}

/// The filter that finds the items of a feed.
pub fn document_filter(config: &FeedConfig) -> (r: Filter)
    ensures
        r@ == document_filter_of(*config),
{
    FilterOf {
        part: Part::Item,
        input: FilterInput::Document,
        all: true,
        text: config.item.clone(),
    }
}

/// Adds a filter that runs on an item.
fn add_filter(filters: &mut Vec<Filter>, part: Part, text: &str)
    ensures
        filter_views(final(filters)@) == filter_views(old(filters)@).push(item_filter(part, text@)),
{
    filters.push(
        FilterOf {
            part,
            input: FilterInput::Item,
            all: part == Part::Summary,
            text: text.to_owned(),
        },
    );
    assert(filter_views(filters@) =~= filter_views(old(filters)@).push(item_filter(part, text@)));
}

/// The filters to run on each item, in order.
pub fn item_filters(config: &FeedConfig) -> (r: Vec<Filter>)
    ensures
        filter_views(r@) == item_filters_of(*config),
{
    let mut filters: Vec<Filter> = Vec::new();
    add_filter(&mut filters, Part::Heading, config.heading.as_str());
    match &config.link {
        Some(filter) => {
            add_filter(&mut filters, Part::Link, filter.as_str());
        },
        None => {
            add_filter(&mut filters, Part::Link, NOTHING);
        },
    }
    let ghost first = seq![
        item_filter(Part::Heading, config.heading@),
        item_filter(Part::Link, link_filter_of(*config)),
    ];
    let ghost summary = views(config.summary@).map_values(
        |text: Seq<char>| item_filter(Part::Summary, text),
    );
    assert(filter_views(filters@) =~= first + summary.take(0));
    for i in 0..config.summary.len()
        invariant
            summary == views(config.summary@).map_values(
                |text: Seq<char>| item_filter(Part::Summary, text),
            ),
            filter_views(filters@) == first + summary.take(i as int),
    {
        add_filter(&mut filters, Part::Summary, config.summary[i].as_str());
        assert(filter_views(filters@) =~= first + summary.take(i + 1));
    }
    assert(summary.take(summary.len() as int) =~= summary);
    match &config.date {
        Some(date) => {
            add_filter(&mut filters, Part::Date, date.selector());
        },
        None => {},
    }
    match &config.media {
        Some(filter) => {
            add_filter(&mut filters, Part::Media, filter.as_str());
        },
        None => {},
    }
    assert(filter_views(filters@) =~= item_filters_of(*config));
    filters
}

/// The text of a value.
pub fn text_of_value(value: &JsonValue) -> (r: String)
    ensures
        r@ == value_text(*value),
{
    match value {
        JsonValue::Text(text) => text.clone(),
        JsonValue::Other(json) => json.clone(),
    }
}

/// Takes the first value that a filter gave for a part of an item.
fn take_first(part: Part, filter: &str, outcome: &RunOutcome) -> (r: Result<
    Option<String>,
    FeedError,
>)
    ensures
        description_view(r) == first_text(part, filter@, *outcome),
{
    match outcome {
        RunOutcome::Invalid => Err(FeedErrorOf::InvalidFilter { part, filter: filter.to_owned() }),
        RunOutcome::Failed(cause) => Err(
            FeedErrorOf::FilterFailed { part, filter: filter.to_owned(), cause: cause.clone() },
        ),
        RunOutcome::Values(values) => Ok(
            if values.len() > 0 {
                Some(text_of_value(&values[0]))
            } else {
                None
            },
        ),
    }
}

/// Takes the first value that a filter gave for a part that an item must have.
pub fn take_needed(part: Part, filter: &str, outcome: &RunOutcome) -> (r: Result<String, FeedError>)
    ensures
        (match r {
            Ok(text) => Ok(text@),
            Err(err) => Err(err@),
        }) == needed_text(part, filter@, *outcome),
{
    match take_first(part, filter, outcome) {
        Err(err) => Err(err),
        Ok(None) => Err(FeedErrorOf::NoOutput { part, filter: filter.to_owned() }),
        Ok(Some(text)) => Ok(text),
    }
}

/// Joins the texts of values.
fn join_values(values: &Vec<JsonValue>) -> (r: String)
    ensures
        r@ == joined_values(values@),
{
    let mut text = String::new();
    for i in 0..values.len()
        invariant
            text@ == joined_values(values@.take(i as int)),
    {
        assert(values@.take(i + 1).drop_last() =~= values@.take(i as int));
        text = text.concat(text_of_value(&values[i]).as_str());
    }
    assert(values@.take(values.len() as int) =~= values@);
    text
}

/// Where some filters of a summary fail, so do more.
proof fn lemma_summary_fails(filters: Seq<Seq<char>>, outcomes: Seq<RunOutcome>, count: int)
    requires
        filters.len() == outcomes.len(),
        0 <= count <= filters.len(),
        joined_summary(filters.take(count), outcomes.take(count)) is Err,
    ensures
        joined_summary(filters, outcomes) == joined_summary(
            filters.take(count),
            outcomes.take(count),
        ),
    decreases filters.len(),
{
    if count == filters.len() {
        assert(filters.take(count) =~= filters);
        assert(outcomes.take(count) =~= outcomes);
    } else {
        assert(filters.drop_last().take(count) =~= filters.take(count));
        assert(outcomes.drop_last().take(count) =~= outcomes.take(count));
        lemma_summary_fails(filters.drop_last(), outcomes.drop_last(), count);
    }
}

/// Makes the description of an item of what came of the filters for its summary, which
/// stand behind the first two.
fn describe(config: &FeedConfig, outcomes: &Vec<RunOutcome>) -> (r: Result<Option<String>, FeedError>)
    requires
        date_place(*config) <= outcomes@.len(),
    ensures
        description_view(r) == json_description(
            views(config.summary@),
            outcomes@.subrange(2, date_place(*config)),
        ),
{
    let ghost filters = views(config.summary@);
    let ghost parts = outcomes@.subrange(2, date_place(*config));
    let mut description = String::new();
    let count: usize = outcomes.len();
    for i in 0..config.summary.len()
        invariant
            count == outcomes@.len(),
            date_place(*config) <= count,
            filters == views(config.summary@),
            parts == outcomes@.subrange(2, date_place(*config)),
            joined_summary(filters.take(i as int), parts.take(i as int)) == Ok::<
                Seq<char>,
                FeedErrorOf<Seq<char>>,
            >(description@),
    {
        assert(filters.take(i + 1).drop_last() =~= filters.take(i as int));
        assert(parts.take(i + 1).drop_last() =~= parts.take(i as int));
        assert(parts.take(i + 1).last() == outcomes@[2 + i]);
        match &outcomes[2 + i] {
            RunOutcome::Invalid => {
                assert(description@ + Seq::<char>::empty() =~= description@);
            },
            RunOutcome::Failed(cause) => {
                proof {
                    lemma_summary_fails(filters, parts, i + 1);
                }
                return Err(
                    FeedErrorOf::FilterFailed {
                        part: Part::Summary,
                        filter: config.summary[i].clone(),
                        cause: cause.clone(),
                    },
                );
            },
            RunOutcome::Values(values) => {
                description = description.concat(join_values(values).as_str());
            },
        }
    }
    assert(filters.take(filters.len() as int) =~= filters);
    assert(parts.take(parts.len() as int) =~= parts);
    Ok(description_from(description))
}

/// Finds what an item starts from: its title, its link as rewritten and its
/// description.
fn start_json_item(config: &FeedConfig, outcomes: &Vec<RunOutcome>, page_url: &str) -> (r: Result<
    (String, String, Option<String>),
    FeedError,
>)
    ensures
        (match r {
            Ok(start) => Ok((start.0@, start.1@, opt_view(start.2))),
            Err(err) => Err(err@),
        }) == json_start(*config, outcomes@, page_url@),
{
    let filters = item_filters(config);
    assert(filters@.len() == filter_views(filters@).len());
    if outcomes.len() != filters.len() {
        return Err(FeedErrorOf::FilterNotRun);
    }
    let link_filter = match &config.link {
        Some(filter) => filter.as_str(),
        None => NOTHING,
    };
    match take_needed(Part::Heading, config.heading.as_str(), &outcomes[0]) {
        Err(err) => Err(err),
        Ok(title) => match take_needed(Part::Link, link_filter, &outcomes[1]) {
            Err(err) => Err(err),
            Ok(link) => match describe(config, outcomes) {
                Err(err) => Err(err),
                Ok(description) => Ok(
                    (title, rewrite_href_value(link.as_str(), page_url), description),
                ),
            },
        },
    }
}

/// Reads the date of an item.
fn read_date(config: &FeedConfig, outcomes: &Vec<RunOutcome>) -> (r: Result<
    Option<PubDate>,
    FeedError,
>)
    requires
        outcomes@.len() == item_filters_of(*config).len(),
        json_date_usable(*config, outcomes@),
    ensures
        date_view(r) == json_item_date(*config, outcomes@),
{
    let count: usize = outcomes.len();
    assert(count == outcomes@.len());
    match &config.date {
        Some(date) => match take_first(
            Part::Date,
            date.selector(),
            &outcomes[2 + config.summary.len()],
        ) {
            Err(err) => Err(err),
            Ok(None) => Ok(None),
            Ok(Some(text)) => match date.parse(trim_date(text.as_str())) {
                Ok(d) => Ok(Some(d)),
                Err(_) => Ok(None),
            },
        },
        None => Ok(None),
    }
}

/// Tells whether the date of an item can be read and, if there is one, written.
fn has_usable_json_date(config: &FeedConfig, outcomes: &Vec<RunOutcome>) -> (r: bool)
    requires
        outcomes@.len() == item_filters_of(*config).len(),
    ensures
        r == json_date_usable(*config, outcomes@),
{
    let count: usize = outcomes.len();
    assert(count == outcomes@.len());
    match &config.date {
        Some(date) => match take_first(
            Part::Date,
            date.selector(),
            &outcomes[2 + config.summary.len()],
        ) {
            Ok(Some(text)) => match date.try_parse(trim_date(text.as_str())) {
                None => false,
                Some(Ok(d)) => d.is_formattable(),
                Some(Err(_)) => true,
            },
            _ => true,
        },
        None => true,
    }
}

/// Makes the media file of an item.
fn make_enclosure(
    style: PathStyle,
    config: &FeedConfig,
    outcomes: &Vec<RunOutcome>,
    page_url: &str,
) -> (r: Result<Option<Enclosure>, FeedError>)
    requires
        outcomes@.len() == item_filters_of(*config).len(),
    ensures
        enclosure_result_view(r) == json_enclosure(style, *config, outcomes@, page_url@),
{
    match &config.media {
        None => Ok(None),
        Some(filter) => match take_needed(
            Part::Media,
            filter.as_str(),
            &outcomes[outcomes.len() - 1],
        ) {
            Err(err) => Err(err),
            Ok(url) => match build_enclosure(style, resolve(page_url, url.as_str())) {
                Err(err) => Err(err),
                Ok(enclosure) => Ok(Some(enclosure)),
            },
        },
    }
}

/// Makes an item of what came of the filters for an item.
pub fn process_json_item(
    style: PathStyle,
    config: &FeedConfig,
    outcomes: &Vec<RunOutcome>,
    page_url: &str,
) -> (r: Result<Item, FeedError>)
    requires
        json_item_possible(*config, outcomes@, page_url@),
    ensures
        item_view(r) == json_item_of(style, *config, outcomes@, page_url@),
{
    let start = match start_json_item(config, outcomes, page_url) {
        Err(err) => {
            return Err(err);
        },
        Ok(start) => start,
    };
    let date = match read_date(config, outcomes) {
        Err(err) => {
            return Err(err);
        },
        Ok(date) => date,
    };
    let enclosure = match make_enclosure(style, config, outcomes, page_url) {
        Err(err) => {
            return Err(err);
        },
        Ok(enclosure) => enclosure,
    };
    let resolved = resolve(page_url, start.1.as_str());
    Ok(build_item(start.0, start.1, resolved, date, start.2, enclosure))
}

/// Tells whether items can be made of what came of the filters for them.
fn can_process_json_items(config: &FeedConfig, items: &Vec<Vec<RunOutcome>>, page_url: &str) -> (r:
    bool)
    ensures
        r == json_items_possible(*config, items@, page_url@),
{
    for i in 0..items.len()
        invariant
            forall|k: int|
                0 <= k < i ==> json_item_possible(*config, (#[trigger] items@[k])@, page_url@),
    {
        if start_json_item(config, &items[i], page_url).is_ok() && !has_usable_json_date(
            config,
            &items[i],
        ) {
            assert(!json_item_possible(*config, items@[i as int]@, page_url@));
            return false;
        }
    }
    true
}

/// Makes the items of a document.
fn process_json_items(
    style: PathStyle,
    config: &FeedConfig,
    items: &Vec<Vec<RunOutcome>>,
    page_url: &str,
) -> (r: Vec<Result<Item, FeedError>>)
    requires
        json_items_possible(*config, items@, page_url@),
    ensures
        outcome_views(r@) == json_outcomes(style, *config, items@, page_url@),
{
    let mut outcomes: Vec<Result<Item, FeedError>> = Vec::new();
    for i in 0..items.len()
        invariant
            json_items_possible(*config, items@, page_url@),
            outcomes@.len() == i,
            forall|k: int|
                0 <= k < i ==> item_view(#[trigger] outcomes@[k]) == json_item_of(
                    style,
                    *config,
                    items@[k]@,
                    page_url@,
                ),
    {
        outcomes.push(process_json_item(style, config, &items[i], page_url));
    }
    assert(outcome_views(outcomes@) =~= json_outcomes(style, *config, items@, page_url@));
    outcomes
}

/// Makes a feed of a document. `None` where an item has a date that cannot be read or
/// that a feed cannot hold.
pub(crate) fn process_json_page(
    style: PathStyle,
    channel: &ChannelConfig,
    link: String,
    page: JsonPage,
    headers: Option<String>,
) -> (r: Option<Result<ProcessResult, FeedError>>)
    ensures
        r is Some <==> json_page_possible(channel.config, page, link@),
        r matches Some(result) ==> process_view(result) == json_page_feed(
            style,
            *channel,
            link@,
            page,
            opt_view(headers),
        ),
{
    let config = &channel.config;
    match page {
        JsonPage::NotJson(cause) => Some(Err(FeedErrorOf::InvalidJson { cause })),
        JsonPage::InvalidItemFilter => Some(
            Err(FeedErrorOf::InvalidFilter { part: Part::Item, filter: config.item.clone() }),
        ),
        JsonPage::ItemFilterFailed(cause) => Some(
            Err(FeedErrorOf::FilterFailed { part: Part::Item, filter: config.item.clone(), cause }),
        ),
        JsonPage::Items(items) => {
            if !can_process_json_items(config, &items, link.as_str()) {
                return None;
            }
            let outcomes = process_json_items(style, config, &items, link.as_str());
            Some(finish_feed(channel, link, outcomes, headers))
        },
    }
}

/// Only the filter for items runs on the document. All others run on an item, and each
/// is the one that is configured for its part.
pub proof fn law_filters_run_on_items(config: FeedConfig)
    ensures
        document_filter_of(config).input is Document,
        forall|k: int|
            0 <= k < item_filters_of(config).len() ==> (#[trigger] item_filters_of(config)[k]).input
                is Item,
        item_filters_of(config).len() == media_place(config) + (if config.media is Some {
            1int
        } else {
            0int
        }),
        item_filters_of(config)[0].text == config.heading@,
        config.link matches Some(link) ==> item_filters_of(config)[1].text == link@,
        forall|k: int|
            0 <= k < config.summary@.len() ==> item_filters_of(config)[2 + k].text
                == #[trigger] config.summary@[k]@,
        config.date matches Some(date) ==> item_filters_of(config)[date_place(config)].text
            == date.selector@,
        config.media matches Some(media) ==> item_filters_of(config)[media_place(config)].text
            == media@,
{
    assert forall|k: int| 0 <= k < config.summary@.len() implies item_filters_of(config)[2 + k].text
        == #[trigger] config.summary@[k]@ by {
        assert(views(config.summary@)[k] == config.summary@[k]@);
    }
}

/// An item for which a configured filter was not run is never made.
pub proof fn law_no_item_without_all_filters(
    style: PathStyle,
    config: FeedConfig,
    outcomes: Seq<RunOutcome>,
    page_url: Seq<char>,
)
    requires
        outcomes.len() != item_filters_of(config).len(),
    ensures
        json_item_of(style, config, outcomes, page_url) == Err::<
            ItemOf<Seq<char>>,
            FeedErrorOf<Seq<char>>,
        >(FeedErrorOf::FilterNotRun),
{
}

/// A value that is no string counts as its JSON text wherever a string would count
/// as itself: exchanging the one for the other changes no item.
pub proof fn law_values_count_as_text(
    style: PathStyle,
    config: FeedConfig,
    outcomes: Seq<RunOutcome>,
    others: Seq<RunOutcome>,
    page_url: Seq<char>,
)
    requires
        outcomes.len() == others.len(),
        forall|k: int| 0 <= k < outcomes.len() ==> same_texts(#[trigger] outcomes[k], others[k]),
    ensures
        json_item_of(style, config, outcomes, page_url) == json_item_of(
            style,
            config,
            others,
            page_url,
        ),
{
    if outcomes.len() == item_filters_of(config).len() {
        let end = date_place(config);
        let a = outcomes.subrange(2, end);
        let b = others.subrange(2, end);
        assert forall|k: int| 0 <= k < a.len() implies same_texts(#[trigger] a[k], b[k]) by {
            assert(same_texts(outcomes[2 + k], others[2 + k]));
        }
        lemma_same_summary(views(config.summary@), a, b);
        assert(same_texts(outcomes[0], others[0]));
        assert(same_texts(outcomes[1], others[1]));
        if config.date is Some {
            assert(same_texts(outcomes[end], others[end]));
        }
        if config.media is Some {
            assert(same_texts(outcomes[media_place(config)], others[media_place(config)]));
        }
    }
}

/// Whether two runs of a filter differ in nothing but which of their values are
/// strings.
pub open spec fn same_texts(a: RunOutcome, b: RunOutcome) -> bool {
    match (a, b) {
        (RunOutcome::Invalid, RunOutcome::Invalid) => true,
        (RunOutcome::Failed(x), RunOutcome::Failed(y)) => x@ == y@,
        (RunOutcome::Values(x), RunOutcome::Values(y)) => {
            &&& x@.len() == y@.len()
            &&& forall|k: int|
                0 <= k < x@.len() ==> value_text(#[trigger] x@[k]) == value_text(y@[k])
        },
        _ => false,
    }
}

/// Values with the same texts are joined to the same text.
proof fn lemma_same_values(a: Seq<JsonValue>, b: Seq<JsonValue>)
    requires
        a.len() == b.len(),
        forall|k: int| 0 <= k < a.len() ==> value_text(#[trigger] a[k]) == value_text(b[k]),
    ensures
        joined_values(a) == joined_values(b),
    decreases a.len(),
{
    if a.len() > 0 {
        lemma_same_values(a.drop_last(), b.drop_last());
        assert(value_text(a[a.len() - 1]) == value_text(b[a.len() - 1]));
    }
}

/// Runs with the same texts give the same summary.
proof fn lemma_same_summary(filters: Seq<Seq<char>>, a: Seq<RunOutcome>, b: Seq<RunOutcome>)
    requires
        a.len() == b.len(),
        a.len() == filters.len(),
        forall|k: int| 0 <= k < a.len() ==> same_texts(#[trigger] a[k], b[k]),
    ensures
        joined_summary(filters, a) == joined_summary(filters, b),
    decreases a.len(),
{
    if a.len() > 0 {
        assert forall|k: int| 0 <= k < a.drop_last().len() implies same_texts(
            #[trigger] a.drop_last()[k],
            b.drop_last()[k],
        ) by {
            assert(same_texts(a[k], b[k]));
        }
        lemma_same_summary(filters.drop_last(), a.drop_last(), b.drop_last());
        assert(same_texts(a[a.len() - 1], b[a.len() - 1]));
        match (a.last(), b.last()) {
            (RunOutcome::Values(x), RunOutcome::Values(y)) => {
                lemma_same_values(x@, y@);
            },
            _ => {},
        }
    }
}

/// The text that a value counts as.
pub open spec fn counts_as(value: JsonValue) -> Seq<char> {
    match value {
        JsonValue::Text(text) => text@,
        JsonValue::Other(json) => json@,
    }
}

/// Whether a filter gave some value, and the first counts as a text.
pub open spec fn gave(outcome: RunOutcome, text: Seq<char>) -> bool {
    outcome matches RunOutcome::Values(values) && values@.len() > 0 && counts_as(values@[0]) == text
}

/// Whether a filter gave no value.
pub open spec fn gave_nothing(outcome: RunOutcome) -> bool {
    outcome matches RunOutcome::Values(values) && values@.len() == 0
}

/// The texts of all values that a filter gave, one after the other. One that is not
/// valid gave none.
pub open spec fn all_given(outcome: RunOutcome) -> Seq<char> {
    match outcome {
        RunOutcome::Values(values) => values@.map_values(
            |value: JsonValue| counts_as(value),
        ).flatten(),
        _ => Seq::empty(),
    }
}

/// The texts of all values that several filters gave, one after the other.
pub open spec fn given_by_all(outcomes: Seq<RunOutcome>) -> Seq<char> {
    outcomes.map_values(|outcome: RunOutcome| all_given(outcome)).flatten()
}

/// Whether none of some filters failed.
pub open spec fn none_failed(outcomes: Seq<RunOutcome>) -> bool {
    forall|k: int| 0 <= k < outcomes.len() ==> !((#[trigger] outcomes[k]) is Failed)
}

/// Joined values are their texts, one after the other.
proof fn lemma_joined_values(values: Seq<JsonValue>)
    ensures
        joined_values(values) == values.map_values(|value: JsonValue| counts_as(value)).flatten(),
    decreases values.len(),
{
    let text = |value: JsonValue| counts_as(value);
    if values.len() > 0 {
        let front = values.drop_last();
        lemma_joined_values(front);
        assert(values.map_values(text) =~= front.map_values(text).push(counts_as(values.last())));
        front.map_values(text).lemma_flatten_push(counts_as(values.last()));
        assert(joined_values(values) =~= values.map_values(text).flatten());
    } else {
        assert(values.map_values(text) =~= Seq::empty());
        assert(joined_values(values) =~= values.map_values(text).flatten());
    }
}

/// A summary is joined where no filter failed, and is what the filters gave.
proof fn lemma_joined_summary(filters: Seq<Seq<char>>, outcomes: Seq<RunOutcome>)
    requires
        filters.len() == outcomes.len(),
    ensures
        joined_summary(filters, outcomes) is Ok <==> none_failed(outcomes),
        joined_summary(filters, outcomes) matches Ok(text) ==> text == given_by_all(outcomes),
        joined_summary(filters, outcomes) matches Err(err) ==> exists|k: int|
            failed_first(filters, outcomes, k, err),
    decreases filters.len(),
{
    let given = |outcome: RunOutcome| all_given(outcome);
    if filters.len() > 0 {
        let front = outcomes.drop_last();
        let last = outcomes.last();
        assert(outcomes[outcomes.len() - 1] == last);
        lemma_joined_summary(filters.drop_last(), front);
        assert(outcomes.map_values(given) =~= front.map_values(given).push(all_given(last)));
        front.map_values(given).lemma_flatten_push(all_given(last));
        match last {
            RunOutcome::Values(values) => {
                lemma_joined_values(values@);
            },
            _ => {},
        }
        if none_failed(outcomes) {
            assert forall|k: int| 0 <= k < front.len() implies !((#[trigger] front[k])
                is Failed) by {
                assert(outcomes[k] == front[k]);
            }
        }
        if none_failed(front) {
            assert forall|k: int| 0 <= k < outcomes.len() && k < front.len() implies !((
            #[trigger] outcomes[k]) is Failed) by {
                assert(outcomes[k] == front[k]);
            }
            if last is Failed {
                assert(failed_first(
                    filters,
                    outcomes,
                    outcomes.len() - 1,
                    joined_summary(filters, outcomes)->Err_0,
                ));
            }
        } else {
            let err = joined_summary(filters.drop_last(), front)->Err_0;
            let k = choose|k: int| failed_first(filters.drop_last(), front, k, err);
            assert(outcomes[k] == front[k]);
            assert forall|j: int| 0 <= j < k implies !((#[trigger] outcomes[j]) is Failed) by {
                assert(outcomes[j] == front[j]);
            }
            assert(failed_first(filters, outcomes, k, err));
        }
    } else {
        assert(outcomes.map_values(given) =~= Seq::empty());
        assert(given_by_all(outcomes) =~= Seq::empty());
    }
}

/// Whether the filter at a place is the first that failed, and an error says so.
pub open spec fn failed_first(
    filters: Seq<Seq<char>>,
    outcomes: Seq<RunOutcome>,
    k: int,
    err: FeedErrorOf<Seq<char>>,
) -> bool {
    &&& 0 <= k < outcomes.len()
    &&& forall|j: int| 0 <= j < k ==> !((#[trigger] outcomes[j]) is Failed)
    &&& outcomes[k] matches RunOutcome::Failed(cause) && err == (FeedErrorOf::FilterFailed::<
        Seq<char>,
    > { part: Part::Summary, filter: filters[k], cause: cause@ })
}

/// The title of an item is the text of the first value that the heading filter gave. Its
/// identifier is what the first value of the link filter leads to on the URL of the
/// document, or that text as it stands where it leads nowhere; and its link is what that
/// leads to.
pub proof fn law_json_title_and_link(
    style: PathStyle,
    config: FeedConfig,
    outcomes: Seq<RunOutcome>,
    page_url: Seq<char>,
)
    ensures
        json_item_of(style, config, outcomes, page_url) matches Ok(made) ==> {
            &&& outcomes.len() >= 2
            &&& made.title matches Some(title) && gave(outcomes[0], title)
            &&& outcomes[1] matches RunOutcome::Values(links) && links@.len() > 0
            &&& made.guid matches Some(guid) && !guid.permalink && guid.value == (
            match resolved_url(page_url, counts_as((outcomes[1]->Values_0)@[0])) {
                Ok(url) => url.0,
                Err(_) => counts_as((outcomes[1]->Values_0)@[0]),
            })
            &&& made.link == (match resolved_url(page_url, made.guid->0.value) {
                Ok(url) => Some(url.0),
                Err(_) => None,
            })
        },
{
}

/// The description of an item is what the summary filters gave: the texts of all values
/// of the first, then those of the second, and so on, with nothing between them and
/// nothing left out. There is none exactly where that is empty.
pub proof fn law_json_description_from_summary(
    style: PathStyle,
    config: FeedConfig,
    outcomes: Seq<RunOutcome>,
    page_url: Seq<char>,
)
    ensures
        json_item_of(style, config, outcomes, page_url) matches Ok(made) ==> {
            let count = config.summary@.len() as int;
            let text = given_by_all(outcomes.subrange(2, 2 + count));
            &&& outcomes.len() >= 2 + count
            &&& made.description is None <==> text.len() == 0
            &&& made.description matches Some(description) ==> description == text
        },
{
    if outcomes.len() == item_filters_of(config).len() {
        lemma_joined_summary(views(config.summary@), outcomes.subrange(2, date_place(config)));
    }
}

/// The text of a summary splits where its filters do: what a list of filters gives is
/// what its first part gives, followed by what its second part gives; and what one filter
/// gives is the texts of its values.
pub proof fn law_json_summary_splits(
    first: Seq<Seq<char>>,
    second: Seq<Seq<char>>,
    a: Seq<RunOutcome>,
    b: Seq<RunOutcome>,
    filter: Seq<char>,
    values: Vec<JsonValue>,
)
    requires
        first.len() == a.len(),
        second.len() == b.len(),
        none_failed(a),
        none_failed(b),
    ensures
        joined_summary(first, a) is Ok,
        joined_summary(second, b) is Ok,
        joined_summary(first + second, a + b) == Ok::<Seq<char>, FeedErrorOf<Seq<char>>>(
            joined_summary(first, a)->Ok_0 + joined_summary(second, b)->Ok_0,
        ),
        joined_summary(seq![filter], seq![RunOutcome::Values(values)]) == Ok::<
            Seq<char>,
            FeedErrorOf<Seq<char>>,
        >(values@.map_values(|value: JsonValue| counts_as(value)).flatten()),
{
    lemma_joined_summary(first, a);
    lemma_joined_summary(second, b);
    assert forall|k: int| 0 <= k < (a + b).len() implies !((#[trigger] (a + b)[k]) is Failed) by {
        if k < a.len() {
            assert((a + b)[k] == a[k]);
        } else {
            assert((a + b)[k] == b[k - a.len()]);
        }
    }
    lemma_joined_summary(first + second, a + b);
    let given = |outcome: RunOutcome| all_given(outcome);
    assert((a + b).map_values(given) =~= a.map_values(given) + b.map_values(given));
    lemma_flatten_concat(a.map_values(given), b.map_values(given));
    let one = seq![RunOutcome::Values(values)];
    lemma_joined_summary(seq![filter], one);
    assert(none_failed(one));
    assert(one.map_values(given) =~= seq![all_given(one[0])]);
    one.map_values(given).lemma_flatten_one_element();
}

/// The publication date of an item is the date that is read from the first value of the
/// date filter, written with its own local time and its own offset from UTC. There is
/// none where no date is configured, given or understood.
pub proof fn law_json_date_written_as_read(
    style: PathStyle,
    config: FeedConfig,
    outcomes: Seq<RunOutcome>,
    page_url: Seq<char>,
    text: Seq<char>,
)
    ensures
        json_item_of(style, config, outcomes, page_url) matches Ok(made) ==> {
            &&& config.date is None ==> made.pub_date is None
            &&& config.date matches Some(date) ==> {
                let outcome = outcomes[2 + config.summary@.len() as int];
                &&& outcome is Values
                &&& gave_nothing(outcome) ==> made.pub_date is None
                &&& gave(outcome, text) ==> (match date.parsed(trimmed(text)) {
                    Ok(d) => made.pub_date == Some(
                        rfc2822_text(d.local_seconds, d.offset_seconds),
                    ),
                    Err(_) => made.pub_date is None,
                })
            }
        },
{
}

/// The media file of an item is what the first value of the media filter, which is the
/// last of all filters, leads to on the URL of the document.
pub proof fn law_json_media_resolved_on_document(
    style: PathStyle,
    config: FeedConfig,
    outcomes: Seq<RunOutcome>,
    page_url: Seq<char>,
    reference: Seq<char>,
)
    ensures
        json_item_of(style, config, outcomes, page_url) matches Ok(made) ==> {
            &&& config.media is None ==> made.enclosure is None
            &&& config.media is Some ==> {
                &&& outcomes.last() matches RunOutcome::Values(values) && values@.len() > 0
                &&& gave(outcomes.last(), reference) ==> (resolved_url(page_url, reference) matches Ok(
                    url,
                ) && made.enclosure == Some(
                    EnclosureOf {
                        url: url.0,
                        length: "0"@,
                        mime_type: mime_of(style, url.1),
                    },
                ))
            }
        },
{
}

/// An item is made exactly where every filter for it was run, those for the heading, the
/// link and the media file gave something, none for the summary failed, the one for the
/// date gave something or nothing, and the media file has a URL; the date and the media
/// file as far as they are configured.
pub proof fn law_json_item_made_where_parts_given(
    style: PathStyle,
    config: FeedConfig,
    outcomes: Seq<RunOutcome>,
    page_url: Seq<char>,
)
    ensures
        json_item_of(style, config, outcomes, page_url) is Ok <==> {
            let count = config.summary@.len() as int;
            let date_count: int = if config.date is Some {
                1
            } else {
                0
            };
            let media_count: int = if config.media is Some {
                1
            } else {
                0
            };
            &&& outcomes.len() == 2 + count + date_count + media_count
            &&& outcomes[0] matches RunOutcome::Values(values) && values@.len() > 0
            &&& outcomes[1] matches RunOutcome::Values(values) && values@.len() > 0
            &&& none_failed(outcomes.subrange(2, 2 + count))
            &&& config.date is Some ==> outcomes[2 + count] is Values
            &&& config.media is Some ==> (outcomes.last() matches RunOutcome::Values(values)
                && values@.len() > 0 && resolved_url(page_url, counts_as(values@[0])) is Ok)
        },
{
    law_filters_run_on_items(config);
    if outcomes.len() == item_filters_of(config).len() {
        lemma_joined_summary(views(config.summary@), outcomes.subrange(2, date_place(config)));
    }
}

/// Why an item is not made: the first that is wrong of its heading, its link, its
/// summary, its date and its media file decides, and the error names its filter.
pub proof fn law_json_first_fault_decides(
    style: PathStyle,
    config: FeedConfig,
    outcomes: Seq<RunOutcome>,
    page_url: Seq<char>,
    filter: Seq<char>,
)
    requires
        outcomes.len() == item_filters_of(config).len(),
        config.link matches Some(link) && filter == link@,
    ensures
        ({
            let result = json_item_of(style, config, outcomes, page_url);
            let count = config.summary@.len() as int;
            let headed = outcomes[0] is Values && !gave_nothing(outcomes[0]);
            let linked = headed && outcomes[1] is Values && !gave_nothing(outcomes[1]);
            let summary = outcomes.subrange(2, 2 + count);
            let described = linked && none_failed(summary);
            let dated = described && (config.date is Some ==> outcomes[2 + count] is Values);
            &&& !headed ==> (result matches Err(err) && names_fault(
                Part::Heading,
                config.heading@,
                outcomes[0],
                err,
            ))
            &&& headed && !linked ==> (result matches Err(err) && names_fault(
                Part::Link,
                filter,
                outcomes[1],
                err,
            ))
            &&& linked && !described ==> (result matches Err(err) && exists|k: int|
                failed_first(views(config.summary@), summary, k, err))
            &&& described && !dated ==> (result matches Err(err) && names_fault(
                Part::Date,
                config.date->0.selector@,
                outcomes[2 + count],
                err,
            ))
            &&& dated && config.media is Some && (!(outcomes.last() is Values) || gave_nothing(
                outcomes.last(),
            )) ==> (result matches Err(err) && names_fault(
                Part::Media,
                config.media->0@,
                outcomes.last(),
                err,
            ))
            &&& dated && config.media is Some && (outcomes.last() matches RunOutcome::Values(values)
                && values@.len() > 0) ==> (resolved_url(
                page_url,
                counts_as((outcomes.last()->Values_0)@[0]),
            ) matches Err(cause) ==> result == Err::<ItemOf<Seq<char>>, FeedErrorOf<Seq<char>>>(
                FeedErrorOf::InvalidMediaUrl { cause },
            ))
        }),
{
    law_filters_run_on_items(config);
    lemma_joined_summary(views(config.summary@), outcomes.subrange(2, date_place(config)));
}

/// Whether an error says what is wrong with what a filter gave for a part.
pub open spec fn names_fault(
    part: Part,
    filter: Seq<char>,
    outcome: RunOutcome,
    err: FeedErrorOf<Seq<char>>,
) -> bool {
    match outcome {
        RunOutcome::Invalid => err == (FeedErrorOf::InvalidFilter::<Seq<char>> { part, filter }),
        RunOutcome::Failed(cause) => err == (FeedErrorOf::FilterFailed::<Seq<char>> {
            part,
            filter,
            cause: cause@,
        }),
        RunOutcome::Values(_) => err == (FeedErrorOf::NoOutput::<Seq<char>> { part, filter }),
    }
}

/// Each filter that runs on an item is for the part that its place says, and only those
/// for the summary count with all their values.
pub proof fn law_filters_in_order(config: FeedConfig, k: int)
    requires
        0 <= k < item_filters_of(config).len(),
    ensures
        ({
            let filter = item_filters_of(config)[k];
            let count = config.summary@.len() as int;
            &&& filter.all <==> filter.part is Summary
            &&& k == 0 ==> filter.part is Heading
            &&& k == 1 ==> filter.part is Link
            &&& 2 <= k < 2 + count ==> filter.part is Summary
            &&& k == 2 + count && config.date is Some ==> filter.part is Date
            &&& k == 2 + count && config.date is None ==> filter.part is Media
            &&& k == 3 + count ==> filter.part is Media && config.date is Some
            &&& k <= 3 + count
        }),
        config.link is None ==> item_filters_of(config)[1].text == "empty"@,
        document_filter_of(config).all,
        document_filter_of(config).part is Item,
        document_filter_of(config).text == config.item@,
{
}

/// Without a date every item can be tried; with one, every item can whose date filter
/// gave nothing, or something that can be read and, if it is a date, be written, and
/// every item that fails for its heading, its link or its summary.
pub proof fn law_json_only_dates_stand_in_the_way(
    config: FeedConfig,
    outcomes: Seq<RunOutcome>,
    page_url: Seq<char>,
    text: Seq<char>,
)
    ensures
        config.date is None ==> json_item_possible(config, outcomes, page_url),
        outcomes.len() != item_filters_of(config).len() || !(outcomes[0] is Values) || gave_nothing(
            outcomes[0],
        ) || !(outcomes[1] is Values) || gave_nothing(outcomes[1]) || !none_failed(
            outcomes.subrange(2, 2 + config.summary@.len() as int),
        ) ==> json_item_possible(config, outcomes, page_url),
        config.date matches Some(date) ==> {
            let outcome = outcomes[2 + config.summary@.len() as int];
            &&& gave_nothing(outcome) ==> json_item_possible(config, outcomes, page_url)
            &&& gave(outcome, text) && date.can_parse(trimmed(text)) && (date.parsed(
                trimmed(text),
            ) matches Ok(d) ==> d.formattable()) ==> json_item_possible(config, outcomes, page_url)
        },
{
    law_filters_run_on_items(config);
    if outcomes.len() == item_filters_of(config).len() {
        lemma_joined_summary(views(config.summary@), outcomes.subrange(2, date_place(config)));
    }
}

/// The view of a filter has all that the filter is made of.
pub proof fn law_view_of_filter(filter: Filter, filters: Seq<Filter>)
    ensures
        filter@.part == filter.part,
        filter@.input == filter.input,
        filter@.all == filter.all,
        filter@.text == filter.text@,
        filter_views(filters).len() == filters.len(),
        forall|k: int| 0 <= k < filters.len() ==> filter_views(filters)[k] == (
        #[trigger] filters[k])@,
{
}

} // verus!
