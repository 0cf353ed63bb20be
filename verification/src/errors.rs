//! What can go wrong with a feed, and the messages for it.
use crate::text::{decimal, join2, join3, opt_view, to_decimal};
use vstd::prelude::*;

verus! {

/// The part of a feed's configuration that a selector or a filter is for.
#[derive(Debug, Clone, Copy, PartialEq, Eq, Structural)]
pub enum Part {
    /// The items of the feed.
    Item,
    /// The heading of an item.
    Heading,
    /// The link of an item.
    Link,
    /// The summary of an item.
    Summary,
    /// The date of an item.
    Date,
    /// The media file of an item.
    Media,
}

impl Part {
    /// The name of the part in the configuration.
    pub open spec fn name(self) -> Seq<char> {
        match self {
            Part::Item => "item"@,
            Part::Heading => "heading"@,
            Part::Link => "link"@,
            Part::Summary => "summary"@,
            Part::Date => "date"@,
            Part::Media => "media"@,
        }
    }

    /// Returns the name of the part in the configuration.
    pub fn as_str(&self) -> (r: &'static str)
        ensures
            r@ == self.name(),
    {
        match self {
            Part::Item => "item",
            Part::Heading => "heading",
            Part::Link => "link",
            Part::Summary => "summary",
            Part::Date => "date",
            Part::Media => "media",
        }
    }
}

/// Why a feed or one of its items could not be made. `S` is the type of text:
/// `String` in a value, `Seq<char>` in its view.
#[derive(Debug)]
pub enum FeedErrorOf<S> {
    /// The URL of the page is none.
    InvalidUrl {
        /// The configured URL.
        url: S,
        /// What is wrong with it.
        cause: S,
    },
    /// The page is a local file, and those are not enabled.
    FileUrlsDisabled {
        /// The URL of the file.
        url: S,
    },
    /// The URL of a local file names none.
    NoFilePath {
        /// The URL.
        url: S,
    },
    /// The server answered with an error.
    HttpStatus {
        /// The configured URL.
        url: S,
        /// The status code.
        status: u16,
        /// What the status code stands for.
        reason: S,
    },
    /// A selector is not valid.
    InvalidSelector {
        /// What it is for.
        part: Part,
        /// The selector.
        selector: S,
    },
    /// No heading was found in an item.
    NoHeading {
        /// The selector for it.
        selector: S,
    },
    /// No link was found in an item.
    NoLink,
    /// The element found as link has no `href` attribute.
    NoHref,
    /// The links in a summary could not be rewritten.
    Rewrite {
        /// What is wrong with the HTML.
        cause: S,
    },
    /// No media file was found in an item.
    NoMedia,
    /// The element found as media file has neither a `src` nor a `href` attribute.
    NoMediaUrl,
    /// The URL of a media file is none.
    InvalidMediaUrl {
        /// What is wrong with it.
        cause: S,
    },
    /// Fewer items were made than the configuration asks for.
    TooFewItems {
        /// How many are asked for.
        minimum: usize,
        /// How many were made.
        created: usize,
    },
    /// A JSON feed is configured without a link.
    LinkRequired,
    /// A page is no JSON document.
    InvalidJson {
        /// What is wrong with it.
        cause: S,
    },
    /// A filter is not valid.
    InvalidFilter {
        /// What it is for.
        part: Part,
        /// The filter.
        filter: S,
    },
    /// A filter failed on a value.
    FilterFailed {
        /// What it is for.
        part: Part,
        /// The filter.
        filter: S,
        /// Why it failed.
        cause: S,
    },
    /// Not all filters for an item were run.
    FilterNotRun,
    /// A filter gave nothing.
    NoOutput {
        /// What it is for.
        part: Part,
        /// The filter.
        filter: S,
    },
}

/// Why a feed or one of its items could not be made.
pub type FeedError = FeedErrorOf<String>;

impl View for FeedErrorOf<String> {
    type V = FeedErrorOf<Seq<char>>;

    open spec fn view(&self) -> FeedErrorOf<Seq<char>> {
        match *self {
            FeedErrorOf::InvalidUrl { url, cause } => FeedErrorOf::InvalidUrl {
                url: url@,
                cause: cause@,
            },
            FeedErrorOf::FileUrlsDisabled { url } => FeedErrorOf::FileUrlsDisabled { url: url@ },
            FeedErrorOf::NoFilePath { url } => FeedErrorOf::NoFilePath { url: url@ },
            FeedErrorOf::HttpStatus { url, status, reason } => FeedErrorOf::HttpStatus {
                url: url@,
                status,
                reason: reason@,
            },
            FeedErrorOf::InvalidSelector { part, selector } => FeedErrorOf::InvalidSelector {
                part,
                selector: selector@,
            },
            FeedErrorOf::NoHeading { selector } => FeedErrorOf::NoHeading { selector: selector@ },
            FeedErrorOf::NoLink => FeedErrorOf::NoLink,
            FeedErrorOf::NoHref => FeedErrorOf::NoHref,
            FeedErrorOf::Rewrite { cause } => FeedErrorOf::Rewrite { cause: cause@ },
            FeedErrorOf::NoMedia => FeedErrorOf::NoMedia,
            FeedErrorOf::NoMediaUrl => FeedErrorOf::NoMediaUrl,
            FeedErrorOf::InvalidMediaUrl { cause } => FeedErrorOf::InvalidMediaUrl {
                cause: cause@,
            },
            FeedErrorOf::TooFewItems { minimum, created } => FeedErrorOf::TooFewItems {
                minimum,
                created,
            },
            FeedErrorOf::LinkRequired => FeedErrorOf::LinkRequired,
            FeedErrorOf::InvalidJson { cause } => FeedErrorOf::InvalidJson { cause: cause@ },
            FeedErrorOf::InvalidFilter { part, filter } => FeedErrorOf::InvalidFilter {
                part,
                filter: filter@,
            },
            FeedErrorOf::FilterFailed { part, filter, cause } => FeedErrorOf::FilterFailed {
                part,
                filter: filter@,
                cause: cause@,
            },
            FeedErrorOf::FilterNotRun => FeedErrorOf::FilterNotRun,
            FeedErrorOf::NoOutput { part, filter } => FeedErrorOf::NoOutput {
                part,
                filter: filter@,
            },
        }
    }
}

impl FeedErrorOf<Seq<char>> {
    /// The message for an error.
    pub open spec fn text(self) -> Seq<char> {
        match self {
            FeedErrorOf::InvalidUrl { url, cause: _ } => "unable to parse "@ + url + " as a URL"@,
            FeedErrorOf::FileUrlsDisabled { url } => "unable to fetch: "@ + url
                + " as file URLs are not enabled in config"@,
            FeedErrorOf::NoFilePath { url } => "unable to extract path from: "@ + url,
            FeedErrorOf::HttpStatus { url, status, reason } => "failed to fetch "@ + url + ": "@
                + decimal(status as nat) + " "@ + reason,
            FeedErrorOf::InvalidSelector { part, selector } => "invalid selector for "@
                + part.name() + ": "@ + selector,
            FeedErrorOf::NoHeading { selector } => "heading selector did not match anything: "@
                + selector,
            FeedErrorOf::NoLink => "link selector did not match anything"@,
            FeedErrorOf::NoHref => "element selected as link has no 'href' attribute"@,
            FeedErrorOf::Rewrite { cause: _ } => "unable to rewrite hrefs in HTML fragment"@,
            FeedErrorOf::NoMedia => "media selector did not match anything"@,
            FeedErrorOf::NoMediaUrl =>
                "element selected as media has no 'src' or 'href' attribute"@,
            FeedErrorOf::InvalidMediaUrl { cause } => "media enclosure url invalid: "@ + cause,
            FeedErrorOf::TooFewItems { minimum, created } => "expected at least "@
                + decimal(minimum as nat) + " items but created "@
                + decimal(created as nat),
            FeedErrorOf::LinkRequired => "a JSON feed needs a link filter"@,
            FeedErrorOf::InvalidJson { cause: _ } => "unable to parse JSON"@,
            FeedErrorOf::InvalidFilter { part, filter } => "invalid filter for "@ + part.name()
                + ": "@ + filter,
            FeedErrorOf::FilterFailed { part, filter, cause: _ } => "filter for "@ + part.name()
                + " failed: "@ + filter,
            FeedErrorOf::FilterNotRun => "not all filters were run on an item"@,
            FeedErrorOf::NoOutput { part, filter } => part.name()
                + " filter did not give anything: "@ + filter,
        }
    }

    /// The message of what caused an error, where something else did.
    pub open spec fn cause_text(self) -> Option<Seq<char>> {
        match self {
            FeedErrorOf::InvalidUrl { url: _, cause } => Some(cause),
            FeedErrorOf::Rewrite { cause } => Some(cause),
            FeedErrorOf::InvalidJson { cause } => Some(cause),
            FeedErrorOf::FilterFailed { part: _, filter: _, cause } => Some(cause),
            _ => None,
        }
    }
}

impl FeedErrorOf<String> {
    /// The message for an error.
    pub fn message(&self) -> (r: String)
        ensures
            r@ == self@.text(),
    {
        match self {
            FeedErrorOf::InvalidUrl { url, cause: _ } => join3(
                "unable to parse ",
                url.as_str(),
                " as a URL",
            ),
            FeedErrorOf::FileUrlsDisabled { url } => join3(
                "unable to fetch: ",
                url.as_str(),
                " as file URLs are not enabled in config",
            ),
            FeedErrorOf::NoFilePath { url } => join2(
                "unable to extract path from: ",
                url.as_str(),
            ),
            FeedErrorOf::HttpStatus { url, status, reason } => join3(
                "failed to fetch ",
                url.as_str(),
                ": ",
            ).concat(to_decimal(*status as usize).as_str()).concat(" ").concat(reason.as_str()),
            FeedErrorOf::InvalidSelector { part, selector } => join3(
                "invalid selector for ",
                part.as_str(),
                ": ",
            ).concat(selector.as_str()),
            FeedErrorOf::NoHeading { selector } => join2(
                "heading selector did not match anything: ",
                selector.as_str(),
            ),
            FeedErrorOf::NoLink => "link selector did not match anything".to_owned(),
            FeedErrorOf::NoHref => "element selected as link has no 'href' attribute".to_owned(),
            FeedErrorOf::Rewrite { cause: _ } =>
                "unable to rewrite hrefs in HTML fragment".to_owned(),
            FeedErrorOf::NoMedia => "media selector did not match anything".to_owned(),
            FeedErrorOf::NoMediaUrl =>
                "element selected as media has no 'src' or 'href' attribute".to_owned(),
            FeedErrorOf::InvalidMediaUrl { cause } => join2(
                "media enclosure url invalid: ",
                cause.as_str(),
            ),
            FeedErrorOf::TooFewItems { minimum, created } => join3(
                "expected at least ",
                to_decimal(*minimum).as_str(),
                " items but created ",
            ).concat(to_decimal(*created).as_str()),
            FeedErrorOf::LinkRequired => "a JSON feed needs a link filter".to_owned(),
            FeedErrorOf::InvalidJson { cause: _ } => "unable to parse JSON".to_owned(),
            FeedErrorOf::InvalidFilter { part, filter } => join3(
                "invalid filter for ",
                part.as_str(),
                ": ",
            ).concat(filter.as_str()),
            FeedErrorOf::FilterFailed { part, filter, cause: _ } => join3(
                "filter for ",
                part.as_str(),
                " failed: ",
            ).concat(filter.as_str()),
            FeedErrorOf::FilterNotRun => "not all filters were run on an item".to_owned(),
            FeedErrorOf::NoOutput { part, filter } => join3(
                part.as_str(),
                " filter did not give anything: ",
                filter.as_str(),
            ),
        }
    }

    /// The message of what caused an error, where something else did.
    pub fn cause(&self) -> (r: Option<String>)
        ensures
            opt_view(r) == self@.cause_text(),
    {
        match self {
            FeedErrorOf::InvalidUrl { url: _, cause } => Some(cause.clone()),
            FeedErrorOf::Rewrite { cause } => Some(cause.clone()),
            FeedErrorOf::InvalidJson { cause } => Some(cause.clone()),
            FeedErrorOf::FilterFailed { part: _, filter: _, cause } => Some(cause.clone()),
            _ => None,
        }
    }
}

/// An error says what it is about: each message holds the URL, the selector, the filter,
/// the status or the numbers that the error has, and what caused an error is kept.
pub proof fn law_errors_say_what_is_wrong(
    a: String,
    b: String,
    part: Part,
    status: u16,
    minimum: usize,
    created: usize,
)
    ensures
        (FeedErrorOf::InvalidUrl { url: a, cause: b })@.text() == "unable to parse "@ + a@
            + " as a URL"@,
        (FeedErrorOf::InvalidUrl { url: a, cause: b })@.cause_text() == Some(b@),
        (FeedErrorOf::FileUrlsDisabled { url: a })@.text() == "unable to fetch: "@ + a@
            + " as file URLs are not enabled in config"@,
        (FeedErrorOf::NoFilePath { url: a })@.text() == "unable to extract path from: "@ + a@,
        (FeedErrorOf::HttpStatus { url: a, status, reason: b })@.text() == "failed to fetch "@ + a@
            + ": "@ + decimal(status as nat) + " "@ + b@,
        (FeedErrorOf::InvalidSelector { part, selector: a })@.text() == "invalid selector for "@
            + part.name() + ": "@ + a@,
        (FeedErrorOf::NoHeading { selector: a })@.text()
            == "heading selector did not match anything: "@ + a@,
        (FeedErrorOf::Rewrite { cause: a })@.cause_text() == Some(a@),
        (FeedErrorOf::InvalidMediaUrl { cause: a })@.text() == "media enclosure url invalid: "@
            + a@,
        (FeedErrorOf::<String>::TooFewItems { minimum, created })@.text() == "expected at least "@
            + decimal(minimum as nat) + " items but created "@ + decimal(created as nat),
        (FeedErrorOf::InvalidJson { cause: a })@.cause_text() == Some(a@),
        (FeedErrorOf::InvalidFilter { part, filter: a })@.text() == "invalid filter for "@
            + part.name() + ": "@ + a@,
        (FeedErrorOf::FilterFailed { part, filter: a, cause: b })@.text() == "filter for "@
            + part.name() + " failed: "@ + a@,
        (FeedErrorOf::FilterFailed { part, filter: a, cause: b })@.cause_text() == Some(b@),
        (FeedErrorOf::NoOutput { part, filter: a })@.text() == part.name()
            + " filter did not give anything: "@ + a@,
        part is Heading ==> part.name() == "heading"@,
        part is Link ==> part.name() == "link"@,
        part is Item ==> part.name() == "item"@,
        part is Summary ==> part.name() == "summary"@,
        part is Date ==> part.name() == "date"@,
        part is Media ==> part.name() == "media"@,
{
}

/// The view of an error has all that the error is made of, so two errors with the same
/// view have the same texts.
pub proof fn law_view_of_error(a: FeedError, b: FeedError)
    requires
        a@ == b@,
    ensures
        a is InvalidUrl ==> b is InvalidUrl && a->InvalidUrl_url@ == b->InvalidUrl_url@
            && a->InvalidUrl_cause@ == b->InvalidUrl_cause@,
        a is HttpStatus ==> b is HttpStatus && a->HttpStatus_status == b->HttpStatus_status
            && a->HttpStatus_url@ == b->HttpStatus_url@ && a->HttpStatus_reason@
            == b->HttpStatus_reason@,
        a is TooFewItems ==> b is TooFewItems && a->TooFewItems_minimum == b->TooFewItems_minimum
            && a->TooFewItems_created == b->TooFewItems_created,
        a is NoLink <==> b is NoLink,
        a is NoHref <==> b is NoHref,
        a is NoMedia <==> b is NoMedia,
        a is NoMediaUrl <==> b is NoMediaUrl,
        a is LinkRequired <==> b is LinkRequired,
        a is FilterNotRun <==> b is FilterNotRun,
{
}

} // verus!
