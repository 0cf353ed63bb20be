//! Fetching pages: from where, with which request headers, what an answer means,
//! and which of its headers are kept for the next time.
use crate::config::{ChannelConfig, ConfigHash, FeedConfig, FeedSource};
use crate::errors::{FeedError, FeedErrorOf};
use crate::links::{parsed_url, read_url, PageUrl};
use crate::text::{chars_of, opt_view, same};
use crate::version::{version, VERSION};
use vstd::prelude::*;

verus! {

/// What holds for all fetches.
#[derive(Debug, Clone, Copy)]
pub struct Client {
    /// Whether pages may be local files.
    pub file_urls: bool,
}

/// Where a page is.
#[derive(Debug, Clone, Copy, PartialEq, Eq, Structural)]
pub enum Origin {
    /// In a local file.
    Local,
    /// On a server.
    Http,
}

/// A header: its name and its value.
pub type Header = (String, String);

/// What is kept of the answer to a request.
#[derive(Debug)]
pub struct RequestCacheWrite {
    /// The headers of the answer.
    pub headers: Vec<Header>,
    /// The version of the program that made the request.
    pub version: String,
    /// The digest of the configuration that the request was made for.
    pub config_hash: String,
}

/// A header as it came: its name and the bytes of its value.
pub type RawHeader = (String, Vec<u8>);

/// What an answer means, where it is no error.
#[derive(Debug)]
pub enum Answer {
    /// The page is as it was.
    NotModified,
    /// The page comes with the answer, and this is to be kept of it.
    Page(RequestCacheWrite),
}

/// The views of headers.
pub open spec fn header_views(headers: Seq<Header>) -> Seq<(Seq<char>, Seq<char>)> {
    headers.map_values(|header: Header| (header.0@, header.1@))
}

/// The reason phrase that `reqwest::StatusCode::canonical_reason` has for a status
/// code.
pub uninterp spec fn status_reason(status: u16) -> Option<Seq<char>>;

/// Calls `reqwest::StatusCode::canonical_reason`. Trusted: the phrase depends on the
/// status code alone.
#[verifier::external_body]
fn canonical_reason(status: u16) -> (r: Option<String>)
    ensures
        opt_view(r) == status_reason(status),
{
    let status = reqwest::StatusCode::from_u16(status).ok()?;
    status.canonical_reason().map(str::to_string)
}

/// Whether a byte of a header can be shown: a visible ASCII character, a space or a
/// tab.
pub open spec fn is_shown(byte: u8) -> bool {
    32 <= byte < 127 || byte == 9
}

/// Whether the value of a header is text.
pub open spec fn is_text(value: Seq<u8>) -> bool {
    forall|k: int| 0 <= k < value.len() ==> is_shown(#[trigger] value[k])
}

/// The value of a header that is text.
pub open spec fn text_value(value: Seq<u8>) -> Seq<char> {
    value.map_values(|byte: u8| byte as char)
}

/// Calls `reqwest::header::HeaderValue::to_str`. Trusted: it gives a text exactly for
/// a value of visible ASCII characters, spaces and tabs, and the same characters.
#[verifier::external_body]
fn header_to_str(value: &Vec<u8>) -> (r: Option<String>)
    ensures
        r is Some <==> is_text(value@),
        r matches Some(text) ==> text@ == text_value(value@),
{
    let value = reqwest::header::HeaderValue::from_bytes(value).ok()?;
    value.to_str().ok().map(str::to_string)
}

/// The path that `url::Url::to_file_path` gives for a URL on a platform, such as
/// `linux` or `windows`. `None` where the URL names no path there, or one that is not
/// Unicode.
pub uninterp spec fn file_path_on(platform: Seq<char>, url: Seq<char>) -> Option<Seq<char>>;

/// How many characters of a text stand before the first that is one of two.
pub open spec fn count_before(s: Seq<char>, a: char, b: char) -> nat
    decreases s.len(),
{
    if s.len() == 0 || s[0] == a || s[0] == b {
        0
    } else {
        1 + count_before(s.drop_first(), a, b)
    }
}

/// The path of a URL as the `url` crate writes one: what stands behind the scheme and
/// the authority, and before the query and the fragment.
pub open spec fn url_path(url: Seq<char>) -> Seq<char> {
    let head = url.take(count_before(url, '?', '#') as int);
    let colon = count_before(head, ':', ':') as int;
    if colon + 2 < head.len() && head[colon + 1] == '/' && head[colon + 2] == '/' {
        let rest = head.skip(colon + 3);
        rest.skip(count_before(rest, '/', '/') as int)
    } else if colon < head.len() {
        head.skip(colon + 1)
    } else {
        Seq::empty()
    }
}

/// Whether a URL as the `url` crate writes one is that of a file on a host.
pub open spec fn is_remote_file(url: Seq<char>) -> bool {
    &&& url.len() > 7
    &&& url.take(7) == "file://"@
    &&& url[7] != '/'
}

/// Whether a part of a URL is a drive alone, such as `C:` or `C%3A`.
pub open spec fn is_drive_alone(part: Seq<char>) -> bool {
    &&& part.len() == 2 || part.len() == 4
    &&& 'a' <= part[0] <= 'z' || 'A' <= part[0] <= 'Z'
    &&& part.len() == 2 ==> part[1] == ':'
    &&& part.len() == 4 ==> part[1] == '%' && part[2] == '3' && (part[3] == 'a' || part[3] == 'A')
}

/// Whether a part of a URL starts with `/` or `\`, as such or percent-encoded.
pub open spec fn starts_with_slash(part: Seq<char>) -> bool {
    ||| part.len() >= 1 && (part[0] == '/' || part[0] == '\\')
    ||| part.len() >= 3 && part[0] == '%' && part[1] == '2' && (part[2] == 'f' || part[2] == 'F')
    ||| part.len() >= 3 && part[0] == '%' && part[1] == '5' && (part[2] == 'c' || part[2] == 'C')
}

/// Whether the path of a URL, as the `url` crate writes it, is enough of one on every
/// platform. On Windows a drive alone is not, and neither is a host without a share.
pub open spec fn names_full_path(url: Seq<char>) -> bool {
    let path = url_path(url);
    path.len() > 0 && path[0] == '/' ==> {
        let rest = path.skip(1);
        if is_remote_file(url) {
            rest.len() > 0 && !starts_with_slash(rest)
        } else {
            !is_drive_alone(rest)
        }
    }
}

/// Whether a text is one whose path is asked for: where it is a URL, its path is enough
/// of one on every platform.
pub open spec fn has_full_path(text: Seq<char>) -> bool {
    parsed_url(text) matches Ok(url) ==> names_full_path(url.0)
}

/// Calls `url::Url::to_file_path`. Trusted: the path depends on the URL and the
/// platform alone. Which platform it is remains unsaid: it is the one that the program
/// was built for. On Windows its assertion may fail on a text that is not
/// `has_full_path`.
#[verifier::external_body]
fn to_file_path(url: &str) -> (r: Option<String>)
    requires
        has_full_path(url@),
    ensures
        exists|platform: Seq<char>| opt_view(r) == #[trigger] file_path_on(platform, url@),
{
    let path = url::Url::parse(url).ok()?.to_file_path().ok()?;
    path.into_os_string().into_string().ok()
}

/// Where a page is, or why it may not be fetched.
pub open spec fn origin_of(client: Client, url: Seq<char>, scheme: Seq<char>) -> Result<
    Origin,
    FeedErrorOf<Seq<char>>,
> {
    if scheme == "file"@ {
        if client.file_urls {
            Ok(Origin::Local)
        } else {
            Err(FeedErrorOf::FileUrlsDisabled { url })
        }
    } else {
        Ok(Origin::Http)
    }
}

/// Where the page of a feed is, or why it may not be fetched.
pub open spec fn feed_origin(client: Client, config: FeedConfig) -> Result<
    (Seq<char>, Seq<char>, Origin),
    FeedErrorOf<Seq<char>>,
> {
    match parsed_url(config.url@) {
        Err(cause) => Err(FeedErrorOf::InvalidUrl { url: config.url@, cause }),
        Ok(url) => if config.source is Json && config.link is None {
            Err(FeedErrorOf::LinkRequired)
        } else {
            match origin_of(client, url.0, url.1) {
                Ok(origin) => Ok((url.0, url.1, origin)),
                Err(err) => Err(err),
            }
        },
    }
}

/// Finds out where a page is. A local file is refused where those are not enabled.
pub fn fetch_webpage(client: &Client, url: &PageUrl) -> (r: Result<Origin, FeedError>)
    ensures
        (match r {
            Ok(origin) => Ok(origin),
            Err(err) => Err(err@),
        }) == origin_of(*client, url.text@, url.scheme@),
{
    if same(url.scheme.as_str(), "file") {
        if client.file_urls {
            Ok(Origin::Local)
        } else {
            Err(FeedErrorOf::FileUrlsDisabled { url: url.text.clone() })
        }
    } else {
        Ok(Origin::Http)
    }
}

/// Finds out where the page of a feed is, before anything is fetched.
pub fn plan_fetch(client: &Client, channel: &ChannelConfig) -> (r: Result<
    (PageUrl, Origin),
    FeedError,
>)
    ensures
        (match r {
            Ok(plan) => Ok((plan.0.text@, plan.0.scheme@, plan.1)),
            Err(err) => Err(err@),
        }) == feed_origin(*client, channel.config),
{
    let config = &channel.config;
    let url = match read_url(config.url.as_str()) {
        Ok(url) => url,
        Err(cause) => {
            return Err(FeedErrorOf::InvalidUrl { url: config.url.clone(), cause });
        },
    };
    if config.source == FeedSource::Json && config.link.is_none() {
        return Err(FeedErrorOf::LinkRequired);
    }
    match fetch_webpage(client, &url) {
        Ok(origin) => Ok((url, origin)),
        Err(err) => Err(err),
    }
}

/// The path of a local file, or the error for a URL that names none.
pub open spec fn path_needed(url: Seq<char>, path: Option<Seq<char>>) -> Result<
    Seq<char>,
    FeedErrorOf<Seq<char>>,
> {
    match path {
        Some(path) => Ok(path),
        None => Err(FeedErrorOf::NoFilePath { url }),
    }
}

/// Takes the path of a local file from what its URL names, if it names anything.
pub fn require_path(url: &PageUrl, path: Option<String>) -> (r: Result<String, FeedError>)
    ensures
        (match r {
            Ok(file) => Ok(file@),
            Err(err) => Err(err@),
        }) == path_needed(url.text@, opt_view(path)),
{
    match path {
        Some(path) => Ok(path),
        None => Err(FeedErrorOf::NoFilePath { url: url.text.clone() }),
    }
}

/// Finds the first of two characters from a place in a text on, or the end of the text.
fn find_either(s: &Vec<char>, from: usize, to: usize, a: char, b: char) -> (r: usize)
    requires
        from <= to <= s.len(),
    ensures
        from <= r <= to,
        r - from == count_before(s@.subrange(from as int, to as int), a, b),
{
    let mut i: usize = from;
    while i < to && s[i] != a && s[i] != b
        invariant
            from <= i <= to <= s.len(),
            count_before(s@.subrange(from as int, to as int), a, b) == i - from + count_before(
                s@.subrange(i as int, to as int),
                a,
                b,
            ),
        decreases to - i,
    {
        assert(s@.subrange(i as int, to as int).drop_first() =~= s@.subrange(i + 1, to as int));
        i = i + 1;
    }
    i
}

/// Finds the path of a URL: where it starts and where it ends.
fn find_path(s: &Vec<char>) -> (r: (usize, usize))
    ensures
        r.0 <= r.1 <= s@.len(),
        s@.subrange(r.0 as int, r.1 as int) == url_path(s@),
{
    assert(s@.subrange(0, s.len() as int) =~= s@);
    let to: usize = find_either(s, 0, s.len(), '?', '#');
    let ghost head = s@.take(to as int);
    assert(s@.subrange(0, to as int) =~= head);
    let colon: usize = find_either(s, 0, to, ':', ':');
    if to - colon > 2 && s[colon + 1] == '/' && s[colon + 2] == '/' {
        assert(s@.subrange(colon + 3, to as int) =~= head.skip(colon + 3));
        let from: usize = find_either(s, colon + 3, to, '/', '/');
        assert(s@.subrange(from as int, to as int) =~= head.skip(colon + 3).skip(from - colon - 3));
        (from, to)
    } else if colon < to {
        assert(s@.subrange(colon + 1, to as int) =~= head.skip(colon + 1));
        (colon + 1, to)
    } else {
        assert(s@.subrange(to as int, to as int) =~= Seq::empty());
        (to, to)
    }
}

/// Tells whether a URL is that of a file on a host.
fn names_remote_file(url: &str, s: &Vec<char>) -> (r: bool)
    requires
        s@ == url@,
    ensures
        r == is_remote_file(url@),
{
    if s.len() > 7 && s[7] != '/' {
        assert(url@.subrange(0, 7) =~= url@.take(7));
        same(url.substring_char(0, 7), "file://")
    } else {
        false
    }
}

/// Tells whether part of a URL is a drive alone.
fn drive_alone(s: &Vec<char>, from: usize, to: usize) -> (r: bool)
    requires
        from <= to <= s.len(),
    ensures
        r == is_drive_alone(s@.subrange(from as int, to as int)),
{
    if to - from != 2 && to - from != 4 {
        return false;
    }
    let letter: char = s[from];
    if !(('a' <= letter && letter <= 'z') || ('A' <= letter && letter <= 'Z')) {
        return false;
    }
    if to - from == 2 {
        s[from + 1] == ':'
    } else {
        s[from + 1] == '%' && s[from + 2] == '3' && (s[from + 3] == 'a' || s[from + 3] == 'A')
    }
}

/// Tells whether part of a URL starts with `/` or `\`.
fn slash_first(s: &Vec<char>, from: usize, to: usize) -> (r: bool)
    requires
        from <= to <= s.len(),
    ensures
        r == starts_with_slash(s@.subrange(from as int, to as int)),
{
    if from == to {
        return false;
    }
    if s[from] == '/' || s[from] == '\\' {
        return true;
    }
    to - from >= 3 && s[from] == '%' && ((s[from + 1] == '2' && (s[from + 2] == 'f' || s[from + 2]
        == 'F')) || (s[from + 1] == '5' && (s[from + 2] == 'c' || s[from + 2] == 'C')))
}

/// Tells whether the path of a URL, as the `url` crate writes it, is enough of one on
/// every platform.
pub fn is_full_path(url: &str) -> (r: bool)
    ensures
        r == names_full_path(url@),
{
    let s = chars_of(url);
    let (from, to) = find_path(&s);
    if from == to || s[from] != '/' {
        return true;
    }
    assert(url_path(url@).skip(1) =~= s@.subrange(from + 1, to as int));
    if names_remote_file(url, &s) {
        from + 1 < to && !slash_first(&s, from + 1, to)
    } else {
        !drive_alone(&s, from + 1, to)
    }
}

/// The path of a local file that a URL names on the platform of the program. It fails
/// exactly where the URL names none there, or one that is not enough on every platform.
pub fn fetch_webpage_local(url: &PageUrl) -> (r: Result<String, FeedError>)
    ensures
        !has_full_path(url.text@) ==> (r matches Err(err) && err@ == (FeedErrorOf::NoFilePath {
            url: url.text@,
        })),
        has_full_path(url.text@) ==> exists|platform: Seq<char>|
            (match r {
                Ok(file) => Ok(file@),
                Err(err) => Err(err@),
            }) == path_needed(url.text@, #[trigger] file_path_on(platform, url.text@)),
{
    match read_url(url.text.as_str()) {
        Ok(read) => {
            if !is_full_path(read.text.as_str()) {
                return require_path(url, None);
            }
        },
        Err(_) => {},
    }
    require_path(url, to_file_path(url.text.as_str()))
}

/// Whether two characters are the same but for the case of ASCII letters.
pub open spec fn same_but_case(a: char, b: char) -> bool {
    ||| a == b
    ||| 'A' <= a <= 'Z' && b as u32 == a as u32 + 32
    ||| 'A' <= b <= 'Z' && a as u32 == b as u32 + 32
}

/// Whether two names of headers are the same: ASCII letters count the same in either
/// case.
pub open spec fn same_name(a: Seq<char>, b: Seq<char>) -> bool {
    &&& a.len() == b.len()
    &&& forall|k: int| 0 <= k < a.len() ==> same_but_case(#[trigger] a[k], b[k])
}

/// The value of the first header of a name.
pub open spec fn header_value(headers: Seq<(Seq<char>, Seq<char>)>, name: Seq<char>) -> Option<
    Seq<char>,
>
    decreases headers.len(),
{
    if headers.len() == 0 {
        None
    } else if same_name(headers[0].0, name) {
        Some(headers[0].1)
    } else {
        header_value(headers.drop_first(), name)
    }
}

/// A header with an optional value: none where there is no value.
pub open spec fn optional_header(name: Seq<char>, value: Option<Seq<char>>) -> Seq<
    (Seq<char>, Seq<char>),
> {
    match value {
        Some(value) => seq![(name, value)],
        None => Seq::empty(),
    }
}

/// The headers that a request is sent with: the user agent, where one is
/// configured, and what asks for the page only if it has changed since the answer
/// whose headers were kept.
pub open spec fn request_headers(
    cached: Option<Seq<(Seq<char>, Seq<char>)>>,
    user_agent: Option<Seq<char>>,
) -> Seq<(Seq<char>, Seq<char>)> {
    optional_header("user-agent"@, user_agent) + (match cached {
        Some(headers) => optional_header(
            "if-modified-since"@,
            header_value(headers, "last-modified"@),
        ) + optional_header("if-none-match"@, header_value(headers, "etag"@)),
        None => Seq::empty(),
    })
}

/// Tells whether two names of headers are the same.
fn is_same_name(a: &str, b: &str) -> (r: bool)
    ensures
        r == same_name(a@, b@),
{
    let x = chars_of(a);
    let y = chars_of(b);
    if x.len() != y.len() {
        return false;
    }
    for i in 0..x.len()
        invariant
            x@ == a@,
            y@ == b@,
            x@.len() == y@.len(),
            forall|k: int| 0 <= k < i ==> same_but_case(#[trigger] a@[k], b@[k]),
    {
        let p: char = x[i];
        let q: char = y[i];
        let c: u32 = p as u32;
        let d: u32 = q as u32;
        if p != q && !('A' <= p && p <= 'Z' && d == c + 32) && !('A' <= q && q <= 'Z' && c == d + 32)
        {
            assert(!same_but_case(a@[i as int], b@[i as int]));
            return false;
        }
    }
    true
}

/// Finds the value of the first header of a name.
fn find_header(headers: &Vec<Header>, name: &str) -> (r: Option<String>)
    ensures
        opt_view(r) == header_value(header_views(headers@), name@),
{
    let ghost all = header_views(headers@);
    assert(all.skip(0) =~= all);
    for i in 0..headers.len()
        invariant
            all == header_views(headers@),
            header_value(all, name@) == header_value(all.skip(i as int), name@),
    {
        assert(all.skip(i as int)[0] == all[i as int]);
        assert(all.skip(i as int).drop_first() =~= all.skip(i + 1));
        if is_same_name(headers[i].0.as_str(), name) {
            return Some(headers[i].1.clone());
        }
    }
    None
}

/// Adds a header to those of a request, where there is a value for it.
fn add_header(headers: &mut Vec<Header>, name: &str, value: Option<String>)
    ensures
        header_views(final(headers)@) == header_views(old(headers)@) + optional_header(
            name@,
            opt_view(value),
        ),
{
    match value {
        Some(value) => {
            headers.push((name.to_owned(), value));
        },
        None => {},
    }
    assert(header_views(headers@) =~= header_views(old(headers)@) + optional_header(
        name@,
        opt_view(value),
    ));
}

/// The headers to send a request with.
pub fn add_headers(cached_headers: &Option<Vec<Header>>, user_agent: &Option<String>) -> (r: Vec<
    Header,
>)
    ensures
        header_views(r@) == request_headers(
            match *cached_headers {
                Some(headers) => Some(header_views(headers@)),
                None => None,
            },
            opt_view(*user_agent),
        ),
{
    let mut request: Vec<Header> = Vec::new();
    add_header(&mut request, "user-agent", user_agent.clone());
    match cached_headers {
        Some(headers) => {
            add_header(&mut request, "if-modified-since", find_header(headers, "last-modified"));
            add_header(&mut request, "if-none-match", find_header(headers, "etag"));
        },
        None => {},
    }
    request
}

/// The view of what is kept of an answer.
pub struct RequestCacheView {
    /// The headers of the answer.
    pub headers: Seq<(Seq<char>, Seq<char>)>,
    /// The version of the program that made the request.
    pub version: Seq<char>,
    /// The digest of the configuration that the request was made for.
    pub config_hash: Seq<char>,
}

impl View for RequestCacheWrite {
    type V = RequestCacheView;

    open spec fn view(&self) -> RequestCacheView {
        RequestCacheView {
            headers: header_views(self.headers@),
            version: self.version@,
            config_hash: self.config_hash@,
        }
    }
}

/// The headers of an answer whose values are text, in order.
pub open spec fn text_headers(headers: Seq<RawHeader>) -> Seq<(Seq<char>, Seq<char>)>
    decreases headers.len(),
{
    if headers.len() == 0 {
        Seq::empty()
    } else {
        let front = text_headers(headers.drop_last());
        let header = headers.last();
        if is_text(header.1@) {
            front.push((header.0@, text_value(header.1@)))
        } else {
            front
        }
    }
}

/// The reason phrase for a status.
pub open spec fn reason_text(reason: Option<Seq<char>>) -> Seq<char> {
    match reason {
        Some(reason) => reason,
        None => "Unknown Status"@,
    }
}

/// What an answer means. `None` stands for a page that is as it was.
pub open spec fn answer_of(
    url: Seq<char>,
    status: u16,
    reason: Option<Seq<char>>,
    headers: Seq<RawHeader>,
    config_hash: Seq<char>,
) -> Result<Option<RequestCacheView>, FeedErrorOf<Seq<char>>> {
    if status == 304 {
        Ok(None)
    } else if 200 <= status < 300 {
        Ok(
            Some(
                RequestCacheView {
                    headers: text_headers(headers),
                    version: VERSION@,
                    config_hash,
                },
            ),
        )
    } else {
        Err(FeedErrorOf::HttpStatus { url, status, reason: reason_text(reason) })
    }
}

/// The view of what an answer means.
pub open spec fn answer_view(answer: Result<Answer, FeedError>) -> Result<
    Option<RequestCacheView>,
    FeedErrorOf<Seq<char>>,
> {
    match answer {
        Ok(Answer::NotModified) => Ok(None),
        Ok(Answer::Page(cache)) => Ok(Some(cache@)),
        Err(err) => Err(err@),
    }
}

/// Keeps the headers of an answer whose values are text.
pub fn keep_text_headers(headers: &Vec<RawHeader>) -> (r: Vec<Header>)
    ensures
        header_views(r@) == text_headers(headers@),
{
    let mut kept: Vec<Header> = Vec::new();
    for i in 0..headers.len()
        invariant
            header_views(kept@) == text_headers(headers@.take(i as int)),
    {
        assert(headers@.take(i + 1).drop_last() =~= headers@.take(i as int));
        match header_to_str(&headers[i].1) {
            Some(value) => {
                let ghost before = kept@;
                kept.push((headers[i].0.clone(), value));
                assert(header_views(kept@) =~= header_views(before).push(
                    (headers@[i as int].0@, value@),
                ));
            },
            None => {},
        }
    }
    assert(headers@.take(headers.len() as int) =~= headers@);
    kept
}

/// Finds out what an answer means, given the reason phrase for its status.
pub fn read_answer(
    config: &FeedConfig,
    status: u16,
    reason: Option<String>,
    headers: &Vec<RawHeader>,
    config_hash: ConfigHash<'_>,
) -> (r: Result<Answer, FeedError>)
    ensures
        answer_view(r) == answer_of(
            config.url@,
            status,
            opt_view(reason),
            headers@,
            config_hash.0@,
        ),
{
    if status == 304 {
        return Ok(Answer::NotModified);
    }
    if status < 200 || status >= 300 {
        let reason = match reason {
            Some(reason) => reason,
            None => "Unknown Status".to_owned(),
        };
        return Err(FeedErrorOf::HttpStatus { url: config.url.clone(), status, reason });
    }
    Ok(
        Answer::Page(
            RequestCacheWrite {
                headers: keep_text_headers(headers),
                version: version().to_owned(),
                config_hash: config_hash.0.to_owned(),
            },
        ),
    )
}

/// Finds out what the answer to a request means, from its status and headers.
pub fn fetch_webpage_http(
    config: &FeedConfig,
    status: u16,
    headers: &Vec<RawHeader>,
    config_hash: ConfigHash<'_>,
) -> (r: Result<Answer, FeedError>)
    ensures
        answer_view(r) == answer_of(
            config.url@,
            status,
            status_reason(status),
            headers@,
            config_hash.0@,
        ),
{
    read_answer(config, status, canonical_reason(status), headers, config_hash)
}

/// The headers that were kept, where they were kept by this version of the program
/// for the same configuration.
pub open spec fn headers_still_valid(cache: RequestCacheView, config_hash: Seq<char>) -> Option<
    Seq<(Seq<char>, Seq<char>)>,
> {
    if cache.version == VERSION@ && cache.config_hash == config_hash {
        Some(cache.headers)
    } else {
        None
    }
}

/// Takes the headers from what was kept of an answer, where it was kept by this
/// version of the program for the same configuration.
pub fn cached_headers(cache: RequestCacheWrite, config_hash: ConfigHash<'_>) -> (r: Option<
    Vec<Header>,
>)
    ensures
        (match r {
            Some(headers) => Some(header_views(headers@)),
            None => None,
        }) == headers_still_valid(cache@, config_hash.0@),
{
    if same(cache.version.as_str(), version()) && same(cache.config_hash.as_str(), config_hash.0) {
        Some(cache.headers)
    } else {
        None
    }
}

/// A page in a local file is fetched only where those are enabled, and a page that
/// is in no local file is never taken for one.
pub proof fn law_local_files_need_permission(client: Client, url: Seq<char>, scheme: Seq<char>)
    ensures
        origin_of(client, url, scheme) == Ok::<Origin, FeedErrorOf<Seq<char>>>(Origin::Local) <==> (
        scheme == "file"@ && client.file_urls),
        scheme == "file"@ && !client.file_urls ==> origin_of(client, url, scheme) == Err::<
            Origin,
            FeedErrorOf<Seq<char>>,
        >(FeedErrorOf::FileUrlsDisabled { url }),
{
}

/// What is kept of an answer gives its headers back for the same configuration, and
/// nothing for any other.
pub proof fn law_kept_headers_come_back(
    url: Seq<char>,
    status: u16,
    reason: Option<Seq<char>>,
    headers: Seq<RawHeader>,
    written: Seq<char>,
    read: Seq<char>,
)
    requires
        200 <= status < 300,
    ensures
        answer_of(url, status, reason, headers, written) matches Ok(Some(cache))
            && headers_still_valid(cache, read) == (if written == read {
            Some(text_headers(headers))
        } else {
            None
        }),
{
}

/// A request asks for a page only if it has changed exactly where headers were kept
/// that say which one was fetched before; without kept headers it never does.
pub proof fn law_conditional_where_cached(
    cached: Option<Seq<(Seq<char>, Seq<char>)>>,
    user_agent: Option<Seq<char>>,
)
    ensures
        cached is None ==> request_headers(cached, user_agent) == optional_header(
            "user-agent"@,
            user_agent,
        ),
        cached matches Some(headers) ==> ({
            let sent = request_headers(cached, user_agent);
            &&& header_value(headers, "last-modified"@) matches Some(value) ==> sent.contains(
                ("if-modified-since"@, value),
            )
            &&& header_value(headers, "etag"@) matches Some(value) ==> sent.contains(
                ("if-none-match"@, value),
            )
            &&& header_value(headers, "last-modified"@) is None && header_value(headers, "etag"@)
                is None ==> sent == optional_header("user-agent"@, user_agent)
        }),
{
    let agent = optional_header("user-agent"@, user_agent);
    assert(agent + Seq::<(Seq<char>, Seq<char>)>::empty() =~= agent);
    match cached {
        Some(headers) => {
            let since = optional_header(
                "if-modified-since"@,
                header_value(headers, "last-modified"@),
            );
            let tag = optional_header("if-none-match"@, header_value(headers, "etag"@));
            let sent = request_headers(cached, user_agent);
            if header_value(headers, "last-modified"@) is Some {
                assert(sent[agent.len() as int] == since[0]);
            }
            if header_value(headers, "etag"@) is Some {
                assert(sent[(agent.len() + since.len()) as int] == tag[0]);
            }
            assert(since.len() == 0 && tag.len() == 0 ==> sent =~= agent);
        },
        None => {},
    }
}

/// A page is taken to be as it was exactly for the status that says so, and a status
/// is an error exactly where it is neither that one nor one of success.
pub proof fn law_status_decides(
    url: Seq<char>,
    status: u16,
    reason: Option<Seq<char>>,
    headers: Seq<RawHeader>,
    config_hash: Seq<char>,
)
    ensures
        answer_of(url, status, reason, headers, config_hash) is Err <==> (status != 304 && !(200
            <= status < 300)),
        answer_of(url, status, reason, headers, config_hash) == Ok::<
            Option<RequestCacheView>,
            FeedErrorOf<Seq<char>>,
        >(None) <==> status == 304,
{
}

/// The value of a header is that of the first one with its name, whatever the case of
/// the letters, and there is none exactly where no header has that name.
pub proof fn law_first_header_decides(headers: Seq<(Seq<char>, Seq<char>)>, name: Seq<char>, k: int)
    requires
        0 <= k <= headers.len(),
        forall|j: int| 0 <= j < k ==> !same_name((#[trigger] headers[j]).0, name),
        k < headers.len() ==> same_name(headers[k].0, name),
    ensures
        header_value(headers, name) == (if k < headers.len() {
            Some(headers[k].1)
        } else {
            None
        }),
    decreases k,
{
    if k > 0 {
        assert(!same_name(headers[0].0, name));
        let rest = headers.drop_first();
        assert forall|j: int| 0 <= j < k - 1 implies !same_name((#[trigger] rest[j]).0, name) by {
            assert(rest[j] == headers[j + 1]);
        }
        law_first_header_decides(rest, name, k - 1);
    }
}

/// Names of headers are the same exactly where they are after their letters `A` to `Z` are
/// made small.
pub proof fn law_names_same_but_for_case(a: Seq<char>, b: Seq<char>)
    ensures
        same_name(a, b) <==> in_small_letters(a) == in_small_letters(b),
{
    if same_name(a, b) {
        assert forall|k: int| 0 <= k < a.len() implies in_small_letters(a)[k]
            == in_small_letters(b)[k] by {
            assert(same_but_case(a[k], b[k]));
        }
        assert(in_small_letters(a) =~= in_small_letters(b));
    } else if in_small_letters(a) == in_small_letters(b) {
        assert(in_small_letters(a).len() == a.len() && in_small_letters(b).len() == b.len());
        assert forall|k: int| 0 <= k < a.len() implies same_but_case(#[trigger] a[k], b[k]) by {
            assert(in_small_letters(a)[k] == in_small_letters(b)[k]);
            lemma_same_number(a[k], b[k]);
        }
    }
}

/// Characters with the same number are the same.
proof fn lemma_same_number(a: char, b: char)
    ensures
        a as u32 == b as u32 ==> a == b,
{
}

/// A text with its letters `A` to `Z` made small, as numbers of characters.
pub open spec fn in_small_letters(s: Seq<char>) -> Seq<int> {
    s.map_values(
        |c: char|
            if 'A' <= c <= 'Z' {
                c as u32 + 32
            } else {
                c as u32 + 0
            },
    )
}

/// A request has a header for the user agent exactly where one is configured, one that
/// asks for a page that was modified since exactly where the headers that were kept say
/// when it was, and one that asks for another page exactly where they have its tag. It
/// has them in this order and no others.
pub proof fn law_request_headers(
    cached: Option<Seq<(Seq<char>, Seq<char>)>>,
    user_agent: Option<Seq<char>>,
    since: Option<Seq<char>>,
    tag: Option<Seq<char>>,
)
    requires
        since == (match cached {
            Some(headers) => header_value(headers, "last-modified"@),
            None => None,
        }),
        tag == (match cached {
            Some(headers) => header_value(headers, "etag"@),
            None => None,
        }),
    ensures
        ({
            let sent = request_headers(cached, user_agent);
            let first: int = if user_agent is Some {
                1
            } else {
                0
            };
            let second: int = if since is Some {
                1
            } else {
                0
            };
            let third: int = if tag is Some {
                1
            } else {
                0
            };
            &&& sent.len() == first + second + third
            &&& user_agent matches Some(agent) ==> sent[0] == ("user-agent"@, agent)
            &&& since matches Some(value) ==> sent[first] == ("if-modified-since"@, value)
            &&& tag matches Some(value) ==> sent[first + second] == ("if-none-match"@, value)
        }),
{
}

/// The headers that are kept are those whose values are visible ASCII characters, spaces
/// and tabs, all of them and in order, each with its own name and value.
pub proof fn law_text_headers_kept(headers: Seq<RawHeader>)
    ensures
        text_headers(headers) == headers.filter_map(|header: RawHeader| as_text(header)),
    decreases headers.len(),
{
    if headers.len() > 0 {
        law_text_headers_kept(headers.drop_last());
        let header = headers.last();
        let value = header.1@;
        assert(is_text(value) <==> forall|k: int|
            0 <= k < value.len() ==> 32 <= #[trigger] value[k] <= 126 || value[k] == 9) by {
            if is_text(value) {
                assert forall|k: int| 0 <= k < value.len() implies 32 <= #[trigger] value[k] <= 126
                    || value[k] == 9 by {
                    assert(is_shown(value[k]));
                }
            }
        }
        assert(text_value(value) =~= Seq::new(value.len(), |k: int| value[k] as char));
        assert(text_headers(headers) =~= headers.filter_map(|header: RawHeader| as_text(header)));
    } else {
        assert(text_headers(headers) =~= headers.filter_map(|header: RawHeader| as_text(header)));
    }
}

/// A header with its value as text, where all its bytes can be shown.
pub open spec fn as_text(header: RawHeader) -> Option<(Seq<char>, Seq<char>)> {
    if forall|k: int|
        0 <= k < header.1@.len() ==> 32 <= #[trigger] header.1@[k] <= 126 || header.1@[k] == 9 {
        Some((header.0@, Seq::new(header.1@.len(), |k: int| header.1@[k] as char)))
    } else {
        None
    }
}

/// What is kept of an answer of success is the headers that are text, the version of the
/// program and the digest of the configuration; an answer of failure is reported with the
/// URL, the status and its reason, or with `Unknown Status` where it has none.
pub proof fn law_answer_kept_or_reported(
    url: Seq<char>,
    status: u16,
    reason: Option<Seq<char>>,
    headers: Seq<RawHeader>,
    config_hash: Seq<char>,
)
    ensures
        200 <= status < 300 ==> (answer_of(url, status, reason, headers, config_hash) matches Ok(
            Some(kept),
        ) && kept.headers == text_headers(headers) && kept.version == "0.11.3"@ && kept.config_hash
            == config_hash),
        status != 304 && !(200 <= status < 300) ==> answer_of(
            url,
            status,
            reason,
            headers,
            config_hash,
        ) == Err::<Option<RequestCacheView>, FeedErrorOf<Seq<char>>>(
            FeedErrorOf::HttpStatus {
                url,
                status,
                reason: if reason is Some {
                    reason->0
                } else {
                    "Unknown Status"@
                },
            },
        ),
{
}

/// Headers that were kept count exactly where this version of the program kept them for
/// the same configuration.
pub proof fn law_kept_headers_count(cache: RequestCacheView, config_hash: Seq<char>)
    ensures
        headers_still_valid(cache, config_hash) is Some <==> cache.version == "0.11.3"@
            && cache.config_hash == config_hash,
        headers_still_valid(cache, config_hash) matches Some(headers) ==> headers == cache.headers,
{
}

/// Where a page is fetched from: the URL that is read is the configured one, a JSON feed
/// must have a link filter, a `file` URL is a local file where those are enabled, and any
/// other is on a server.
pub proof fn law_scheme_decides_origin(client: Client, config: FeedConfig)
    ensures
        (match parsed_url(config.url@) {
            Err(cause) => feed_origin(client, config) == Err::<
                (Seq<char>, Seq<char>, Origin),
                FeedErrorOf<Seq<char>>,
            >(FeedErrorOf::InvalidUrl { url: config.url@, cause }),
            Ok(url) => if config.source is Json && config.link is None {
                feed_origin(client, config) == Err::<
                    (Seq<char>, Seq<char>, Origin),
                    FeedErrorOf<Seq<char>>,
                >(FeedErrorOf::LinkRequired)
            } else if url.1 != "file"@ {
                feed_origin(client, config) == Ok::<
                    (Seq<char>, Seq<char>, Origin),
                    FeedErrorOf<Seq<char>>,
                >((url.0, url.1, Origin::Http))
            } else if client.file_urls {
                feed_origin(client, config) == Ok::<
                    (Seq<char>, Seq<char>, Origin),
                    FeedErrorOf<Seq<char>>,
                >((url.0, url.1, Origin::Local))
            } else {
                feed_origin(client, config) == Err::<
                    (Seq<char>, Seq<char>, Origin),
                    FeedErrorOf<Seq<char>>,
                >(FeedErrorOf::FileUrlsDisabled { url: url.0 })
            },
        }),
{
}

/// A URL that names a path is read from that path; one that names none is reported.
pub proof fn law_path_read_or_reported(url: Seq<char>, path: Seq<char>)
    ensures
        path_needed(url, Some(path)) == Ok::<Seq<char>, FeedErrorOf<Seq<char>>>(path),
        path_needed(url, None) == Err::<Seq<char>, FeedErrorOf<Seq<char>>>(
            FeedErrorOf::NoFilePath { url },
        ),
{
}

/// The path of a local file is full unless it is a drive alone: behind `file:///`, a text
/// without a query or a fragment is one unless it is a letter with a colon, as such or
/// percent-encoded.
pub proof fn law_local_paths_are_full(path: Seq<char>)
    requires
        forall|k: int| 0 <= k < path.len() ==> #[trigger] path[k] != '?' && path[k] != '#',
    ensures
        ({
            let letter = path.len() > 0 && ('a' <= path[0] <= 'z' || 'A' <= path[0] <= 'Z');
            names_full_path("file:///"@ + path) <==> !(letter && (path.skip(1) == seq![':']
                || path.skip(1) == seq!['%', '3', 'a'] || path.skip(1) == seq!['%', '3', 'A']))
        }),
{
    reveal_strlit("file:///");
    reveal_strlit("file://");
    let start = "file:///"@;
    let url = start + path;
    assert forall|k: int| 0 <= k < url.len() implies url[k] != '?' && url[k] != '#' by {
        if k >= 8 {
            assert(url[k] == path[k - 8]);
        }
    }
    lemma_none_before(url, '?', '#');
    assert(url.take(url.len() as int) =~= url);
    lemma_count_before(url, 4, ':', ':');
    let rest = url.skip(7);
    assert(rest =~= seq!['/'] + path);
    lemma_count_before(rest, 0, '/', '/');
    assert(rest.skip(0) =~= rest);
    assert(url_path(url) =~= rest);
    assert(rest.skip(1) =~= path);
    assert(url[7] == '/');
    if path.len() == 2 {
        assert(path.skip(1) =~= seq![path[1]]);
    }
    if path.len() == 4 {
        assert(path.skip(1) =~= seq![path[1], path[2], path[3]]);
    }
    if path.len() > 0 {
        let one = seq![':'];
        let small = seq!['%', '3', 'a'];
        let great = seq!['%', '3', 'A'];
        assert(one.len() == 1 && one[0] == ':');
        assert(small.len() == 3 && small[0] == '%' && small[1] == '3' && small[2] == 'a');
        assert(great.len() == 3 && great[0] == '%' && great[1] == '3' && great[2] == 'A');
        if path.skip(1) == one {
            assert(path[1] == path.skip(1)[0]);
        }
        if path.skip(1) == small || path.skip(1) == great {
            assert(path[1] == path.skip(1)[0]);
            assert(path[2] == path.skip(1)[1]);
            assert(path[3] == path.skip(1)[2]);
        }
    }
}

/// Where neither of two characters stands in a text, all of it stands before them.
proof fn lemma_none_before(s: Seq<char>, a: char, b: char)
    requires
        forall|k: int| 0 <= k < s.len() ==> #[trigger] s[k] != a && s[k] != b,
    ensures
        count_before(s, a, b) == s.len(),
    decreases s.len(),
{
    if s.len() > 0 {
        assert(s[0] != a && s[0] != b);
        assert forall|k: int| 0 <= k < s.drop_first().len() implies #[trigger] s.drop_first()[k] != a
            && s.drop_first()[k] != b by {
            assert(s.drop_first()[k] == s[k + 1]);
        }
        lemma_none_before(s.drop_first(), a, b);
    }
}

/// What stands before the first of two characters.
proof fn lemma_count_before(s: Seq<char>, at: int, a: char, b: char)
    requires
        0 <= at < s.len(),
        s[at] == a || s[at] == b,
        forall|k: int| 0 <= k < at ==> #[trigger] s[k] != a && s[k] != b,
    ensures
        count_before(s, a, b) == at,
    decreases at,
{
    if at > 0 {
        assert(s[0] != a && s[0] != b);
        assert forall|k: int| 0 <= k < at - 1 implies #[trigger] s.drop_first()[k] != a
            && s.drop_first()[k] != b by {
            assert(s.drop_first()[k] == s[k + 1]);
        }
        lemma_count_before(s.drop_first(), at - 1, a, b);
    }
}

/// The view of what is kept of an answer, and of what an answer means, has all that it is
/// made of.
pub proof fn law_views_of_answers(kept: RequestCacheWrite, headers: Seq<Header>, err: FeedError)
    ensures
        kept@.headers == header_views(kept.headers@),
        kept@.version == kept.version@,
        kept@.config_hash == kept.config_hash@,
        header_views(headers).len() == headers.len(),
        forall|k: int|
            0 <= k < headers.len() ==> header_views(headers)[k].0 == (#[trigger] headers[k]).0@
                && header_views(headers)[k].1 == headers[k].1@,
        answer_view(Ok(Answer::NotModified)) == Ok::<
            Option<RequestCacheView>,
            FeedErrorOf<Seq<char>>,
        >(None),
        answer_view(Ok(Answer::Page(kept))) == Ok::<
            Option<RequestCacheView>,
            FeedErrorOf<Seq<char>>,
        >(Some(kept@)),
        answer_view(Err(err)) == Err::<Option<RequestCacheView>, FeedErrorOf<Seq<char>>>(err@),
{
}

/// The URL of a file on a host has a full path exactly where something other than a
/// separator, as such or percent-encoded, follows the separator behind the host.
pub proof fn law_remote_paths_are_full(host: Seq<char>, path: Seq<char>)
    requires
        host.len() > 0,
        forall|k: int|
            0 <= k < host.len() ==> (#[trigger] host[k]) != '?' && host[k] != '#' && host[k] != '/',
        forall|k: int| 0 <= k < path.len() ==> #[trigger] path[k] != '?' && path[k] != '#',
    ensures
        names_full_path("file://"@ + host + seq!['/'] + path) <==> path.len() > 0 && path[0] != '/'
            && path[0] != '\\' && !(path.len() >= 3 && path[0] == '%' && ((path[1] == '2' && (
        path[2] == 'f' || path[2] == 'F')) || (path[1] == '5' && (path[2] == 'c' || path[2]
            == 'C')))),
{
    reveal_strlit("file://");
    let url = "file://"@ + host + seq!['/'] + path;
    let h = host.len() as int;
    assert forall|k: int| 0 <= k < url.len() implies url[k] != '?' && url[k] != '#' by {
        if 7 <= k < 7 + h {
            assert(url[k] == host[k - 7]);
        } else if k > 7 + h {
            assert(url[k] == path[k - 8 - h]);
        }
    }
    lemma_none_before(url, '?', '#');
    assert(url.take(url.len() as int) =~= url);
    lemma_count_before(url, 4, ':', ':');
    let rest = url.skip(7);
    assert(rest =~= host + seq!['/'] + path);
    assert(rest[h] == '/');
    assert forall|k: int| 0 <= k < h implies #[trigger] rest[k] != '/' by {
        assert(rest[k] == host[k]);
    }
    lemma_count_before(rest, h, '/', '/');
    assert(url_path(url) =~= seq!['/'] + path);
    assert(url_path(url).skip(1) =~= path);
    assert(url[7] == host[0]);
    assert(url.take(7) =~= "file://"@);
}

} // verus!
