//! The HTTP side of the library, without the sockets.
//!
//! A [`Client`] describes requests as plain values and judges the status
//! of a response. Whoever drives the library performs the request and reports
//! back what happened. URLs are kept as text and built with the `url`
//! crate behind three small wrappers.

use crate::transport::FailureKind;
use crate::transport::Outcome;
use crate::transport::RetryPolicy;
use crate::transport::RetryableTransport;
use reqwest::Url;
use vstd::prelude::*;
use vstd::string::StrSliceExecFns;

verus! {

/// Most characters, in all, that are handed to the URL parser in one call.
///
/// The parser indexes a URL with 32-bit offsets and panics once a URL grows
/// past them. A character takes at most twelve bytes once percent-encoded, so
/// this limit keeps every URL built here far below that size.
pub const URL_TEXT_LIMIT: usize = 1_048_576;

/// The URL that results from parsing `base` and appending `segments` to its
/// path, as text; `None` when `base` is no absolute URL or cannot be a base.
pub uninterp spec fn url_extended(base: Seq<char>, segments: Seq<Seq<char>>) -> Option<Seq<char>>;

/// The URL that results from parsing `base` and replacing its query string by
/// `query`, as text; `None` when `base` is no absolute URL.
pub uninterp spec fn url_with_query(base: Seq<char>, query: Seq<char>) -> Option<Seq<char>>;

/// The normal form of the absolute URL `text`; `None` when `text` is no
/// absolute URL.
pub uninterp spec fn url_normalized(text: Seq<char>) -> Option<Seq<char>>;

/// The characters of each string of `texts`.
pub open spec fn views_of(texts: Seq<&str>) -> Seq<Seq<char>> {
    texts.map_values(|t: &str| t@)
}

/// Whether a text is short enough for the URL parser.
pub open spec fn fits_url(text: Seq<char>) -> bool {
    text.len() <= URL_TEXT_LIMIT
}

/// The characters that `segments` add to a path: those of each segment and
/// the slash before it.
pub open spec fn segments_size(segments: Seq<Seq<char>>) -> nat
    decreases segments.len(),
{
    if segments.len() == 0 {
        0
    } else {
        segments_size(segments.drop_last()) + segments.last().len() + 1
    }
}

/// Whether `base` and `segments` together are short enough for the URL
/// parser. How many segments there are does not matter beyond their size.
pub open spec fn fit_url(base: Seq<char>, segments: Seq<Seq<char>>) -> bool {
    base.len() + segments_size(segments) <= URL_TEXT_LIMIT
}

/// `base` with `segments` appended to its path: `None` when the arguments are
/// over the limit, when `base` does not parse, or when it cannot be a base.
pub open spec fn appended(base: Seq<char>, segments: Seq<Seq<char>>) -> Option<Seq<char>> {
    if fit_url(base, segments) {
        url_extended(base, segments)
    } else {
        None
    }
}

/// `base` with its query string replaced by `query`: `None` when an argument
/// is over the limit or `base` does not parse.
pub open spec fn queried(base: Seq<char>, query: Seq<char>) -> Option<Seq<char>> {
    if fits_url(base) && fits_url(query) {
        url_with_query(base, query)
    } else {
        None
    }
}

/// The normal form of `text`: `None` when it is over the limit or does not parse.
pub open spec fn normalized(text: Seq<char>) -> Option<Seq<char>> {
    if fits_url(text) {
        url_normalized(text)
    } else {
        None
    }
}

/// The characters of an optional string.
pub open spec fn text_of(s: Option<String>) -> Option<Seq<char>> {
    match s {
        Some(s) => Some(s@),
        None => None,
    }
}

/// Calls `Url::parse` on `base`, then `PathSegmentsMut::extend` with
/// `segments` on the parsed URL's `path_segments_mut()`, and returns the URL's
/// serialization. The result is the value that these calls give for this base
/// and these segments: `None` where parsing fails or the URL cannot be a base.
/// The limit keeps the URL below the size at which the crate's 32-bit offsets
/// overflow.
#[verifier::external_body]
fn extend_path(base: &str, segments: &[&str]) -> (r: Option<String>)
    requires
        fit_url(base@, views_of(segments@)),
    ensures
        text_of(r) == url_extended(base@, views_of(segments@)),
{
    let mut url = Url::parse(base).ok()?;
    url.path_segments_mut().ok()?.extend(segments);
    Some(url.into())
}

/// Calls `Url::parse` on `base`, then `Url::set_query` with `Some(query)`, and
/// returns the URL's serialization. The result is the value that these calls
/// give for this base and this query: `None` where parsing fails.
#[verifier::external_body]
fn replace_query(base: &str, query: &str) -> (r: Option<String>)
    requires
        fits_url(base@),
        fits_url(query@),
    ensures
        text_of(r) == url_with_query(base@, query@),
{
    let mut url = Url::parse(base).ok()?;
    url.set_query(Some(query));
    Some(url.into())
}

/// Calls `Url::parse` on `text` and returns the URL's serialization: `None`
/// where parsing fails.
#[verifier::external_body]
fn parse_url(text: &str) -> (r: Option<String>)
    requires
        fits_url(text@),
    ensures
        text_of(r) == url_normalized(text@),
{
    let url = Url::parse(text).ok()?;
    Some(url.into())
}

/// Whether `text` has at most [`URL_TEXT_LIMIT`] characters.
fn short_enough(text: &str) -> (r: bool)
    ensures
        r == fits_url(text@),
{
    text.unicode_len() <= URL_TEXT_LIMIT
}

/// The first segments of a list are no larger than the whole list.
proof fn lemma_size_of_first_segments(segments: Seq<Seq<char>>, count: int)
    requires
        0 <= count <= segments.len(),
    ensures
        segments_size(segments.subrange(0, count)) <= segments_size(segments),
    decreases segments.len(),
{
    if count < segments.len() {
        assert(segments.drop_last().subrange(0, count) =~= segments.subrange(0, count));
        lemma_size_of_first_segments(segments.drop_last(), count);
    } else {
        assert(segments.subrange(0, count) =~= segments);
    }
}

/// Whether `base` and `segments` together are short enough for the URL
/// parser.
fn short_enough_together(base: &str, segments: &[&str]) -> (r: bool)
    ensures
        r == fit_url(base@, views_of(segments@)),
{
    let ghost all = views_of(segments@);
    let mut total: usize = base.unicode_len();
    if total > URL_TEXT_LIMIT {
        return false;
    }
    let mut i: usize = 0;
    assert(all.subrange(0, 0) =~= Seq::<Seq<char>>::empty());
    while i < segments.len()
        invariant
            i <= segments@.len(),
            all == views_of(segments@),
            total == base@.len() + segments_size(all.subrange(0, i as int)),
            total <= URL_TEXT_LIMIT,
        decreases segments@.len() - i,
    {
        let length = segments[i].unicode_len();
        proof {
            assert(all.subrange(0, i + 1).drop_last() =~= all.subrange(0, i as int));
            assert(all.subrange(0, i + 1).last() == segments@[i as int]@);
            lemma_size_of_first_segments(all, i + 1);
        }
        if length >= URL_TEXT_LIMIT - total {
            return false;
        }
        total = total + length + 1;
        i += 1;
    }
    assert(all.subrange(0, i as int) =~= all);
    true
}

/// Building a URL from a base by appending path segments.
pub trait AppendPaths: Sized {
    /// The URL with one more path segment.
    fn append_path(&self, path: &str) -> Option<Self>;

    /// The URL with `paths` appended to its path, in order.
    fn append_paths(&self, paths: &[&str]) -> Option<Self>;
}

impl AppendPaths for String {
    fn append_path(&self, path: &str) -> (r: Option<String>)
        ensures
            text_of(r) == appended(self@, seq![path@]),
    {
        let one: [&str; 1] = [path];
        assert(views_of(one@) =~= seq![path@]);
        self.append_paths(&one)
    }

    fn append_paths(&self, paths: &[&str]) -> (r: Option<String>)
        ensures
            text_of(r) == appended(self@, views_of(paths@)),
    {
        if short_enough_together(self.as_str(), paths) {
            extend_path(self.as_str(), paths)
        } else {
            None
        }
    }
}

/// `base` with its query string replaced by `query`.
pub fn with_query(base: &str, query: &str) -> (r: Option<String>)
    ensures
        text_of(r) == queried(base@, query@),
{
    if short_enough(base) && short_enough(query) {
        replace_query(base, query)
    } else {
        None
    }
}

/// The normal form of the absolute URL `text`, or `None` when it is none.
pub fn normalize(text: &str) -> (r: Option<String>)
    ensures
        text_of(r) == normalized(text@),
{
    if short_enough(text) {
        parse_url(text)
    } else {
        None
    }
}

/// The request method.
#[derive(Clone, Copy, Debug, PartialEq, Eq, Structural)]
pub enum Method {
    Get,
    Post,
}

/// Which status codes a request takes for an answer.
#[derive(Clone, Copy, Debug, PartialEq, Eq, Structural)]
pub enum StatusRule {
    /// A client or server error is a failure.
    NoError,
    /// A client or server error is a failure, except this one status.
    NoErrorBut(u16),
}

/// How the body of the answer is read.
#[derive(Clone, Copy, Debug, PartialEq, Eq, Structural)]
pub enum BodyKind {
    /// The body is a JSON document.
    Json,
    /// The body is taken as it is.
    Bytes,
}

/// Why a request gave no usable answer.
#[derive(Clone, Copy, Debug, PartialEq, Eq, Structural)]
pub enum HttpError {
    /// No response arrived, even after the retries.
    RequestFailed(FailureKind),
    /// The response carried a status that the request does not take.
    Status(u16),
    /// The body could not be read as what the request asked for.
    Body,
}

/// Whether a status code is a client or a server error.
pub open spec fn is_error_status(status: u16) -> bool {
    400 <= status <= 599
}

/// The status with which a server refuses the token that a request carried.
pub const UNAUTHORIZED: u16 = 401;

impl HttpError {
    /// Whether the error says that the server refused the request's token.
    pub open spec fn unauthorized(self) -> bool {
        self == HttpError::Status(UNAUTHORIZED)
    }

    /// Whether the error says that the server refused the request's token.
    pub fn is_unauthorized(&self) -> (refused: bool)
        ensures
            refused == self.unauthorized(),
    {
        match self {
            HttpError::Status(status) => *status == UNAUTHORIZED,
            _ => false,
        }
    }
}

impl StatusRule {
    /// Whether a response with this status is an answer under the rule.
    pub open spec fn accepts(self, status: u16) -> bool {
        match self {
            StatusRule::NoError => !is_error_status(status),
            StatusRule::NoErrorBut(expected) => status == expected || !is_error_status(status),
        }
    }
}

/// One HTTP request, as plain values.
#[derive(Debug, PartialEq, Eq)]
pub struct Request {
    pub method: Method,
    pub url: String,
    /// The token sent as `Authorization: Bearer`, if any.
    pub bearer: Option<String>,
    /// The form fields of the body, in order; empty for a request without body.
    pub form: Vec<(String, String)>,
    pub rule: StatusRule,
    pub body: BodyKind,
}

/// What a [`Request`] says, over characters.
pub struct RequestView {
    pub method: Method,
    pub url: Seq<char>,
    pub bearer: Option<Seq<char>>,
    pub form: Seq<(Seq<char>, Seq<char>)>,
    pub rule: StatusRule,
    pub body: BodyKind,
}

/// The characters of each pair of owned strings.
pub open spec fn pairs_of(form: Seq<(String, String)>) -> Seq<(Seq<char>, Seq<char>)> {
    form.map_values(|p: (String, String)| (p.0@, p.1@))
}

/// The characters of each pair of borrowed strings.
pub open spec fn views_of_pairs(parameters: Seq<(&str, &str)>) -> Seq<(Seq<char>, Seq<char>)> {
    parameters.map_values(|p: (&str, &str)| (p.0@, p.1@))
}

impl View for Request {
    type V = RequestView;

    open spec fn view(&self) -> RequestView {
        RequestView {
            method: self.method,
            url: self.url@,
            bearer: text_of(self.bearer),
            form: pairs_of(self.form@),
            rule: self.rule,
            body: self.body,
        }
    }
}

impl Request {
    /// Judges how the exchange for this request ended: a missing response and
    /// a status that the request's rule does not take are errors, each with
    /// what was seen.
    pub fn settle(&self, outcome: Outcome) -> (r: Result<(), HttpError>)
        ensures
            r == settled(self.rule, outcome),
    {
        match outcome {
            Outcome::Failure(kind) => Err(HttpError::RequestFailed(kind)),
            Outcome::Response(status) => {
                let error = 400 <= status && status <= 599;
                let taken = match self.rule {
                    StatusRule::NoError => !error,
                    StatusRule::NoErrorBut(expected) => status == expected || !error,
                };
                if taken {
                    Ok(())
                } else {
                    Err(HttpError::Status(status))
                }
            },
        }
    }
}

/// The judgement on an exchange that ended as `outcome`, under `rule`.
pub open spec fn settled(rule: StatusRule, outcome: Outcome) -> Result<(), HttpError> {
    match outcome {
        Outcome::Failure(kind) => Err(HttpError::RequestFailed(kind)),
        Outcome::Response(status) => if rule.accepts(status) {
            Ok(())
        } else {
            Err(HttpError::Status(status))
        },
    }
}

/// Describes the requests of this library and holds the policy under which
/// they are retried.
#[derive(Clone, Copy, Debug, PartialEq, Eq, Structural)]
pub struct Client {
    pub policy: RetryPolicy,
}

impl Client {
    /// A client that retries under the standard policy.
    pub fn new() -> (client: Client)
        ensures
            client.policy == (RetryPolicy {
                max_attempts: crate::transport::MAX_ATTEMPTS,
                base_delay: crate::transport::BASE_DELAY,
            }),
    {
        Client { policy: RetryPolicy::standard() }
    }

    /// The transport that decides on the retries of this client's requests.
    pub fn transport(&self) -> (transport: RetryableTransport)
        ensures
            transport.policy == self.policy,
    {
        RetryableTransport::new(self.policy)
    }

    /// A GET of `url` as the bearer of `token`, for a JSON document. An error
    /// status is a failure.
    pub fn get(&self, token: &str, url: String) -> (request: Request)
        ensures
            request@ == (RequestView {
                method: Method::Get,
                url: url@,
                bearer: Some(token@),
                form: Seq::empty(),
                rule: StatusRule::NoError,
                body: BodyKind::Json,
            }),
    {
        let request = Request {
            method: Method::Get,
            url,
            bearer: Some(token.to_owned()),
            form: Vec::new(),
            rule: StatusRule::NoError,
            body: BodyKind::Json,
        };
        assert(request@.form =~= Seq::empty());
        request
    }

    /// A POST of the form fields `parameters` to `url`, for a JSON document.
    /// An error status is a failure, unless it is `expected_error`.
    pub fn post(&self, url: String, parameters: &[(&str, &str)], expected_error: Option<u16>) -> (request: Request)
        ensures
            request@ == (RequestView {
                method: Method::Post,
                url: url@,
                bearer: None,
                form: views_of_pairs(parameters@),
                rule: match expected_error {
                    Some(status) => StatusRule::NoErrorBut(status),
                    None => StatusRule::NoError,
                },
                body: BodyKind::Json,
            }),
    {
        let mut form: Vec<(String, String)> = Vec::new();
        let mut i: usize = 0;
        while i < parameters.len()
            invariant
                i <= parameters@.len(),
                form@.len() == i,
                forall|j: int| 0 <= j < i ==> pairs_of(form@)[j] == #[trigger] views_of_pairs(parameters@)[j],
            decreases parameters@.len() - i,
        {
            let pair = parameters[i];
            form.push((pair.0.to_owned(), pair.1.to_owned()));
            i += 1;
        }
        let rule = match expected_error {
            Some(status) => StatusRule::NoErrorBut(status),
            None => StatusRule::NoError,
        };
        let request = Request {
            method: Method::Post,
            url,
            bearer: None,
            form,
            rule,
            body: BodyKind::Json,
        };
        assert(request@.form =~= views_of_pairs(parameters@));
        request
    }

    /// A GET of `url` as the bearer of `token`, for the bytes of the body. An
    /// error status is a failure, so that no error document is taken for the
    /// item.
    pub fn download(&self, token: &str, url: String) -> (request: Request)
        ensures
            request@ == (RequestView {
                method: Method::Get,
                url: url@,
                bearer: Some(token@),
                form: Seq::empty(),
                rule: StatusRule::NoError,
                body: BodyKind::Bytes,
            }),
    {
        let request = Request {
            method: Method::Get,
            url,
            bearer: Some(token.to_owned()),
            form: Vec::new(),
            rule: StatusRule::NoError,
            body: BodyKind::Bytes,
        };
        assert(request@.form =~= Seq::empty());
        request
    }
}

} // verus!
