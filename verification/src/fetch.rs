//! What one fetch attempt came to: the classification of a response, and the
//! page and links of a response that passes.

use vstd::prelude::*;
use crate::extract::{discover_links, discovered_links, extracted_page, format_page, is_site_link};
use crate::page::{opt_text, texts, total_len, Page, PageView};
use crate::text::{contains, contains_text, lowercased, to_lowercase};

verus! {

/// The seconds after which a request is given up.
pub const REQUEST_TIMEOUT_SECS: u64 = 30;

/// The milliseconds to wait before every attempt, a first one and a repeated
/// one alike.
pub const ATTEMPT_DELAY_MILLIS: u64 = 500;

/// Why a URL gave no page.
#[derive(Clone, Copy, Debug, PartialEq, Eq, Structural)]
pub enum FetchOutcome {
    /// The request failed below HTTP: no connection, a timeout, no address.
    Transient,
    /// The response had a status outside the success range.
    Skipped,
    /// The response bears the mark of a protection against crawlers.
    Blocked,
}

/// What the crawler reads of an HTTP response.
#[derive(Clone, Debug, PartialEq, Eq)]
pub struct FetchResponse {
    pub status: u16,
    pub server: Option<String>,
    pub body: String,
}

/// What a `FetchResponse` holds, as plain values.
pub ghost struct ResponseView {
    pub status: u16,
    pub server: Option<Seq<char>>,
    pub body: Seq<char>,
}

impl View for FetchResponse {
    type V = ResponseView;

    open spec fn view(&self) -> ResponseView {
        ResponseView { status: self.status, server: opt_text(self.server), body: self.body@ }
    }
}

/// One attempt to fetch a URL: a response, or a failure below HTTP.
#[derive(Clone, Debug, PartialEq, Eq)]
pub enum Attempt {
    Failed,
    Answered(FetchResponse),
}

impl View for Attempt {
    type V = Option<ResponseView>;

    open spec fn view(&self) -> Option<ResponseView> {
        match self {
            Attempt::Failed => None,
            Attempt::Answered(response) => Some(response@),
        }
    }
}

/// The page of a fetched document and the links found in it that stay on
/// the site.
#[derive(Clone, Debug, PartialEq, Eq)]
pub struct Fetched {
    pub page: Page,
    pub links: Vec<String>,
}

/// What a `Fetched` holds, as plain values.
pub ghost struct FetchedView {
    pub page: PageView,
    pub links: Seq<Seq<char>>,
}

impl View for Fetched {
    type V = FetchedView;

    open spec fn view(&self) -> FetchedView {
        FetchedView { page: self.page@, links: texts(self.links@) }
    }
}

/// Whether a status is in the success range.
pub open spec fn is_success(status: u16) -> bool {
    200 <= status < 300
}

/// Whether the lowercase form of a `Server` header names a known edge
/// protection.
pub open spec fn names_protection(server_lowercase: Seq<char>) -> bool {
    contains_text(server_lowercase, "cloudflare"@)
}

/// Whether a body carries the fingerprint of a challenge to crawlers.
pub open spec fn is_challenge(body: Seq<char>) -> bool {
    contains_text(body, "Attention Required!"@) || contains_text(body, "Checking your browser"@)
}

/// Why a response gives no page, if it gives none, from its status, the
/// lowercase form of its `Server` header and its body. The tests apply in
/// this order: status, header, body.
pub open spec fn response_rejection(
    status: u16,
    server_lowercase: Option<Seq<char>>,
    body: Seq<char>,
) -> Option<FetchOutcome> {
    if !is_success(status) {
        Some(FetchOutcome::Skipped)
    } else if server_lowercase is Some && names_protection(server_lowercase->0) {
        Some(FetchOutcome::Blocked)
    } else if is_challenge(body) {
        Some(FetchOutcome::Blocked)
    } else {
        None
    }
}

/// The lowercase form of an optional text.
pub open spec fn opt_lowercased(text: Option<Seq<char>>) -> Option<Seq<char>> {
    match text {
        Some(t) => Some(lowercased(t)),
        None => None,
    }
}

/// Why an attempt gives no page, if it gives none: a failure below HTTP is
/// transient, and a response is judged by `response_rejection`, its `Server`
/// header taken in lowercase.
pub open spec fn rejection(attempt: Option<ResponseView>) -> Option<FetchOutcome> {
    match attempt {
        None => Some(FetchOutcome::Transient),
        Some(response) => response_rejection(
            response.status,
            opt_lowercased(response.server),
            response.body,
        ),
    }
}

/// What an attempt on `url` comes to for a crawl of the site at `base` with
/// the domain `domain` and the content limit `max`.
pub open spec fn fetch_result(
    base: Seq<char>,
    domain: Option<Seq<char>>,
    max: nat,
    url: Seq<char>,
    attempt: Option<ResponseView>,
) -> Result<FetchedView, FetchOutcome> {
    match rejection(attempt) {
        Some(outcome) => Err(outcome),
        None => Ok(
            FetchedView {
                page: extracted_page(url, attempt->0.body, max),
                links: discovered_links(base, domain, attempt->0.body),
            },
        ),
    }
}

/// Classifies a response by its status, the lowercase form of its `Server`
/// header and its body: `None` where its document is to be extracted, else
/// the reason why not.
pub fn classify_response(status: u16, server_lowercase: &Option<String>, body: &str) -> (r: Option<
    FetchOutcome,
>)
    ensures
        r == response_rejection(status, opt_text(*server_lowercase), body@),
{
    if status < 200 || status >= 300 {
        return Some(FetchOutcome::Skipped);
    }
    match server_lowercase {
        Some(server) => {
            if contains(server.as_str(), "cloudflare") {
                return Some(FetchOutcome::Blocked);
            }
        },
        None => {},
    }
    if contains(body, "Attention Required!") || contains(body, "Checking your browser") {
        return Some(FetchOutcome::Blocked);
    }
    None
}

/// Classifies an attempt: `None` where its document is to be extracted, else
/// the reason why not.
pub fn classify(attempt: &Attempt) -> (r: Option<FetchOutcome>)
    ensures
        r == rejection(attempt@),
        attempt@ is None ==> r == Some(FetchOutcome::Transient),
        attempt@ is Some ==> r != Some(FetchOutcome::Transient),
{
    match attempt {
        Attempt::Failed => Some(FetchOutcome::Transient),
        Attempt::Answered(response) => {
            let server_lowercase = match &response.server {
                Some(server) => Some(to_lowercase(server.as_str())),
                None => None,
            };
            classify_response(response.status, &server_lowercase, response.body.as_str())
        },
    }
}

/// Turns an attempt on `url` into a page and its same-site links, or into
/// the reason why the URL gives none.
pub fn visit(
    base: &str,
    domain: &Option<String>,
    max_content_length: usize,
    url: &str,
    attempt: &Attempt,
) -> (r: Result<Fetched, FetchOutcome>)
    ensures
        match r {
            Ok(fetched) => fetch_result(
                base@,
                opt_text(*domain),
                max_content_length as nat,
                url@,
                attempt@,
            ) == Ok::<FetchedView, FetchOutcome>(fetched@),
            Err(outcome) => fetch_result(
                base@,
                opt_text(*domain),
                max_content_length as nat,
                url@,
                attempt@,
            ) == Err::<FetchedView, FetchOutcome>(outcome),
        },
        r matches Ok(fetched) ==> {
            &&& fetched.page@.url == url@
            &&& total_len(fetched.page@.paragraphs) <= max_content_length
            &&& forall|i: int|
                0 <= i < fetched.links.len() ==> is_site_link(
                    base@,
                    opt_text(*domain),
                    #[trigger] fetched.links@[i]@,
                )
        },
{
    match classify(attempt) {
        Some(outcome) => Err(outcome),
        None => match attempt {
            Attempt::Answered(response) => {
                let page = format_page(url, response.body.as_str(), max_content_length);
                let links = discover_links(base, domain, response.body.as_str());
                Ok(Fetched { page, links })
            },
            Attempt::Failed => Err(FetchOutcome::Transient),
        },
    }
}

} // verus!
