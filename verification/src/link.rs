//! Absolute URLs and the resolution of a document's links against the URL of
//! the site it belongs to.

use vstd::prelude::*;

verus! {

/// An absolute URL in its normal form, with the domain name of its host where
/// the host is a domain name.
#[derive(Clone, Debug, PartialEq, Eq)]
pub struct Link {
    pub url: String,
    pub domain: Option<String>,
}

/// What a `Link` holds, as plain values.
pub ghost struct LinkView {
    pub url: Seq<char>,
    pub domain: Option<Seq<char>>,
}

impl View for Link {
    type V = LinkView;

    open spec fn view(&self) -> LinkView {
        LinkView { url: self.url@, domain: crate::page::opt_text(self.domain) }
    }
}

/// The absolute URL that `input` denotes, if it denotes one.
pub uninterp spec fn parsed_url(input: Seq<char>) -> Option<LinkView>;

/// The absolute URL that the reference `href` denotes in a document at
/// `base`; nothing where `base` is no absolute URL or `href` cannot be
/// resolved against it.
pub uninterp spec fn joined_url(base: Seq<char>, href: Seq<char>) -> Option<LinkView>;

/// `url::ParseError`: why a text is no URL. It is carried through and never
/// looked into.
#[verifier::external_type_specification]
#[verifier::external_body]
pub struct ExParseError(url::ParseError);

/// Calls `url::Url::parse`, and reads the serialization and `Url::domain` of
/// what it gives. Trusted: the outcome depends on the text alone.
#[verifier::external_body]
pub(crate) fn parse_url(input: &str) -> (r: Result<Link, url::ParseError>)
    ensures
        match r {
            Ok(link) => parsed_url(input@) == Some(link@),
            Err(_) => parsed_url(input@) is None,
        },
{
    let url = url::Url::parse(input)?;
    Ok(Link { domain: url.domain().map(String::from), url: url.into() })
}

/// Parses `base` with `url::Url::parse` and calls `Url::join` on it, and
/// reads the serialization and `Url::domain` of what that gives. Trusted: the
/// outcome depends on the two texts alone.
#[verifier::external_body]
pub(crate) fn join_url(base: &str, href: &str) -> (r: Option<Link>)
    ensures
        match r {
            Some(link) => joined_url(base@, href@) == Some(link@),
            None => joined_url(base@, href@) is None,
        },
{
    let url = url::Url::parse(base).ok()?.join(href).ok()?;
    Some(Link { domain: url.domain().map(String::from), url: url.into() })
}

} // verus!
