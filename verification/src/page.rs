//! The record that one fetched document becomes, and the rule that bounds its
//! paragraph content.

use vstd::prelude::*;

verus! {

/// A point in time: seconds since the Unix epoch, UTC, and the nanoseconds
/// into that second.
#[derive(Clone, Copy, Debug, PartialEq, Eq)]
pub struct Timestamp {
    pub secs: i64,
    pub nanos: u32,
}

/// The instant that an RFC 3339 date-and-time text denotes, if it is one.
pub uninterp spec fn rfc3339_instant(text: Seq<char>) -> Option<Timestamp>;

/// Calls `chrono::DateTime::parse_from_rfc3339`, and reads `timestamp` and
/// `timestamp_subsec_nanos` of what it gives. Trusted: the outcome depends on
/// the text alone.
#[verifier::external_body]
pub(crate) fn parse_rfc3339(text: &str) -> (r: Option<Timestamp>)
    ensures
        r == rfc3339_instant(text@),
{
    match chrono::DateTime::parse_from_rfc3339(text) {
        Ok(t) => Some(Timestamp { secs: t.timestamp(), nanos: t.timestamp_subsec_nanos() }),
        Err(_) => None,
    }
}

/// One heading of a document.
#[derive(Clone, Debug, PartialEq, Eq)]
pub struct Heading {
    pub level: u8,
    pub text: String,
}

/// What a `Heading` holds, as plain values.
pub ghost struct HeadingView {
    pub level: u8,
    pub text: Seq<char>,
}

impl View for Heading {
    type V = HeadingView;

    open spec fn view(&self) -> HeadingView {
        HeadingView { level: self.level, text: self.text@ }
    }
}

/// The structured content of one page.
#[derive(Clone, Debug, PartialEq, Eq)]
pub struct Page {
    pub url: String,
    pub title: String,
    pub meta_description: Option<String>,
    pub published_at: Option<Timestamp>,
    pub author: Option<String>,
    pub headings: Vec<Heading>,
    pub paragraphs: Vec<String>,
    pub extract: Option<String>,
}

/// What a `Page` holds, as plain values.
pub ghost struct PageView {
    pub url: Seq<char>,
    pub title: Seq<char>,
    pub meta_description: Option<Seq<char>>,
    pub published_at: Option<Timestamp>,
    pub author: Option<Seq<char>>,
    pub headings: Seq<HeadingView>,
    pub paragraphs: Seq<Seq<char>>,
    pub extract: Option<Seq<char>>,
}

/// The text of an optional string.
pub open spec fn opt_text(s: Option<String>) -> Option<Seq<char>> {
    match s {
        Some(t) => Some(t@),
        None => None,
    }
}

/// The texts of a sequence of strings.
pub open spec fn texts(v: Seq<String>) -> Seq<Seq<char>> {
    Seq::new(v.len(), |i: int| v[i]@)
}

/// The views of a sequence of headings.
pub open spec fn heading_views(v: Seq<Heading>) -> Seq<HeadingView> {
    Seq::new(v.len(), |i: int| v[i]@)
}

impl View for Page {
    type V = PageView;

    open spec fn view(&self) -> PageView {
        PageView {
            url: self.url@,
            title: self.title@,
            meta_description: opt_text(self.meta_description),
            published_at: self.published_at,
            author: opt_text(self.author),
            headings: heading_views(self.headings@),
            paragraphs: texts(self.paragraphs@),
            extract: opt_text(self.extract),
        }
    }
}

/// The length of a text as the page model counts it: its UTF-8 bytes.
pub open spec fn text_len(s: Seq<char>) -> nat {
    vstd::utf8::encode_utf8(s).len()
}

/// The summed length of a sequence of paragraphs.
pub open spec fn total_len(ps: Seq<Seq<char>>) -> nat
    decreases ps.len(),
{
    if ps.len() == 0 {
        0
    } else {
        total_len(ps.drop_last()) + text_len(ps.last())
    }
}

/// How many leading paragraphs stay when paragraphs are dropped from the end
/// until the summed length is at most `max`.
pub open spec fn kept_count(ps: Seq<Seq<char>>, max: nat) -> nat
    decreases ps.len(),
{
    if ps.len() == 0 {
        0
    } else if total_len(ps) <= max {
        ps.len()
    } else {
        kept_count(ps.drop_last(), max)
    }
}

/// The paragraphs that stay under the limit `max`.
pub open spec fn truncated(ps: Seq<Seq<char>>, max: nat) -> Seq<Seq<char>> {
    ps.take(kept_count(ps, max) as int)
}

/// The summed length of a prefix grows with the prefix.
pub proof fn lemma_total_len_prefix(ps: Seq<Seq<char>>, k: int)
    requires
        0 <= k <= ps.len(),
    ensures
        total_len(ps.take(k)) <= total_len(ps),
    decreases ps.len(),
{
    if k == ps.len() {
        assert(ps.take(k) =~= ps);
    } else {
        lemma_total_len_prefix(ps.drop_last(), k);
        assert(ps.drop_last().take(k) =~= ps.take(k));
    }
}

/// `kept_count` is the length of the longest prefix that fits.
pub proof fn lemma_kept_count(ps: Seq<Seq<char>>, max: nat)
    ensures
        kept_count(ps, max) <= ps.len(),
        total_len(ps.take(kept_count(ps, max) as int)) <= max,
        kept_count(ps, max) < ps.len() ==> total_len(ps.take(kept_count(ps, max) as int + 1)) > max,
    decreases ps.len(),
{
    if ps.len() == 0 {
        assert(ps.take(0) =~= ps);
    } else if total_len(ps) <= max {
        assert(ps.take(ps.len() as int) =~= ps);
    } else {
        let front = ps.drop_last();
        lemma_kept_count(front, max);
        let k = kept_count(front, max) as int;
        assert(front.take(k) =~= ps.take(k));
        if k < front.len() {
            assert(front.take(k + 1) =~= ps.take(k + 1));
        } else {
            assert(ps.take(k + 1) =~= ps);
        }
    }
}

/// A prefix of length `k` that fits, followed by a paragraph that does not,
/// is exactly what stays.
pub proof fn lemma_kept_count_is(ps: Seq<Seq<char>>, max: nat, k: int)
    requires
        0 <= k <= ps.len(),
        total_len(ps.take(k)) <= max,
        k < ps.len() ==> total_len(ps.take(k + 1)) > max,
    ensures
        kept_count(ps, max) == k,
    decreases ps.len(),
{
    if ps.len() == 0 {
    } else if k == ps.len() {
        assert(ps.take(k) =~= ps);
    } else {
        lemma_total_len_prefix(ps, k + 1);
        let front = ps.drop_last();
        assert(front.take(k) =~= ps.take(k));
        if k < front.len() {
            assert(front.take(k + 1) =~= ps.take(k + 1));
        }
        lemma_kept_count_is(front, max, k);
    }
}

/// The length of a text in UTF-8 bytes.
pub fn byte_length(s: &str) -> (n: usize)
    ensures
        n == text_len(s@),
{
    s.as_bytes().len()
}

impl Page {
    /// A page with a URL and a title and nothing else.
    pub fn new(url: String, title: String) -> (page: Page)
        ensures
            page@ == (PageView {
                url: url@,
                title: title@,
                meta_description: None,
                published_at: None,
                author: None,
                headings: Seq::empty(),
                paragraphs: Seq::empty(),
                extract: None,
            }),
    {
        let page = Page {
            url,
            title,
            meta_description: None,
            published_at: None,
            author: None,
            headings: Vec::new(),
            paragraphs: Vec::new(),
            extract: None,
        };
        assert(page@.headings =~= Seq::empty());
        assert(page@.paragraphs =~= Seq::empty());
        page
    }

    /// The summed length of the paragraphs, or `usize::MAX` where the sum does
    /// not fit.
    pub fn content_length(&self) -> (n: usize)
        ensures
            total_len(self@.paragraphs) <= usize::MAX ==> n == total_len(self@.paragraphs),
            total_len(self@.paragraphs) > usize::MAX ==> n == usize::MAX,
    {
        let mut sum: usize = 0;
        let mut i: usize = 0;
        let ghost ps = self@.paragraphs;
        while i < self.paragraphs.len()
            invariant
                i <= self.paragraphs.len(),
                ps == self@.paragraphs,
                ps.len() == self.paragraphs.len(),
                total_len(ps.take(i as int)) <= usize::MAX ==> sum == total_len(ps.take(i as int)),
                total_len(ps.take(i as int)) > usize::MAX ==> sum == usize::MAX,
            decreases self.paragraphs.len() - i,
        {
            let len = byte_length(self.paragraphs[i].as_str());
            proof {
                assert(ps.take(i + 1).drop_last() =~= ps.take(i as int));
                assert(ps.take(i + 1).last() == self.paragraphs[i as int]@);
            }
            sum = if len > usize::MAX - sum {
                usize::MAX
            } else {
                sum + len
            };
            i += 1;
        }
        proof {
            assert(ps.take(i as int) =~= ps);
        }
        sum
    }

    /// Drops paragraphs from the end until their summed length is at most
    /// `max_length`. No paragraph is cut, and nothing else changes.
    pub fn truncate_content(&mut self, max_length: usize)
        ensures
            final(self)@ == (PageView {
                paragraphs: truncated(old(self)@.paragraphs, max_length as nat),
                ..old(self)@
            }),
            total_len(final(self)@.paragraphs) <= max_length,
    {
        let ghost ps = self@.paragraphs;
        let mut sum: usize = 0;
        let mut keep: usize = 0;
        while keep < self.paragraphs.len()
            invariant
                keep <= self.paragraphs.len(),
                *self == *old(self),
                ps == self@.paragraphs,
                ps.len() == self.paragraphs.len(),
                sum == total_len(ps.take(keep as int)),
                sum <= max_length,
            ensures
                keep <= self.paragraphs.len(),
                sum == total_len(ps.take(keep as int)),
                sum <= max_length,
                keep < self.paragraphs.len() ==> total_len(ps.take(keep + 1)) > max_length,
            decreases self.paragraphs.len() - keep,
        {
            let len = byte_length(self.paragraphs[keep].as_str());
            proof {
                assert(ps.take(keep + 1).drop_last() =~= ps.take(keep as int));
                assert(ps.take(keep + 1).last() == self.paragraphs[keep as int]@);
            }
            if len > max_length - sum {
                break;
            }
            sum = sum + len;
            keep += 1;
        }
        proof {
            lemma_kept_count_is(ps, max_length as nat, keep as int);
        }
        self.paragraphs.truncate(keep);
        proof {
            assert(final(self)@.paragraphs =~= ps.take(keep as int));
            assert(final(self)@.headings =~= old(self)@.headings);
        }
    }
}

} // verus!
