//! The crawl coordinator: the frontier of pending URLs, the set of URLs
//! already claimed, the batch in flight and the pages collected so far.
//!
//! The coordinator performs no I/O. A driver asks it for the next batch,
//! fetches each URL of the batch, and reports each attempt back.

use vstd::prelude::*;
use vstd::hash_set::StringHashSet;
use crate::extract::is_site_link;
use crate::fetch::{fetch_result, visit, Attempt, FetchOutcome, Fetched};
use crate::link::{parse_url, parsed_url};
use crate::page::{opt_text, texts, total_len, Page, PageView};

verus! {

/// The number of pages after which a crawl stops, unless told otherwise.
pub const DEFAULT_MAX_PAGES: usize = 100;

/// The number of URLs in one batch, unless told otherwise.
pub const DEFAULT_CONCURRENCY: usize = 5;

/// The limit on the summed paragraph length of a page, unless told otherwise.
pub const DEFAULT_MAX_CONTENT_LENGTH: usize = 10_000;

/// Why no crawl could be set up.
#[derive(Clone, Copy, Debug, PartialEq, Eq, Structural)]
pub enum CrawlError {
    /// The start URL is no absolute URL.
    InvalidUrl,
}

/// What reporting an attempt did.
#[derive(Clone, Copy, Debug, PartialEq, Eq, Structural)]
pub enum Recorded {
    /// The URL was not in flight: nothing changed.
    NotInFlight,
    /// The attempt gave a page, which was collected.
    Collected,
    /// The attempt gave no page, for the reason held.
    Dropped(FetchOutcome),
}

/// The views of a sequence of pages.
pub open spec fn page_views(v: Seq<Page>) -> Seq<PageView> {
    Seq::new(v.len(), |i: int| v[i]@)
}

/// The URLs among `candidates` that a batch claims when `visited` holds the
/// URLs claimed before: each URL that is not in `visited`, at its first
/// occurrence, in order.
pub open spec fn claimed(candidates: Seq<Seq<char>>, visited: Set<Seq<char>>) -> Seq<Seq<char>>
    decreases candidates.len(),
{
    if candidates.len() == 0 {
        Seq::empty()
    } else {
        let before = claimed(candidates.drop_last(), visited);
        if visited.contains(candidates.last()) || before.contains(candidates.last()) {
            before
        } else {
            before.push(candidates.last())
        }
    }
}

/// What a batch claims: every claimed URL is a candidate that was not claimed
/// before, none is claimed twice, and every candidate is claimed now or was
/// claimed before. So a URL that is in the visited set is never handed out
/// again, and no candidate is passed over.
pub proof fn lemma_claimed(candidates: Seq<Seq<char>>, visited: Set<Seq<char>>)
    ensures
        claimed(candidates, visited).no_duplicates(),
        forall|k: int|
            0 <= k < claimed(candidates, visited).len() ==> !visited.contains(
                #[trigger] claimed(candidates, visited)[k],
            ) && candidates.contains(claimed(candidates, visited)[k]),
        forall|i: int|
            0 <= i < candidates.len() ==> visited.contains(#[trigger] candidates[i]) || claimed(
                candidates,
                visited,
            ).contains(candidates[i]),
    decreases candidates.len(),
{
    if candidates.len() > 0 {
        let front = candidates.drop_last();
        let last = candidates.last();
        let before = claimed(front, visited);
        let now = claimed(candidates, visited);
        lemma_claimed(front, visited);
        assert forall|k: int| 0 <= k < now.len() implies !visited.contains(#[trigger] now[k])
            && candidates.contains(now[k]) by {
            if k < before.len() {
                assert(now[k] == before[k]);
                let j = front.index_of(before[k]);
                assert(candidates[j] == before[k]);
            } else {
                assert(now[k] == last);
                assert(candidates[candidates.len() - 1] == last);
            }
        }
        assert forall|i: int| 0 <= i < candidates.len() implies visited.contains(
            #[trigger] candidates[i],
        ) || now.contains(candidates[i]) by {
            if i < front.len() {
                assert(front[i] == candidates[i]);
                if before.contains(candidates[i]) {
                    let k = before.index_of(candidates[i]);
                    assert(now[k] == candidates[i]);
                }
            } else {
                if !visited.contains(last) && !before.contains(last) {
                    assert(now[now.len() - 1] == last);
                } else if before.contains(last) {
                    let k = before.index_of(last);
                    assert(now[k] == last);
                }
            }
        }
        if !(visited.contains(last) || before.contains(last)) {
            lemma_push_fresh(before, last);
        }
    }
}

/// The smaller of two numbers.
pub open spec fn smaller(a: int, b: int) -> int {
    if a <= b {
        a
    } else {
        b
    }
}

/// A member of a concatenation is a member of one of its parts.
pub proof fn lemma_concat_contains(a: Seq<Seq<char>>, b: Seq<Seq<char>>, x: Seq<char>)
    ensures
        (a + b).contains(x) <==> a.contains(x) || b.contains(x),
{
    if a.contains(x) {
        let i = a.index_of(x);
        assert((a + b)[i] == x);
    }
    if b.contains(x) {
        let i = b.index_of(x);
        assert((a + b)[a.len() + i] == x);
    }
    if (a + b).contains(x) {
        let i = (a + b).index_of(x);
        if i < a.len() {
            assert(a[i] == x);
        } else {
            assert(b[i - a.len()] == x);
        }
    }
}

/// A sequence without duplicates stays so when a value that it lacks joins
/// its end.
pub proof fn lemma_push_fresh(s: Seq<Seq<char>>, x: Seq<char>)
    requires
        s.no_duplicates(),
        !s.contains(x),
    ensures
        s.push(x).no_duplicates(),
{
    assert forall|i: int, j: int|
        0 <= i < s.push(x).len() && 0 <= j < s.push(x).len() && i != j implies s.push(x)[i]
        != s.push(x)[j] by {
        if i < s.len() {
            assert(s.contains(s[i]));
        }
        if j < s.len() {
            assert(s.contains(s[j]));
        }
    }
}

/// The members of a sequence with one more value at its end.
pub proof fn lemma_push_to_set(s: Seq<Seq<char>>, x: Seq<char>)
    ensures
        s.push(x).to_set() =~= s.to_set().insert(x),
{
    assert forall|y: Seq<char>| #[trigger]
        s.push(x).to_set().contains(y) <==> s.to_set().insert(x).contains(y) by {
        lemma_concat_contains(s, seq![x], y);
        assert(s.push(x) =~= s + seq![x]);
        if seq![x].contains(y) {
            let i = seq![x].index_of(y);
            assert(seq![x][i] == y);
        }
        if y == x {
            assert(seq![x][0] == y);
        }
    }
}

/// The state of one crawl.
pub struct Scraper {
    base_url: String,
    base_domain: Option<String>,
    frontier: Vec<String>,
    visited: StringHashSet,
    in_flight: Vec<String>,
    pages: Vec<Page>,
    max_pages: usize,
    concurrent_requests: usize,
    max_content_length: usize,
    stopped: bool,
    log: Ghost<Seq<Seq<char>>>,
    seen: Ghost<Seq<Seq<char>>>,
}

impl Scraper {
    /// The URL that the crawl started from, against which links resolve.
    pub closed spec fn base(&self) -> Seq<char> {
        self.base_url@
    }

    /// The domain that a link must have to be followed.
    pub closed spec fn domain(&self) -> Option<Seq<char>> {
        opt_text(self.base_domain)
    }

    /// The number of pages after which no further batch is started.
    pub closed spec fn max_pages(&self) -> nat {
        self.max_pages as nat
    }

    /// The largest number of URLs in one batch.
    pub closed spec fn concurrency(&self) -> nat {
        self.concurrent_requests as nat
    }

    /// The limit on the summed paragraph length of a page.
    pub closed spec fn content_limit(&self) -> nat {
        self.max_content_length as nat
    }

    /// The URLs that wait for a visit, first to go first.
    pub closed spec fn frontier(&self) -> Seq<Seq<char>> {
        texts(self.frontier@)
    }

    /// The URLs that were claimed for fetching.
    pub closed spec fn visited(&self) -> Set<Seq<char>> {
        self.visited@
    }

    /// Every URL that was handed out for fetching, in the order of handing out.
    pub closed spec fn fetch_log(&self) -> Seq<Seq<char>> {
        self.log@
    }

    /// Every URL that was ever put into the frontier, in the order of putting:
    /// the start URL, then the links found on the collected pages that stay
    /// on the site.
    pub closed spec fn discovered(&self) -> Seq<Seq<char>> {
        self.seen@
    }

    /// The URLs of the current batch whose attempts were not yet reported.
    pub closed spec fn in_flight(&self) -> Seq<Seq<char>> {
        texts(self.in_flight@)
    }

    /// The pages collected so far, in the order of collection.
    pub closed spec fn collected(&self) -> Seq<PageView> {
        page_views(self.pages@)
    }

    /// Whether the page count has ended the crawl.
    pub closed spec fn stopped(&self) -> bool {
        self.stopped
    }

    /// Whether the crawl is over: the page count has ended it, or nothing is
    /// pending and nothing is in flight.
    pub open spec fn done(&self) -> bool {
        self.stopped() || (self.frontier().len() == 0 && self.in_flight().len() == 0)
    }

    /// The invariant of a crawl. Every `Scraper` meets it at all times.
    #[verifier::type_invariant]
    pub closed spec fn wf(&self) -> bool {
        &&& self.log@.no_duplicates()
        &&& self.visited@ =~= self.log@.to_set()
        &&& self.in_flight().no_duplicates()
        &&& forall|i: int|
            0 <= i < self.in_flight().len() ==> self.log@.contains(#[trigger] self.in_flight()[i])
        &&& self.in_flight().len() <= self.concurrent_requests
        &&& self.pages@.len() + self.in_flight().len() <= self.max_pages + self.concurrent_requests
        &&& (self.in_flight().len() == 0 && !self.stopped) ==> (self.pages@.len() == 0
            || self.pages@.len() < self.max_pages)
        &&& self.stopped ==> self.in_flight().len() == 0 && self.pages@.len() >= self.max_pages
        &&& forall|i: int|
            0 <= i < self.frontier().len() ==> (#[trigger] self.frontier()[i] == self.base()
                || is_site_link(self.base(), self.domain(), self.frontier()[i]))
        &&& forall|i: int|
            0 <= i < self.collected().len() ==> {
                &&& total_len((#[trigger] self.collected()[i]).paragraphs)
                    <= self.max_content_length
                &&& self.log@.contains(self.collected()[i].url)
                &&& !self.in_flight().contains(self.collected()[i].url)
            }
        &&& forall|i: int, j: int|
            0 <= i < j < self.collected().len() ==> (#[trigger] self.collected()[i]).url != (
            #[trigger] self.collected()[j]).url
        &&& forall|i: int|
            0 <= i < self.seen@.len() ==> self.visited@.contains(#[trigger] self.seen@[i])
                || self.frontier().contains(self.seen@[i])
    }

    /// No discovered URL is lost: each was claimed for fetching or is still
    /// pending. So when nothing is pending, every URL that the crawl found on
    /// the site has been claimed.
    pub proof fn lemma_discovered_kept(&self)
        requires
            self.wf(),
        ensures
            forall|i: int|
                0 <= i < self.discovered().len() ==> self.visited().contains(
                    #[trigger] self.discovered()[i],
                ) || self.frontier().contains(self.discovered()[i]),
            self.frontier().len() == 0 ==> forall|i: int|
                0 <= i < self.discovered().len() ==> self.visited().contains(
                    #[trigger] self.discovered()[i],
                ),
    {
        if self.frontier().len() == 0 {
            assert forall|i: int| 0 <= i < self.discovered().len() implies self.visited().contains(
                #[trigger] self.discovered()[i],
            ) by {
                if self.frontier().contains(self.discovered()[i]) {
                    let k = self.frontier().index_of(self.discovered()[i]);
                    assert(0 <= k < self.frontier().len());
                }
            }
        }
    }

    /// No URL is fetched twice in a crawl: the URLs handed out for fetching,
    /// over all batches, are pairwise different. They are the members of the
    /// visited set, each of which was therefore inserted once; and the URLs
    /// in flight are among them.
    pub proof fn lemma_fetched_once(&self)
        requires
            self.wf(),
        ensures
            self.fetch_log().no_duplicates(),
            self.visited() == self.fetch_log().to_set(),
            self.visited().len() == self.fetch_log().len(),
            self.in_flight().no_duplicates(),
            forall|i: int|
                0 <= i < self.in_flight().len() ==> self.fetch_log().contains(
                    #[trigger] self.in_flight()[i],
                ),
    {
        self.log@.unique_seq_to_set();
    }

    /// The pages collected never exceed `max_pages` by more than one batch:
    /// at most `concurrency` URLs are in flight, and the pages together with
    /// the URLs in flight stay within `max_pages` plus `concurrency`. The
    /// page count ends the crawl only between batches, and only when it has
    /// reached `max_pages`.
    pub proof fn lemma_page_bound(&self)
        requires
            self.wf(),
        ensures
            self.in_flight().len() <= self.concurrency(),
            self.collected().len() + self.in_flight().len() <= self.max_pages()
                + self.concurrency(),
            self.stopped() ==> self.in_flight().len() == 0 && self.collected().len()
                >= self.max_pages(),
            !self.stopped() && self.in_flight().len() == 0 ==> self.collected().len() == 0
                || self.collected().len() < self.max_pages(),
    {
    }

    /// The paragraphs of every collected page sum to at most the content
    /// limit.
    pub proof fn lemma_content_bounded(&self)
        requires
            self.wf(),
        ensures
            forall|i: int|
                0 <= i < self.collected().len() ==> total_len(
                    (#[trigger] self.collected()[i]).paragraphs,
                ) <= self.content_limit(),
    {
    }

    /// No link to another domain is in the frontier: every pending URL is the
    /// start URL or what a reference resolves to on the site's domain.
    pub proof fn lemma_frontier_on_site(&self)
        requires
            self.wf(),
        ensures
            forall|i: int|
                0 <= i < self.frontier().len() ==> (#[trigger] self.frontier()[i] == self.base()
                    || is_site_link(self.base(), self.domain(), self.frontier()[i])),
    {
    }

    /// The URL of a page is its key within the crawl: no two collected pages
    /// share one, each was handed out for fetching, and none is in flight.
    pub proof fn lemma_page_urls_unique(&self)
        requires
            self.wf(),
        ensures
            forall|i: int, j: int|
                0 <= i < j < self.collected().len() ==> (#[trigger] self.collected()[i]).url != (
                #[trigger] self.collected()[j]).url,
            forall|i: int|
                0 <= i < self.collected().len() ==> self.fetch_log().contains(
                    (#[trigger] self.collected()[i]).url,
                ) && !self.in_flight().contains(self.collected()[i].url),
    {
    }

    /// Sets up the crawl of the site at `start_url`: the frontier holds the
    /// start URL and nothing else has happened. Fails where the start URL is
    /// no absolute URL.
    pub fn new(
        start_url: &str,
        max_pages: usize,
        concurrent_requests: usize,
        max_content_length: usize,
    ) -> (r: Result<Scraper, CrawlError>)
        ensures
            match r {
                Ok(scraper) => {
                    &&& parsed_url(start_url@) is Some
                    &&& scraper.is_fresh(
                        start_url@,
                        parsed_url(start_url@)->0.domain,
                        max_pages as nat,
                        concurrent_requests as nat,
                        max_content_length as nat,
                    )
                },
                Err(error) => parsed_url(start_url@) is None && error == CrawlError::InvalidUrl,
            },
    {
        match parse_url(start_url) {
            Ok(link) => Ok(
                Scraper::for_site(
                    start_url,
                    link.domain,
                    max_pages,
                    concurrent_requests,
                    max_content_length,
                ),
            ),
            Err(_) => Err(CrawlError::InvalidUrl),
        }
    }

    /// Whether this is the state of a crawl that has not begun: well-formed,
    /// with the given configuration, the start URL pending and nothing else.
    pub open spec fn is_fresh(
        &self,
        start_url: Seq<char>,
        domain: Option<Seq<char>>,
        max_pages: nat,
        concurrency: nat,
        content_limit: nat,
    ) -> bool {
        &&& self.wf()
        &&& self.base() == start_url
        &&& self.domain() == domain
        &&& self.max_pages() == max_pages
        &&& self.concurrency() == concurrency
        &&& self.content_limit() == content_limit
        &&& self.frontier() == seq![start_url]
        &&& self.discovered() == seq![start_url]
        &&& self.visited() == Set::<Seq<char>>::empty()
        &&& self.fetch_log() == Seq::<Seq<char>>::empty()
        &&& self.in_flight() == Seq::<Seq<char>>::empty()
        &&& self.collected() == Seq::<PageView>::empty()
        &&& !self.stopped()
    }

    /// Sets up the crawl of the site at `start_url`, whose links are followed
    /// where they lead to the domain `domain`.
    pub fn for_site(
        start_url: &str,
        domain: Option<String>,
        max_pages: usize,
        concurrent_requests: usize,
        max_content_length: usize,
    ) -> (scraper: Scraper)
        ensures
            scraper.is_fresh(
                start_url@,
                opt_text(domain),
                max_pages as nat,
                concurrent_requests as nat,
                max_content_length as nat,
            ),
    {
        let mut frontier: Vec<String> = Vec::new();
        frontier.push(start_url.to_owned());
        proof {
            assert(texts(frontier@) =~= seq![start_url@]);
            assert(texts(frontier@)[0] == start_url@);
            assert(texts(frontier@).contains(start_url@));
            assert(seq![start_url@][0] == start_url@);
            assert(Seq::<Seq<char>>::empty().to_set() =~= Set::<Seq<char>>::empty());
        }
        let scraper = Scraper {
            base_url: start_url.to_owned(),
            base_domain: domain,
            frontier,
            visited: StringHashSet::new(),
            in_flight: Vec::new(),
            pages: Vec::new(),
            max_pages,
            concurrent_requests,
            max_content_length,
            stopped: false,
            log: Ghost(Seq::empty()),
            seen: Ghost(Seq::empty().push(start_url@)),
        };
        proof {
            assert(scraper.frontier() =~= seq![start_url@]);
            assert(scraper.in_flight() =~= Seq::<Seq<char>>::empty());
            assert(scraper.collected() =~= Seq::<PageView>::empty());
        }
        scraper
    }

    /// A crawl of nothing, to stand in while a state is taken out and worked
    /// on: no site, no limits, nothing pending, claimed, in flight or
    /// collected.
    fn idle() -> (scraper: Scraper)
        ensures
            scraper.base() == Seq::<char>::empty(),
            scraper.domain() is None,
            scraper.max_pages() == 0,
            scraper.concurrency() == 0,
            scraper.content_limit() == 0,
            scraper.frontier() == Seq::<Seq<char>>::empty(),
            scraper.discovered() == Seq::<Seq<char>>::empty(),
            scraper.visited() == Set::<Seq<char>>::empty(),
            scraper.fetch_log() == Seq::<Seq<char>>::empty(),
            scraper.in_flight() == Seq::<Seq<char>>::empty(),
            scraper.collected() == Seq::<PageView>::empty(),
            !scraper.stopped(),
    {
        Scraper {
            base_url: String::new(),
            base_domain: None,
            frontier: Vec::new(),
            visited: StringHashSet::new(),
            in_flight: Vec::new(),
            pages: Vec::new(),
            max_pages: 0,
            concurrent_requests: 0,
            max_content_length: 0,
            stopped: false,
            log: Ghost(Seq::empty()),
            seen: Ghost(Seq::empty()),
        }
    }

    /// Whether two crawls have the same configuration.
    pub open spec fn same_site(&self, other: &Scraper) -> bool {
        &&& self.base() == other.base()
        &&& self.domain() == other.domain()
        &&& self.max_pages() == other.max_pages()
        &&& self.concurrency() == other.concurrency()
        &&& self.content_limit() == other.content_limit()
    }

    /// Removes up to `concurrency` URLs from the front of the frontier and
    /// claims each of them: a URL that was claimed before, in an earlier
    /// batch or earlier in this one, is dropped; the others are handed out
    /// for fetching and are in flight from now on.
    ///
    /// While a batch is in flight, and once the page count has ended the
    /// crawl, nothing is handed out and nothing changes. A batch that hands
    /// out nothing is complete at once, and the page count is checked.
    pub fn next_batch(&mut self) -> (batch: Vec<String>)
        ensures
            final(self).wf(),
            final(self).same_site(old(self)),
            final(self).collected() == old(self).collected(),
            final(self).discovered() == old(self).discovered(),
            texts(batch@).no_duplicates(),
            forall|i: int|
                0 <= i < batch@.len() ==> !old(self).visited().contains(
                    #[trigger] texts(batch@)[i],
                ),
            old(self).visited().subset_of(final(self).visited()),
            old(self).stopped() || old(self).in_flight().len() > 0 ==> {
                &&& batch@.len() == 0
                &&& *final(self) == *old(self)
            },
            !old(self).stopped() && old(self).in_flight().len() == 0 ==> {
                let n = smaller(old(self).concurrency() as int, old(self).frontier().len() as int);
                &&& texts(batch@) == claimed(old(self).frontier().take(n), old(self).visited())
                &&& final(self).frontier() == old(self).frontier().skip(n)
                &&& final(self).fetch_log() == old(self).fetch_log() + texts(batch@)
                &&& final(self).visited() == old(self).visited().union(texts(batch@).to_set())
                &&& final(self).in_flight() == texts(batch@)
                &&& final(self).stopped() == (batch@.len() == 0 && final(self).collected().len()
                    >= final(self).max_pages())
            },
    {
        proof {
            use_type_invariant(&*self);
        }
        let mut batch: Vec<String> = Vec::new();
        if self.stopped || self.in_flight.len() > 0 {
            return batch;
        }
        let ghost before = *self;
        let mut taken = Scraper::idle();
        std::mem::swap(self, &mut taken);
        let Scraper {
            base_url,
            base_domain,
            mut frontier,
            mut visited,
            mut in_flight,
            pages,
            max_pages,
            concurrent_requests,
            max_content_length,
            mut stopped,
            mut log,
            seen,
        } = taken;
        let n = if concurrent_requests <= frontier.len() {
            concurrent_requests
        } else {
            frontier.len()
        };
        let ghost old_log = log@;
        let ghost old_visited = visited@;
        let ghost old_frontier = texts(frontier@);
        let rest = frontier.split_off(n);
        let ghost candidates = texts(frontier@);
        proof {
            assert(candidates =~= old_frontier.take(n as int));
            assert(texts(rest@) =~= old_frontier.skip(n as int));
            assert(candidates.take(0) =~= Seq::<Seq<char>>::empty());
            assert(texts(batch@) =~= Seq::<Seq<char>>::empty());
            assert(texts(in_flight@) =~= Seq::<Seq<char>>::empty());
            assert(old_log + texts(batch@) =~= old_log);
        }
        let mut i: usize = 0;
        while i < n
            invariant
                i <= n,
                n == frontier@.len(),
                n <= concurrent_requests,
                candidates == texts(frontier@),
                old_visited =~= old_log.to_set(),
                texts(batch@) == claimed(candidates.take(i as int), old_visited),
                texts(in_flight@) == texts(batch@),
                batch@.len() <= i,
                log@ == old_log + texts(batch@),
                log@.no_duplicates(),
                visited@ =~= log@.to_set(),
            decreases n - i,
        {
            let url = frontier[i].clone();
            let ghost claimed_before = texts(batch@);
            proof {
                assert(candidates.take(i + 1).drop_last() =~= candidates.take(i as int));
                assert(candidates.take(i + 1).last() == url@);
                assert(log@.contains(url@) <==> old_log.contains(url@) || claimed_before.contains(
                    url@,
                )) by {
                    lemma_concat_contains(old_log, claimed_before, url@);
                }
            }
            if visited.insert(url.clone()) {
                in_flight.push(url.clone());
                batch.push(url);
                proof {
                    let ghost grown = log@.push(url@);
                    assert(texts(batch@) =~= claimed_before.push(url@));
                    assert(texts(in_flight@) =~= claimed_before.push(url@));
                    assert(grown =~= old_log + texts(batch@));
                    lemma_push_fresh(log@, url@);
                    assert(visited@ =~= grown.to_set()) by {
                        lemma_push_to_set(log@, url@);
                    }
                }
                log = Ghost(log@.push(url@));
            }
            i += 1;
        }
        if batch.len() == 0 && pages.len() >= max_pages {
            stopped = true;
        }
        let ghost next = Scraper {
            base_url,
            base_domain,
            frontier: rest,
            visited,
            in_flight,
            pages,
            max_pages,
            concurrent_requests,
            max_content_length,
            stopped,
            log,
            seen,
        };
        proof {
            assert(candidates.take(n as int) =~= candidates);
            let added = texts(batch@);
            assert forall|k: int| 0 <= k < added.len() implies !old_log.contains(
                #[trigger] added[k],
            ) && next.log@.contains(added[k]) by {
                assert(next.log@[old_log.len() + k] == added[k]);
                if old_log.contains(added[k]) {
                    let j = old_log.index_of(added[k]);
                    assert(next.log@[j] == added[k]);
                }
            }
            assert(added.no_duplicates()) by {
                assert forall|a: int, b: int|
                    0 <= a < added.len() && 0 <= b < added.len() && a != b implies added[a]
                    != added[b] by {
                    assert(next.log@[old_log.len() + a] == added[a]);
                    assert(next.log@[old_log.len() + b] == added[b]);
                }
            }
            assert forall|x: Seq<char>| old_log.contains(x) implies next.log@.contains(x) by {
                lemma_concat_contains(old_log, added, x);
            }
            assert(next.visited@ =~= old_visited.union(added.to_set())) by {
                assert forall|x: Seq<char>| next.log@.contains(x) <==> old_log.contains(x)
                    || added.contains(x) by {
                    lemma_concat_contains(old_log, added, x);
                }
            }
            assert forall|k: int| 0 <= k < next.collected().len() implies {
                &&& next.log@.contains((#[trigger] next.collected()[k]).url)
                &&& !next.in_flight().contains(next.collected()[k].url)
            } by {
                assert(before.collected()[k] == next.collected()[k]);
                let u = next.collected()[k].url;
                assert(old_log.contains(u));
                if added.contains(u) {
                    let j = added.index_of(u);
                    assert(!old_log.contains(added[j]));
                }
            }
            assert forall|k: int| 0 <= k < next.frontier().len() implies (
            #[trigger] next.frontier()[k] == next.base() || is_site_link(
                next.base(),
                next.domain(),
                next.frontier()[k],
            )) by {
                assert(next.frontier()[k] == before.frontier()[k + n]);
            }
            lemma_claimed(candidates, old_visited);
            assert forall|k: int| 0 <= k < next.seen@.len() implies next.visited@.contains(
                #[trigger] next.seen@[k],
            ) || next.frontier().contains(next.seen@[k]) by {
                let url = next.seen@[k];
                assert(before.seen@[k] == url);
                if !old_visited.contains(url) {
                    let j = before.frontier().index_of(url);
                    if j < n {
                        assert(candidates[j] == url);
                        assert(added.contains(url));
                        assert(added.to_set().contains(url));
                    } else {
                        assert(next.frontier()[j - n] == url);
                    }
                }
            }
            assert(next.wf());
        }
        *self = Scraper {
            base_url,
            base_domain,
            frontier: rest,
            visited,
            in_flight,
            pages,
            max_pages,
            concurrent_requests,
            max_content_length,
            stopped,
            log,
            seen,
        };
        batch
    }

    /// Reports the attempt on `url`, one of the URLs in flight. The URL
    /// leaves the batch. Where the attempt gives a page, the page is
    /// collected and the links found in it that stay on the site join the
    /// back of the frontier; else nothing is collected. When the last URL
    /// of the batch is reported, the page count is checked.
    ///
    /// A URL that is not in flight changes nothing.
    pub fn record(&mut self, url: &str, attempt: &Attempt) -> (r: Recorded)
        ensures
            final(self).wf(),
            final(self).same_site(old(self)),
            final(self).fetch_log() == old(self).fetch_log(),
            final(self).visited() == old(self).visited(),
            !old(self).in_flight().contains(url@) ==> {
                &&& r == Recorded::NotInFlight
                &&& *final(self) == *old(self)
            },
            old(self).in_flight().contains(url@) ==> {
                &&& final(self).in_flight() == old(self).in_flight().remove(
                    old(self).in_flight().index_of(url@),
                )
                &&& match fetch_result(
                    old(self).base(),
                    old(self).domain(),
                    old(self).content_limit(),
                    url@,
                    attempt@,
                ) {
                    Ok(fetched) => {
                        &&& r == Recorded::Collected
                        &&& final(self).collected() == old(self).collected().push(fetched.page)
                        &&& final(self).frontier() == old(self).frontier() + fetched.links
                        &&& final(self).discovered() == old(self).discovered() + fetched.links
                    },
                    Err(outcome) => {
                        &&& r == Recorded::Dropped(outcome)
                        &&& final(self).collected() == old(self).collected()
                        &&& final(self).frontier() == old(self).frontier()
                        &&& final(self).discovered() == old(self).discovered()
                    },
                }
                &&& final(self).stopped() == (final(self).in_flight().len() == 0
                    && final(self).collected().len() >= final(self).max_pages())
            },
    {
        proof {
            use_type_invariant(&*self);
        }
        let owned = url.to_owned();
        let ghost flying = texts(self.in_flight@);
        let mut k: usize = 0;
        while k < self.in_flight.len()
            invariant
                k <= self.in_flight.len(),
                *self == *old(self),
                flying == texts(self.in_flight@),
                owned@ == url@,
                forall|j: int| 0 <= j < k ==> flying[j] != url@,
            ensures
                k <= self.in_flight.len(),
                forall|j: int| 0 <= j < k ==> flying[j] != url@,
                k < self.in_flight.len() ==> flying[k as int] == url@,
            decreases self.in_flight.len() - k,
        {
            if self.in_flight[k] == owned {
                assert(flying[k as int] == self.in_flight@[k as int]@);
                break;
            }
            assert(flying[k as int] == self.in_flight@[k as int]@);
            k += 1;
        }
        if k == self.in_flight.len() {
            proof {
                if flying.contains(url@) {
                    let j = flying.index_of(url@);
                    assert(flying[j] == url@);
                }
            }
            return Recorded::NotInFlight;
        }
        proof {
            assert(flying.contains(url@));
            let j = flying.index_of(url@);
            assert(flying[j] == url@);
            assert(j == k);
        }
        let ghost before = *self;
        let mut taken = Scraper::idle();
        std::mem::swap(self, &mut taken);
        let Scraper {
            base_url,
            base_domain,
            mut frontier,
            visited,
            mut in_flight,
            mut pages,
            max_pages,
            concurrent_requests,
            max_content_length,
            mut stopped,
            log,
            mut seen,
        } = taken;
        in_flight.remove(k);
        let ghost left = texts(in_flight@);
        proof {
            assert(left =~= flying.remove(k as int));
            assert forall|a: int| 0 <= a < left.len() implies (#[trigger] left[a]) == flying[if a
                < k {
                a
            } else {
                a + 1
            }] by {}
            assert(!left.contains(url@)) by {
                if left.contains(url@) {
                    let a = left.index_of(url@);
                    assert(left[a] == flying[if a < k { a } else { a + 1 }]);
                }
            }
        }
        let ghost old_pages = page_views(pages@);
        let ghost old_frontier = texts(frontier@);
        let ghost mut added = Seq::<Seq<char>>::empty();
        let result = visit(base_url.as_str(), &base_domain, max_content_length, url, attempt);
        let recorded = match result {
            Ok(fetched) => {
                let Fetched { page, links } = fetched;
                let mut links = links;
                let ghost found = texts(links@);
                let ghost raw_links = links@;
                pages.push(page);
                frontier.append(&mut links);
                seen = Ghost(seen@ + found);
                proof {
                    assert(page_views(pages@) =~= old_pages.push(page@));
                    assert(texts(frontier@) =~= old_frontier + found);
                    assert forall|i: int| 0 <= i < found.len() implies is_site_link(
                        base_url@,
                        opt_text(base_domain),
                        #[trigger] found[i],
                    ) by {
                        assert(found[i] == raw_links[i]@);
                    }
                    added = found;
                }
                Recorded::Collected
            },
            Err(outcome) => Recorded::Dropped(outcome),
        };
        if in_flight.len() == 0 && pages.len() >= max_pages {
            stopped = true;
        }
        let ghost next = Scraper {
            base_url,
            base_domain,
            frontier,
            visited,
            in_flight,
            pages,
            max_pages,
            concurrent_requests,
            max_content_length,
            stopped,
            log,
            seen,
        };
        proof {
            assert(next.frontier() =~= old_frontier + added);
            assert(next.seen@ =~= before.seen@ + added);
            assert forall|i: int| 0 <= i < next.seen@.len() implies next.visited@.contains(
                #[trigger] next.seen@[i],
            ) || next.frontier().contains(next.seen@[i]) by {
                let url = next.seen@[i];
                if i < before.seen@.len() {
                    assert(before.seen@[i] == url);
                    if !before.visited@.contains(url) {
                        let j = before.frontier().index_of(url);
                        assert(next.frontier()[j] == url);
                    }
                } else {
                    assert(next.frontier()[old_frontier.len() + (i - before.seen@.len())] == url);
                }
            }
            assert forall|i: int| 0 <= i < next.frontier().len() implies (
            #[trigger] next.frontier()[i] == next.base() || is_site_link(
                next.base(),
                next.domain(),
                next.frontier()[i],
            )) by {
                if i < old_frontier.len() {
                    assert(next.frontier()[i] == before.frontier()[i]);
                } else {
                    assert(next.frontier()[i] == added[i - old_frontier.len()]);
                }
            }
            assert(next.in_flight().no_duplicates()) by {
                assert forall|a: int, b: int|
                    0 <= a < left.len() && 0 <= b < left.len() && a != b implies left[a]
                    != left[b] by {
                    assert(left[a] == flying[if a < k { a } else { a + 1 }]);
                    assert(left[b] == flying[if b < k { b } else { b + 1 }]);
                }
            }
            assert forall|a: int| 0 <= a < left.len() implies next.log@.contains(
                #[trigger] left[a],
            ) by {
                assert(left[a] == flying[if a < k { a } else { a + 1 }]);
            }
            assert(next.log@.contains(url@)) by {
                assert(flying[k as int] == url@);
            }
            assert forall|i: int| 0 <= i < next.collected().len() implies {
                &&& total_len((#[trigger] next.collected()[i]).paragraphs)
                    <= next.max_content_length
                &&& next.log@.contains(next.collected()[i].url)
                &&& !next.in_flight().contains(next.collected()[i].url)
            } by {
                if i < old_pages.len() {
                    assert(next.collected()[i] == before.collected()[i]);
                    let u = next.collected()[i].url;
                    if left.contains(u) {
                        let a = left.index_of(u);
                        assert(left[a] == flying[if a < k { a } else { a + 1 }]);
                        assert(flying.contains(u));
                    }
                }
            }
            assert forall|i: int, j: int| 0 <= i < j < next.collected().len() implies (
            #[trigger] next.collected()[i]).url != (#[trigger] next.collected()[j]).url by {
                assert(next.collected()[i] == before.collected()[i]);
                if j < old_pages.len() {
                    assert(next.collected()[j] == before.collected()[j]);
                } else {
                    assert(!flying.contains(before.collected()[i].url));
                }
            }
            assert(next.wf());
        }
        *self = Scraper {
            base_url,
            base_domain,
            frontier,
            visited,
            in_flight,
            pages,
            max_pages,
            concurrent_requests,
            max_content_length,
            stopped,
            log,
            seen,
        };
        recorded
    }

    /// Gives up every URL that is still in flight, as after a failure below
    /// HTTP: the batch is complete, and nothing is collected for them.
    fn settle(&mut self)
        ensures
            final(self).wf(),
            final(self).same_site(old(self)),
            final(self).in_flight().len() == 0,
            final(self).collected() == old(self).collected(),
            final(self).frontier() == old(self).frontier(),
            final(self).discovered() == old(self).discovered(),
            final(self).fetch_log() == old(self).fetch_log(),
            final(self).visited() == old(self).visited(),
            old(self).in_flight().len() == 0 ==> final(self).stopped() == old(self).stopped(),
    {
        proof {
            use_type_invariant(&*self);
        }
        while self.in_flight.len() > 0
            invariant
                self.wf(),
                self.same_site(old(self)),
                self.collected() == old(self).collected(),
                self.frontier() == old(self).frontier(),
                self.discovered() == old(self).discovered(),
                self.fetch_log() == old(self).fetch_log(),
                self.visited() == old(self).visited(),
                old(self).in_flight().len() == 0 ==> self.in_flight().len() == 0,
                old(self).in_flight().len() == 0 ==> self.stopped() == old(self).stopped(),
            decreases self.in_flight().len(),
        {
            let url = self.in_flight[0].clone();
            proof {
                assert(self.in_flight()[0] == url@);
                assert(self.in_flight().contains(url@));
            }
            let _ = self.record(url.as_str(), &Attempt::Failed);
        }
    }

    /// Runs the crawl to its end. `fetch` is handed each batch and gives the
    /// attempts on its URLs, in the order in which they are to be reported;
    /// a URL of the batch that it gives no attempt for is given up, and an
    /// attempt on any other URL is ignored. A batch is never larger than
    /// `concurrency`.
    ///
    /// The crawl ends after finitely many batches, whatever `fetch` gives.
    /// No URL leaves the visited set, and where the page count did not end
    /// the crawl, every URL that was pending has been claimed: the frontier
    /// was worked off, not dropped. A crawl that is over already stays as it
    /// is. With a `concurrency` of zero no URL can ever be fetched: then
    /// nothing happens.
    pub fn scrape<F: Fn(Vec<String>) -> Vec<(String, Attempt)>>(&mut self, fetch: F)
        requires
            forall|batch: Vec<String>| #[trigger] fetch.requires((batch,)),
        ensures
            final(self).wf(),
            final(self).same_site(old(self)),
            old(self).concurrency() > 0 ==> final(self).done() && final(self).in_flight().len()
                == 0,
            old(self).concurrency() == 0 ==> *final(self) == *old(self),
            old(self).done() ==> *final(self) == *old(self),
            final(self).collected().len() <= final(self).max_pages() + final(self).concurrency(),
            old(self).collected().is_prefix_of(final(self).collected()),
            old(self).visited().subset_of(final(self).visited()),
            old(self).concurrency() > 0 && !final(self).stopped() ==> forall|i: int|
                0 <= i < old(self).frontier().len() ==> final(self).visited().contains(
                    #[trigger] old(self).frontier()[i],
                ),
            old(self).discovered().is_prefix_of(final(self).discovered()),
            old(self).concurrency() > 0 && !final(self).stopped() ==> forall|i: int|
                0 <= i < final(self).discovered().len() ==> final(self).visited().contains(
                    #[trigger] final(self).discovered()[i],
                ),
    {
        proof {
            use_type_invariant(&*self);
        }
        if self.concurrent_requests == 0 || self.is_done() {
            proof {
                self.lemma_discovered_kept();
            }
            return;
        }
        let ghost pending_at_start = self.frontier();
        let ghost visited_at_start = self.visited();
        self.settle();
        proof {
            assert forall|i: int| 0 <= i < pending_at_start.len() implies self.visited().contains(
                #[trigger] pending_at_start[i],
            ) || self.frontier().contains(pending_at_start[i]) by {
                assert(self.frontier()[i] == pending_at_start[i]);
            }
        }
        while !self.is_done()
            invariant
                self.wf(),
                self.same_site(old(self)),
                self.concurrent_requests > 0,
                self.in_flight().len() == 0,
                old(self).collected().is_prefix_of(self.collected()),
                old(self).discovered().is_prefix_of(self.discovered()),
                pending_at_start == old(self).frontier(),
                visited_at_start == old(self).visited(),
                visited_at_start.subset_of(self.visited()),
                forall|i: int|
                    0 <= i < pending_at_start.len() ==> self.visited().contains(
                        #[trigger] pending_at_start[i],
                    ) || self.frontier().contains(pending_at_start[i]),
                forall|batch: Vec<String>| #[trigger] fetch.requires((batch,)),
            decreases
                    self.max_pages + self.concurrent_requests - self.collected().len(),
                    self.frontier().len(),
        {
            let ghost pages_before = self.collected();
            let ghost found_before = self.discovered();
            let ghost pending_before = self.frontier();
            let ghost visited_before = self.visited();
            let batch = self.next_batch();
            let ghost pending = self.frontier();
            let ghost visited = self.visited();
            assert(pending.len() < pending_before.len());
            proof {
                let n = smaller(
                    self.concurrent_requests as int,
                    pending_before.len() as int,
                );
                let candidates = pending_before.take(n);
                lemma_claimed(candidates, visited_before);
                assert forall|i: int| 0 <= i < pending_at_start.len() implies visited.contains(
                    #[trigger] pending_at_start[i],
                ) || pending.contains(pending_at_start[i]) by {
                    let url = pending_at_start[i];
                    if !visited_before.contains(url) {
                        let j = pending_before.index_of(url);
                        if j < n {
                            assert(candidates[j] == url);
                            assert(texts(batch@).contains(url));
                            assert(texts(batch@).to_set().contains(url));
                        } else {
                            assert(pending[j - n] == url);
                        }
                    }
                }
            }
            let reports = fetch(batch);
            let mut i: usize = 0;
            while i < reports.len()
                invariant
                    i <= reports.len(),
                    self.wf(),
                    self.same_site(old(self)),
                    self.concurrent_requests > 0,
                    pages_before.is_prefix_of(self.collected()),
                    self.collected().len() > pages_before.len() || self.frontier().len()
                        == pending.len(),
                    self.visited() == visited,
                    pending.is_prefix_of(self.frontier()),
                    found_before.is_prefix_of(self.discovered()),
                decreases reports.len() - i,
            {
                let _ = self.record(reports[i].0.as_str(), &reports[i].1);
                i += 1;
            }
            self.settle();
            proof {
                assert forall|i: int|
                    0 <= i < pending_at_start.len() implies self.visited().contains(
                    #[trigger] pending_at_start[i],
                ) || self.frontier().contains(pending_at_start[i]) by {
                    let url = pending_at_start[i];
                    if !visited.contains(url) {
                        let k = pending.index_of(url);
                        assert(self.frontier()[k] == url);
                    }
                }
            }
        }
        proof {
            self.lemma_discovered_kept();
            if !self.stopped() {
                assert forall|i: int|
                    0 <= i < pending_at_start.len() implies self.visited().contains(
                    #[trigger] pending_at_start[i],
                ) by {
                    if self.frontier().contains(pending_at_start[i]) {
                        let k = self.frontier().index_of(pending_at_start[i]);
                        assert(0 <= k < self.frontier().len());
                    }
                }
            }
        }
    }

    /// Whether the crawl is over.
    pub fn is_done(&self) -> (done: bool)
        ensures
            done == self.done(),
    {
        self.stopped || (self.frontier.len() == 0 && self.in_flight.len() == 0)
    }

    /// The pages collected so far.
    pub fn pages(&self) -> (pages: &Vec<Page>)
        ensures
            page_views(pages@) == self.collected(),
    {
        &self.pages
    }

    /// Ends the crawl and gives the pages it collected.
    pub fn into_pages(self) -> (pages: Vec<Page>)
        ensures
            page_views(pages@) == self.collected(),
    {
        self.pages
    }
}

} // verus!
