//! From the text of one fetched document to its `Page` and to the links that
//! stay on the site.
//!
//! Each step comes twice: a function on what the queries gave, whose contract
//! is exact on any values, and a function on the document text, which makes
//! the queries and hands their results on.

use vstd::prelude::*;
use crate::html::{
    element_views, opt_texts, select, select_attr, selected, selected_attr, Element, ElementView,
};
use crate::link::{join_url, joined_url, Link, LinkView};
use crate::page::{
    heading_views, opt_text, parse_rfc3339, rfc3339_instant, texts, total_len, truncated, Heading,
    HeadingView, Page, PageView, Timestamp,
};
use crate::text::{trim, trimmed};

verus! {

/// What the queries on one document gave.
#[derive(Clone, Debug, PartialEq, Eq)]
pub struct Selection {
    /// The `title` elements.
    pub titles: Vec<Element>,
    /// The `content` attribute of each `meta` element named `description`.
    pub descriptions: Vec<Option<String>>,
    /// The `content` attribute of each `meta` element named `author`.
    pub authors: Vec<Option<String>>,
    /// The instant that the `datetime` attribute of the first `time` element
    /// denotes.
    pub published_at: Option<Timestamp>,
    /// The elements `h1` to `h6`.
    pub headings: Vec<Element>,
    /// The `p` elements.
    pub paragraphs: Vec<Element>,
}

/// What a `Selection` holds, as plain values.
pub ghost struct SelectionView {
    pub titles: Seq<ElementView>,
    pub descriptions: Seq<Option<Seq<char>>>,
    pub authors: Seq<Option<Seq<char>>>,
    pub published_at: Option<Timestamp>,
    pub headings: Seq<ElementView>,
    pub paragraphs: Seq<ElementView>,
}

impl View for Selection {
    type V = SelectionView;

    open spec fn view(&self) -> SelectionView {
        SelectionView {
            titles: element_views(self.titles@),
            descriptions: opt_texts(self.descriptions@),
            authors: opt_texts(self.authors@),
            published_at: self.published_at,
            headings: element_views(self.headings@),
            paragraphs: element_views(self.paragraphs@),
        }
    }
}

/// The first of a sequence of optional values; nothing where the sequence is
/// empty or its first value is missing.
pub open spec fn first_value(found: Seq<Option<Seq<char>>>) -> Option<Seq<char>> {
    if found.len() > 0 {
        found[0]
    } else {
        None
    }
}

/// The publication time that the `datetime` attributes of the `time`
/// elements give: what the first of them denotes, if anything.
pub open spec fn published_of(times: Seq<Option<Seq<char>>>) -> Option<Timestamp> {
    match first_value(times) {
        Some(text) => rfc3339_instant(text),
        None => None,
    }
}

/// What the queries on the document `body` give.
pub open spec fn selection_of(body: Seq<char>) -> SelectionView {
    SelectionView {
        titles: selected(body, "title"@),
        descriptions: selected_attr(body, "meta[name='description']"@, "content"@),
        authors: selected_attr(body, "meta[name='author']"@, "content"@),
        published_at: published_of(selected_attr(body, "time"@, "datetime"@)),
        headings: selected(body, "h1, h2, h3, h4, h5, h6"@),
        paragraphs: selected(body, "p"@),
    }
}

/// The title that `title` elements give: the trimmed text of the first, or
/// of the marker that stands for a missing title.
pub open spec fn title_of(titles: Seq<ElementView>) -> Seq<char> {
    if titles.len() > 0 {
        trimmed(titles[0].text)
    } else {
        trimmed("Başlık bulunamadı"@)
    }
}

/// The level of a heading with the tag `name`: the digit that follows the
/// first character where that is 1 to 6, else 1.
pub open spec fn heading_level(name: Seq<char>) -> u8 {
    if name.len() > 1 && 0x31 <= name[1] as u32 <= 0x36 {
        (name[1] as u32 - 0x30) as u8
    } else {
        1
    }
}

/// The headings that matched elements give, in order: each with its level and
/// its trimmed text, without those whose trimmed text is empty.
pub open spec fn headings_of(found: Seq<ElementView>) -> Seq<HeadingView>
    decreases found.len(),
{
    if found.len() == 0 {
        Seq::empty()
    } else {
        let before = headings_of(found.drop_last());
        let text = trimmed(found.last().text);
        if text.len() > 0 {
            before.push(HeadingView { level: heading_level(found.last().name), text })
        } else {
            before
        }
    }
}

/// The paragraphs that matched elements give, in order: the trimmed text of
/// each, without the empty ones.
pub open spec fn paragraphs_of(found: Seq<ElementView>) -> Seq<Seq<char>>
    decreases found.len(),
{
    if found.len() == 0 {
        Seq::empty()
    } else {
        let before = paragraphs_of(found.drop_last());
        let text = trimmed(found.last().text);
        if text.len() > 0 {
            before.push(text)
        } else {
            before
        }
    }
}

/// The short text that stands for a page: its meta description, else its
/// first paragraph, else nothing.
pub open spec fn extract_of(
    meta_description: Option<Seq<char>>,
    paragraphs: Seq<Seq<char>>,
) -> Option<Seq<char>> {
    match meta_description {
        Some(text) => Some(text),
        None => if paragraphs.len() > 0 {
            Some(paragraphs[0])
        } else {
            None
        },
    }
}

/// The page of a document that was fetched from `url` and on which the
/// queries gave `selection`, under the content limit `max`.
pub open spec fn assembled_page(url: Seq<char>, selection: SelectionView, max: nat) -> PageView {
    let meta_description = first_value(selection.descriptions);
    let paragraphs = truncated(paragraphs_of(selection.paragraphs), max);
    PageView {
        url,
        title: title_of(selection.titles),
        meta_description,
        published_at: selection.published_at,
        author: first_value(selection.authors),
        headings: headings_of(selection.headings),
        paragraphs,
        extract: extract_of(meta_description, paragraphs),
    }
}

/// The page that the document `body`, fetched from `url`, gives under the
/// content limit `max`.
pub open spec fn extracted_page(url: Seq<char>, body: Seq<char>, max: nat) -> PageView {
    assembled_page(url, selection_of(body), max)
}

/// The views of a sequence of optional links.
pub open spec fn link_views(v: Seq<Option<Link>>) -> Seq<Option<LinkView>> {
    Seq::new(
        v.len(),
        |i: int|
            match v[i] {
                Some(link) => Some(link@),
                None => None,
            },
    )
}

/// What each reference of a document at `base` resolves to: nothing for an
/// element without a reference, and for a reference that does not resolve.
pub open spec fn resolved_links(base: Seq<char>, hrefs: Seq<Option<Seq<char>>>) -> Seq<
    Option<LinkView>,
> {
    Seq::new(
        hrefs.len(),
        |i: int|
            match hrefs[i] {
                Some(href) => joined_url(base, href),
                None => None,
            },
    )
}

/// The URLs of the resolved links whose domain is `domain`, in order.
pub open spec fn kept_links(domain: Option<Seq<char>>, resolved: Seq<Option<LinkView>>) -> Seq<
    Seq<char>,
>
    decreases resolved.len(),
{
    if resolved.len() == 0 {
        Seq::empty()
    } else {
        let before = kept_links(domain, resolved.drop_last());
        match resolved.last() {
            Some(link) => if link.domain == domain {
                before.push(link.url)
            } else {
                before
            },
            None => before,
        }
    }
}

/// The links of the document `body` at `base` that stay on the site: each
/// reference of an `a` element that resolves to a URL with the domain
/// `domain`, in order, as that URL.
pub open spec fn discovered_links(
    base: Seq<char>,
    domain: Option<Seq<char>>,
    body: Seq<char>,
) -> Seq<Seq<char>> {
    kept_links(domain, resolved_links(base, selected_attr(body, "a"@, "href"@)))
}

/// Whether `url` is what some reference resolves to against `base`, with the
/// domain `domain`.
pub open spec fn is_site_link(base: Seq<char>, domain: Option<Seq<char>>, url: Seq<char>) -> bool {
    exists|href: Seq<char>| #[trigger] joined_url(base, href) == Some(LinkView { url, domain })
}

/// Every link that is kept is the URL of one of the resolved links, and that
/// one has the domain asked for: no link to another domain is kept.
pub proof fn lemma_kept_links_stay(domain: Option<Seq<char>>, resolved: Seq<Option<LinkView>>)
    ensures
        forall|i: int|
            0 <= i < kept_links(domain, resolved).len() ==> resolved.contains(
                Some(LinkView { url: #[trigger] kept_links(domain, resolved)[i], domain }),
            ),
    decreases resolved.len(),
{
    if resolved.len() > 0 {
        let front = resolved.drop_last();
        lemma_kept_links_stay(domain, front);
        let kept = kept_links(domain, resolved);
        assert forall|i: int| 0 <= i < kept.len() implies resolved.contains(
            Some(LinkView { url: #[trigger] kept[i], domain }),
        ) by {
            if i < kept_links(domain, front).len() {
                let found = Some(LinkView { url: kept[i], domain });
                assert(front.contains(found));
                let k = front.index_of(found);
                assert(resolved[k] == found);
            } else {
                assert(resolved[resolved.len() - 1] == Some(LinkView { url: kept[i], domain }));
            }
        }
    }
}

/// None of the links discovered in a document leads off the site: each is
/// what a reference resolves to against `base`, with the domain `domain`.
pub proof fn lemma_discovered_links_stay(
    base: Seq<char>,
    domain: Option<Seq<char>>,
    hrefs: Seq<Option<Seq<char>>>,
)
    ensures
        forall|i: int|
            0 <= i < kept_links(domain, resolved_links(base, hrefs)).len() ==> is_site_link(
                base,
                domain,
                #[trigger] kept_links(domain, resolved_links(base, hrefs))[i],
            ),
{
    let resolved = resolved_links(base, hrefs);
    let kept = kept_links(domain, resolved);
    lemma_kept_links_stay(domain, resolved);
    assert forall|i: int| 0 <= i < kept.len() implies is_site_link(
        base,
        domain,
        #[trigger] kept[i],
    ) by {
        let found = Some(LinkView { url: kept[i], domain });
        assert(resolved.contains(found));
        let k = resolved.index_of(found);
        assert(resolved[k] == found);
        assert(joined_url(base, hrefs[k]->0) == found);
    }
}

/// Copies an optional string.
fn copy_opt(s: &Option<String>) -> (r: Option<String>)
    ensures
        opt_text(r) == opt_text(*s),
{
    match s {
        Some(text) => Some(text.clone()),
        None => None,
    }
}

/// Whether two optional strings hold the same text, or both nothing.
fn same_opt(a: &Option<String>, b: &Option<String>) -> (same: bool)
    ensures
        same == (opt_text(*a) == opt_text(*b)),
{
    match (a, b) {
        (Some(x), Some(y)) => *x == *y,
        (None, None) => true,
        _ => false,
    }
}

/// The first of the values found.
fn first_of(found: &Vec<Option<String>>) -> (r: Option<String>)
    ensures
        opt_text(r) == first_value(opt_texts(found@)),
{
    if found.len() > 0 {
        assert(opt_texts(found@)[0] == opt_text(found@[0]));
        copy_opt(&found[0])
    } else {
        None
    }
}

/// The level of a heading from the name of its tag.
pub fn level_of(name: &str) -> (level: u8)
    ensures
        level == heading_level(name@),
        1 <= level <= 6,
{
    if name.unicode_len() > 1 {
        let n: u32 = name.get_char(1) as u32;
        if 0x31 <= n && n <= 0x36 {
            return (n - 0x30) as u8;
        }
    }
    1
}

/// The headings of matched elements.
fn collect_headings(found: &Vec<Element>) -> (headings: Vec<Heading>)
    ensures
        heading_views(headings@) == headings_of(element_views(found@)),
        forall|i: int| 0 <= i < headings.len() ==> 1 <= (#[trigger] headings@[i]).level <= 6,
{
    let ghost all = element_views(found@);
    let mut headings: Vec<Heading> = Vec::new();
    let mut i: usize = 0;
    assert(all.take(0) =~= Seq::empty());
    assert(heading_views(headings@) =~= Seq::empty());
    while i < found.len()
        invariant
            i <= found.len(),
            all == element_views(found@),
            heading_views(headings@) == headings_of(all.take(i as int)),
            forall|k: int| 0 <= k < headings.len() ==> 1 <= (#[trigger] headings@[k]).level <= 6,
        decreases found.len() - i,
    {
        let text = trim(found[i].text.as_str());
        let ghost before = heading_views(headings@);
        proof {
            assert(all.take(i + 1).drop_last() =~= all.take(i as int));
            assert(all.take(i + 1).last() == found@[i as int]@);
        }
        if !text.as_str().is_empty() {
            let level = level_of(found[i].name.as_str());
            headings.push(Heading { level, text });
            assert(heading_views(headings@) =~= before.push(headings@.last()@));
        }
        i += 1;
    }
    assert(all.take(i as int) =~= all);
    headings
}

/// The paragraphs of matched elements.
fn collect_paragraphs(found: &Vec<Element>) -> (paragraphs: Vec<String>)
    ensures
        texts(paragraphs@) == paragraphs_of(element_views(found@)),
{
    let ghost all = element_views(found@);
    let mut paragraphs: Vec<String> = Vec::new();
    let mut i: usize = 0;
    assert(all.take(0) =~= Seq::empty());
    assert(texts(paragraphs@) =~= Seq::empty());
    while i < found.len()
        invariant
            i <= found.len(),
            all == element_views(found@),
            texts(paragraphs@) == paragraphs_of(all.take(i as int)),
        decreases found.len() - i,
    {
        let text = trim(found[i].text.as_str());
        let ghost before = texts(paragraphs@);
        proof {
            assert(all.take(i + 1).drop_last() =~= all.take(i as int));
            assert(all.take(i + 1).last() == found@[i as int]@);
        }
        if !text.as_str().is_empty() {
            paragraphs.push(text);
            assert(texts(paragraphs@) =~= before.push(paragraphs@.last()@));
        }
        i += 1;
    }
    assert(all.take(i as int) =~= all);
    paragraphs
}

/// Makes the queries of the extraction on the document `body`.
pub fn query_document(body: &str) -> (selection: Selection)
    ensures
        selection@ == selection_of(body@),
{
    let times = select_attr(body, "time", "datetime");
    let published_at = match first_of(&times) {
        Some(text) => parse_rfc3339(text.as_str()),
        None => None,
    };
    Selection {
        titles: select(body, "title"),
        descriptions: select_attr(body, "meta[name='description']", "content"),
        authors: select_attr(body, "meta[name='author']", "content"),
        published_at,
        headings: select(body, "h1, h2, h3, h4, h5, h6"),
        paragraphs: select(body, "p"),
    }
}

/// Assembles the page of a document that was fetched from `url` and on
/// which the queries gave `selection`. The paragraphs are cut to the limit
/// `max_content_length` from the end, so their summed length never exceeds
/// it; every heading has a level from 1 to 6.
pub fn assemble_page(url: &str, selection: &Selection, max_content_length: usize) -> (page: Page)
    ensures
        page@ == assembled_page(url@, selection@, max_content_length as nat),
        total_len(page@.paragraphs) <= max_content_length,
        forall|i: int|
            0 <= i < page@.headings.len() ==> 1 <= (#[trigger] page@.headings[i]).level <= 6,
{
    let title = if selection.titles.len() > 0 {
        assert(element_views(selection.titles@)[0] == selection.titles@[0]@);
        trim(selection.titles[0].text.as_str())
    } else {
        trim("Başlık bulunamadı")
    };
    let mut page = Page::new(url.to_owned(), title);
    page.meta_description = first_of(&selection.descriptions);
    page.author = first_of(&selection.authors);
    page.published_at = selection.published_at;
    page.headings = collect_headings(&selection.headings);
    page.paragraphs = collect_paragraphs(&selection.paragraphs);
    page.truncate_content(max_content_length);
    page.extract = match &page.meta_description {
        Some(text) => Some(text.clone()),
        None => if page.paragraphs.len() > 0 {
            Some(page.paragraphs[0].clone())
        } else {
            None
        },
    };
    assert forall|i: int| 0 <= i < page@.headings.len() implies 1 <= (
    #[trigger] page@.headings[i]).level <= 6 by {
        assert(page@.headings[i] == page.headings@[i]@);
    }
    page
}

/// Extracts the page of the document `body` that was fetched from `url`.
pub fn format_page(url: &str, body: &str, max_content_length: usize) -> (page: Page)
    ensures
        page@ == extracted_page(url@, body@, max_content_length as nat),
        total_len(page@.paragraphs) <= max_content_length,
        forall|i: int|
            0 <= i < page@.headings.len() ==> 1 <= (#[trigger] page@.headings[i]).level <= 6,
{
    let selection = query_document(body);
    assemble_page(url, &selection, max_content_length)
}

/// Resolves the reference of each `a` element of the document `body`
/// against `base`.
pub fn resolve_links(base: &str, body: &str) -> (resolved: Vec<Option<Link>>)
    ensures
        link_views(resolved@) == resolved_links(base@, selected_attr(body@, "a"@, "href"@)),
{
    let hrefs = select_attr(body, "a", "href");
    let ghost all = opt_texts(hrefs@);
    let mut resolved: Vec<Option<Link>> = Vec::new();
    let mut i: usize = 0;
    while i < hrefs.len()
        invariant
            i <= hrefs.len(),
            all == opt_texts(hrefs@),
            resolved.len() == i,
            forall|k: int|
                0 <= k < i ==> (#[trigger] link_views(resolved@)[k]) == resolved_links(
                    base@,
                    all,
                )[k],
        decreases hrefs.len() - i,
    {
        let ghost before = link_views(resolved@);
        let link = match &hrefs[i] {
            Some(href) => join_url(base, href.as_str()),
            None => None,
        };
        assert(all[i as int] == opt_text(hrefs@[i as int]));
        resolved.push(link);
        assert forall|k: int| 0 <= k < i + 1 implies (#[trigger] link_views(resolved@)[k])
            == resolved_links(base@, all)[k] by {
            if k < i {
                assert(link_views(resolved@)[k] == before[k]);
            }
        }
        i += 1;
    }
    assert(link_views(resolved@) =~= resolved_links(base@, all));
    resolved
}

/// Keeps, of resolved links, the URLs of those whose domain is `domain`.
pub fn keep_site_links(domain: &Option<String>, found: &Vec<Option<Link>>) -> (kept: Vec<String>)
    ensures
        texts(kept@) == kept_links(opt_text(*domain), link_views(found@)),
{
    let ghost all = link_views(found@);
    let mut kept: Vec<String> = Vec::new();
    let mut i: usize = 0;
    assert(all.take(0) =~= Seq::empty());
    assert(texts(kept@) =~= Seq::empty());
    while i < found.len()
        invariant
            i <= found.len(),
            all == link_views(found@),
            texts(kept@) == kept_links(opt_text(*domain), all.take(i as int)),
        decreases found.len() - i,
    {
        let ghost before = texts(kept@);
        proof {
            assert(all.take(i + 1).drop_last() =~= all.take(i as int));
            assert(all.take(i + 1).last() == all[i as int]);
        }
        match &found[i] {
            Some(link) => {
                if same_opt(&link.domain, domain) {
                    kept.push(link.url.clone());
                    assert(texts(kept@) =~= before.push(kept@.last()@));
                }
            },
            None => {},
        }
        i += 1;
    }
    assert(all.take(i as int) =~= all);
    kept
}

/// The links of the document `body` that resolve against `base` to a URL
/// with the domain `domain`, in document order. Links to any other domain
/// are left out.
pub fn discover_links(base: &str, domain: &Option<String>, body: &str) -> (links: Vec<String>)
    ensures
        texts(links@) == discovered_links(base@, opt_text(*domain), body@),
        forall|i: int|
            0 <= i < links.len() ==> is_site_link(base@, opt_text(*domain), #[trigger] links@[i]@),
{
    let resolved = resolve_links(base, body);
    let links = keep_site_links(domain, &resolved);
    proof {
        lemma_discovered_links_stay(
            base@,
            opt_text(*domain),
            selected_attr(body@, "a"@, "href"@),
        );
        assert forall|k: int| 0 <= k < links.len() implies is_site_link(
            base@,
            opt_text(*domain),
            #[trigger] links@[k]@,
        ) by {
            assert(texts(links@)[k] == links@[k]@);
        }
    }
    links
}

} // verus!
