//! What the summarizer is asked and what is made of its answer: the text
//! that presents the collected pages, and the text that stands for an answer
//! without content.

use vstd::prelude::*;
use crate::crawl::page_views;
use crate::page::{heading_views, texts, Heading, HeadingView, Page, PageView, Timestamp};

verus! {

/// The text of a digit.
pub open spec fn digit_text(d: nat) -> Seq<char> {
    if d == 0 {
        "0"@
    } else if d == 1 {
        "1"@
    } else if d == 2 {
        "2"@
    } else if d == 3 {
        "3"@
    } else if d == 4 {
        "4"@
    } else if d == 5 {
        "5"@
    } else if d == 6 {
        "6"@
    } else if d == 7 {
        "7"@
    } else if d == 8 {
        "8"@
    } else {
        "9"@
    }
}

/// A number in decimal digits.
pub open spec fn decimal(n: nat) -> Seq<char>
    decreases n,
{
    if n < 10 {
        digit_text(n)
    } else {
        decimal(n / 10) + digit_text(n % 10)
    }
}

/// The parts, each two of them separated by `separator`.
pub open spec fn joined(parts: Seq<Seq<char>>, separator: Seq<char>) -> Seq<char>
    decreases parts.len(),
{
    if parts.len() == 0 {
        Seq::empty()
    } else if parts.len() == 1 {
        parts[0]
    } else {
        joined(parts.drop_last(), separator) + separator + parts.last()
    }
}

/// The parts, one after the other.
pub open spec fn concatenated(parts: Seq<Seq<char>>) -> Seq<char>
    decreases parts.len(),
{
    if parts.len() == 0 {
        Seq::empty()
    } else {
        concatenated(parts.drop_last()) + parts.last()
    }
}

/// A heading as the summarizer reads it: its level, a colon and its text.
pub open spec fn heading_line(heading: HeadingView) -> Seq<char> {
    decimal(heading.level as nat) + ": "@ + heading.text
}

/// The lines of a sequence of headings.
pub open spec fn heading_lines(headings: Seq<HeadingView>) -> Seq<Seq<char>> {
    Seq::new(headings.len(), |i: int| heading_line(headings[i]))
}

/// A text, or the mark of a missing one.
pub open spec fn or_missing(text: Option<Seq<char>>) -> Seq<char> {
    match text {
        Some(t) => t,
        None => "N/A"@,
    }
}

/// The RFC 3339 text of an instant in UTC, where the calendar holds the
/// instant.
pub uninterp spec fn rfc3339_text(at: Timestamp) -> Option<Seq<char>>;

/// The publication date as the summarizer reads it.
pub open spec fn date_text(published_at: Option<Timestamp>) -> Seq<char> {
    match published_at {
        Some(at) => or_missing(rfc3339_text(at)),
        None => "N/A"@,
    }
}

/// A page as the summarizer reads it, with `date` for its publication date.
pub open spec fn page_section(page: PageView, date: Seq<char>) -> Seq<char> {
    "URL: "@ + page.url + "\nTitle: "@ + page.title + "\nMeta: "@ + or_missing(
        page.meta_description,
    ) + "\nAuthor: "@ + or_missing(page.author) + "\nDate: "@ + date + "\nHeadings: "@ + joined(
        heading_lines(page.headings),
        ", "@,
    ) + "\nContent: "@ + joined(page.paragraphs, "\n"@) + "\nExtract: "@ + or_missing(page.extract)
        + "\n\n"@
}

/// The sections of a sequence of pages.
pub open spec fn page_sections(pages: Seq<PageView>) -> Seq<Seq<char>> {
    Seq::new(pages.len(), |i: int| page_section(pages[i], date_text(pages[i].published_at)))
}

/// The request that presents `pages` to the summarizer.
pub open spec fn prompt_text(pages: Seq<PageView>) -> Seq<char> {
    "Aşağıdaki web sitesi içeriklerini analiz et ve blockchain/crypto projesi olarak değerlendir:\n\n"@
        + concatenated(page_sections(pages))
}

/// The summary that an answer gives: its content, or the text that stands
/// for an answer without content.
pub open spec fn analysis_text(content: Option<Seq<char>>) -> Seq<char> {
    match content {
        Some(text) => text,
        None => "Analiz yapılamadı"@,
    }
}

/// Calls `chrono::DateTime::from_timestamp` and `DateTime::to_rfc3339` on
/// what it gives. Trusted: the outcome depends on the instant alone.
#[verifier::external_body]
fn format_rfc3339(at: Timestamp) -> (text: Option<String>)
    ensures
        crate::page::opt_text(text) == rfc3339_text(at),
{
    match chrono::DateTime::from_timestamp(at.secs, at.nanos) {
        Some(date) => Some(date.to_rfc3339()),
        None => None,
    }
}

/// The text of a digit.
fn digit(d: u8) -> (text: &'static str)
    requires
        d < 10,
    ensures
        text@ == digit_text(d as nat),
{
    if d == 0 {
        "0"
    } else if d == 1 {
        "1"
    } else if d == 2 {
        "2"
    } else if d == 3 {
        "3"
    } else if d == 4 {
        "4"
    } else if d == 5 {
        "5"
    } else if d == 6 {
        "6"
    } else if d == 7 {
        "7"
    } else if d == 8 {
        "8"
    } else {
        "9"
    }
}

/// A number below 256 in decimal digits.
pub fn decimal_text(n: u8) -> (text: String)
    ensures
        text@ == decimal(n as nat),
{
    let mut text = String::new();
    if n >= 100 {
        text.append(digit(n / 100));
    }
    if n >= 10 {
        text.append(digit((n / 10) % 10));
    }
    text.append(digit(n % 10));
    proof {
        let m = n as nat;
        if m >= 100 {
            assert(decimal(m / 100) == digit_text(m / 100));
            assert(decimal(m / 10) == decimal(m / 10 / 10) + digit_text((m / 10) % 10));
            assert(m / 10 / 10 == m / 100);
            assert(text@ =~= decimal(m));
        } else if m >= 10 {
            assert(decimal(m / 10) == digit_text(m / 10));
            assert((m / 10) % 10 == m / 10);
            assert(text@ =~= decimal(m));
        } else {
            assert(text@ =~= decimal(m));
        }
    }
    text
}

/// Joins texts with a separator between each two.
pub fn join(parts: &Vec<String>, separator: &str) -> (text: String)
    ensures
        text@ == joined(texts(parts@), separator@),
{
    let ghost all = texts(parts@);
    let mut text = String::new();
    let mut i: usize = 0;
    assert(all.take(0) =~= Seq::<Seq<char>>::empty());
    while i < parts.len()
        invariant
            i <= parts.len(),
            all == texts(parts@),
            text@ == joined(all.take(i as int), separator@),
        decreases parts.len() - i,
    {
        proof {
            assert(all.take(i + 1).drop_last() =~= all.take(i as int));
            assert(all.take(i + 1).last() == parts@[i as int]@);
            if i == 0 {
                assert(text@ + parts@[0]@ =~= parts@[0]@);
            }
        }
        if i > 0 {
            text.append(separator);
        }
        text.append(parts[i].as_str());
        i += 1;
    }
    assert(all.take(i as int) =~= all);
    text
}

/// The lines of the headings of a page.
fn lines_of(headings: &Vec<Heading>) -> (lines: Vec<String>)
    ensures
        texts(lines@) == heading_lines(heading_views(headings@)),
{
    let mut lines: Vec<String> = Vec::new();
    let mut i: usize = 0;
    while i < headings.len()
        invariant
            i <= headings.len(),
            lines.len() == i,
            forall|k: int|
                0 <= k < i ==> (#[trigger] lines@[k])@ == heading_line(headings@[k]@),
        decreases headings.len() - i,
    {
        let mut line = decimal_text(headings[i].level);
        line.append(": ");
        line.append(headings[i].text.as_str());
        lines.push(line);
        i += 1;
    }
    assert(texts(lines@) =~= heading_lines(heading_views(headings@)));
    lines
}

/// Appends a text, or the mark of a missing one.
fn append_or_missing(text: &mut String, part: &Option<String>)
    ensures
        final(text)@ == old(text)@ + or_missing(crate::page::opt_text(*part)),
{
    match part {
        Some(t) => text.append(t.as_str()),
        None => text.append("N/A"),
    }
}

/// Presents one page to the summarizer, with `date` for its publication
/// date.
pub fn section_of(page: &Page, date: &str) -> (text: String)
    ensures
        text@ == page_section(page@, date@),
{
    let mut text = "URL: ".to_owned();
    text.append(page.url.as_str());
    text.append("\nTitle: ");
    text.append(page.title.as_str());
    text.append("\nMeta: ");
    append_or_missing(&mut text, &page.meta_description);
    text.append("\nAuthor: ");
    append_or_missing(&mut text, &page.author);
    text.append("\nDate: ");
    text.append(date);
    text.append("\nHeadings: ");
    let lines = lines_of(&page.headings);
    text.append(join(&lines, ", ").as_str());
    text.append("\nContent: ");
    text.append(join(&page.paragraphs, "\n").as_str());
    text.append("\nExtract: ");
    append_or_missing(&mut text, &page.extract);
    text.append("\n\n");
    text
}

/// The publication date of a page as the summarizer reads it.
fn date_of(published_at: Option<Timestamp>) -> (text: String)
    ensures
        text@ == date_text(published_at),
{
    match published_at {
        Some(at) => match format_rfc3339(at) {
            Some(text) => text,
            None => "N/A".to_owned(),
        },
        None => "N/A".to_owned(),
    }
}

/// The request that presents the collected pages to the summarizer: a line
/// of instruction, then every page with its fields, in order.
pub fn prompt(pages: &Vec<Page>) -> (text: String)
    ensures
        text@ == prompt_text(page_views(pages@)),
{
    let ghost sections = page_sections(page_views(pages@));
    let mut text =
        "Aşağıdaki web sitesi içeriklerini analiz et ve blockchain/crypto projesi olarak değerlendir:\n\n".to_owned();
    let ghost head = text@;
    let mut i: usize = 0;
    assert(sections.take(0) =~= Seq::<Seq<char>>::empty());
    assert(head + concatenated(sections.take(0)) =~= head);
    while i < pages.len()
        invariant
            i <= pages.len(),
            sections == page_sections(page_views(pages@)),
            text@ == head + concatenated(sections.take(i as int)),
        decreases pages.len() - i,
    {
        let date = date_of(pages[i].published_at);
        let section = section_of(&pages[i], date.as_str());
        proof {
            assert(sections.take(i + 1).drop_last() =~= sections.take(i as int));
            assert(sections.take(i + 1).last() == section@);
            assert(head + concatenated(sections.take(i as int)) + section@ =~= head + (
            concatenated(sections.take(i as int)) + section@));
        }
        text.append(section.as_str());
        i += 1;
    }
    assert(sections.take(i as int) =~= sections);
    text
}

/// The summary that an answer gives: its content, or the text that stands
/// for an answer without content.
pub fn analysis_of(content: Option<String>) -> (text: String)
    ensures
        text@ == analysis_text(crate::page::opt_text(content)),
{
    match content {
        Some(text) => text,
        None => "Analiz yapılamadı".to_owned(),
    }
}

} // verus!
