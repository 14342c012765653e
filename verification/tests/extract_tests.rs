use scraper_service::extract::{
    assemble_page, discover_links, format_page, keep_site_links, level_of, query_document,
    resolve_links, Selection,
};
use scraper_service::html::Element;
use scraper_service::link::Link;
use scraper_service::page::{Heading, Timestamp};

const DOCUMENT: &str = r#"<!DOCTYPE html>
<html>
<head>
  <title>  The Title
  </title>
  <meta name="description" content="A short description">
  <meta name="author" content="Ada">
</head>
<body>
  <h1> Main </h1>
  <p>First paragraph.</p>
  <h2>Sub <em>heading</em></h2>
  <h3>   </h3>
  <p>   </p>
  <p>Second <b>paragraph</b>.</p>
  <time datetime="1996-12-19T16:39:57-08:00">then</time>
  <time datetime="2001-01-01T00:00:00Z">later</time>
  <h6>Deep</h6>
  <a href="/about">About</a>
  <a href="https://other.org/x">Other</a>
  <a>No reference</a>
  <a href="contact.html#top">Contact</a>
  <a href="https://example.com/about">About again</a>
</body>
</html>"#;

fn element(name: &str, text: &str) -> Element {
    Element { name: name.to_string(), text: text.to_string() }
}

fn empty_selection() -> Selection {
    Selection {
        titles: vec![],
        descriptions: vec![],
        authors: vec![],
        published_at: None,
        headings: vec![],
        paragraphs: vec![],
    }
}

fn of_len(c: char, n: usize) -> String {
    std::iter::repeat(c).take(n).collect()
}

#[test]
fn format_page_extracts_every_field() {
    let page = format_page("https://example.com/", DOCUMENT, 10000);
    assert_eq!(page.url, "https://example.com/");
    assert_eq!(page.title, "The Title");
    assert_eq!(page.meta_description, Some("A short description".to_string()));
    assert_eq!(page.author, Some("Ada".to_string()));
    assert_eq!(page.published_at, Some(Timestamp { secs: 851042397, nanos: 0 }));
    assert_eq!(
        page.headings,
        vec![
            Heading { level: 1, text: "Main".to_string() },
            Heading { level: 2, text: "Sub heading".to_string() },
            Heading { level: 6, text: "Deep".to_string() },
        ]
    );
    assert_eq!(
        page.paragraphs,
        vec!["First paragraph.".to_string(), "Second paragraph.".to_string()]
    );
    assert_eq!(page.extract, Some("A short description".to_string()));
}

#[test]
fn query_document_gives_what_each_selector_matches() {
    let selection = query_document(DOCUMENT);
    assert_eq!(selection.titles.len(), 1);
    assert_eq!(selection.titles[0].name, "title");
    assert_eq!(selection.descriptions, vec![Some("A short description".to_string())]);
    assert_eq!(selection.authors, vec![Some("Ada".to_string())]);
    assert_eq!(selection.published_at, Some(Timestamp { secs: 851042397, nanos: 0 }));
    let names: Vec<&str> = selection.headings.iter().map(|h| h.name.as_str()).collect();
    assert_eq!(names, vec!["h1", "h2", "h3", "h6"]);
    assert_eq!(selection.headings[1].text, "Sub heading");
    assert_eq!(selection.paragraphs.len(), 3);
    assert_eq!(selection.paragraphs[2].text, "Second paragraph.");
}

#[test]
fn a_document_without_anything_gives_the_marker_title_and_no_more() {
    let page = format_page("https://example.com/x", "<html><body></body></html>", 100);
    assert_eq!(page.url, "https://example.com/x");
    assert_eq!(page.title, "Ba\u{15f}l\u{131}k bulunamad\u{131}");
    assert_eq!(page.meta_description, None);
    assert_eq!(page.author, None);
    assert_eq!(page.published_at, None);
    assert!(page.headings.is_empty());
    assert!(page.paragraphs.is_empty());
    assert_eq!(page.extract, None);
}

#[test]
fn the_extract_is_the_first_paragraph_without_a_description() {
    let page = format_page("u", "<p> one </p><p>two</p>", 100);
    assert_eq!(page.extract, Some("one".to_string()));
    assert_eq!(page.paragraphs, vec!["one".to_string(), "two".to_string()]);
}

#[test]
fn the_extract_is_taken_after_the_cut() {
    let page = format_page("u", "<p>one</p><p>two</p>", 2);
    assert!(page.paragraphs.is_empty());
    assert_eq!(page.extract, None);
}

#[test]
fn only_the_first_meta_element_counts() {
    let body = r#"<meta name="description"><meta name="description" content="late">"#;
    let page = format_page("u", body, 100);
    assert_eq!(page.meta_description, None);
    let selection = query_document(body);
    assert_eq!(selection.descriptions, vec![None, Some("late".to_string())]);
}

#[test]
fn a_time_that_is_no_rfc3339_text_gives_no_publication_time() {
    let page = format_page("u", r#"<time datetime="yesterday">x</time>"#, 100);
    assert_eq!(page.published_at, None);
    let page = format_page("u", "<time>x</time>", 100);
    assert_eq!(page.published_at, None);
    let page = format_page(
        "u",
        r#"<time datetime="nope"></time><time datetime="2001-01-01T00:00:00Z"></time>"#,
        100,
    );
    assert_eq!(page.published_at, None);
}

#[test]
fn a_publication_time_keeps_its_fraction_and_ignores_its_offset() {
    let page = format_page("u", r#"<time datetime="1970-01-01T01:00:01.5+01:00">x</time>"#, 100);
    assert_eq!(page.published_at, Some(Timestamp { secs: 1, nanos: 500_000_000 }));
}

#[test]
fn format_page_keeps_two_of_three_paragraphs_of_4000() {
    let body = format!(
        "<html><body><p>{}</p><p>{}</p><p>{}</p></body></html>",
        of_len('a', 4000),
        of_len('b', 4000),
        of_len('c', 4000)
    );
    let page = format_page("u", &body, 8000);
    assert_eq!(page.paragraphs, vec![of_len('a', 4000), of_len('b', 4000)]);
    assert_eq!(page.content_length(), 8000);
}

#[test]
fn assemble_page_keeps_two_of_three_paragraphs_of_4000() {
    let mut selection = empty_selection();
    selection.paragraphs = vec![
        element("p", &of_len('a', 4000)),
        element("p", &of_len('b', 4000)),
        element("p", &of_len('c', 4000)),
    ];
    let page = assemble_page("u", &selection, 8000);
    assert_eq!(page.paragraphs, vec![of_len('a', 4000), of_len('b', 4000)]);
    assert_eq!(page.extract, Some(of_len('a', 4000)));
}

#[test]
fn assemble_page_trims_and_drops_empty_text() {
    let mut selection = empty_selection();
    selection.titles = vec![element("title", "\n\t A title \u{a0}"), element("title", "other")];
    selection.headings = vec![
        element("h2", " two "),
        element("h4", " \u{3000} "),
        element("h5", "five"),
    ];
    selection.paragraphs = vec![element("p", "  "), element("p", " text\n")];
    selection.descriptions = vec![Some(" kept as it is ".to_string())];
    selection.authors = vec![None, Some("late".to_string())];
    selection.published_at = Some(Timestamp { secs: 7, nanos: 8 });
    let page = assemble_page("https://example.com/p", &selection, 100);
    assert_eq!(page.title, "A title");
    assert_eq!(
        page.headings,
        vec![
            Heading { level: 2, text: "two".to_string() },
            Heading { level: 5, text: "five".to_string() },
        ]
    );
    assert_eq!(page.paragraphs, vec!["text".to_string()]);
    assert_eq!(page.meta_description, Some(" kept as it is ".to_string()));
    assert_eq!(page.author, None);
    assert_eq!(page.published_at, Some(Timestamp { secs: 7, nanos: 8 }));
    assert_eq!(page.extract, Some(" kept as it is ".to_string()));
}

#[test]
fn assemble_page_of_nothing_has_the_marker_title() {
    let page = assemble_page("u", &empty_selection(), 0);
    assert_eq!(page.title, "Ba\u{15f}l\u{131}k bulunamad\u{131}");
    assert_eq!(page.extract, None);
}

#[test]
fn the_level_of_a_heading_is_its_numeral() {
    assert_eq!(level_of("h1"), 1);
    assert_eq!(level_of("h2"), 2);
    assert_eq!(level_of("h3"), 3);
    assert_eq!(level_of("h4"), 4);
    assert_eq!(level_of("h5"), 5);
    assert_eq!(level_of("h6"), 6);
}

#[test]
fn the_level_of_any_other_name_is_one() {
    assert_eq!(level_of(""), 1);
    assert_eq!(level_of("h"), 1);
    assert_eq!(level_of("h0"), 1);
    assert_eq!(level_of("h7"), 1);
    assert_eq!(level_of("hx"), 1);
    assert_eq!(level_of("p"), 1);
}

#[test]
fn every_paragraph_sum_stays_within_the_limit() {
    let body = "<p>aaaa</p><p>bbb</p><p>cc</p><p>d</p>";
    let mut limit = 0;
    while limit <= 12 {
        let page = format_page("u", body, limit);
        assert!(page.content_length() <= limit);
        limit += 1;
    }
    assert_eq!(format_page("u", body, 7).paragraphs.len(), 2);
    assert_eq!(format_page("u", body, 6).paragraphs.len(), 1);
    assert_eq!(format_page("u", body, 10).paragraphs.len(), 4);
}

#[test]
fn resolve_links_resolves_each_reference_against_the_base() {
    let resolved = resolve_links("https://example.com/dir/page.html", DOCUMENT);
    assert_eq!(
        resolved,
        vec![
            Some(Link {
                url: "https://example.com/about".to_string(),
                domain: Some("example.com".to_string()),
            }),
            Some(Link {
                url: "https://other.org/x".to_string(),
                domain: Some("other.org".to_string()),
            }),
            None,
            Some(Link {
                url: "https://example.com/dir/contact.html#top".to_string(),
                domain: Some("example.com".to_string()),
            }),
            Some(Link {
                url: "https://example.com/about".to_string(),
                domain: Some("example.com".to_string()),
            }),
        ]
    );
}

#[test]
fn resolve_links_gives_nothing_against_a_base_that_is_no_url() {
    let resolved = resolve_links("not a url", r#"<a href="/a">a</a><a href="https://x.org/">x</a>"#);
    assert_eq!(resolved, vec![None, None]);
}

#[test]
fn keep_site_links_keeps_the_links_of_the_domain_in_order() {
    let link = |url: &str, domain: Option<&str>| {
        Some(Link { url: url.to_string(), domain: domain.map(|d| d.to_string()) })
    };
    let resolved = vec![
        link("https://a.org/1", Some("a.org")),
        link("https://b.org/2", Some("b.org")),
        None,
        link("https://127.0.0.1/3", None),
        link("https://a.org/4", Some("a.org")),
        link("https://a.org/1", Some("a.org")),
    ];
    assert_eq!(
        keep_site_links(&Some("a.org".to_string()), &resolved),
        vec!["https://a.org/1", "https://a.org/4", "https://a.org/1"]
    );
    assert_eq!(keep_site_links(&None, &resolved), vec!["https://127.0.0.1/3"]);
    assert!(keep_site_links(&Some("c.org".to_string()), &resolved).is_empty());
    assert!(keep_site_links(&Some("a.org".to_string()), &vec![]).is_empty());
}

#[test]
fn discover_links_leaves_out_other_domains() {
    let links = discover_links("https://example.com/", &Some("example.com".to_string()), DOCUMENT);
    assert_eq!(
        links,
        vec![
            "https://example.com/about",
            "https://example.com/contact.html#top",
            "https://example.com/about",
        ]
    );
}

#[test]
fn discover_links_takes_a_subdomain_for_another_domain() {
    let body = r#"<a href="https://www.example.com/">w</a><a href="//example.com/s">s</a>"#;
    let links = discover_links("https://example.com/", &Some("example.com".to_string()), body);
    assert_eq!(links, vec!["https://example.com/s"]);
}
