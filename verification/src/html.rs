//! Queries on an HTML document by CSS selector.

use vstd::prelude::*;

verus! {

/// One element that a query matched: its tag name and the text inside it.
#[derive(Clone, Debug, PartialEq, Eq)]
pub struct Element {
    pub name: String,
    pub text: String,
}

/// What an `Element` holds, as plain values.
pub ghost struct ElementView {
    pub name: Seq<char>,
    pub text: Seq<char>,
}

impl View for Element {
    type V = ElementView;

    open spec fn view(&self) -> ElementView {
        ElementView { name: self.name@, text: self.text@ }
    }
}

/// The views of a sequence of elements.
pub open spec fn element_views(v: Seq<Element>) -> Seq<ElementView> {
    Seq::new(v.len(), |i: int| v[i]@)
}

/// The values of a sequence of optional strings.
pub open spec fn opt_texts(v: Seq<Option<String>>) -> Seq<Option<Seq<char>>> {
    Seq::new(v.len(), |i: int| crate::page::opt_text(v[i]))
}

/// The elements of the document `body` that match `selector`, in the order in
/// which the parsed document yields them; none where `selector` is no valid
/// selector.
pub uninterp spec fn selected(body: Seq<char>, selector: Seq<char>) -> Seq<ElementView>;

/// For each element of the document `body` that matches `selector`, in the
/// same order, the value of its attribute `attr` if it has one; nothing where
/// `selector` is no valid selector.
pub uninterp spec fn selected_attr(body: Seq<char>, selector: Seq<char>, attr: Seq<char>) -> Seq<
    Option<Seq<char>>,
>;

/// Parses `body` with `scraper::Html::parse_document` and `selector` with
/// `scraper::Selector::parse`, and walks `Html::select`. Each match gives its
/// `Element::name` and the concatenation of `ElementRef::text`. Trusted: the
/// result depends on the two texts alone.
#[verifier::external_body]
pub(crate) fn select(body: &str, selector: &str) -> (found: Vec<Element>)
    ensures
        element_views(found@) == selected(body@, selector@),
{
    let document = scraper::Html::parse_document(body);
    let mut found = Vec::new();
    if let Ok(parsed) = scraper::Selector::parse(selector) {
        for element in document.select(&parsed) {
            let name = element.value().name().to_string();
            found.push(Element { name, text: element.text().collect() });
        }
    }
    found
}

/// Parses as `select` does, and gives `Element::attr` of each match.
/// Trusted: the result depends on the three texts alone.
#[verifier::external_body]
pub(crate) fn select_attr(body: &str, selector: &str, attr: &str) -> (found: Vec<Option<String>>)
    ensures
        opt_texts(found@) == selected_attr(body@, selector@, attr@),
{
    let document = scraper::Html::parse_document(body);
    let mut found = Vec::new();
    if let Ok(parsed) = scraper::Selector::parse(selector) {
        for element in document.select(&parsed) {
            found.push(element.value().attr(attr).map(String::from));
        }
    }
    found
}

} // verus!
