//! Trusted access to the HTML parser: each item here hands one extraction of
//! the external page structure to the scraper crate and names what it
//! returns.  The markup format is not owned by this crate; the selector
//! strings are supplied by the verified parsing logic.

use vstd::prelude::*;

verus! {

/// The outer markup of each element a selector matches in a document, in
/// document order.
pub uninterp spec fn fragments_of(html: Seq<char>, selector: Seq<char>) -> Seq<Seq<char>>;

/// Relies on scraper's `Html::parse_document`, `Selector::parse`,
/// `Html::select` and `ElementRef::html`: the matched elements' markup is a
/// function of the document text and the selector alone; a selector that does
/// not parse matches nothing.
#[verifier::external_body]
pub(crate) fn select_fragments(html: &str, selector: &str) -> (r: Vec<String>)
    ensures
        r.deep_view() == fragments_of(html@, selector@),
{
    let document = scraper::Html::parse_document(html);
    match scraper::Selector::parse(selector) {
        Ok(sel) => document.select(&sel).map(|e| e.html()).collect(),
        Err(_) => Vec::new(),
    }
}

/// The first text node under the first element a selector matches in a
/// fragment.
pub uninterp spec fn first_text_of(fragment: Seq<char>, selector: Seq<char>) -> Option<Seq<char>>;

/// Relies on scraper's `Html::parse_fragment`, `Selector::parse`,
/// `Html::select` and `ElementRef::text`: the first text node of the first
/// matched element is a function of the fragment and the selector alone.
#[verifier::external_body]
pub(crate) fn select_first_text(fragment: &str, selector: &str) -> (r: Option<String>)
    ensures
        r.deep_view() == first_text_of(fragment@, selector@),
{
    let doc = scraper::Html::parse_fragment(fragment);
    match scraper::Selector::parse(selector) {
        Ok(sel) => doc.select(&sel).next().and_then(|e| e.text().next().map(str::to_owned)),
        Err(_) => None,
    }
}

/// The last text node under the first element a selector matches in a
/// fragment.
pub uninterp spec fn last_text_of(fragment: Seq<char>, selector: Seq<char>) -> Option<Seq<char>>;

/// Relies on scraper's `Html::parse_fragment`, `Selector::parse`,
/// `Html::select` and `ElementRef::text`: the last text node of the first
/// matched element is a function of the fragment and the selector alone.
#[verifier::external_body]
pub(crate) fn select_last_text(fragment: &str, selector: &str) -> (r: Option<String>)
    ensures
        r.deep_view() == last_text_of(fragment@, selector@),
{
    let doc = scraper::Html::parse_fragment(fragment);
    match scraper::Selector::parse(selector) {
        Ok(sel) => doc.select(&sel).next().and_then(|e| e.text().last().map(str::to_owned)),
        Err(_) => None,
    }
}

/// Whether a selector matches any element in a fragment.
pub uninterp spec fn has_element(fragment: Seq<char>, selector: Seq<char>) -> bool;

/// Relies on scraper's `Html::parse_fragment`, `Selector::parse` and
/// `Html::select`: whether any element matches is a function of the fragment
/// and the selector alone.
#[verifier::external_body]
pub(crate) fn selector_hits(fragment: &str, selector: &str) -> (r: bool)
    ensures
        r == has_element(fragment@, selector@),
{
    let doc = scraper::Html::parse_fragment(fragment);
    match scraper::Selector::parse(selector) {
        Ok(sel) => doc.select(&sel).next().is_some(),
        Err(_) => false,
    }
}

/// The value of an attribute on the first element a selector matches in a
/// fragment.
pub uninterp spec fn attr_of(fragment: Seq<char>, selector: Seq<char>, attr: Seq<char>) -> Option<
    Seq<char>,
>;

/// Relies on scraper's `Html::parse_fragment`, `Selector::parse`,
/// `Html::select` and `ElementRef::attr`: the attribute value of the first
/// matched element is a function of the fragment, selector and attribute name
/// alone.
#[verifier::external_body]
pub(crate) fn select_first_attr(fragment: &str, selector: &str, attr: &str) -> (r: Option<String>)
    ensures
        r.deep_view() == attr_of(fragment@, selector@, attr@),
{
    let doc = scraper::Html::parse_fragment(fragment);
    match scraper::Selector::parse(selector) {
        Ok(sel) => doc.select(&sel).next().and_then(|e| e.value().attr(attr).map(str::to_owned)),
        Err(_) => None,
    }
}

/// For every element a selector matches in a fragment, in document order, the
/// values of two attributes.
pub uninterp spec fn attr_pairs_of(
    fragment: Seq<char>,
    selector: Seq<char>,
    attr_a: Seq<char>,
    attr_b: Seq<char>,
) -> Seq<(Option<Seq<char>>, Option<Seq<char>>)>;

/// Relies on scraper's `Html::parse_fragment`, `Selector::parse`,
/// `Html::select` and `ElementRef::attr`: the matched elements' attribute
/// values are a function of the fragment, selector and attribute names alone.
#[verifier::external_body]
pub(crate) fn select_attr_pairs(fragment: &str, selector: &str, attr_a: &str, attr_b: &str) -> (r:
    Vec<(Option<String>, Option<String>)>)
    ensures
        r.deep_view() == attr_pairs_of(fragment@, selector@, attr_a@, attr_b@),
{
    let doc = scraper::Html::parse_fragment(fragment);
    match scraper::Selector::parse(selector) {
        Ok(sel) => doc.select(&sel).map(
            |e| (e.value().attr(attr_a).map(str::to_owned), e.value().attr(attr_b).map(str::to_owned)),
        ).collect(),
        Err(_) => Vec::new(),
    }
}

} // verus!
