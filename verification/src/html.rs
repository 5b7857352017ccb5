//! Reading attributes out of HTML documents, by way of `scraper`.
use scraper::{Html, Selector};
use vstd::prelude::*;

verus! {

/// What `scraper` reads out of a document. `scraper::Html::parse_document`
/// parses it, `scraper::Html::select` walks the elements that match the
/// selector which `scraper::Selector::parse` made of `selector`, and for each of
/// them, in that order, there is the value that `scraper::node::Element::attr`
/// gives for `attribute`, or `None` where the element has no such attribute.
/// `None` as a whole where the selector does not parse.
pub uninterp spec fn selected_attributes(
    document: Seq<char>,
    selector: Seq<char>,
    attribute: Seq<char>,
) -> Option<Seq<Option<Seq<char>>>>;

/// Calls `scraper::Selector::parse`, `scraper::Html::parse_document` and
/// `scraper::Html::select`, and `scraper::node::Element::attr` on each element
/// that comes out. The contract only names the outcome.
#[verifier::external_body]
pub(crate) fn select_attributes(document: &str, selector: &str, attribute: &str) -> (found: Option<
    Vec<Option<String>>,
>)
    ensures
        found.deep_view() == selected_attributes(document@, selector@, attribute@),
{
    let Ok(selector) = Selector::parse(selector) else {
        return None;
    };
    let html = Html::parse_document(document);
    let mut found = Vec::new();
    for element in html.select(&selector) {
        found.push(element.value().attr(attribute).map(str::to_owned));
    }
    Some(found)
}

} // verus!
