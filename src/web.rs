//! Calls into the URL and HTML crates, with what this library relies on.
use vstd::prelude::*;

verus! {

/// The serialization of the absolute URL that `url::Url::parse` reads from
/// `s`, or `None` where it reads none.
pub uninterp spec fn url_serialization(s: Seq<char>) -> Option<Seq<char>>;

/// Relies on `url::Url::parse`, whose result depends on its input alone, and
/// on `From<Url> for String`, which hands out the parsed URL's serialization.
#[verifier::external_body]
pub(crate) fn parse_url(s: &str) -> (r: Option<String>)
    ensures
        match r {
            Some(u) => url_serialization(s@) == Some(u@),
            None => url_serialization(s@) is None,
        },
{
    url::Url::parse(s).ok().map(String::from)
}

/// The texts of a list of optional strings.
pub open spec fn opt_texts(s: Seq<Option<String>>) -> Seq<Option<Seq<char>>> {
    s.map_values(|o: Option<String>| match o {
        Some(t) => Some(t@),
        None => None,
    })
}

/// For each element of the HTML page `html` that the CSS selector `selector`
/// matches, in document order, its attribute `attr`; `None` where a selector
/// does not parse.
pub uninterp spec fn attributes_of(html: Seq<char>, selector: Seq<char>, attr: Seq<char>) -> Option<Seq<Option<Seq<char>>>>;

/// Relies on scraper's `Selector::parse`, `Html::parse_document`,
/// `Html::select` and `ElementRef::attr`: the elements matching a selector
/// in a parsed page and their attributes depend on the page text alone.
#[verifier::external_body]
pub(crate) fn element_attributes(html: &str, selector: &str, attr: &str) -> (r: Option<Vec<Option<String>>>)
    ensures
        match r {
            Some(v) => attributes_of(html@, selector@, attr@) == Some(opt_texts(v@)),
            None => attributes_of(html@, selector@, attr@) is None,
        },
{
    let selector = scraper::Selector::parse(selector).ok()?;
    let page = scraper::Html::parse_document(html);
    Some(page.select(&selector).map(|e| e.attr(attr).map(String::from)).collect())
}

/// For each element of the HTML page `html` that the selector `items`
/// matches, in document order, the text of its first descendant that the
/// selector `child` matches; `None` where a selector does not parse.
pub uninterp spec fn child_texts_of(html: Seq<char>, items: Seq<char>, child: Seq<char>) -> Option<Seq<Option<Seq<char>>>>;

/// Relies on scraper's `Selector::parse`, `Html::parse_document`,
/// `Html::select`, `ElementRef::select` and `ElementRef::text`, which depend
/// on the page text alone.
#[verifier::external_body]
pub(crate) fn child_texts(html: &str, items: &str, child: &str) -> (r: Option<Vec<Option<String>>>)
    ensures
        match r {
            Some(v) => child_texts_of(html@, items@, child@) == Some(opt_texts(v@)),
            None => child_texts_of(html@, items@, child@) is None,
        },
{
    let items = scraper::Selector::parse(items).ok()?;
    let child = scraper::Selector::parse(child).ok()?;
    let page = scraper::Html::parse_document(html);
    Some(page.select(&items).map(|e| e.select(&child).next().map(|c| c.text().collect())).collect())
}

/// For each element of the HTML page `html` that the selector `items`
/// matches, in document order, the attribute `attr` of its first descendant
/// that the selector `child` matches; `None` where a selector does not parse.
pub uninterp spec fn child_attributes_of(html: Seq<char>, items: Seq<char>, child: Seq<char>, attr: Seq<char>) -> Option<Seq<Option<Seq<char>>>>;

/// Relies on scraper's `Selector::parse`, `Html::parse_document`,
/// `Html::select`, `ElementRef::select` and `ElementRef::attr`, which depend
/// on the page text alone.
#[verifier::external_body]
pub(crate) fn child_attributes(html: &str, items: &str, child: &str, attr: &str) -> (r: Option<Vec<Option<String>>>)
    ensures
        match r {
            Some(v) => child_attributes_of(html@, items@, child@, attr@) == Some(opt_texts(v@)),
            None => child_attributes_of(html@, items@, child@, attr@) is None,
        },
{
    let items = scraper::Selector::parse(items).ok()?;
    let child = scraper::Selector::parse(child).ok()?;
    let page = scraper::Html::parse_document(html);
    Some(page.select(&items).map(|e| e.select(&child).next().and_then(|c| c.attr(attr)).map(String::from)).collect())
}

} // verus!
