//! Trusted access to the HTML and URL libraries: the document is handed over
//! as its text, and each query returns plain values.
use vstd::prelude::*;

verus! {

/// How many elements of the document `html` match the selector `container`.
pub uninterp spec fn container_count_of(html: Seq<char>, container: Seq<char>) -> nat;

/// Relies on scraper's `Html::parse_document`, `Selector::parse` and
/// `Html::select`: the number of elements that match `container` (none for a
/// selector that does not parse).
#[verifier::external_body]
pub(crate) fn count_containers(html: &str, container: &str) -> (r: usize)
    ensures
        r as nat == container_count_of(html@, container@),
{
    let doc = scraper::Html::parse_document(html);
    match scraper::Selector::parse(container) {
        Ok(sel) => doc.select(&sel).count(),
        Err(_) => 0,
    }
}

/// The text of the first element matching `field` inside the `index`-th element
/// matching `container`, if there is one.
pub uninterp spec fn container_text_of(
    html: Seq<char>,
    container: Seq<char>,
    index: int,
    field: Seq<char>,
) -> Option<Seq<char>>;

/// Relies on scraper's `Html::select`, `ElementRef::select` and
/// `ElementRef::text`: the concatenated text nodes of the first match.
#[verifier::external_body]
pub(crate) fn container_text(html: &str, container: &str, index: usize, field: &str) -> (r:
    Option<String>)
    ensures
        match r {
            Some(t) => container_text_of(html@, container@, index as int, field@) == Some(t@),
            None => container_text_of(html@, container@, index as int, field@) is None,
        },
{
    let doc = scraper::Html::parse_document(html);
    let outer = scraper::Selector::parse(container).ok()?;
    let inner = scraper::Selector::parse(field).ok()?;
    let node = doc.select(&outer).nth(index)?;
    node.select(&inner).next().map(|e| e.text().collect::<String>())
}

/// The value of attribute `attr` on the first element matching `field` inside
/// the `index`-th element matching `container`, if both exist.
pub uninterp spec fn container_attr_of(
    html: Seq<char>,
    container: Seq<char>,
    index: int,
    field: Seq<char>,
    attr: Seq<char>,
) -> Option<Seq<char>>;

/// Relies on scraper's `Html::select`, `ElementRef::select` and
/// `Element::attr`.
#[verifier::external_body]
pub(crate) fn container_attr(
    html: &str,
    container: &str,
    index: usize,
    field: &str,
    attr: &str,
) -> (r: Option<String>)
    ensures
        match r {
            Some(t) => container_attr_of(html@, container@, index as int, field@, attr@) == Some(
                t@,
            ),
            None => container_attr_of(html@, container@, index as int, field@, attr@) is None,
        },
{
    let doc = scraper::Html::parse_document(html);
    let outer = scraper::Selector::parse(container).ok()?;
    let inner = scraper::Selector::parse(field).ok()?;
    let node = doc.select(&outer).nth(index)?;
    node.select(&inner).next()?.value().attr(attr).map(|a| a.to_string())
}

/// The path of `href` resolved against the absolute URL `base`, if both parse.
pub uninterp spec fn resolved_path_of(base: Seq<char>, href: Seq<char>) -> Option<Seq<char>>;

/// Relies on `url::Url::parse`, `Url::join` and `Url::path`: `href` is resolved
/// against `base` as a browser resolves a link, and only the path is kept.
#[verifier::external_body]
pub(crate) fn resolved_path(base: &str, href: &str) -> (r: Option<String>)
    ensures
        match r {
            Some(p) => resolved_path_of(base@, href@) == Some(p@),
            None => resolved_path_of(base@, href@) is None,
        },
{
    let base = url::Url::parse(base).ok()?;
    let full = base.join(href).ok()?;
    Some(full.path().to_string())
}

} // verus!
