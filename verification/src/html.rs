//! Parsed web pages: a document, the elements in it, and CSS selectors over them.
//!
//! Parsing and selector matching are done by the `scraper` crate. An element is
//! identified by its position in the document's tree, so that everything read
//! from a page is a function of the page's text, a position and a selector.
use crate::text::opt_view;
use vstd::prelude::*;

verus! {

/// `scraper::Html`, a parsed document.
#[verifier::external_type_specification]
#[verifier::external_body]
pub struct ExHtml(scraper::Html);

/// The text that a document was parsed from.
pub uninterp spec fn document_source(doc: scraper::Html) -> Seq<char>;

/// Whether `scraper::Selector::parse` accepts a text as a list of CSS selectors.
pub uninterp spec fn css_valid(selector: Seq<char>) -> bool;

/// The positions of the elements that `scraper::Html::select` yields for a page
/// and a valid selector, in the order in which it yields them.
pub uninterp spec fn page_matches(source: Seq<char>, selector: Seq<char>) -> Seq<usize>;

/// Whether `scraper::Selector::matches` holds of the element at a position.
pub uninterp spec fn element_matches(
    source: Seq<char>,
    element: usize,
    selector: Seq<char>,
) -> bool;

/// The positions of the elements below an element that
/// `scraper::ElementRef::select` yields for a valid selector, in its order.
pub uninterp spec fn matches_below(
    source: Seq<char>,
    element: usize,
    selector: Seq<char>,
) -> Seq<usize>;

/// The value of an element's attribute, as `scraper::ElementRef::attr` has it.
pub uninterp spec fn element_attr(
    source: Seq<char>,
    element: usize,
    name: Seq<char>,
) -> Option<Seq<char>>;

/// The name of an element, as `scraper::node::Element::name` has it.
pub uninterp spec fn element_name(source: Seq<char>, element: usize) -> Seq<char>;

/// The text inside an element: what `scraper::ElementRef::text` yields, joined.
pub uninterp spec fn element_text(source: Seq<char>, element: usize) -> Seq<char>;

/// An element and what it holds as HTML, as `scraper::ElementRef::html` has it.
pub uninterp spec fn element_html(source: Seq<char>, element: usize) -> Seq<char>;

/// A parsed web page. Its view is the text that it was parsed from.
pub struct Page {
    doc: scraper::Html,
}

impl View for Page {
    type V = Seq<char>;

    closed spec fn view(&self) -> Seq<char> {
        document_source(self.doc)
    }
}

/// Calls `scraper::Html::parse_document`. Trusted: the document is that of the text.
#[verifier::external_body]
fn parse_document(text: &str) -> (r: scraper::Html)
    ensures
        document_source(r) == text@,
{
    scraper::Html::parse_document(text)
}

/// Calls `scraper::Selector::parse`. Trusted: whether it accepts a text depends on
/// the text alone.
#[verifier::external_body]
fn parse_selector(selector: &str) -> (r: bool)
    ensures
        r == css_valid(selector@),
{
    scraper::Selector::parse(selector).is_ok()
}

/// Calls `scraper::Html::select` and hands out each element's position in the
/// tree. Trusted: the positions depend on the page's text and the selector alone,
/// they are in ascending order, and `scraper::Selector::matches` holds of each.
#[verifier::external_body]
fn select_in_document(doc: &scraper::Html, selector: &str) -> (r: Vec<usize>)
    requires
        css_valid(selector@),
    ensures
        r@ == page_matches(document_source(*doc), selector@),
        forall|i: int, j: int| 0 <= i < j < r@.len() ==> r@[i] < r@[j],
        forall|k: int|
            0 <= k < r@.len() ==> element_matches(
                document_source(*doc),
                #[trigger] r@[k],
                selector@,
            ),
{
    let selector = scraper::Selector::parse(selector).unwrap();
    let place = |el: scraper::ElementRef| doc.tree.nodes().position(|n| n.id() == el.id());
    doc.select(&selector).map(|el| place(el).unwrap()).collect()
}

/// Calls `scraper::Selector::matches` on the element at a position. Trusted: the
/// answer depends on the page's text, the position and the selector alone.
#[verifier::external_body]
fn matches_element(doc: &scraper::Html, element: usize, selector: &str) -> (r: bool)
    requires
        css_valid(selector@),
    ensures
        r == element_matches(document_source(*doc), element, selector@),
{
    let selector = scraper::Selector::parse(selector).unwrap();
    let el = doc.tree.nodes().nth(element).and_then(scraper::ElementRef::wrap);
    el.map(|el| selector.matches(&el)).unwrap_or_default()
}

/// Calls `scraper::ElementRef::select` on the element at a position and hands out
/// each element's position in the tree. Trusted: the positions depend on the
/// page's text, the position and the selector alone, none occurs twice, and that of
/// the element itself is not among them.
#[verifier::external_body]
fn select_below(doc: &scraper::Html, element: usize, selector: &str) -> (r: Vec<usize>)
    requires
        css_valid(selector@),
    ensures
        r@ == matches_below(document_source(*doc), element, selector@),
        r@.no_duplicates(),
        !r@.contains(element),
{
    let selector = scraper::Selector::parse(selector).unwrap();
    let place = |el: scraper::ElementRef| doc.tree.nodes().position(|n| n.id() == el.id());
    let el = doc.tree.nodes().nth(element).and_then(scraper::ElementRef::wrap);
    el.map(|el| el.select(&selector).map(|el| place(el).unwrap()).collect()).unwrap_or_default()
}

/// Calls `scraper::ElementRef::attr` on the element at a position. Trusted: the
/// value depends on the page's text, the position and the name alone.
#[verifier::external_body]
fn attr_of(doc: &scraper::Html, element: usize, name: &str) -> (r: Option<String>)
    ensures
        opt_view(r) == element_attr(document_source(*doc), element, name@),
{
    let el = doc.tree.nodes().nth(element).and_then(scraper::ElementRef::wrap);
    el.and_then(|el| el.attr(name)).map(str::to_string)
}

/// Calls `scraper::node::Element::name` on the element at a position. Trusted: the
/// name depends on the page's text and the position alone.
#[verifier::external_body]
fn name_of(doc: &scraper::Html, element: usize) -> (r: String)
    ensures
        r@ == element_name(document_source(*doc), element),
{
    let el = doc.tree.nodes().nth(element).and_then(scraper::ElementRef::wrap);
    el.map(|el| el.value().name().to_string()).unwrap_or_default()
}

/// Calls `scraper::ElementRef::text` on the element at a position and joins the
/// pieces. Trusted: the text depends on the page's text and the position alone.
#[verifier::external_body]
fn text_of(doc: &scraper::Html, element: usize) -> (r: String)
    ensures
        r@ == element_text(document_source(*doc), element),
{
    let el = doc.tree.nodes().nth(element).and_then(scraper::ElementRef::wrap);
    el.map(|el| el.text().collect()).unwrap_or_default()
}

/// Calls `scraper::ElementRef::html` on the element at a position. Trusted: the
/// HTML depends on the page's text and the position alone.
#[verifier::external_body]
fn html_of(doc: &scraper::Html, element: usize) -> (r: String)
    ensures
        r@ == element_html(document_source(*doc), element),
{
    let el = doc.tree.nodes().nth(element).and_then(scraper::ElementRef::wrap);
    el.map(|el| el.html()).unwrap_or_default()
}

impl Page {
    /// Parses a page. This never fails: a malformed page gives some document.
    pub fn parse(text: &str) -> (r: Page)
        ensures
            r@ == text@,
    {
        Page { doc: parse_document(text) }
    }

    /// The elements of the page that match a selector, each once and in the order of
    /// their positions. `None` where the selector is not valid.
    pub fn select(&self, selector: &str) -> (r: Option<Vec<usize>>)
        ensures
            r is Some <==> css_valid(selector@),
            r matches Some(elements) ==> {
                &&& elements@ == page_matches(self@, selector@)
                &&& forall|i: int, j: int|
                    0 <= i < j < elements@.len() ==> elements@[i] < elements@[j]
                &&& forall|k: int|
                    0 <= k < elements@.len() ==> element_matches(
                        self@,
                        #[trigger] elements@[k],
                        selector@,
                    )
            },
    {
        if parse_selector(selector) {
            Some(select_in_document(&self.doc, selector))
        } else {
            None
        }
    }

    /// The value of an element's attribute.
    pub fn attr(&self, element: usize, name: &str) -> (r: Option<String>)
        ensures
            opt_view(r) == element_attr(self@, element, name@),
    {
        attr_of(&self.doc, element, name)
    }

    /// The name of an element.
    pub fn name(&self, element: usize) -> (r: String)
        ensures
            r@ == element_name(self@, element),
    {
        name_of(&self.doc, element)
    }

    /// An element as HTML.
    pub fn html(&self, element: usize) -> (r: String)
        ensures
            r@ == element_html(self@, element),
    {
        html_of(&self.doc, element)
    }
}

/// The first element that matches a selector, where the element itself comes
/// before those below it.
pub open spec fn first_including_self(
    source: Seq<char>,
    element: usize,
    selector: Seq<char>,
) -> Option<usize> {
    if element_matches(source, element, selector) {
        Some(element)
    } else if matches_below(source, element, selector).len() > 0 {
        Some(matches_below(source, element, selector)[0])
    } else {
        None
    }
}

/// All elements that match a selector: the element itself, if it does, then those
/// below it.
pub open spec fn all_including_self(
    source: Seq<char>,
    element: usize,
    selector: Seq<char>,
) -> Seq<usize> {
    if element_matches(source, element, selector) {
        seq![element] + matches_below(source, element, selector)
    } else {
        matches_below(source, element, selector)
    }
}

/// The text inside an element.
pub fn link_text(page: &Page, node: usize) -> (r: String)
    ensures
        r@ == element_text(page@, node),
{
    text_of(&page.doc, node)
}

/// Finds the first element that matches a selector, the element itself first.
/// `Err` where the selector is not valid.
pub fn select_first_including_self(page: &Page, element: usize, selector: &str) -> (r: Result<
    Option<usize>,
    (),
>)
    ensures
        r is Ok <==> css_valid(selector@),
        r matches Ok(found) ==> found == first_including_self(page@, element, selector@),
{
    if !parse_selector(selector) {
        return Err(());
    }
    if matches_element(&page.doc, element, selector) {
        Ok(Some(element))
    } else {
        let below = select_below(&page.doc, element, selector);
        if below.len() > 0 {
            Ok(Some(below[0]))
        } else {
            Ok(None)
        }
    }
}

/// Finds all elements that match a selector, the element itself first and each once.
/// `Err` where the selector is not valid.
pub fn select_including_self(page: &Page, element: usize, selector: &str) -> (r: Result<
    Vec<usize>,
    (),
>)
    ensures
        r is Ok <==> css_valid(selector@),
        r matches Ok(found) ==> found@ == all_including_self(page@, element, selector@)
            && found@.no_duplicates(),
{
    if !parse_selector(selector) {
        return Err(());
    }
    let mut elements: Vec<usize> = Vec::new();
    if matches_element(&page.doc, element, selector) {
        elements.push(element);
    }
    let mut below = select_below(&page.doc, element, selector);
    elements.append(&mut below);
    assert(elements@ =~= all_including_self(page@, element, selector@));
    Ok(elements)
}

/// An element that matches a selector is found before everything below it.
pub proof fn law_self_comes_first(source: Seq<char>, element: usize, selector: Seq<char>)
    requires
        element_matches(source, element, selector),
    ensures
        first_including_self(source, element, selector) == Some(element),
        all_including_self(source, element, selector)[0] == element,
{
}

/// What is found first is the first of all that is found, and nothing is found
/// first only where nothing is found at all.
pub proof fn law_first_is_first_of_all(source: Seq<char>, element: usize, selector: Seq<char>)
    ensures
        (match first_including_self(source, element, selector) {
            Some(found) => all_including_self(source, element, selector).len() > 0
                && all_including_self(source, element, selector)[0] == found,
            None => all_including_self(source, element, selector).len() == 0,
        }),
{
}

/// Everything that matches is found and nothing else, the element itself before what is
/// below it, and that in its order. Where the element itself does not match, the first
/// match below it is found first.
pub proof fn law_all_matches_in_order(source: Seq<char>, element: usize, selector: Seq<char>)
    ensures
        ({
            let all = all_including_self(source, element, selector);
            let below = matches_below(source, element, selector);
            let own: int = if element_matches(source, element, selector) {
                1
            } else {
                0
            };
            &&& all.len() == own + below.len()
            &&& own == 1 ==> all[0] == element
            &&& forall|k: int| 0 <= k < below.len() ==> all[own + k] == #[trigger] below[k]
            &&& own == 0 ==> first_including_self(source, element, selector) == (if below.len() > 0 {
                Some(below[0])
            } else {
                None
            })
        }),
{
}

} // verus!
