//! The three fields that a catalog page yields, and how they are read off
//! the page.

use vstd::prelude::*;
use crate::text::{chars_of, string_of, trim, trimmed};
use crate::work::WorkType;

verus! {

/// `scraper::error::SelectorErrorKind`, carried through as it comes.
#[verifier::external_type_specification]
#[verifier::external_body]
pub struct ExSelectorErrorKind(scraper::error::SelectorErrorKind);

/// What the logic reads of an element that a locator selected.
#[derive(Clone, Debug, PartialEq, Eq)]
pub struct MatchedNode {
    /// The text of the element: its descendant text nodes, in document
    /// order, joined without a separator.
    pub text: String,
    /// The value of the attribute that was asked for, if the element has
    /// it.
    pub attribute: Option<String>,
}

/// A selected element with its texts as sequences of characters.
pub struct NodeView {
    pub text: Seq<char>,
    pub attribute: Option<Seq<char>>,
}

impl View for MatchedNode {
    type V = NodeView;

    open spec fn view(&self) -> NodeView {
        NodeView { text: self.text@, attribute: self.attribute.deep_view() }
    }
}

impl DeepView for MatchedNode {
    type V = NodeView;

    open spec fn deep_view(&self) -> NodeView {
        self@
    }
}

/// Whether `scraper::Selector::parse` accepts `locator`.
pub uninterp spec fn locator_parses(locator: Seq<char>) -> bool;

/// The elements of the document `page` that `locator` selects, in document
/// order, each with its text and with the value of its attribute
/// `attribute` (`scraper::Html::parse_document`, `scraper::Html::select`,
/// `scraper::ElementRef::text`, `scraper::node::Element::attr`).
pub uninterp spec fn located(page: Seq<char>, locator: Seq<char>, attribute: Seq<char>) -> Seq<
    NodeView,
>;

/// Parses `locator` with `scraper::Selector::parse` and `page` with
/// `scraper::Html::parse_document`, walks the selected elements with
/// `scraper::Html::select`, and reads of each its text with
/// `scraper::ElementRef::text` and its attribute `attribute` with
/// `scraper::node::Element::attr`. The call fails exactly when the locator
/// is no valid selector; what it returns otherwise depends on the three
/// strings alone.
#[verifier::external_body]
fn select(page: &str, locator: &str, attribute: &str) -> (r: Result<
    Vec<MatchedNode>,
    scraper::error::SelectorErrorKind,
>)
    ensures
        r is Ok <==> locator_parses(locator@),
        r matches Ok(nodes) ==> nodes.deep_view() == located(page@, locator@, attribute@),
{
    let selector = scraper::Selector::parse(locator)?;
    let document = scraper::Html::parse_document(page);
    let mut nodes = Vec::new();
    for element in document.select(&selector) {
        nodes.push(MatchedNode {
            text: element.text().collect::<Vec<_>>().join(""),
            attribute: element.value().attr(attribute).map(String::from),
        });
    }
    Ok(nodes)
}

/// What a catalog page says of a work.
#[derive(Clone, Debug, PartialEq, Eq)]
pub struct ExtractedFields {
    /// The product id that the page carries.
    pub product_id: String,
    /// The title of the work.
    pub title: String,
    /// The name of the publisher, without white space around it; empty
    /// where the page names none.
    pub publisher_name: String,
}

/// The fields of a work as sequences of characters.
pub struct FieldsView {
    pub product_id: Seq<char>,
    pub title: Seq<char>,
    pub publisher_name: Seq<char>,
}

impl View for ExtractedFields {
    type V = FieldsView;

    open spec fn view(&self) -> FieldsView {
        FieldsView {
            product_id: self.product_id@,
            title: self.title@,
            publisher_name: self.publisher_name@,
        }
    }
}

/// Why a page did not yield the fields of a work.
#[derive(Clone, Copy, Debug, PartialEq, Eq, Structural)]
pub enum ExtractError {
    /// No element carries the product id, or a selected element lacks the
    /// attribute that holds it.
    ProductIdNotFound,
    /// No element holds the title.
    TitleNotFound,
    /// A locator of the work type is no valid query.
    LocatorRejected,
}

/// The name of the attribute that holds the product id.
pub open spec fn product_id_attr() -> Seq<char> {
    "data-product-id"@
}

/// The product id that the selected elements give: the attribute of the
/// last one, provided that there is an element and that every element has
/// the attribute.
pub open spec fn product_id_among(nodes: Seq<NodeView>) -> Option<Seq<char>> {
    if nodes.len() > 0 && (forall|i: int| 0 <= i < nodes.len() ==> nodes[i].attribute is Some) {
        nodes.last().attribute
    } else {
        None
    }
}

/// The title that the selected elements give: the text of the last one.
pub open spec fn title_among(nodes: Seq<NodeView>) -> Option<Seq<char>> {
    if nodes.len() > 0 {
        Some(nodes.last().text)
    } else {
        None
    }
}

/// The publisher's name that the selected elements give: the text of the
/// last one, trimmed; empty where nothing was selected.
pub open spec fn publisher_among(nodes: Seq<NodeView>) -> Seq<char> {
    if nodes.len() > 0 {
        trimmed(nodes.last().text)
    } else {
        Seq::empty()
    }
}

/// The fields that the selected elements give. A missing product id is
/// reported first, then a missing title; a missing publisher is no error.
pub open spec fn assembled(
    titles: Seq<NodeView>,
    product_ids: Seq<NodeView>,
    publishers: Seq<NodeView>,
) -> Result<FieldsView, ExtractError> {
    match (product_id_among(product_ids), title_among(titles)) {
        (None, _) => Err(ExtractError::ProductIdNotFound),
        (Some(_), None) => Err(ExtractError::TitleNotFound),
        (Some(product_id), Some(title)) => Ok(
            FieldsView { product_id, title, publisher_name: publisher_among(publishers) },
        ),
    }
}

/// The fields that the page `page` yields under three locators. A locator
/// that is no valid query is an error of its own, whatever the page holds.
pub open spec fn extracted_with(
    page: Seq<char>,
    title_locator: Seq<char>,
    product_id_locator: Seq<char>,
    publisher_locator: Seq<char>,
) -> Result<FieldsView, ExtractError> {
    if locator_parses(title_locator) && locator_parses(product_id_locator) && locator_parses(
        publisher_locator,
    ) {
        assembled(
            located(page, title_locator, product_id_attr()),
            located(page, product_id_locator, product_id_attr()),
            located(page, publisher_locator, product_id_attr()),
        )
    } else {
        Err(ExtractError::LocatorRejected)
    }
}

/// The fields that the page `page` yields under the locators of `work`.
pub open spec fn extracted(work: WorkType, page: Seq<char>) -> Result<FieldsView, ExtractError> {
    extracted_with(
        page,
        work.title_locator_spec(),
        work.product_id_locator_spec(),
        work.publisher_locator_spec(),
    )
}

/// The outcome of an extraction with its fields as sequences of characters.
pub open spec fn outcome_view(r: Result<ExtractedFields, ExtractError>) -> Result<
    FieldsView,
    ExtractError,
> {
    match r {
        Ok(fields) => Ok(fields@),
        Err(e) => Err(e),
    }
}

/// Picks the product id that the selected elements give.
fn pick_product_id(nodes: &Vec<MatchedNode>) -> (r: Option<String>)
    ensures
        r.deep_view() == product_id_among(nodes.deep_view()),
{
    let ghost model = nodes.deep_view();
    assert(model.len() == nodes.len());
    if nodes.len() == 0 {
        return None;
    }
    let mut i: usize = 0;
    while i < nodes.len()
        invariant
            i <= nodes.len(),
            model == nodes.deep_view(),
            forall|j: int| 0 <= j < i ==> model[j].attribute is Some,
        decreases nodes.len() - i,
    {
        assert(model[i as int] == nodes[i as int]@);
        if nodes[i].attribute.is_none() {
            return None;
        }
        i = i + 1;
    }
    let last = nodes.len() - 1;
    assert(model[last as int] == nodes[last as int]@);
    nodes[last].attribute.clone()
}

/// Gathers the fields of a work from what the three locators selected on
/// its page: the title is the text of the last title element, the product
/// id is the attribute of the last product-id element, and the publisher's
/// name is the trimmed text of the last publisher element. A product-id
/// element without the attribute counts as no product id at all.
pub fn assemble(
    titles: &Vec<MatchedNode>,
    product_ids: &Vec<MatchedNode>,
    publishers: &Vec<MatchedNode>,
) -> (r: Result<ExtractedFields, ExtractError>)
    ensures
        outcome_view(r) == assembled(
            titles.deep_view(),
            product_ids.deep_view(),
            publishers.deep_view(),
        ),
{
    assert(titles.deep_view().len() == titles.len());
    assert(publishers.deep_view().len() == publishers.len());
    let product_id = match pick_product_id(product_ids) {
        Some(p) => p,
        None => {
            return Err(ExtractError::ProductIdNotFound);
        },
    };
    if titles.len() == 0 {
        return Err(ExtractError::TitleNotFound);
    }
    let title = titles[titles.len() - 1].text.clone();
    assert(title@ == titles.deep_view().last().text);
    let publisher_name = if publishers.len() == 0 {
        String::new()
    } else {
        let raw = chars_of(publishers[publishers.len() - 1].text.as_str());
        assert(raw@ == publishers.deep_view().last().text);
        string_of(&trim(&raw))
    };
    Ok(ExtractedFields { product_id, title, publisher_name })
}

/// Reads the fields of a work off a page, with the three locators given.
pub fn extract_with(
    page: &str,
    title_locator: &str,
    product_id_locator: &str,
    publisher_locator: &str,
) -> (r: Result<ExtractedFields, ExtractError>)
    ensures
        outcome_view(r) == extracted_with(
            page@,
            title_locator@,
            product_id_locator@,
            publisher_locator@,
        ),
{
    let titles = match select(page, title_locator, "data-product-id") {
        Ok(nodes) => nodes,
        Err(_) => {
            return Err(ExtractError::LocatorRejected);
        },
    };
    let product_ids = match select(page, product_id_locator, "data-product-id") {
        Ok(nodes) => nodes,
        Err(_) => {
            return Err(ExtractError::LocatorRejected);
        },
    };
    let publishers = match select(page, publisher_locator, "data-product-id") {
        Ok(nodes) => nodes,
        Err(_) => {
            return Err(ExtractError::LocatorRejected);
        },
    };
    assemble(&titles, &product_ids, &publishers)
}

/// Reads the fields of a work off its page, with the locators of its work
/// type.
pub fn extract(work: WorkType, page: &str) -> (r: Result<ExtractedFields, ExtractError>)
    ensures
        outcome_view(r) == extracted(work, page@),
{
    extract_with(
        page,
        work.title_locator(),
        work.product_id_locator(),
        work.publisher_locator(),
    )
}

} // verus!
