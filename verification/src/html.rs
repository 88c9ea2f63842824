//! Querying a page with CSS selectors. The parsing and matching are the
//! `scraper` crate's; the library sees each matched element as plain text.

use vstd::prelude::*;
use crate::lists::put_text;
use crate::model::{NovelMetadata, NovelMetadataView};
use crate::text::{copy_str, str_trim, trim};

verus! {

/// What the library reads of one matched element.
#[derive(Clone, Debug)]
pub struct Element {
    /// The tag name.
    pub name: String,
    /// The text of the element's descendants, concatenated in document order.
    pub text: String,
    /// The value of the attribute that the query asked for, where the element has it.
    pub attr: Option<String>,
}

pub struct ElementView {
    pub name: Seq<char>,
    pub text: Seq<char>,
    pub attr: Option<Seq<char>>,
}

impl DeepView for Element {
    type V = ElementView;

    open spec fn deep_view(&self) -> ElementView {
        ElementView { name: self.name@, text: self.text@, attr: self.attr.deep_view() }
    }
}

/// The elements of the document `html` that match the selector group
/// `selector`, in the order in which `Html::select` yields them, each with its
/// value of the attribute `attr`; `None` where `selector` is not a selector group.
pub uninterp spec fn selection(html: Seq<char>, selector: Seq<char>, attr: Seq<char>) -> Option<
    Seq<ElementView>,
>;

/// For each element of the document `html` that matches `outer`, in the order
/// in which `Html::select` yields them, the texts of its descendants that
/// match `inner`, in the order of `ElementRef::select`; `None` where either is
/// not a selector group.
pub uninterp spec fn nested_texts(html: Seq<char>, outer: Seq<char>, inner: Seq<char>) -> Option<
    Seq<Seq<Seq<char>>>,
>;

/// `scraper::Html::parse_document`, `Selector::parse` and `Html::select`:
/// parses `html` as a document and hands back every element that matches
/// `selector`, in the order in which the tree holds them, as its tag name
/// (`Element::name`), its text (`ElementRef::text`, concatenated) and its
/// value of `attr` (`Element::attr`). Parsing never fails; a selector that
/// is not accepted gives `None`. The result is a function of the three texts
/// alone.
#[verifier::external_body]
fn select(html: &str, selector: &str, attr: &str) -> (r: Option<Vec<Element>>)
    ensures
        r.deep_view() == selection(html@, selector@, attr@),
{
    let chosen = scraper::Selector::parse(selector).ok()?;
    let document = scraper::Html::parse_document(html);
    Some(
        document.select(&chosen).map(
            |el| Element {
                name: el.value().name().to_string(),
                text: el.text().collect(),
                attr: el.value().attr(attr).map(|v| v.to_string()),
            },
        ).collect(),
    )
}

/// `scraper::Html::select` followed by `ElementRef::select` on each match:
/// for every element of the document that matches `outer`, the text of each
/// of its descendants that matches `inner`. The result is a function of the
/// three texts alone.
#[verifier::external_body]
fn select_within(html: &str, outer: &str, inner: &str) -> (r: Option<Vec<Vec<String>>>)
    ensures
        r.deep_view() == nested_texts(html@, outer@, inner@),
{
    let first = scraper::Selector::parse(outer).ok()?;
    let second = scraper::Selector::parse(inner).ok()?;
    let document = scraper::Html::parse_document(html);
    Some(
        document.select(&first).map(
            |el| el.select(&second).map(|p| p.text().collect()).collect(),
        ).collect(),
    )
}

/// Why a page could not be read.
#[derive(Clone, Copy, Debug, PartialEq, Eq, Structural)]
pub enum PageError {
    /// A selector was not accepted.
    Selector,
    /// The page is a challenge page in place of the content.
    Blocked,
    /// The address holds no numeric book id.
    NoBookId,
    /// The catalog lists no chapter.
    NoChapters,
    /// No container of a chapter's text is on the page.
    NoContent,
}

pub open spec fn error_text(error: PageError) -> Seq<char> {
    match error {
        PageError::Selector => "Selector error"@,
        PageError::Blocked => "Browser Spider still caught by WAF"@,
        PageError::NoBookId => "Failed to extract book ID for catalog"@,
        PageError::NoChapters => "No chapters found in catalog."@,
        PageError::NoContent => "Failed to find content (WAF or Selector Mismatch). See logs."@,
    }
}

impl PageError {
    /// The error in words.
    pub fn message(&self) -> (r: String)
        ensures
            r@ == error_text(*self),
    {
        match self {
            PageError::Selector => copy_str("Selector error"),
            PageError::Blocked => copy_str("Browser Spider still caught by WAF"),
            PageError::NoBookId => copy_str("Failed to extract book ID for catalog"),
            PageError::NoChapters => copy_str("No chapters found in catalog."),
            PageError::NoContent => copy_str(
                "Failed to find content (WAF or Selector Mismatch). See logs.",
            ),
        }
    }
}

/// What the selector gives on the page, or the error where it is not accepted.
pub open spec fn selected(html: Seq<char>, selector: Seq<char>, attr: Seq<char>) -> Result<
    Seq<ElementView>,
    PageError,
> {
    match selection(html, selector, attr) {
        Some(found) => Ok(found),
        None => Err(PageError::Selector),
    }
}

/// What the two selectors give on the page, or the error where one of them
/// is not accepted.
pub open spec fn selected_within(html: Seq<char>, outer: Seq<char>, inner: Seq<char>) -> Result<
    Seq<Seq<Seq<char>>>,
    PageError,
> {
    match nested_texts(html, outer, inner) {
        Some(found) => Ok(found),
        None => Err(PageError::Selector),
    }
}

pub open spec fn elements_view(r: Result<Vec<Element>, PageError>) -> Result<
    Seq<ElementView>,
    PageError,
> {
    match r {
        Ok(found) => Ok(found.deep_view()),
        Err(e) => Err(e),
    }
}

pub open spec fn nested_view(r: Result<Vec<Vec<String>>, PageError>) -> Result<
    Seq<Seq<Seq<char>>>,
    PageError,
> {
    match r {
        Ok(found) => Ok(found.deep_view()),
        Err(e) => Err(e),
    }
}

/// The elements of the page that match the selector, each with its value of
/// the attribute `attr`.
pub fn elements(html: &str, selector: &str, attr: &str) -> (r: Result<Vec<Element>, PageError>)
    ensures
        elements_view(r) == selected(html@, selector@, attr@),
{
    match select(html, selector, attr) {
        Some(found) => Ok(found),
        None => Err(PageError::Selector),
    }
}

/// For each element of the page that matches `outer`, the texts of its
/// descendants that match `inner`.
pub fn texts_within(html: &str, outer: &str, inner: &str) -> (r: Result<
    Vec<Vec<String>>,
    PageError,
>)
    ensures
        nested_view(r) == selected_within(html@, outer@, inner@),
{
    match select_within(html, outer, inner) {
        Some(found) => Ok(found),
        None => Err(PageError::Selector),
    }
}

/// The view of what a reading of texts gave.
pub open spec fn texts_view(r: Result<Vec<String>, PageError>) -> Result<Seq<Seq<char>>, PageError> {
    match r {
        Ok(list) => Ok(list.deep_view()),
        Err(e) => Err(e),
    }
}

pub open spec fn pairs_view(r: Result<Vec<(String, String)>, PageError>) -> Result<
    Seq<(Seq<char>, Seq<char>)>,
    PageError,
> {
    match r {
        Ok(list) => Ok(list.deep_view()),
        Err(e) => Err(e),
    }
}

pub open spec fn chapter_view(r: Result<(String, String), PageError>) -> Result<
    (Seq<char>, Seq<char>),
    PageError,
> {
    match r {
        Ok(pair) => Ok((pair.0@, pair.1@)),
        Err(e) => Err(e),
    }
}

/// The texts of the elements, trimmed, without the empty ones.
pub open spec fn tag_texts(elements: Seq<ElementView>) -> Seq<Seq<char>>
    decreases elements.len(),
{
    if elements.len() == 0 {
        Seq::empty()
    } else {
        let earlier = tag_texts(elements.drop_last());
        let tag = trim(elements.last().text);
        if tag.len() > 0 {
            earlier.push(tag)
        } else {
            earlier
        }
    }
}

pub open spec fn metadata_view(r: Result<NovelMetadata, PageError>) -> Result<
    NovelMetadataView,
    PageError,
> {
    match r {
        Ok(m) => Ok(m.deep_view()),
        Err(e) => Err(e),
    }
}

/// Appends the tags that the elements hold.
pub fn collect_tags(tags: &mut Vec<String>, elements: &Vec<Element>)
    ensures
        final(tags).deep_view() == old(tags).deep_view() + tag_texts(elements.deep_view()),
{
    let ghost all = elements.deep_view();
    let ghost start = tags.deep_view();
    let mut i: usize = 0;
    proof {
        assert(all.take(0) =~= Seq::<ElementView>::empty());
        assert(start + tag_texts(all.take(0)) =~= start);
    }
    while i < elements.len()
        invariant
            i <= elements.len(),
            all == elements.deep_view(),
            tags.deep_view() == start + tag_texts(all.take(i as int)),
        decreases elements.len() - i,
    {
        proof {
            assert(all.take(i + 1).drop_last() =~= all.take(i as int));
            assert(all.take(i + 1).last() == elements@[i as int].deep_view());
        }
        let tag = str_trim(elements[i].text.as_str());
        if !tag.as_str().is_empty() {
            proof {
                assert((start + tag_texts(all.take(i as int))).push(tag@) =~= start + tag_texts(
                    all.take(i as int),
                ).push(tag@));
            }
            put_text(tags, tag);
        }
        i += 1;
    }
    proof {
        assert(all.take(elements.len() as int) =~= all);
    }
}

} // verus!
