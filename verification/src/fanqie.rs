//! Fanqie. Its pages are plain HTML that the host fetches over HTTP;
//! what stands here reads them. Links on them are relative to the host.

use vstd::prelude::*;
use crate::html::{
    Element, ElementView, PageError, chapter_view, collect_tags, elements, metadata_view,
    pairs_view, selected, tag_texts, texts_view,
};
use crate::links::{absolute, absolute_link};
use crate::lists::{put_pair, put_text};
use crate::model::{NovelMetadata, NovelMetadataView};
use crate::order::{sort_unique, sorted_unique};
use crate::text::{copy_str, str_trim, trim};

verus! {

pub const ORIGIN: &'static str = "https://fanqienovel.com";

/// The anchors of the books on a rank page.
pub const BOOK_LIST_SELECTOR: &'static str = ".rank-book-item a, .book-item-text .title a";

pub const TITLE_SELECTOR: &'static str = "h1";

pub const TAG_SELECTOR: &'static str = ".info-label span";

pub const WORD_COUNT_SELECTOR: &'static str = ".info-count-word .detail";

pub const DESCRIPTION_SELECTOR: &'static str = ".page-abstract-content";

/// The chapter anchors of a novel page.
pub const CHAPTER_SELECTOR: &'static str = ".chapter-item-title";

/// The container of a chapter's text.
pub const CONTENT_SELECTOR: &'static str = ".muye-reader-content";

pub const UNKNOWN_TITLE: &'static str = "Unknown Title";

pub const UNKNOWN_COUNT: &'static str = "未知";

/// The addresses that the anchors lead to, in the anchors' order: each link
/// that is not empty, made absolute.
pub open spec fn book_links(elements: Seq<ElementView>) -> Seq<Seq<char>>
    decreases elements.len(),
{
    if elements.len() == 0 {
        Seq::empty()
    } else {
        let earlier = book_links(elements.drop_last());
        match elements.last().attr {
            Some(href) => if href.len() > 0 {
                earlier.push(absolute_link(href, ORIGIN@))
            } else {
                earlier
            },
            None => earlier,
        }
    }
}

/// The chapters that the anchors stand for, as `(title, href)`: each anchor
/// whose link is not empty, the link as it stands on the page.
pub open spec fn chapter_links(elements: Seq<ElementView>) -> Seq<(Seq<char>, Seq<char>)>
    decreases elements.len(),
{
    if elements.len() == 0 {
        Seq::empty()
    } else {
        let earlier = chapter_links(elements.drop_last());
        match elements.last().attr {
            Some(href) => if href.len() > 0 {
                earlier.push((elements.last().text, href))
            } else {
                earlier
            },
            None => earlier,
        }
    }
}

pub open spec fn rank_list_of(found: Result<Seq<ElementView>, PageError>) -> Result<
    Seq<Seq<char>>,
    PageError,
> {
    match found {
        Ok(elements) => Ok(book_links(elements)),
        Err(e) => Err(e),
    }
}

pub open spec fn chapter_list_of(found: Result<Seq<ElementView>, PageError>) -> Result<
    Seq<(Seq<char>, Seq<char>)>,
    PageError,
> {
    match found {
        Ok(elements) => Ok(chapter_links(elements)),
        Err(e) => Err(e),
    }
}

/// The text of the first element, trimmed, or `fallback` where there is none.
pub open spec fn first_or(elements: Seq<ElementView>, fallback: Seq<char>) -> Seq<char> {
    if elements.len() > 0 {
        trim(elements[0].text)
    } else {
        fallback
    }
}

/// The metadata that a novel page gives: its title, its tags sorted and each
/// once, its word count and its description.
pub open spec fn metadata_of(
    titles: Seq<ElementView>,
    tags: Seq<ElementView>,
    counts: Seq<ElementView>,
    descriptions: Seq<ElementView>,
    url: Seq<char>,
) -> NovelMetadataView {
    NovelMetadataView {
        title: first_or(titles, UNKNOWN_TITLE@),
        url,
        tags: sorted_unique(tag_texts(tags)),
        word_count: first_or(counts, UNKNOWN_COUNT@),
        description: first_or(descriptions, Seq::empty()),
    }
}

pub open spec fn page_metadata(
    titles: Result<Seq<ElementView>, PageError>,
    tags: Result<Seq<ElementView>, PageError>,
    counts: Result<Seq<ElementView>, PageError>,
    descriptions: Result<Seq<ElementView>, PageError>,
    url: Seq<char>,
) -> Result<NovelMetadataView, PageError> {
    match (titles, tags, counts, descriptions) {
        (Ok(titles), Ok(tags), Ok(counts), Ok(descriptions)) => Ok(
            metadata_of(titles, tags, counts, descriptions, url),
        ),
        _ => Err(PageError::Selector),
    }
}

/// A chapter as `(title, text)`: the first title's text and the first
/// content container's text. A page without a container is an error.
pub open spec fn chapter_of(
    titles: Result<Seq<ElementView>, PageError>,
    contents: Result<Seq<ElementView>, PageError>,
) -> Result<
    (Seq<char>, Seq<char>),
    PageError,
> {
    match (titles, contents) {
        (Ok(titles), Ok(contents)) => if contents.len() == 0 {
            Err(PageError::NoContent)
        } else {
            Ok((first_or(titles, Seq::empty()), contents[0].text))
        },
        _ => Err(PageError::Selector),
    }
}

fn first_text_or(elements: &Vec<Element>, fallback: &str) -> (r: String)
    ensures
        r@ == first_or(elements.deep_view(), fallback@),
{
    if elements.len() > 0 {
        proof {
            assert(elements.deep_view()[0] == elements@[0].deep_view());
        }
        str_trim(elements[0].text.as_str())
    } else {
        copy_str(fallback)
    }
}

/// The addresses that the matched anchors of a rank page lead to.
pub fn rank_list_from(elements: &Vec<Element>) -> (r: Vec<String>)
    ensures
        r.deep_view() == book_links(elements.deep_view()),
{
    let ghost all = elements.deep_view();
    let mut links: Vec<String> = Vec::new();
    let mut i: usize = 0;
    proof {
        assert(links.deep_view() =~= Seq::<Seq<char>>::empty());
        assert(all.take(0) =~= Seq::<ElementView>::empty());
    }
    while i < elements.len()
        invariant
            i <= elements.len(),
            all == elements.deep_view(),
            links.deep_view() == book_links(all.take(i as int)),
        decreases elements.len() - i,
    {
        proof {
            assert(all.take(i + 1).drop_last() =~= all.take(i as int));
            assert(all.take(i + 1).last() == elements@[i as int].deep_view());
        }
        match &elements[i].attr {
            Some(href) => {
                if !href.as_str().is_empty() {
                    put_text(&mut links, absolute(href.as_str(), ORIGIN));
                }
            },
            None => {},
        }
        i += 1;
    }
    proof {
        assert(all.take(elements.len() as int) =~= all);
    }
    links
}

/// The chapters that the matched anchors of a novel page stand for.
pub fn chapter_list_from(elements: &Vec<Element>) -> (r: Vec<(String, String)>)
    ensures
        r.deep_view() == chapter_links(elements.deep_view()),
{
    let ghost all = elements.deep_view();
    let mut chapters: Vec<(String, String)> = Vec::new();
    let mut i: usize = 0;
    proof {
        assert(chapters.deep_view() =~= Seq::<(Seq<char>, Seq<char>)>::empty());
        assert(all.take(0) =~= Seq::<ElementView>::empty());
    }
    while i < elements.len()
        invariant
            i <= elements.len(),
            all == elements.deep_view(),
            chapters.deep_view() == chapter_links(all.take(i as int)),
        decreases elements.len() - i,
    {
        proof {
            assert(all.take(i + 1).drop_last() =~= all.take(i as int));
            assert(all.take(i + 1).last() == elements@[i as int].deep_view());
        }
        match &elements[i].attr {
            Some(href) => {
                if !href.as_str().is_empty() {
                    put_pair(&mut chapters, elements[i].text.clone(), href.clone());
                }
            },
            None => {},
        }
        i += 1;
    }
    proof {
        assert(all.take(elements.len() as int) =~= all);
    }
    chapters
}

/// Reads the rank page `html`: the novels it lists, in the order of the page.
pub fn fetch_rank_list(html: &str) -> (r: Result<Vec<String>, PageError>)
    ensures
        texts_view(r) == rank_list_of(selected(html@, BOOK_LIST_SELECTOR@, "href"@)),
{
    match elements(html, BOOK_LIST_SELECTOR, "href") {
        Ok(found) => Ok(rank_list_from(&found)),
        Err(e) => Err(e),
    }
}

/// Reads the novel page `html`: its chapters as `(title, href)`, the links
/// relative to the host, in the order of the page.
pub fn fetch_chapter_list(html: &str) -> (r: Result<Vec<(String, String)>, PageError>)
    ensures
        pairs_view(r) == chapter_list_of(selected(html@, CHAPTER_SELECTOR@, "href"@)),
{
    match elements(html, CHAPTER_SELECTOR, "href") {
        Ok(found) => Ok(chapter_list_from(&found)),
        Err(e) => Err(e),
    }
}

/// The metadata that the selections of a novel page give.
pub fn metadata_from(
    titles: &Vec<Element>,
    tags: &Vec<Element>,
    counts: &Vec<Element>,
    descriptions: &Vec<Element>,
    url: &str,
) -> (r: NovelMetadata)
    ensures
        r.deep_view() == metadata_of(
            titles.deep_view(),
            tags.deep_view(),
            counts.deep_view(),
            descriptions.deep_view(),
            url@,
        ),
{
    let mut raw: Vec<String> = Vec::new();
    proof {
        assert(raw.deep_view() =~= Seq::<Seq<char>>::empty());
    }
    collect_tags(&mut raw, tags);
    proof {
        assert(raw.deep_view() =~= tag_texts(tags.deep_view()));
        reveal_strlit("");
        assert(""@ =~= Seq::<char>::empty());
    }
    NovelMetadata {
        title: first_text_or(titles, UNKNOWN_TITLE),
        url: copy_str(url),
        tags: sort_unique(&raw),
        word_count: first_text_or(counts, UNKNOWN_COUNT),
        description: first_text_or(descriptions, ""),
    }
}

/// Reads the page `html` of the novel at `url`.
pub fn fetch_novel_metadata(html: &str, url: &str) -> (r: Result<NovelMetadata, PageError>)
    ensures
        metadata_view(r) == page_metadata(
            selected(html@, TITLE_SELECTOR@, ""@),
            selected(html@, TAG_SELECTOR@, ""@),
            selected(html@, WORD_COUNT_SELECTOR@, ""@),
            selected(html@, DESCRIPTION_SELECTOR@, ""@),
            url@,
        ),
{
    let titles = elements(html, TITLE_SELECTOR, "");
    let tags = elements(html, TAG_SELECTOR, "");
    let counts = elements(html, WORD_COUNT_SELECTOR, "");
    let descriptions = elements(html, DESCRIPTION_SELECTOR, "");
    match (titles, tags, counts, descriptions) {
        (Ok(titles), Ok(tags), Ok(counts), Ok(descriptions)) => Ok(
            metadata_from(&titles, &tags, &counts, &descriptions, url),
        ),
        _ => Err(PageError::Selector),
    }
}

/// The chapter that the selections of its page give.
pub fn chapter_from(titles: &Vec<Element>, contents: &Vec<Element>) -> (r: Result<
    (String, String),
    PageError,
>)
    ensures
        chapter_view(r) == chapter_of(Ok(titles.deep_view()), Ok(contents.deep_view())),
{
    if contents.len() == 0 {
        return Err(PageError::NoContent);
    }
    proof {
        assert(contents.deep_view()[0] == contents@[0].deep_view());
        reveal_strlit("");
        assert(""@ =~= Seq::<char>::empty());
    }
    Ok((first_text_or(titles, ""), contents[0].text.clone()))
}

/// Reads the chapter page `html`: the chapter's title and its text.
pub fn download_chapter(html: &str) -> (r: Result<(String, String), PageError>)
    ensures
        chapter_view(r) == chapter_of(
            selected(html@, TITLE_SELECTOR@, ""@),
            selected(html@, CONTENT_SELECTOR@, ""@),
        ),
{
    let titles = elements(html, TITLE_SELECTOR, "");
    let contents = elements(html, CONTENT_SELECTOR, "");
    match (titles, contents) {
        (Ok(titles), Ok(contents)) => chapter_from(&titles, &contents),
        _ => Err(PageError::Selector),
    }
}

} // verus!
