//! A chapter page: where it is fetched from, and its title and text.

use vstd::prelude::*;
use crate::html::{
    Element, ElementView, PageError, chapter_view, elements, selected, selected_within,
    texts_within,
};
use crate::qidian::{
    CHAPTER_TITLE_SELECTOR, CONTENT_SELECTOR, DESKTOP_HOST, MOBILE_HOST, PARAGRAPH_SELECTOR,
};
use crate::text::{join, join_strings, replace_all, str_replace_all, str_trim, trim};

verus! {

/// The desktop address of a chapter: the mobile host gives way to the desktop one.
pub open spec fn chapter_page_address(url: Seq<char>) -> Seq<char> {
    replace_all(url, MOBILE_HOST@, DESKTOP_HOST@)
}

/// Where the chapter at `url` is fetched from.
pub fn chapter_page_url(url: &str) -> (r: String)
    ensures
        r@ == chapter_page_address(url@),
{
    str_replace_all(url, MOBILE_HOST, DESKTOP_HOST)
}

/// The chapter's title: the text of the first title element, trimmed, or nothing.
pub open spec fn chapter_title(titles: Seq<ElementView>) -> Seq<char> {
    if titles.len() > 0 {
        trim(titles[0].text)
    } else {
        Seq::empty()
    }
}

/// The chapter's text: the paragraphs of the first container, a blank line
/// between them, or the container's own text where it holds no paragraph.
pub open spec fn chapter_text(containers: Seq<ElementView>, paragraphs: Seq<Seq<Seq<char>>>) -> Result<
    Seq<char>,
    PageError,
> {
    if containers.len() == 0 {
        Err(PageError::NoContent)
    } else if paragraphs.len() > 0 && paragraphs[0].len() > 0 {
        Ok(join(paragraphs[0], "\n\n"@))
    } else {
        Ok(containers[0].text)
    }
}

/// A chapter as `(title, text)`, by what the three selections on its page are.
pub open spec fn chapter_of(
    titles: Result<Seq<ElementView>, PageError>,
    containers: Result<Seq<ElementView>, PageError>,
    paragraphs: Result<Seq<Seq<Seq<char>>>, PageError>,
) -> Result<(Seq<char>, Seq<char>), PageError> {
    match (titles, containers, paragraphs) {
        (Ok(titles), Ok(containers), Ok(paragraphs)) => match chapter_text(
            containers,
            paragraphs,
        ) {
            Ok(text) => Ok((chapter_title(titles), text)),
            Err(e) => Err(e),
        },
        _ => Err(PageError::Selector),
    }
}

/// The chapter that the selections on its page give.
pub fn chapter_from(
    titles: &Vec<Element>,
    containers: &Vec<Element>,
    paragraphs: &Vec<Vec<String>>,
) -> (r: Result<(String, String), PageError>)
    ensures
        chapter_view(r) == chapter_of(
            Ok(titles.deep_view()),
            Ok(containers.deep_view()),
            Ok(paragraphs.deep_view()),
        ),
{
    if containers.len() == 0 {
        return Err(PageError::NoContent);
    }
    let title = if titles.len() > 0 {
        str_trim(titles[0].text.as_str())
    } else {
        String::new()
    };
    proof {
        assert(containers.deep_view()[0] == containers@[0].deep_view());
        if titles.len() > 0 {
            assert(titles.deep_view()[0] == titles@[0].deep_view());
        }
        if paragraphs.len() > 0 {
            assert(paragraphs.deep_view()[0] == paragraphs@[0].deep_view());
        }
    }
    if paragraphs.len() > 0 && paragraphs[0].len() > 0 {
        Ok((title, join_strings(&paragraphs[0], "\n\n")))
    } else {
        Ok((title, containers[0].text.clone()))
    }
}

/// Reads the chapter page `html`: the chapter's title, which may be empty,
/// and its text. A page without a content container is an error.
pub fn download_chapter(html: &str) -> (r: Result<(String, String), PageError>)
    ensures
        chapter_view(r) == chapter_of(
            selected(html@, CHAPTER_TITLE_SELECTOR@, ""@),
            selected(html@, CONTENT_SELECTOR@, ""@),
            selected_within(html@, CONTENT_SELECTOR@, PARAGRAPH_SELECTOR@),
        ),
{
    let titles = elements(html, CHAPTER_TITLE_SELECTOR, "");
    let containers = elements(html, CONTENT_SELECTOR, "");
    let paragraphs = texts_within(html, CONTENT_SELECTOR, PARAGRAPH_SELECTOR);
    match (titles, containers, paragraphs) {
        (Ok(titles), Ok(containers), Ok(paragraphs)) => chapter_from(
            &titles,
            &containers,
            &paragraphs,
        ),
        _ => Err(PageError::Selector),
    }
}

} // verus!
