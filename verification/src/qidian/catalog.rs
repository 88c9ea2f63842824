//! The catalog of a novel: where it is fetched from and what chapters it lists.

use vstd::prelude::*;
use crate::html::{Element, ElementView, PageError, elements, pairs_view, selected};
use crate::links::{absolute, absolute_link};
use crate::lists::put_pair;
use crate::pattern::{capture, captured};
use crate::qidian::{BOOK_ID_PATTERN, CATALOG_SELECTOR, MOBILE_ORIGIN};
use crate::text::{concat3, contains, str_contains, str_trim, trim};

verus! {

/// The address of the catalog of the novel with the id `id`.
pub open spec fn catalog_address(id: Seq<char>) -> Seq<char> {
    "https://m.qidian.com/book/"@ + id + "/catalog"@
}

/// The catalog's address, by what the book id pattern captures in the novel's address.
pub open spec fn catalog_url_of(id: Option<Seq<char>>) -> Result<Seq<char>, PageError> {
    match id {
        Some(id) => Ok(catalog_address(id)),
        None => Err(PageError::NoBookId),
    }
}

pub open spec fn text_view(r: Result<String, PageError>) -> Result<Seq<char>, PageError> {
    match r {
        Ok(s) => Ok(s@),
        Err(e) => Err(e),
    }
}

/// The catalog's address for a novel whose book id is known or not.
pub fn catalog_url_for(id: Option<String>) -> (r: Result<String, PageError>)
    ensures
        text_view(r) == catalog_url_of(id.deep_view()),
{
    match id {
        Some(id) => Ok(concat3("https://m.qidian.com/book/", id.as_str(), "/catalog")),
        None => Err(PageError::NoBookId),
    }
}

/// Where the catalog of the novel at `url` is fetched from; an error where
/// `url` holds no numeric book id.
pub fn catalog_url(url: &str) -> (r: Result<String, PageError>)
    ensures
        text_view(r) == catalog_url_of(captured(BOOK_ID_PATTERN@, url@, 1)),
{
    catalog_url_for(capture(BOOK_ID_PATTERN, url, 1))
}

/// The chapter that a catalog anchor stands for, as `(title, address)`: it
/// needs a title and a link, the link must not be a script, and its address
/// must be that of a chapter.
pub open spec fn chapter_candidate(element: ElementView) -> Option<(Seq<char>, Seq<char>)> {
    let title = trim(element.text);
    let href = match element.attr {
        Some(href) => href,
        None => Seq::empty(),
    };
    let address = absolute_link(href, MOBILE_ORIGIN@);
    if title.len() > 0 && href.len() > 0 && !contains(href, "javascript"@) && (contains(
        address,
        "/chapter/"@,
    ) || contains(address, "/read/"@)) {
        Some((title, address))
    } else {
        None
    }
}

/// The chapters that the anchors stand for, in the anchors' order.
pub open spec fn chapters_of(elements: Seq<ElementView>) -> Seq<(Seq<char>, Seq<char>)>
    decreases elements.len(),
{
    if elements.len() == 0 {
        Seq::empty()
    } else {
        let earlier = chapters_of(elements.drop_last());
        match chapter_candidate(elements.last()) {
            Some(chapter) => earlier.push(chapter),
            None => earlier,
        }
    }
}

/// What a catalog page gives, by what the selection of its anchors is. A
/// catalog without chapters is an error.
pub open spec fn catalog_of(found: Result<Seq<ElementView>, PageError>) -> Result<
    Seq<(Seq<char>, Seq<char>)>,
    PageError,
> {
    match found {
        Ok(elements) => if chapters_of(elements).len() == 0 {
            Err(PageError::NoChapters)
        } else {
            Ok(chapters_of(elements))
        },
        Err(e) => Err(e),
    }
}

/// Every chapter of a catalog has a title and an address.
pub proof fn lemma_chapters_complete(elements: Seq<ElementView>)
    ensures
        forall|i: int|
            0 <= i < chapters_of(elements).len() ==> (#[trigger] chapters_of(elements)[i]).0.len()
                > 0 && chapters_of(elements)[i].1.len() > 0,
    decreases elements.len(),
{
    if elements.len() > 0 {
        let earlier = chapters_of(elements.drop_last());
        let all = chapters_of(elements);
        lemma_chapters_complete(elements.drop_last());
        assert forall|i: int| 0 <= i < all.len() implies (#[trigger] all[i]).0.len() > 0
            && all[i].1.len() > 0 by {
            if i < earlier.len() {
                assert(all[i] == earlier[i]);
            } else {
                let found = chapter_candidate(elements.last());
                assert(found is Some && all[i] == found->Some_0);
            }
        }
    }
}

/// The chapters that the matched anchors of a catalog page stand for.
pub fn chapter_list_from(elements: &Vec<Element>) -> (r: Vec<(String, String)>)
    ensures
        r.deep_view() == chapters_of(elements.deep_view()),
{
    let ghost all = elements.deep_view();
    let mut chapters: Vec<(String, String)> = Vec::new();
    let mut i: usize = 0;
    proof {
        assert(chapters.deep_view() =~= Seq::<(Seq<char>, Seq<char>)>::empty());
        assert(all.take(0) =~= Seq::<ElementView>::empty());
    }
    while i < elements.len()
        invariant
            i <= elements.len(),
            all == elements.deep_view(),
            chapters.deep_view() == chapters_of(all.take(i as int)),
        decreases elements.len() - i,
    {
        proof {
            assert(all.take(i + 1).drop_last() =~= all.take(i as int));
            assert(all.take(i + 1).last() == elements@[i as int].deep_view());
        }
        let title = str_trim(elements[i].text.as_str());
        match &elements[i].attr {
            Some(href) => {
                if !title.as_str().is_empty() && !href.as_str().is_empty() && !str_contains(
                    href.as_str(),
                    "javascript",
                ) {
                    let address = absolute(href.as_str(), MOBILE_ORIGIN);
                    if str_contains(address.as_str(), "/chapter/") || str_contains(
                        address.as_str(),
                        "/read/",
                    ) {
                        put_pair(&mut chapters, title, address);
                    }
                }
            },
            None => {},
        }
        i += 1;
    }
    proof {
        assert(all.take(elements.len() as int) =~= all);
    }
    chapters
}

/// Reads the catalog page `html`: its chapters as `(title, address)`, in the
/// order of the page. A page without chapters is an error, never an empty list.
pub fn fetch_chapter_list(html: &str) -> (r: Result<Vec<(String, String)>, PageError>)
    ensures
        pairs_view(r) == catalog_of(selected(html@, CATALOG_SELECTOR@, "href"@)),
        r matches Ok(list) ==> list.len() > 0 && forall|i: int|
            0 <= i < list.len() ==> (#[trigger] list[i]).0@.len() > 0 && list[i].1@.len() > 0,
{
    match elements(html, CATALOG_SELECTOR, "href") {
        Ok(found) => {
            let chapters = chapter_list_from(&found);
            proof {
                lemma_chapters_complete(found.deep_view());
                assert forall|i: int| 0 <= i < chapters.len() implies (#[trigger] chapters[i]).0@.len()
                    > 0 && chapters[i].1@.len() > 0 by {
                    assert(chapters.deep_view()[i] == (chapters[i].0@, chapters[i].1@));
                }
            }
            if chapters.len() == 0 {
                Err(PageError::NoChapters)
            } else {
                Ok(chapters)
            }
        },
        Err(e) => Err(e),
    }
}

} // verus!
