//! Qidian. Its pages come rendered from the browser worker; what stands
//! here reads them: the rank list, a novel's metadata, its catalog and a
//! chapter's text, and the addresses that the worker is sent to.

pub mod catalog;
pub mod chapter;
pub mod metadata;

pub use self::catalog::fetch_chapter_list;
pub use self::chapter::download_chapter;
pub use self::metadata::{fetch_mobile_metadata, fetch_novel_metadata};

use vstd::prelude::*;
use crate::html::{Element, ElementView, PageError, elements, selected, texts_view};
use crate::links::{absolute, absolute_link};
use crate::lists::{holds, put_text};
use crate::text::{contains, str_contains};

verus! {

pub const MOBILE_HOST: &'static str = "m.qidian.com";

pub const DESKTOP_HOST: &'static str = "www.qidian.com";

pub const MOBILE_ORIGIN: &'static str = "https://m.qidian.com";

pub const DESKTOP_ORIGIN: &'static str = "https://www.qidian.com";

/// The anchors of a rank page: the desktop rank list, the alternate rank
/// layout and the generic book layout.
pub const RANK_SELECTOR: &'static str =
    "#rank-view-list .book-mid-info h2 a, .book-img-text .book-mid-info h2 a, .rank-list a.book-layout";

/// The chapter anchors of a mobile catalog page.
pub const CATALOG_SELECTOR: &'static str = ".y-list__item a, a[class*='chapterItem']";

pub const CHAPTER_TITLE_SELECTOR: &'static str =
    ".j_chapterName, .text-head h3, h1, .chapter-name";

/// The containers that a chapter's text is looked for in.
pub const CONTENT_SELECTOR: &'static str =
    "main.content, .read-content, .main-text-wrap, .j_readContent, #reader-content";

pub const PARAGRAPH_SELECTOR: &'static str = "p";

pub const BOOK_ID_PATTERN: &'static str = "book/([0-9]+)";

pub const MOBILE_BOOK_ID_PATTERN: &'static str = "book/([0-9]+)/?";

/// The origin that the site-relative links of a rank page belong to: the
/// mobile one where the page's own address is on the mobile host.
pub open spec fn rank_origin(source: Seq<char>) -> Seq<char> {
    if contains(source, MOBILE_HOST@) {
        MOBILE_ORIGIN@
    } else {
        DESKTOP_ORIGIN@
    }
}

/// The novel that a rank anchor leads to, if it leads to one.
pub open spec fn rank_candidate(element: ElementView, origin: Seq<char>) -> Option<Seq<char>> {
    match element.attr {
        Some(href) => if href.len() > 0 && contains(absolute_link(href, origin), "/book/"@) {
            Some(absolute_link(href, origin))
        } else {
            None
        },
        None => None,
    }
}

/// The novels that the anchors lead to, in the anchors' order.
pub open spec fn rank_candidates(elements: Seq<ElementView>, origin: Seq<char>) -> Seq<Seq<char>>
    decreases elements.len(),
{
    if elements.len() == 0 {
        Seq::empty()
    } else {
        let earlier = rank_candidates(elements.drop_last(), origin);
        match rank_candidate(elements.last(), origin) {
            Some(link) => earlier.push(link),
            None => earlier,
        }
    }
}

/// The links without repetitions: of equal links the first stays.
pub open spec fn keep_first(links: Seq<Seq<char>>) -> Seq<Seq<char>>
    decreases links.len(),
{
    if links.len() == 0 {
        Seq::empty()
    } else {
        let earlier = keep_first(links.drop_last());
        if earlier.contains(links.last()) {
            earlier
        } else {
            earlier.push(links.last())
        }
    }
}

/// The rank list that a page's anchors give: rank order, each novel once.
pub open spec fn rank_links(elements: Seq<ElementView>, source: Seq<char>) -> Seq<Seq<char>> {
    keep_first(rank_candidates(elements, rank_origin(source)))
}

/// Where `x` first stands in `links`.
pub open spec fn first_position(links: Seq<Seq<char>>, x: Seq<char>) -> int
    decreases links.len(),
{
    if links.len() == 0 {
        0
    } else if links.drop_last().contains(x) {
        first_position(links.drop_last(), x)
    } else {
        links.len() - 1
    }
}

proof fn lemma_first_position(links: Seq<Seq<char>>, x: Seq<char>)
    requires
        links.contains(x),
    ensures
        0 <= first_position(links, x) < links.len(),
        links[first_position(links, x)] == x,
        forall|j: int| 0 <= j < first_position(links, x) ==> links[j] != x,
    decreases links.len(),
{
    let front = links.drop_last();
    if front.contains(x) {
        lemma_first_position(front, x);
        assert forall|j: int| 0 <= j < first_position(links, x) implies links[j] != x by {
            assert(front[j] == links[j]);
        }
    } else {
        let i = choose|i: int| 0 <= i < links.len() && links[i] == x;
        if i < links.len() - 1 {
            assert(front[i] == x);
        }
        assert forall|j: int| 0 <= j < links.len() - 1 implies links[j] != x by {
            assert(front[j] == links[j]);
        }
    }
}

/// Rank stability. Removing repetitions keeps the order of the page: the
/// result holds each link of the input once, at the place of its first
/// occurrence relative to the others.
pub proof fn lemma_keep_first(links: Seq<Seq<char>>)
    ensures
        keep_first(links).no_duplicates(),
        forall|x: Seq<char>| keep_first(links).contains(x) <==> links.contains(x),
        forall|k: int|
            0 <= k < keep_first(links).len() ==> {
                &&& 0 <= first_position(links, #[trigger] keep_first(links)[k]) < links.len()
                &&& links[first_position(links, keep_first(links)[k])] == keep_first(links)[k]
            },
        forall|k: int, l: int|
            0 <= k < l < keep_first(links).len() ==> first_position(
                links,
                #[trigger] keep_first(links)[k],
            ) < first_position(links, #[trigger] keep_first(links)[l]),
    decreases links.len(),
{
    let kept = keep_first(links);
    if links.len() > 0 {
        let front = links.drop_last();
        let earlier = keep_first(front);
        let x = links.last();
        lemma_keep_first(front);
        assert forall|y: Seq<char>| kept.contains(y) <==> links.contains(y) by {
            if kept.contains(y) {
                let k = choose|k: int| 0 <= k < kept.len() && kept[k] == y;
                if k < earlier.len() {
                    assert(earlier.contains(kept[k]));
                    let j = choose|j: int| 0 <= j < front.len() && front[j] == y;
                    assert(links[j] == y);
                } else {
                    assert(links[links.len() - 1] == y);
                }
            }
            if links.contains(y) {
                let j = choose|j: int| 0 <= j < links.len() && links[j] == y;
                if j < links.len() - 1 {
                    assert(front[j] == y);
                    assert(front.contains(y));
                    assert(earlier.contains(y));
                    let k = choose|k: int| 0 <= k < earlier.len() && earlier[k] == y;
                    assert(kept[k] == y);
                } else if earlier.contains(x) {
                } else {
                    assert(kept[kept.len() - 1] == y);
                }
            }
        }
        assert forall|k: int| 0 <= k < kept.len() implies {
            &&& 0 <= first_position(links, #[trigger] kept[k]) < links.len()
            &&& links[first_position(links, kept[k])] == kept[k]
        } by {
            assert(kept.contains(kept[k]));
            lemma_first_position(links, kept[k]);
        }
        assert forall|k: int, l: int| 0 <= k < l < kept.len() implies first_position(
            links,
            #[trigger] kept[k],
        ) < first_position(links, #[trigger] kept[l]) by {
            assert(earlier.contains(kept[k]));
            assert(front.contains(kept[k]));
            lemma_first_position(front, kept[k]);
            if l < earlier.len() {
                assert(earlier.contains(kept[l]));
                assert(front.contains(kept[l]));
            } else {
                assert(!front.contains(kept[l]));
            }
        }
    }
}

/// The rank list that the matched anchors of a rank page give.
pub fn rank_list_from(elements: &Vec<Element>, url: &str) -> (r: Vec<String>)
    ensures
        r.deep_view() == rank_links(elements.deep_view(), url@),
{
    let origin: &str = if str_contains(url, MOBILE_HOST) {
        MOBILE_ORIGIN
    } else {
        DESKTOP_ORIGIN
    };
    let ghost all = elements.deep_view();
    let mut links: Vec<String> = Vec::new();
    let mut i: usize = 0;
    proof {
        assert(links.deep_view() =~= Seq::<Seq<char>>::empty());
        assert(all.take(0) =~= Seq::<ElementView>::empty());
    }
    while i < elements.len()
        invariant
            i <= elements.len(),
            all == elements.deep_view(),
            origin@ == rank_origin(url@),
            links.deep_view() == keep_first(rank_candidates(all.take(i as int), origin@)),
        decreases elements.len() - i,
    {
        proof {
            assert(all.take(i + 1).drop_last() =~= all.take(i as int));
            assert(all.take(i + 1).last() == elements@[i as int].deep_view());
            let seen = rank_candidates(all.take(i as int), origin@);
            match rank_candidate(all[i as int], origin@) {
                Some(link) => {
                    assert(seen.push(link).drop_last() =~= seen);
                },
                None => {},
            }
        }
        match &elements[i].attr {
            Some(href) => {
                if !href.as_str().is_empty() {
                    let full = absolute(href.as_str(), origin);
                    if str_contains(full.as_str(), "/book/") && !holds(&links, full.as_str()) {
                        put_text(&mut links, full);
                    }
                }
            },
            None => {},
        }
        i += 1;
    }
    proof {
        assert(all.take(elements.len() as int) =~= all);
    }
    links
}

/// What a rank page gives, by what the selection of its anchors is.
pub open spec fn rank_list_of(found: Result<Seq<ElementView>, PageError>, source: Seq<char>) -> Result<
    Seq<Seq<char>>,
    PageError,
> {
    match found {
        Ok(elements) => Ok(rank_links(elements, source)),
        Err(e) => Err(e),
    }
}

/// Reads the rank page `html`, which was fetched from `url`: the novels it
/// ranks, in rank order, each once.
pub fn fetch_rank_list(html: &str, url: &str) -> (r: Result<Vec<String>, PageError>)
    ensures
        texts_view(r) == rank_list_of(selected(html@, RANK_SELECTOR@, "href"@), url@),
{
    match elements(html, RANK_SELECTOR, "href") {
        Ok(found) => Ok(rank_list_from(&found, url)),
        Err(e) => Err(e),
    }
}

} // verus!
