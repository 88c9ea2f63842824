//! A novel's metadata: read from its desktop page, or from its mobile page
//! where the desktop page cannot be had or is a challenge page.

use vstd::prelude::*;
use crate::html::{
    Element, ElementView, PageError, collect_tags, elements, metadata_view, selected, tag_texts,
};
use crate::model::{NovelMetadata, NovelMetadataView};
use crate::order::{lemma_sorted_unique, sort_unique, sorted_unique, strictly_sorted};
use crate::pattern::{capture, captured};
use crate::qidian::MOBILE_BOOK_ID_PATTERN;
use crate::text::{
    before_first, chars_before_first, concat, contains, copy_str, from_chars, str_contains,
    str_equal, str_trim, to_chars, trim,
};

verus! {

pub const HEADING_SELECTOR: &'static str = "h1, #bookName";

pub const PAGE_TITLE_SELECTOR: &'static str = "title";

pub const INTRO_DETAIL_SELECTOR: &'static str = "#book-intro-detail";

pub const INTRO_SELECTOR: &'static str = ".book-intro, .intro";

pub const META_DESCRIPTION_SELECTOR: &'static str = "meta[name='description']";

/// The tags of the attribute area.
pub const ATTRIBUTE_TAG_SELECTOR: &'static str = ".book-attribute a";

/// The tags of the label area.
pub const LABEL_TAG_SELECTOR: &'static str = ".intro-honor-label .all-label a, .all-label a";

pub const WORD_COUNT_SELECTOR: &'static str = ".count em";

pub const MOBILE_TITLE_SELECTOR: &'static str = "h1, .book-title, .detail h2";

pub const MOBILE_INTRO_SELECTOR: &'static str = ".book-intro, .intro, meta[name='description']";

pub const UNKNOWN_TITLE: &'static str = "Unknown Title";

pub const UNKNOWN_COUNT: &'static str = "未知";

pub const MOBILE_BOOK_PREFIX: &'static str = "https://m.qidian.com/book/";

/// What is read of a novel's desktop page: the matches of each selector.
pub struct MetadataPage {
    pub headings: Vec<Element>,
    pub page_titles: Vec<Element>,
    pub intro_details: Vec<Element>,
    pub intros: Vec<Element>,
    /// With the `content` attribute.
    pub meta_descriptions: Vec<Element>,
    pub attribute_tags: Vec<Element>,
    pub label_tags: Vec<Element>,
    pub word_counts: Vec<Element>,
}

pub struct MetadataPageView {
    pub headings: Seq<ElementView>,
    pub page_titles: Seq<ElementView>,
    pub intro_details: Seq<ElementView>,
    pub intros: Seq<ElementView>,
    pub meta_descriptions: Seq<ElementView>,
    pub attribute_tags: Seq<ElementView>,
    pub label_tags: Seq<ElementView>,
    pub word_counts: Seq<ElementView>,
}

impl DeepView for MetadataPage {
    type V = MetadataPageView;

    open spec fn deep_view(&self) -> MetadataPageView {
        MetadataPageView {
            headings: self.headings.deep_view(),
            page_titles: self.page_titles.deep_view(),
            intro_details: self.intro_details.deep_view(),
            intros: self.intros.deep_view(),
            meta_descriptions: self.meta_descriptions.deep_view(),
            attribute_tags: self.attribute_tags.deep_view(),
            label_tags: self.label_tags.deep_view(),
            word_counts: self.word_counts.deep_view(),
        }
    }
}

/// The novel's title: the first heading, else what the page title holds
/// before its first underscore, else a placeholder.
pub open spec fn novel_title(page: MetadataPageView) -> Seq<char> {
    if page.headings.len() > 0 {
        page.headings[0].text
    } else if page.page_titles.len() > 0 {
        before_first(page.page_titles[0].text, '_')
    } else {
        UNKNOWN_TITLE@
    }
}

/// Whether a title is that of a challenge page.
pub open spec fn is_challenge(title: Seq<char>) -> bool {
    contains(title, "Just a moment"@) || contains(title, "Security checking"@)
}

/// The novel's description: the detailed introduction, else the short one,
/// else the page's description, else nothing.
pub open spec fn novel_description(page: MetadataPageView) -> Seq<char> {
    if page.intro_details.len() > 0 {
        trim(page.intro_details[0].text)
    } else if page.intros.len() > 0 {
        trim(page.intros[0].text)
    } else if page.meta_descriptions.len() > 0 {
        match page.meta_descriptions[0].attr {
            Some(content) => content,
            None => Seq::empty(),
        }
    } else {
        Seq::empty()
    }
}

pub open spec fn novel_word_count(page: MetadataPageView) -> Seq<char> {
    if page.word_counts.len() > 0 {
        page.word_counts[0].text
    } else {
        UNKNOWN_COUNT@
    }
}

/// The novel's tags: those of the attribute area and of the label area
/// together, sorted, each once.
pub open spec fn novel_tags(attribute: Seq<ElementView>, label: Seq<ElementView>) -> Seq<Seq<char>> {
    sorted_unique(tag_texts(attribute) + tag_texts(label))
}

/// Tag normalisation. The tags of a novel are sorted, hold no tag twice, and
/// are exactly the tags of the attribute area and of the label area.
pub proof fn lemma_novel_tags(attribute: Seq<ElementView>, label: Seq<ElementView>)
    ensures
        strictly_sorted(novel_tags(attribute, label)),
        novel_tags(attribute, label).no_duplicates(),
        forall|tag: Seq<char>|
            novel_tags(attribute, label).contains(tag) <==> (tag_texts(attribute).contains(tag)
                || tag_texts(label).contains(tag)),
{
    let a = tag_texts(attribute);
    let b = tag_texts(label);
    lemma_sorted_unique(a + b);
    assert forall|tag: Seq<char>| (a + b).contains(tag) <==> (a.contains(tag) || b.contains(
        tag,
    )) by {
        if (a + b).contains(tag) {
            let k = choose|k: int| 0 <= k < (a + b).len() && (a + b)[k] == tag;
            if k < a.len() {
                assert(a[k] == tag);
            } else {
                assert(b[k - a.len()] == tag);
            }
        }
        if a.contains(tag) {
            let k = choose|k: int| 0 <= k < a.len() && a[k] == tag;
            assert((a + b)[k] == tag);
        }
        if b.contains(tag) {
            let k = choose|k: int| 0 <= k < b.len() && b[k] == tag;
            assert((a + b)[a.len() + k] == tag);
        }
    }
}

/// The metadata that a desktop page gives for the novel at `url`; a challenge
/// page gives none.
pub open spec fn metadata_of(page: MetadataPageView, url: Seq<char>) -> Result<
    NovelMetadataView,
    PageError,
> {
    if is_challenge(novel_title(page)) {
        Err(PageError::Blocked)
    } else {
        Ok(
            NovelMetadataView {
                title: novel_title(page),
                url,
                tags: novel_tags(page.attribute_tags, page.label_tags),
                word_count: novel_word_count(page),
                description: novel_description(page),
            },
        )
    }
}

pub open spec fn page_view(r: Result<MetadataPage, PageError>) -> Result<
    MetadataPageView,
    PageError,
> {
    match r {
        Ok(page) => Ok(page.deep_view()),
        Err(e) => Err(e),
    }
}

/// The selections that make up a desktop page, where every selector is accepted.
pub open spec fn metadata_page_of(html: Seq<char>) -> Result<MetadataPageView, PageError> {
    match (
        selected(html, HEADING_SELECTOR@, ""@),
        selected(html, PAGE_TITLE_SELECTOR@, ""@),
        selected(html, INTRO_DETAIL_SELECTOR@, ""@),
        selected(html, INTRO_SELECTOR@, ""@),
        selected(html, META_DESCRIPTION_SELECTOR@, "content"@),
        selected(html, ATTRIBUTE_TAG_SELECTOR@, ""@),
        selected(html, LABEL_TAG_SELECTOR@, ""@),
        selected(html, WORD_COUNT_SELECTOR@, ""@),
    ) {
        (
            Ok(headings),
            Ok(page_titles),
            Ok(intro_details),
            Ok(intros),
            Ok(meta_descriptions),
            Ok(attribute_tags),
            Ok(label_tags),
            Ok(word_counts),
        ) => Ok(
            MetadataPageView {
                headings,
                page_titles,
                intro_details,
                intros,
                meta_descriptions,
                attribute_tags,
                label_tags,
                word_counts,
            },
        ),
        _ => Err(PageError::Selector),
    }
}

/// What a desktop page gives for the novel at `url`.
pub open spec fn page_metadata(html: Seq<char>, url: Seq<char>) -> Result<
    NovelMetadataView,
    PageError,
> {
    match metadata_page_of(html) {
        Ok(page) => metadata_of(page, url),
        Err(e) => Err(e),
    }
}

/// The metadata that the selections of a desktop page give for the novel at `url`.
pub fn metadata_from(page: &MetadataPage, url: &str) -> (r: Result<NovelMetadata, PageError>)
    ensures
        metadata_view(r) == metadata_of(page.deep_view(), url@),
        r matches Ok(found) ==> strictly_sorted(found.tags.deep_view())
            && found.tags.deep_view().no_duplicates(),
{
    proof {
        lemma_novel_tags(page.attribute_tags.deep_view(), page.label_tags.deep_view());
        if page.headings.len() > 0 {
            assert(page.headings.deep_view()[0] == page.headings@[0].deep_view());
        }
        if page.page_titles.len() > 0 {
            assert(page.page_titles.deep_view()[0] == page.page_titles@[0].deep_view());
        }
        if page.intro_details.len() > 0 {
            assert(page.intro_details.deep_view()[0] == page.intro_details@[0].deep_view());
        }
        if page.intros.len() > 0 {
            assert(page.intros.deep_view()[0] == page.intros@[0].deep_view());
        }
        if page.meta_descriptions.len() > 0 {
            assert(page.meta_descriptions.deep_view()[0]
                == page.meta_descriptions@[0].deep_view());
        }
        if page.word_counts.len() > 0 {
            assert(page.word_counts.deep_view()[0] == page.word_counts@[0].deep_view());
        }
    }
    let title = if page.headings.len() > 0 {
        page.headings[0].text.clone()
    } else if page.page_titles.len() > 0 {
        from_chars(&chars_before_first(&to_chars(page.page_titles[0].text.as_str()), '_'))
    } else {
        copy_str(UNKNOWN_TITLE)
    };
    if str_contains(title.as_str(), "Just a moment") || str_contains(
        title.as_str(),
        "Security checking",
    ) {
        return Err(PageError::Blocked);
    }
    let description = if page.intro_details.len() > 0 {
        str_trim(page.intro_details[0].text.as_str())
    } else if page.intros.len() > 0 {
        str_trim(page.intros[0].text.as_str())
    } else if page.meta_descriptions.len() > 0 {
        match &page.meta_descriptions[0].attr {
            Some(content) => content.clone(),
            None => String::new(),
        }
    } else {
        String::new()
    };
    let mut raw: Vec<String> = Vec::new();
    proof {
        assert(raw.deep_view() =~= Seq::<Seq<char>>::empty());
    }
    collect_tags(&mut raw, &page.attribute_tags);
    collect_tags(&mut raw, &page.label_tags);
    proof {
        assert(raw.deep_view() =~= tag_texts(page.attribute_tags.deep_view()) + tag_texts(
            page.label_tags.deep_view(),
        ));
    }
    let tags = sort_unique(&raw);
    let word_count = if page.word_counts.len() > 0 {
        page.word_counts[0].text.clone()
    } else {
        copy_str(UNKNOWN_COUNT)
    };
    Ok(NovelMetadata { title, url: copy_str(url), tags, word_count, description })
}

/// Runs the selectors of a desktop page over `html`.
pub fn read_metadata_page(html: &str) -> (r: Result<MetadataPage, PageError>)
    ensures
        page_view(r) == metadata_page_of(html@),
{
    let headings = elements(html, HEADING_SELECTOR, "")?;
    let page_titles = elements(html, PAGE_TITLE_SELECTOR, "")?;
    let intro_details = elements(html, INTRO_DETAIL_SELECTOR, "")?;
    let intros = elements(html, INTRO_SELECTOR, "")?;
    let meta_descriptions = elements(html, META_DESCRIPTION_SELECTOR, "content")?;
    let attribute_tags = elements(html, ATTRIBUTE_TAG_SELECTOR, "")?;
    let label_tags = elements(html, LABEL_TAG_SELECTOR, "")?;
    let word_counts = elements(html, WORD_COUNT_SELECTOR, "")?;
    Ok(
        MetadataPage {
            headings,
            page_titles,
            intro_details,
            intros,
            meta_descriptions,
            attribute_tags,
            label_tags,
            word_counts,
        },
    )
}

/// Reads the desktop page `html` of the novel at `url`.
pub fn parse_novel_metadata(html: &str, url: &str) -> (r: Result<NovelMetadata, PageError>)
    ensures
        metadata_view(r) == page_metadata(html@, url@),
        r matches Ok(found) ==> strictly_sorted(found.tags.deep_view())
            && found.tags.deep_view().no_duplicates(),
{
    match read_metadata_page(html) {
        Ok(page) => metadata_from(&page, url),
        Err(e) => Err(e),
    }
}

/// The title that a mobile page gives: the first title element's text,
/// trimmed, or a placeholder where there is none or it is empty.
pub open spec fn mobile_title(titles: Seq<ElementView>) -> Seq<char> {
    if titles.len() > 0 && trim(titles[0].text).len() > 0 {
        trim(titles[0].text)
    } else {
        UNKNOWN_TITLE@
    }
}

/// The description that a mobile page gives: of the first introduction or
/// description element, the `content` attribute where it is a `meta`
/// element, its trimmed text where it is not.
pub open spec fn mobile_description(intros: Seq<ElementView>) -> Seq<char> {
    if intros.len() == 0 {
        Seq::empty()
    } else if intros[0].name == "meta"@ {
        match intros[0].attr {
            Some(content) => content,
            None => Seq::empty(),
        }
    } else {
        trim(intros[0].text)
    }
}

/// The reduced metadata that a mobile page gives.
pub open spec fn mobile_metadata_of(
    titles: Seq<ElementView>,
    intros: Seq<ElementView>,
    mobile_url: Seq<char>,
) -> NovelMetadataView {
    NovelMetadataView {
        title: mobile_title(titles),
        url: mobile_url,
        tags: Seq::empty(),
        word_count: UNKNOWN_COUNT@,
        description: mobile_description(intros),
    }
}

/// What a mobile page gives, by what its two selections are.
pub open spec fn mobile_page_metadata(
    titles: Result<Seq<ElementView>, PageError>,
    intros: Result<Seq<ElementView>, PageError>,
    mobile_url: Seq<char>,
) -> Result<NovelMetadataView, PageError> {
    match (titles, intros) {
        (Ok(titles), Ok(intros)) => Ok(mobile_metadata_of(titles, intros, mobile_url)),
        _ => Err(PageError::Selector),
    }
}

/// The reduced metadata that the selections of a mobile page give.
pub fn mobile_metadata_from(titles: &Vec<Element>, intros: &Vec<Element>, mobile_url: &str) -> (r:
    NovelMetadata)
    ensures
        r.deep_view() == mobile_metadata_of(titles.deep_view(), intros.deep_view(), mobile_url@),
{
    proof {
        if titles.len() > 0 {
            assert(titles.deep_view()[0] == titles@[0].deep_view());
        }
        if intros.len() > 0 {
            assert(intros.deep_view()[0] == intros@[0].deep_view());
        }
    }
    let mut title = copy_str(UNKNOWN_TITLE);
    if titles.len() > 0 {
        let found = str_trim(titles[0].text.as_str());
        if !found.as_str().is_empty() {
            title = found;
        }
    }
    let description = if intros.len() == 0 {
        String::new()
    } else if str_equal(intros[0].name.as_str(), "meta") {
        match &intros[0].attr {
            Some(content) => content.clone(),
            None => String::new(),
        }
    } else {
        str_trim(intros[0].text.as_str())
    };
    let tags: Vec<String> = Vec::new();
    proof {
        assert(tags.deep_view() =~= Seq::<Seq<char>>::empty());
    }
    NovelMetadata {
        title,
        url: copy_str(mobile_url),
        tags,
        word_count: copy_str(UNKNOWN_COUNT),
        description,
    }
}

/// Reads the mobile page `html`, which was fetched from `mobile_url`.
pub fn fetch_mobile_metadata(html: &str, mobile_url: &str) -> (r: Result<
    NovelMetadata,
    PageError,
>)
    ensures
        metadata_view(r) == mobile_page_metadata(
            selected(html@, MOBILE_TITLE_SELECTOR@, ""@),
            selected(html@, MOBILE_INTRO_SELECTOR@, "content"@),
            mobile_url@,
        ),
{
    let titles = elements(html, MOBILE_TITLE_SELECTOR, "");
    let intros = elements(html, MOBILE_INTRO_SELECTOR, "content");
    match (titles, intros) {
        (Ok(titles), Ok(intros)) => Ok(mobile_metadata_from(&titles, &intros, mobile_url)),
        _ => Err(PageError::Selector),
    }
}

/// What comes of an attempt at a novel's metadata.
pub enum MetadataStep {
    /// The desktop page gave it.
    Done(NovelMetadata),
    /// The mobile page at `url` is to be fetched and read.
    Fallback { url: String },
    /// There is no way on.
    Failed { message: String },
}

pub enum MetadataStepView {
    Done(NovelMetadataView),
    Fallback { url: Seq<char> },
    Failed { message: Seq<char> },
}

impl DeepView for MetadataStep {
    type V = MetadataStepView;

    open spec fn deep_view(&self) -> MetadataStepView {
        match self {
            MetadataStep::Done(m) => MetadataStepView::Done(m.deep_view()),
            MetadataStep::Fallback { url } => MetadataStepView::Fallback { url: url@ },
            MetadataStep::Failed { message } => MetadataStepView::Failed { message: message@ },
        }
    }
}

pub open spec fn no_book_id_message() -> Seq<char> {
    "无法从 URL 提取 bookId"@
}

/// The way on where the desktop page gave nothing: the mobile page of the
/// book whose id the novel's address holds, if it holds one.
pub open spec fn fallback_of(id: Option<Seq<char>>) -> MetadataStepView {
    match id {
        Some(id) => MetadataStepView::Fallback { url: MOBILE_BOOK_PREFIX@ + id },
        None => MetadataStepView::Failed { message: no_book_id_message() },
    }
}

/// What comes of the desktop route: its metadata, or the way on.
pub open spec fn metadata_step_of(
    read: Option<Result<NovelMetadataView, PageError>>,
    id: Option<Seq<char>>,
) -> MetadataStepView {
    match read {
        Some(Ok(metadata)) => MetadataStepView::Done(metadata),
        _ => fallback_of(id),
    }
}

/// The view of what the browser worker handed back: the page, or nothing.
pub open spec fn fetched_view(fetched: Result<String, String>) -> Option<Seq<char>> {
    match fetched {
        Ok(html) => Some(html@),
        Err(_) => None,
    }
}

/// What was read of the page that the worker handed back, if it handed one back.
pub open spec fn read_of(fetched: Option<Seq<char>>, url: Seq<char>) -> Option<
    Result<NovelMetadataView, PageError>,
> {
    match fetched {
        Some(html) => Some(page_metadata(html, url)),
        None => None,
    }
}

/// The way on for the novel whose book id is known or not.
pub fn fallback_for(id: Option<String>) -> (r: MetadataStep)
    ensures
        r.deep_view() == fallback_of(id.deep_view()),
{
    match id {
        Some(id) => MetadataStep::Fallback { url: concat(MOBILE_BOOK_PREFIX, id.as_str()) },
        None => MetadataStep::Failed { message: copy_str("无法从 URL 提取 bookId") },
    }
}

/// Decides what comes of the desktop route, given what was read there and
/// the book id.
pub fn metadata_step(read: Option<Result<NovelMetadata, PageError>>, id: Option<String>) -> (r:
    MetadataStep)
    ensures
        r.deep_view() == metadata_step_of(
            match read {
                Some(outcome) => Some(metadata_view(outcome)),
                None => None,
            },
            id.deep_view(),
        ),
{
    match read {
        Some(Ok(metadata)) => MetadataStep::Done(metadata),
        _ => fallback_for(id),
    }
}

/// Takes what the browser worker handed back for the novel at `url`, the
/// page or its failure, and says what comes of it: the metadata that the page
/// gives; or, where the worker failed or the page is a challenge page, the
/// mobile page to fall back on; or, where `url` holds no book id for that,
/// the failure.
pub fn fetch_novel_metadata(fetched: Result<String, String>, url: &str) -> (r: MetadataStep)
    ensures
        r.deep_view() == metadata_step_of(
            read_of(fetched_view(fetched), url@),
            captured(MOBILE_BOOK_ID_PATTERN@, url@, 1),
        ),
{
    let read = match fetched {
        Ok(html) => Some(parse_novel_metadata(html.as_str(), url)),
        Err(_) => None,
    };
    metadata_step(read, capture(MOBILE_BOOK_ID_PATTERN, url, 1))
}

} // verus!
