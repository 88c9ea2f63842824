use novel_spider::html::{collect_tags, elements, texts_within, Element, PageError};
use novel_spider::links::absolute;
use novel_spider::lists::{holds, put_pair, put_text};
use novel_spider::model::NovelMetadata;
use novel_spider::qidian::catalog::{catalog_url, catalog_url_for, chapter_list_from, fetch_chapter_list};
use novel_spider::qidian::chapter::{chapter_from, chapter_page_url, download_chapter};
use novel_spider::qidian::metadata::{
    fallback_for, fetch_mobile_metadata, fetch_novel_metadata, metadata_from, metadata_step,
    mobile_metadata_from, parse_novel_metadata, read_metadata_page, MetadataPage, MetadataStep,
};
use novel_spider::qidian::{fetch_rank_list, rank_list_from};

fn anchor(text: &str, href: Option<&str>) -> Element {
    Element { name: "a".to_string(), text: text.to_string(), attr: href.map(|h| h.to_string()) }
}

fn element(name: &str, text: &str, attr: Option<&str>) -> Element {
    Element { name: name.to_string(), text: text.to_string(), attr: attr.map(|h| h.to_string()) }
}

fn empty_page() -> MetadataPage {
    MetadataPage {
        headings: Vec::new(),
        page_titles: Vec::new(),
        intro_details: Vec::new(),
        intros: Vec::new(),
        meta_descriptions: Vec::new(),
        attribute_tags: Vec::new(),
        label_tags: Vec::new(),
        word_counts: Vec::new(),
    }
}

const RANK_PAGE: &str = "<html><body>\
<div id=\"rank-view-list\"><ul>\
<li><div class=\"book-mid-info\"><h2><a href=\"//www.qidian.com/book/1003/\">丙</a></h2>\
<p class=\"author\"><a class=\"name\" href=\"//my.qidian.com/author/9/\">作者</a></p></div></li>\
<li><div class=\"book-mid-info\"><h2><a href=\"/book/1001/\">甲</a></h2></div></li>\
<li><div class=\"book-mid-info\"><h2><a href=\"https://www.qidian.com/book/1003/\">丙又</a></h2></div></li>\
<li><div class=\"book-mid-info\"><h2><a>无链接</a></h2></div></li>\
<li><div class=\"book-mid-info\"><h2><a href=\"\">空</a></h2></div></li>\
<li><div class=\"book-mid-info\"><h2><a href=\"/info/77/\">别处</a></h2></div></li>\
<li><div class=\"book-mid-info\"><h2><a href=\"/book/1002/\">乙</a></h2></div></li>\
<li><div class=\"book-mid-info\"><h2><a href=\"/book/1001/\">甲又</a></h2></div></li>\
</ul></div></body></html>";

#[test]
fn rank_list_keeps_the_order_of_the_page() {
    let links = fetch_rank_list(RANK_PAGE, "https://www.qidian.com/rank/yuepiao/").unwrap();
    assert_eq!(
        links,
        vec![
            "https://www.qidian.com/book/1003/",
            "https://www.qidian.com/book/1001/",
            "https://www.qidian.com/book/1002/",
        ]
    );
}

#[test]
fn rank_links_of_a_mobile_page_go_to_the_mobile_host() {
    let links = fetch_rank_list(RANK_PAGE, "https://m.qidian.com/rank/").unwrap();
    assert_eq!(
        links,
        vec![
            "https://www.qidian.com/book/1003/",
            "https://m.qidian.com/book/1001/",
            "https://m.qidian.com/book/1002/",
        ]
    );
}

#[test]
fn rank_list_matches_the_other_layouts_too() {
    let page = "<div class=\"rank-list\"><a class=\"book-layout\" href=\"/book/5/\">五</a>\
<a class=\"other\" href=\"/book/6/\">六</a></div>\
<div class=\"book-img-text\"><div class=\"book-mid-info\"><h2><a href=\"/book/7/\">七</a></h2></div></div>";
    assert_eq!(
        fetch_rank_list(page, "https://www.qidian.com/rank/").unwrap(),
        vec!["https://www.qidian.com/book/5/", "https://www.qidian.com/book/7/"]
    );
    assert_eq!(fetch_rank_list("", "https://www.qidian.com/rank/").unwrap(), Vec::<String>::new());
}

#[test]
fn deduplication_preserves_the_first_occurrence() {
    let anchors = vec![
        anchor("b", Some("/book/2/")),
        anchor("a", Some("/book/1/")),
        anchor("b", Some("/book/2/")),
        anchor("c", Some("//www.qidian.com/book/3/")),
        anchor("a", Some("https://www.qidian.com/book/1/")),
        anchor("n", None),
    ];
    assert_eq!(
        rank_list_from(&anchors, "https://www.qidian.com/rank/"),
        vec![
            "https://www.qidian.com/book/2/",
            "https://www.qidian.com/book/1/",
            "https://www.qidian.com/book/3/",
        ]
    );
}

#[test]
fn links_are_made_absolute() {
    assert_eq!(absolute("//a.b/c", "https://m.qidian.com"), "https://a.b/c");
    assert_eq!(absolute("/book/1/", "https://m.qidian.com"), "https://m.qidian.com/book/1/");
    assert_eq!(absolute("https://x/y", "https://m.qidian.com"), "https://x/y");
    assert_eq!(absolute("book/1", "https://m.qidian.com"), "book/1");
    assert!(holds(&vec!["a".to_string(), "b".to_string()], "b"));
    assert!(!holds(&vec!["a".to_string()], "b"));
}

const NOVEL_PAGE: &str = "<html><head><title>诡秘之主_爱潜水的乌贼_起点中文网</title>\
<meta name=\"description\" content=\"元描述\"></head><body>\
<h1 id=\"bookName\">诡秘之主</h1>\
<p class=\"book-attribute\"><a>连载</a><a> 签约 </a><a>VIP</a><a>玄幻</a><a> </a></p>\
<p class=\"count\"><em>446.52万</em><cite>字</cite><em>100</em></p>\
<p class=\"intro\">短简介</p>\
<p id=\"book-intro-detail\">  蒸汽与机械的浪潮中，谁能触及非凡？\n </p>\
<p class=\"intro-honor-label\"><span class=\"all-label\"><a>玄幻</a><a>克苏鲁</a><a>VIP</a></span></p>\
</body></html>";

#[test]
fn metadata_of_a_novel_page() {
    let m = parse_novel_metadata(NOVEL_PAGE, "https://www.qidian.com/book/1010868264/").unwrap();
    assert_eq!(m.title, "诡秘之主");
    assert_eq!(m.url, "https://www.qidian.com/book/1010868264/");
    assert_eq!(m.word_count, "446.52万");
    assert_eq!(m.description, "蒸汽与机械的浪潮中，谁能触及非凡？");
    let mut expected = vec!["连载", "签约", "VIP", "玄幻", "克苏鲁"];
    expected.sort();
    assert_eq!(m.tags, expected);
}

#[test]
fn tag_normalisation() {
    let mut page = empty_page();
    page.headings = vec![element("h1", "书", None)];
    page.attribute_tags = vec![anchor("都市", None), anchor(" 连载 ", None), anchor("", None), anchor("VIP", None)];
    page.label_tags = vec![anchor("系统流", None), anchor("都市", None), anchor("  ", None), anchor("VIP", None)];
    let m = metadata_from(&page, "u").unwrap();
    let mut expected: Vec<String> =
        ["都市", "连载", "VIP", "系统流"].iter().map(|t| t.to_string()).collect();
    expected.sort();
    assert_eq!(m.tags, expected);
    let mut sorted = m.tags.clone();
    sorted.sort();
    sorted.dedup();
    assert_eq!(m.tags, sorted);
}

#[test]
fn tags_are_collected_trimmed_and_without_the_empty_ones() {
    let mut raw = vec!["先".to_string()];
    collect_tags(&mut raw, &vec![anchor(" a ", None), anchor("", None), anchor("b", None), anchor("a", None)]);
    assert_eq!(raw, vec!["先", "a", "b", "a"]);
}

#[test]
fn the_title_falls_back_to_the_page_title_and_then_to_a_placeholder() {
    let mut page = empty_page();
    page.page_titles = vec![element("title", "书名_作者_起点中文网", None)];
    assert_eq!(metadata_from(&page, "u").unwrap().title, "书名");
    page.page_titles = vec![element("title", "没有下划线", None)];
    assert_eq!(metadata_from(&page, "u").unwrap().title, "没有下划线");
    page.headings = vec![element("h1", " 标题 ", None), element("h1", "第二", None)];
    assert_eq!(metadata_from(&page, "u").unwrap().title, " 标题 ");
    let bare = metadata_from(&empty_page(), "u").unwrap();
    assert_eq!(bare.title, "Unknown Title");
    assert_eq!(bare.word_count, "未知");
    assert_eq!(bare.description, "");
    assert_eq!(bare.tags, Vec::<String>::new());
    assert_eq!(bare.url, "u");
}

#[test]
fn the_description_falls_back_step_by_step() {
    let mut page = empty_page();
    page.meta_descriptions = vec![element("meta", "", Some(" 元描述 ")), element("meta", "", Some("二"))];
    assert_eq!(metadata_from(&page, "u").unwrap().description, " 元描述 ");
    page.meta_descriptions = vec![element("meta", "", None), element("meta", "", Some("二"))];
    assert_eq!(metadata_from(&page, "u").unwrap().description, "");
    page.intros = vec![element("p", " 短 ", None)];
    assert_eq!(metadata_from(&page, "u").unwrap().description, "短");
    page.intro_details = vec![element("p", "\n详细\n", None)];
    assert_eq!(metadata_from(&page, "u").unwrap().description, "详细");
}

#[test]
fn a_challenge_page_gives_no_metadata() {
    let mut page = empty_page();
    page.headings = vec![element("h1", "Just a moment...", None)];
    assert_eq!(metadata_from(&page, "u").unwrap_err(), PageError::Blocked);
    page.headings = vec![element("h1", "Security checking", None)];
    assert_eq!(metadata_from(&page, "u").unwrap_err(), PageError::Blocked);
    page.headings = Vec::new();
    page.page_titles = vec![element("title", "Just a moment..._x", None)];
    assert_eq!(metadata_from(&page, "u").unwrap_err(), PageError::Blocked);
    let html = "<html><head><title>Just a moment...</title></head><body></body></html>";
    assert_eq!(parse_novel_metadata(html, "u").unwrap_err(), PageError::Blocked);
}

#[test]
fn the_selections_of_a_novel_page() {
    let page = read_metadata_page(NOVEL_PAGE).unwrap();
    assert_eq!(page.headings.len(), 1);
    assert_eq!(page.headings[0].name, "h1");
    assert_eq!(page.page_titles[0].text, "诡秘之主_爱潜水的乌贼_起点中文网");
    assert_eq!(page.meta_descriptions[0].attr, Some("元描述".to_string()));
    assert_eq!(page.meta_descriptions[0].name, "meta");
    assert_eq!(page.attribute_tags.len(), 5);
    assert_eq!(page.label_tags.len(), 3);
    assert_eq!(page.word_counts.len(), 2);
    assert_eq!(page.intros.len(), 1);
    assert_eq!(page.intro_details.len(), 1);
}

#[test]
fn waf_recovery() {
    let challenge = "<html><head><title>Just a moment</title></head><body><h1>Just a moment</h1></body></html>";
    let step = fetch_novel_metadata(Ok(challenge.to_string()), "https://www.qidian.com/book/12345/");
    let mobile_url = match step {
        MetadataStep::Fallback { url } => url,
        _ => panic!("the mobile page is to be tried"),
    };
    assert_eq!(mobile_url, "https://m.qidian.com/book/12345");
    let mobile = "<html><body><h1> 测试小说 </h1><div class=\"book-intro\"> 简介 </div></body></html>";
    let m = fetch_mobile_metadata(mobile, &mobile_url).unwrap();
    assert_eq!(m.title, "测试小说");
    assert_eq!(m.url, "https://m.qidian.com/book/12345");
    assert_eq!(m.tags, Vec::<String>::new());
    assert_eq!(m.word_count, "未知");
    assert_eq!(m.description, "简介");
}

#[test]
fn a_worker_failure_falls_back_to_the_mobile_page() {
    let step = fetch_novel_metadata(Err("Timeout waiting for spider".to_string()), "https://www.qidian.com/book/777");
    assert!(matches!(step, MetadataStep::Fallback { url } if url == "https://m.qidian.com/book/777"));
    let stuck = fetch_novel_metadata(Err("Channel closed".to_string()), "https://www.qidian.com/rank/");
    assert!(matches!(stuck, MetadataStep::Failed { message } if message == "无法从 URL 提取 bookId"));
}

#[test]
fn a_page_that_reads_well_needs_no_fallback() {
    let step = fetch_novel_metadata(Ok(NOVEL_PAGE.to_string()), "https://www.qidian.com/rank/");
    match step {
        MetadataStep::Done(m) => assert_eq!(m.title, "诡秘之主"),
        _ => panic!("the page gives the metadata"),
    }
}

#[test]
fn the_step_after_the_desktop_route() {
    let m = NovelMetadata {
        title: "书".to_string(),
        url: "u".to_string(),
        tags: Vec::new(),
        word_count: "1".to_string(),
        description: String::new(),
    };
    assert!(matches!(metadata_step(Some(Ok(m)), None), MetadataStep::Done(found) if found.title == "书"));
    assert!(matches!(
        metadata_step(Some(Err(PageError::Blocked)), Some("9".to_string())),
        MetadataStep::Fallback { url } if url == "https://m.qidian.com/book/9"
    ));
    assert!(matches!(metadata_step(None, None), MetadataStep::Failed { .. }));
    assert!(matches!(fallback_for(Some("42".to_string())), MetadataStep::Fallback { url } if url == "https://m.qidian.com/book/42"));
}

#[test]
fn mobile_metadata_prefers_the_content_of_a_meta_element() {
    let titles = vec![element("h1", "  ", None)];
    let intros = vec![element("meta", "ignored", Some("内容")), element("div", "文字", None)];
    let m = mobile_metadata_from(&titles, &intros, "https://m.qidian.com/book/1");
    assert_eq!(m.title, "Unknown Title");
    assert_eq!(m.description, "内容");
    let m = mobile_metadata_from(&Vec::new(), &vec![element("meta", "x", None)], "u");
    assert_eq!(m.title, "Unknown Title");
    assert_eq!(m.description, "");
    let m = mobile_metadata_from(&vec![element("h2", "书", None)], &vec![element("div", " 文字 ", Some("c"))], "u");
    assert_eq!(m.title, "书");
    assert_eq!(m.description, "文字");
    let m = mobile_metadata_from(&Vec::new(), &Vec::new(), "u");
    assert_eq!(m.description, "");
}

#[test]
fn mobile_page_with_a_meta_description_only() {
    let html = "<html><head><meta name=\"description\" content=\"移动简介\"></head>\
<body><div class=\"detail\"><h2>移动书名</h2></div></body></html>";
    let m = fetch_mobile_metadata(html, "https://m.qidian.com/book/5").unwrap();
    assert_eq!(m.title, "移动书名");
    assert_eq!(m.description, "移动简介");
}

const CATALOG_PAGE: &str = "<html><body><ul>\
<li class=\"y-list__item\"><a href=\"//m.qidian.com/chapter/1/11/\"> 第一章 起 </a></li>\
<li class=\"y-list__item\"><a href=\"/chapter/1/12/\">第二章 承</a></li>\
<li class=\"y-list__item\"><a href=\"javascript:void(0)\">展开</a></li>\
<li class=\"y-list__item\"><a href=\"/book/1/\">返回</a></li>\
<li class=\"y-list__item\"><a href=\"/chapter/1/13/\">  </a></li>\
<li class=\"y-list__item\"><a>无链接</a></li>\
<li><a class=\"x-chapterItem-y\" href=\"https://m.qidian.com/read/1/14\">第四章 合</a></li>\
</ul></body></html>";

#[test]
fn chapters_of_a_catalog_page() {
    let chapters = fetch_chapter_list(CATALOG_PAGE).unwrap();
    let expected: Vec<(String, String)> = vec![
        ("第一章 起".to_string(), "https://m.qidian.com/chapter/1/11/".to_string()),
        ("第二章 承".to_string(), "https://m.qidian.com/chapter/1/12/".to_string()),
        ("第四章 合".to_string(), "https://m.qidian.com/read/1/14".to_string()),
    ];
    assert_eq!(chapters, expected);
}

#[test]
fn a_catalog_without_chapters_is_an_error() {
    assert_eq!(fetch_chapter_list("<html><body><p>Just a moment</p></body></html>").unwrap_err(), PageError::NoChapters);
    assert_eq!(fetch_chapter_list("").unwrap_err(), PageError::NoChapters);
    let only_other = "<li class=\"y-list__item\"><a href=\"/book/1/\">返回</a></li>";
    assert_eq!(fetch_chapter_list(only_other).unwrap_err(), PageError::NoChapters);
    assert_eq!(chapter_list_from(&Vec::new()), Vec::new());
}

#[test]
fn catalog_anchors_are_filtered() {
    let anchors = vec![
        anchor("一", Some("/chapter/1")),
        anchor("二", Some("javascript:/chapter/2")),
        anchor("三", Some("/x/3")),
        anchor("四", Some("/read/4")),
        anchor(" ", Some("/chapter/5")),
        anchor("六", Some("")),
    ];
    let expected: Vec<(String, String)> = vec![
        ("一".to_string(), "https://m.qidian.com/chapter/1".to_string()),
        ("四".to_string(), "https://m.qidian.com/read/4".to_string()),
    ];
    assert_eq!(chapter_list_from(&anchors), expected);
}

#[test]
fn the_catalog_is_on_the_mobile_host() {
    assert_eq!(catalog_url("https://www.qidian.com/book/1010868264/").unwrap(), "https://m.qidian.com/book/1010868264/catalog");
    assert_eq!(catalog_url("https://m.qidian.com/book/12/catalog").unwrap(), "https://m.qidian.com/book/12/catalog");
    assert_eq!(catalog_url("book/7x").unwrap(), "https://m.qidian.com/book/7/catalog");
    assert_eq!(catalog_url("https://www.qidian.com/rank/").unwrap_err(), PageError::NoBookId);
    assert_eq!(catalog_url("https://www.qidian.com/book/abc").unwrap_err(), PageError::NoBookId);
    assert_eq!(catalog_url_for(Some("5".to_string())).unwrap(), "https://m.qidian.com/book/5/catalog");
    assert_eq!(catalog_url_for(None).unwrap_err(), PageError::NoBookId);
}

#[test]
fn a_chapter_is_fetched_from_the_desktop_host() {
    assert_eq!(chapter_page_url("https://m.qidian.com/chapter/1/2/"), "https://www.qidian.com/chapter/1/2/");
    assert_eq!(chapter_page_url("https://www.qidian.com/chapter/1/2/"), "https://www.qidian.com/chapter/1/2/");
    assert_eq!(chapter_page_url("//m.qidian.com/a?from=m.qidian.com"), "//www.qidian.com/a?from=www.qidian.com");
}

#[test]
fn a_chapter_is_its_paragraphs_with_blank_lines_between() {
    let html = "<html><body><h1 class=\"j_chapterName\"> 第一章 </h1>\
<main class=\"content\"><p>一段</p><div><p>二段</p></div><p>三段</p></main>\
<div class=\"read-content\"><p>别处</p></div></body></html>";
    let (title, text) = download_chapter(html).unwrap();
    assert_eq!(title, "第一章");
    assert_eq!(text, "一段\n\n二段\n\n三段");
}

#[test]
fn a_container_without_paragraphs_gives_its_own_text() {
    let html = "<html><body><div class=\"read-content\">只有文字<br>第二行</div></body></html>";
    let (title, text) = download_chapter(html).unwrap();
    assert_eq!(title, "");
    assert_eq!(text, "只有文字第二行");
}

#[test]
fn a_page_without_a_container_is_an_error() {
    let html = "<html><body><h1>Just a moment</h1><p>checking</p></body></html>";
    assert_eq!(download_chapter(html).unwrap_err(), PageError::NoContent);
    assert_eq!(chapter_from(&vec![element("h1", "t", None)], &Vec::new(), &Vec::new()).unwrap_err(), PageError::NoContent);
}

#[test]
fn the_chapter_of_given_selections() {
    let titles = vec![element("h1", " 题 ", None)];
    let containers = vec![element("main", "容器文字", None), element("div", "二", None)];
    let paragraphs = vec![vec!["甲".to_string(), "乙".to_string()], vec!["丙".to_string()]];
    assert_eq!(chapter_from(&titles, &containers, &paragraphs), Ok(("题".to_string(), "甲\n\n乙".to_string())));
    assert_eq!(chapter_from(&titles, &containers, &vec![Vec::new()]), Ok(("题".to_string(), "容器文字".to_string())));
    assert_eq!(chapter_from(&Vec::new(), &containers, &Vec::new()), Ok((String::new(), "容器文字".to_string())));
}

#[test]
fn a_selector_that_is_not_accepted_is_an_error() {
    assert_eq!(elements("<p>x</p>", "p[", "").unwrap_err(), PageError::Selector);
    assert_eq!(elements("<p>x</p>", "", "").unwrap_err(), PageError::Selector);
    assert_eq!(texts_within("<p>x</p>", "p", ">>").unwrap_err(), PageError::Selector);
    assert_eq!(texts_within("<p>x</p>", "::", "p").unwrap_err(), PageError::Selector);
}

#[test]
fn the_elements_of_a_page() {
    let html = "<html><body><div id=\"a\" class=\"k\"><p>一<b>二</b></p><img src=\"s.png\" alt=\"图\"></div>\
<p class=\"k\" title=\"t\">三</p></body></html>";
    let found = elements(html, ".k", "id").unwrap();
    assert_eq!(found.len(), 2);
    assert_eq!(found[0].name, "div");
    assert_eq!(found[0].text, "一二");
    assert_eq!(found[0].attr, Some("a".to_string()));
    assert_eq!(found[1].name, "p");
    assert_eq!(found[1].text, "三");
    assert_eq!(found[1].attr, None);
    assert_eq!(elements(html, "img", "alt").unwrap()[0].attr, Some("图".to_string()));
    assert_eq!(elements(html, "img", "alt").unwrap()[0].text, "");
    assert!(elements(html, "table", "id").unwrap().is_empty());
    assert_eq!(
        texts_within(html, "div, body", "p").unwrap(),
        vec![vec!["一二".to_string(), "三".to_string()], vec!["一二".to_string()]]
    );
    assert_eq!(texts_within(html, "p", "b").unwrap(), vec![vec!["二".to_string()], Vec::new()]);
}

#[test]
fn lists_are_built_by_appending() {
    let mut texts = Vec::new();
    put_text(&mut texts, "a".to_string());
    put_text(&mut texts, "b".to_string());
    assert_eq!(texts, vec!["a", "b"]);
    let mut pairs = Vec::new();
    put_pair(&mut pairs, "t".to_string(), "h".to_string());
    assert_eq!(pairs, vec![("t".to_string(), "h".to_string())]);
}

#[test]
fn page_errors_have_their_messages() {
    assert_eq!(PageError::Selector.message(), "Selector error");
    assert_eq!(PageError::Blocked.message(), "Browser Spider still caught by WAF");
    assert_eq!(PageError::NoBookId.message(), "Failed to extract book ID for catalog");
    assert_eq!(PageError::NoChapters.message(), "No chapters found in catalog.");
    assert_eq!(PageError::NoContent.message(), "Failed to find content (WAF or Selector Mismatch). See logs.");
}
