use novel_spider::fanqie::{
    chapter_from, chapter_list_from, download_chapter, fetch_chapter_list, fetch_novel_metadata,
    fetch_rank_list, metadata_from, rank_list_from,
};
use novel_spider::html::{Element, PageError};

fn el(text: &str, href: Option<&str>) -> Element {
    Element { name: "a".to_string(), text: text.to_string(), attr: href.map(|h| h.to_string()) }
}

#[test]
fn fanqie_chapter_list_keeps_relative_links() {
    let html = "<html><body><div class=\"chapter-item\">\
<a class=\"chapter-item-title\" href=\"/reader/101\"> 最新章 </a>\
<a class=\"chapter-item-title\" href=\"/reader/1\">第1章</a>\
<a class=\"chapter-item-title\">没有链接</a>\
<a class=\"chapter-item-title\" href=\"\">空链接</a>\
<a class=\"chapter-item-title\" href=\"/reader/2\">第2章</a>\
</div></body></html>";
    let expected: Vec<(String, String)> = vec![
        (" 最新章 ".to_string(), "/reader/101".to_string()),
        ("第1章".to_string(), "/reader/1".to_string()),
        ("第2章".to_string(), "/reader/2".to_string()),
    ];
    assert_eq!(fetch_chapter_list(html).unwrap(), expected);
    assert_eq!(fetch_chapter_list("").unwrap(), Vec::new());
}

#[test]
fn fanqie_chapter_anchors() {
    let anchors = vec![el("一", Some("/reader/1")), el("二", None), el("三", Some(""))];
    assert_eq!(chapter_list_from(&anchors), vec![("一".to_string(), "/reader/1".to_string())]);
}

#[test]
fn fanqie_rank_list_collects_absolute_addresses() {
    let html = "<div class=\"rank-book-item\"><a href=\"/page/7\">七</a></div>\
<div class=\"rank-book-item\"><a href=\"https://fanqienovel.com/page/8\">八</a></div>\
<div class=\"rank-book-item\"><a>无</a></div>";
    assert_eq!(
        fetch_rank_list(html).unwrap(),
        vec!["https://fanqienovel.com/page/7", "https://fanqienovel.com/page/8"]
    );
    assert_eq!(
        rank_list_from(&vec![el("x", Some("//fanqienovel.com/page/9")), el("y", Some(""))]),
        vec!["https://fanqienovel.com/page/9"]
    );
}

#[test]
fn fanqie_metadata() {
    let html = "<html><body><div class=\"info-name\"><h1> 书名 </h1></div>\
<div class=\"info-label\"><span>连载中</span><span>都市</span><span>都市</span></div>\
<div class=\"info-count-word\"><span class=\"detail\">12.3</span><span class=\"text\">万字</span></div>\
<div class=\"page-abstract-content\"><p> 简介文字 </p></div></body></html>";
    let m = fetch_novel_metadata(html, "https://fanqienovel.com/page/1").unwrap();
    assert_eq!(m.title, "书名");
    assert_eq!(m.url, "https://fanqienovel.com/page/1");
    let mut tags = vec!["连载中".to_string(), "都市".to_string()];
    tags.sort();
    assert_eq!(m.tags, tags);
    assert_eq!(m.word_count, "12.3");
    assert_eq!(m.description, "简介文字");
    let bare = metadata_from(&Vec::new(), &Vec::new(), &Vec::new(), &Vec::new(), "u");
    assert_eq!(bare.title, "Unknown Title");
    assert_eq!(bare.word_count, "未知");
    assert_eq!(bare.description, "");
}

#[test]
fn fanqie_chapter_text() {
    let html = "<html><body><h1>第1章</h1><div class=\"muye-reader-content\"><p>一</p><p>二</p></div></body></html>";
    assert_eq!(download_chapter(html), Ok(("第1章".to_string(), "一二".to_string())));
    assert_eq!(download_chapter("<h1>x</h1>").unwrap_err(), PageError::NoContent);
    assert_eq!(chapter_from(&Vec::new(), &vec![el("正文", None)]), Ok((String::new(), "正文".to_string())));
}
