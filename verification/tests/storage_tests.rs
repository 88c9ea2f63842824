use novel_spider::json::Json;
use novel_spider::storage::{
    chapter_file_contents, chapter_file_name, delete_chapter, delete_novel, export_chapter,
    export_file_name, log_line, log_to_file, log_to_file_with_root, sanitize_title,
    update_novel_metadata, PathKind,
};
use novel_spider::tree::{get_file_tree, place_node, shows, FileNode};

fn file(name: &str) -> FileNode {
    FileNode { name: name.to_string(), path: name.to_string(), is_dir: false, children: Vec::new() }
}

fn dir(name: &str, children: Vec<FileNode>) -> FileNode {
    FileNode { name: name.to_string(), path: name.to_string(), is_dir: true, children }
}

fn names(nodes: &Vec<FileNode>) -> Vec<String> {
    nodes.iter().map(|n| n.name.clone()).collect()
}

#[test]
fn title_sanitisation_replaces_both_slashes() {
    assert_eq!(sanitize_title("A/B\\C"), "A_B_C");
    assert_eq!(sanitize_title("无斜杠"), "无斜杠");
    assert_eq!(sanitize_title("//"), "__");
    assert_eq!(sanitize_title(""), "");
}

#[test]
fn sanitised_title_shows_as_a_folder_in_the_tree() {
    let title = sanitize_title("A/B\\C");
    let tree = get_file_tree(&vec![dir(&title, vec![file("info.json"), file("01.txt")])]);
    assert_eq!(names(&tree), vec!["A_B_C"]);
    assert!(tree[0].is_dir);
    assert_eq!(names(&tree[0].children), vec!["01.txt", "info.json"]);
}

#[test]
fn chapter_files_are_numbered_from_one_with_two_digits() {
    assert_eq!(chapter_file_name(0), "01.txt");
    assert_eq!(chapter_file_name(1), "02.txt");
    assert_eq!(chapter_file_name(8), "09.txt");
    assert_eq!(chapter_file_name(9), "10.txt");
    assert_eq!(chapter_file_name(98), "99.txt");
    assert_eq!(chapter_file_name(99), "100.txt");
}

#[test]
fn chapter_file_has_the_header_and_the_body() {
    let expected = format!(
        "标题: {}\n链接: {}\n{}\n\n{}",
        "第一章",
        "https://www.qidian.com/chapter/1/2/",
        "=".repeat(50),
        "正文\n\n第二段"
    );
    assert_eq!(
        chapter_file_contents("第一章", "https://www.qidian.com/chapter/1/2/", "正文\n\n第二段"),
        expected
    );
    assert_eq!(
        chapter_file_contents("t", "u", ""),
        "标题: t\n链接: u\n==================================================\n\n"
    );
}

#[test]
fn export_file_is_the_index_with_md() {
    assert_eq!(export_file_name(3), "3.md");
    assert_eq!(export_file_name(0), "0.md");
    assert_eq!(export_file_name(-2), "-2.md");
    assert_eq!(export_chapter("书", 12), vec!["result", "书", "12.md"]);
}

#[test]
fn log_record_is_one_timestamped_line() {
    assert_eq!(log_line("2024-01-02 03:04:05", "已删除小说: 书"), "[2024-01-02 03:04:05] 已删除小说: 书\n");
    let inside = log_to_file_with_root("m", "t", true);
    assert!(inside.in_workspace);
    assert_eq!(inside.path, vec!["logs", "app.log"]);
    assert_eq!(inside.line, "[t] m\n");
    let outside = log_to_file("m", "t");
    assert!(!outside.in_workspace);
    assert_eq!(outside.path, vec!["app.log"]);
    assert_eq!(outside.line, "[t] m\n");
}

#[test]
fn file_tree_filter() {
    let tree = get_file_tree(&vec![file("a.txt"), file("b.json"), file("c.md"), dir("sub", Vec::new())]);
    assert_eq!(names(&tree), vec!["sub", "a.txt", "b.json"]);
    assert!(tree[0].is_dir);
    assert!(!tree[1].is_dir);
}

#[test]
fn file_tree_sorts_each_level_and_filters_below() {
    let tree = get_file_tree(&vec![
        file("z.txt"),
        dir("书乙", vec![file("02.txt"), file("notes.md"), file("01.txt"), file("info.json")]),
        file("a.json"),
        dir("书甲", vec![dir("inner", vec![file("x.bin")]), file("10.txt")]),
    ]);
    assert_eq!(names(&tree), vec!["书乙", "书甲", "a.json", "z.txt"]);
    assert_eq!(names(&tree[0].children), vec!["01.txt", "02.txt", "info.json"]);
    assert_eq!(names(&tree[1].children), vec!["inner", "10.txt"]);
    assert!(tree[1].children[0].children.is_empty());
}

#[test]
fn file_tree_keeps_paths_and_drops_children_of_files() {
    let odd = FileNode {
        name: "a.txt".to_string(),
        path: "书/a.txt".to_string(),
        is_dir: false,
        children: vec![file("b.txt")],
    };
    let tree = get_file_tree(&vec![odd]);
    assert_eq!(tree[0].path, "书/a.txt");
    assert!(tree[0].children.is_empty());
}

#[test]
fn extension_decides_what_is_shown() {
    assert!(shows("a.txt", false));
    assert!(shows("a.b.json", false));
    assert!(!shows("a.md", false));
    assert!(!shows("txt", false));
    assert!(!shows(".txt", false));
    assert!(!shows("a.txt.", false));
    assert!(!shows("a.TXT", false));
    assert!(!shows("..", false));
    assert!(shows("..txt", false));
    assert!(shows("anything", true));
    assert!(shows("c.md", true));
}

#[test]
fn placing_is_stable_for_equal_names() {
    let mut nodes = vec![dir("b", Vec::new()), file("a.txt")];
    let mut twin = file("a.txt");
    twin.path = "second".to_string();
    place_node(&mut nodes, twin);
    place_node(&mut nodes, dir("a", Vec::new()));
    assert_eq!(names(&nodes), vec!["a", "b", "a.txt", "a.txt"]);
    assert_eq!(nodes[3].path, "second");
}

#[test]
fn deleting_a_novel_needs_a_directory() {
    assert_eq!(delete_novel(PathKind::Missing, "书").unwrap_err(), "小说目录不存在");
    assert_eq!(delete_novel(PathKind::File, "书").unwrap_err(), "路径不是目录");
    assert_eq!(delete_novel(PathKind::Other, "书").unwrap_err(), "路径不是目录");
    let done = delete_novel(PathKind::Directory, "书").unwrap();
    assert_eq!(done.reply, "已删除《书》");
    assert_eq!(done.log, "已删除小说: 书");
}

#[test]
fn deleting_a_chapter_needs_a_file() {
    assert_eq!(delete_chapter(PathKind::Missing, "书", "01.txt").unwrap_err(), "章节文件不存在");
    assert_eq!(delete_chapter(PathKind::Directory, "书", "01.txt").unwrap_err(), "路径不是文件");
    let done = delete_chapter(PathKind::File, "书", "01.txt").unwrap();
    assert_eq!(done.reply, "已删除章节: 01.txt");
    assert_eq!(done.log, "已删除章节: 书/01.txt");
}

#[test]
fn metadata_update_overlays_the_patch_at_the_top_level() {
    let existing = "{\"title\":\"书\",\"url\":\"u\",\"tags\":[\"a\"],\"word_count\":\"1万\",\"description\":\"d\",\"ai\":{\"genre\":\"x\",\"style\":\"y\"}}";
    let patch = Json::parse("{\"ai\":{\"genre\":\"玄幻\"},\"word_count\":\"2万\",\"rating\":5}").unwrap();
    let updated = update_novel_metadata(Some(existing), patch).unwrap();
    let expected: serde_json::Value = serde_json::from_str(
        "{\"title\":\"书\",\"url\":\"u\",\"tags\":[\"a\"],\"word_count\":\"2万\",\"description\":\"d\",\"ai\":{\"genre\":\"玄幻\"},\"rating\":5}",
    )
    .unwrap();
    assert_eq!(updated, serde_json::to_string_pretty(&expected).unwrap());
    let reread: serde_json::Value = serde_json::from_str(&updated).unwrap();
    assert_eq!(reread, expected);
}

#[test]
fn metadata_update_leaves_what_is_no_object() {
    let patch = Json::parse("[1, 2]").unwrap();
    let updated = update_novel_metadata(Some("{\"title\": \"书\"}"), patch).unwrap();
    assert_eq!(updated, "{\n  \"title\": \"书\"\n}");
    let patch = Json::parse("{\"a\": 1}").unwrap();
    assert_eq!(update_novel_metadata(Some("[1]"), patch).unwrap(), "[\n  1\n]");
}

#[test]
fn metadata_update_needs_the_file_and_valid_json() {
    let patch = Json::parse("{}").unwrap();
    assert_eq!(update_novel_metadata(None, patch).unwrap_err(), "info.json not found");
    let patch = Json::parse("{}").unwrap();
    let complaint = update_novel_metadata(Some("{not json"), patch).unwrap_err();
    let expected = serde_json::from_str::<serde_json::Value>("{not json").unwrap_err().to_string();
    assert_eq!(complaint, expected);
}
