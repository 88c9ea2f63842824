use novel_spider::model::{NovelMetadata, Platform, Progress, Status};
use novel_spider::pipeline::{batch_of, chapter_address, Action, Event, NovelDownload, Stage};

struct Host {
    metadata: Result<NovelMetadata, String>,
    save: Result<(), String>,
    list: Result<Vec<(String, String)>, String>,
    existing: Vec<String>,
    /// How many attempts at each chapter fail before one succeeds.
    failures: usize,
    attempts: usize,
    logs: Vec<String>,
    emitted: Vec<(String, Status)>,
    sleeps: Vec<u64>,
    fetched: Vec<String>,
    checked: Vec<String>,
    saved: Vec<(String, NovelMetadata)>,
    written: Vec<(String, String, String)>,
}

fn metadata(title: &str) -> NovelMetadata {
    NovelMetadata {
        title: title.to_string(),
        url: "https://www.qidian.com/book/1/".to_string(),
        tags: vec!["都市".to_string()],
        word_count: "10万".to_string(),
        description: "简介".to_string(),
    }
}

fn chapters(n: usize) -> Vec<(String, String)> {
    (1..=n).map(|i| (format!("第{}章", i), format!("/chapter/{}", i))).collect()
}

fn host(title: &str, available: usize) -> Host {
    Host {
        metadata: Ok(metadata(title)),
        save: Ok(()),
        list: Ok(chapters(available)),
        existing: Vec::new(),
        failures: 0,
        attempts: 0,
        logs: Vec::new(),
        emitted: Vec::new(),
        sleeps: Vec::new(),
        fetched: Vec::new(),
        checked: Vec::new(),
        saved: Vec::new(),
        written: Vec::new(),
    }
}

fn run(job: &mut NovelDownload, host: &mut Host) -> Result<String, String> {
    let mut actions = job.step(Event::Begin);
    loop {
        assert!(!actions.is_empty());
        let mut answer = None;
        for action in actions {
            assert!(answer.is_none());
            match action {
                Action::Log { message } => host.logs.push(message),
                Action::Emit { message, status } => host.emitted.push((message, status)),
                Action::Sleep { millis } => host.sleeps.push(millis),
                Action::FetchMetadata { .. } => {
                    answer = Some(match host.metadata.clone() {
                        Ok(m) => Event::Metadata(m),
                        Err(e) => Event::MetadataFailed(e),
                    });
                }
                Action::SaveMetadata { directory, metadata } => {
                    host.saved.push((directory, metadata));
                    answer = Some(match host.save.clone() {
                        Ok(()) => Event::Saved,
                        Err(e) => Event::SaveFailed(e),
                    });
                }
                Action::FetchChapterList { .. } => {
                    answer = Some(match host.list.clone() {
                        Ok(list) => Event::ChapterList(list),
                        Err(e) => Event::ChapterListFailed(e),
                    });
                }
                Action::CheckChapter { file, .. } => {
                    host.attempts = 0;
                    answer = Some(Event::ChapterExists(host.existing.contains(&file)));
                    host.checked.push(file);
                }
                Action::DownloadChapter { url } => {
                    host.fetched.push(url.clone());
                    host.attempts += 1;
                    answer = Some(if host.attempts > host.failures {
                        Event::Chapter(format!("正文 {}", url))
                    } else {
                        Event::ChapterFailed("timeout".to_string())
                    });
                }
                Action::WriteChapter { directory, file, contents } => {
                    host.existing.push(file.clone());
                    host.written.push((directory, file, contents));
                }
                Action::Finished { title } => return Ok(title),
                Action::Failed { message } => return Err(message),
            }
        }
        actions = job.step(answer.unwrap());
    }
}

fn files(host: &Host) -> Vec<String> {
    host.written.iter().map(|w| w.1.clone()).collect()
}

fn count(host: &Host, status: Status) -> usize {
    host.emitted.iter().filter(|e| e.1 == status).count()
}

#[test]
fn a_fresh_download_writes_every_chapter_in_order() {
    let mut h = host("书", 8);
    let mut job = NovelDownload::new("qidian", "https://www.qidian.com/book/1/", 5, false);
    assert_eq!(run(&mut job, &mut h), Ok("书".to_string()));
    assert_eq!(job.stage(), Stage::Complete);
    assert_eq!(files(&h), vec!["01.txt", "02.txt", "03.txt", "04.txt", "05.txt"]);
    assert_eq!(h.fetched, vec!["/chapter/1", "/chapter/2", "/chapter/3", "/chapter/4", "/chapter/5"]);
    assert_eq!(job.downloaded(), 5);
    assert_eq!(job.skipped(), 0);
    assert_eq!(h.sleeps, vec![200, 200, 200, 200, 200]);
    assert_eq!(h.saved.len(), 1);
    assert_eq!(h.saved[0].0, "书");
    assert_eq!(h.saved[0].1.title, "书");
    assert_eq!(h.written[0].0, "书");
    assert_eq!(
        h.written[2].2,
        format!("标题: 第3章\n链接: /chapter/3\n{}\n\n正文 /chapter/3", "=".repeat(50))
    );
}

#[test]
fn progress_of_a_fresh_download() {
    let mut h = host("书", 2);
    let mut job = NovelDownload::new("qidian", "https://www.qidian.com/book/1/", 5, false);
    run(&mut job, &mut h).unwrap();
    let expected: Vec<(String, Status)> = vec![
        ("正在获取元数据: https://www.qidian.com/book/1/".to_string(), Status::Running),
        ("正在获取章节列表 [书]...".to_string(), Status::Running),
        ("准备下载 2 章 (总请求: 5)...".to_string(), Status::Running),
        ("下载 [书] - 第1章".to_string(), Status::Running),
        ("下载 [书] - 第2章".to_string(), Status::Running),
        ("《书》下载统计: 新下载 2 章, 跳过已存在 0 章".to_string(), Status::Running),
    ];
    assert_eq!(h.emitted, expected);
    assert_eq!(
        h.logs,
        vec![
            "正在获取元数据: https://www.qidian.com/book/1/",
            "准备下载 2 章 (总请求: 5)...",
            "《书》下载统计: 新下载 2 章, 跳过已存在 0 章",
        ]
    );
}

#[test]
fn resume_after_partial_run() {
    let mut h = host("书", 7);
    h.existing = vec!["01.txt".to_string(), "02.txt".to_string()];
    let mut job = NovelDownload::new("qidian", "https://www.qidian.com/book/1/", 5, false);
    assert_eq!(run(&mut job, &mut h), Ok("书".to_string()));
    assert_eq!(files(&h), vec!["03.txt", "04.txt", "05.txt"]);
    assert_eq!(count(&h, Status::Skipped), 2);
    assert_eq!(job.downloaded(), 3);
    assert_eq!(job.skipped(), 2);
    assert!(h.emitted.contains(&("跳过已存在章节 [书] - 第1章".to_string(), Status::Skipped)));
    assert!(h.emitted.contains(&("跳过已存在章节 [书] - 第2章".to_string(), Status::Skipped)));
    assert!(h.logs.contains(&"《书》下载统计: 新下载 3 章, 跳过已存在 2 章".to_string()));
}

#[test]
fn dedup_idempotence() {
    let mut h = host("书", 5);
    let mut first = NovelDownload::new("qidian", "https://www.qidian.com/book/1/", 5, false);
    run(&mut first, &mut h).unwrap();
    assert_eq!(h.fetched.len(), 5);
    let existing = h.existing.clone();
    let mut again = host("书", 5);
    again.existing = existing;
    let mut second = NovelDownload::new("qidian", "https://www.qidian.com/book/1/", 5, false);
    assert_eq!(run(&mut second, &mut again), Ok("书".to_string()));
    assert!(again.fetched.is_empty());
    assert!(again.written.is_empty());
    assert!(again.sleeps.is_empty());
    assert_eq!(count(&again, Status::Skipped), 5);
    assert_eq!(second.downloaded(), 0);
    assert_eq!(second.skipped(), 5);
}

#[test]
fn a_batch_silences_the_progress_of_chapters() {
    let mut h = host("书", 3);
    h.existing = vec!["02.txt".to_string()];
    let mut job = NovelDownload::new("qidian", "https://www.qidian.com/book/1/", 3, true);
    run(&mut job, &mut h).unwrap();
    assert_eq!(count(&h, Status::Skipped), 0);
    assert!(h.logs.contains(&"跳过已存在章节 [书] - 第2章".to_string()));
    assert!(!h.emitted.iter().any(|e| e.0.starts_with("下载 [")));
    assert_eq!(files(&h), vec!["01.txt", "03.txt"]);
}

#[test]
fn fanqie_skips_the_first_chapter_and_prepends_the_host() {
    let mut h = host("书", 6);
    let mut job = NovelDownload::new("fanqie", "https://fanqienovel.com/page/1", 3, false);
    run(&mut job, &mut h).unwrap();
    assert_eq!(
        h.fetched,
        vec![
            "https://fanqienovel.com/chapter/2",
            "https://fanqienovel.com/chapter/3",
            "https://fanqienovel.com/chapter/4",
        ]
    );
    assert_eq!(files(&h), vec!["01.txt", "02.txt", "03.txt"]);
    assert!(h.written[0].2.starts_with("标题: 第2章\n链接: https://fanqienovel.com/chapter/2\n"));
}

#[test]
fn batch_formation() {
    let all = chapters(4);
    assert_eq!(batch_of(Platform::Qidian, &all, 2), chapters(2));
    assert_eq!(batch_of(Platform::Qidian, &all, 9), all);
    assert_eq!(batch_of(Platform::Qidian, &all, 0), Vec::new());
    assert_eq!(batch_of(Platform::Fanqie, &all, 2), all[1..3].to_vec());
    assert_eq!(batch_of(Platform::Fanqie, &all, 9), all[1..].to_vec());
    assert_eq!(batch_of(Platform::Fanqie, &Vec::new(), 3), Vec::new());
    assert_eq!(batch_of(Platform::Fanqie, &chapters(1), 3), Vec::new());
}

#[test]
fn chapter_addresses() {
    assert_eq!(chapter_address(Some(Platform::Fanqie), "/reader/1"), "https://fanqienovel.com/reader/1");
    assert_eq!(chapter_address(Some(Platform::Qidian), "https://m.qidian.com/chapter/1/2/"),
        "https://m.qidian.com/chapter/1/2/");
    assert_eq!(chapter_address(None, "/x"), "/x");
}

#[test]
fn a_failed_attempt_is_retried_after_a_pause() {
    let mut h = host("书", 2);
    h.failures = 2;
    let mut job = NovelDownload::new("qidian", "u", 2, false);
    run(&mut job, &mut h).unwrap();
    assert_eq!(h.fetched.len(), 6);
    assert_eq!(h.sleeps, vec![500, 500, 200, 500, 500, 200]);
    assert_eq!(files(&h), vec!["01.txt", "02.txt"]);
    assert_eq!(job.downloaded(), 2);
}

#[test]
fn a_chapter_is_given_up_after_three_attempts_and_the_next_is_tried() {
    let mut h = host("书", 2);
    h.failures = 3;
    let mut job = NovelDownload::new("qidian", "u", 2, false);
    assert_eq!(run(&mut job, &mut h), Ok("书".to_string()));
    assert_eq!(h.fetched, vec!["/chapter/1", "/chapter/1", "/chapter/1", "/chapter/2", "/chapter/2", "/chapter/2"]);
    assert_eq!(h.sleeps, vec![500, 500, 500, 200, 500, 500, 500, 200]);
    assert!(h.written.is_empty());
    assert_eq!(job.downloaded(), 0);
    assert_eq!(job.skipped(), 0);
    assert_eq!(h.checked, vec!["01.txt", "02.txt"]);
}

#[test]
fn an_unsupported_platform_fails_at_the_metadata() {
    let mut h = host("书", 2);
    let mut job = NovelDownload::new("other", "u", 2, false);
    assert_eq!(run(&mut job, &mut h), Err("获取元数据失败: 不支持的平台: other".to_string()));
    assert_eq!(job.stage(), Stage::Failed);
    assert_eq!(h.logs, vec!["正在获取元数据: u", "不支持的平台: other", "获取元数据失败: 不支持的平台: other"]);
    assert_eq!(
        h.emitted,
        vec![
            ("正在获取元数据: u".to_string(), Status::Running),
            ("获取元数据失败: 不支持的平台: other".to_string(), Status::Error),
        ]
    );
    assert!(h.saved.is_empty());
}

#[test]
fn a_metadata_failure_ends_the_novel() {
    let mut h = host("书", 2);
    h.metadata = Err("Browser Spider still caught by WAF".to_string());
    let mut job = NovelDownload::new("qidian", "u", 2, false);
    assert_eq!(run(&mut job, &mut h), Err("获取元数据失败: Browser Spider still caught by WAF".to_string()));
    assert_eq!(count(&h, Status::Error), 1);
    assert!(h.written.is_empty());
}

#[test]
fn a_directory_that_cannot_be_created_ends_the_novel() {
    let mut h = host("书", 2);
    h.save = Err("permission denied".to_string());
    let mut job = NovelDownload::new("qidian", "u", 2, false);
    assert_eq!(run(&mut job, &mut h), Err("permission denied".to_string()));
    assert_eq!(count(&h, Status::Error), 0);
    assert!(h.fetched.is_empty());
}

#[test]
fn empty_catalog_is_fatal() {
    let mut h = host("书", 0);
    h.list = Err("No chapters found in catalog.".to_string());
    let mut job = NovelDownload::new("qidian", "u", 5, false);
    assert_eq!(run(&mut job, &mut h), Err("获取章节列表失败: No chapters found in catalog.".to_string()));
    assert_eq!(job.stage(), Stage::Failed);
    assert!(h.emitted.contains(&("获取章节列表失败: No chapters found in catalog.".to_string(), Status::Error)));
    assert!(h.written.is_empty());
    assert!(h.checked.is_empty());
    assert_eq!(count(&h, Status::Completed), 0);
}

#[test]
fn a_list_failure_on_fanqie_is_handed_on_as_it_is() {
    let mut h = host("书", 0);
    h.list = Err("connection reset".to_string());
    let mut job = NovelDownload::new("fanqie", "u", 5, false);
    assert_eq!(run(&mut job, &mut h), Err("connection reset".to_string()));
    assert_eq!(count(&h, Status::Error), 0);
}

#[test]
fn an_empty_batch_completes_with_a_warning() {
    let mut h = host("书", 1);
    let mut job = NovelDownload::new("fanqie", "u", 5, false);
    assert_eq!(run(&mut job, &mut h), Ok("书".to_string()));
    assert!(h.logs.contains(&"警告: 待下载章节数为 0，任务提前结束。".to_string()));
    assert!(h.emitted.contains(&("准备下载 0 章 (总请求: 5)...".to_string(), Status::Running)));
    assert!(h.checked.is_empty());
}

#[test]
fn the_directory_is_the_sanitised_title() {
    let mut h = host("A/B\\C", 1);
    let mut job = NovelDownload::new("qidian", "u", 1, false);
    assert_eq!(run(&mut job, &mut h), Ok("A_B_C".to_string()));
    assert_eq!(h.saved[0].0, "A_B_C");
    assert_eq!(h.saved[0].1.title, "A/B\\C");
    assert_eq!(h.written[0].0, "A_B_C");
}

#[test]
fn an_event_out_of_turn_changes_nothing() {
    let mut job = NovelDownload::new("qidian", "u", 1, false);
    assert!(job.step(Event::Saved).is_empty());
    assert!(job.step(Event::ChapterExists(true)).is_empty());
    assert_eq!(job.stage(), Stage::Start);
    let begun = job.step(Event::Begin);
    assert_eq!(begun.len(), 3);
    assert!(job.step(Event::Begin).is_empty());
    assert_eq!(job.stage(), Stage::Metadata);
}

#[test]
fn more_than_ninety_nine_chapters_keep_distinct_files() {
    let mut h = host("书", 120);
    let mut job = NovelDownload::new("qidian", "u", 120, true);
    run(&mut job, &mut h).unwrap();
    let names = files(&h);
    assert_eq!(names.len(), 120);
    assert_eq!(names[98], "99.txt");
    assert_eq!(names[99], "100.txt");
    assert_eq!(names[119], "120.txt");
    for (i, name) in names.iter().enumerate() {
        assert_eq!(name, &format!("{:02}.txt", i + 1));
    }
}

#[test]
fn platform_tags_and_status_names() {
    assert_eq!(Platform::from_tag("fanqie"), Some(Platform::Fanqie));
    assert_eq!(Platform::from_tag("qidian"), Some(Platform::Qidian));
    assert_eq!(Platform::from_tag("Qidian"), None);
    assert_eq!(Platform::from_tag(""), None);
    let names: Vec<&str> = [
        Status::Running,
        Status::Completed,
        Status::Error,
        Status::Skipped,
        Status::Start,
        Status::Done,
    ]
    .iter()
    .map(|s| s.as_str())
    .collect();
    assert_eq!(names, vec!["running", "completed", "error", "skipped", "start", "done"]);
    let p = Progress::new("消息", Status::Skipped);
    assert_eq!(p.message, "消息");
    assert_eq!(p.status, "skipped");
}
