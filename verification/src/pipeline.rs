//! The download of one novel as a state machine. The machine decides; the
//! host performs each action it is handed and reports back with an event.
//!
//!   start → metadata → saving → listing → checking ⇄ downloading → complete
//!
//! and from any of them to `failed`, which ends the novel.

use vstd::prelude::*;
use crate::model::{NovelMetadata, NovelMetadataView, Platform, Status, platform_of};
use crate::number::{decimal, push_decimal};
use crate::storage::{
    chapter_contents, chapter_file, chapter_file_contents, chapter_file_name, safe_title,
    sanitize_title,
};
use crate::text::{concat, concat3, copy_str, from_chars, push_str};

verus! {

/// The host of Fanqie, which its chapter links are relative to.
pub open spec fn fanqie_host() -> Seq<char> {
    "https://fanqienovel.com"@
}

/// How often a chapter is tried before it is given up.
pub open spec fn max_attempts() -> nat {
    3
}

/// The pause after a failed attempt, in milliseconds.
pub open spec fn retry_pause() -> u64 {
    500
}

/// The pause after each chapter that was tried, in milliseconds.
pub open spec fn chapter_pause() -> u64 {
    200
}

#[derive(Clone, Copy, Debug, PartialEq, Eq, Structural)]
pub enum Stage {
    Start,
    Metadata,
    Saving,
    Listing,
    Checking,
    Downloading,
    Complete,
    Failed,
}

/// What the host is asked to do. The actions of one step are performed in
/// order; the last of them is the one whose outcome the next event reports.
#[derive(Clone, Debug)]
pub enum Action {
    /// Append a line to the log.
    Log { message: String },
    /// Emit a progress event.
    Emit { message: String, status: Status },
    /// Wait.
    Sleep { millis: u64 },
    /// Fetch the novel's metadata; answered by `Metadata` or `MetadataFailed`.
    FetchMetadata { url: String },
    /// Create the novel's directory if it is absent and write its
    /// `info.json`; answered by `Saved`, or by `SaveFailed` where the
    /// directory cannot be created.
    SaveMetadata { directory: String, metadata: NovelMetadata },
    /// Fetch the chapter list; answered by `ChapterList` or `ChapterListFailed`.
    FetchChapterList { url: String },
    /// Look for a chapter file; answered by `ChapterExists`.
    CheckChapter { directory: String, file: String },
    /// Fetch a chapter's text; answered by `Chapter` or `ChapterFailed`.
    DownloadChapter { url: String },
    /// Write a chapter file.
    WriteChapter { directory: String, file: String, contents: String },
    /// The novel is done; its directory is `title`.
    Finished { title: String },
    /// The novel has failed.
    Failed { message: String },
}

pub enum ActionView {
    Log { message: Seq<char> },
    Emit { message: Seq<char>, status: Status },
    Sleep { millis: u64 },
    FetchMetadata { url: Seq<char> },
    SaveMetadata { directory: Seq<char>, metadata: NovelMetadataView },
    FetchChapterList { url: Seq<char> },
    CheckChapter { directory: Seq<char>, file: Seq<char> },
    DownloadChapter { url: Seq<char> },
    WriteChapter { directory: Seq<char>, file: Seq<char>, contents: Seq<char> },
    Finished { title: Seq<char> },
    Failed { message: Seq<char> },
}

impl DeepView for Action {
    type V = ActionView;

    open spec fn deep_view(&self) -> ActionView {
        match self {
            Action::Log { message } => ActionView::Log { message: message@ },
            Action::Emit { message, status } => ActionView::Emit {
                message: message@,
                status: *status,
            },
            Action::Sleep { millis } => ActionView::Sleep { millis: *millis },
            Action::FetchMetadata { url } => ActionView::FetchMetadata { url: url@ },
            Action::SaveMetadata { directory, metadata } => ActionView::SaveMetadata {
                directory: directory@,
                metadata: metadata.deep_view(),
            },
            Action::FetchChapterList { url } => ActionView::FetchChapterList { url: url@ },
            Action::CheckChapter { directory, file } => ActionView::CheckChapter {
                directory: directory@,
                file: file@,
            },
            Action::DownloadChapter { url } => ActionView::DownloadChapter { url: url@ },
            Action::WriteChapter { directory, file, contents } => ActionView::WriteChapter {
                directory: directory@,
                file: file@,
                contents: contents@,
            },
            Action::Finished { title } => ActionView::Finished { title: title@ },
            Action::Failed { message } => ActionView::Failed { message: message@ },
        }
    }
}

/// What the host reports.
#[derive(Clone, Debug)]
pub enum Event {
    /// The download is to begin.
    Begin,
    Metadata(NovelMetadata),
    MetadataFailed(String),
    Saved,
    SaveFailed(String),
    /// The chapters as `(title, href)`, in the order of the catalog.
    ChapterList(Vec<(String, String)>),
    ChapterListFailed(String),
    ChapterExists(bool),
    /// A chapter's text.
    Chapter(String),
    ChapterFailed(String),
}

pub enum EventView {
    Begin,
    Metadata(NovelMetadataView),
    MetadataFailed(Seq<char>),
    Saved,
    SaveFailed(Seq<char>),
    ChapterList(Seq<(Seq<char>, Seq<char>)>),
    ChapterListFailed(Seq<char>),
    ChapterExists(bool),
    Chapter(Seq<char>),
    ChapterFailed(Seq<char>),
}

impl DeepView for Event {
    type V = EventView;

    open spec fn deep_view(&self) -> EventView {
        match self {
            Event::Begin => EventView::Begin,
            Event::Metadata(m) => EventView::Metadata(m.deep_view()),
            Event::MetadataFailed(e) => EventView::MetadataFailed(e@),
            Event::Saved => EventView::Saved,
            Event::SaveFailed(e) => EventView::SaveFailed(e@),
            Event::ChapterList(list) => EventView::ChapterList(list.deep_view()),
            Event::ChapterListFailed(e) => EventView::ChapterListFailed(e@),
            Event::ChapterExists(b) => EventView::ChapterExists(*b),
            Event::Chapter(body) => EventView::Chapter(body@),
            Event::ChapterFailed(e) => EventView::ChapterFailed(e@),
        }
    }
}

/// The download of one novel.
pub struct NovelDownload {
    platform_tag: String,
    url: String,
    chapter_count: usize,
    is_batch: bool,
    stage: Stage,
    title: String,
    batch: Vec<(String, String)>,
    index: usize,
    attempt: usize,
    downloaded: usize,
    skipped: usize,
}

pub struct JobView {
    pub platform_tag: Seq<char>,
    pub url: Seq<char>,
    /// How many chapters were asked for.
    pub chapter_count: nat,
    /// Whether the novel is one of a batch, which silences per-chapter progress.
    pub is_batch: bool,
    pub stage: Stage,
    /// The novel's safe title, the name of its directory.
    pub title: Seq<char>,
    /// The chapters to download, as `(title, href)`.
    pub batch: Seq<(Seq<char>, Seq<char>)>,
    /// The position in `batch` of the chapter at hand.
    pub index: nat,
    /// The failed attempts at the chapter at hand.
    pub attempt: nat,
    pub downloaded: nat,
    pub skipped: nat,
}

impl DeepView for NovelDownload {
    type V = JobView;

    closed spec fn deep_view(&self) -> JobView {
        JobView {
            platform_tag: self.platform_tag@,
            url: self.url@,
            chapter_count: self.chapter_count as nat,
            is_batch: self.is_batch,
            stage: self.stage,
            title: self.title@,
            batch: self.batch.deep_view(),
            index: self.index as nat,
            attempt: self.attempt as nat,
            downloaded: self.downloaded as nat,
            skipped: self.skipped as nat,
        }
    }
}

/// The states the machine can be in.
pub open spec fn job_wf(job: JobView) -> bool {
    &&& job.index <= job.batch.len()
    &&& job.downloaded + job.skipped <= job.index
    &&& job.attempt < max_attempts()
    &&& (job.stage == Stage::Checking || job.stage == Stage::Downloading) ==> job.index
        < job.batch.len()
    &&& job.stage == Stage::Complete ==> job.index == job.batch.len()
}

/// A download that has not begun.
pub open spec fn initial_job(
    platform_tag: Seq<char>,
    url: Seq<char>,
    chapter_count: nat,
    is_batch: bool,
) -> JobView {
    JobView {
        platform_tag,
        url,
        chapter_count,
        is_batch,
        stage: Stage::Start,
        title: Seq::empty(),
        batch: Seq::empty(),
        index: 0,
        attempt: 0,
        downloaded: 0,
        skipped: 0,
    }
}

/// The chapters that are downloaded of a catalog: the first `count`, after
/// the first of all on Fanqie.
pub open spec fn form_batch(
    platform: Platform,
    chapters: Seq<(Seq<char>, Seq<char>)>,
    count: nat,
) -> Seq<(Seq<char>, Seq<char>)> {
    let rest = if platform == Platform::Fanqie && chapters.len() > 0 {
        chapters.skip(1)
    } else {
        chapters
    };
    if count < rest.len() {
        rest.take(count as int)
    } else {
        rest
    }
}

/// Where a chapter is fetched from.
pub open spec fn chapter_url(platform: Option<Platform>, href: Seq<char>) -> Seq<char> {
    if platform == Some(Platform::Fanqie) {
        fanqie_host() + href
    } else {
        href
    }
}

pub open spec fn fetching_metadata_message(url: Seq<char>) -> Seq<char> {
    "正在获取元数据: "@ + url
}

pub open spec fn unsupported_platform_message(tag: Seq<char>) -> Seq<char> {
    "不支持的平台: "@ + tag
}

pub open spec fn metadata_failed_message(error: Seq<char>) -> Seq<char> {
    "获取元数据失败: "@ + error
}

pub open spec fn fetching_list_message(title: Seq<char>) -> Seq<char> {
    "正在获取章节列表 ["@ + title + "]..."@
}

pub open spec fn unknown_platform_message(tag: Seq<char>) -> Seq<char> {
    "Unknown platform for chapter list: "@ + tag
}

pub open spec fn list_failed_message(error: Seq<char>) -> Seq<char> {
    "获取章节列表失败: "@ + error
}

pub open spec fn prepare_message(count: nat, requested: nat) -> Seq<char> {
    "准备下载 "@ + decimal(count) + " 章 (总请求: "@ + decimal(requested) + ")..."@
}

pub open spec fn empty_batch_message() -> Seq<char> {
    "警告: 待下载章节数为 0，任务提前结束。"@
}

pub open spec fn skip_message(title: Seq<char>, chapter: Seq<char>) -> Seq<char> {
    "跳过已存在章节 ["@ + title + "] - "@ + chapter
}

pub open spec fn download_message(title: Seq<char>, chapter: Seq<char>) -> Seq<char> {
    "下载 ["@ + title + "] - "@ + chapter
}

pub open spec fn summary_message(title: Seq<char>, downloaded: nat, skipped: nat) -> Seq<char> {
    "《"@ + title + "》下载统计: 新下载 "@ + decimal(downloaded) + " 章, 跳过已存在 "@ + decimal(
        skipped,
    ) + " 章"@
}

/// What follows once the chapter before `job.index` is dealt with: the check
/// for the next chapter's file, or the summary and the end.
pub open spec fn advance(job: JobView) -> (JobView, Seq<ActionView>) {
    if job.index < job.batch.len() {
        (
            JobView { stage: Stage::Checking, attempt: 0, ..job },
            seq![
                ActionView::CheckChapter { directory: job.title, file: chapter_file(job.index) },
            ],
        )
    } else {
        let summary = summary_message(job.title, job.downloaded, job.skipped);
        (
            JobView { stage: Stage::Complete, attempt: 0, ..job },
            seq![
                ActionView::Log { message: summary },
                ActionView::Emit { message: summary, status: Status::Running },
                ActionView::Finished { title: job.title },
            ],
        )
    }
}

/// The address of the chapter at hand.
pub open spec fn current_url(job: JobView) -> Seq<char> {
    chapter_url(platform_of(job.platform_tag), job.batch[job.index as int].1)
}

/// The machine: from a state and an event to the next state and the actions
/// to perform. An event that does not answer what the state waits for changes
/// nothing and asks for nothing.
#[verifier::opaque]
pub open spec fn step(job: JobView, event: EventView) -> (JobView, Seq<ActionView>) {
    match (job.stage, event) {
        (Stage::Start, EventView::Begin) => {
            let message = fetching_metadata_message(job.url);
            let opening = seq![
                ActionView::Log { message },
                ActionView::Emit { message, status: Status::Running },
            ];
            if platform_of(job.platform_tag) is Some {
                (
                    JobView { stage: Stage::Metadata, ..job },
                    opening.push(ActionView::FetchMetadata { url: job.url }),
                )
            } else {
                let reason = unsupported_platform_message(job.platform_tag);
                let failure = metadata_failed_message(reason);
                (
                    JobView { stage: Stage::Failed, ..job },
                    opening + seq![
                        ActionView::Log { message: reason },
                        ActionView::Log { message: failure },
                        ActionView::Emit { message: failure, status: Status::Error },
                        ActionView::Failed { message: failure },
                    ],
                )
            }
        },
        (Stage::Metadata, EventView::Metadata(metadata)) => {
            let title = safe_title(metadata.title);
            (
                JobView { stage: Stage::Saving, title, ..job },
                seq![ActionView::SaveMetadata { directory: title, metadata }],
            )
        },
        (Stage::Metadata, EventView::MetadataFailed(error)) => {
            let failure = metadata_failed_message(error);
            (
                JobView { stage: Stage::Failed, ..job },
                seq![
                    ActionView::Log { message: failure },
                    ActionView::Emit { message: failure, status: Status::Error },
                    ActionView::Failed { message: failure },
                ],
            )
        },
        (Stage::Saving, EventView::Saved) => (
            JobView { stage: Stage::Listing, ..job },
            seq![
                ActionView::Emit {
                    message: fetching_list_message(job.title),
                    status: Status::Running,
                },
                ActionView::FetchChapterList { url: job.url },
            ],
        ),
        (Stage::Saving, EventView::SaveFailed(error)) => (
            JobView { stage: Stage::Failed, ..job },
            seq![ActionView::Failed { message: error }],
        ),
        (Stage::Listing, EventView::ChapterList(chapters)) => {
            match platform_of(job.platform_tag) {
                Some(platform) => {
                    let batch = form_batch(platform, chapters, job.chapter_count);
                    let message = prepare_message(batch.len(), job.chapter_count);
                    let opening = seq![
                        ActionView::Log { message },
                        ActionView::Emit { message, status: Status::Running },
                    ];
                    let warning = if batch.len() == 0 {
                        seq![ActionView::Log { message: empty_batch_message() }]
                    } else {
                        Seq::empty()
                    };
                    let next = advance(
                        JobView { batch, index: 0, downloaded: 0, skipped: 0, ..job },
                    );
                    (next.0, opening + warning + next.1)
                },
                None => (
                    JobView { stage: Stage::Failed, ..job },
                    seq![
                        ActionView::Failed {
                            message: unknown_platform_message(job.platform_tag),
                        },
                    ],
                ),
            }
        },
        (Stage::Listing, EventView::ChapterListFailed(error)) => {
            if platform_of(job.platform_tag) == Some(Platform::Qidian) {
                let failure = list_failed_message(error);
                (
                    JobView { stage: Stage::Failed, ..job },
                    seq![
                        ActionView::Emit { message: failure, status: Status::Error },
                        ActionView::Failed { message: failure },
                    ],
                )
            } else {
                (
                    JobView { stage: Stage::Failed, ..job },
                    seq![ActionView::Failed { message: error }],
                )
            }
        },
        (Stage::Checking, EventView::ChapterExists(exists)) => {
            let chapter = job.batch[job.index as int].0;
            if exists {
                let message = skip_message(job.title, chapter);
                let report = if job.is_batch {
                    seq![ActionView::Log { message }]
                } else {
                    seq![
                        ActionView::Log { message },
                        ActionView::Emit { message, status: Status::Skipped },
                    ]
                };
                let next = advance(
                    JobView { skipped: job.skipped + 1, index: job.index + 1, ..job },
                );
                (next.0, report + next.1)
            } else {
                let report = if job.is_batch {
                    Seq::empty()
                } else {
                    seq![
                        ActionView::Emit {
                            message: download_message(job.title, chapter),
                            status: Status::Running,
                        },
                    ]
                };
                (
                    JobView { stage: Stage::Downloading, attempt: 0, ..job },
                    report.push(ActionView::DownloadChapter { url: current_url(job) }),
                )
            }
        },
        (Stage::Downloading, EventView::Chapter(body)) => {
            let chapter = job.batch[job.index as int].0;
            let next = advance(
                JobView { downloaded: job.downloaded + 1, index: job.index + 1, ..job },
            );
            (
                next.0,
                seq![
                    ActionView::WriteChapter {
                        directory: job.title,
                        file: chapter_file(job.index),
                        contents: chapter_contents(chapter, current_url(job), body),
                    },
                    ActionView::Sleep { millis: chapter_pause() },
                ] + next.1,
            )
        },
        (Stage::Downloading, EventView::ChapterFailed(_)) => {
            if job.attempt + 1 < max_attempts() {
                (
                    JobView { attempt: job.attempt + 1, ..job },
                    seq![
                        ActionView::Sleep { millis: retry_pause() },
                        ActionView::DownloadChapter { url: current_url(job) },
                    ],
                )
            } else {
                let next = advance(JobView { index: job.index + 1, ..job });
                (
                    next.0,
                    seq![
                        ActionView::Sleep { millis: retry_pause() },
                        ActionView::Sleep { millis: chapter_pause() },
                    ] + next.1,
                )
            }
        },
        _ => (job, Seq::empty()),
    }
}

/// Appends one action.
fn put(actions: &mut Vec<Action>, action: Action)
    ensures
        final(actions).deep_view() == old(actions).deep_view().push(action.deep_view()),
{
    actions.push(action);
    proof {
        assert(actions.deep_view() =~= old(actions).deep_view().push(action.deep_view()));
    }
}

fn copy_pairs(list: &Vec<(String, String)>, from: usize, to: usize) -> (r: Vec<(String, String)>)
    requires
        from <= to <= list.len(),
    ensures
        r.deep_view() == list.deep_view().subrange(from as int, to as int),
{
    let mut out: Vec<(String, String)> = Vec::new();
    let mut i: usize = from;
    while i < to
        invariant
            from <= i <= to <= list.len(),
            out.len() == i - from,
            forall|j: int|
                0 <= j < out.len() ==> out@[j].0@ == list@[from + j].0@ && out@[j].1@ == list@[from
                    + j].1@,
        decreases to - i,
    {
        out.push((list[i].0.clone(), list[i].1.clone()));
        i += 1;
    }
    proof {
        assert(out.deep_view() =~= list.deep_view().subrange(from as int, to as int));
    }
    out
}

/// The chapters to download of a catalog.
pub fn batch_of(platform: Platform, chapters: &Vec<(String, String)>, count: usize) -> (r: Vec<
    (String, String),
>)
    ensures
        r.deep_view() == form_batch(platform, chapters.deep_view(), count as nat),
{
    let from: usize = match platform {
        Platform::Fanqie => if chapters.len() > 0 {
            1
        } else {
            0
        },
        Platform::Qidian => 0,
    };
    let available: usize = chapters.len() - from;
    let to: usize = if count < available {
        from + count
    } else {
        chapters.len()
    };
    proof {
        let all = chapters.deep_view();
        let rest = if platform == Platform::Fanqie && all.len() > 0 {
            all.skip(1)
        } else {
            all
        };
        assert(rest =~= all.subrange(from as int, all.len() as int));
        if count < rest.len() {
            assert(rest.take(count as int) =~= all.subrange(from as int, to as int));
        }
    }
    copy_pairs(chapters, from, to)
}

/// The address a chapter is fetched from.
pub fn chapter_address(platform: Option<Platform>, href: &str) -> (r: String)
    ensures
        r@ == chapter_url(platform, href@),
{
    match platform {
        Some(Platform::Fanqie) => concat("https://fanqienovel.com", href),
        _ => copy_str(href),
    }
}

fn summary_text(title: &str, downloaded: usize, skipped: usize) -> (r: String)
    ensures
        r@ == summary_message(title@, downloaded as nat, skipped as nat),
{
    let mut out: Vec<char> = Vec::new();
    push_str(&mut out, "《");
    push_str(&mut out, title);
    push_str(&mut out, "》下载统计: 新下载 ");
    push_decimal(&mut out, downloaded as u64);
    push_str(&mut out, " 章, 跳过已存在 ");
    push_decimal(&mut out, skipped as u64);
    push_str(&mut out, " 章");
    from_chars(&out)
}

fn prepare_text(count: usize, requested: usize) -> (r: String)
    ensures
        r@ == prepare_message(count as nat, requested as nat),
{
    let mut out: Vec<char> = Vec::new();
    push_str(&mut out, "准备下载 ");
    push_decimal(&mut out, count as u64);
    push_str(&mut out, " 章 (总请求: ");
    push_decimal(&mut out, requested as u64);
    push_str(&mut out, ")...");
    from_chars(&out)
}

fn bracketed(head: &str, title: &str, middle: &str, tail: &str) -> (r: String)
    ensures
        r@ == head@ + title@ + middle@ + tail@,
{
    let mut out: Vec<char> = Vec::new();
    push_str(&mut out, head);
    push_str(&mut out, title);
    push_str(&mut out, middle);
    push_str(&mut out, tail);
    from_chars(&out)
}

impl NovelDownload {
    /// Whether the state is one the machine can be in.
    pub open spec fn wf(&self) -> bool {
        job_wf(self.deep_view())
    }

    /// A download of `chapter_count` chapters of the novel at `url`.
    pub fn new(platform_tag: &str, url: &str, chapter_count: usize, is_batch: bool) -> (r: Self)
        ensures
            r.wf(),
            r.deep_view() == initial_job(platform_tag@, url@, chapter_count as nat, is_batch),
    {
        let r = NovelDownload {
            platform_tag: copy_str(platform_tag),
            url: copy_str(url),
            chapter_count,
            is_batch,
            stage: Stage::Start,
            title: String::new(),
            batch: Vec::new(),
            index: 0,
            attempt: 0,
            downloaded: 0,
            skipped: 0,
        };
        proof {
            assert(r.batch.deep_view() =~= Seq::empty());
        }
        r
    }

    /// The stage that the download is in.
    pub fn stage(&self) -> (r: Stage)
        ensures
            r == self.deep_view().stage,
    {
        self.stage
    }

    /// The chapters written so far.
    pub fn downloaded(&self) -> (r: usize)
        ensures
            r == self.deep_view().downloaded,
    {
        self.downloaded
    }

    /// The chapters skipped so far because their files were there.
    pub fn skipped(&self) -> (r: usize)
        ensures
            r == self.deep_view().skipped,
    {
        self.skipped
    }

    fn advance(&mut self, actions: &mut Vec<Action>)
        requires
            old(self).deep_view().index <= old(self).deep_view().batch.len(),
            old(self).deep_view().downloaded + old(self).deep_view().skipped <= old(
                self,
            ).deep_view().index,
        ensures
            final(self).deep_view() == advance(old(self).deep_view()).0,
            final(actions).deep_view() == old(actions).deep_view() + advance(
                old(self).deep_view(),
            ).1,
            final(self).wf(),
    {
        self.attempt = 0;
        if self.index < self.batch.len() {
            self.stage = Stage::Checking;
            put(
                actions,
                Action::CheckChapter {
                    directory: self.title.clone(),
                    file: chapter_file_name(self.index),
                },
            );
        } else {
            self.stage = Stage::Complete;
            let summary = summary_text(self.title.as_str(), self.downloaded, self.skipped);
            put(actions, Action::Log { message: summary.clone() });
            put(actions, Action::Emit { message: summary, status: Status::Running });
            put(actions, Action::Finished { title: self.title.clone() });
        }
        proof {
            assert(actions.deep_view() =~= old(actions).deep_view() + advance(
                old(self).deep_view(),
            ).1);
        }
    }

    /// Takes one event and hands back what the host is to do next.
    #[verifier::rlimit(40)]
    pub fn step(&mut self, event: Event) -> (actions: Vec<Action>)
        requires
            old(self).wf(),
        ensures
            final(self).wf(),
            final(self).deep_view() == step(old(self).deep_view(), event.deep_view()).0,
            actions.deep_view() == step(old(self).deep_view(), event.deep_view()).1,
    {
        let mut actions: Vec<Action> = Vec::new();
        let ghost before = self.deep_view();
        let ghost expected = step(before, event.deep_view());
        proof {
            reveal(step);
            assert(actions.deep_view() =~= Seq::<ActionView>::empty());
        }
        let platform = Platform::from_tag(self.platform_tag.as_str());
        match (self.stage, event) {
            (Stage::Start, Event::Begin) => {
                let message = concat("正在获取元数据: ", self.url.as_str());
                put(&mut actions, Action::Log { message: message.clone() });
                put(&mut actions, Action::Emit { message, status: Status::Running });
                if platform.is_some() {
                    self.stage = Stage::Metadata;
                    put(&mut actions, Action::FetchMetadata { url: self.url.clone() });
                } else {
                    self.stage = Stage::Failed;
                    let reason = concat("不支持的平台: ", self.platform_tag.as_str());
                    let failure = concat("获取元数据失败: ", reason.as_str());
                    put(&mut actions, Action::Log { message: reason });
                    put(&mut actions, Action::Log { message: failure.clone() });
                    put(
                        &mut actions,
                        Action::Emit { message: failure.clone(), status: Status::Error },
                    );
                    put(&mut actions, Action::Failed { message: failure });
                }
                proof {
                    assert(actions.deep_view() =~= expected.1);
                }
            },
            (Stage::Metadata, Event::Metadata(metadata)) => {
                let title = sanitize_title(metadata.title.as_str());
                self.stage = Stage::Saving;
                self.title = title.clone();
                put(&mut actions, Action::SaveMetadata { directory: title, metadata });
                proof {
                    assert(actions.deep_view() =~= expected.1);
                }
            },
            (Stage::Metadata, Event::MetadataFailed(error)) => {
                self.stage = Stage::Failed;
                let failure = concat("获取元数据失败: ", error.as_str());
                put(&mut actions, Action::Log { message: failure.clone() });
                put(&mut actions, Action::Emit { message: failure.clone(), status: Status::Error });
                put(&mut actions, Action::Failed { message: failure });
                proof {
                    assert(actions.deep_view() =~= expected.1);
                }
            },
            (Stage::Saving, Event::Saved) => {
                self.stage = Stage::Listing;
                let message = concat3("正在获取章节列表 [", self.title.as_str(), "]...");
                put(&mut actions, Action::Emit { message, status: Status::Running });
                put(&mut actions, Action::FetchChapterList { url: self.url.clone() });
                proof {
                    assert(actions.deep_view() =~= expected.1);
                }
            },
            (Stage::Saving, Event::SaveFailed(error)) => {
                self.stage = Stage::Failed;
                put(&mut actions, Action::Failed { message: error });
                proof {
                    assert(actions.deep_view() =~= expected.1);
                }
            },
            (Stage::Listing, Event::ChapterList(chapters)) => {
                match platform {
                    Some(known) => {
                        self.batch = batch_of(known, &chapters, self.chapter_count);
                        self.index = 0;
                        self.downloaded = 0;
                        self.skipped = 0;
                        let message = prepare_text(self.batch.len(), self.chapter_count);
                        put(&mut actions, Action::Log { message: message.clone() });
                        put(&mut actions, Action::Emit { message, status: Status::Running });
                        if self.batch.len() == 0 {
                            put(
                                &mut actions,
                                Action::Log {
                                    message: copy_str("警告: 待下载章节数为 0，任务提前结束。"),
                                },
                            );
                        }
                        proof {
                            assert(self.batch.deep_view().len() == self.batch.len());
                        }
                        self.advance(&mut actions);
                        proof {
                            assert(actions.deep_view() =~= expected.1);
                        }
                    },
                    None => {
                        self.stage = Stage::Failed;
                        put(
                            &mut actions,
                            Action::Failed {
                                message: concat(
                                    "Unknown platform for chapter list: ",
                                    self.platform_tag.as_str(),
                                ),
                            },
                        );
                        proof {
                            assert(actions.deep_view() =~= expected.1);
                        }
                    },
                }
            },
            (Stage::Listing, Event::ChapterListFailed(error)) => {
                self.stage = Stage::Failed;
                match platform {
                    Some(Platform::Qidian) => {
                        let failure = concat("获取章节列表失败: ", error.as_str());
                        put(
                            &mut actions,
                            Action::Emit { message: failure.clone(), status: Status::Error },
                        );
                        put(&mut actions, Action::Failed { message: failure });
                    },
                    _ => {
                        put(&mut actions, Action::Failed { message: error });
                    },
                }
                proof {
                    assert(actions.deep_view() =~= expected.1);
                }
            },
            (Stage::Checking, Event::ChapterExists(exists)) => {
                proof {
                    assert(self.batch.deep_view().len() == self.batch.len());
                    assert(self.batch.deep_view()[self.index as int] == (
                        self.batch@[self.index as int].0@,
                        self.batch@[self.index as int].1@,
                    ));
                }
                if exists {
                    let message = bracketed(
                        "跳过已存在章节 [",
                        self.title.as_str(),
                        "] - ",
                        self.batch[self.index].0.as_str(),
                    );
                    put(&mut actions, Action::Log { message: message.clone() });
                    if !self.is_batch {
                        put(&mut actions, Action::Emit { message, status: Status::Skipped });
                    }
                    self.skipped = self.skipped + 1;
                    self.index = self.index + 1;
                    self.advance(&mut actions);
                } else {
                    if !self.is_batch {
                        let message = bracketed(
                            "下载 [",
                            self.title.as_str(),
                            "] - ",
                            self.batch[self.index].0.as_str(),
                        );
                        put(&mut actions, Action::Emit { message, status: Status::Running });
                    }
                    self.stage = Stage::Downloading;
                    self.attempt = 0;
                    let url = chapter_address(platform, self.batch[self.index].1.as_str());
                    put(&mut actions, Action::DownloadChapter { url });
                }
                proof {
                    assert(actions.deep_view() =~= expected.1);
                }
            },
            (Stage::Downloading, Event::Chapter(body)) => {
                proof {
                    assert(self.batch.deep_view().len() == self.batch.len());
                    assert(self.batch.deep_view()[self.index as int] == (
                        self.batch@[self.index as int].0@,
                        self.batch@[self.index as int].1@,
                    ));
                }
                let url = chapter_address(platform, self.batch[self.index].1.as_str());
                let contents = chapter_file_contents(
                    self.batch[self.index].0.as_str(),
                    url.as_str(),
                    body.as_str(),
                );
                put(
                    &mut actions,
                    Action::WriteChapter {
                        directory: self.title.clone(),
                        file: chapter_file_name(self.index),
                        contents,
                    },
                );
                put(&mut actions, Action::Sleep { millis: 200 });
                self.downloaded = self.downloaded + 1;
                self.index = self.index + 1;
                self.advance(&mut actions);
                proof {
                    assert(actions.deep_view() =~= expected.1);
                }
            },
            (Stage::Downloading, Event::ChapterFailed(_)) => {
                proof {
                    assert(self.batch.deep_view().len() == self.batch.len());
                    assert(self.batch.deep_view()[self.index as int] == (
                        self.batch@[self.index as int].0@,
                        self.batch@[self.index as int].1@,
                    ));
                }
                put(&mut actions, Action::Sleep { millis: 500 });
                if self.attempt + 1 < 3 {
                    self.attempt = self.attempt + 1;
                    let url = chapter_address(platform, self.batch[self.index].1.as_str());
                    put(&mut actions, Action::DownloadChapter { url });
                } else {
                    put(&mut actions, Action::Sleep { millis: 200 });
                    self.index = self.index + 1;
                    self.advance(&mut actions);
                }
                proof {
                    assert(actions.deep_view() =~= expected.1);
                }
            },
            _ => {},
        }
        actions
    }
}
/// The machine run over a series of events: where it ends, and all the
/// actions it asked for on the way.
pub open spec fn run(job: JobView, events: Seq<EventView>) -> (JobView, Seq<ActionView>)
    decreases events.len(),
{
    if events.len() == 0 {
        (job, Seq::empty())
    } else {
        let before = run(job, events.drop_last());
        let last = step(before.0, events.last());
        (last.0, before.1 + last.1)
    }
}

/// The names of the chapter files that the actions write, in order.
pub open spec fn written_files(actions: Seq<ActionView>) -> Seq<Seq<char>>
    decreases actions.len(),
{
    if actions.len() == 0 {
        Seq::empty()
    } else {
        let earlier = written_files(actions.drop_last());
        match actions.last() {
            ActionView::WriteChapter { file, .. } => earlier.push(file),
            _ => earlier,
        }
    }
}

/// How many chapter fetches the actions hold.
pub open spec fn fetch_count(actions: Seq<ActionView>) -> nat
    decreases actions.len(),
{
    if actions.len() == 0 {
        0
    } else {
        fetch_count(actions.drop_last()) + if actions.last() is DownloadChapter {
            1nat
        } else {
            0nat
        }
    }
}

/// How many `skipped` events the actions emit.
pub open spec fn skip_reports(actions: Seq<ActionView>) -> nat
    decreases actions.len(),
{
    if actions.len() == 0 {
        0
    } else {
        skip_reports(actions.drop_last()) + match actions.last() {
            ActionView::Emit { status: Status::Skipped, .. } => 1nat,
            _ => 0nat,
        }
    }
}

/// What became of a chapter of the batch.
pub enum Fate {
    /// Its file was there.
    Skipped,
    /// It was fetched and written.
    Written,
    /// Every attempt at it failed.
    GivenUp,
}

/// What became of the chapters that a run has dealt with, by position in the batch.
pub open spec fn fates(job: JobView, events: Seq<EventView>) -> Seq<Fate>
    decreases events.len(),
{
    if events.len() == 0 {
        Seq::empty()
    } else {
        let earlier = fates(job, events.drop_last());
        let before = run(job, events.drop_last()).0;
        match (before.stage, events.last()) {
            (Stage::Listing, EventView::ChapterList(_)) => Seq::empty(),
            (Stage::Checking, EventView::ChapterExists(true)) => earlier.push(Fate::Skipped),
            (Stage::Downloading, EventView::Chapter(_)) => earlier.push(Fate::Written),
            (Stage::Downloading, EventView::ChapterFailed(_)) => if before.attempt + 1
                < max_attempts() {
                earlier
            } else {
                earlier.push(Fate::GivenUp)
            },
            _ => earlier,
        }
    }
}

/// The files of the chapters that were written, by their positions.
pub open spec fn files_of(fates: Seq<Fate>) -> Seq<Seq<char>>
    decreases fates.len(),
{
    if fates.len() == 0 {
        Seq::empty()
    } else if fates.last() == Fate::Written {
        files_of(fates.drop_last()).push(chapter_file((fates.len() - 1) as nat))
    } else {
        files_of(fates.drop_last())
    }
}

/// How many chapters met the fate `fate`.
pub open spec fn fate_count(fates: Seq<Fate>, fate: Fate) -> nat
    decreases fates.len(),
{
    if fates.len() == 0 {
        0
    } else {
        fate_count(fates.drop_last(), fate) + if fates.last() == fate {
            1nat
        } else {
            0nat
        }
    }
}

proof fn lemma_written_files_concat(a: Seq<ActionView>, b: Seq<ActionView>)
    ensures
        written_files(a + b) == written_files(a) + written_files(b),
        fetch_count(a + b) == fetch_count(a) + fetch_count(b),
        skip_reports(a + b) == skip_reports(a) + skip_reports(b),
    decreases b.len(),
{
    if b.len() == 0 {
        assert(a + b =~= a);
        assert(written_files(a) + written_files(b) =~= written_files(a));
    } else {
        assert((a + b).drop_last() =~= a + b.drop_last());
        assert((a + b).last() == b.last());
        lemma_written_files_concat(a, b.drop_last());
        assert(written_files(a + b) =~= written_files(a) + written_files(b));
    }
}

/// The stages that come before the first chapter.
pub open spec fn before_chapters(stage: Stage) -> bool {
    stage == Stage::Start || stage == Stage::Metadata || stage == Stage::Saving || stage
        == Stage::Listing
}

/// What a step's actions come to: the files written, the chapters fetched,
/// the `skipped` events emitted.
pub open spec fn trace_is(
    actions: Seq<ActionView>,
    files: Seq<Seq<char>>,
    fetches: nat,
    skips: nat,
) -> bool {
    &&& written_files(actions) == files
    &&& fetch_count(actions) == fetches
    &&& skip_reports(actions) == skips
}

proof fn lemma_trace_of_advance(job: JobView)
    ensures
        trace_is(advance(job).1, Seq::empty(), 0, 0),
{
    reveal_with_fuel(written_files, 4);
    reveal_with_fuel(fetch_count, 4);
    reveal_with_fuel(skip_reports, 4);
}

proof fn lemma_trace_before_listing(job: JobView, event: EventView)
    requires
        job.stage != Stage::Listing,
        job.stage != Stage::Checking,
        job.stage != Stage::Downloading,
    ensures
        trace_is(step(job, event).1, Seq::empty(), 0, 0),
{
    reveal(step);
    reveal_with_fuel(written_files, 7);
    reveal_with_fuel(fetch_count, 7);
    reveal_with_fuel(skip_reports, 7);
}

proof fn lemma_trace_listing(job: JobView, event: EventView)
    requires
        job.stage == Stage::Listing,
    ensures
        trace_is(step(job, event).1, Seq::empty(), 0, 0),
{
    reveal(step);
    reveal_with_fuel(written_files, 4);
    reveal_with_fuel(fetch_count, 4);
    reveal_with_fuel(skip_reports, 4);
    match event {
        EventView::ChapterList(chapters) => {
            match platform_of(job.platform_tag) {
                Some(platform) => {
                    let batch = form_batch(platform, chapters, job.chapter_count);
                    let message = prepare_message(batch.len(), job.chapter_count);
                    let opening = seq![
                        ActionView::Log { message },
                        ActionView::Emit { message, status: Status::Running },
                    ];
                    let warning = if batch.len() == 0 {
                        seq![ActionView::Log { message: empty_batch_message() }]
                    } else {
                        Seq::empty()
                    };
                    let fresh = JobView { batch, index: 0, downloaded: 0, skipped: 0, ..job };
                    lemma_trace_of_advance(fresh);
                    lemma_written_files_concat(opening, warning);
                    lemma_written_files_concat(opening + warning, advance(fresh).1);
                },
                None => {},
            }
        },
        _ => {},
    }
}

proof fn lemma_trace_checking(job: JobView, event: EventView)
    requires
        job.stage == Stage::Checking,
    ensures
        trace_is(
            step(job, event).1,
            Seq::empty(),
            if event == EventView::ChapterExists(false) {
                1nat
            } else {
                0nat
            },
            if event == EventView::ChapterExists(true) && !job.is_batch {
                1nat
            } else {
                0nat
            },
        ),
{
    reveal(step);
    reveal_with_fuel(written_files, 4);
    reveal_with_fuel(fetch_count, 4);
    reveal_with_fuel(skip_reports, 4);
    match event {
        EventView::ChapterExists(exists) => {
            if exists {
                let chapter = job.batch[job.index as int].0;
                let message = skip_message(job.title, chapter);
                let report = if job.is_batch {
                    seq![ActionView::Log { message }]
                } else {
                    seq![
                        ActionView::Log { message },
                        ActionView::Emit { message, status: Status::Skipped },
                    ]
                };
                let moved = JobView { skipped: job.skipped + 1, index: job.index + 1, ..job };
                lemma_trace_of_advance(moved);
                lemma_written_files_concat(report, advance(moved).1);
            }
        },
        _ => {},
    }
}

proof fn lemma_trace_downloading(job: JobView, event: EventView)
    requires
        job.stage == Stage::Downloading,
    ensures
        trace_is(
            step(job, event).1,
            if event is Chapter {
                seq![chapter_file(job.index)]
            } else {
                Seq::empty()
            },
            if event is ChapterFailed && job.attempt + 1 < max_attempts() {
                1nat
            } else {
                0nat
            },
            0,
        ),
{
    reveal(step);
    reveal_with_fuel(written_files, 4);
    reveal_with_fuel(fetch_count, 4);
    reveal_with_fuel(skip_reports, 4);
    match event {
        EventView::Chapter(body) => {
            let chapter = job.batch[job.index as int].0;
            let wrote = seq![
                ActionView::WriteChapter {
                    directory: job.title,
                    file: chapter_file(job.index),
                    contents: chapter_contents(chapter, current_url(job), body),
                },
                ActionView::Sleep { millis: chapter_pause() },
            ];
            let moved = JobView { downloaded: job.downloaded + 1, index: job.index + 1, ..job };
            lemma_trace_of_advance(moved);
            lemma_written_files_concat(wrote, advance(moved).1);
        },
        EventView::ChapterFailed(_) => {
            if job.attempt + 1 >= max_attempts() {
                let waited = seq![
                    ActionView::Sleep { millis: retry_pause() },
                    ActionView::Sleep { millis: chapter_pause() },
                ];
                let moved = JobView { index: job.index + 1, ..job };
                lemma_trace_of_advance(moved);
                lemma_written_files_concat(waited, advance(moved).1);
            }
        },
        _ => {},
    }
}

/// What one step writes, fetches and reports as skipped.
pub proof fn lemma_step_trace(job: JobView, event: EventView)
    ensures
        written_files(step(job, event).1) == if job.stage == Stage::Downloading
            && event is Chapter {
            seq![chapter_file(job.index)]
        } else {
            Seq::<Seq<char>>::empty()
        },
        fetch_count(step(job, event).1) == if (job.stage == Stage::Checking && event
            == EventView::ChapterExists(false)) || (job.stage == Stage::Downloading
            && event is ChapterFailed && job.attempt + 1 < max_attempts()) {
            1nat
        } else {
            0nat
        },
        skip_reports(step(job, event).1) == if job.stage == Stage::Checking && event
            == EventView::ChapterExists(true) && !job.is_batch {
            1nat
        } else {
            0nat
        },
{
    if job.stage == Stage::Listing {
        lemma_trace_listing(job, event);
    } else if job.stage == Stage::Checking {
        lemma_trace_checking(job, event);
    } else if job.stage == Stage::Downloading {
        lemma_trace_downloading(job, event);
    } else {
        lemma_trace_before_listing(job, event);
    }
}

/// The machine stays within its states.
pub proof fn lemma_step_keeps_wf(job: JobView, event: EventView)
    requires
        job_wf(job),
    ensures
        job_wf(step(job, event).0),
{
    reveal(step);
}

/// A step changes nothing of what was asked for.
pub proof fn lemma_step_keeps_request(job: JobView, event: EventView)
    ensures
        step(job, event).0.is_batch == job.is_batch,
        step(job, event).0.platform_tag == job.platform_tag,
        step(job, event).0.url == job.url,
        step(job, event).0.chapter_count == job.chapter_count,
{
    reveal(step);
}

/// What one step does to the stage and the counters: the catalog starts the
/// count afresh; a file that is there, a chapter that is written and a chapter
/// that is given up each move on to the next chapter; a file that is not
/// there and a failed attempt that is not the third lead to a fetch.
pub proof fn lemma_step_effect(job: JobView, event: EventView)
    requires
        job_wf(job),
    ensures
        ({
            let next = step(job, event).0;
            let listed = job.stage == Stage::Listing && event is ChapterList;
            let fresh = listed && platform_of(job.platform_tag) is Some;
            let skipped = job.stage == Stage::Checking && event == EventView::ChapterExists(true);
            let asked = job.stage == Stage::Checking && event == EventView::ChapterExists(false);
            let wrote = job.stage == Stage::Downloading && event is Chapter;
            let failed = job.stage == Stage::Downloading && event is ChapterFailed;
            let retried = failed && job.attempt + 1 < max_attempts();
            let gave_up = failed && !retried;
            let moved = skipped || wrote || gave_up;
            &&& job_wf(next)
            &&& !fresh ==> next.batch == job.batch
            &&& listed ==> next.stage != Stage::Downloading && !before_chapters(next.stage)
            &&& listed && !fresh ==> next.stage == Stage::Failed
            &&& moved ==> next.stage == Stage::Checking || next.stage == Stage::Complete
            &&& next.index == if fresh {
                0
            } else if moved {
                job.index + 1
            } else {
                job.index
            }
            &&& next.skipped == if fresh {
                0
            } else if skipped {
                job.skipped + 1
            } else {
                job.skipped
            }
            &&& next.downloaded == if fresh {
                0
            } else if wrote {
                job.downloaded + 1
            } else {
                job.downloaded
            }
            &&& asked ==> next.stage == Stage::Downloading && next.attempt == 0
            &&& retried ==> next.stage == Stage::Downloading && next.attempt == job.attempt + 1
            &&& !(listed || moved || asked || retried) ==> next.stage == job.stage && next.attempt
                == job.attempt || (before_chapters(job.stage) && (before_chapters(next.stage)
                || next.stage == Stage::Failed))
        }),
{
    reveal(step);
}

/// The filename law. Whatever the host reports, the chapter files that a
/// download writes are those of the chapters that were fetched, each under the
/// two-digit ordinal of its position in the batch, in order; a chapter whose
/// file was found, or whose attempts all failed, gets none. The counters count
/// the same fates, and a download that completes has dealt with the whole batch.
pub proof fn lemma_written_files(
    platform_tag: Seq<char>,
    url: Seq<char>,
    chapter_count: nat,
    is_batch: bool,
    events: Seq<EventView>,
)
    ensures
        ({
            let start = initial_job(platform_tag, url, chapter_count, is_batch);
            let end = run(start, events);
            let met = fates(start, events);
            &&& job_wf(end.0)
            &&& met.len() == end.0.index
            &&& written_files(end.1) == files_of(met)
            &&& end.0.downloaded == fate_count(met, Fate::Written)
            &&& end.0.skipped == fate_count(met, Fate::Skipped)
            &&& end.0.stage == Stage::Complete ==> met.len() == end.0.batch.len()
            &&& before_chapters(end.0.stage) ==> end.0.index == 0
        }),
    decreases events.len(),
{
    let start = initial_job(platform_tag, url, chapter_count, is_batch);
    if events.len() > 0 {
        lemma_written_files(platform_tag, url, chapter_count, is_batch, events.drop_last());
        let before = run(start, events.drop_last());
        let earlier = fates(start, events.drop_last());
        let last = step(before.0, events.last());
        let met = fates(start, events);
        lemma_step_effect(before.0, events.last());
        lemma_step_trace(before.0, events.last());
        lemma_written_files_concat(before.1, last.1);
        if met.len() == earlier.len() + 1 {
            assert(met.drop_last() =~= earlier);
        }
        if before.0.stage == Stage::Listing && events.last() is ChapterList {
            assert(earlier =~= Seq::empty());
        }
    }
}

/// Dedup. Where every chapter file that the host is asked about is there, the
/// download fetches no chapter and writes none: it skips them all, and unless
/// it is one of a batch it emits one `skipped` event for each.
pub proof fn lemma_existing_chapters_are_skipped(
    platform_tag: Seq<char>,
    url: Seq<char>,
    chapter_count: nat,
    is_batch: bool,
    events: Seq<EventView>,
)
    requires
        forall|i: int| 0 <= i < events.len() ==> events[i] != EventView::ChapterExists(false),
    ensures
        ({
            let end = run(initial_job(platform_tag, url, chapter_count, is_batch), events);
            &&& fetch_count(end.1) == 0
            &&& written_files(end.1) == Seq::<Seq<char>>::empty()
            &&& end.0.downloaded == 0
            &&& end.0.skipped == end.0.index
            &&& !is_batch ==> skip_reports(end.1) == end.0.skipped
            &&& end.0.stage == Stage::Complete ==> end.0.skipped == end.0.batch.len()
            &&& end.0.stage != Stage::Downloading
        }),
    decreases events.len(),
{
    let start = initial_job(platform_tag, url, chapter_count, is_batch);
    if events.len() > 0 {
        lemma_existing_chapters_are_skipped(
            platform_tag,
            url,
            chapter_count,
            is_batch,
            events.drop_last(),
        );
        lemma_written_files(platform_tag, url, chapter_count, is_batch, events.drop_last());
        let before = run(start, events.drop_last());
        let last = step(before.0, events.last());
        assert(events.last() == events[events.len() - 1]);
        lemma_step_effect(before.0, events.last());
        lemma_step_trace(before.0, events.last());
        lemma_written_files_concat(before.1, last.1);
        lemma_run_keeps_request(start, events.drop_last());
    }
}

/// A run changes nothing of what was asked for.
pub proof fn lemma_run_keeps_request(job: JobView, events: Seq<EventView>)
    ensures
        run(job, events).0.is_batch == job.is_batch,
        run(job, events).0.platform_tag == job.platform_tag,
        run(job, events).0.url == job.url,
        run(job, events).0.chapter_count == job.chapter_count,
    decreases events.len(),
{
    if events.len() > 0 {
        lemma_run_keeps_request(job, events.drop_last());
        lemma_step_keeps_request(run(job, events.drop_last()).0, events.last());
    }
}

proof fn lemma_no_such_fate(met: Seq<Fate>, fate: Fate)
    requires
        fate_count(met, fate) == 0,
    ensures
        forall|i: int| 0 <= i < met.len() ==> met[i] != fate,
    decreases met.len(),
{
    if met.len() > 0 {
        lemma_no_such_fate(met.drop_last(), fate);
        assert forall|i: int| 0 <= i < met.len() implies met[i] != fate by {
            if i < met.len() - 1 {
                assert(met.drop_last()[i] == met[i]);
            }
        }
    }
}

proof fn lemma_fates_add_up(met: Seq<Fate>)
    ensures
        fate_count(met, Fate::Written) + fate_count(met, Fate::Skipped) + fate_count(
            met,
            Fate::GivenUp,
        ) == met.len(),
    decreases met.len(),
{
    if met.len() > 0 {
        lemma_fates_add_up(met.drop_last());
    }
}

/// The filename law for a download that completes without giving a chapter
/// up: the files written are those of the whole batch but for the chapters
/// whose files were there already.
pub proof fn lemma_complete_batch(
    platform_tag: Seq<char>,
    url: Seq<char>,
    chapter_count: nat,
    is_batch: bool,
    events: Seq<EventView>,
)
    requires
        run(initial_job(platform_tag, url, chapter_count, is_batch), events).0.stage
            == Stage::Complete,
        fate_count(
            fates(initial_job(platform_tag, url, chapter_count, is_batch), events),
            Fate::GivenUp,
        ) == 0,
    ensures
        ({
            let start = initial_job(platform_tag, url, chapter_count, is_batch);
            let end = run(start, events);
            let met = fates(start, events);
            &&& met.len() == end.0.batch.len()
            &&& forall|i: int|
                0 <= i < met.len() ==> (#[trigger] met[i] == Fate::Written) != (met[i]
                    == Fate::Skipped)
            &&& written_files(end.1) == files_of(met)
            &&& end.0.downloaded + end.0.skipped == end.0.batch.len()
        }),
{
    let start = initial_job(platform_tag, url, chapter_count, is_batch);
    let met = fates(start, events);
    lemma_written_files(platform_tag, url, chapter_count, is_batch, events);
    lemma_no_such_fate(met, Fate::GivenUp);
    lemma_fates_add_up(met);
}

/// The attempts that the chapter at hand has had, the one underway included.
pub open spec fn attempts_underway(job: JobView) -> nat {
    if job.stage == Stage::Downloading {
        job.attempt + 1
    } else {
        0
    }
}

/// The retry law. A chapter is fetched at least once and at most three
/// times before it is written, and exactly three times before it is given
/// up; a chapter whose file was found is not fetched at all.
#[verifier::rlimit(40)]
pub proof fn lemma_attempts(
    platform_tag: Seq<char>,
    url: Seq<char>,
    chapter_count: nat,
    is_batch: bool,
    events: Seq<EventView>,
)
    ensures
        ({
            let start = initial_job(platform_tag, url, chapter_count, is_batch);
            let end = run(start, events);
            let met = fates(start, events);
            let written = fate_count(met, Fate::Written);
            let given_up = fate_count(met, Fate::GivenUp);
            &&& fetch_count(end.1) >= written + max_attempts() * given_up + attempts_underway(
                end.0,
            )
            &&& fetch_count(end.1) <= max_attempts() * (written + given_up) + attempts_underway(
                end.0,
            )
            &&& before_chapters(end.0.stage) ==> fetch_count(end.1) == 0
        }),
    decreases events.len(),
{
    let start = initial_job(platform_tag, url, chapter_count, is_batch);
    if events.len() > 0 {
        lemma_attempts(platform_tag, url, chapter_count, is_batch, events.drop_last());
        lemma_written_files(platform_tag, url, chapter_count, is_batch, events.drop_last());
        let before = run(start, events.drop_last());
        let earlier = fates(start, events.drop_last());
        let last = step(before.0, events.last());
        let met = fates(start, events);
        lemma_step_effect(before.0, events.last());
        lemma_step_trace(before.0, events.last());
        lemma_written_files_concat(before.1, last.1);
        if met.len() == earlier.len() + 1 {
            assert(met.drop_last() =~= earlier);
        }
        if before.0.stage == Stage::Listing && events.last() is ChapterList {
            assert(earlier =~= Seq::empty());
        }
    }
}

} // verus!
