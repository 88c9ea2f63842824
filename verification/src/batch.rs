//! The batch driver: walks a rank list and has the novels on it downloaded
//! one after the other, in rank order. Like the download of one novel it is a
//! state machine that the host drives.

use vstd::prelude::*;
use crate::model::{Platform, Status, platform_of};
use crate::number::{decimal, push_decimal};
use crate::text::{concat, concat3, copy_str, from_chars, push_str};

verus! {

#[derive(Clone, Copy, Debug, PartialEq, Eq, Structural)]
pub enum BatchStage {
    Start,
    /// Waiting for the rank list.
    Ranking,
    /// Waiting for the novel at hand.
    Running,
    Done,
}

/// What the host is asked to do; the last action of a step is the one that
/// the next event answers.
#[derive(Clone, Debug)]
pub enum BatchAction {
    Log { message: String },
    Emit { message: String, status: Status },
    /// Fetch the rank list; answered by `RankList` or `RankListFailed`.
    FetchRankList { url: String },
    /// Download one novel as part of the batch; answered by `NovelFinished`
    /// or `NovelFailed`.
    DownloadNovel { url: String, chapter_count: usize },
    /// The batch is over.
    Done,
}

pub enum BatchActionView {
    Log { message: Seq<char> },
    Emit { message: Seq<char>, status: Status },
    FetchRankList { url: Seq<char> },
    DownloadNovel { url: Seq<char>, chapter_count: nat },
    Done,
}

impl DeepView for BatchAction {
    type V = BatchActionView;

    open spec fn deep_view(&self) -> BatchActionView {
        match self {
            BatchAction::Log { message } => BatchActionView::Log { message: message@ },
            BatchAction::Emit { message, status } => BatchActionView::Emit {
                message: message@,
                status: *status,
            },
            BatchAction::FetchRankList { url } => BatchActionView::FetchRankList { url: url@ },
            BatchAction::DownloadNovel { url, chapter_count } => BatchActionView::DownloadNovel {
                url: url@,
                chapter_count: *chapter_count as nat,
            },
            BatchAction::Done => BatchActionView::Done,
        }
    }
}

/// What the host reports.
#[derive(Clone, Debug)]
pub enum BatchEvent {
    Begin,
    /// The novels' addresses, in rank order.
    RankList(Vec<String>),
    RankListFailed(String),
    /// The novel at hand is downloaded; its directory is the title.
    NovelFinished(String),
    NovelFailed(String),
}

pub enum BatchEventView {
    Begin,
    RankList(Seq<Seq<char>>),
    RankListFailed(Seq<char>),
    NovelFinished(Seq<char>),
    NovelFailed(Seq<char>),
}

impl DeepView for BatchEvent {
    type V = BatchEventView;

    open spec fn deep_view(&self) -> BatchEventView {
        match self {
            BatchEvent::Begin => BatchEventView::Begin,
            BatchEvent::RankList(links) => BatchEventView::RankList(links.deep_view()),
            BatchEvent::RankListFailed(e) => BatchEventView::RankListFailed(e@),
            BatchEvent::NovelFinished(title) => BatchEventView::NovelFinished(title@),
            BatchEvent::NovelFailed(e) => BatchEventView::NovelFailed(e@),
        }
    }
}

/// A batch download.
pub struct BatchDownload {
    platform_tag: String,
    rank_url: String,
    max_novels: usize,
    count_per_novel: usize,
    stage: BatchStage,
    targets: Vec<String>,
    index: usize,
}

pub struct BatchView {
    pub platform_tag: Seq<char>,
    pub rank_url: Seq<char>,
    pub max_novels: nat,
    pub count_per_novel: nat,
    pub stage: BatchStage,
    /// The novels to download, in rank order.
    pub targets: Seq<Seq<char>>,
    /// The position in `targets` of the novel at hand.
    pub index: nat,
}

impl DeepView for BatchDownload {
    type V = BatchView;

    closed spec fn deep_view(&self) -> BatchView {
        BatchView {
            platform_tag: self.platform_tag@,
            rank_url: self.rank_url@,
            max_novels: self.max_novels as nat,
            count_per_novel: self.count_per_novel as nat,
            stage: self.stage,
            targets: self.targets.deep_view(),
            index: self.index as nat,
        }
    }
}

pub open spec fn batch_wf(batch: BatchView) -> bool {
    &&& batch.index <= batch.targets.len()
    &&& batch.stage == BatchStage::Running ==> batch.index < batch.targets.len()
}

pub open spec fn initial_batch(
    platform_tag: Seq<char>,
    rank_url: Seq<char>,
    max_novels: nat,
    count_per_novel: nat,
) -> BatchView {
    BatchView {
        platform_tag,
        rank_url,
        max_novels,
        count_per_novel,
        stage: BatchStage::Start,
        targets: Seq::empty(),
        index: 0,
    }
}

/// The first `max` of the links, in their order.
pub open spec fn first_links(links: Seq<Seq<char>>, max: nat) -> Seq<Seq<char>> {
    if max < links.len() {
        links.take(max as int)
    } else {
        links
    }
}

pub open spec fn scanning_message() -> Seq<char> {
    "开始分析榜单..."@
}

pub open spec fn rank_failed_message(error: Seq<char>) -> Seq<char> {
    "榜单获取失败: "@ + error
}

pub open spec fn unsupported_message(tag: Seq<char>) -> Seq<char> {
    "不支持的平台: "@ + tag
}

pub open spec fn ready_message(total: nat) -> Seq<char> {
    "分析完成，准备抓取前 "@ + decimal(total) + " 本小说..."@
}

pub open spec fn processing_message(ordinal: nat, total: nat) -> Seq<char> {
    "正在处理 ["@ + decimal(ordinal) + "/"@ + decimal(total) + "] 正在解析..."@
}

pub open spec fn novel_done_message(title: Seq<char>) -> Seq<char> {
    "《"@ + title + "》下载完成!"@
}

pub open spec fn novel_skipped_message(error: Seq<char>) -> Seq<char> {
    "Skipped one: "@ + error
}

pub open spec fn novel_error_message(error: Seq<char>) -> Seq<char> {
    "Error: "@ + error
}

pub open spec fn batch_done_message() -> Seq<char> {
    "榜单扫摸全部完成!"@
}

pub open spec fn missing_link_message() -> Seq<char> {
    "请输入小说链接"@
}

/// What follows once the novel before `batch.index` is dealt with.
pub open spec fn next_novel(batch: BatchView) -> (BatchView, Seq<BatchActionView>) {
    if batch.index < batch.targets.len() {
        (
            BatchView { stage: BatchStage::Running, ..batch },
            seq![
                BatchActionView::Emit {
                    message: processing_message(batch.index + 1, batch.targets.len()),
                    status: Status::Running,
                },
                BatchActionView::DownloadNovel {
                    url: batch.targets[batch.index as int],
                    chapter_count: batch.count_per_novel,
                },
            ],
        )
    } else {
        (
            BatchView { stage: BatchStage::Done, ..batch },
            seq![
                BatchActionView::Emit { message: batch_done_message(), status: Status::Completed },
                BatchActionView::Done,
            ],
        )
    }
}

/// How the end of one novel of a batch is reported.
pub open spec fn novel_report(event: BatchEventView) -> Seq<BatchActionView> {
    match event {
        BatchEventView::NovelFinished(title) => seq![
            BatchActionView::Log { message: novel_done_message(title) },
            BatchActionView::Emit {
                message: novel_done_message(title),
                status: Status::Completed,
            },
        ],
        BatchEventView::NovelFailed(error) => seq![
            BatchActionView::Log { message: novel_skipped_message(error) },
            BatchActionView::Emit {
                message: novel_skipped_message(error),
                status: Status::Error,
            },
        ],
        _ => Seq::empty(),
    }
}

/// The batch machine. A novel that fails never ends the batch. An event that
/// does not answer what the state waits for changes nothing and asks for nothing.
pub open spec fn batch_step(batch: BatchView, event: BatchEventView) -> (
    BatchView,
    Seq<BatchActionView>,
) {
    match (batch.stage, event) {
        (BatchStage::Start, BatchEventView::Begin) => {
            let opening = seq![
                BatchActionView::Emit { message: scanning_message(), status: Status::Running },
            ];
            if platform_of(batch.platform_tag) is Some {
                (
                    BatchView { stage: BatchStage::Ranking, ..batch },
                    opening.push(BatchActionView::FetchRankList { url: batch.rank_url }),
                )
            } else {
                (
                    BatchView { stage: BatchStage::Done, ..batch },
                    opening + seq![
                        BatchActionView::Emit {
                            message: rank_failed_message(unsupported_message(batch.platform_tag)),
                            status: Status::Error,
                        },
                        BatchActionView::Done,
                    ],
                )
            }
        },
        (BatchStage::Ranking, BatchEventView::RankList(links)) => {
            let targets = first_links(links, batch.max_novels);
            let next = next_novel(BatchView { targets, index: 0, ..batch });
            (
                next.0,
                seq![
                    BatchActionView::Emit {
                        message: ready_message(targets.len()),
                        status: Status::Running,
                    },
                ] + next.1,
            )
        },
        (BatchStage::Ranking, BatchEventView::RankListFailed(error)) => (
            BatchView { stage: BatchStage::Done, ..batch },
            seq![
                BatchActionView::Emit {
                    message: rank_failed_message(error),
                    status: Status::Error,
                },
                BatchActionView::Done,
            ],
        ),
        (BatchStage::Running, BatchEventView::NovelFinished(_)) | (
            BatchStage::Running,
            BatchEventView::NovelFailed(_),
        ) => {
            let next = next_novel(BatchView { index: batch.index + 1, ..batch });
            (next.0, novel_report(event) + next.1)
        },
        _ => (batch, Seq::empty()),
    }
}

fn put(actions: &mut Vec<BatchAction>, action: BatchAction)
    ensures
        final(actions).deep_view() == old(actions).deep_view().push(action.deep_view()),
{
    actions.push(action);
    proof {
        assert(actions.deep_view() =~= old(actions).deep_view().push(action.deep_view()));
    }
}

/// The first `max` of the links.
pub fn take_links(links: &Vec<String>, max: usize) -> (r: Vec<String>)
    ensures
        r.deep_view() == first_links(links.deep_view(), max as nat),
{
    let total: usize = if max < links.len() {
        max
    } else {
        links.len()
    };
    let mut out: Vec<String> = Vec::new();
    let mut i: usize = 0;
    while i < total
        invariant
            i <= total <= links.len(),
            out.len() == i,
            forall|j: int| 0 <= j < i ==> out@[j]@ == links@[j]@,
        decreases total - i,
    {
        out.push(links[i].clone());
        i += 1;
    }
    proof {
        assert(out.deep_view() =~= first_links(links.deep_view(), max as nat));
    }
    out
}

fn processing_text(ordinal: usize, total: usize) -> (r: String)
    ensures
        r@ == processing_message(ordinal as nat, total as nat),
{
    let mut out: Vec<char> = Vec::new();
    push_str(&mut out, "正在处理 [");
    push_decimal(&mut out, ordinal as u64);
    push_str(&mut out, "/");
    push_decimal(&mut out, total as u64);
    push_str(&mut out, "] 正在解析...");
    from_chars(&out)
}

fn ready_text(total: usize) -> (r: String)
    ensures
        r@ == ready_message(total as nat),
{
    let mut out: Vec<char> = Vec::new();
    push_str(&mut out, "分析完成，准备抓取前 ");
    push_decimal(&mut out, total as u64);
    push_str(&mut out, " 本小说...");
    from_chars(&out)
}

/// Whether a single download can be started: it needs a link and a directory.
pub fn start_download(url: &str, dir_name: &str) -> (r: Result<(), String>)
    ensures
        r is Err <==> (url@.len() == 0 || dir_name@.len() == 0),
        r matches Err(message) ==> message@ == missing_link_message(),
{
    if url.is_empty() || dir_name.is_empty() {
        Err(copy_str("请输入小说链接"))
    } else {
        Ok(())
    }
}

/// How the end of a single download is reported: logged, and emitted as
/// `completed` with the title or as `error` with the reason.
pub open spec fn download_report(outcome: Result<Seq<char>, Seq<char>>) -> Seq<BatchActionView> {
    match outcome {
        Ok(title) => seq![
            BatchActionView::Log { message: novel_done_message(title) },
            BatchActionView::Emit {
                message: novel_done_message(title),
                status: Status::Completed,
            },
        ],
        Err(error) => seq![
            BatchActionView::Log { message: novel_error_message(error) },
            BatchActionView::Emit { message: novel_error_message(error), status: Status::Error },
        ],
    }
}

/// The view of a download's outcome.
pub open spec fn outcome_view(outcome: Result<String, String>) -> Result<Seq<char>, Seq<char>> {
    match outcome {
        Ok(title) => Ok(title@),
        Err(error) => Err(error@),
    }
}

/// Reports the end of a single download.
pub fn report_download(outcome: Result<String, String>) -> (actions: Vec<BatchAction>)
    ensures
        actions.deep_view() == download_report(outcome_view(outcome)),
{
    let mut actions: Vec<BatchAction> = Vec::new();
    proof {
        assert(actions.deep_view() =~= Seq::<BatchActionView>::empty());
    }
    match outcome {
        Ok(title) => {
            let message = concat3("《", title.as_str(), "》下载完成!");
            put(&mut actions, BatchAction::Log { message: message.clone() });
            put(&mut actions, BatchAction::Emit { message, status: Status::Completed });
        },
        Err(error) => {
            let message = concat("Error: ", error.as_str());
            put(&mut actions, BatchAction::Log { message: message.clone() });
            put(&mut actions, BatchAction::Emit { message, status: Status::Error });
        },
    }
    proof {
        assert(actions.deep_view() =~= download_report(outcome_view(outcome)));
    }
    actions
}

impl BatchDownload {
    pub open spec fn wf(&self) -> bool {
        batch_wf(self.deep_view())
    }

    /// A batch over the rank list at `rank_url`: at most `max_novels` novels,
    /// `count_per_novel` chapters of each.
    pub fn new(platform_tag: &str, rank_url: &str, max_novels: usize, count_per_novel: usize) -> (r:
        Self)
        ensures
            r.wf(),
            r.deep_view() == initial_batch(
                platform_tag@,
                rank_url@,
                max_novels as nat,
                count_per_novel as nat,
            ),
    {
        let r = BatchDownload {
            platform_tag: copy_str(platform_tag),
            rank_url: copy_str(rank_url),
            max_novels,
            count_per_novel,
            stage: BatchStage::Start,
            targets: Vec::new(),
            index: 0,
        };
        proof {
            assert(r.targets.deep_view() =~= Seq::empty());
        }
        r
    }

    /// The stage that the batch is in.
    pub fn stage(&self) -> (r: BatchStage)
        ensures
            r == self.deep_view().stage,
    {
        self.stage
    }

    fn next_novel(&mut self, actions: &mut Vec<BatchAction>)
        requires
            old(self).deep_view().index <= old(self).deep_view().targets.len(),
        ensures
            final(self).deep_view() == next_novel(old(self).deep_view()).0,
            final(actions).deep_view() == old(actions).deep_view() + next_novel(
                old(self).deep_view(),
            ).1,
            final(self).wf(),
    {
        proof {
            assert(self.targets.deep_view().len() == self.targets.len());
        }
        if self.index < self.targets.len() {
            self.stage = BatchStage::Running;
            put(
                actions,
                BatchAction::Emit {
                    message: processing_text(self.index + 1, self.targets.len()),
                    status: Status::Running,
                },
            );
            put(
                actions,
                BatchAction::DownloadNovel {
                    url: self.targets[self.index].clone(),
                    chapter_count: self.count_per_novel,
                },
            );
        } else {
            self.stage = BatchStage::Done;
            put(
                actions,
                BatchAction::Emit {
                    message: copy_str("榜单扫摸全部完成!"),
                    status: Status::Completed,
                },
            );
            put(actions, BatchAction::Done);
        }
        proof {
            assert(actions.deep_view() =~= old(actions).deep_view() + next_novel(
                old(self).deep_view(),
            ).1);
        }
    }

    /// Takes one event and hands back what the host is to do next.
    pub fn step(&mut self, event: BatchEvent) -> (actions: Vec<BatchAction>)
        requires
            old(self).wf(),
        ensures
            final(self).wf(),
            final(self).deep_view() == batch_step(old(self).deep_view(), event.deep_view()).0,
            actions.deep_view() == batch_step(old(self).deep_view(), event.deep_view()).1,
    {
        let mut actions: Vec<BatchAction> = Vec::new();
        let ghost expected = batch_step(self.deep_view(), event.deep_view());
        proof {
            assert(actions.deep_view() =~= Seq::<BatchActionView>::empty());
        }
        match (self.stage, event) {
            (BatchStage::Start, BatchEvent::Begin) => {
                put(
                    &mut actions,
                    BatchAction::Emit {
                        message: copy_str("开始分析榜单..."),
                        status: Status::Running,
                    },
                );
                let platform = Platform::from_tag(self.platform_tag.as_str());
                if platform.is_some() {
                    self.stage = BatchStage::Ranking;
                    put(&mut actions, BatchAction::FetchRankList { url: self.rank_url.clone() });
                } else {
                    self.stage = BatchStage::Done;
                    let reason = concat("不支持的平台: ", self.platform_tag.as_str());
                    put(
                        &mut actions,
                        BatchAction::Emit {
                            message: concat("榜单获取失败: ", reason.as_str()),
                            status: Status::Error,
                        },
                    );
                    put(&mut actions, BatchAction::Done);
                }
                proof {
                    assert(actions.deep_view() =~= expected.1);
                }
            },
            (BatchStage::Ranking, BatchEvent::RankList(links)) => {
                self.targets = take_links(&links, self.max_novels);
                self.index = 0;
                proof {
                    assert(self.targets.deep_view().len() == self.targets.len());
                }
                put(
                    &mut actions,
                    BatchAction::Emit {
                        message: ready_text(self.targets.len()),
                        status: Status::Running,
                    },
                );
                self.next_novel(&mut actions);
                proof {
                    assert(actions.deep_view() =~= expected.1);
                }
            },
            (BatchStage::Ranking, BatchEvent::RankListFailed(error)) => {
                self.stage = BatchStage::Done;
                put(
                    &mut actions,
                    BatchAction::Emit {
                        message: concat("榜单获取失败: ", error.as_str()),
                        status: Status::Error,
                    },
                );
                put(&mut actions, BatchAction::Done);
                proof {
                    assert(actions.deep_view() =~= expected.1);
                }
            },
            (BatchStage::Running, BatchEvent::NovelFinished(title)) => {
                let message = concat3("《", title.as_str(), "》下载完成!");
                put(&mut actions, BatchAction::Log { message: message.clone() });
                put(&mut actions, BatchAction::Emit { message, status: Status::Completed });
                proof {
                    assert(self.targets.deep_view().len() == self.targets.len());
                }
                self.index = self.index + 1;
                self.next_novel(&mut actions);
                proof {
                    assert(actions.deep_view() =~= expected.1);
                }
            },
            (BatchStage::Running, BatchEvent::NovelFailed(error)) => {
                let message = concat("Skipped one: ", error.as_str());
                put(&mut actions, BatchAction::Log { message: message.clone() });
                put(&mut actions, BatchAction::Emit { message, status: Status::Error });
                proof {
                    assert(self.targets.deep_view().len() == self.targets.len());
                }
                self.index = self.index + 1;
                self.next_novel(&mut actions);
                proof {
                    assert(actions.deep_view() =~= expected.1);
                }
            },
            _ => {},
        }
        actions
    }
}

/// The batch machine run over a series of events.
pub open spec fn batch_run(batch: BatchView, events: Seq<BatchEventView>) -> (
    BatchView,
    Seq<BatchActionView>,
)
    decreases events.len(),
{
    if events.len() == 0 {
        (batch, Seq::empty())
    } else {
        let before = batch_run(batch, events.drop_last());
        let last = batch_step(before.0, events.last());
        (last.0, before.1 + last.1)
    }
}

/// The novels that the actions start, in order.
pub open spec fn started(actions: Seq<BatchActionView>) -> Seq<Seq<char>>
    decreases actions.len(),
{
    if actions.len() == 0 {
        Seq::empty()
    } else {
        let earlier = started(actions.drop_last());
        match actions.last() {
            BatchActionView::DownloadNovel { url, .. } => earlier.push(url),
            _ => earlier,
        }
    }
}

/// The messages of the `completed` and `error` events that the actions emit, in order.
pub open spec fn verdicts(actions: Seq<BatchActionView>) -> Seq<(Status, Seq<char>)>
    decreases actions.len(),
{
    if actions.len() == 0 {
        Seq::empty()
    } else {
        let earlier = verdicts(actions.drop_last());
        match actions.last() {
            BatchActionView::Emit { message, status } => if status == Status::Completed || status
                == Status::Error {
                earlier.push((status, message))
            } else {
                earlier
            },
            _ => earlier,
        }
    }
}

/// The outcomes of the novels that a run has dealt with, in the order in
/// which the host reported them.
pub open spec fn outcomes(batch: BatchView, events: Seq<BatchEventView>) -> Seq<BatchEventView>
    decreases events.len(),
{
    if events.len() == 0 {
        Seq::empty()
    } else {
        let earlier = outcomes(batch, events.drop_last());
        let before = batch_run(batch, events.drop_last()).0;
        if before.stage == BatchStage::Running && (events.last() is NovelFinished
            || events.last() is NovelFailed) {
            earlier.push(events.last())
        } else {
            earlier
        }
    }
}

/// The verdict that the outcome of one novel is reported with.
pub open spec fn verdict_of(outcome: BatchEventView) -> (Status, Seq<char>) {
    match outcome {
        BatchEventView::NovelFinished(title) => (Status::Completed, novel_done_message(title)),
        BatchEventView::NovelFailed(error) => (Status::Error, novel_skipped_message(error)),
        _ => (Status::Error, Seq::empty()),
    }
}

/// The verdicts of a batch that got its rank list: one for each novel dealt
/// with, in order, and the closing one once all are.
pub open spec fn verdicts_of(outcomes: Seq<BatchEventView>, done: bool) -> Seq<
    (Status, Seq<char>),
> {
    let each = Seq::new(outcomes.len(), |i: int| verdict_of(outcomes[i]));
    if done {
        each.push((Status::Completed, batch_done_message()))
    } else {
        each
    }
}
proof fn lemma_trace_concat(a: Seq<BatchActionView>, b: Seq<BatchActionView>)
    ensures
        started(a + b) == started(a) + started(b),
        verdicts(a + b) == verdicts(a) + verdicts(b),
    decreases b.len(),
{
    if b.len() == 0 {
        assert(a + b =~= a);
        assert(started(a) + started(b) =~= started(a));
        assert(verdicts(a) + verdicts(b) =~= verdicts(a));
    } else {
        assert((a + b).drop_last() =~= a + b.drop_last());
        assert((a + b).last() == b.last());
        lemma_trace_concat(a, b.drop_last());
        assert(started(a + b) =~= started(a) + started(b));
        assert(verdicts(a + b) =~= verdicts(a) + verdicts(b));
    }
}

proof fn lemma_step_starts(batch: BatchView, event: BatchEventView)
    requires
        batch.stage == BatchStage::Ranking || batch.stage == BatchStage::Running
            || batch.stage == BatchStage::Done,
    ensures
        started(batch_step(batch, event).1) == if batch_step(batch, event).0.stage
            == BatchStage::Running && batch_step(batch, event).1.len() > 0 {
            seq![
                batch_step(batch, event).0.targets[batch_step(batch, event).0.index as int],
            ]
        } else {
            Seq::<Seq<char>>::empty()
        },
{
    reveal_with_fuel(started, 6);
}

proof fn lemma_step_verdicts(batch: BatchView, event: BatchEventView)
    requires
        batch.stage == BatchStage::Running || batch.stage == BatchStage::Done || (batch.stage
            == BatchStage::Ranking && event is RankList),
    ensures
        verdicts(batch_step(batch, event).1) == (if batch.stage == BatchStage::Running && (
        event is NovelFinished || event is NovelFailed) {
            seq![verdict_of(event)]
        } else {
            Seq::<(Status, Seq<char>)>::empty()
        }) + (if batch_step(batch, event).0.stage == BatchStage::Done && batch.stage
            != BatchStage::Done {
            seq![(Status::Completed, batch_done_message())]
        } else {
            Seq::<(Status, Seq<char>)>::empty()
        }),
{
    reveal_with_fuel(verdicts, 6);
}

/// Rank order. Once the rank list is in, the novels are started in the order
/// of the list, at most `max_novels` of them and each after the one before it
/// has been reported; so the verdicts that are emitted, `completed` or
/// `error`, come in the order of the list, one for each novel dealt with, and
/// the closing `completed` comes last. A novel that fails does not end the batch.
pub proof fn lemma_batch_order(
    batch: BatchView,
    links: Seq<Seq<char>>,
    answers: Seq<BatchEventView>,
)
    requires
        batch.stage == BatchStage::Ranking,
    ensures
        ({
            let events = seq![BatchEventView::RankList(links)] + answers;
            let end = batch_run(batch, events);
            let met = outcomes(batch, events);
            let targets = first_links(links, batch.max_novels);
            let begun = if end.0.stage == BatchStage::Running {
                (end.0.index + 1) as int
            } else {
                end.0.index as int
            };
            &&& batch_wf(end.0)
            &&& end.0.targets == targets
            &&& end.0.stage == BatchStage::Running || end.0.stage == BatchStage::Done
            &&& end.0.stage == BatchStage::Done ==> end.0.index == targets.len()
            &&& met.len() == end.0.index
            &&& started(end.1) == targets.take(begun)
            &&& verdicts(end.1) == verdicts_of(met, end.0.stage == BatchStage::Done)
        }),
    decreases answers.len(),
{
    let first = BatchEventView::RankList(links);
    let events = seq![first] + answers;
    let targets = first_links(links, batch.max_novels);
    if answers.len() == 0 {
        assert(events.drop_last() =~= Seq::empty());
        assert(events.last() == first);
        let end = batch_run(batch, events);
        assert(batch_run(batch, events.drop_last()) == (batch, Seq::<BatchActionView>::empty()));
        assert(end.1 =~= batch_step(batch, first).1);
        assert(outcomes(batch, events.drop_last()) =~= Seq::empty());
        lemma_step_starts(batch, first);
        lemma_step_verdicts(batch, first);
        assert(started(end.1) =~= targets.take(if end.0.stage == BatchStage::Running {
            1
        } else {
            0
        }));
        assert(verdicts(end.1) =~= verdicts_of(
            outcomes(batch, events),
            end.0.stage == BatchStage::Done,
        ));
    } else {
        lemma_batch_order(batch, links, answers.drop_last());
        assert(events.drop_last() =~= seq![first] + answers.drop_last());
        assert(events.last() == answers.last());
        let before = batch_run(batch, events.drop_last());
        let earlier = outcomes(batch, events.drop_last());
        let last = batch_step(before.0, events.last());
        let end = batch_run(batch, events);
        let met = outcomes(batch, events);
        lemma_step_starts(before.0, events.last());
        lemma_step_verdicts(before.0, events.last());
        lemma_trace_concat(before.1, last.1);
        let begun = if end.0.stage == BatchStage::Running {
            (end.0.index + 1) as int
        } else {
            end.0.index as int
        };
        assert(started(end.1) =~= targets.take(begun));
        assert(verdicts(end.1) =~= verdicts_of(met, end.0.stage == BatchStage::Done));
    }
}

} // verus!
