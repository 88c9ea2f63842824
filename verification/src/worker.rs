//! The browser worker: a hidden web view that loads one page, waits until it
//! looks ready and hands its HTML back. What stands here is what the worker
//! is told and how its end is read; the host owns the web view.

use vstd::prelude::*;
use crate::number::{decimal, push_decimal};
use crate::text::{
    chars_replace_all, concat, copy_str, from_chars, join, push_all, push_str, replace_all,
    to_chars,
};

verus! {

/// The label of the worker's window, of which there is one at a time.
pub const WORKER_LABEL: &'static str = "spider_worker";

/// The event by which the page hands its HTML back; its payload has the one field `html`.
pub const RESPONSE_EVENT: &'static str = "spider_response";

pub const WINDOW_TITLE: &'static str = "Spider Worker";

pub const USER_AGENT: &'static str =
    "Mozilla/5.0 (Macintosh; Intel Mac OS X 10_15_7) AppleWebKit/537.36 (KHTML, like Gecko) Chrome/120.0.0.0 Safari/537.36";

/// How long the host waits for the page, in seconds.
pub const TIMEOUT_SECONDS: u64 = 45;

pub const SCRIPT_HEAD: &'static str =
    "(() => {\n  let sent = false;\n  const emitOnce = () => {\n    if (sent) return;\n    sent = true;\n    try {\n      const html = document.documentElement?.outerHTML || document.body?.outerHTML || '';\n      window.__TAURI__?.event?.emit('spider_response', { html });\n    } catch (e) {\n      window.__TAURI__?.event?.emit('spider_response', { html: '' });\n    }\n  };\n  const scheduleSend = (delay) => { setTimeout(emitOnce, delay); };\n  const signals = [";

pub const SCRIPT_PROBE: &'static str =
    "];\n  const checkAndSend = () => {\n    if (signals.some((s) => document.querySelector(s))) {\n      scheduleSend(";

pub const SCRIPT_ELSE: &'static str = ");\n    } else {\n      scheduleSend(";

pub const SCRIPT_READY: &'static str =
    ");\n    }\n  };\n  if (document.readyState === 'complete' || document.readyState === 'interactive') {\n    checkAndSend();\n  } else {\n    window.addEventListener('DOMContentLoaded', checkAndSend, { once: true });\n  }\n  scheduleSend(";

pub const SCRIPT_TAIL: &'static str = ");\n})();";

/// When a page counts as ready.
#[derive(Clone, Debug)]
pub struct Probe {
    /// The selectors of which one must match for the page to count as rendered.
    pub signals: Vec<String>,
    /// How long after a signal was found the page is harvested, in milliseconds.
    pub found_delay: u64,
    /// How long after no signal was found the page is harvested.
    pub missing_delay: u64,
    /// How long after the script started the page is harvested at the latest.
    pub hard_delay: u64,
}

pub struct ProbeView {
    pub signals: Seq<Seq<char>>,
    pub found_delay: u64,
    pub missing_delay: u64,
    pub hard_delay: u64,
}

impl DeepView for Probe {
    type V = ProbeView;

    open spec fn deep_view(&self) -> ProbeView {
        ProbeView {
            signals: self.signals.deep_view(),
            found_delay: self.found_delay,
            missing_delay: self.missing_delay,
            hard_delay: self.hard_delay,
        }
    }
}

/// The probe for the pages of Qidian: catalog items, the chapter title,
/// the book's introduction and the main content; two seconds of grace once
/// one is there, five where none is, ten at the latest.
pub open spec fn default_probe() -> ProbeView {
    ProbeView {
        signals: seq![
            ".y-list__item"@,
            ".chapter-li-a"@,
            ".j_chapterName"@,
            ".book-intro"@,
            "main.content"@,
        ],
        found_delay: 2000,
        missing_delay: 5000,
        hard_delay: 10000,
    }
}

/// A selector as a script literal: in single quotes, with backslashes and
/// single quotes escaped.
pub open spec fn quoted(selector: Seq<char>) -> Seq<char> {
    "'"@ + replace_all(replace_all(selector, "\\"@, "\\\\"@), "'"@, "\\'"@) + "'"@
}

/// The selectors as script literals, in their order.
pub open spec fn quoted_all(signals: Seq<Seq<char>>) -> Seq<Seq<char>> {
    Seq::new(signals.len(), |i: int| quoted(signals[i]))
}

/// The script that is injected into the page. It emits the page's HTML once:
/// after the grace period once the page is ready to be probed, and after
/// the hard delay whatever happens.
pub open spec fn probe_script(probe: ProbeView) -> Seq<char> {
    SCRIPT_HEAD@ + join(quoted_all(probe.signals), ", "@) + SCRIPT_PROBE@ + decimal(
        probe.found_delay as nat,
    ) + SCRIPT_ELSE@ + decimal(probe.missing_delay as nat) + SCRIPT_READY@ + decimal(
        probe.hard_delay as nat,
    ) + SCRIPT_TAIL@
}

/// What the host is told to set the worker up with.
#[derive(Clone, Debug)]
pub struct WorkerPlan {
    pub label: String,
    pub event: String,
    pub title: String,
    pub url: String,
    pub visible: bool,
    pub user_agent: String,
    pub script: String,
    pub timeout_seconds: u64,
}

pub struct WorkerPlanView {
    pub label: Seq<char>,
    pub event: Seq<char>,
    pub title: Seq<char>,
    pub url: Seq<char>,
    pub visible: bool,
    pub user_agent: Seq<char>,
    pub script: Seq<char>,
    pub timeout_seconds: u64,
}

impl DeepView for WorkerPlan {
    type V = WorkerPlanView;

    open spec fn deep_view(&self) -> WorkerPlanView {
        WorkerPlanView {
            label: self.label@,
            event: self.event@,
            title: self.title@,
            url: self.url@,
            visible: self.visible,
            user_agent: self.user_agent@,
            script: self.script@,
            timeout_seconds: self.timeout_seconds,
        }
    }
}

/// What `url::Url::parse` objects to in an address; `None` where it is an
/// absolute URL.
pub uninterp spec fn address_error(url: Seq<char>) -> Option<Seq<char>>;

/// `url::Url::parse`: whether `url` is an absolute URL, and the error's
/// `Display` where it is not. The result is a function of the text alone.
#[verifier::external_body]
pub(crate) fn check_address(url: &str) -> (r: Option<String>)
    ensures
        r.deep_view() == address_error(url@),
{
    url::Url::parse(url).err().map(|e| e.to_string())
}

/// The plan for the page at `url`, by what is objected to in the address.
pub open spec fn plan_of(
    objection: Option<Seq<char>>,
    url: Seq<char>,
    debug_visible: bool,
    probe: ProbeView,
) -> Result<WorkerPlanView, Seq<char>> {
    match objection {
        Some(complaint) => Err(complaint),
        None => Ok(
            WorkerPlanView {
                label: WORKER_LABEL@,
                event: RESPONSE_EVENT@,
                title: WINDOW_TITLE@,
                url,
                visible: debug_visible,
                user_agent: USER_AGENT@,
                script: probe_script(probe),
                timeout_seconds: TIMEOUT_SECONDS,
            },
        ),
    }
}

pub open spec fn plan_view(r: Result<WorkerPlan, String>) -> Result<WorkerPlanView, Seq<char>> {
    match r {
        Ok(plan) => Ok(plan.deep_view()),
        Err(e) => Err(e@),
    }
}

impl Probe {
    /// The probe for the pages of Qidian.
    pub fn platform_default() -> (r: Probe)
        ensures
            r.deep_view() == default_probe(),
    {
        let mut signals: Vec<String> = Vec::new();
        signals.push(copy_str(".y-list__item"));
        signals.push(copy_str(".chapter-li-a"));
        signals.push(copy_str(".j_chapterName"));
        signals.push(copy_str(".book-intro"));
        signals.push(copy_str("main.content"));
        proof {
            assert(signals.deep_view() =~= default_probe().signals);
        }
        Probe { signals, found_delay: 2000, missing_delay: 5000, hard_delay: 10000 }
    }

    /// The script that is injected into the page.
    pub fn script(&self) -> (r: String)
        ensures
            r@ == probe_script(self.deep_view()),
    {
        let ghost literals = quoted_all(self.signals.deep_view());
        let mut out = to_chars(SCRIPT_HEAD);
        let ghost head = out@;
        let mut i: usize = 0;
        proof {
            assert(literals.take(0) =~= Seq::<Seq<char>>::empty());
            assert(head + join(literals.take(0), ", "@) =~= head);
        }
        while i < self.signals.len()
            invariant
                i <= self.signals.len(),
                literals == quoted_all(self.signals.deep_view()),
                out@ == head + join(literals.take(i as int), ", "@),
            decreases self.signals.len() - i,
        {
            let ghost before = literals.take(i as int);
            let ghost next = literals.take(i + 1);
            proof {
                assert(next.drop_last() =~= before);
                assert(next.last() == quoted(self.signals@[i as int]@));
            }
            if i > 0 {
                push_str(&mut out, ", ");
            }
            let selector = to_chars(self.signals[i].as_str());
            let escaped = chars_replace_all(
                &chars_replace_all(&selector, &to_chars("\\"), &to_chars("\\\\")),
                &to_chars("'"),
                &to_chars("\\'"),
            );
            push_str(&mut out, "'");
            push_all(&mut out, &escaped);
            push_str(&mut out, "'");
            proof {
                let q = quoted(self.signals@[i as int]@);
                if i == 0 {
                    assert(out@ =~= head + q);
                } else {
                    assert(out@ =~= head + (join(before, ", "@) + ", "@ + q));
                }
            }
            i += 1;
        }
        proof {
            assert(literals.take(self.signals.len() as int) =~= literals);
        }
        push_str(&mut out, SCRIPT_PROBE);
        push_decimal(&mut out, self.found_delay);
        push_str(&mut out, SCRIPT_ELSE);
        push_decimal(&mut out, self.missing_delay);
        push_str(&mut out, SCRIPT_READY);
        push_decimal(&mut out, self.hard_delay);
        push_str(&mut out, SCRIPT_TAIL);
        from_chars(&out)
    }
}

/// The plan for the page at `url`, given what is objected to in the address.
pub fn plan_for(objection: Option<String>, url: &str, debug_visible: bool, probe: &Probe) -> (r:
    Result<WorkerPlan, String>)
    ensures
        plan_view(r) == plan_of(objection.deep_view(), url@, debug_visible, probe.deep_view()),
{
    match objection {
        Some(complaint) => Err(complaint),
        None => Ok(
            WorkerPlan {
                label: copy_str(WORKER_LABEL),
                event: copy_str(RESPONSE_EVENT),
                title: copy_str(WINDOW_TITLE),
                url: copy_str(url),
                visible: debug_visible,
                user_agent: copy_str(USER_AGENT),
                script: probe.script(),
                timeout_seconds: TIMEOUT_SECONDS,
            },
        ),
    }
}

#[derive(Clone, Copy, Debug, PartialEq, Eq, Structural)]
pub enum WorkerStage {
    Start,
    /// The window is being built.
    Building,
    /// The page is awaited.
    Waiting,
    Done,
}

/// What the host is asked to do; the last action of a step is the one that
/// the next event answers.
#[derive(Clone, Debug)]
pub enum WorkerAction {
    /// Close the window with this label, if there is one.
    CloseWindow { label: String },
    /// Listen for the event by which the page hands its HTML back.
    Listen { event: String },
    /// Build the window; answered by `Built` or `BuildFailed`.
    Build { plan: WorkerPlan },
    /// Wait for the page; answered by `Page`, `ChannelClosed` or `TimedOut`.
    Wait { seconds: u64 },
    /// Stop listening.
    Unlisten,
    /// The fetch is over: the page, which may be empty.
    Finished { html: String },
    /// The fetch is over and gave no page; the reason.
    Failed { message: String },
}

pub enum WorkerActionView {
    CloseWindow { label: Seq<char> },
    Listen { event: Seq<char> },
    Build { plan: WorkerPlanView },
    Wait { seconds: u64 },
    Unlisten,
    Finished { html: Seq<char> },
    Failed { message: Seq<char> },
}

impl DeepView for WorkerAction {
    type V = WorkerActionView;

    open spec fn deep_view(&self) -> WorkerActionView {
        match self {
            WorkerAction::CloseWindow { label } => WorkerActionView::CloseWindow { label: label@ },
            WorkerAction::Listen { event } => WorkerActionView::Listen { event: event@ },
            WorkerAction::Build { plan } => WorkerActionView::Build { plan: plan.deep_view() },
            WorkerAction::Wait { seconds } => WorkerActionView::Wait { seconds: *seconds },
            WorkerAction::Unlisten => WorkerActionView::Unlisten,
            WorkerAction::Finished { html } => WorkerActionView::Finished { html: html@ },
            WorkerAction::Failed { message } => WorkerActionView::Failed { message: message@ },
        }
    }
}

/// What the host reports.
#[derive(Clone, Debug)]
pub enum WorkerEvent {
    Begin,
    /// The window is there.
    Built,
    /// The window could not be created; the reason.
    BuildFailed(String),
    /// The page handed its HTML back, which may be empty.
    Page(String),
    /// The channel closed before anything arrived.
    ChannelClosed,
    /// Nothing arrived in time.
    TimedOut,
}

pub enum WorkerEventView {
    Begin,
    Built,
    BuildFailed(Seq<char>),
    Page(Seq<char>),
    ChannelClosed,
    TimedOut,
}

impl DeepView for WorkerEvent {
    type V = WorkerEventView;

    open spec fn deep_view(&self) -> WorkerEventView {
        match self {
            WorkerEvent::Begin => WorkerEventView::Begin,
            WorkerEvent::Built => WorkerEventView::Built,
            WorkerEvent::BuildFailed(e) => WorkerEventView::BuildFailed(e@),
            WorkerEvent::Page(html) => WorkerEventView::Page(html@),
            WorkerEvent::ChannelClosed => WorkerEventView::ChannelClosed,
            WorkerEvent::TimedOut => WorkerEventView::TimedOut,
        }
    }
}

/// One fetch through the worker.
pub struct WorkerSession {
    plan: WorkerPlan,
    stage: WorkerStage,
}

pub struct SessionView {
    pub plan: WorkerPlanView,
    pub stage: WorkerStage,
}

impl DeepView for WorkerSession {
    type V = SessionView;

    closed spec fn deep_view(&self) -> SessionView {
        SessionView { plan: self.plan.deep_view(), stage: self.stage }
    }
}

/// The action that ends a fetch with the given outcome.
pub open spec fn finish(outcome: Result<Seq<char>, Seq<char>>) -> WorkerActionView {
    match outcome {
        Ok(html) => WorkerActionView::Finished { html },
        Err(message) => WorkerActionView::Failed { message },
    }
}

pub open spec fn window_failed_message(error: Seq<char>) -> Seq<char> {
    "Failed to create window: "@ + error
}

pub open spec fn channel_closed_message() -> Seq<char> {
    "Channel closed"@
}

pub open spec fn timeout_message() -> Seq<char> {
    "Timeout waiting for spider"@
}

/// What a wait for the page comes to. A page counts as fetched even where
/// it is empty.
pub open spec fn waited(event: WorkerEventView) -> Option<Result<Seq<char>, Seq<char>>> {
    match event {
        WorkerEventView::Page(html) => Some(Ok(html)),
        WorkerEventView::ChannelClosed => Some(Err(channel_closed_message())),
        WorkerEventView::TimedOut => Some(Err(timeout_message())),
        _ => None,
    }
}

/// The worker's protocol. A window left over under the worker's label is
/// closed before the new one is built; whatever comes of the wait, the
/// listener is removed and the window closed before the fetch is over. An
/// event that does not answer what the state waits for changes nothing and
/// asks for nothing.
pub open spec fn worker_step(session: SessionView, event: WorkerEventView) -> (
    SessionView,
    Seq<WorkerActionView>,
) {
    match (session.stage, event) {
        (WorkerStage::Start, WorkerEventView::Begin) => (
            SessionView { stage: WorkerStage::Building, ..session },
            seq![
                WorkerActionView::CloseWindow { label: session.plan.label },
                WorkerActionView::Listen { event: session.plan.event },
                WorkerActionView::Build { plan: session.plan },
            ],
        ),
        (WorkerStage::Building, WorkerEventView::Built) => (
            SessionView { stage: WorkerStage::Waiting, ..session },
            seq![WorkerActionView::Wait { seconds: session.plan.timeout_seconds }],
        ),
        (WorkerStage::Building, WorkerEventView::BuildFailed(error)) => (
            SessionView { stage: WorkerStage::Done, ..session },
            seq![
                WorkerActionView::Unlisten,
                WorkerActionView::Failed { message: window_failed_message(error) },
            ],
        ),
        (WorkerStage::Waiting, _) => match waited(event) {
            Some(outcome) => (
                SessionView { stage: WorkerStage::Done, ..session },
                seq![
                    WorkerActionView::Unlisten,
                    WorkerActionView::CloseWindow { label: session.plan.label },
                    finish(outcome),
                ],
            ),
            None => (session, Seq::empty()),
        },
        _ => (session, Seq::empty()),
    }
}

/// A session that has not begun.
pub open spec fn session_of(plan: Result<WorkerPlanView, Seq<char>>) -> Result<
    SessionView,
    Seq<char>,
> {
    match plan {
        Ok(plan) => Ok(SessionView { plan, stage: WorkerStage::Start }),
        Err(complaint) => Err(complaint),
    }
}

pub open spec fn session_view(r: Result<WorkerSession, String>) -> Result<SessionView, Seq<char>> {
    match r {
        Ok(session) => Ok(session.deep_view()),
        Err(e) => Err(e@),
    }
}

fn put(actions: &mut Vec<WorkerAction>, action: WorkerAction)
    ensures
        final(actions).deep_view() == old(actions).deep_view().push(action.deep_view()),
{
    actions.push(action);
    proof {
        assert(actions.deep_view() =~= old(actions).deep_view().push(action.deep_view()));
    }
}

impl WorkerPlan {
    /// A copy of the plan.
    pub fn copy(&self) -> (r: WorkerPlan)
        ensures
            r.deep_view() == self.deep_view(),
    {
        WorkerPlan {
            label: self.label.clone(),
            event: self.event.clone(),
            title: self.title.clone(),
            url: self.url.clone(),
            visible: self.visible,
            user_agent: self.user_agent.clone(),
            script: self.script.clone(),
            timeout_seconds: self.timeout_seconds,
        }
    }
}

impl WorkerSession {
    /// A session for a plan, or the objection to the address.
    pub fn new(plan: Result<WorkerPlan, String>) -> (r: Result<WorkerSession, String>)
        ensures
            session_view(r) == session_of(plan_view(plan)),
    {
        match plan {
            Ok(plan) => Ok(WorkerSession { plan, stage: WorkerStage::Start }),
            Err(complaint) => Err(complaint),
        }
    }

    /// The stage that the session is in.
    pub fn stage(&self) -> (r: WorkerStage)
        ensures
            r == self.deep_view().stage,
    {
        self.stage
    }

    /// Takes one event and hands back what the host is to do next.
    pub fn step(&mut self, event: WorkerEvent) -> (actions: Vec<WorkerAction>)
        ensures
            final(self).deep_view() == worker_step(old(self).deep_view(), event.deep_view()).0,
            actions.deep_view() == worker_step(old(self).deep_view(), event.deep_view()).1,
    {
        let mut actions: Vec<WorkerAction> = Vec::new();
        let ghost expected = worker_step(self.deep_view(), event.deep_view());
        proof {
            assert(actions.deep_view() =~= Seq::<WorkerActionView>::empty());
        }
        match (self.stage, event) {
            (WorkerStage::Start, WorkerEvent::Begin) => {
                self.stage = WorkerStage::Building;
                put(&mut actions, WorkerAction::CloseWindow { label: self.plan.label.clone() });
                put(&mut actions, WorkerAction::Listen { event: self.plan.event.clone() });
                put(&mut actions, WorkerAction::Build { plan: self.plan.copy() });
            },
            (WorkerStage::Building, WorkerEvent::Built) => {
                self.stage = WorkerStage::Waiting;
                put(&mut actions, WorkerAction::Wait { seconds: self.plan.timeout_seconds });
            },
            (WorkerStage::Building, WorkerEvent::BuildFailed(error)) => {
                self.stage = WorkerStage::Done;
                put(&mut actions, WorkerAction::Unlisten);
                put(
                    &mut actions,
                    WorkerAction::Failed {
                        message: concat("Failed to create window: ", error.as_str()),
                    },
                );
            },
            (WorkerStage::Waiting, WorkerEvent::Page(html)) => {
                self.finish(&mut actions, WorkerAction::Finished { html });
            },
            (WorkerStage::Waiting, WorkerEvent::ChannelClosed) => {
                self.finish(
                    &mut actions,
                    WorkerAction::Failed { message: copy_str("Channel closed") },
                );
            },
            (WorkerStage::Waiting, WorkerEvent::TimedOut) => {
                self.finish(
                    &mut actions,
                    WorkerAction::Failed { message: copy_str("Timeout waiting for spider") },
                );
            },
            _ => {},
        }
        proof {
            assert(actions.deep_view() =~= expected.1);
        }
        actions
    }

    fn finish(&mut self, actions: &mut Vec<WorkerAction>, last: WorkerAction)
        ensures
            final(self).deep_view() == (SessionView {
                stage: WorkerStage::Done,
                ..old(self).deep_view()
            }),
            final(actions).deep_view() == old(actions).deep_view() + seq![
                WorkerActionView::Unlisten,
                WorkerActionView::CloseWindow { label: old(self).deep_view().plan.label },
                last.deep_view(),
            ],
    {
        self.stage = WorkerStage::Done;
        put(actions, WorkerAction::Unlisten);
        put(actions, WorkerAction::CloseWindow { label: self.plan.label.clone() });
        put(actions, last);
        proof {
            assert(actions.deep_view() =~= old(actions).deep_view() + seq![
                WorkerActionView::Unlisten,
                WorkerActionView::CloseWindow { label: old(self).deep_view().plan.label },
                last.deep_view(),
            ]);
        }
    }
}

/// Prepares the fetch of the page at `url` through the worker: the session
/// to run, or the objection where `url` is no absolute URL.
pub fn fetch_via_window(url: &str, debug_visible: bool) -> (r: Result<WorkerSession, String>)
    ensures
        session_view(r) == session_of(
            plan_of(address_error(url@), url@, debug_visible, default_probe()),
        ),
{
    let probe = Probe::platform_default();
    WorkerSession::new(plan_for(check_address(url), url, debug_visible, &probe))
}

/// The session run over a series of events.
pub open spec fn worker_run(session: SessionView, events: Seq<WorkerEventView>) -> (
    SessionView,
    Seq<WorkerActionView>,
)
    decreases events.len(),
{
    if events.len() == 0 {
        (session, Seq::empty())
    } else {
        let before = worker_run(session, events.drop_last());
        let last = worker_step(before.0, events.last());
        (last.0, before.1 + last.1)
    }
}

/// How many of the actions are of the kind that `of_kind` picks.
pub open spec fn count_actions(
    actions: Seq<WorkerActionView>,
    of_kind: spec_fn(WorkerActionView) -> bool,
) -> nat
    decreases actions.len(),
{
    if actions.len() == 0 {
        0
    } else {
        count_actions(actions.drop_last(), of_kind) + if of_kind(actions.last()) {
            1nat
        } else {
            0nat
        }
    }
}

/// How many of the events report a window that was built, as far as the
/// session was waiting for one.
pub open spec fn windows_built(session: SessionView, events: Seq<WorkerEventView>) -> nat
    decreases events.len(),
{
    if events.len() == 0 {
        0
    } else {
        let before = worker_run(session, events.drop_last()).0;
        windows_built(session, events.drop_last()) + if before.stage == WorkerStage::Building
            && events.last() is Built {
            1nat
        } else {
            0nat
        }
    }
}

pub open spec fn is_listen(action: WorkerActionView) -> bool {
    action is Listen
}

pub open spec fn is_unlisten(action: WorkerActionView) -> bool {
    action is Unlisten
}

pub open spec fn is_finish(action: WorkerActionView) -> bool {
    action is Finished || action is Failed
}

proof fn lemma_count_concat(
    a: Seq<WorkerActionView>,
    b: Seq<WorkerActionView>,
    of_kind: spec_fn(WorkerActionView) -> bool,
)
    ensures
        count_actions(a + b, of_kind) == count_actions(a, of_kind) + count_actions(b, of_kind),
    decreases b.len(),
{
    if b.len() == 0 {
        assert(a + b =~= a);
    } else {
        assert((a + b).drop_last() =~= a + b.drop_last());
        lemma_count_concat(a, b.drop_last(), of_kind);
    }
}

proof fn lemma_step_counts(session: SessionView, event: WorkerEventView)
    ensures
        ({
            let next = worker_step(session, event);
            let begins = session.stage == WorkerStage::Start && event is Begin;
            let ends = next.0.stage == WorkerStage::Done && session.stage != WorkerStage::Done;
            &&& count_actions(next.1, |a: WorkerActionView| is_listen(a)) == if begins {
                1nat
            } else {
                0nat
            }
            &&& count_actions(next.1, |a: WorkerActionView| is_unlisten(a)) == if ends {
                1nat
            } else {
                0nat
            }
            &&& count_actions(next.1, |a: WorkerActionView| is_finish(a)) == if ends {
                1nat
            } else {
                0nat
            }
            &&& ends && session.stage == WorkerStage::Waiting ==> next.1.len() == 3
                && next.1[0] is Unlisten && next.1[1] == (WorkerActionView::CloseWindow {
                label: session.plan.label,
            }) && is_finish(next.1[2])
            &&& ends && session.stage != WorkerStage::Waiting ==> session.stage
                == WorkerStage::Building
        }),
{
    reveal_with_fuel(count_actions, 4);
}

/// Nothing is left behind. Whatever the host reports, a listener is
/// registered once and removed once by the time the fetch is over, and the
/// fetch is over once; and where a window was built, the step that ends the
/// fetch closes it after it has removed the listener and before it hands the
/// outcome back.
pub proof fn lemma_teardown(plan: WorkerPlanView, events: Seq<WorkerEventView>)
    ensures
        ({
            let start = SessionView { plan, stage: WorkerStage::Start };
            let end = worker_run(start, events);
            let listens = count_actions(end.1, |a: WorkerActionView| is_listen(a));
            let unlistens = count_actions(end.1, |a: WorkerActionView| is_unlisten(a));
            let finishes = count_actions(end.1, |a: WorkerActionView| is_finish(a));
            let built = windows_built(start, events);
            &&& end.0.plan == plan
            &&& listens == if end.0.stage == WorkerStage::Start {
                0nat
            } else {
                1nat
            }
            &&& unlistens == if end.0.stage == WorkerStage::Done {
                1nat
            } else {
                0nat
            }
            &&& finishes == unlistens
            &&& built <= 1
            &&& end.0.stage == WorkerStage::Waiting ==> built == 1
            &&& end.0.stage == WorkerStage::Start || end.0.stage == WorkerStage::Building
                ==> built == 0
            &&& end.0.stage == WorkerStage::Done && built == 1 ==> end.1.len() >= 3 && end.1[end.1.len()
                - 3] is Unlisten && end.1[end.1.len() - 2] == (WorkerActionView::CloseWindow {
                label: plan.label,
            }) && is_finish(end.1.last())
        }),
    decreases events.len(),
{
    let start = SessionView { plan, stage: WorkerStage::Start };
    if events.len() > 0 {
        lemma_teardown(plan, events.drop_last());
        let before = worker_run(start, events.drop_last());
        let last = worker_step(before.0, events.last());
        lemma_step_counts(before.0, events.last());
        lemma_count_concat(before.1, last.1, |a: WorkerActionView| is_listen(a));
        lemma_count_concat(before.1, last.1, |a: WorkerActionView| is_unlisten(a));
        lemma_count_concat(before.1, last.1, |a: WorkerActionView| is_finish(a));
    }
}

} // verus!
