//! A streamed analysis as a state machine: the host posts the request and
//! reads the reply piece by piece; the machine says what to emit.

use vstd::prelude::*;
use crate::model::Status;
use crate::relay::{ChatRequest, ChatRequestView};
use crate::relay::sse::{SseParser, concat_all, lemma_split, pending, released, unbroken};
use crate::text::{concat, concat3, copy_str, from_chars, push_str};

verus! {

#[derive(Clone, Copy, Debug, PartialEq, Eq, Structural)]
pub enum StreamStage {
    Start,
    /// The request is posted.
    Connecting,
    /// The service refused; its reason is being read.
    Refused,
    /// The reply is being read.
    Streaming,
    Done,
    Failed,
}

/// What the host is asked to do; the last action of a step is the one that
/// the next event answers.
#[derive(Clone, Debug)]
pub enum StreamAction {
    /// Emit a status event.
    EmitStatus { message: String, status: Status },
    /// Emit a chunk of the analysis.
    EmitChunk { chunk: String },
    /// Post the request; answered by `Connected`, `Refused` or `SendFailed`.
    Post { request: ChatRequest },
    /// Read the body of the refusal; answered by `ErrorBody`.
    ReadErrorBody,
    /// Read the next piece of the reply; answered by `Piece`, `ReadFailed` or `End`.
    ReadPiece,
    /// The analysis is complete.
    Finished,
    /// The analysis has failed.
    Failed { message: String },
}

pub enum StreamActionView {
    EmitStatus { message: Seq<char>, status: Status },
    EmitChunk { chunk: Seq<char> },
    Post { request: ChatRequestView },
    ReadErrorBody,
    ReadPiece,
    Finished,
    Failed { message: Seq<char> },
}

impl DeepView for StreamAction {
    type V = StreamActionView;

    open spec fn deep_view(&self) -> StreamActionView {
        match self {
            StreamAction::EmitStatus { message, status } => StreamActionView::EmitStatus {
                message: message@,
                status: *status,
            },
            StreamAction::EmitChunk { chunk } => StreamActionView::EmitChunk { chunk: chunk@ },
            StreamAction::Post { request } => StreamActionView::Post {
                request: request.deep_view(),
            },
            StreamAction::ReadErrorBody => StreamActionView::ReadErrorBody,
            StreamAction::ReadPiece => StreamActionView::ReadPiece,
            StreamAction::Finished => StreamActionView::Finished,
            StreamAction::Failed { message } => StreamActionView::Failed { message: message@ },
        }
    }
}

/// What the host reports.
#[derive(Clone, Debug)]
pub enum StreamEvent {
    Begin,
    /// The service accepted the request.
    Connected,
    /// The service answered with a status that is no success; the status line.
    Refused(String),
    /// The request could not be sent; the reason.
    SendFailed(String),
    /// The body of the refusal; empty where it could not be read.
    ErrorBody(String),
    /// The next piece of the reply.
    Piece(Vec<u8>),
    /// The reply could not be read on; the reason.
    ReadFailed(String),
    /// The reply has ended.
    End,
}

pub enum StreamEventView {
    Begin,
    Connected,
    Refused(Seq<char>),
    SendFailed(Seq<char>),
    ErrorBody(Seq<char>),
    Piece(Seq<u8>),
    ReadFailed(Seq<char>),
    End,
}

impl DeepView for StreamEvent {
    type V = StreamEventView;

    open spec fn deep_view(&self) -> StreamEventView {
        match self {
            StreamEvent::Begin => StreamEventView::Begin,
            StreamEvent::Connected => StreamEventView::Connected,
            StreamEvent::Refused(status) => StreamEventView::Refused(status@),
            StreamEvent::SendFailed(e) => StreamEventView::SendFailed(e@),
            StreamEvent::ErrorBody(body) => StreamEventView::ErrorBody(body@),
            StreamEvent::Piece(bytes) => StreamEventView::Piece(bytes@),
            StreamEvent::ReadFailed(e) => StreamEventView::ReadFailed(e@),
            StreamEvent::End => StreamEventView::End,
        }
    }
}

/// A streamed analysis.
pub struct AnalysisStream {
    request: ChatRequest,
    stage: StreamStage,
    /// The status line of a refusal.
    status: String,
    parser: SseParser,
}

pub struct StreamView {
    pub request: ChatRequestView,
    pub stage: StreamStage,
    pub status: Seq<char>,
    /// The bytes of the line of the reply that is not yet complete.
    pub buffer: Seq<u8>,
}

impl DeepView for AnalysisStream {
    type V = StreamView;

    closed spec fn deep_view(&self) -> StreamView {
        StreamView {
            request: self.request.deep_view(),
            stage: self.stage,
            status: self.status@,
            buffer: self.parser@,
        }
    }
}

pub open spec fn initial_stream(request: ChatRequestView) -> StreamView {
    StreamView {
        request,
        stage: StreamStage::Start,
        status: Seq::empty(),
        buffer: Seq::empty(),
    }
}

pub open spec fn connecting_message(url: Seq<char>) -> Seq<char> {
    "Connecting to AI at "@ + url + "..."@
}

pub open spec fn complete_message() -> Seq<char> {
    "Analysis Complete"@
}

pub open spec fn request_failed_message(error: Seq<char>) -> Seq<char> {
    "Request failed: "@ + error
}

pub open spec fn api_error_message(status: Seq<char>, body: Seq<char>) -> Seq<char> {
    "API Error "@ + status + ": "@ + body
}

pub open spec fn error_report(message: Seq<char>) -> Seq<char> {
    "Error: "@ + message
}

/// The end of an analysis that failed: the failure is emitted as a status
/// and handed back.
pub open spec fn failure(message: Seq<char>) -> Seq<StreamActionView> {
    seq![
        StreamActionView::EmitStatus { message: error_report(message), status: Status::Error },
        StreamActionView::Failed { message },
    ]
}

/// One chunk event for each chunk.
pub open spec fn chunk_events(chunks: Seq<Seq<char>>) -> Seq<StreamActionView> {
    Seq::new(chunks.len(), |i: int| StreamActionView::EmitChunk { chunk: chunks[i] })
}

/// The machine. `start` is emitted before the request is posted and `done`
/// once the reply has ended; every content delta in between is emitted as a
/// chunk, in the order of the reply.
pub open spec fn stream_step(state: StreamView, event: StreamEventView) -> (
    StreamView,
    Seq<StreamActionView>,
) {
    match (state.stage, event) {
        (StreamStage::Start, StreamEventView::Begin) => (
            StreamView { stage: StreamStage::Connecting, ..state },
            seq![
                StreamActionView::EmitStatus {
                    message: connecting_message(state.request.url),
                    status: Status::Start,
                },
                StreamActionView::Post { request: state.request },
            ],
        ),
        (StreamStage::Connecting, StreamEventView::Connected) => (
            StreamView { stage: StreamStage::Streaming, ..state },
            seq![StreamActionView::ReadPiece],
        ),
        (StreamStage::Connecting, StreamEventView::Refused(status)) => (
            StreamView { stage: StreamStage::Refused, status, ..state },
            seq![StreamActionView::ReadErrorBody],
        ),
        (StreamStage::Connecting, StreamEventView::SendFailed(error)) => (
            StreamView { stage: StreamStage::Failed, ..state },
            failure(request_failed_message(error)),
        ),
        (StreamStage::Refused, StreamEventView::ErrorBody(body)) => (
            StreamView { stage: StreamStage::Failed, ..state },
            failure(api_error_message(state.status, body)),
        ),
        (StreamStage::Streaming, StreamEventView::Piece(bytes)) => {
            let read = state.buffer + bytes;
            (
                StreamView { buffer: pending(read), ..state },
                chunk_events(released(read)).push(StreamActionView::ReadPiece),
            )
        },
        (StreamStage::Streaming, StreamEventView::ReadFailed(error)) => (
            StreamView { stage: StreamStage::Failed, ..state },
            failure(error),
        ),
        (StreamStage::Streaming, StreamEventView::End) => (
            StreamView { stage: StreamStage::Done, ..state },
            seq![
                StreamActionView::EmitStatus {
                    message: complete_message(),
                    status: Status::Done,
                },
                StreamActionView::Finished,
            ],
        ),
        _ => (state, Seq::empty()),
    }
}

fn put(actions: &mut Vec<StreamAction>, action: StreamAction)
    ensures
        final(actions).deep_view() == old(actions).deep_view().push(action.deep_view()),
{
    actions.push(action);
    proof {
        assert(actions.deep_view() =~= old(actions).deep_view().push(action.deep_view()));
    }
}

fn fail(actions: &mut Vec<StreamAction>, message: String)
    ensures
        final(actions).deep_view() == old(actions).deep_view() + failure(message@),
{
    put(
        actions,
        StreamAction::EmitStatus {
            message: concat("Error: ", message.as_str()),
            status: Status::Error,
        },
    );
    put(actions, StreamAction::Failed { message });
    proof {
        assert(actions.deep_view() =~= old(actions).deep_view() + failure(message@));
    }
}

impl AnalysisStream {
    pub open spec fn wf(&self) -> bool {
        unbroken(self.deep_view().buffer)
    }

    /// An analysis that has not begun.
    pub fn new(request: ChatRequest) -> (r: Self)
        ensures
            r.wf(),
            r.deep_view() == initial_stream(request.deep_view()),
    {
        AnalysisStream {
            request,
            stage: StreamStage::Start,
            status: String::new(),
            parser: SseParser::new(),
        }
    }

    /// The stage that the analysis is in.
    pub fn stage(&self) -> (r: StreamStage)
        ensures
            r == self.deep_view().stage,
    {
        self.stage
    }
}

/// Takes one event of a streamed analysis and hands back what the host is
/// to do next.
pub fn stream_analysis(stream: &mut AnalysisStream, event: StreamEvent) -> (actions: Vec<
    StreamAction,
>)
    requires
        old(stream).wf(),
    ensures
        final(stream).wf(),
        final(stream).deep_view() == stream_step(old(stream).deep_view(), event.deep_view()).0,
        actions.deep_view() == stream_step(old(stream).deep_view(), event.deep_view()).1,
{
    let mut actions: Vec<StreamAction> = Vec::new();
    let ghost expected = stream_step(stream.deep_view(), event.deep_view());
    proof {
        assert(actions.deep_view() =~= Seq::<StreamActionView>::empty());
    }
    match (stream.stage, event) {
        (StreamStage::Start, StreamEvent::Begin) => {
            stream.stage = StreamStage::Connecting;
            put(
                &mut actions,
                StreamAction::EmitStatus {
                    message: concat3("Connecting to AI at ", stream.request.url.as_str(), "..."),
                    status: Status::Start,
                },
            );
            put(&mut actions, StreamAction::Post { request: stream.request.copy() });
            proof {
                assert(actions.deep_view() =~= expected.1);
            }
        },
        (StreamStage::Connecting, StreamEvent::Connected) => {
            stream.stage = StreamStage::Streaming;
            put(&mut actions, StreamAction::ReadPiece);
            proof {
                assert(actions.deep_view() =~= expected.1);
            }
        },
        (StreamStage::Connecting, StreamEvent::Refused(status)) => {
            stream.stage = StreamStage::Refused;
            stream.status = status;
            put(&mut actions, StreamAction::ReadErrorBody);
            proof {
                assert(actions.deep_view() =~= expected.1);
            }
        },
        (StreamStage::Connecting, StreamEvent::SendFailed(error)) => {
            stream.stage = StreamStage::Failed;
            fail(&mut actions, concat("Request failed: ", error.as_str()));
            proof {
                assert(actions.deep_view() =~= expected.1);
            }
        },
        (StreamStage::Refused, StreamEvent::ErrorBody(body)) => {
            stream.stage = StreamStage::Failed;
            let mut message: Vec<char> = Vec::new();
            push_str(&mut message, "API Error ");
            push_str(&mut message, stream.status.as_str());
            push_str(&mut message, ": ");
            push_str(&mut message, body.as_str());
            fail(&mut actions, from_chars(&message));
            proof {
                assert(actions.deep_view() =~= expected.1);
            }
        },
        (StreamStage::Streaming, StreamEvent::Piece(bytes)) => {
            let chunks = stream.parser.feed_bytes(bytes.as_slice());
            let ghost all = chunks.deep_view();
            let mut i: usize = 0;
            while i < chunks.len()
                invariant
                    i <= chunks.len(),
                    all == chunks.deep_view(),
                    actions.deep_view() == chunk_events(all).take(i as int),
                decreases chunks.len() - i,
            {
                put(&mut actions, StreamAction::EmitChunk { chunk: chunks[i].clone() });
                proof {
                    assert(actions.deep_view() =~= chunk_events(all).take(i + 1));
                }
                i += 1;
            }
            proof {
                assert(chunk_events(all).take(chunks.len() as int) =~= chunk_events(all));
            }
            put(&mut actions, StreamAction::ReadPiece);
        },
        (StreamStage::Streaming, StreamEvent::ReadFailed(error)) => {
            stream.stage = StreamStage::Failed;
            fail(&mut actions, error);
            proof {
                assert(actions.deep_view() =~= expected.1);
            }
        },
        (StreamStage::Streaming, StreamEvent::End) => {
            stream.stage = StreamStage::Done;
            put(
                &mut actions,
                StreamAction::EmitStatus {
                    message: copy_str("Analysis Complete"),
                    status: Status::Done,
                },
            );
            put(&mut actions, StreamAction::Finished);
            proof {
                assert(actions.deep_view() =~= expected.1);
            }
        },
        _ => {},
    }
    actions
}
/// The machine run over a series of events.
pub open spec fn stream_run(state: StreamView, events: Seq<StreamEventView>) -> (
    StreamView,
    Seq<StreamActionView>,
)
    decreases events.len(),
{
    if events.len() == 0 {
        (state, Seq::empty())
    } else {
        let before = stream_run(state, events.drop_last());
        let last = stream_step(before.0, events.last());
        (last.0, before.1 + last.1)
    }
}

/// The chunks that the actions emit, in order.
pub open spec fn chunks_emitted(actions: Seq<StreamActionView>) -> Seq<Seq<char>>
    decreases actions.len(),
{
    if actions.len() == 0 {
        Seq::empty()
    } else {
        let earlier = chunks_emitted(actions.drop_last());
        match actions.last() {
            StreamActionView::EmitChunk { chunk } => earlier.push(chunk),
            _ => earlier,
        }
    }
}

/// The pieces of a reply as the events that report them.
pub open spec fn piece_events(pieces: Seq<Seq<u8>>) -> Seq<StreamEventView> {
    Seq::new(pieces.len(), |i: int| StreamEventView::Piece(pieces[i]))
}

proof fn lemma_chunks_concat(a: Seq<StreamActionView>, b: Seq<StreamActionView>)
    ensures
        chunks_emitted(a + b) == chunks_emitted(a) + chunks_emitted(b),
    decreases b.len(),
{
    if b.len() == 0 {
        assert(a + b =~= a);
        assert(chunks_emitted(a) + chunks_emitted(b) =~= chunks_emitted(a));
    } else {
        assert((a + b).drop_last() =~= a + b.drop_last());
        lemma_chunks_concat(a, b.drop_last());
        assert(chunks_emitted(a + b) =~= chunks_emitted(a) + chunks_emitted(b));
    }
}

proof fn lemma_chunk_events(chunks: Seq<Seq<char>>)
    ensures
        chunks_emitted(chunk_events(chunks)) == chunks,
    decreases chunks.len(),
{
    if chunks.len() > 0 {
        lemma_chunk_events(chunks.drop_last());
        assert(chunk_events(chunks).drop_last() =~= chunk_events(chunks.drop_last()));
        assert(chunks.drop_last().push(chunks.last()) =~= chunks);
    }
}

/// The relay law. Once the service has accepted the request, the chunks
/// that are emitted while the reply is read piece by piece are those that
/// the lines of the whole reply release, in the order of the reply, wherever
/// the reply is cut into pieces; and what is held back is its last,
/// incomplete line.
pub proof fn lemma_relay(request: ChatRequestView, pieces: Seq<Seq<u8>>)
    ensures
        ({
            let events = seq![StreamEventView::Begin, StreamEventView::Connected] + piece_events(
                pieces,
            );
            let end = stream_run(initial_stream(request), events);
            let reply = concat_all(pieces);
            &&& end.0.stage == StreamStage::Streaming
            &&& end.0.buffer == pending(reply)
            &&& chunks_emitted(end.1) == released(reply)
        }),
    decreases pieces.len(),
{
    let start = initial_stream(request);
    let opening = seq![StreamEventView::Begin, StreamEventView::Connected];
    let events = opening + piece_events(pieces);
    if pieces.len() == 0 {
        reveal_with_fuel(stream_run, 3);
        reveal_with_fuel(chunks_emitted, 4);
        assert(events =~= opening);
        assert(events.drop_last() =~= seq![StreamEventView::Begin]);
        assert(events.drop_last().drop_last() =~= Seq::empty());
    } else {
        let front = pieces.drop_last();
        lemma_relay(request, front);
        assert(events.drop_last() =~= opening + piece_events(front));
        assert(events.last() == StreamEventView::Piece(pieces.last()));
        let before = stream_run(start, events.drop_last());
        let last = stream_step(before.0, events.last());
        let read = concat_all(front);
        let piece = pieces.last();
        lemma_split(read, piece);
        lemma_chunks_concat(before.1, last.1);
        lemma_chunk_events(released(before.0.buffer + piece));
        let emitted = chunk_events(released(before.0.buffer + piece));
        assert(emitted.push(StreamActionView::ReadPiece).drop_last() =~= emitted);
    }
}

} // verus!
