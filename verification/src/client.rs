//! The client half: request and response frames, reading the head of a
//! streaming response, what each later frame yields, and when dropping a call
//! handle cancels the call.

use vstd::prelude::*;

use bytes::Bytes;

use crate::call::{CallEnd, SendError};
use crate::metadata::MetadataMap;
use crate::status::{Code, Status, StatusView};

verus! {

/// Aborts a call, telling the peer to stop and failing the caller's local
/// state.
///
/// Invoked from `Drop`, so it must not block, await, or wait on a bounded
/// queue: a transport whose outbound path can fill up would silently fail to
/// signal the peer and leak the call there.
///
/// Must be idempotent: both halves of a bidi call cancel independently, each
/// unaware of the other's terminal state, so `cancel` can be called twice for
/// one call. Cancelling a call that has already ended is a no-op.
///
/// When a call is cancelled while the caller still holds its response stream
/// or response future, the implementation must deliver a terminal `CallEnd` to
/// it; otherwise the caller cannot tell a cancelled call from a broken
/// transport.
pub trait Cancel: Send + Sync {
    fn cancel(&self);
}

/// A client -> server frame after the call has been opened.
pub enum RawRequestFrame {
    /// An encoded request message.
    Message(Bytes),
    /// The send half is closed; the response direction stays open. Not an
    /// abort: dropping a request sink without sending this cancels the call.
    Done,
}

/// A server -> client frame.
pub enum RawResponseFrame {
    /// Leading response metadata. At most once, before any message.
    Headers(MetadataMap),
    /// An encoded response message.
    Message(Bytes),
    /// Terminal frame; nothing follows.
    CallEnd(CallEnd),
}

/// The status of a response that ended before any status arrived.
pub open spec fn no_status_end() -> StatusView {
    StatusView { code: Code::Internal, message: "response ended without a status"@ }
}

/// What reading the head of a streaming response from its first frame
/// yields: the leading metadata and the frame to put back at the front of the
/// stream, or the status that ends the call.
pub open spec fn head_of(
    first: Option<RawResponseFrame>,
    r: Result<(MetadataMap, Option<RawResponseFrame>), Status>,
) -> bool {
    match first {
        Some(RawResponseFrame::Headers(h)) => r == Ok::<
            (MetadataMap, Option<RawResponseFrame>),
            Status,
        >((h, None)),
        Some(RawResponseFrame::Message(b)) => {
            &&& r is Ok
            &&& r->Ok_0.0@ == Map::<Seq<char>, Seq<Seq<char>>>::empty()
            &&& r->Ok_0.1 == Some(RawResponseFrame::Message(b))
        },
        Some(RawResponseFrame::CallEnd(end)) => if end.status@.code == Code::OK {
            &&& r is Ok
            &&& r->Ok_0.0@ == Map::<Seq<char>, Seq<Seq<char>>>::empty()
            &&& r->Ok_0.1 == Some(RawResponseFrame::CallEnd(end))
        } else {
            r == Err::<(MetadataMap, Option<RawResponseFrame>), Status>(end.status)
        },
        None => {
            &&& r is Err
            &&& r->Err_0@ == no_status_end()
        },
    }
}

/// Reads the head of a streaming response from its first frame: the leading
/// metadata (empty when the first frame is not a headers frame) and the frame
/// to put back at the front of the stream, or the status of a call that ended
/// non-OK before any message, or an internal error for a response that ended
/// with no frame at all.
pub fn read_head(first: Option<RawResponseFrame>) -> (r: Result<
    (MetadataMap, Option<RawResponseFrame>),
    Status,
>)
    ensures
        head_of(first, r),
{
    match first {
        Some(RawResponseFrame::Headers(headers)) => Ok((headers, None)),
        Some(RawResponseFrame::Message(body)) => Ok(
            (MetadataMap::new(), Some(RawResponseFrame::Message(body))),
        ),
        Some(RawResponseFrame::CallEnd(end)) => {
            if end.status.code() != Code::OK {
                Err(end.status)
            } else {
                Ok((MetadataMap::new(), Some(RawResponseFrame::CallEnd(end))))
            }
        },
        None => {
            let msg = "response ended without a status";
            proof {
                reveal_strlit("response ended without a status");
            }
            Err(Status::internal(msg))
        },
    }
}

/// What one frame of a streaming response yields to the caller.
pub enum StreamStep {
    /// A headers frame: already read with the head; poll again.
    Skip,
    /// A message to decode and yield; the stream ends after a message that
    /// fails to decode.
    Message(Bytes),
    /// The terminal frame: the trailers to keep, and the status to yield as
    /// the final error when the call did not end OK. The stream is done.
    End { trailers: MetadataMap, error: Option<Status> },
    /// The frames ran out with no terminal frame: plain end of stream.
    Exhausted,
}

/// The step a polled frame of a streaming response comes to.
pub open spec fn step_of(frame: Option<RawResponseFrame>) -> StreamStep {
    match frame {
        Some(RawResponseFrame::Headers(_)) => StreamStep::Skip,
        Some(RawResponseFrame::Message(b)) => StreamStep::Message(b),
        Some(RawResponseFrame::CallEnd(end)) => StreamStep::End {
            trailers: end.trailers,
            error: if end.status@.code == Code::OK {
                None
            } else {
                Some(end.status)
            },
        },
        None => StreamStep::Exhausted,
    }
}

/// What a polled frame of a streaming response yields: headers are skipped,
/// a message is handed on for decoding, the terminal frame ends the stream
/// (with its status as the last item when it is not OK), and a stream that
/// runs out just ends.
pub fn response_step(frame: Option<RawResponseFrame>) -> (r: StreamStep)
    ensures
        r == step_of(frame),
{
    match frame {
        Some(RawResponseFrame::Headers(_)) => StreamStep::Skip,
        Some(RawResponseFrame::Message(body)) => StreamStep::Message(body),
        Some(RawResponseFrame::CallEnd(end)) => {
            let CallEnd { trailers, status, single_response: _, single_headers: _ } = end;
            let error = if status.code() == Code::OK {
                None
            } else {
                Some(status)
            };
            StreamStep::End { trailers, error }
        },
        None => StreamStep::Exhausted,
    }
}

/// Whether a half of a call has ended cleanly. A call handle dropped before it
/// settles cancels the call: a request sink settles when it sends `Done`, a
/// response stream when it yields the terminal frame, a response future when
/// it resolves. Once settled, a handle stays settled.
pub struct CallGuard {
    settled: bool,
}

impl View for CallGuard {
    type V = bool;

    closed spec fn view(&self) -> bool {
        self.settled
    }
}

impl CallGuard {
    /// A handle that has not ended.
    pub fn new() -> (r: CallGuard)
        ensures
            !r@,
    {
        CallGuard { settled: false }
    }

    /// Records a request frame being sent: `Done` settles the send half.
    pub fn on_request_frame(&mut self, frame: &RawRequestFrame)
        ensures
            final(self)@ == (old(self)@ || frame is Done),
    {
        if let RawRequestFrame::Done = frame {
            self.settled = true;
        }
    }

    /// Records a response frame being yielded: the terminal frame settles the
    /// response half.
    pub fn on_response_frame(&mut self, frame: &Option<RawResponseFrame>)
        ensures
            final(self)@ == (old(self)@ || frame matches Some(RawResponseFrame::CallEnd(_))),
    {
        if let Some(RawResponseFrame::CallEnd(_)) = frame {
            self.settled = true;
        }
    }

    /// Records the single response resolving.
    pub fn on_resolved(&mut self)
        ensures
            final(self)@,
    {
        self.settled = true;
    }

    /// Whether dropping the handle now cancels the call.
    pub fn cancels_on_drop(&self) -> (r: bool)
        ensures
            r == !self@,
    {
        !self.settled
    }
}

/// Over a run of request frames from a fresh guard, the guard is settled after
/// the first `k` frames exactly when one of them was `Done`.
proof fn lemma_settled_prefix(frames: Seq<RawRequestFrame>, states: Seq<bool>, k: int)
    requires
        states.len() == frames.len() + 1,
        !states[0],
        forall|i: int| 0 <= i < frames.len() ==> states[i + 1] == (states[i] || #[trigger] frames[i] is Done),
        0 <= k <= frames.len(),
    ensures
        states[k] <==> exists|j: int| 0 <= j < k && #[trigger] frames[j] is Done,
    decreases k,
{
    if k > 0 {
        lemma_settled_prefix(frames, states, k - 1);
        assert(states[k] == (states[k - 1] || frames[k - 1] is Done));
    }
}

/// A request sink cancels its call on drop exactly when no `Done` frame went
/// through it: over any run of frames recorded with `on_request_frame` on a
/// fresh guard, `cancels_on_drop` holds at the end iff none of them was `Done`.
pub proof fn lemma_request_sink_cancels_unless_done(frames: Seq<RawRequestFrame>, states: Seq<bool>)
    requires
        states.len() == frames.len() + 1,
        !states[0],
        forall|i: int| 0 <= i < frames.len() ==> states[i + 1] == (states[i] || #[trigger] frames[i] is Done),
    ensures
        !states.last() <==> forall|i: int| 0 <= i < frames.len() ==> !(#[trigger] frames[i] is Done),
{
    lemma_settled_prefix(frames, states, frames.len() as int);
}

/// Whether a typed request sink has half-closed its call: closing sends `Done`
/// once, and only a `Done` the channel took counts; after that, closing only
/// closes the underlying sink.
pub struct HalfClose {
    done: bool,
}

impl View for HalfClose {
    type V = bool;

    closed spec fn view(&self) -> bool {
        self.done
    }
}

impl HalfClose {
    /// A sink that has not sent `Done`.
    pub fn new() -> (r: HalfClose)
        ensures
            !r@,
    {
        HalfClose { done: false }
    }

    /// Whether closing must still send `Done`.
    pub fn needs_done(&self) -> (r: bool)
        ensures
            r == !self@,
    {
        !self.done
    }

    /// Records the outcome of sending `Done`: the channel's answer, and the
    /// sink counts as half-closed once the frame went through.
    pub fn done_sent(&mut self, sent: Result<(), SendError>) -> (r: Result<(), SendError>)
        ensures
            r == sent,
            final(self)@ == (old(self)@ || sent is Ok),
    {
        if sent.is_ok() {
            self.done = true;
        }
        sent
    }
}

/// What the caller of a streaming response gets for one polled frame.
pub enum StreamPoll {
    /// Nothing yet: poll the next frame.
    Skip,
    /// A message to decode and yield.
    Decode(Bytes),
    /// The stream is over: yield this status as the last item when there is
    /// one, else end.
    Finish(Option<Status>),
}

/// A streaming response as its caller reads it: whether it has ended, and its
/// trailers once the terminal frame arrived. Once ended it stays ended: after
/// the terminal frame, after the frames ran out, or after a message that failed
/// to decode.
pub struct ResponseStreamState {
    trailers: Option<MetadataMap>,
    done: bool,
}

impl ResponseStreamState {
    /// Whether the stream has ended.
    pub closed spec fn ended(self) -> bool {
        self.done
    }

    /// The trailers, once the terminal frame arrived.
    pub closed spec fn held_trailers(self) -> Option<MetadataMap> {
        self.trailers
    }

    /// A stream that has yielded nothing.
    pub fn new() -> (r: ResponseStreamState)
        ensures
            !r.ended(),
            r.held_trailers() is None,
    {
        ResponseStreamState { trailers: None, done: false }
    }

    /// Whether the stream has ended; polling an ended stream yields its end.
    pub fn is_done(&self) -> (r: bool)
        ensures
            r == self.ended(),
    {
        self.done
    }

    /// The trailers, once the terminal frame arrived.
    pub fn trailers(&self) -> (r: Option<&MetadataMap>)
        ensures
            r is Some <==> self.held_trailers() is Some,
            r matches Some(t) ==> *t == self.held_trailers()->0,
    {
        match &self.trailers {
            Some(t) => Some(t),
            None => None,
        }
    }

    /// Takes one polled frame of a live stream: headers are skipped, a message
    /// is handed on for decoding, the terminal frame ends the stream, keeps its
    /// trailers and yields its status when it is not OK, and a stream whose
    /// frames ran out just ends.
    pub fn on_frame(&mut self, frame: Option<RawResponseFrame>) -> (r: StreamPoll)
        requires
            !old(self).ended(),
        ensures
            match step_of(frame) {
                StreamStep::Skip => r is Skip && *final(self) == *old(self),
                StreamStep::Message(b) => r == StreamPoll::Decode(b) && *final(self) == *old(self),
                StreamStep::End { trailers, error } => {
                    &&& r == StreamPoll::Finish(error)
                    &&& final(self).ended()
                    &&& final(self).held_trailers() == Some(trailers)
                },
                StreamStep::Exhausted => {
                    &&& r == StreamPoll::Finish(None)
                    &&& final(self).ended()
                    &&& final(self).held_trailers() == old(self).held_trailers()
                },
            },
    {
        match response_step(frame) {
            StreamStep::Skip => StreamPoll::Skip,
            StreamStep::Message(body) => StreamPoll::Decode(body),
            StreamStep::End { trailers, error } => {
                self.done = true;
                self.trailers = Some(trailers);
                StreamPoll::Finish(error)
            },
            StreamStep::Exhausted => {
                self.done = true;
                StreamPoll::Finish(None)
            },
        }
    }

    /// Records a decoded message: the stream ends after one that failed to
    /// decode.
    pub fn on_decoded<T>(&mut self, decoded: &Result<T, Status>)
        ensures
            final(self).ended() == (old(self).ended() || decoded is Err),
            final(self).held_trailers() == old(self).held_trailers(),
    {
        if decoded.is_err() {
            self.done = true;
        }
    }
}

/// Reading the head loses nothing: a headers frame becomes the leading
/// metadata; any other first frame of a call that goes on is put back at the
/// front of the stream unchanged (so an OK terminal frame still yields its own
/// trailers when the stream reaches it); and the head fails only for a stream
/// with no frame, or with the very status of a call that ended non-OK.
pub proof fn lemma_head_loses_nothing(
    first: Option<RawResponseFrame>,
    r: Result<(MetadataMap, Option<RawResponseFrame>), Status>,
)
    requires
        head_of(first, r),
    ensures
        first matches Some(RawResponseFrame::Headers(h)) ==> r == Ok::<
            (MetadataMap, Option<RawResponseFrame>),
            Status,
        >((h, None)),
        r is Ok && !(first matches Some(RawResponseFrame::Headers(_))) ==> r->Ok_0.1 == first
            && r->Ok_0.0@ == Map::<Seq<char>, Seq<Seq<char>>>::empty(),
        r is Ok ==> (first matches Some(RawResponseFrame::CallEnd(end)) ==> step_of(r->Ok_0.1)
            == (StreamStep::End { trailers: end.trailers, error: None })),
        r is Err ==> first is None || (first matches Some(RawResponseFrame::CallEnd(end))
            && end.status@.code != Code::OK && r->Err_0 == end.status),
{
}

} // verus!
