//! The client's side of a connection: the calls that wait for an answer, what
//! becomes of the frames that come in, and when a call is tried again.

use std::collections::HashMap;

use bytes::Bytes;

use crate::frame::{encode_message, Frame, FrameModel, FrameType};
use crate::text::{contains_text, has_substring};
use crate::wire::{buffer_contents, buffer_from, buffer_slice, decode_reply, decode_string,
    decoded_reply, decoded_string, encode_string, encoded_string, string_round_trip};
use vstd::prelude::*;

verus! {

broadcast use vstd::std_specs::hash::group_hash_axioms;

/// Who waits for the answer to a call: `U` takes the answer of a unary call,
/// `S` the frames of a streaming one.
#[derive(Debug)]
pub enum PendingRequest<U, S> {
    /// A unary call that waits for its only answer.
    Unary(U),
    /// A streaming call that takes many frames.
    Stream(S),
}

/// A frame of a streaming answer.
#[derive(Debug)]
pub struct StreamFrame {
    pub frame_type: FrameType,
    pub payload: Bytes,
}

/// Why a call failed.
#[derive(Debug)]
pub enum CallError {
    /// The connection could not be established anew.
    Connect(String),
    /// The request could not be serialized.
    Encode(String),
    /// The request could not be sent.
    Send(String),
    /// The connection was lost before the answer came.
    Cancelled,
    /// The answer could not be read.
    Decode(String),
    /// The server answered with an error.
    Remote(String),
}

impl CallError {
    /// The text that describes the error.
    pub open spec fn spec_message(self) -> Seq<char> {
        match self {
            CallError::Connect(text) => text@,
            CallError::Encode(text) => text@,
            CallError::Send(text) => text@,
            CallError::Cancelled => "Request cancelled - connection lost"@,
            CallError::Decode(text) => text@,
            CallError::Remote(text) => text@,
        }
    }

    /// The text that describes the error.
    pub fn message(&self) -> (text: String)
        ensures
            text@ == self.spec_message(),
    {
        match self {
            CallError::Connect(text) => text.clone(),
            CallError::Encode(text) => text.clone(),
            CallError::Send(text) => text.clone(),
            CallError::Cancelled => "Request cancelled - connection lost".to_string(),
            CallError::Decode(text) => text.clone(),
            CallError::Remote(text) => text.clone(),
        }
    }

    /// Whether it was the connection that failed, and not the request, the
    /// answer or the method that was called.
    pub open spec fn is_of_connection(self) -> bool {
        self is Connect || self is Send || self is Cancelled
    }

    /// Whether it was the connection that failed.
    pub fn is_connection_failure(&self) -> (failure: bool)
        ensures
            failure == self.is_of_connection(),
    {
        match self {
            CallError::Connect(_) | CallError::Send(_) | CallError::Cancelled => true,
            CallError::Encode(_) | CallError::Decode(_) | CallError::Remote(_) => false,
        }
    }
}

/// What the client does with a frame that it has read.
#[derive(Debug)]
pub enum Delivery<U, S> {
    /// Hands the payload to the unary call that waited for it.
    Complete(U, Bytes),
    /// Hands the frame to the streaming call, which stays registered.
    Forward(StreamFrame),
    /// Hands the frame to the streaming call, which it ends.
    Finish(S, StreamFrame),
    /// Nothing: no call of that kind waits for the frame.
    Discard,
    /// Nothing, with a warning: a client is sent no requests.
    Unexpected,
}

/// The state of a client connection.
#[derive(Debug)]
pub struct ClientInner<U, S> {
    /// The address of the server.
    pub addr: String,
    /// The calls that wait for an answer, by request.
    pub pending: HashMap<u64, PendingRequest<U, S>>,
    /// The number of the next request.
    pub next_request_id: u64,
    /// Whether answers are being read.
    pub connected: bool,
}

/// The number after `id`; after the largest comes zero.
pub open spec fn id_after(id: u64) -> u64 {
    if id == u64::MAX {
        0
    } else {
        (id + 1) as u64
    }
}

impl<U, S> ClientInner<U, S> {
    /// Whether every call that waits has a number that was given out: one, or
    /// a later one, before the next. Nobody waits without a connection.
    pub open spec fn wf(self) -> bool {
        &&& self.next_request_id >= 1
        &&& forall|id: u64| #[trigger]
            self.pending@.contains_key(id) ==> self.connected && 1 <= id < self.next_request_id
    }

    /// The state of a connection on which nothing was called yet.
    pub fn new(addr: &str) -> (inner: Self)
        ensures
            inner.addr@ == addr@,
            inner.pending@ == Map::<u64, PendingRequest<U, S>>::empty(),
            inner.next_request_id == 1,
            inner.connected,
            inner.wf(),
    {
        ClientInner {
            addr: addr.to_string(),
            pending: HashMap::new(),
            next_request_id: 1,
            connected: true,
        }
    }

    /// Begins a call: gives out a request number and, if the request could be
    /// serialized and there is a connection, registers who waits for the answer
    /// and returns the number and the message to send. Without a connection no
    /// answer could come, so the call is cancelled at once.
    pub fn begin_call(
        &mut self,
        method_id: u16,
        encoded: Result<Vec<u8>, String>,
        request: PendingRequest<U, S>,
    ) -> (begun: Result<(u64, Vec<u8>), CallError>)
        ensures
            final(self).addr == old(self).addr,
            final(self).connected == old(self).connected,
            final(self).next_request_id == id_after(old(self).next_request_id),
            old(self).wf() && old(self).next_request_id < u64::MAX ==> {
                &&& final(self).wf()
                &&& !old(self).pending@.contains_key(old(self).next_request_id)
            },
            match encoded {
                Ok(payload) => if old(self).connected {
                    &&& final(self).pending@ == old(self).pending@.insert(
                        old(self).next_request_id,
                        request,
                    )
                    &&& begun is Ok
                    &&& begun->Ok_0.0 == old(self).next_request_id
                    &&& begun->Ok_0.1@ == request_frame(
                        method_id,
                        old(self).next_request_id,
                        payload@,
                    ).bytes()
                } else {
                    &&& final(self).pending@ == old(self).pending@
                    &&& begun == Err::<(u64, Vec<u8>), CallError>(CallError::Cancelled)
                },
                Err(text) => {
                    &&& final(self).pending@ == old(self).pending@
                    &&& begun == Err::<(u64, Vec<u8>), CallError>(CallError::Encode(text))
                },
            },
    {
        let request_id = self.next_request_id;
        self.next_request_id = request_id.wrapping_add(1);
        match encoded {
            Err(text) => Err(CallError::Encode(text)),
            Ok(payload) => {
                if !self.connected {
                    return Err(CallError::Cancelled);
                }
                self.pending.insert(request_id, request);
                let message = encode_message(FrameType::Request, method_id, request_id, &payload);
                Ok((request_id, message))
            },
        }
    }

    /// Takes back a call whose message could not be sent.
    pub fn send_failed(&mut self, request_id: u64, text: String) -> (error: CallError)
        ensures
            final(self).addr == old(self).addr,
            final(self).connected == old(self).connected,
            final(self).next_request_id == old(self).next_request_id,
            final(self).pending@ == old(self).pending@.remove(request_id),
            old(self).wf() ==> final(self).wf(),
            error == CallError::Send(text),
    {
        self.pending.remove(&request_id);
        CallError::Send(text)
    }

    /// Takes note of the end of the connection: nothing more is read from it,
    /// so every call that waits is forgotten, and who waited for it learns that
    /// no answer will come.
    pub fn disconnected(&mut self)
        ensures
            final(self).addr == old(self).addr,
            final(self).next_request_id == old(self).next_request_id,
            final(self).pending@ == Map::<u64, PendingRequest<U, S>>::empty(),
            !final(self).connected,
            old(self).wf() ==> final(self).wf(),
    {
        self.pending.clear();
        self.connected = false;
    }

    /// Takes note of a new connection. Every call that waits is forgotten: its
    /// connection is gone. Numbers are not given out again.
    pub fn reconnected(&mut self)
        ensures
            final(self).addr == old(self).addr,
            final(self).next_request_id == old(self).next_request_id,
            final(self).pending@ == Map::<u64, PendingRequest<U, S>>::empty(),
            final(self).connected,
            old(self).wf() ==> final(self).wf(),
    {
        self.pending.clear();
        self.connected = true;
    }

    /// Decides what to do with a frame. A response, an end and an error each
    /// unregister the call that they name, of whatever kind it is; an item
    /// leaves it registered. A response that refuses a streaming call is handed
    /// to it as the error that ends its stream.
    pub fn deliver(&mut self, frame: Frame) -> (delivery: Delivery<U, S>)
        ensures
            final(self).addr == old(self).addr,
            final(self).connected == old(self).connected,
            final(self).next_request_id == old(self).next_request_id,
            final(self).pending@ == pending_after(old(self).pending@, frame@),
            delivered(old(self).pending@, frame@, delivery),
            old(self).wf() ==> final(self).wf(),
    {
        let frame_type = frame.frame_type;
        let request_id = frame.request_id;
        let payload = buffer_from(frame.payload);
        match frame_type {
            FrameType::Response => {
                match self.pending.remove(&request_id) {
                    Some(PendingRequest::Unary(waiting)) => Delivery::Complete(waiting, payload),
                    Some(PendingRequest::Stream(waiting)) => refuse_stream(waiting, payload),
                    None => Delivery::Discard,
                }
            },
            FrameType::StreamItem => {
                match self.pending.get(&request_id) {
                    Some(PendingRequest::Stream(_)) => Delivery::Forward(
                        StreamFrame { frame_type, payload },
                    ),
                    _ => Delivery::Discard,
                }
            },
            FrameType::StreamEnd | FrameType::StreamError => {
                match self.pending.remove(&request_id) {
                    Some(PendingRequest::Stream(waiting)) => Delivery::Finish(
                        waiting,
                        StreamFrame { frame_type, payload },
                    ),
                    _ => Delivery::Discard,
                }
            },
            FrameType::Request => Delivery::Unexpected,
        }
    }

    /// Who takes the frames of a streaming call that is registered.
    pub fn stream_of(&self, request_id: u64) -> (waiting: Option<&S>)
        ensures
            match waiting {
                Some(stream) => self.pending@.contains_key(request_id) && self.pending@[request_id]
                    == PendingRequest::<U, S>::Stream(*stream),
                None => !(self.pending@.contains_key(request_id)
                    && self.pending@[request_id] is Stream),
            },
    {
        match self.pending.get(&request_id) {
            Some(PendingRequest::Stream(stream)) => Some(stream),
            _ => None,
        }
    }
}

/// The frame that calls a method.
pub open spec fn request_frame(method_id: u16, request_id: u64, payload: Seq<u8>) -> FrameModel {
    FrameModel { frame_type: FrameType::Request, method_id, request_id, payload }
}

/// The calls that still wait after a frame came in.
pub open spec fn pending_after<U, S>(
    pending: Map<u64, PendingRequest<U, S>>,
    frame: FrameModel,
) -> Map<u64, PendingRequest<U, S>> {
    match frame.frame_type {
        FrameType::Response | FrameType::StreamEnd | FrameType::StreamError => pending.remove(
            frame.request_id,
        ),
        FrameType::StreamItem | FrameType::Request => pending,
    }
}

/// Whether `stream_frame` is what a streaming call is handed of `frame`.
pub open spec fn carries(stream_frame: StreamFrame, frame: FrameModel) -> bool {
    &&& stream_frame.frame_type == frame.frame_type
    &&& buffer_contents(stream_frame.payload) == frame.payload
}

/// The frame that ends the stream of a call that `frame` refuses with an error
/// text.
pub open spec fn refusal_frame(frame: FrameModel, text: Seq<char>) -> FrameModel {
    FrameModel {
        frame_type: FrameType::StreamError,
        method_id: frame.method_id,
        request_id: frame.request_id,
        payload: encoded_string(text),
    }
}

/// Decides what to do with a response to a streaming call: one that holds an
/// error ends the stream with it.
fn refuse_stream<U, S>(waiting: S, payload: Bytes) -> (delivery: Delivery<U, S>)
    ensures
        match decoded_reply(buffer_contents(payload)) {
            Ok(Err(text)) => delivery matches Delivery::Finish(w, stream_frame) && w == waiting
                && stream_frame.frame_type == FrameType::StreamError && buffer_contents(
                stream_frame.payload,
            ) == encoded_string(text),
            _ => delivery is Discard,
        },
{
    match decode_reply(buffer_slice(&payload)) {
        Ok(Err(text)) => {
            let bytes = match encode_string(&text) {
                Ok(bytes) => bytes,
                Err(_) => Vec::new(),
            };
            let payload = buffer_from(bytes);
            Delivery::Finish(waiting, StreamFrame { frame_type: FrameType::StreamError, payload })
        },
        _ => Delivery::Discard,
    }
}

/// Whether `delivery` is what becomes of `frame` when the calls in `pending`
/// wait.
pub open spec fn delivered<U, S>(
    pending: Map<u64, PendingRequest<U, S>>,
    frame: FrameModel,
    delivery: Delivery<U, S>,
) -> bool {
    let unary = pending.contains_key(frame.request_id) && pending[frame.request_id] is Unary;
    let stream = pending.contains_key(frame.request_id) && pending[frame.request_id] is Stream;
    match frame.frame_type {
        FrameType::Response => if unary {
            delivery matches Delivery::Complete(waiting, payload) && pending[frame.request_id]
                == PendingRequest::<U, S>::Unary(waiting) && buffer_contents(payload)
                == frame.payload
        } else if stream {
            match decoded_reply(frame.payload) {
                Ok(Err(text)) => delivery matches Delivery::Finish(waiting, stream_frame)
                    && pending[frame.request_id] == PendingRequest::<U, S>::Stream(waiting)
                    && carries(stream_frame, refusal_frame(frame, text)),
                _ => delivery is Discard,
            }
        } else {
            delivery is Discard
        },
        FrameType::StreamItem => if stream {
            delivery matches Delivery::Forward(stream_frame) && carries(stream_frame, frame)
        } else {
            delivery is Discard
        },
        FrameType::StreamEnd | FrameType::StreamError => if stream {
            delivery matches Delivery::Finish(waiting, stream_frame) && pending[frame.request_id]
                == PendingRequest::<U, S>::Stream(waiting) && carries(stream_frame, frame)
        } else {
            delivery is Discard
        },
        FrameType::Request => delivery is Unexpected,
    }
}

/// The outcome of a call: `None` if the connection was lost before an answer
/// came, else what reading the answer gave.
pub fn finish_call<T>(answer: Option<Result<Result<T, String>, String>>) -> (outcome: Result<
    T,
    CallError,
>)
    ensures
        outcome == match answer {
            None => Err(CallError::Cancelled),
            Some(Err(text)) => Err(CallError::Decode(text)),
            Some(Ok(Err(text))) => Err(CallError::Remote(text)),
            Some(Ok(Ok(value))) => Ok(value),
        },
{
    match answer {
        None => Err(CallError::Cancelled),
        Some(Err(text)) => Err(CallError::Decode(text)),
        Some(Ok(Err(text))) => Err(CallError::Remote(text)),
        Some(Ok(Ok(value))) => Ok(value),
    }
}

/// The outcome of a call without a result value, from the payload of its
/// answer, if one came.
pub fn finish_unit_call(payload: Option<Bytes>) -> (outcome: Result<(), CallError>)
    ensures
        match payload {
            None => outcome == Err::<(), CallError>(CallError::Cancelled),
            Some(buffer) => match decoded_reply(buffer_contents(buffer)) {
                Ok(Ok(_)) => outcome is Ok,
                Ok(Err(text)) => outcome matches Err(CallError::Remote(t)) && t@ == text,
                Err(text) => outcome matches Err(CallError::Decode(t)) && t@ == text,
            },
        },
{
    match payload {
        None => finish_call(None),
        Some(buffer) => finish_call(Some(decode_reply(buffer_slice(&buffer)))),
    }
}

/// What a streaming call does with a frame that it was handed.
#[derive(Debug)]
pub enum StreamStep {
    /// Reads the payload as an item.
    ReadItem,
    /// Ends the stream.
    End,
    /// Yields the error and ends the stream.
    Fail(String),
    /// Nothing.
    Skip,
}

/// The value of a step.
pub enum StepModel {
    ReadItem,
    End,
    Fail(Seq<char>),
    Skip,
}

impl View for StreamStep {
    type V = StepModel;

    open spec fn view(&self) -> StepModel {
        match *self {
            StreamStep::ReadItem => StepModel::ReadItem,
            StreamStep::End => StepModel::End,
            StreamStep::Fail(text) => StepModel::Fail(text@),
            StreamStep::Skip => StepModel::Skip,
        }
    }
}

/// The text of the error that ends a stream.
pub open spec fn stream_error_text(payload: Seq<u8>) -> Seq<char> {
    match decoded_string(payload) {
        Some(text) => text,
        None => "Unknown stream error"@,
    }
}

/// What a streaming call does with a frame of the given type and payload.
pub open spec fn stream_step(frame_type: FrameType, payload: Seq<u8>) -> StepModel {
    match frame_type {
        FrameType::StreamItem => StepModel::ReadItem,
        FrameType::StreamEnd => StepModel::End,
        FrameType::StreamError => StepModel::Fail(stream_error_text(payload)),
        FrameType::Request | FrameType::Response => StepModel::Skip,
    }
}

/// Decides what to do with a frame of a streaming answer.
pub fn on_stream_frame(frame: &StreamFrame) -> (step: StreamStep)
    ensures
        step@ == stream_step(frame.frame_type, buffer_contents(frame.payload)),
{
    match frame.frame_type {
        FrameType::StreamItem => StreamStep::ReadItem,
        FrameType::StreamEnd => StreamStep::End,
        FrameType::StreamError => StreamStep::Fail(
            match decode_string(buffer_slice(&frame.payload)) {
                Some(text) => text,
                None => "Unknown stream error".to_string(),
            },
        ),
        _ => StreamStep::Skip,
    }
}

/// Whether a streaming call goes on after it has yielded what reading an item
/// gave: not after an item that could not be read, nor when nobody takes the
/// items any more.
pub fn goes_on<T>(item: &Result<T, String>, taken: bool) -> (on: bool)
    ensures
        on == (item is Ok && taken),
{
    item.is_ok() && taken
}

/// What a streaming call yields of the frames that it is handed, as long as
/// its items can be read and are taken: the payload of each item, up to the
/// first end or error.
pub open spec fn yielded(frames: Seq<FrameModel>) -> Seq<Result<Seq<u8>, Seq<char>>>
    decreases frames.len(),
{
    if frames.len() == 0 {
        Seq::empty()
    } else {
        match stream_step(frames[0].frame_type, frames[0].payload) {
            StepModel::ReadItem => seq![Ok::<Seq<u8>, Seq<char>>(frames[0].payload)] + yielded(
                frames.skip(1),
            ),
            StepModel::End => Seq::empty(),
            StepModel::Fail(text) => seq![Err::<Seq<u8>, Seq<char>>(text)],
            StepModel::Skip => yielded(frames.skip(1)),
        }
    }
}

/// Whether the error that ended the reading of answers is worth a warning: one
/// that says that reading was canceled is not.
pub fn is_worth_a_warning(error: &str) -> (warn: bool)
    ensures
        warn == !has_substring(error@, "canceled"@),
{
    !contains_text(error, "canceled")
}

/// How often a call whose connection failed is tried again.
pub const MAX_ATTEMPTS: usize = 3;

/// What happened in the course of a call.
#[derive(Debug)]
pub enum RetryEvent<R> {
    /// The call was made.
    Called(Result<R, CallError>),
    /// The connection was established anew, or not; the error is a text.
    Reconnected(Result<(), String>),
}

/// What is to be done next.
#[derive(Debug)]
pub enum RetryAction<R> {
    /// Make the call.
    Call,
    /// Establish the connection anew.
    Reconnect,
    /// Return the outcome.
    Done(Result<R, CallError>),
}

/// How often a call was tried again so far.
#[derive(Debug)]
pub struct Retry {
    pub attempts: usize,
}

/// The count and the action after an event.
pub open spec fn after_event<R>(attempts: usize, event: RetryEvent<R>) -> (usize, RetryAction<R>) {
    match event {
        RetryEvent::Called(Ok(value)) => (attempts, RetryAction::Done(Ok(value))),
        RetryEvent::Called(Err(e)) => if e.is_of_connection() && attempts < MAX_ATTEMPTS {
            ((attempts + 1) as usize, RetryAction::Reconnect)
        } else {
            (attempts, RetryAction::Done(Err(e)))
        },
        RetryEvent::Reconnected(Ok(_)) => (attempts, RetryAction::Call),
        RetryEvent::Reconnected(Err(text)) => (
            attempts,
            RetryAction::Done(Err(CallError::Connect(text))),
        ),
    }
}

impl Retry {
    /// A call that was not tried yet.
    pub fn new() -> (retry: Retry)
        ensures
            retry.attempts == 0,
    {
        Retry { attempts: 0 }
    }

    /// What is to be done first: the call is made on the connection that there
    /// is.
    pub fn first<R>(&self) -> (action: RetryAction<R>)
        ensures
            action is Call,
    {
        RetryAction::Call
    }

    /// Decides what to do after an event. Only a failed connection leads to a
    /// new one and another try, up to three times; any other outcome of a try
    /// is that of the call, and so is a connection that cannot be established.
    pub fn next<R>(&mut self, event: RetryEvent<R>) -> (action: RetryAction<R>)
        ensures
            final(self).attempts == after_event(old(self).attempts, event).0,
            action == after_event(old(self).attempts, event).1,
    {
        match event {
            RetryEvent::Called(Ok(value)) => RetryAction::Done(Ok(value)),
            RetryEvent::Called(Err(e)) => {
                if e.is_connection_failure() && self.attempts < MAX_ATTEMPTS {
                    self.attempts = self.attempts + 1;
                    RetryAction::Reconnect
                } else {
                    RetryAction::Done(Err(e))
                }
            },
            RetryEvent::Reconnected(Ok(_)) => RetryAction::Call,
            RetryEvent::Reconnected(Err(text)) => RetryAction::Done(Err(CallError::Connect(text))),
        }
    }
}

/// The outcome of a call of which `attempts` tries were repeated already, when
/// `outcome` is how the next try goes and `later` how each new connection and
/// the try on it go; `None` if the call is still undecided after these tries.
pub open spec fn retried<R>(
    attempts: usize,
    outcome: Result<R, CallError>,
    later: Seq<(Result<(), String>, Result<R, CallError>)>,
) -> Option<Result<R, CallError>>
    decreases later.len(),
{
    let (next, action) = after_event(attempts, RetryEvent::Called(outcome));
    match action {
        RetryAction::Done(result) => Some(result),
        _ => if later.len() == 0 {
            None
        } else {
            match after_event::<R>(next, RetryEvent::Reconnected(later[0].0)).1 {
                RetryAction::Done(result) => Some(result),
                _ => retried(next, later[0].1, later.skip(1)),
            }
        },
    }
}

/// Whether a try failed because of its connection.
pub open spec fn lost_connection<R>(outcome: Result<R, CallError>) -> bool {
    outcome matches Err(e) && e.is_of_connection()
}

/// A call is decided after one try and at most three repetitions.
pub proof fn retry_is_bounded<R>(
    attempts: usize,
    outcome: Result<R, CallError>,
    later: Seq<(Result<(), String>, Result<R, CallError>)>,
)
    requires
        attempts <= MAX_ATTEMPTS,
        later.len() + attempts >= MAX_ATTEMPTS,
    ensures
        retried(attempts, outcome, later) is Some,
        retried(attempts, outcome, later) == retried(
            attempts,
            outcome,
            later.take(MAX_ATTEMPTS - attempts),
        ),
    decreases later.len(),
{
    let few = later.take(MAX_ATTEMPTS - attempts);
    if attempts < MAX_ATTEMPTS && lost_connection(outcome) {
        assert(few[0] == later[0]);
        if later[0].0 is Ok {
            retry_is_bounded((attempts + 1) as usize, later[0].1, later.skip(1));
            assert(few.skip(1) =~= later.skip(1).take(MAX_ATTEMPTS - (attempts + 1)));
        }
    }
}

/// An outcome that is not the fault of the connection, a value as well as an
/// error of the application, is returned after that one try: no connection is
/// established anew and nothing is sent again.
pub proof fn outcome_of_the_application_is_returned<R>(
    attempts: usize,
    outcome: Result<R, CallError>,
    later: Seq<(Result<(), String>, Result<R, CallError>)>,
)
    requires
        !lost_connection(outcome),
    ensures
        after_event(attempts, RetryEvent::Called(outcome)) == (
            attempts,
            RetryAction::Done(outcome),
        ),
        retried(attempts, outcome, later) == Some(outcome),
{
}

/// A call returns the outcome of the first try whose connection holds, if the
/// connection can be established anew each time before.
pub proof fn retry_returns_the_first_outcome<R>(
    attempts: usize,
    outcome: Result<R, CallError>,
    later: Seq<(Result<(), String>, Result<R, CallError>)>,
    k: int,
)
    requires
        0 <= k < later.len(),
        attempts + k < MAX_ATTEMPTS,
        lost_connection(outcome),
        forall|i: int| 0 <= i <= k ==> (#[trigger] later[i]).0 is Ok,
        forall|i: int| 0 <= i < k ==> lost_connection((#[trigger] later[i]).1),
        !lost_connection(later[k].1),
    ensures
        retried(attempts, outcome, later) == Some(later[k].1),
    decreases k,
{
    assert(later[0].0 is Ok);
    let rest = later.skip(1);
    if k > 0 {
        assert(lost_connection(later[0].1));
        assert forall|i: int| 0 <= i <= k - 1 implies (#[trigger] rest[i]).0 is Ok by {
            assert(rest[i] == later[i + 1]);
        }
        assert forall|i: int| 0 <= i < k - 1 implies lost_connection((#[trigger] rest[i]).1) by {
            assert(rest[i] == later[i + 1]);
        }
        retry_returns_the_first_outcome((attempts + 1) as usize, later[0].1, rest, k - 1);
    } else {
        outcome_of_the_application_is_returned((attempts + 1) as usize, later[0].1, rest);
    }
}

/// A call whose answer was lost with the connection is made once more on a new
/// connection, and returns the answer that comes on it.
pub proof fn lost_answer_is_asked_for_again<R>(
    value: R,
    later: Seq<(Result<(), String>, Result<R, CallError>)>,
)
    requires
        later.len() > 0,
        later[0] == (Ok::<(), String>(()), Ok::<R, CallError>(value)),
    ensures
        retried(0, Err::<R, CallError>(CallError::Cancelled), later) == Some(
            Ok::<R, CallError>(value),
        ),
{
    retry_returns_the_first_outcome(0, Err(CallError::Cancelled), later, 0);
}

/// A call whose connection is lost on the first try and on every repetition
/// returns the error of the last one.
pub proof fn retry_returns_the_last_error<R>(
    attempts: usize,
    outcome: Result<R, CallError>,
    later: Seq<(Result<(), String>, Result<R, CallError>)>,
)
    requires
        attempts <= MAX_ATTEMPTS,
        later.len() + attempts == MAX_ATTEMPTS,
        lost_connection(outcome),
        forall|i: int|
            0 <= i < later.len() ==> (#[trigger] later[i]).0 is Ok && lost_connection(later[i].1),
    ensures
        retried(attempts, outcome, later) == Some(
            if later.len() == 0 {
                outcome
            } else {
                later.last().1
            },
        ),
    decreases later.len(),
{
    if later.len() > 0 {
        assert(later[0].0 is Ok && lost_connection(later[0].1));
        let rest = later.skip(1);
        assert forall|i: int| 0 <= i < rest.len() implies (#[trigger] rest[i]).0 is Ok
            && lost_connection(rest[i].1) by {
            assert(rest[i] == later[i + 1]);
        }
        retry_returns_the_last_error((attempts + 1) as usize, later[0].1, rest);
    }
}

/// A connection that cannot be established anew ends the call at once, with
/// that error, however many tries are left.
pub proof fn retry_stops_without_connection<R>(
    attempts: usize,
    outcome: Result<R, CallError>,
    later: Seq<(Result<(), String>, Result<R, CallError>)>,
    k: int,
)
    requires
        0 <= k < later.len(),
        attempts + k < MAX_ATTEMPTS,
        lost_connection(outcome),
        forall|i: int|
            0 <= i < k ==> (#[trigger] later[i]).0 is Ok && lost_connection(later[i].1),
        later[k].0 is Err,
    ensures
        retried(attempts, outcome, later) == Some(
            Err::<R, CallError>(CallError::Connect(later[k].0->Err_0)),
        ),
    decreases k,
{
    if k > 0 {
        assert(later[0].0 is Ok && lost_connection(later[0].1));
        let rest = later.skip(1);
        assert forall|i: int| 0 <= i < k - 1 implies (#[trigger] rest[i]).0 is Ok
            && lost_connection(rest[i].1) by {
            assert(rest[i] == later[i + 1]);
        }
        retry_stops_without_connection((attempts + 1) as usize, later[0].1, rest, k - 1);
    }
}

/// The text of an error is what it holds, or that the connection was lost.
pub proof fn errors_keep_their_text(text: String)
    ensures
        CallError::Connect(text).spec_message() == text@,
        CallError::Encode(text).spec_message() == text@,
        CallError::Send(text).spec_message() == text@,
        CallError::Decode(text).spec_message() == text@,
        CallError::Remote(text).spec_message() == text@,
        CallError::Cancelled.spec_message() == "Request cancelled - connection lost"@,
{
}

/// The number of the request that is made `n` requests after the one with the
/// number `id`.
pub open spec fn id_after_requests(id: u64, n: nat) -> u64
    decreases n,
{
    if n == 0 {
        id
    } else {
        id_after(id_after_requests(id, (n - 1) as nat))
    }
}

/// Numbers count the requests, so that no two of as many requests as there are
/// numbers have the same.
pub proof fn numbers_count_the_requests(id: u64, n: nat)
    ensures
        id_after_requests(id, n) == (id + n) % 0x1_0000_0000_0000_0000,
    decreases n,
{
    if n > 0 {
        numbers_count_the_requests(id, (n - 1) as nat);
        let before = id + n - 1;
        assert((before + 1) % 0x1_0000_0000_0000_0000 == if before % 0x1_0000_0000_0000_0000
            == 0xffff_ffff_ffff_ffff {
            0
        } else {
            before % 0x1_0000_0000_0000_0000 + 1
        });
    }
}

/// A request carries the method, the number and the payload that it is made
/// with.
pub proof fn request_carries_the_call(method_id: u16, request_id: u64, payload: Seq<u8>)
    ensures
        request_frame(method_id, request_id, payload).frame_type is Request,
        request_frame(method_id, request_id, payload).method_id == method_id,
        request_frame(method_id, request_id, payload).request_id == request_id,
        request_frame(method_id, request_id, payload).payload == payload,
{
}

/// Who waits for the answer to a request, if anybody does.
pub open spec fn waiting_for<U, S>(
    pending: Map<u64, PendingRequest<U, S>>,
    request_id: u64,
) -> Option<PendingRequest<U, S>> {
    if pending.contains_key(request_id) {
        Some(pending[request_id])
    } else {
        None
    }
}

/// Whether a streaming call was handed a frame of the given type and payload.
pub open spec fn was_handed(handed: StreamFrame, frame_type: FrameType, payload: Seq<u8>) -> bool {
    handed.frame_type == frame_type && buffer_contents(handed.payload) == payload
}

/// A frame reaches the call that waits for it and no other: a response the unary
/// call, with its payload, or as an error the streaming call that it refuses; an
/// item, the end and an error of a stream the streaming call, as they are.
/// Whatever ends a call unregisters it, an item does not, and nothing else
/// changes.
pub proof fn frames_reach_the_call_that_waits<U, S>(
    pending: Map<u64, PendingRequest<U, S>>,
    frame: FrameModel,
    delivery: Delivery<U, S>,
)
    requires
        delivered(pending, frame, delivery),
    ensures
        match (frame.frame_type, waiting_for(pending, frame.request_id)) {
            (FrameType::Response, Some(PendingRequest::Unary(u))) => delivery matches Delivery::Complete(
                waiting,
                payload,
            ) && waiting == u && buffer_contents(payload) == frame.payload,
            (FrameType::Response, Some(PendingRequest::Stream(s))) => match decoded_reply(
                frame.payload,
            ) {
                Ok(Err(text)) => delivery matches Delivery::Finish(waiting, handed) && waiting == s
                    && was_handed(handed, FrameType::StreamError, encoded_string(text)),
                _ => delivery is Discard,
            },
            (FrameType::StreamItem, Some(PendingRequest::Stream(_))) => delivery matches Delivery::Forward(
                handed,
            ) && was_handed(handed, FrameType::StreamItem, frame.payload),
            (FrameType::StreamEnd, Some(PendingRequest::Stream(s))) => delivery matches Delivery::Finish(
                waiting,
                handed,
            ) && waiting == s && was_handed(handed, FrameType::StreamEnd, frame.payload),
            (FrameType::StreamError, Some(PendingRequest::Stream(s))) => delivery matches Delivery::Finish(
                waiting,
                handed,
            ) && waiting == s && was_handed(handed, FrameType::StreamError, frame.payload),
            (FrameType::Request, _) => delivery is Unexpected,
            _ => delivery is Discard,
        },
        pending_after(pending, frame) == if frame.frame_type is Response
            || frame.frame_type is StreamEnd || frame.frame_type is StreamError {
            pending.remove(frame.request_id)
        } else {
            pending
        },
{
}

/// A streaming call reads the payload of every item, ends at the end, fails with
/// the text of the error, and passes over anything else.
pub proof fn stream_frames_are_acted_on(payload: Seq<u8>, text: String)
    ensures
        stream_step(FrameType::StreamItem, payload) is ReadItem,
        stream_step(FrameType::StreamEnd, payload) is End,
        stream_step(FrameType::StreamError, payload) == StepModel::Fail(
            match decoded_string(payload) {
                Some(t) => t,
                None => "Unknown stream error"@,
            },
        ),
        stream_step(FrameType::Request, payload) is Skip,
        stream_step(FrameType::Response, payload) is Skip,
        StreamStep::ReadItem@ is ReadItem,
        StreamStep::End@ is End,
        StreamStep::Skip@ is Skip,
        StreamStep::Fail(text)@ == StepModel::Fail(text@),
{
}

/// A stream yields the payload of each item, up to its end or the text of its
/// error. Frames of other types yield nothing and are passed over.
pub proof fn streams_yield_frame_by_frame(
    frame: FrameModel,
    rest: Seq<FrameModel>,
    text: Seq<char>,
)
    ensures
        frame.frame_type is StreamItem ==> yielded(seq![frame] + rest) == seq![
            Ok::<Seq<u8>, Seq<char>>(frame.payload),
        ] + yielded(rest),
        frame.frame_type is StreamEnd ==> yielded(seq![frame] + rest).len() == 0,
        frame.frame_type is StreamError && frame.payload == encoded_string(text) ==> yielded(
            seq![frame] + rest,
        ) == seq![Err::<Seq<u8>, Seq<char>>(text)],
        frame.frame_type is Request || frame.frame_type is Response ==> yielded(seq![frame] + rest)
            == yielded(rest),
        yielded(Seq::empty()).len() == 0,
{
    assert((seq![frame] + rest).skip(1) =~= rest);
    string_round_trip(text, Seq::empty());
    assert(encoded_string(text) + Seq::<u8>::empty() =~= encoded_string(text));
}

/// What is done after each event of a call: a value and an error of the request,
/// of the answer or of the method are returned at once; a request that could not
/// be sent and an answer that was lost lead to a new connection and another try,
/// three times at most; the call is made on a connection that was established,
/// and one that could not be is returned.
pub proof fn only_lost_connections_lead_to_another_try<R>(
    attempts: usize,
    value: R,
    text: String,
)
    ensures
        after_event(attempts, RetryEvent::Called(Ok(value))) == (
            attempts,
            RetryAction::Done(Ok(value)),
        ),
        after_event::<R>(attempts, RetryEvent::Called(Err(CallError::Remote(text)))) == (
            attempts,
            RetryAction::<R>::Done(Err(CallError::Remote(text))),
        ),
        after_event::<R>(attempts, RetryEvent::Called(Err(CallError::Decode(text)))) == (
            attempts,
            RetryAction::<R>::Done(Err(CallError::Decode(text))),
        ),
        after_event::<R>(attempts, RetryEvent::Called(Err(CallError::Encode(text)))) == (
            attempts,
            RetryAction::<R>::Done(Err(CallError::Encode(text))),
        ),
        attempts < 3 ==> after_event::<R>(
            attempts,
            RetryEvent::Called(Err(CallError::Send(text))),
        ) == ((attempts + 1) as usize, RetryAction::<R>::Reconnect),
        attempts < 3 ==> after_event::<R>(
            attempts,
            RetryEvent::Called(Err(CallError::Cancelled)),
        ) == ((attempts + 1) as usize, RetryAction::<R>::Reconnect),
        attempts >= 3 ==> after_event::<R>(
            attempts,
            RetryEvent::Called(Err(CallError::Send(text))),
        ) == (attempts, RetryAction::<R>::Done(Err(CallError::Send(text)))),
        attempts >= 3 ==> after_event::<R>(
            attempts,
            RetryEvent::Called(Err(CallError::Cancelled)),
        ) == (attempts, RetryAction::<R>::Done(Err(CallError::Cancelled))),
        after_event::<R>(attempts, RetryEvent::Reconnected(Ok(()))) == (
            attempts,
            RetryAction::<R>::Call,
        ),
        after_event::<R>(attempts, RetryEvent::Reconnected(Err(text))) == (
            attempts,
            RetryAction::<R>::Done(Err(CallError::Connect(text))),
        ),
        CallError::Send(text).is_of_connection(),
        CallError::Cancelled.is_of_connection(),
        !CallError::Remote(text).is_of_connection(),
        !CallError::Decode(text).is_of_connection(),
        !CallError::Encode(text).is_of_connection(),
{
}

} // verus!
