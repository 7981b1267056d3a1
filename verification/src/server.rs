//! The server's side of a connection: what it does with an incoming frame and
//! what it answers.

use std::sync::Arc;

use crate::frame::{encode_message, encode_stream_header, Frame, FrameModel, FrameType};
use crate::wire::{encode_failure, encode_string, encoded_failure, encoded_string};
use vstd::prelude::*;

verus! {

/// What dispatching a call to a service method gives.
#[derive(Debug)]
pub enum DispatchResult<S> {
    /// A single serialized answer.
    Unary(Vec<u8>),
    /// A stream of answers.
    Stream(S),
    /// The call could not be dispatched.
    Error(String),
}

/// A response that can be turned into a dispatch result.
pub trait ServerEncoding<S>: Sized {
    /// The dispatch result of the response.
    spec fn dispatched(self) -> DispatchResult<S>;

    /// Turns the response into a dispatch result.
    fn into_dispatch(self) -> (result: DispatchResult<S>)
        ensures
            result == self.dispatched(),
    ;
}

/// The response of a unary method: the outcome of serializing what the method
/// returned, its error as a text.
#[derive(Debug)]
pub struct UnaryResponse {
    pub encoded: Result<Vec<u8>, String>,
}

impl<S> ServerEncoding<S> for UnaryResponse {
    open spec fn dispatched(self) -> DispatchResult<S> {
        match self.encoded {
            Ok(bytes) => DispatchResult::Unary(bytes),
            Err(text) => DispatchResult::Error(text),
        }
    }

    fn into_dispatch(self) -> (result: DispatchResult<S>) {
        match self.encoded {
            Ok(bytes) => DispatchResult::Unary(bytes),
            Err(text) => DispatchResult::Error(text),
        }
    }
}

/// The response of a streaming method: the stream, or the text of the error
/// for which there is none.
#[derive(Debug)]
pub struct StreamResponse<S> {
    pub opened: Result<S, String>,
}

impl<S> ServerEncoding<S> for StreamResponse<S> {
    open spec fn dispatched(self) -> DispatchResult<S> {
        match self.opened {
            Ok(stream) => DispatchResult::Stream(stream),
            Err(text) => DispatchResult::Error(text),
        }
    }

    fn into_dispatch(self) -> (result: DispatchResult<S>) {
        match self.opened {
            Ok(stream) => DispatchResult::Stream(stream),
            Err(text) => DispatchResult::Error(text),
        }
    }
}

/// What polling a stream for its next item, as serialized bytes, gives.
#[derive(Debug)]
pub enum BytesPoll {
    /// There is no item yet.
    Pending,
    /// The next item, the error in its place, or the end of the stream.
    Ready(Option<Result<Vec<u8>, String>>),
}

/// A stream whose items are seen as serialized bytes only.
pub trait ErasedStream: Sized {
    /// The next item as serialized bytes.
    spec fn next_bytes(self) -> BytesPoll;

    /// Gets the next item as serialized bytes.
    fn poll_next_bytes(self) -> (polled: BytesPoll)
        ensures
            polled == self.next_bytes(),
    ;
}

/// What polling a stream of values gave, with the outcome of serializing the
/// value in the place of the value.
#[derive(Debug)]
pub enum ItemPoll {
    /// There is no item yet.
    Pending,
    /// The stream has ended.
    Ended,
    /// The stream has failed with an error text.
    Failed(String),
    /// An item; a serialization error as a text.
    Item(Result<Vec<u8>, String>),
}

impl ErasedStream for ItemPoll {
    open spec fn next_bytes(self) -> BytesPoll {
        match self {
            ItemPoll::Pending => BytesPoll::Pending,
            ItemPoll::Ended => BytesPoll::Ready(None),
            ItemPoll::Failed(text) => BytesPoll::Ready(Some(Err(text))),
            ItemPoll::Item(encoded) => BytesPoll::Ready(Some(encoded)),
        }
    }

    fn poll_next_bytes(self) -> (polled: BytesPoll) {
        match self {
            ItemPoll::Item(Ok(bytes)) => BytesPoll::Ready(Some(Ok(bytes))),
            ItemPoll::Item(Err(text)) => BytesPoll::Ready(Some(Err(text))),
            ItemPoll::Failed(text) => BytesPoll::Ready(Some(Err(text))),
            ItemPoll::Ended => BytesPoll::Ready(None),
            ItemPoll::Pending => BytesPoll::Pending,
        }
    }
}

/// A service and the function that dispatches calls to its methods.
pub struct Server<T: ?Sized, D> {
    pub service: Arc<T>,
    pub dispatch: D,
}

impl<T: ?Sized, D> Server<T, D> {
    /// Creates a server from a shared service and a dispatch function.
    pub fn from_arc(service: Arc<T>, dispatch: D) -> (server: Self)
        ensures
            server.service == service,
            server.dispatch == dispatch,
    {
        Server { service, dispatch }
    }
}

/// What the server does with a frame that it has read.
#[derive(Debug)]
pub enum Incoming {
    /// Dispatches the call, without waiting for it to finish.
    Dispatch { method_id: u16, request_id: u64, payload: Vec<u8> },
    /// Nothing: streams from clients are not supported.
    Ignore,
    /// Nothing, with a warning: a server is sent no responses.
    Unexpected,
}

/// Decides what to do with a frame: only requests are dispatched.
pub fn on_frame(frame: Frame) -> (incoming: Incoming)
    ensures
        match frame.frame_type {
            FrameType::Request => incoming == (Incoming::Dispatch {
                method_id: frame.method_id,
                request_id: frame.request_id,
                payload: frame.payload,
            }),
            FrameType::Response => incoming is Unexpected,
            _ => incoming is Ignore,
        },
{
    match frame.frame_type {
        FrameType::Request => Incoming::Dispatch {
            method_id: frame.method_id,
            request_id: frame.request_id,
            payload: frame.payload,
        },
        FrameType::StreamItem | FrameType::StreamEnd | FrameType::StreamError => Incoming::Ignore,
        FrameType::Response => Incoming::Unexpected,
    }
}

/// How a dispatched call is answered.
#[derive(Debug)]
pub enum Answer<S> {
    /// By one message.
    Message(Vec<u8>),
    /// By the messages of a stream.
    Streaming(StreamAnswer, S),
    /// Not at all.
    Nothing,
}

/// The frame that answers a call with serialized bytes.
pub open spec fn unary_frame(method_id: u16, request_id: u64, payload: Seq<u8>) -> FrameModel {
    FrameModel { frame_type: FrameType::Response, method_id, request_id, payload }
}

/// Answers a dispatched call. A call that could not be dispatched is answered
/// with a failed result that holds the error text.
pub fn answer<S>(method_id: u16, request_id: u64, result: DispatchResult<S>) -> (answer: Answer<S>)
    ensures
        match result {
            DispatchResult::Unary(payload) => answer matches Answer::Message(message) && message@
                == unary_frame(method_id, request_id, payload@).bytes(),
            DispatchResult::Stream(stream) => answer == Answer::Streaming(
                StreamAnswer { method_id, request_id, open: true },
                stream,
            ),
            DispatchResult::Error(text) => answer matches Answer::Message(message) && message@
                == unary_frame(method_id, request_id, encoded_failure(text@)).bytes(),
        },
{
    match result {
        DispatchResult::Unary(payload) => Answer::Message(
            encode_message(FrameType::Response, method_id, request_id, &payload),
        ),
        DispatchResult::Stream(stream) => Answer::Streaming(
            StreamAnswer { method_id, request_id, open: true },
            stream,
        ),
        DispatchResult::Error(text) => match encode_failure(text) {
            Ok(payload) => Answer::Message(
                encode_message(FrameType::Response, method_id, request_id, &payload),
            ),
            Err(_) => Answer::Nothing,
        },
    }
}

/// A streaming answer in progress.
#[derive(Debug)]
pub struct StreamAnswer {
    pub method_id: u16,
    pub request_id: u64,
    /// Whether another item is to be polled.
    pub open: bool,
}

/// The frame for what a stream yielded.
pub open spec fn stream_frame(
    method_id: u16,
    request_id: u64,
    item: Option<Result<Seq<u8>, Seq<char>>>,
) -> FrameModel {
    match item {
        Some(Ok(bytes)) => FrameModel {
            frame_type: FrameType::StreamItem,
            method_id,
            request_id,
            payload: bytes,
        },
        Some(Err(text)) => FrameModel {
            frame_type: FrameType::StreamError,
            method_id,
            request_id,
            payload: encoded_string(text),
        },
        None => FrameModel {
            frame_type: FrameType::StreamEnd,
            method_id,
            request_id,
            payload: Seq::empty(),
        },
    }
}

/// What a stream yielded, with texts and bytes as sequences.
pub open spec fn item_view(item: Option<Result<Vec<u8>, String>>) -> Option<
    Result<Seq<u8>, Seq<char>>,
> {
    match item {
        Some(Ok(bytes)) => Some(Ok(bytes@)),
        Some(Err(text)) => Some(Err(text@)),
        None => None,
    }
}

/// Whether a streaming answer goes on after what the stream yielded: not after
/// an error or its end.
pub open spec fn stays_open(item: Option<Result<Seq<u8>, Seq<char>>>) -> bool {
    item is Some && item->Some_0 is Ok
}

impl StreamAnswer {
    /// The message for what the stream yielded. An error or the end of the
    /// stream closes the answer.
    pub fn next_message(&mut self, item: Option<Result<Vec<u8>, String>>) -> (message: Vec<u8>)
        ensures
            message@ == stream_frame(
                old(self).method_id,
                old(self).request_id,
                item_view(item),
            ).bytes(),
            final(self).method_id == old(self).method_id,
            final(self).request_id == old(self).request_id,
            final(self).open == (old(self).open && stays_open(item_view(item))),
    {
        match item {
            Some(Ok(bytes)) => encode_message(
                FrameType::StreamItem,
                self.method_id,
                self.request_id,
                &bytes,
            ),
            Some(Err(text)) => {
                self.open = false;
                let payload = match encode_string(&text) {
                    Ok(bytes) => bytes,
                    Err(_) => Vec::new(),
                };
                encode_message(FrameType::StreamError, self.method_id, self.request_id, &payload)
            },
            None => {
                self.open = false;
                let header = encode_stream_header(
                    FrameType::StreamEnd,
                    self.method_id,
                    self.request_id,
                    0,
                );
                let mut message: Vec<u8> = Vec::new();
                message.extend_from_slice(&header);
                assert(message@ =~= stream_frame(
                    self.method_id,
                    self.request_id,
                    None,
                ).bytes());
                message
            },
        }
    }

    /// Takes note of how writing a message went: a failure closes the answer.
    pub fn written(&mut self, success: bool)
        ensures
            final(self).method_id == old(self).method_id,
            final(self).request_id == old(self).request_id,
            final(self).open == (old(self).open && success),
    {
        if !success {
            self.open = false;
        }
    }
}

/// The frames of a streaming answer when every message can be written: one for
/// each item up to the first error or the end of the stream, and one for that.
pub open spec fn streamed_frames(
    method_id: u16,
    request_id: u64,
    items: Seq<Option<Result<Seq<u8>, Seq<char>>>>,
) -> Seq<FrameModel>
    decreases items.len(),
{
    if items.len() == 0 {
        Seq::empty()
    } else {
        let first = seq![stream_frame(method_id, request_id, items[0])];
        if stays_open(items[0]) {
            first + streamed_frames(method_id, request_id, items.skip(1))
        } else {
            first
        }
    }
}

/// A serialized response is dispatched as it is, and what could not be
/// serialized as the error text.
pub proof fn unary_response_is_dispatched_as_it_is<S>(bytes: Vec<u8>, text: String)
    ensures
        ServerEncoding::<S>::dispatched(UnaryResponse { encoded: Ok(bytes) }) == DispatchResult::<
            S,
        >::Unary(bytes),
        ServerEncoding::<S>::dispatched(UnaryResponse { encoded: Err(text) }) == DispatchResult::<
            S,
        >::Error(text),
{
}

/// A stream is dispatched as it is, and what could not be opened as the error
/// text.
pub proof fn stream_response_is_dispatched_as_it_is<S>(stream: S, text: String)
    ensures
        ServerEncoding::<S>::dispatched(StreamResponse { opened: Ok(stream) }) == DispatchResult::<
            S,
        >::Stream(stream),
        ServerEncoding::<S>::dispatched(StreamResponse::<S> { opened: Err(text) })
            == DispatchResult::<S>::Error(text),
{
}

/// Polling keeps what the stream yielded: it gives bytes exactly for an item
/// that was serialized to these bytes, whatever they are, an error exactly for a
/// failure or a serialization error with its text, the end exactly at the end,
/// and nothing exactly while there is no item.
pub proof fn polling_keeps_what_was_yielded(polled: ItemPoll, bytes: Vec<u8>, text: String)
    ensures
        polled.next_bytes() == BytesPoll::Ready(Some(Ok::<Vec<u8>, String>(bytes))) <==> polled
            == ItemPoll::Item(Ok(bytes)),
        polled.next_bytes() == BytesPoll::Ready(Some(Err::<Vec<u8>, String>(text))) <==> polled
            == ItemPoll::Failed(text) || polled == ItemPoll::Item(Err(text)),
        polled.next_bytes() == BytesPoll::Ready(None) <==> polled is Ended,
        polled.next_bytes() == BytesPoll::Pending <==> polled is Pending,
{
}

/// The frames of answers carry the request, the method and exactly what is
/// answered.
pub proof fn answer_frames_carry_the_answer(
    method_id: u16,
    request_id: u64,
    bytes: Vec<u8>,
    text: String,
)
    ensures
        ({
            let unary = unary_frame(method_id, request_id, bytes@);
            let item = stream_frame(method_id, request_id, item_view(Some(Ok(bytes))));
            let error = stream_frame(method_id, request_id, item_view(Some(Err(text))));
            let end = stream_frame(method_id, request_id, item_view(None));
            &&& unary.frame_type is Response && unary.payload == bytes@
            &&& item.frame_type is StreamItem && item.payload == bytes@
            &&& error.frame_type is StreamError && error.payload == encoded_string(text@)
            &&& end.frame_type is StreamEnd && end.payload.len() == 0
            &&& unary.method_id == method_id && unary.request_id == request_id
            &&& item.method_id == method_id && item.request_id == request_id
            &&& error.method_id == method_id && error.request_id == request_id
            &&& end.method_id == method_id && end.request_id == request_id
        }),
{
}

/// A streaming answer goes on after every item, and after nothing else.
pub proof fn stream_goes_on_after_items_only(bytes: Seq<u8>, text: Seq<char>)
    ensures
        stays_open(Some(Ok(bytes))),
        !stays_open(Some(Err(text))),
        !stays_open(None),
{
}

} // verus!
