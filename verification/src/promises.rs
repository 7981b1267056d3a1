//! What calls of the library's functions give, stated of the calls themselves:
//! how the results of one or more calls relate to what the functions were
//! called with.

use std::sync::Arc;

use bytes::Bytes;

use crate::client::{finish_call, finish_unit_call, goes_on, is_worth_a_warning, on_stream_frame,
    CallError, ClientInner, Delivery, PendingRequest, Retry, RetryAction, RetryEvent, StreamFrame,
    StreamStep};
use crate::codegen::{client_method, dispatch_arm, generate_client_method, generate_dispatch_arm,
    generate_method_id, generate_request_struct, method_id_constant, methods_view, request_struct};
use crate::frame::{decode_stream_header, encode_message, encode_stream_header, header_bytes,
    header_round_trip, le_bytes, le_bytes_len, parsed_header_round_trip, Frame, FrameReader, FrameType,
    ReadOutcome};
use crate::http_client::{failure_message, is_success, HttpClient, HttpRequest};
use crate::http_codegen::{any_http, body_args, body_struct, generate_body_struct,
    generate_http_client_method, generate_http_client_stub, generate_http_handler,
    generate_http_routes, generate_query_struct, generate_route, http_client_method,
    http_client_stub, http_handler, http_routes, query_struct, route_registration};
use crate::method::{attr_method, attrs_may_read, find_http_attr, http_method_of, info_of_method,
    method_model, parse_http_attrs, parse_method, read_literal, route_of_attrs, attrs_route,
    check_route_string, text_view, AttrArgs, AttrDef, AttrError, AttrProblem, MethodDef, MethodInfo,
    MethodModel, TraitDef, TraitItemDef};
use crate::naming::{pascal_case, snake_case, to_pascal_case, to_snake_case};
use crate::route::{parse_route, route, HttpMethod, HttpRoute, RouteModel};
use crate::server::{answer, on_frame, Answer, BytesPoll, DispatchResult, ErasedStream, Incoming,
    ItemPoll, Server, ServerEncoding, StreamAnswer, StreamResponse, UnaryResponse};
use crate::service::{collect_methods, expand, expands_to, generate_service, items_may_read,
    read_literals, reads_view, service, trait_methods, Expansion, MethodError};
use crate::text::{number_of, decimal_stands_for_its_number};
use crate::wire::{buffer_contents, decode_reply, decode_string, decoded_reply, decoded_string,
    encoded_failure, encoded_string, failure_round_trip, string_round_trip};
use vstd::prelude::*;

verus! {

/// A header that was encoded is decoded to what it was encoded from.
pub proof fn encoded_headers_are_decoded(
    frame_type: FrameType,
    method_id: u16,
    request_id: u64,
    payload_len: u32,
    header: [u8; 15],
    decoded: Option<(FrameType, u16, u64, u32)>,
)
    requires
        call_ensures(
            encode_stream_header,
            (frame_type, method_id, request_id, payload_len),
            header,
        ),
        call_ensures(decode_stream_header, (&header,), decoded),
    ensures
        decoded == Some((frame_type, method_id, request_id, payload_len)),
{
    header_round_trip(frame_type, method_id, request_id, payload_len);
}

/// A header that is decoded is the one that encodes what it was decoded to.
pub proof fn decoded_headers_are_encoded(
    header: [u8; 15],
    frame_type: FrameType,
    method_id: u16,
    request_id: u64,
    payload_len: u32,
    encoded: [u8; 15],
)
    requires
        call_ensures(
            decode_stream_header,
            (&header,),
            Some((frame_type, method_id, request_id, payload_len)),
        ),
        call_ensures(
            encode_stream_header,
            (frame_type, method_id, request_id, payload_len),
            encoded,
        ),
    ensures
        encoded@ == header@,
{
    parsed_header_round_trip(header@);
}

/// A header has a byte for the frame type, two for the method, eight for the
/// request and four for the length of the payload, the low-order byte first.
pub proof fn headers_have_their_fields_in_order(
    frame_type: FrameType,
    method_id: u16,
    request_id: u64,
    payload_len: u32,
    header: [u8; 15],
)
    requires
        call_ensures(
            encode_stream_header,
            (frame_type, method_id, request_id, payload_len),
            header,
        ),
    ensures
        header@.len() == 15,
        header@[0] == match frame_type {
            FrameType::Request => 0u8,
            FrameType::Response => 1u8,
            FrameType::StreamItem => 2u8,
            FrameType::StreamEnd => 3u8,
            FrameType::StreamError => 4u8,
        },
        method_id == header@[1] + 0x100 * header@[2],
        request_id == header@[3] + 0x100 * header@[4] + 0x1_0000 * header@[5] + 0x100_0000
            * header@[6] + 0x1_0000_0000 * header@[7] + 0x100_0000_0000 * header@[8]
            + 0x1_0000_0000_0000 * header@[9] + 0x100_0000_0000_0000 * header@[10],
        payload_len == header@[11] + 0x100 * header@[12] + 0x1_0000 * header@[13] + 0x100_0000
            * header@[14],
{
    reveal_with_fuel(le_bytes, 9);
    le_bytes_len(method_id as nat, 2);
    le_bytes_len(request_id as nat, 8);
    le_bytes_len(payload_len as nat, 4);
    let bytes = header_bytes(frame_type, method_id, request_id, payload_len);
    let method = le_bytes(method_id as nat, 2);
    let request = le_bytes(request_id as nat, 8);
    let len = le_bytes(payload_len as nat, 4);
    assert(forall|k: int| 0 <= k < 2 ==> bytes[1 + k] == #[trigger] method[k]);
    assert(forall|k: int| 0 <= k < 8 ==> bytes[3 + k] == #[trigger] request[k]);
    assert(forall|k: int| 0 <= k < 4 ==> bytes[11 + k] == #[trigger] len[k]);
    assert(method[0] == method_id % 256 && method[1] == method_id / 256 % 256);
    low_bytes(payload_len as nat, len);
    low_bytes(request_id as nat, request);
    low_bytes(request_id as nat / 0x1_0000_0000, request.skip(4));
}

/// The first four bytes of a number stand for what it is below their range.
proof fn low_bytes(n: nat, bytes: Seq<u8>)
    requires
        bytes.len() >= 4,
        bytes == le_bytes(n, bytes.len()),
    ensures
        n % 0x1_0000_0000 == bytes[0] + 0x100 * bytes[1] + 0x1_0000 * bytes[2] + 0x100_0000
            * bytes[3],
        bytes.skip(4) == le_bytes(n / 0x1_0000_0000, (bytes.len() - 4) as nat),
{
    reveal_with_fuel(le_bytes, 5);
    let a = n / 256;
    let b = a / 256;
    let c = b / 256;
    let d = c / 256;
    let w = bytes.len();
    le_bytes_len(d, (w - 4) as nat);
    let rest = le_bytes(d, (w - 4) as nat);
    assert(bytes =~= seq![(n % 256) as u8, (a % 256) as u8, (b % 256) as u8, (c % 256) as u8]
        + rest);
    assert(bytes.skip(4) =~= rest);
    assert(n / 0x1_0000_0000 == d);
}

/// A message is a header for its payload and then the payload.
pub proof fn messages_are_header_and_payload(
    frame_type: FrameType,
    method_id: u16,
    request_id: u64,
    payload: &[u8],
    message: Vec<u8>,
    header: [u8; 15],
)
    requires
        payload@.len() < 0x1_0000_0000,
        call_ensures(encode_message, (frame_type, method_id, request_id, payload), message),
        call_ensures(
            encode_stream_header,
            (frame_type, method_id, request_id, payload@.len() as u32),
            header,
        ),
    ensures
        message@ == header@ + payload@,
{
}

/// A reader begins before a header, for whose bytes it asks.
pub proof fn readers_begin_with_a_header(reader: FrameReader, count: usize, inside: bool)
    requires
        call_ensures(FrameReader::new, (), reader),
        call_ensures(FrameReader::wanted, (&reader,), count),
        call_ensures(FrameReader::interrupted, (&reader,), inside),
    ensures
        count == 15,
        !inside,
{
}

/// A reader that is given an encoded header asks for the payload that the header
/// announces, and given that makes the frame of both and begins again.
pub proof fn readers_put_frames_together(
    frame_type: FrameType,
    method_id: u16,
    request_id: u64,
    header: [u8; 15],
    bytes: Vec<u8>,
    payload: Vec<u8>,
    reader: &mut FrameReader,
    outcome: ReadOutcome,
    count: usize,
    inside: bool,
    later: &mut FrameReader,
    complete: ReadOutcome,
    next: usize,
    inside_next: bool,
)
    requires
        payload@.len() < 0x1_0000_0000,
        call_ensures(
            encode_stream_header,
            (frame_type, method_id, request_id, payload@.len() as u32),
            header,
        ),
        bytes@ == header@,
        call_ensures(FrameReader::new, (), *old(reader)),
        call_ensures(FrameReader::accept, (reader, bytes), outcome),
        call_ensures(FrameReader::wanted, (&*final(reader),), count),
        call_ensures(FrameReader::interrupted, (&*final(reader),), inside),
        *old(later) == *final(reader),
        call_ensures(FrameReader::accept, (later, payload), complete),
        call_ensures(FrameReader::wanted, (&*final(later),), next),
        call_ensures(FrameReader::interrupted, (&*final(later),), inside_next),
    ensures
        outcome is HeaderRead,
        count == payload@.len(),
        inside,
        complete matches ReadOutcome::Complete(frame) && frame.frame_type == frame_type
            && frame.method_id == method_id && frame.request_id == request_id && frame.payload@
            == payload@,
        next == 15,
        !inside_next,
{
    header_round_trip(frame_type, method_id, request_id, payload@.len() as u32);
}

/// A reader that is given no valid header says so and begins again.
pub proof fn readers_skip_invalid_headers(
    header: [u8; 15],
    bytes: Vec<u8>,
    reader: &mut FrameReader,
    outcome: ReadOutcome,
    inside: bool,
)
    requires
        call_ensures(decode_stream_header, (&header,), None),
        bytes@ == header@,
        call_ensures(FrameReader::new, (), *old(reader)),
        call_ensures(FrameReader::accept, (reader, bytes), outcome),
        call_ensures(FrameReader::interrupted, (&*final(reader),), inside),
    ensures
        outcome is Invalid,
        !inside,
{
}

/// A server dispatches requests, with everything that they carry, and nothing
/// else.
pub proof fn servers_dispatch_requests(frame: Frame, incoming: Incoming)
    requires
        call_ensures(on_frame, (frame,), incoming),
    ensures
        incoming is Dispatch <==> frame.frame_type is Request,
        incoming matches Incoming::Dispatch { method_id, request_id, payload } ==> method_id
            == frame.method_id && request_id == frame.request_id && payload == frame.payload,
        incoming is Unexpected <==> frame.frame_type is Response,
{
}

/// A unary result is answered by one message, which is a response to the request
/// with the serialized result for its payload.
pub proof fn unary_results_are_answered<S>(
    method_id: u16,
    request_id: u64,
    payload: Vec<u8>,
    slice: &[u8],
    answered: Answer<S>,
    message: Vec<u8>,
)
    requires
        slice@ == payload@,
        call_ensures(
            answer::<S>,
            (method_id, request_id, DispatchResult::<S>::Unary(payload)),
            answered,
        ),
        call_ensures(
            encode_message,
            (FrameType::Response, method_id, request_id, slice),
            message,
        ),
    ensures
        answered matches Answer::Message(sent) && sent@ == message@,
{
}

/// A call that could not be dispatched is answered by one message, which is a
/// response to the request that reads as a failure with the text of the error.
pub proof fn errors_are_answered<S>(
    method_id: u16,
    request_id: u64,
    text: String,
    answered: Answer<S>,
    payload: &[u8],
    message: Vec<u8>,
)
    requires
        call_ensures(
            answer::<S>,
            (method_id, request_id, DispatchResult::<S>::Error(text)),
            answered,
        ),
        payload@ == encoded_failure(text@),
        call_ensures(
            encode_message,
            (FrameType::Response, method_id, request_id, payload),
            message,
        ),
    ensures
        answered matches Answer::Message(sent) && sent@ == message@,
        decoded_reply(payload@) == Ok::<Result<(), Seq<char>>, Seq<char>>(Err(text@)),
{
    failure_round_trip(text@, Seq::empty());
    assert(encoded_failure(text@) + Seq::<u8>::empty() =~= encoded_failure(text@));
}

/// A stream is answered by its own messages, which are still to come.
pub proof fn streams_are_answered_by_their_messages<S>(
    method_id: u16,
    request_id: u64,
    stream: S,
    answered: Answer<S>,
)
    requires
        call_ensures(
            answer::<S>,
            (method_id, request_id, DispatchResult::<S>::Stream(stream)),
            answered,
        ),
    ensures
        answered matches Answer::Streaming(progress, polled) && polled == stream && progress.open
            && progress.method_id == method_id && progress.request_id == request_id,
{
}

/// An item of a stream is sent as it is, and the answer goes on.
pub proof fn items_are_sent_as_they_are(
    progress: &mut StreamAnswer,
    bytes: Vec<u8>,
    slice: &[u8],
    sent: Vec<u8>,
    message: Vec<u8>,
)
    requires
        slice@ == bytes@,
        call_ensures(StreamAnswer::next_message, (progress, Some(Ok(bytes))), sent),
        call_ensures(
            encode_message,
            (
                FrameType::StreamItem,
                old(progress).method_id,
                old(progress).request_id,
                slice,
            ),
            message,
        ),
    ensures
        sent@ == message@,
        *final(progress) == *old(progress),
{
}

/// The error of a stream is sent as its text and closes the answer.
pub proof fn stream_errors_are_sent_as_their_text(
    progress: &mut StreamAnswer,
    text: String,
    sent: Vec<u8>,
    payload: &[u8],
    message: Vec<u8>,
)
    requires
        call_ensures(StreamAnswer::next_message, (progress, Some(Err(text))), sent),
        payload@ == encoded_string(text@),
        call_ensures(
            encode_message,
            (
                FrameType::StreamError,
                old(progress).method_id,
                old(progress).request_id,
                payload,
            ),
            message,
        ),
    ensures
        sent@ == message@,
        decoded_string(payload@) == Some(text@),
        !final(progress).open,
        final(progress).method_id == old(progress).method_id,
        final(progress).request_id == old(progress).request_id,
{
    string_round_trip(text@, Seq::empty());
    assert(encoded_string(text@) + Seq::<u8>::empty() =~= encoded_string(text@));
}

/// The end of a stream is sent without a payload and closes the answer.
pub proof fn stream_ends_are_sent_without_payload(
    progress: &mut StreamAnswer,
    sent: Vec<u8>,
    payload: &[u8],
    message: Vec<u8>,
)
    requires
        call_ensures(StreamAnswer::next_message, (progress, None), sent),
        payload@.len() == 0,
        call_ensures(
            encode_message,
            (
                FrameType::StreamEnd,
                old(progress).method_id,
                old(progress).request_id,
                payload,
            ),
            message,
        ),
    ensures
        sent@ == message@,
        !final(progress).open,
        final(progress).method_id == old(progress).method_id,
        final(progress).request_id == old(progress).request_id,
{
    assert(payload@ =~= Seq::empty());
}

/// A message that could not be written closes a streaming answer, one that was
/// written changes nothing.
pub proof fn failed_writes_close_the_answer(progress: &mut StreamAnswer, success: bool)
    requires
        call_ensures(StreamAnswer::written, (progress, success), ()),
    ensures
        success ==> *final(progress) == *old(progress),
        !success ==> !final(progress).open,
        final(progress).method_id == old(progress).method_id,
        final(progress).request_id == old(progress).request_id,
{
}

/// A server holds the service and the dispatch function that it was made with.
pub proof fn servers_hold_what_they_were_made_with<T, D>(
    service: Arc<T>,
    dispatch: D,
    server: Server<T, D>,
)
    requires
        call_ensures(Server::<T, D>::from_arc, (service, dispatch), server),
    ensures
        server.service == service,
        server.dispatch == dispatch,
{
}

/// Responses become dispatch results as they are.
pub proof fn responses_are_dispatched_as_they_are<S>(
    encoded: Result<Vec<u8>, String>,
    opened: Result<S, String>,
    unary: DispatchResult<S>,
    stream: DispatchResult<S>,
)
    requires
        call_ensures(
            <UnaryResponse as ServerEncoding<S>>::into_dispatch,
            (UnaryResponse { encoded },),
            unary,
        ),
        call_ensures(
            <StreamResponse<S> as ServerEncoding<S>>::into_dispatch,
            (StreamResponse { opened },),
            stream,
        ),
    ensures
        unary == match encoded {
            Ok(bytes) => DispatchResult::<S>::Unary(bytes),
            Err(text) => DispatchResult::<S>::Error(text),
        },
        stream == match opened {
            Ok(s) => DispatchResult::<S>::Stream(s),
            Err(text) => DispatchResult::<S>::Error(text),
        },
{
}

/// Polling gives what the stream yielded.
pub proof fn polls_give_what_was_yielded(polled: ItemPoll, given: BytesPoll)
    requires
        call_ensures(<ItemPoll as ErasedStream>::poll_next_bytes, (polled,), given),
    ensures
        given == match polled {
            ItemPoll::Pending => BytesPoll::Pending,
            ItemPoll::Ended => BytesPoll::Ready(None),
            ItemPoll::Failed(text) => BytesPoll::Ready(Some(Err(text))),
            ItemPoll::Item(encoded) => BytesPoll::Ready(Some(encoded)),
        },
{
}

/// A client begins with nobody waiting, and gives its first request the number
/// one.
pub proof fn clients_begin_with_nobody_waiting<U, S>(addr: &str, inner: ClientInner<U, S>)
    requires
        call_ensures(ClientInner::<U, S>::new, (addr,), inner),
    ensures
        inner.addr@ == addr@,
        inner.connected,
        inner.next_request_id == 1,
        forall|id: u64| !inner.pending@.contains_key(id),
{
}

/// A call that begins sends a request with its method, its number and its
/// payload. Who makes it waits under that number, which nobody waited under
/// before, and everybody else goes on waiting.
pub proof fn calls_begin_with_a_request<U, S>(
    inner: &mut ClientInner<U, S>,
    method_id: u16,
    payload: Vec<u8>,
    slice: &[u8],
    request: PendingRequest<U, S>,
    begun: Result<(u64, Vec<u8>), CallError>,
    message: Vec<u8>,
)
    requires
        slice@ == payload@,
        old(inner).connected,
        call_ensures(
            ClientInner::<U, S>::begin_call,
            (inner, method_id, Ok(payload), request),
            begun,
        ),
        call_ensures(
            encode_message,
            (FrameType::Request, method_id, old(inner).next_request_id, slice),
            message,
        ),
    ensures
        begun matches Ok((id, sent)) && id == old(inner).next_request_id && sent@ == message@,
        final(inner).pending@ == old(inner).pending@.insert(old(inner).next_request_id, request),
        final(inner).next_request_id == (old(inner).next_request_id + 1)
            % 0x1_0000_0000_0000_0000,
        final(inner).addr == old(inner).addr,
        final(inner).connected,
        old(inner).wf() && old(inner).next_request_id < u64::MAX ==> !old(
            inner,
        ).pending@.contains_key(old(inner).next_request_id) && final(inner).wf(),
{
}

/// A request that could not be serialized, or for which there is no connection,
/// makes nobody wait.
pub proof fn failed_calls_make_nobody_wait<U, S>(
    inner: &mut ClientInner<U, S>,
    method_id: u16,
    encoded: Result<Vec<u8>, String>,
    request: PendingRequest<U, S>,
    begun: Result<(u64, Vec<u8>), CallError>,
)
    requires
        encoded is Err || !old(inner).connected,
        call_ensures(
            ClientInner::<U, S>::begin_call,
            (inner, method_id, encoded, request),
            begun,
        ),
    ensures
        begun == match encoded {
            Err(text) => Err::<(u64, Vec<u8>), CallError>(CallError::Encode(text)),
            Ok(_) => Err::<(u64, Vec<u8>), CallError>(CallError::Cancelled),
        },
        final(inner).pending@ == old(inner).pending@,
        final(inner).next_request_id == (old(inner).next_request_id + 1)
            % 0x1_0000_0000_0000_0000,
        final(inner).connected == old(inner).connected,
        final(inner).addr == old(inner).addr,
{
}

/// A request that could not be sent is taken back, and fails with the text of
/// the failure.
pub proof fn unsent_calls_are_taken_back<U, S>(
    inner: &mut ClientInner<U, S>,
    request_id: u64,
    text: String,
    error: CallError,
)
    requires
        call_ensures(ClientInner::<U, S>::send_failed, (inner, request_id, text), error),
    ensures
        error == CallError::Send(text),
        final(inner).pending@ == old(inner).pending@.remove(request_id),
        final(inner).next_request_id == old(inner).next_request_id,
        final(inner).connected == old(inner).connected,
        final(inner).addr == old(inner).addr,
{
}

/// Without its connection, and on a new one, nobody waits any more, and numbers
/// are not given out again.
pub proof fn new_connections_forget_the_calls<U, S>(
    inner: &mut ClientInner<U, S>,
    other: &mut ClientInner<U, S>,
)
    requires
        call_ensures(ClientInner::<U, S>::disconnected, (inner,), ()),
        call_ensures(ClientInner::<U, S>::reconnected, (other,), ()),
    ensures
        !final(inner).connected,
        final(other).connected,
        forall|id: u64| !final(inner).pending@.contains_key(id),
        forall|id: u64| !final(other).pending@.contains_key(id),
        final(inner).next_request_id == old(inner).next_request_id,
        final(other).next_request_id == old(other).next_request_id,
        final(inner).addr == old(inner).addr,
        final(other).addr == old(other).addr,
{
}

/// A response completes the unary call that it names, with its payload, and
/// that call waits no more. Every other call goes on waiting.
pub proof fn responses_complete_their_call<U, S>(
    inner: &mut ClientInner<U, S>,
    frame: Frame,
    waiting: U,
    delivery: Delivery<U, S>,
)
    requires
        frame.frame_type is Response,
        old(inner).pending@.contains_key(frame.request_id),
        old(inner).pending@[frame.request_id] == PendingRequest::<U, S>::Unary(waiting),
        call_ensures(ClientInner::<U, S>::deliver, (inner, frame), delivery),
    ensures
        delivery matches Delivery::Complete(w, payload) && w == waiting && buffer_contents(payload)
            == frame.payload@,
        final(inner).pending@ == old(inner).pending@.remove(frame.request_id),
        final(inner).next_request_id == old(inner).next_request_id,
        final(inner).connected == old(inner).connected,
{
}

/// A frame of a stream is handed as it is to the streaming call that it names.
/// An item leaves the call waiting, the end and an error do not.
pub proof fn stream_frames_are_handed_on<U, S>(
    inner: &mut ClientInner<U, S>,
    frame: Frame,
    waiting: S,
    delivery: Delivery<U, S>,
    taker: Option<&S>,
)
    requires
        frame.frame_type is StreamItem || frame.frame_type is StreamEnd
            || frame.frame_type is StreamError,
        old(inner).pending@.contains_key(frame.request_id),
        old(inner).pending@[frame.request_id] == PendingRequest::<U, S>::Stream(waiting),
        call_ensures(ClientInner::<U, S>::deliver, (inner, frame), delivery),
        call_ensures(ClientInner::<U, S>::stream_of, (&*final(inner), frame.request_id), taker),
    ensures
        frame.frame_type is StreamItem ==> {
            &&& delivery matches Delivery::Forward(handed) && handed.frame_type
                == frame.frame_type && buffer_contents(handed.payload) == frame.payload@
            &&& final(inner).pending@ == old(inner).pending@
            &&& taker matches Some(t) && *t == waiting
        },
        !(frame.frame_type is StreamItem) ==> {
            &&& delivery matches Delivery::Finish(w, handed) && w == waiting && handed.frame_type
                == frame.frame_type && buffer_contents(handed.payload) == frame.payload@
            &&& final(inner).pending@ == old(inner).pending@.remove(frame.request_id)
            &&& taker is None
        },
{
}

/// A frame that nobody waits for reaches nobody.
pub proof fn frames_for_nobody_reach_nobody<U, S>(
    inner: &mut ClientInner<U, S>,
    frame: Frame,
    delivery: Delivery<U, S>,
)
    requires
        !old(inner).pending@.contains_key(frame.request_id),
        call_ensures(ClientInner::<U, S>::deliver, (inner, frame), delivery),
    ensures
        delivery is Discard || delivery is Unexpected,
        final(inner).pending@ =~= old(inner).pending@,
{
}

/// A response that refuses a streaming call fails the stream with its text.
pub proof fn refused_streams_fail_with_the_text<U, S>(
    inner: &mut ClientInner<U, S>,
    frame: Frame,
    text: Seq<char>,
    waiting: S,
    delivery: Delivery<U, S>,
    step: StreamStep,
)
    requires
        frame.frame_type is Response,
        frame.payload@ == encoded_failure(text),
        old(inner).pending@.contains_key(frame.request_id),
        old(inner).pending@[frame.request_id] == PendingRequest::<U, S>::Stream(waiting),
        call_ensures(ClientInner::<U, S>::deliver, (inner, frame), delivery),
        delivery matches Delivery::Finish(_, handed) ==> call_ensures(
            on_stream_frame,
            (&handed,),
            step,
        ),
    ensures
        delivery matches Delivery::Finish(w, _) && w == waiting,
        step matches StreamStep::Fail(t) && t@ == text,
        final(inner).pending@ == old(inner).pending@.remove(frame.request_id),
{
    failure_round_trip(text, Seq::empty());
    assert(encoded_failure(text) + Seq::<u8>::empty() =~= encoded_failure(text));
    string_round_trip(text, Seq::empty());
    assert(encoded_string(text) + Seq::<u8>::empty() =~= encoded_string(text));
}

/// A streaming call acts on a frame by its type.
pub proof fn streaming_calls_act_on_frames(frame: StreamFrame, step: StreamStep)
    requires
        call_ensures(on_stream_frame, (&frame,), step),
    ensures
        step is ReadItem <==> frame.frame_type is StreamItem,
        step is End <==> frame.frame_type is StreamEnd,
        step is Fail <==> frame.frame_type is StreamError,
        forall|text: Seq<char>|
            frame.frame_type is StreamError && buffer_contents(frame.payload)
                == #[trigger] encoded_string(text) ==> (step matches StreamStep::Fail(t) && t@
                == text),
{
    assert forall|text: Seq<char>|
        frame.frame_type is StreamError && buffer_contents(frame.payload)
            == #[trigger] encoded_string(text) implies (step matches StreamStep::Fail(t) && t@
        == text) by {
        string_round_trip(text, Seq::empty());
        assert(encoded_string(text) + Seq::<u8>::empty() =~= encoded_string(text));
    }
}

/// A call has the outcome of its answer.
pub proof fn calls_have_the_outcome_of_their_answer<T>(
    answered: Option<Result<Result<T, String>, String>>,
    outcome: Result<T, CallError>,
)
    requires
        call_ensures(finish_call::<T>, (answered,), outcome),
    ensures
        outcome == match answered {
            None => Err::<T, CallError>(CallError::Cancelled),
            Some(Err(text)) => Err::<T, CallError>(CallError::Decode(text)),
            Some(Ok(Err(text))) => Err::<T, CallError>(CallError::Remote(text)),
            Some(Ok(Ok(value))) => Ok::<T, CallError>(value),
        },
{
}

/// A call without a value fails with the text of the server's error, succeeds
/// when the server says so, and is cancelled if no answer came.
pub proof fn unit_calls_have_the_outcome_of_their_answer(
    payload: Bytes,
    text: Seq<char>,
    rest: Seq<u8>,
    outcome: Result<(), CallError>,
    lost: Result<(), CallError>,
)
    requires
        call_ensures(finish_unit_call, (Some(payload),), outcome),
        call_ensures(finish_unit_call, (None,), lost),
    ensures
        buffer_contents(payload) == encoded_failure(text) + rest ==> (outcome matches Err(
            CallError::Remote(t),
        ) && t@ == text),
        buffer_contents(payload) == seq![0u8] + rest ==> outcome is Ok,
        lost matches Err(CallError::Cancelled),
{
    failure_round_trip(text, rest);
}

/// A stream goes on after an item that was read and taken, and only then.
pub proof fn streams_go_on_after_taken_items<T>(item: Result<T, String>, taken: bool, on: bool)
    requires
        call_ensures(goes_on::<T>, (&item, taken), on),
    ensures
        on <==> item is Ok && taken,
{
}

/// Only what says that it was canceled is not worth a warning.
pub proof fn cancellations_are_not_worth_a_warning(
    error: &str,
    before: Seq<char>,
    behind: Seq<char>,
    warn: bool,
)
    requires
        call_ensures(is_worth_a_warning, (error,), warn),
    ensures
        error@ == before + "canceled"@ + behind ==> !warn,
        !warn ==> exists|a: Seq<char>, b: Seq<char>| error@ == #[trigger] (a + "canceled"@ + b),
{
    if error@ == before + "canceled"@ + behind {
        crate::text::pattern_stands_where_it_was_put(before, "canceled"@, behind);
    }
    if !warn {
        let parts = crate::text::found_pattern_is_there(error@, "canceled"@);
        assert(error@ == parts.0 + "canceled"@ + parts.1);
    }
}

/// A call is first made on the connection that there is.
pub proof fn calls_are_made_first<R>(retry: Retry, action: RetryAction<R>)
    requires
        call_ensures(Retry::new, (), retry),
        call_ensures(Retry::first::<R>, (&retry,), action),
    ensures
        action is Call,
        retry.attempts == 0,
{
}

/// What is done after an event of a call: only a lost connection leads to a new
/// one and another try, three times at most.
pub proof fn calls_are_tried_again_on_lost_connections<R>(
    retry: &mut Retry,
    event: RetryEvent<R>,
    action: RetryAction<R>,
)
    requires
        call_ensures(Retry::next::<R>, (retry, event), action),
    ensures
        action is Reconnect <==> (old(retry).attempts < 3 && (event matches RetryEvent::Called(
            Err(e),
        ) && (e is Send || e is Cancelled || e is Connect))),
        action is Reconnect ==> final(retry).attempts == old(retry).attempts + 1,
        !(action is Reconnect) ==> final(retry).attempts == old(retry).attempts,
        action is Call <==> (event matches RetryEvent::Reconnected(Ok(_))),
        action matches RetryAction::Done(outcome) ==> match event {
            RetryEvent::Called(called) => outcome == called,
            RetryEvent::Reconnected(Err(text)) => outcome == Err::<R, CallError>(
                CallError::Connect(text),
            ),
            RetryEvent::Reconnected(Ok(_)) => false,
        },
{
}

/// Strings and answers are read back from what they were written to.
pub proof fn payloads_are_read_back(
    bytes: &[u8],
    text: Seq<char>,
    rest: Seq<u8>,
    string: Option<String>,
    reply: Result<Result<(), String>, String>,
)
    requires
        call_ensures(decode_string, (bytes,), string),
        call_ensures(decode_reply, (bytes,), reply),
    ensures
        bytes@ == encoded_string(text) + rest ==> (string matches Some(s) && s@ == text),
        bytes@ == encoded_failure(text) + rest ==> (reply matches Ok(Err(s)) && s@ == text),
        bytes@ == seq![0u8] + rest ==> (reply matches Ok(Ok(_))),
{
    string_round_trip(text, rest);
    failure_round_trip(text, rest);
}

/// A client over HTTP keeps its base URL without the slashes at the end and
/// sends to it with what it was made with.
pub proof fn http_clients_drop_trailing_slashes<C>(
    base_url: &str,
    sender: C,
    client: HttpClient<C>,
    base: &str,
    kept: &C,
)
    requires
        call_ensures(HttpClient::<C>::with_client, (base_url, sender), client),
        call_ensures(HttpClient::<C>::base_url, (&client,), base),
        call_ensures(HttpClient::<C>::client, (&client,), kept),
    ensures
        *kept == sender,
        base@.is_prefix_of(base_url@),
        forall|i: int| base@.len() <= i < base_url@.len() ==> base_url@[i] == '/',
        base@.len() > 0 ==> base@.last() != '/',
{
    crate::text::trimmed_end_is_trimmed(base_url@, '/');
}

/// A request goes to the path behind the base URL, with the method and the body
/// that were asked for and with the query if it has parameters.
pub proof fn http_requests_are_made_as_asked<C, M, B>(
    client: HttpClient<C>,
    base: &str,
    method: M,
    path: &str,
    query: Vec<(String, String)>,
    body: Option<B>,
    request: HttpRequest<M, B>,
)
    requires
        call_ensures(HttpClient::<C>::base_url, (&client,), base),
        call_ensures(
            HttpClient::<C>::request::<M, B>,
            (&client, method, path, query, body),
            request,
        ),
    ensures
        request.method == method,
        request.url@ == base@ + path@,
        request.body == body,
        query@.len() == 0 ==> request.query is None,
        query@.len() > 0 ==> request.query == Some(query),
{
}

/// A status from 200 up to 299 is a success, and no other.
pub proof fn successes_are_judged_by_their_status(status: u16, success: bool)
    requires
        call_ensures(is_success, (status,), success),
    ensures
        success <==> 200 <= status <= 299,
{
}

/// The error for any other status names it twice and ends in the body.
pub proof fn failures_name_their_status(
    status: u16,
    body: Option<String>,
    text: String,
) -> (digits: Seq<char>)
    requires
        call_ensures(failure_message, (status, body), text),
    ensures
        number_of(digits) == status,
        forall|i: int| 0 <= i < digits.len() ==> '0' <= #[trigger] digits[i] <= '9',
        text@ == "HTTP "@ + digits + " "@ + digits + ": "@ + match body {
            Some(b) => b@,
            None => Seq::empty(),
        },
{
    decimal_stands_for_its_number(status as nat);
    crate::text::decimal(status as nat)
}

/// Names and routes are what they are said to be.
pub proof fn names_and_routes_are_made_as_said(
    s: &str,
    method: HttpMethod,
    snake: String,
    pascal: String,
    named: Option<HttpMethod>,
    parsed: HttpRoute,
    constant: &'static str,
    router: &'static str,
)
    requires
        call_ensures(to_snake_case, (s,), snake),
        call_ensures(to_pascal_case, (s,), pascal),
        call_ensures(HttpMethod::from_str, (s,), named),
        call_ensures(parse_route, (s, method), parsed),
        call_ensures(HttpMethod::to_tokens, (method,), constant),
        call_ensures(HttpMethod::to_axum_method, (method,), router),
    ensures
        snake@ == snake_case(s@),
        pascal@ == pascal_case(s@),
        named == HttpMethod::named(s@),
        parsed@ == route(s@, method),
        constant@ == method.constant(),
        router@ == method.router(),
{
}

/// The code for a method is what it is said to be.
pub proof fn method_code_is_generated_as_said(
    method: MethodInfo,
    index: u16,
    trait_name: &str,
    request: String,
    id: String,
    client: String,
    arm: String,
    http_client: Option<String>,
    stub: String,
    query: Option<String>,
    body: Option<String>,
    handler: Option<String>,
    registration: Option<String>,
)
    requires
        call_ensures(generate_request_struct, (&method,), request),
        call_ensures(generate_method_id, (&method, index), id),
        call_ensures(generate_client_method, (&method, index, trait_name), client),
        call_ensures(generate_dispatch_arm, (&method, index), arm),
        call_ensures(generate_http_client_method, (&method,), http_client),
        call_ensures(generate_http_client_stub, (&method,), stub),
        call_ensures(generate_query_struct, (&method,), query),
        call_ensures(generate_body_struct, (&method,), body),
        call_ensures(generate_http_handler, (&method, trait_name), handler),
        call_ensures(generate_route, (&method,), registration),
    ensures
        request@ == request_struct(method@),
        id@ == method_id_constant(method@, index as nat),
        client@ == client_method(method@, index as nat, trait_name@),
        arm@ == dispatch_arm(method@, index as nat),
        stub@ == http_client_stub(method@),
        method@.http is None ==> http_client is None && query is None && body is None
            && handler is None && registration is None,
        method@.http matches Some(r) ==> {
            &&& http_client matches Some(c) && c@ == http_client_method(method@, r)
            &&& handler matches Some(c) && c@ == http_handler(method@, r, trait_name@)
            &&& registration matches Some(c) && c@ == route_registration(method@, r)
            &&& query is Some <==> r.query_params.len() > 0
            &&& query matches Some(c) ==> c@ == query_struct(method@, r)
            &&& body is Some <==> body_args(method@, r).len() > 1
            &&& body matches Some(c) ==> c@ == body_struct(method@, r)
        },
{
}

/// The code for the routes of a service is what it is said to be.
pub proof fn route_code_is_generated_as_said(
    methods: Vec<MethodInfo>,
    trait_name: &str,
    trait_vis: &str,
    any: bool,
    code: String,
)
    requires
        call_ensures(any_http, (&methods,), any),
        call_ensures(generate_http_routes, (&methods, trait_name, trait_vis), code),
    ensures
        any <==> exists|i: int| 0 <= i < methods@.len() && (#[trigger] methods@[i]).http is Some,
        code@ == http_routes(methods_view(methods@), trait_name@, trait_vis@),
{
    if any {
        let all = methods_view(methods@);
        let i = choose|i: int| 0 <= i < all.len() && (#[trigger] all[i]).http is Some;
        assert(methods@[i].http is Some);
    }
    if exists|i: int| 0 <= i < methods@.len() && (#[trigger] methods@[i]).http is Some {
        let i = choose|i: int| 0 <= i < methods@.len() && (#[trigger] methods@[i]).http is Some;
        assert(methods_view(methods@)[i].http is Some);
    }
}

/// The route of a method is the one that its attributes give for the text that
/// was read from them.
pub proof fn routes_are_taken_from_attributes(
    attrs: Vec<AttrDef>,
    read: Option<String>,
    given: Result<Option<HttpRoute>, AttrError>,
    parsed: Result<Option<HttpRoute>, AttrError>,
)
    requires
        call_ensures(read_literal, (&attrs,), read),
        call_ensures(route_of_attrs, (&attrs, read), given),
        call_ensures(parse_http_attrs, (&attrs,), parsed),
        crate::method::attrs_are_plain(attrs@),
    ensures
        attrs_may_read(attrs@, text_view(read)),
        attrs_route(attrs@, text_view(read)) == match given {
            Ok(None) => Ok::<Option<RouteModel>, AttrError>(None),
            Ok(Some(r)) => Ok::<Option<RouteModel>, AttrError>(Some(r@)),
            Err(error) => Err::<Option<RouteModel>, AttrError>(error),
        },
        attrs_route(attrs@, text_view(read)) == match parsed {
            Ok(None) => Ok::<Option<RouteModel>, AttrError>(None),
            Ok(Some(r)) => Ok::<Option<RouteModel>, AttrError>(Some(r@)),
            Err(error) => Err::<Option<RouteModel>, AttrError>(error),
        },
{
    let other = choose|other: Option<Seq<char>>| #[trigger]
        attrs_may_read(attrs@, other) && crate::method::is_route_of(attrs@, other, parsed);
    crate::method::plain_attributes_are_read_alike(attrs@, text_view(read), other);
}

/// What is known of a method follows from what is written and read.
pub proof fn methods_are_known_by_what_is_written(
    def: MethodDef,
    read: Option<String>,
    parsed: Result<MethodInfo, AttrError>,
)
    requires
        call_ensures(info_of_method, (&def, read), parsed),
    ensures
        method_model(def, text_view(read)) == match parsed {
            Ok(info) => Ok::<MethodModel, AttrError>(info@),
            Err(error) => Err::<MethodModel, AttrError>(error),
        },
{
}

/// A trait is expanded by what was read from it.
pub proof fn traits_are_expanded_as_said(
    def: TraitDef,
    reads: Vec<Option<String>>,
    not_send: bool,
    collected: Result<Vec<MethodInfo>, MethodError>,
    expansion: Expansion,
)
    requires
        call_ensures(read_literals, (&def.items,), reads),
        call_ensures(collect_methods, (&def.items, &reads), collected),
        call_ensures(expand, (&def, &reads, not_send), expansion),
    ensures
        items_may_read(def.items@, reads_view(reads@)),
        trait_methods(def.items@, reads_view(reads@)) == match collected {
            Ok(methods) => Ok::<Seq<MethodModel>, MethodError>(methods_view(methods@)),
            Err(e) => Err::<Seq<MethodModel>, MethodError>(e),
        },
        expands_to(def, reads_view(reads@), not_send, expansion),
{
}

/// The argument `?Send` of the mark, and nothing else, allows futures that are
/// not `Send`.
pub proof fn marks_decide_on_send(
    attr: &str,
    def: TraitDef,
    before: Seq<char>,
    behind: Seq<char>,
    expansion: Expansion,
)
    requires
        call_ensures(service, (attr, &def), expansion),
    ensures
        attr@ == before + "?Send"@ + behind ==> exists|reads: Seq<Option<Seq<char>>>| #[trigger]
            items_may_read(def.items@, reads) && expands_to(def, reads, true, expansion),
        !crate::text::has_substring(attr@, "?Send"@) ==> exists|reads: Seq<Option<Seq<char>>>|
            #[trigger]
            items_may_read(def.items@, reads) && expands_to(def, reads, false, expansion),
{
    if attr@ == before + "?Send"@ + behind {
        crate::text::pattern_stands_where_it_was_put(before, "?Send"@, behind);
    }
}

/// The first byte of a header stands for its frame type.
pub proof fn headers_begin_with_the_frame_type(
    frame_type: FrameType,
    method_id: u16,
    request_id: u64,
    payload_len: u32,
    header: [u8; 15],
    read: Option<FrameType>,
)
    requires
        call_ensures(
            encode_stream_header,
            (frame_type, method_id, request_id, payload_len),
            header,
        ),
        call_ensures(FrameType::from_code, (header@[0],), read),
    ensures
        read == Some(frame_type),
{
    header_round_trip(frame_type, method_id, request_id, payload_len);
}

/// An error is told by its text, and those of the connection are told from the
/// others.
pub proof fn errors_are_told_apart(error: CallError, text: String, failure: bool)
    requires
        call_ensures(CallError::message, (&error,), text),
        call_ensures(CallError::is_connection_failure, (&error,), failure),
    ensures
        text@ == match error {
            CallError::Connect(t) | CallError::Encode(t) | CallError::Send(t) | CallError::Decode(
                t,
            ) | CallError::Remote(t) => t@,
            CallError::Cancelled => "Request cancelled - connection lost"@,
        },
        failure <==> error is Connect || error is Send || error is Cancelled,
{
}

/// A new client sends with a default sender. A copy sends to the same base URL.
pub proof fn http_clients_are_made_and_copied<C: Clone + Default>(
    base_url: &str,
    client: HttpClient<C>,
    base: &str,
    copy: HttpClient<C>,
    base_of_copy: &str,
)
    requires
        call_ensures(HttpClient::<C>::new, (base_url,), client),
        call_ensures(HttpClient::<C>::base_url, (&client,), base),
        call_ensures(<HttpClient<C> as Clone>::clone, (&client,), copy),
        call_ensures(HttpClient::<C>::base_url, (&copy,), base_of_copy),
    ensures
        base@.is_prefix_of(base_url@),
        forall|i: int| base@.len() <= i < base_url@.len() ==> base_url@[i] == '/',
        base@.len() > 0 ==> base@.last() != '/',
        base_of_copy@ == base@,
        call_ensures(C::default, (), client.sender()),
        cloned::<C>(client.sender(), copy.sender()),
{
    crate::text::trimmed_end_is_trimmed(base_url@, '/');
}

/// Texts are put together, searched and changed as they are said to be.
pub proof fn texts_are_worked_on_as_said(
    parts: Vec<String>,
    s: &str,
    other: &str,
    replacement: &str,
    name: String,
    n: u16,
    c: char,
    joined: String,
    listed: bool,
    found: bool,
    replaced: String,
    trimmed: String,
    digits: String,
)
    requires
        other@.len() > 0,
        call_ensures(crate::text::join, (&parts, s), joined),
        call_ensures(crate::text::contains, (&parts, &name), listed),
        call_ensures(crate::text::contains_text, (s, other), found),
        call_ensures(crate::text::replace, (s, other, replacement), replaced),
        call_ensures(crate::text::trim_end, (s, c), trimmed),
        call_ensures(crate::text::to_decimal, (n,), digits),
    ensures
        joined@ == crate::text::joined(crate::text::texts(parts@), s@),
        listed <==> exists|i: int| 0 <= i < parts@.len() && (#[trigger] parts@[i])@ == name@,
        found <==> exists|i: int|
            0 <= i <= s@.len() - other@.len() && #[trigger] s@.subrange(i, i + other@.len())
                == other@,
        replaced@ == crate::text::replaced(s@, other@, replacement@),
        trimmed@.is_prefix_of(s@),
        forall|i: int| trimmed@.len() <= i < s@.len() ==> s@[i] == c,
        trimmed@.len() > 0 ==> trimmed@.last() != c,
        number_of(digits@) == n,
{
    crate::text::trimmed_end_is_trimmed(s@, c);
    decimal_stands_for_its_number(n as nat);
    let all = crate::text::texts(parts@);
    if listed {
        let i = choose|i: int| 0 <= i < all.len() && all[i] == name@;
        assert(parts@[i]@ == name@);
    }
    if exists|i: int| 0 <= i < parts@.len() && (#[trigger] parts@[i])@ == name@ {
        let i = choose|i: int| 0 <= i < parts@.len() && (#[trigger] parts@[i])@ == name@;
        assert(all[i] == name@);
    }
    if found {
        let i = choose|i: int| crate::text::occurs_at(s@, other@, i);
        assert(s@.subrange(i, i + other@.len()) == other@);
    }
    if exists|i: int|
        0 <= i <= s@.len() - other@.len() && #[trigger] s@.subrange(i, i + other@.len())
            == other@ {
        let i = choose|i: int|
            0 <= i <= s@.len() - other@.len() && #[trigger] s@.subrange(i, i + other@.len())
                == other@;
        assert(crate::text::occurs_at(s@, other@, i));
    }
}

/// An attribute names an HTTP method if its path is the one name of it. The
/// first attribute that does is found, and none if none does.
pub proof fn http_attributes_are_found(
    attrs: Vec<AttrDef>,
    attr: AttrDef,
    name: &str,
    method: Option<HttpMethod>,
    named: Option<HttpMethod>,
    found: Option<(usize, HttpMethod)>,
)
    requires
        call_ensures(http_method_of, (&attr,), method),
        attr.path@.len() == 1 ==> name@ == attr.path@[0]@,
        call_ensures(HttpMethod::from_str, (name,), named),
        call_ensures(find_http_attr, (&attrs,), found),
    ensures
        method == if attr.path@.len() == 1 {
            named
        } else {
            None
        },
        found matches Some((i, m)) ==> {
            &&& i < attrs@.len()
            &&& attr_method(attrs@[i as int]) == Some(m)
            &&& forall|j: int| 0 <= j < i ==> attr_method(#[trigger] attrs@[j]) is None
        },
        found is None ==> forall|j: int|
            0 <= j < attrs@.len() ==> attr_method(#[trigger] attrs@[j]) is None,
{
    crate::method::first_http_attribute_is_first(attrs@, 0);
}

/// A route is given by a literal in parentheses, and by nothing else.
pub proof fn routes_stand_in_parentheses(
    args: AttrArgs,
    read: Option<String>,
    checked: Result<String, AttrProblem>,
)
    requires
        call_ensures(check_route_string, (&args, read), checked),
    ensures
        checked matches Ok(s) ==> args is Tokens && (read matches Some(t) && t@ == s@),
        checked matches Err(problem) ==> problem == match args {
            AttrArgs::Absent => AttrProblem::NoArguments,
            AttrArgs::Value => AttrProblem::NoParentheses,
            AttrArgs::Tokens(_) => AttrProblem::NoLiteral,
        },
        checked is Err <==> !(args is Tokens) || read is None,
{
}

/// A method or a trait whose attributes are plain is known and expanded by what
/// is read from them.
pub proof fn plain_definitions_are_expanded_by_what_is_read(
    method: MethodDef,
    read: Option<String>,
    parsed: Result<MethodInfo, AttrError>,
    def: TraitDef,
    reads: Vec<Option<String>>,
    not_send: bool,
    expansion: Expansion,
)
    requires
        crate::method::attrs_are_plain(method.attrs@),
        call_ensures(read_literal, (&method.attrs,), read),
        call_ensures(parse_method, (&method,), parsed),
        forall|i: int| 0 <= i < def.items@.len() ==> match #[trigger] def.items@[i] {
            TraitItemDef::Method(m) => crate::method::attrs_are_plain(m.attrs@),
            TraitItemDef::Other(_) => true,
        },
        call_ensures(read_literals, (&def.items,), reads),
        call_ensures(generate_service, (&def, not_send), expansion),
    ensures
        method_model(method, text_view(read)) == match parsed {
            Ok(info) => Ok::<MethodModel, AttrError>(info@),
            Err(error) => Err::<MethodModel, AttrError>(error),
        },
        expands_to(def, reads_view(reads@), not_send, expansion),
{
    let other = choose|other: Option<Seq<char>>| #[trigger]
        attrs_may_read(method.attrs@, other) && crate::method::is_info_of(method, other, parsed);
    crate::method::plain_attributes_are_read_alike(method.attrs@, text_view(read), other);
    let others = choose|others: Seq<Option<Seq<char>>>| #[trigger]
        items_may_read(def.items@, others) && expands_to(def, others, not_send, expansion);
    crate::service::plain_traits_have_one_expansion(def.items@, reads_view(reads@), others);
}

} // verus!
