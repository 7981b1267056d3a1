//! What the two sides of a connection can rely on together.

use crate::client::{carries, delivered, pending_after, refusal_frame, request_frame, yielded, Delivery,
    PendingRequest};
use crate::frame::{frames_are_read_back, frames_bytes, frames_read, FrameModel};
use crate::server::{item_view, stream_frame, streamed_frames, unary_frame, BytesPoll, ErasedStream,
    ItemPoll};
use crate::wire::{buffer_contents, decoded_reply, encoded_failure, encoded_string,
    failure_round_trip, string_round_trip};
use vstd::prelude::*;

verus! {

/// The calls that still wait after several frames came in.
pub open spec fn pending_after_all<U, S>(
    pending: Map<u64, PendingRequest<U, S>>,
    frames: Seq<FrameModel>,
) -> Map<u64, PendingRequest<U, S>>
    decreases frames.len(),
{
    if frames.len() == 0 {
        pending
    } else {
        pending_after(pending_after_all(pending, frames.drop_last()), frames.last())
    }
}

/// What the taker of a stream sees of what the stream yielded: every item, and
/// the first error, if there is one before the end.
pub open spec fn stream_values(items: Seq<Option<Result<Seq<u8>, Seq<char>>>>) -> Seq<
    Result<Seq<u8>, Seq<char>>,
>
    decreases items.len(),
{
    if items.len() == 0 {
        Seq::empty()
    } else {
        match items[0] {
            None => Seq::empty(),
            Some(Err(text)) => seq![Err::<Seq<u8>, Seq<char>>(text)],
            Some(Ok(bytes)) => seq![Ok::<Seq<u8>, Seq<char>>(bytes)] + stream_values(items.skip(1)),
        }
    }
}

/// A single frame is read back as it was written.
proof fn one_frame_is_read_back(frame: FrameModel)
    requires
        frame.fits(),
    ensures
        frames_read(None, frame.bytes()) == (seq![frame], false),
{
    frames_are_read_back(seq![frame]);
    reveal_with_fuel(frames_bytes, 2);
    assert(seq![frame].skip(1) =~= Seq::<FrameModel>::empty());
    assert(frames_bytes(seq![frame]) =~= frame.bytes());
}

/// A request reaches the server as the client made it, and is a request there.
pub proof fn request_arrives(method_id: u16, request_id: u64, payload: Seq<u8>)
    requires
        payload.len() < 0x1_0000_0000,
    ensures
        frames_read(None, request_frame(method_id, request_id, payload).bytes()) == (
            seq![request_frame(method_id, request_id, payload)],
            false,
        ),
        request_frame(method_id, request_id, payload).frame_type is Request,
{
    one_frame_is_read_back(request_frame(method_id, request_id, payload));
}

/// The answer to a unary call is read by the client as the server made it,
/// completes exactly the call that it answers, with exactly its payload, and
/// leaves every other call waiting.
pub proof fn answer_completes_its_call<U, S>(
    pending: Map<u64, PendingRequest<U, S>>,
    method_id: u16,
    request_id: u64,
    payload: Seq<u8>,
    waiting: U,
    delivery: Delivery<U, S>,
)
    requires
        payload.len() < 0x1_0000_0000,
        pending.contains_key(request_id),
        pending[request_id] == PendingRequest::<U, S>::Unary(waiting),
        delivered(pending, unary_frame(method_id, request_id, payload), delivery),
    ensures
        frames_read(None, unary_frame(method_id, request_id, payload).bytes()) == (
            seq![unary_frame(method_id, request_id, payload)],
            false,
        ),
        delivery matches Delivery::Complete(w, buffer) && w == waiting && buffer_contents(buffer)
            == payload,
        pending_after(pending, unary_frame(method_id, request_id, payload)) == pending.remove(
            request_id,
        ),
{
    one_frame_is_read_back(unary_frame(method_id, request_id, payload));
}

/// A call that the server could not dispatch fails at the client with the text
/// of the server's error.
pub proof fn refusal_reaches_the_caller<U, S>(
    pending: Map<u64, PendingRequest<U, S>>,
    method_id: u16,
    request_id: u64,
    text: Seq<char>,
    waiting: U,
    delivery: Delivery<U, S>,
)
    requires
        encoded_failure(text).len() < 0x1_0000_0000,
        pending.contains_key(request_id),
        pending[request_id] == PendingRequest::<U, S>::Unary(waiting),
        delivered(pending, unary_frame(method_id, request_id, encoded_failure(text)), delivery),
    ensures
        frames_read(None, unary_frame(method_id, request_id, encoded_failure(text)).bytes()) == (
            seq![unary_frame(method_id, request_id, encoded_failure(text))],
            false,
        ),
        delivery matches Delivery::Complete(w, buffer) && w == waiting && decoded_reply(
            buffer_contents(buffer),
        ) == Ok::<Result<(), Seq<char>>, Seq<char>>(Err(text)),
{
    one_frame_is_read_back(unary_frame(method_id, request_id, encoded_failure(text)));
    failure_round_trip(text, Seq::empty());
    assert(encoded_failure(text) + Seq::<u8>::empty() =~= encoded_failure(text));
}

/// A streaming call that the server refused is handed the error: its stream
/// yields the text of the server's error and ends.
pub proof fn refused_stream_yields_its_error<U, S>(
    pending: Map<u64, PendingRequest<U, S>>,
    method_id: u16,
    request_id: u64,
    text: Seq<char>,
    waiting: S,
    delivery: Delivery<U, S>,
)
    requires
        encoded_failure(text).len() < 0x1_0000_0000,
        pending.contains_key(request_id),
        pending[request_id] == PendingRequest::<U, S>::Stream(waiting),
        delivered(pending, unary_frame(method_id, request_id, encoded_failure(text)), delivery),
    ensures
        ({
            let frame = unary_frame(method_id, request_id, encoded_failure(text));
            let handed = refusal_frame(frame, text);
            &&& frames_read(None, frame.bytes()) == (seq![frame], false)
            &&& delivery matches Delivery::Finish(w, stream_frame) && w == waiting && carries(
                stream_frame,
                handed,
            )
            &&& yielded(seq![handed]) == seq![Err::<Seq<u8>, Seq<char>>(text)]
            &&& pending_after(pending, frame) == pending.remove(request_id)
        }),
{
    one_frame_is_read_back(unary_frame(method_id, request_id, encoded_failure(text)));
    failure_round_trip(text, Seq::empty());
    assert(encoded_failure(text) + Seq::<u8>::empty() =~= encoded_failure(text));
    string_round_trip(text, Seq::empty());
    assert(encoded_string(text) + Seq::<u8>::empty() =~= encoded_string(text));
}

/// What comes in for one request changes nothing for the others.
pub proof fn other_calls_are_untouched<U, S>(
    pending: Map<u64, PendingRequest<U, S>>,
    frame: FrameModel,
    other: u64,
)
    requires
        other != frame.request_id,
    ensures
        pending_after(pending, frame).contains_key(other) == pending.contains_key(other),
        pending_after(pending, frame)[other] == pending[other],
{
}

/// A call is answered at most once: after a response, an end or an error, no
/// frame for the same request is handed to anybody.
pub proof fn calls_are_answered_once<U, S>(
    pending: Map<u64, PendingRequest<U, S>>,
    last: FrameModel,
    late: FrameModel,
    delivery: Delivery<U, S>,
)
    requires
        last.frame_type is Response || last.frame_type is StreamEnd
            || last.frame_type is StreamError,
        late.request_id == last.request_id,
        delivered(pending_after(pending, last), late, delivery),
    ensures
        delivery is Discard || delivery is Unexpected,
        pending_after(pending_after(pending, last), late) == pending_after(pending, last),
{
    assert(pending_after(pending_after(pending, last), late) =~= pending_after(pending, last));
}

/// A streaming answer yields at the client what the stream yielded at the
/// server: every item in order, with its bytes, and the text of the error that
/// ended it, if one did.
pub proof fn stream_arrives(
    method_id: u16,
    request_id: u64,
    items: Seq<Option<Result<Seq<u8>, Seq<char>>>>,
)
    requires
        forall|i: int|
            0 <= i < items.len() ==> (#[trigger] stream_frame(
                method_id,
                request_id,
                items[i],
            )).fits(),
    ensures
        frames_read(None, frames_bytes(streamed_frames(method_id, request_id, items))) == (
            streamed_frames(method_id, request_id, items),
            false,
        ),
        yielded(streamed_frames(method_id, request_id, items)) == stream_values(items),
{
    streamed_frames_fit(method_id, request_id, items);
    frames_are_read_back(streamed_frames(method_id, request_id, items));
    streamed_frames_yield(method_id, request_id, items);
}

/// The frames of a streaming answer fit if what the stream yielded does.
proof fn streamed_frames_fit(
    method_id: u16,
    request_id: u64,
    items: Seq<Option<Result<Seq<u8>, Seq<char>>>>,
)
    requires
        forall|i: int|
            0 <= i < items.len() ==> (#[trigger] stream_frame(
                method_id,
                request_id,
                items[i],
            )).fits(),
    ensures
        forall|i: int|
            0 <= i < streamed_frames(method_id, request_id, items).len() ==> (
            #[trigger] streamed_frames(method_id, request_id, items)[i]).fits(),
    decreases items.len(),
{
    if items.len() > 0 {
        assert(stream_frame(method_id, request_id, items[0]).fits());
        let rest = items.skip(1);
        assert forall|i: int| 0 <= i < rest.len() implies (#[trigger] stream_frame(
            method_id,
            request_id,
            rest[i],
        )).fits() by {
            assert(stream_frame(method_id, request_id, items[i + 1]).fits());
        }
        streamed_frames_fit(method_id, request_id, rest);
        let frames = streamed_frames(method_id, request_id, items);
        let behind = streamed_frames(method_id, request_id, rest);
        assert forall|i: int| 0 <= i < frames.len() implies (#[trigger] frames[i]).fits() by {
            if i > 0 {
                assert(frames[i] == behind[i - 1]);
            }
        }
    }
}

/// What a streaming call yields of the frames of a streaming answer.
proof fn streamed_frames_yield(
    method_id: u16,
    request_id: u64,
    items: Seq<Option<Result<Seq<u8>, Seq<char>>>>,
)
    ensures
        yielded(streamed_frames(method_id, request_id, items)) == stream_values(items),
    decreases items.len(),
{
    if items.len() > 0 {
        let frames = streamed_frames(method_id, request_id, items);
        match items[0] {
            Some(Ok(_)) => {
                streamed_frames_yield(method_id, request_id, items.skip(1));
                assert(frames.skip(1) =~= streamed_frames(method_id, request_id, items.skip(1)));
            },
            Some(Err(text)) => {
                string_round_trip(text, Seq::empty());
                assert(encoded_string(text) + Seq::<u8>::empty() =~= encoded_string(text));
            },
            None => {},
        }
    }
}

/// The call that a stream answers stays registered until the last frame of the
/// answer, and every frame of it is handed to who takes the stream.
pub proof fn stream_is_delivered<U, S>(
    pending: Map<u64, PendingRequest<U, S>>,
    method_id: u16,
    request_id: u64,
    items: Seq<Option<Result<Seq<u8>, Seq<char>>>>,
    n: int,
    delivery: Delivery<U, S>,
)
    requires
        pending.contains_key(request_id),
        pending[request_id] is Stream,
        0 <= n < streamed_frames(method_id, request_id, items).len(),
        delivered(
            pending_after_all(pending, streamed_frames(method_id, request_id, items).take(n)),
            streamed_frames(method_id, request_id, items)[n],
            delivery,
        ),
    ensures
        pending_after_all(pending, streamed_frames(method_id, request_id, items).take(n))
            == pending,
        match delivery {
            Delivery::Forward(handed) => carries(
                handed,
                streamed_frames(method_id, request_id, items)[n],
            ),
            Delivery::Finish(taker, handed) => pending[request_id] == PendingRequest::<
                U,
                S,
            >::Stream(taker) && carries(handed, streamed_frames(method_id, request_id, items)[n]),
            _ => false,
        },
{
    stream_stays_registered(pending, method_id, request_id, items, n);
    streamed_frame_kinds(method_id, request_id, items, n);
}

/// The frames of a streaming answer that come before another leave every call
/// registered.
proof fn stream_stays_registered<U, S>(
    pending: Map<u64, PendingRequest<U, S>>,
    method_id: u16,
    request_id: u64,
    items: Seq<Option<Result<Seq<u8>, Seq<char>>>>,
    n: int,
)
    requires
        0 <= n < streamed_frames(method_id, request_id, items).len(),
    ensures
        pending_after_all(pending, streamed_frames(method_id, request_id, items).take(n))
            == pending,
    decreases n,
{
    let frames = streamed_frames(method_id, request_id, items);
    if n > 0 {
        stream_stays_registered(pending, method_id, request_id, items, n - 1);
        streamed_frame_kinds(method_id, request_id, items, n - 1);
        assert(frames.take(n).drop_last() =~= frames.take(n - 1));
    }
}

/// The frames of a streaming answer name its request; all but the last are
/// items.
proof fn streamed_frame_kinds(
    method_id: u16,
    request_id: u64,
    items: Seq<Option<Result<Seq<u8>, Seq<char>>>>,
    n: int,
)
    requires
        0 <= n < streamed_frames(method_id, request_id, items).len(),
    ensures
        ({
            let frames = streamed_frames(method_id, request_id, items);
            &&& frames[n].request_id == request_id
            &&& n < frames.len() - 1 ==> frames[n].frame_type is StreamItem
            &&& frames[n].frame_type is StreamItem || frames[n].frame_type is StreamEnd
                || frames[n].frame_type is StreamError
        }),
    decreases n,
{
    if n > 0 {
        streamed_frame_kinds(method_id, request_id, items.skip(1), n - 1);
    }
}

/// What a stream yields, poll by poll: each item as it was serialized, up to the
/// first failure, which may be one of serializing, or up to its end.
pub open spec fn polled_values(polls: Seq<ItemPoll>) -> Seq<Result<Seq<u8>, Seq<char>>>
    decreases polls.len(),
{
    if polls.len() == 0 {
        Seq::empty()
    } else {
        match polls[0] {
            ItemPoll::Pending => polled_values(polls.skip(1)),
            ItemPoll::Ended => Seq::empty(),
            ItemPoll::Failed(text) => seq![Err::<Seq<u8>, Seq<char>>(text@)],
            ItemPoll::Item(Err(text)) => seq![Err::<Seq<u8>, Seq<char>>(text@)],
            ItemPoll::Item(Ok(bytes)) => seq![Ok::<Seq<u8>, Seq<char>>(bytes@)] + polled_values(
                polls.skip(1),
            ),
        }
    }
}

/// What the server sends messages for when it polls a stream: everything but
/// that there is no item yet.
pub open spec fn polled_items(polls: Seq<ItemPoll>) -> Seq<Option<Result<Seq<u8>, Seq<char>>>>
    decreases polls.len(),
{
    if polls.len() == 0 {
        Seq::empty()
    } else {
        match polls[0].next_bytes() {
            BytesPoll::Pending => polled_items(polls.skip(1)),
            BytesPoll::Ready(item) => seq![item_view(item)] + polled_items(polls.skip(1)),
        }
    }
}

/// What is sent for the polls of a stream yields at the client what the stream
/// yielded: the serialized items in order and the text of the error that ended
/// it, if one did.
pub proof fn polled_stream_arrives(method_id: u16, request_id: u64, polls: Seq<ItemPoll>)
    requires
        forall|i: int|
            0 <= i < polled_items(polls).len() ==> (#[trigger] stream_frame(
                method_id,
                request_id,
                polled_items(polls)[i],
            )).payload.len() < 0x1_0000_0000,
    ensures
        frames_read(
            None,
            frames_bytes(streamed_frames(method_id, request_id, polled_items(polls))),
        ) == (streamed_frames(method_id, request_id, polled_items(polls)), false),
        yielded(streamed_frames(method_id, request_id, polled_items(polls))) == polled_values(
            polls,
        ),
{
    let items = polled_items(polls);
    assert forall|i: int| 0 <= i < items.len() implies (#[trigger] stream_frame(
        method_id,
        request_id,
        items[i],
    )).fits() by {
        assert(stream_frame(method_id, request_id, items[i]).payload.len() < 0x1_0000_0000);
    }
    stream_arrives(method_id, request_id, items);
    polled_items_have_the_values(polls);
}

/// What is sent for the polls of a stream has the values of the stream.
proof fn polled_items_have_the_values(polls: Seq<ItemPoll>)
    ensures
        stream_values(polled_items(polls)) == polled_values(polls),
    decreases polls.len(),
{
    if polls.len() > 0 {
        polled_items_have_the_values(polls.skip(1));
        let rest = polled_items(polls.skip(1));
        if let BytesPoll::Ready(item) = polls[0].next_bytes() {
            let all = seq![item_view(item)] + rest;
            assert(all.skip(1) =~= rest);
        }
    }
}

} // verus!
