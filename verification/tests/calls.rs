use rsrpc::client::{
    finish_call, finish_unit_call, goes_on, is_worth_a_warning, on_stream_frame, CallError,
    ClientInner, Delivery, PendingRequest, Retry, RetryAction, RetryEvent, StreamStep, MAX_ATTEMPTS,
};
use rsrpc::frame::{encode_message, Frame, FrameReader, ReadOutcome};
use rsrpc::server::{
    answer, on_frame, Answer, BytesPoll, Incoming, ItemPoll, StreamAnswer, StreamResponse,
    UnaryResponse,
};
use rsrpc::wire::{decode_reply, decode_string};
use rsrpc::{DispatchResult, ErasedStream, FrameType, Server, ServerEncoding, StreamFrame};
use std::sync::Arc;

type Inner = ClientInner<&'static str, &'static str>;

fn frame(frame_type: FrameType, request_id: u64, payload: &[u8]) -> Frame {
    Frame { frame_type, method_id: 4, request_id, payload: payload.to_vec() }
}

#[test]
fn calls_get_numbers_from_one() {
    let mut inner: Inner = ClientInner::new("127.0.0.1:9000");
    assert_eq!(inner.addr, "127.0.0.1:9000");
    let (first, message) = inner
        .begin_call(4, Ok(vec![5, 6]), PendingRequest::Unary("a"))
        .unwrap();
    assert_eq!(first, 1);
    assert_eq!(message, encode_message(FrameType::Request, 4, 1, &[5, 6]));
    let (second, _) = inner
        .begin_call(4, Ok(vec![]), PendingRequest::Stream("b"))
        .unwrap();
    assert_eq!(second, 2);
    assert_eq!(inner.pending.len(), 2);
}

#[test]
fn unserializable_request_uses_up_a_number() {
    let mut inner: Inner = ClientInner::new("addr");
    let failed = inner.begin_call(4, Err("no".to_string()), PendingRequest::Unary("a"));
    assert!(matches!(failed, Err(CallError::Encode(ref text)) if text == "no"));
    assert!(inner.pending.is_empty());
    let (id, _) = inner.begin_call(4, Ok(vec![]), PendingRequest::Unary("a")).unwrap();
    assert_eq!(id, 2);
}

#[test]
fn numbers_wrap_around() {
    let mut inner: Inner = ClientInner::new("addr");
    inner.next_request_id = u64::MAX;
    let (id, _) = inner.begin_call(4, Ok(vec![]), PendingRequest::Unary("a")).unwrap();
    assert_eq!(id, u64::MAX);
    assert_eq!(inner.next_request_id, 0);
}

#[test]
fn unsent_call_is_taken_back() {
    let mut inner: Inner = ClientInner::new("addr");
    let (id, _) = inner.begin_call(4, Ok(vec![]), PendingRequest::Unary("a")).unwrap();
    let error = inner.send_failed(id, "broken pipe".to_string());
    assert_eq!(error.message(), "broken pipe");
    assert!(inner.pending.is_empty());
}

#[test]
fn reconnecting_forgets_waiting_calls() {
    let mut inner: Inner = ClientInner::new("addr");
    inner.begin_call(4, Ok(vec![]), PendingRequest::Unary("a")).unwrap();
    inner.begin_call(4, Ok(vec![]), PendingRequest::Stream("b")).unwrap();
    inner.reconnected();
    assert!(inner.connected);
    assert!(inner.pending.is_empty());
    assert_eq!(inner.next_request_id, 3);
}

#[test]
fn end_of_the_connection_forgets_waiting_calls() {
    let mut inner: Inner = ClientInner::new("addr");
    assert!(inner.connected);
    inner.begin_call(4, Ok(vec![]), PendingRequest::Unary("a")).unwrap();
    inner.begin_call(4, Ok(vec![]), PendingRequest::Stream("b")).unwrap();
    inner.disconnected();
    assert!(!inner.connected);
    assert!(inner.pending.is_empty());
    assert_eq!(inner.next_request_id, 3);
    let refused = inner.begin_call(4, Ok(vec![]), PendingRequest::Unary("c"));
    assert!(matches!(refused, Err(CallError::Cancelled)));
    let unserializable = inner.begin_call(4, Err("no".to_string()), PendingRequest::Unary("d"));
    assert!(matches!(unserializable, Err(CallError::Encode(_))));
    assert!(inner.pending.is_empty());
    inner.reconnected();
    let (id, _) = inner.begin_call(4, Ok(vec![]), PendingRequest::Unary("e")).unwrap();
    assert_eq!(id, 5);
}

#[test]
fn response_completes_a_unary_call_once() {
    let mut inner: Inner = ClientInner::new("addr");
    inner.begin_call(4, Ok(vec![]), PendingRequest::Unary("a")).unwrap();
    inner.begin_call(4, Ok(vec![]), PendingRequest::Unary("b")).unwrap();
    match inner.deliver(frame(FrameType::Response, 2, b"two")) {
        Delivery::Complete(waiting, payload) => {
            assert_eq!(waiting, "b");
            assert_eq!(payload.as_ref(), b"two");
        }
        other => panic!("{other:?}"),
    }
    assert_eq!(inner.pending.len(), 1);
    assert!(matches!(
        inner.deliver(frame(FrameType::Response, 2, b"two")),
        Delivery::Discard
    ));
    assert!(inner.pending.contains_key(&1));
}

#[test]
fn stream_frames_go_to_their_call() {
    let mut inner: Inner = ClientInner::new("addr");
    inner.begin_call(4, Ok(vec![]), PendingRequest::Stream("s")).unwrap();
    match inner.deliver(frame(FrameType::StreamItem, 1, b"item")) {
        Delivery::Forward(item) => {
            assert_eq!(item.frame_type, FrameType::StreamItem);
            assert_eq!(item.payload.as_ref(), b"item");
        }
        other => panic!("{other:?}"),
    }
    assert_eq!(inner.stream_of(1), Some(&"s"));
    assert_eq!(inner.stream_of(2), None);
    match inner.deliver(frame(FrameType::StreamEnd, 1, b"")) {
        Delivery::Finish(waiting, last) => {
            assert_eq!(waiting, "s");
            assert_eq!(last.frame_type, FrameType::StreamEnd);
        }
        other => panic!("{other:?}"),
    }
    assert_eq!(inner.stream_of(1), None);
    assert!(matches!(
        inner.deliver(frame(FrameType::StreamItem, 1, b"late")),
        Delivery::Discard
    ));
}

#[test]
fn frames_of_the_wrong_kind_reach_nobody() {
    let mut inner: Inner = ClientInner::new("addr");
    inner.begin_call(4, Ok(vec![]), PendingRequest::Unary("a")).unwrap();
    inner.begin_call(4, Ok(vec![]), PendingRequest::Stream("s")).unwrap();
    assert!(matches!(
        inner.deliver(frame(FrameType::StreamItem, 1, b"")),
        Delivery::Discard
    ));
    assert!(inner.pending.contains_key(&1));
    assert!(matches!(
        inner.deliver(frame(FrameType::Request, 1, b"")),
        Delivery::Unexpected
    ));
    assert!(inner.pending.contains_key(&1));
    assert!(matches!(
        inner.deliver(frame(FrameType::StreamError, 1, b"")),
        Delivery::Discard
    ));
    assert!(!inner.pending.contains_key(&1));
    assert!(matches!(
        inner.deliver(frame(FrameType::Response, 2, &[0])),
        Delivery::Discard
    ));
    assert!(!inner.pending.contains_key(&2));
    inner.begin_call(4, Ok(vec![]), PendingRequest::Stream("t")).unwrap();
    assert!(matches!(
        inner.deliver(frame(FrameType::Response, 3, &[])),
        Delivery::Discard
    ));
}

#[test]
fn outcomes_of_a_call() {
    assert!(matches!(finish_call(Some(Ok(Ok(5)))), Ok(5)));
    assert!(matches!(
        finish_call::<i32>(Some(Ok(Err("remote".to_string())))),
        Err(CallError::Remote(ref text)) if text == "remote"
    ));
    assert!(matches!(
        finish_call::<i32>(Some(Err("garbled".to_string()))),
        Err(CallError::Decode(ref text)) if text == "garbled"
    ));
    let lost = finish_call::<i32>(None).unwrap_err();
    assert!(matches!(lost, CallError::Cancelled));
    assert_eq!(lost.message(), "Request cancelled - connection lost");
    assert_eq!(CallError::Connect("c".to_string()).message(), "c");
    assert_eq!(CallError::Encode("e".to_string()).message(), "e");
    assert_eq!(CallError::Decode("d".to_string()).message(), "d");
    assert_eq!(CallError::Remote("r".to_string()).message(), "r");
}

#[test]
fn answers_without_a_value_are_read() {
    assert!(finish_unit_call(Some(bytes::Bytes::from(vec![0]))).is_ok());
    let failed = finish_unit_call(Some(bytes::Bytes::from(vec![1, 2, b'n', b'o']))).unwrap_err();
    assert!(matches!(failed, CallError::Remote(ref text) if text == "no"));
    let garbled = finish_unit_call(Some(bytes::Bytes::from(vec![7]))).unwrap_err();
    assert!(matches!(garbled, CallError::Decode(_)));
    assert!(matches!(finish_unit_call(None), Err(CallError::Cancelled)));
}

#[test]
fn stream_frames_become_steps() {
    let step = |frame_type, payload: &[u8]| {
        on_stream_frame(&StreamFrame {
            frame_type,
            payload: bytes::Bytes::from(payload.to_vec()),
        })
    };
    assert!(matches!(step(FrameType::StreamItem, b"x"), StreamStep::ReadItem));
    assert!(matches!(step(FrameType::StreamEnd, b""), StreamStep::End));
    assert!(matches!(
        step(FrameType::StreamError, &[4, b'd', b'i', b's', b'k']),
        StreamStep::Fail(ref text) if text == "disk"
    ));
    assert!(matches!(
        step(FrameType::StreamError, &[]),
        StreamStep::Fail(ref text) if text == "Unknown stream error"
    ));
    assert!(matches!(step(FrameType::Response, b""), StreamStep::Skip));
    assert!(matches!(step(FrameType::Request, b""), StreamStep::Skip));
    assert!(goes_on(&Ok::<i32, String>(1), true));
    assert!(!goes_on(&Ok::<i32, String>(1), false));
    assert!(!goes_on(&Err::<i32, String>("e".to_string()), true));
}

fn lost() -> Result<u8, CallError> {
    Err(CallError::Cancelled)
}

fn unsent(text: &str) -> Result<u8, CallError> {
    Err(CallError::Send(text.to_string()))
}

/// Runs a call whose tries and new connections go as given, and returns the
/// outcome with the number of tries and of new connections.
fn run(
    tries: Vec<Result<u8, CallError>>,
    connections: Vec<Result<(), &str>>,
) -> (Result<u8, String>, usize, usize) {
    let mut retry = Retry::new();
    let mut tries = tries.into_iter();
    let mut connections = connections.into_iter();
    let (mut called, mut connected) = (0, 0);
    let mut action: RetryAction<u8> = retry.first();
    loop {
        action = match action {
            RetryAction::Call => {
                called += 1;
                retry.next(RetryEvent::Called(tries.next().unwrap()))
            }
            RetryAction::Reconnect => {
                connected += 1;
                let connection = connections.next().unwrap().map_err(|e| e.to_string());
                retry.next(RetryEvent::Reconnected(connection))
            }
            RetryAction::Done(outcome) => {
                return (outcome.map_err(|e| e.message()), called, connected)
            }
        };
    }
}

#[test]
fn calls_are_made_on_the_connection_that_there_is() {
    assert!(matches!(Retry::new().first::<u8>(), RetryAction::Call));
    assert_eq!(run(vec![Ok(1)], vec![]), (Ok(1), 1, 0));
}

#[test]
fn lost_connections_lead_to_another_try() {
    assert_eq!(MAX_ATTEMPTS, 3);
    assert_eq!(run(vec![lost(), Ok(2)], vec![Ok(())]), (Ok(2), 2, 1));
    assert_eq!(
        run(vec![lost(), unsent("b"), Ok(3)], vec![Ok(()), Ok(())]),
        (Ok(3), 3, 2)
    );
    assert_eq!(
        run(
            vec![lost(), lost(), lost(), unsent("last"), Ok(5)],
            vec![Ok(()), Ok(()), Ok(()), Ok(())],
        ),
        (Err("last".to_string()), 4, 3)
    );
    assert_eq!(
        run(vec![lost(), Ok(2)], vec![Err("down")]),
        (Err("down".to_string()), 1, 1)
    );
}

#[test]
fn errors_of_the_application_are_returned_at_once() {
    let errors = [
        CallError::Remote("e".to_string()),
        CallError::Decode("e".to_string()),
        CallError::Encode("e".to_string()),
    ];
    for error in errors {
        assert!(!error.is_connection_failure());
        assert_eq!(run(vec![Err(error)], vec![]), (Err("e".to_string()), 1, 0));
    }
    assert_eq!(
        run(vec![lost(), Err(CallError::Remote("e".to_string()))], vec![Ok(())]),
        (Err("e".to_string()), 2, 1)
    );
    assert!(CallError::Cancelled.is_connection_failure());
    assert!(CallError::Send(String::new()).is_connection_failure());
    assert!(CallError::Connect(String::new()).is_connection_failure());
}

#[test]
fn cancellation_is_not_worth_a_warning() {
    assert!(is_worth_a_warning("connection reset"));
    assert!(!is_worth_a_warning("task was canceled"));
    assert!(is_worth_a_warning("task was cancelled"));
}

#[test]
fn server_dispatches_requests_only() {
    match on_frame(frame(FrameType::Request, 8, b"args")) {
        Incoming::Dispatch { method_id, request_id, payload } => {
            assert_eq!((method_id, request_id), (4, 8));
            assert_eq!(payload, b"args");
        }
        other => panic!("{other:?}"),
    }
    for kind in [FrameType::StreamItem, FrameType::StreamEnd, FrameType::StreamError] {
        assert!(matches!(on_frame(frame(kind, 8, b"")), Incoming::Ignore));
    }
    assert!(matches!(
        on_frame(frame(FrameType::Response, 8, b"")),
        Incoming::Unexpected
    ));
}

#[test]
fn responses_become_dispatch_results() {
    let unary: DispatchResult<u8> = UnaryResponse { encoded: Ok(vec![0, 1]) }.into_dispatch();
    assert!(matches!(unary, DispatchResult::Unary(ref bytes) if bytes == &[0, 1]));
    let failed: DispatchResult<u8> =
        UnaryResponse { encoded: Err("bad".to_string()) }.into_dispatch();
    assert!(matches!(failed, DispatchResult::Error(ref text) if text == "bad"));
    assert!(matches!(
        StreamResponse { opened: Ok(9u8) }.into_dispatch(),
        DispatchResult::Stream(9)
    ));
    assert!(matches!(
        StreamResponse::<u8> { opened: Err("shut".to_string()) }.into_dispatch(),
        DispatchResult::Error(ref text) if text == "shut"
    ));
}

#[test]
fn polled_items_become_bytes() {
    assert!(matches!(ItemPoll::Pending.poll_next_bytes(), BytesPoll::Pending));
    assert!(matches!(ItemPoll::Ended.poll_next_bytes(), BytesPoll::Ready(None)));
    assert!(matches!(
        ItemPoll::Failed("e".to_string()).poll_next_bytes(),
        BytesPoll::Ready(Some(Err(ref text))) if text == "e"
    ));
    assert!(matches!(
        ItemPoll::Item(Ok(vec![3])).poll_next_bytes(),
        BytesPoll::Ready(Some(Ok(ref bytes))) if bytes == &[3]
    ));
    assert!(matches!(
        ItemPoll::Item(Err("s".to_string())).poll_next_bytes(),
        BytesPoll::Ready(Some(Err(ref text))) if text == "s"
    ));
}

fn message_of(answer: Answer<u8>) -> Vec<u8> {
    match answer {
        Answer::Message(message) => message,
        other => panic!("{other:?}"),
    }
}

#[test]
fn unary_results_are_answered_as_they_are() {
    let message = message_of(answer(4, 8, DispatchResult::Unary(vec![0, 5])));
    assert_eq!(message, encode_message(FrameType::Response, 4, 8, &[0, 5]));
}

#[test]
fn refused_call_is_answered_with_the_error() {
    let text = "Unknown method ID: 77";
    let message = message_of(answer(77, 8, DispatchResult::Error(text.to_string())));
    let payload = &message[15..];
    assert_eq!(message[0], FrameType::Response.code());
    assert_eq!(payload[0], 1);
    assert_eq!(payload[1] as usize, text.len());
    assert_eq!(&payload[2..], text.as_bytes());
    assert_eq!(decode_reply(payload), Ok(Err(text.to_string())));

    let mut inner: Inner = ClientInner::new("addr");
    inner.next_request_id = 8;
    inner.begin_call(77, Ok(vec![]), PendingRequest::Unary("caller")).unwrap();
    match inner.deliver(frame(FrameType::Response, 8, payload)) {
        Delivery::Complete("caller", buffer) => {
            let failed = finish_unit_call(Some(buffer)).unwrap_err();
            assert_eq!(failed.message(), text);
        }
        other => panic!("{other:?}"),
    }
}

#[test]
fn refused_stream_yields_the_error() {
    let message = message_of(answer(4, 1, DispatchResult::Error("boom".to_string())));
    let mut inner: Inner = ClientInner::new("addr");
    inner.begin_call(4, Ok(vec![]), PendingRequest::Stream("caller")).unwrap();
    match inner.deliver(frame(FrameType::Response, 1, &message[15..])) {
        Delivery::Finish("caller", handed) => {
            assert_eq!(handed.frame_type, FrameType::StreamError);
            assert_eq!(handed.payload.as_ref(), [4, b'b', b'o', b'o', b'm']);
            assert!(matches!(
                on_stream_frame(&handed),
                StreamStep::Fail(ref text) if text == "boom"
            ));
        }
        other => panic!("{other:?}"),
    }
    assert!(inner.pending.is_empty());
}

#[test]
fn streams_are_answered_item_by_item() {
    let mut stream = match answer(4, 8, DispatchResult::Stream(1u8)) {
        Answer::Streaming(stream, 1) => stream,
        other => panic!("{other:?}"),
    };
    assert!(stream.open);
    assert_eq!(
        stream.next_message(Some(Ok(vec![6]))),
        encode_message(FrameType::StreamItem, 4, 8, &[6])
    );
    stream.written(true);
    assert!(stream.open);
    assert_eq!(
        stream.next_message(None),
        encode_message(FrameType::StreamEnd, 4, 8, &[])
    );
    assert!(!stream.open);
}

#[test]
fn failing_stream_is_answered_with_the_error() {
    let mut stream = StreamAnswer { method_id: 4, request_id: 8, open: true };
    let message = stream.next_message(Some(Err("disk full".to_string())));
    assert!(!stream.open);
    assert_eq!(message[0], FrameType::StreamError.code());
    assert_eq!(message[15] as usize, "disk full".len());
    assert_eq!(&message[16..], b"disk full");
    let step = on_stream_frame(&StreamFrame {
        frame_type: FrameType::StreamError,
        payload: bytes::Bytes::from(message[15..].to_vec()),
    });
    assert!(matches!(step, StreamStep::Fail(ref text) if text == "disk full"));
}

#[test]
fn failed_write_closes_a_streaming_answer() {
    let mut stream = StreamAnswer { method_id: 4, request_id: 8, open: true };
    stream.next_message(Some(Ok(vec![])));
    stream.written(false);
    assert!(!stream.open);
}

#[test]
fn strings_are_read_back() {
    for text in ["", "plain", "gr\u{fc}\u{df}e \u{1f980}"] {
        let mut payload = StreamAnswer { method_id: 0, request_id: 0, open: true }
            .next_message(Some(Err(text.to_string())))[15..]
            .to_vec();
        assert_eq!(payload, postcard::to_allocvec(text).unwrap());
        assert_eq!(decode_string(&payload), Some(text.to_string()));
        payload.push(255);
        assert_eq!(decode_string(&payload), Some(text.to_string()));
    }
    let long = "x".repeat(300);
    let message = StreamAnswer { method_id: 0, request_id: 0, open: true }
        .next_message(Some(Err(long.clone())));
    assert_eq!(&message[15..17], &[0xac, 0x02]);
    assert_eq!(decode_string(&message[15..]), Some(long));
    assert_eq!(decode_string(&[]), None);
    assert_eq!(decode_string(&[3, b'a']), None);
    assert_eq!(decode_string(&[1, 0xff]), None);
}

#[test]
fn replies_are_read() {
    assert_eq!(decode_reply(&[0]), Ok(Ok(())));
    assert_eq!(decode_reply(&[0, 9, 9]), Ok(Ok(())));
    assert_eq!(decode_reply(&[1, 1, b'e', 9]), Ok(Err("e".to_string())));
    assert!(decode_reply(&[]).is_err());
    assert!(decode_reply(&[2]).is_err());
    assert!(decode_reply(&[1, 5, b'e']).is_err());
}

#[test]
fn server_holds_service_and_dispatch() {
    let service: Arc<str> = Arc::from("service");
    let server = Server::from_arc(Arc::clone(&service), 5u8);
    assert!(Arc::ptr_eq(&server.service, &service));
    assert_eq!(server.dispatch, 5);
}

#[test]
fn streams_travel_from_server_to_client() {
    let mut progress = StreamAnswer { method_id: 4, request_id: 1, open: true };
    let mut sent = Vec::new();
    let yielded = [
        Some(Ok(vec![1])),
        Some(Ok(vec![2, 2])),
        Some(Err("broken".to_string())),
        Some(Ok(vec![3])),
        None,
    ];
    for item in yielded {
        if progress.open {
            sent.extend(progress.next_message(item));
            progress.written(true);
        }
    }

    let mut inner: Inner = ClientInner::new("addr");
    inner.begin_call(4, Ok(vec![]), PendingRequest::Stream("taker")).unwrap();
    let mut reader = FrameReader::new();
    let mut at = 0;
    let mut taken: Vec<Result<Vec<u8>, String>> = Vec::new();
    while at < sent.len() || reader.wanted() == 0 {
        let count = reader.wanted();
        let outcome = reader.accept(sent[at..at + count].to_vec());
        at += count;
        let frame = match outcome {
            ReadOutcome::Complete(frame) => frame,
            ReadOutcome::HeaderRead => continue,
            ReadOutcome::Invalid => panic!("invalid header"),
        };
        let handed = match inner.deliver(frame) {
            Delivery::Forward(handed) => handed,
            Delivery::Finish("taker", handed) => handed,
            other => panic!("{other:?}"),
        };
        match on_stream_frame(&handed) {
            StreamStep::ReadItem => taken.push(Ok(handed.payload.to_vec())),
            StreamStep::Fail(text) => taken.push(Err(text)),
            StreamStep::End | StreamStep::Skip => {}
        }
    }
    assert_eq!(taken, [Ok(vec![1]), Ok(vec![2, 2]), Err("broken".to_string())]);
    assert!(inner.pending.is_empty());
}
