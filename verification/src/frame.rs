//! The frames that travel over a connection: a fixed-size header followed by
//! the payload whose length the header announces.

use vstd::prelude::*;

verus! {

/// Number of bytes of a frame header: one for the frame type, two for the
/// method, eight for the request and four for the payload length.
pub const STREAM_HEADER_SIZE: usize = 15;

/// What a frame carries.
#[derive(Debug, Clone, Copy, PartialEq, Eq, Structural)]
pub enum FrameType {
    /// A call, from client to server.
    Request,
    /// The only answer to a unary call, from server to client.
    Response,
    /// One item of a streaming answer.
    StreamItem,
    /// The regular end of a streaming answer.
    StreamEnd,
    /// The end of a streaming answer by an error.
    StreamError,
}

impl FrameType {
    /// The byte that stands for this frame type on the wire.
    pub open spec fn spec_code(self) -> u8 {
        match self {
            FrameType::Request => 0,
            FrameType::Response => 1,
            FrameType::StreamItem => 2,
            FrameType::StreamEnd => 3,
            FrameType::StreamError => 4,
        }
    }

    /// The frame type that a byte stands for; bytes above four stand for none.
    pub open spec fn spec_from_code(code: u8) -> Option<FrameType> {
        match code {
            0 => Some(FrameType::Request),
            1 => Some(FrameType::Response),
            2 => Some(FrameType::StreamItem),
            3 => Some(FrameType::StreamEnd),
            4 => Some(FrameType::StreamError),
            _ => None,
        }
    }

    /// The byte that stands for this frame type on the wire.
    pub fn code(self) -> (code: u8)
        ensures
            code == self.spec_code(),
    {
        match self {
            FrameType::Request => 0,
            FrameType::Response => 1,
            FrameType::StreamItem => 2,
            FrameType::StreamEnd => 3,
            FrameType::StreamError => 4,
        }
    }

    /// The frame type that a byte stands for, if it stands for one.
    pub fn from_code(code: u8) -> (frame_type: Option<FrameType>)
        ensures
            frame_type == FrameType::spec_from_code(code),
    {
        match code {
            0 => Some(FrameType::Request),
            1 => Some(FrameType::Response),
            2 => Some(FrameType::StreamItem),
            3 => Some(FrameType::StreamEnd),
            4 => Some(FrameType::StreamError),
            _ => None,
        }
    }
}

/// The `width` low-order bytes of `n`, least significant first.
pub open spec fn le_bytes(n: nat, width: nat) -> Seq<u8>
    decreases width,
{
    if width == 0 {
        Seq::empty()
    } else {
        seq![(n % 256) as u8] + le_bytes(n / 256, (width - 1) as nat)
    }
}

/// The number whose bytes, least significant first, are `bytes`.
pub open spec fn le_value(bytes: Seq<u8>) -> nat
    decreases bytes.len(),
{
    if bytes.len() == 0 {
        0
    } else {
        (bytes[0] as nat) + 256 * le_value(bytes.skip(1))
    }
}

/// `256` to the power of `width`.
pub open spec fn byte_range(width: nat) -> nat
    decreases width,
{
    if width == 0 {
        1
    } else {
        256 * byte_range((width - 1) as nat)
    }
}

/// Writing takes as many bytes as it is given.
pub proof fn le_bytes_len(n: nat, width: nat)
    ensures
        le_bytes(n, width).len() == width,
    decreases width,
{
    if width > 0 {
        le_bytes_len(n / 256, (width - 1) as nat);
    }
}

/// A number that fits its bytes is read back from them.
pub proof fn le_value_of_le_bytes(n: nat, width: nat)
    requires
        n < byte_range(width),
    ensures
        le_value(le_bytes(n, width)) == n,
    decreases width,
{
    le_bytes_len(n, width);
    if width > 0 {
        le_value_of_le_bytes(n / 256, (width - 1) as nat);
        le_bytes_len(n / 256, (width - 1) as nat);
        assert(le_bytes(n, width).skip(1) =~= le_bytes(n / 256, (width - 1) as nat));
    }
}

/// Every byte sequence is what the number that it reads as is written to.
pub proof fn le_bytes_of_le_value(bytes: Seq<u8>)
    ensures
        le_bytes(le_value(bytes), bytes.len()) == bytes,
        le_value(bytes) < byte_range(bytes.len()),
    decreases bytes.len(),
{
    if bytes.len() > 0 {
        let rest = bytes.skip(1);
        le_bytes_of_le_value(rest);
        let n = le_value(bytes);
        assert(n / 256 == le_value(rest));
        assert(n % 256 == bytes[0]);
        assert(seq![bytes[0]] + rest =~= bytes);
    } else {
        assert(le_bytes(0, 0) =~= bytes);
    }
}

/// The bytes of a frame header.
pub open spec fn header_bytes(
    frame_type: FrameType,
    method_id: u16,
    request_id: u64,
    payload_len: u32,
) -> Seq<u8> {
    seq![frame_type.spec_code()] + le_bytes(method_id as nat, 2) + le_bytes(request_id as nat, 8)
        + le_bytes(payload_len as nat, 4)
}

/// What the bytes of a frame header say: frame type, method, request and
/// payload length, or nothing if the first byte stands for no frame type.
pub open spec fn parsed_header(bytes: Seq<u8>) -> Option<(FrameType, u16, u64, u32)> {
    match FrameType::spec_from_code(bytes[0]) {
        None => None,
        Some(frame_type) => Some(
            (
                frame_type,
                le_value(bytes.subrange(1, 3)) as u16,
                le_value(bytes.subrange(3, 11)) as u64,
                le_value(bytes.subrange(11, 15)) as u32,
            ),
        ),
    }
}

/// Writes a frame header.
pub fn encode_stream_header(
    frame_type: FrameType,
    method_id: u16,
    request_id: u64,
    payload_len: u32,
) -> (header: [u8; STREAM_HEADER_SIZE])
    ensures
        header@ == header_bytes(frame_type, method_id, request_id, payload_len),
{
    let m1: u16 = method_id / 256;
    let r1: u64 = request_id / 256;
    let r2: u64 = r1 / 256;
    let r3: u64 = r2 / 256;
    let r4: u64 = r3 / 256;
    let r5: u64 = r4 / 256;
    let r6: u64 = r5 / 256;
    let r7: u64 = r6 / 256;
    let p1: u32 = payload_len / 256;
    let p2: u32 = p1 / 256;
    let p3: u32 = p2 / 256;
    let header: [u8; STREAM_HEADER_SIZE] = [
        frame_type.code(),
        (method_id % 256) as u8,
        (m1 % 256) as u8,
        (request_id % 256) as u8,
        (r1 % 256) as u8,
        (r2 % 256) as u8,
        (r3 % 256) as u8,
        (r4 % 256) as u8,
        (r5 % 256) as u8,
        (r6 % 256) as u8,
        (r7 % 256) as u8,
        (payload_len % 256) as u8,
        (p1 % 256) as u8,
        (p2 % 256) as u8,
        (p3 % 256) as u8,
    ];
    proof {
        reveal_with_fuel(le_bytes, 9);
        assert(header@ =~= header_bytes(frame_type, method_id, request_id, payload_len));
    }
    header
}

/// Reads a frame header; `None` if its first byte stands for no frame type.
pub fn decode_stream_header(header: &[u8; STREAM_HEADER_SIZE]) -> (parsed: Option<
    (FrameType, u16, u64, u32),
>)
    ensures
        parsed == parsed_header(header@),
{
    match FrameType::from_code(header[0]) {
        None => None,
        Some(frame_type) => {
            let method_id: u16 = header[1] as u16 + 256 * (header[2] as u16);
            let low: u64 = header[3] as u64 + 256 * (header[4] as u64 + 256 * (header[5] as u64
                + 256 * (header[6] as u64)));
            let high: u64 = header[7] as u64 + 256 * (header[8] as u64 + 256 * (header[9] as u64
                + 256 * (header[10] as u64)));
            let request_id: u64 = low + 0x1_0000_0000 * high;
            let payload_len: u32 = header[11] as u32 + 256 * (header[12] as u32 + 256 * (
            header[13] as u32 + 256 * (header[14] as u32)));
            proof {
                reveal_with_fuel(le_value, 9);
                let m = header@.subrange(1, 3);
                let r = header@.subrange(3, 11);
                let p = header@.subrange(11, 15);
                assert(le_value(m) == method_id);
                assert(le_value(r) == request_id);
                assert(le_value(p) == payload_len);
            }
            Some((frame_type, method_id, request_id, payload_len))
        },
    }
}

/// The value of a frame as the two sides of a connection see it.
pub struct FrameModel {
    pub frame_type: FrameType,
    pub method_id: u16,
    pub request_id: u64,
    pub payload: Seq<u8>,
}

impl FrameModel {
    /// The bytes of the frame. The length field has room for payloads of less
    /// than four gibibytes; of a longer one it holds the low-order bits.
    pub open spec fn bytes(self) -> Seq<u8> {
        header_bytes(
            self.frame_type,
            self.method_id,
            self.request_id,
            (self.payload.len() % 0x1_0000_0000) as u32,
        ) + self.payload
    }

    /// Whether the payload length fits the header.
    pub open spec fn fits(self) -> bool {
        self.payload.len() < 0x1_0000_0000
    }
}

/// A frame that has been read.
#[derive(Debug)]
pub struct Frame {
    pub frame_type: FrameType,
    pub method_id: u16,
    pub request_id: u64,
    pub payload: Vec<u8>,
}

impl View for Frame {
    type V = FrameModel;

    open spec fn view(&self) -> FrameModel {
        FrameModel {
            frame_type: self.frame_type,
            method_id: self.method_id,
            request_id: self.request_id,
            payload: self.payload@,
        }
    }
}

/// Writes a frame: the header, then the payload.
pub fn encode_message(frame_type: FrameType, method_id: u16, request_id: u64, payload: &[u8]) -> (
    message: Vec<u8>)
    ensures
        message@ == (FrameModel { frame_type, method_id, request_id, payload: payload@ }).bytes(),
{
    let payload_len: u32 = (payload.len() as u64 % 0x1_0000_0000) as u32;
    let header = encode_stream_header(frame_type, method_id, request_id, payload_len);
    let mut message: Vec<u8> = Vec::new();
    message.extend_from_slice(&header);
    message.extend_from_slice(payload);
    message
}

/// What a reader of frames makes of the bytes that it asked for.
#[derive(Debug)]
pub enum ReadOutcome {
    /// The bytes were no valid header and are skipped.
    Invalid,
    /// The bytes were a header; its payload comes next.
    HeaderRead,
    /// The bytes were the payload that completes a frame.
    Complete(Frame),
}

/// Where the reading of a connection stands: between two frames, or behind the
/// header of a frame whose payload has not come yet.
#[derive(Debug)]
pub struct FrameReader {
    pub header: Option<(FrameType, u16, u64, u32)>,
}

/// The number of bytes that a reader asks for next.
pub open spec fn bytes_wanted(header: Option<(FrameType, u16, u64, u32)>) -> nat {
    match header {
        None => STREAM_HEADER_SIZE as nat,
        Some(h) => h.3 as nat,
    }
}

/// Where the reading stands after the bytes that the reader asked for, and the
/// frame that they complete, if they complete one.
pub open spec fn after_reading(
    header: Option<(FrameType, u16, u64, u32)>,
    bytes: Seq<u8>,
) -> (Option<(FrameType, u16, u64, u32)>, Option<FrameModel>) {
    match header {
        None => (parsed_header(bytes), None),
        Some(h) => (
            None,
            Some(
                FrameModel {
                    frame_type: h.0,
                    method_id: h.1,
                    request_id: h.2,
                    payload: bytes,
                },
            ),
        ),
    }
}

impl FrameReader {
    /// A reader at the start of a connection.
    pub fn new() -> (reader: FrameReader)
        ensures
            reader.header is None,
    {
        FrameReader { header: None }
    }

    /// The number of bytes to read next.
    pub fn wanted(&self) -> (count: usize)
        ensures
            count == bytes_wanted(self.header),
    {
        match &self.header {
            None => STREAM_HEADER_SIZE,
            Some(h) => h.3 as usize,
        }
    }

    /// Takes the bytes that were asked for.
    pub fn accept(&mut self, bytes: Vec<u8>) -> (outcome: ReadOutcome)
        requires
            bytes@.len() == bytes_wanted(old(self).header),
        ensures
            final(self).header == after_reading(old(self).header, bytes@).0,
            match outcome {
                ReadOutcome::Invalid => old(self).header is None && final(self).header is None,
                ReadOutcome::HeaderRead => old(self).header is None && final(self).header is Some,
                ReadOutcome::Complete(frame) => after_reading(old(self).header, bytes@).1 == Some(
                    frame@,
                ),
            },
    {
        match self.header {
            None => {
                let header: [u8; STREAM_HEADER_SIZE] = [
                    bytes[0],
                    bytes[1],
                    bytes[2],
                    bytes[3],
                    bytes[4],
                    bytes[5],
                    bytes[6],
                    bytes[7],
                    bytes[8],
                    bytes[9],
                    bytes[10],
                    bytes[11],
                    bytes[12],
                    bytes[13],
                    bytes[14],
                ];
                assert(header@ =~= bytes@);
                self.header = decode_stream_header(&header);
                if self.header.is_some() {
                    ReadOutcome::HeaderRead
                } else {
                    ReadOutcome::Invalid
                }
            },
            Some((frame_type, method_id, request_id, _)) => {
                self.header = None;
                ReadOutcome::Complete(Frame { frame_type, method_id, request_id, payload: bytes })
            },
        }
    }

    /// Whether a connection that yields no more bytes ended inside a frame
    /// whose header was read; elsewhere its end is regular.
    pub fn interrupted(&self) -> (inside: bool)
        ensures
            inside == (self.header is Some),
    {
        self.header.is_some()
    }
}

/// The frames that a reader finds in `bytes`, and whether the bytes end inside
/// a frame whose header was read.
pub open spec fn frames_read(
    header: Option<(FrameType, u16, u64, u32)>,
    bytes: Seq<u8>,
) -> (Seq<FrameModel>, bool)
    decreases bytes.len(), (if header is Some { 1nat } else { 0nat }),
{
    let count = bytes_wanted(header);
    if bytes.len() < count {
        (Seq::empty(), header is Some)
    } else {
        let (next, frame) = after_reading(header, bytes.take(count as int));
        let (frames, interrupted) = frames_read(next, bytes.skip(count as int));
        match frame {
            None => (frames, interrupted),
            Some(f) => (seq![f] + frames, interrupted),
        }
    }
}

/// The bytes of several frames, one after the other.
pub open spec fn frames_bytes(frames: Seq<FrameModel>) -> Seq<u8>
    decreases frames.len(),
{
    if frames.len() == 0 {
        Seq::empty()
    } else {
        frames[0].bytes() + frames_bytes(frames.skip(1))
    }
}

/// A frame header is read back as it was written.
pub proof fn header_round_trip(
    frame_type: FrameType,
    method_id: u16,
    request_id: u64,
    payload_len: u32,
)
    ensures
        header_bytes(frame_type, method_id, request_id, payload_len).len() == STREAM_HEADER_SIZE,
        parsed_header(header_bytes(frame_type, method_id, request_id, payload_len)) == Some(
            (frame_type, method_id, request_id, payload_len),
        ),
{
    let bytes = header_bytes(frame_type, method_id, request_id, payload_len);
    le_bytes_len(method_id as nat, 2);
    le_bytes_len(request_id as nat, 8);
    le_bytes_len(payload_len as nat, 4);
    assert(bytes.subrange(1, 3) =~= le_bytes(method_id as nat, 2));
    assert(bytes.subrange(3, 11) =~= le_bytes(request_id as nat, 8));
    assert(bytes.subrange(11, 15) =~= le_bytes(payload_len as nat, 4));
    reveal_with_fuel(byte_range, 9);
    le_value_of_le_bytes(method_id as nat, 2);
    le_value_of_le_bytes(request_id as nat, 8);
    le_value_of_le_bytes(payload_len as nat, 4);
}

/// Every valid header is the writing of what it is read as, so no two headers
/// are read alike.
pub proof fn parsed_header_round_trip(bytes: Seq<u8>)
    requires
        bytes.len() == STREAM_HEADER_SIZE,
    ensures
        parsed_header(bytes) is None <==> bytes[0] > 4,
        parsed_header(bytes) matches Some(h) ==> header_bytes(h.0, h.1, h.2, h.3) == bytes,
{
    if let Some(h) = parsed_header(bytes) {
        reveal_with_fuel(byte_range, 9);
        le_bytes_of_le_value(bytes.subrange(1, 3));
        le_bytes_of_le_value(bytes.subrange(3, 11));
        le_bytes_of_le_value(bytes.subrange(11, 15));
        assert(header_bytes(h.0, h.1, h.2, h.3) =~= bytes);
    }
}

/// One frame, whatever follows it, is read back as it was written.
pub proof fn frame_is_read_back(frame: FrameModel, rest: Seq<u8>)
    requires
        frame.fits(),
    ensures
        frames_read(None, frame.bytes() + rest).0 == seq![frame] + frames_read(None, rest).0,
        frames_read(None, frame.bytes() + rest).1 == frames_read(None, rest).1,
{
    let bytes = frame.bytes() + rest;
    let len = frame.payload.len() as u32;
    let header = header_bytes(frame.frame_type, frame.method_id, frame.request_id, len);
    header_round_trip(frame.frame_type, frame.method_id, frame.request_id, len);
    let size = STREAM_HEADER_SIZE as int;
    assert(bytes.take(size) =~= header);
    let behind = bytes.skip(size);
    assert(behind.take(frame.payload.len() as int) =~= frame.payload);
    assert(behind.skip(frame.payload.len() as int) =~= rest);
    let h = Some((frame.frame_type, frame.method_id, frame.request_id, len));
    assert(after_reading(None, bytes.take(size)) == (h, None::<FrameModel>));
    assert(frames_read(None, bytes) == frames_read(h, behind));
}

/// Frames that are written one after the other are read back one after the
/// other, all of them and no others, and the connection ends regularly.
pub proof fn frames_are_read_back(frames: Seq<FrameModel>)
    requires
        forall|i: int| 0 <= i < frames.len() ==> (#[trigger] frames[i]).fits(),
    ensures
        frames_read(None, frames_bytes(frames)) == (frames, false),
    decreases frames.len(),
{
    if frames.len() > 0 {
        let rest = frames.skip(1);
        frames_are_read_back(rest);
        frame_is_read_back(frames[0], frames_bytes(rest));
        assert(seq![frames[0]] + rest =~= frames);
    } else {
        assert(frames_read(None, frames_bytes(frames)).0 =~= frames);
    }
}

/// A header whose first byte stands for no frame type is skipped: what follows
/// it is read as if it had not been there.
pub proof fn invalid_header_is_skipped(header: Seq<u8>, rest: Seq<u8>)
    requires
        header.len() == STREAM_HEADER_SIZE,
        header[0] > 4,
    ensures
        frames_read(None, header + rest) == frames_read(None, rest),
{
    let bytes = header + rest;
    assert(bytes.take(STREAM_HEADER_SIZE as int) =~= header);
    assert(bytes.skip(STREAM_HEADER_SIZE as int) =~= rest);
}

/// The value of a frame shows what the frame holds.
pub proof fn frame_view_shows_every_field(frame: Frame)
    ensures
        frame@.frame_type == frame.frame_type,
        frame@.method_id == frame.method_id,
        frame@.request_id == frame.request_id,
        frame@.payload == frame.payload@,
{
}

/// A connection that ends inside the payload of a frame is interrupted, and the
/// frame is not read.
pub proof fn end_inside_a_payload_interrupts(frame: FrameModel, n: int)
    requires
        frame.payload.len() < 0x1_0000_0000,
        0 <= n < frame.payload.len(),
    ensures
        frames_read(None, frame.bytes().take(15 + n)) == (Seq::<FrameModel>::empty(), true),
{
    let cut = frame.bytes().take(15 + n);
    let len = frame.payload.len() as u32;
    header_round_trip(frame.frame_type, frame.method_id, frame.request_id, len);
    let header = header_bytes(frame.frame_type, frame.method_id, frame.request_id, len);
    assert(cut.take(15) =~= header);
    assert(cut.skip(15).len() == n);
    reveal_with_fuel(frames_read, 3);
}

/// A connection that ends before a header is complete has ended regularly.
pub proof fn end_before_a_header_is_regular(bytes: Seq<u8>)
    requires
        bytes.len() < 15,
    ensures
        frames_read(None, bytes) == (Seq::<FrameModel>::empty(), false),
{
}

} // verus!
