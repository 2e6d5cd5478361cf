use vstd::prelude::*;

verus! {

/// Length of a frame header: one type byte, four bytes of session id, four
/// bytes of payload length.
pub const HEADER_SIZE: usize = 9;

/// Largest payload that a reader accepts, in bytes (1 MiB).
pub const MAX_PAYLOAD: usize = 1024 * 1024;

/// Size asked for a socket's send and receive buffers, in bytes (256 KiB).
pub const SOCK_BUF_SIZE: usize = 256 * 1024;

/// What a frame says.
#[derive(Debug, Clone, Copy, PartialEq, Eq, Structural)]
pub enum FrameType {
    /// Client to server: heartbeat.
    Ping,
    /// Server to client: answer to a heartbeat.
    Pong,
    /// Server to client: a new session waits for a data connection.
    NewConnection,
    /// Either way: the session is closed.
    Close,
    /// Client to server: request for authentication; the payload is the secret.
    Auth,
    /// Server to client: authentication succeeded.
    AuthOk,
    /// Client to server: handshake of a data connection; the payload is the
    /// session id as four bytes.
    DataConnect,
}

impl FrameType {
    /// The byte that stands for this type on the wire.
    pub open spec fn spec_code(self) -> u8 {
        match self {
            FrameType::Ping => 1,
            FrameType::Pong => 2,
            FrameType::NewConnection => 3,
            FrameType::Close => 5,
            FrameType::Auth => 6,
            FrameType::AuthOk => 7,
            FrameType::DataConnect => 8,
        }
    }

    /// The byte that stands for this type on the wire.
    #[verifier::when_used_as_spec(spec_code)]
    pub fn code(self) -> (code: u8)
        ensures
            code == self.spec_code(),
    {
        match self {
            FrameType::Ping => 1,
            FrameType::Pong => 2,
            FrameType::NewConnection => 3,
            FrameType::Close => 5,
            FrameType::Auth => 6,
            FrameType::AuthOk => 7,
            FrameType::DataConnect => 8,
        }
    }
}

/// The type that a byte stands for, if any.
pub open spec fn type_of_code(v: u8) -> Option<FrameType> {
    match v {
        1u8 => Some(FrameType::Ping),
        2u8 => Some(FrameType::Pong),
        3u8 => Some(FrameType::NewConnection),
        5u8 => Some(FrameType::Close),
        6u8 => Some(FrameType::Auth),
        7u8 => Some(FrameType::AuthOk),
        8u8 => Some(FrameType::DataConnect),
        _ => None,
    }
}

impl TryFrom<u8> for FrameType {
    type Error = &'static str;

    fn try_from(v: u8) -> (r: Result<Self, &'static str>) {
        match v {
            1 => Ok(FrameType::Ping),
            2 => Ok(FrameType::Pong),
            3 => Ok(FrameType::NewConnection),
            5 => Ok(FrameType::Close),
            6 => Ok(FrameType::Auth),
            7 => Ok(FrameType::AuthOk),
            8 => Ok(FrameType::DataConnect),
            _ => Err("unknown frame type"),
        }
    }
}

impl vstd::std_specs::convert::TryFromSpecImpl<u8> for FrameType {
    open spec fn obeys_try_from_spec() -> bool {
        true
    }

    open spec fn try_from_spec(v: u8) -> Result<Self, &'static str> {
        match type_of_code(v) {
            Some(frame_type) => Ok(frame_type),
            None => Err("unknown frame type"),
        }
    }
}

/// A frame as both ends of a connection see it.
#[verifier::ext_equal]
pub struct FrameModel {
    pub frame_type: FrameType,
    pub session_id: u32,
    pub payload: Seq<u8>,
}

/// The frame that a triple of type, session id and payload stands for.
pub open spec fn frame_of(frame: (FrameType, u32, Vec<u8>)) -> FrameModel {
    FrameModel { frame_type: frame.0, session_id: frame.1, payload: frame.2@ }
}

/// The four bytes of `x`, most significant first.
pub open spec fn be32(x: u32) -> Seq<u8> {
    seq![
        (x / 0x100_0000) as u8,
        (x / 0x1_0000 % 0x100) as u8,
        (x / 0x100 % 0x100) as u8,
        (x % 0x100) as u8,
    ]
}

/// The number whose four bytes, most significant first, are `b`.
pub open spec fn from_be32(b: Seq<u8>) -> u32 {
    (b[0] * 0x100_0000 + b[1] * 0x1_0000 + b[2] * 0x100 + b[3]) as u32
}

/// The length that a header declares for a payload of `len` bytes: its field
/// has 32 bits.
pub open spec fn length_field(len: nat) -> u32 {
    (len % 0x1_0000_0000) as u32
}

/// The bytes of a frame on the wire.
pub open spec fn frame_bytes(f: FrameModel) -> Seq<u8> {
    seq![f.frame_type.spec_code()] + be32(f.session_id) + be32(length_field(f.payload.len()))
        + f.payload
}

/// The payload length that the header at the front of `input` declares.
pub open spec fn declared_len(input: Seq<u8>) -> u32 {
    from_be32(input.subrange(5, 9))
}

/// Why bytes are not a frame.
#[derive(Debug, Clone, Copy, PartialEq, Eq, Structural)]
pub enum InvalidFrame {
    /// The type byte stands for no type.
    UnknownFrameType,
    /// The declared payload is longer than `MAX_PAYLOAD`.
    PayloadTooLarge,
}

impl InvalidFrame {
    /// What is wrong, in words.
    pub fn message(self) -> (text: &'static str)
        ensures
            self is UnknownFrameType ==> text@ == "unknown frame type"@,
            self is PayloadTooLarge ==> text@ == "payload too large"@,
    {
        match self {
            InvalidFrame::UnknownFrameType => "unknown frame type",
            InvalidFrame::PayloadTooLarge => "payload too large",
        }
    }
}

/// Why no frame can be read.
#[derive(Debug, Clone, Copy, PartialEq, Eq, Structural)]
pub enum ReadError {
    /// The bytes end before the frame does.
    UnexpectedEof,
    /// The bytes are not a frame.
    Invalid(InvalidFrame),
}

/// What reading one frame off the front of `input` comes to: the frame and the
/// number of bytes it takes, or why there is none.
pub open spec fn reads_as(input: Seq<u8>, r: Result<(FrameModel, nat), ReadError>) -> bool {
    match r {
        Ok((frame, n)) => {
            &&& frame.payload.len() <= MAX_PAYLOAD
            &&& n == HEADER_SIZE + frame.payload.len()
            &&& n <= input.len()
            &&& input.take(n as int) == frame_bytes(frame)
        },
        Err(ReadError::Invalid(InvalidFrame::UnknownFrameType)) => {
            &&& input.len() >= HEADER_SIZE
            &&& type_of_code(input[0]) is None
        },
        Err(ReadError::Invalid(InvalidFrame::PayloadTooLarge)) => {
            &&& input.len() >= HEADER_SIZE
            &&& type_of_code(input[0]) is Some
            &&& declared_len(input) > MAX_PAYLOAD
        },
        Err(ReadError::UnexpectedEof) => {
            ||| input.len() < HEADER_SIZE
            ||| {
                &&& type_of_code(input[0]) is Some
                &&& declared_len(input) <= MAX_PAYLOAD
                &&& input.len() < HEADER_SIZE + declared_len(input)
            }
        },
    }
}

/// How far the reading of one frame has come.
#[derive(Debug, Clone, Copy, PartialEq, Eq, Structural)]
pub enum ReadState {
    /// The header comes next.
    Header,
    /// The header is read; a payload of `len` bytes comes next.
    Payload { frame_type: FrameType, session_id: u32, len: usize },
}

impl ReadState {
    /// How many bytes have to be read next.
    pub open spec fn spec_wanted(self) -> usize {
        match self {
            ReadState::Header => HEADER_SIZE,
            ReadState::Payload { len, .. } => len,
        }
    }

    /// How many bytes have to be read next.
    #[verifier::when_used_as_spec(spec_wanted)]
    pub fn wanted(self) -> (n: usize)
        ensures
            n == self.spec_wanted(),
    {
        match self {
            ReadState::Header => HEADER_SIZE,
            ReadState::Payload { frame_type, session_id, len } => len,
        }
    }
}

/// What comes of the bytes that a `ReadState` wanted.
pub enum ReadStep {
    /// More bytes are wanted.
    More(ReadState),
    /// The frame is complete.
    Frame((FrameType, u32, Vec<u8>)),
    /// The bytes are not a frame.
    Invalid(InvalidFrame),
}

/// The bytes of `x`, most significant first.
pub(crate) fn to_be_bytes(x: u32) -> (bytes: [u8; 4])
    ensures
        bytes@ == be32(x),
{
    let bytes: [u8; 4] = [
        (x / 0x100_0000) as u8,
        (x / 0x1_0000 % 0x100) as u8,
        (x / 0x100 % 0x100) as u8,
        (x % 0x100) as u8,
    ];
    assert(bytes@ =~= be32(x));
    bytes
}

/// The number whose bytes, most significant first, stand at `at`.
pub(crate) fn from_be_bytes(bytes: &[u8], at: usize) -> (x: u32)
    requires
        at + 4 <= bytes@.len(),
    ensures
        x == from_be32(bytes@.subrange(at as int, at + 4)),
{
    let b0: u32 = bytes[at] as u32;
    let b1: u32 = bytes[at + 1] as u32;
    let b2: u32 = bytes[at + 2] as u32;
    let b3: u32 = bytes[at + 3] as u32;
    b0 * 0x100_0000 + b1 * 0x1_0000 + b2 * 0x100 + b3
}

/// Takes the bytes that `state` wanted and says what comes next.
pub fn read_step(state: ReadState, bytes: &[u8]) -> (step: ReadStep)
    requires
        bytes@.len() == state.spec_wanted(),
    ensures
        match state {
            ReadState::Header => match type_of_code(bytes@[0]) {
                None => step == ReadStep::Invalid(InvalidFrame::UnknownFrameType),
                Some(frame_type) => {
                    let session_id = from_be32(bytes@.subrange(1, 5));
                    let len = declared_len(bytes@);
                    if len > MAX_PAYLOAD {
                        step == ReadStep::Invalid(InvalidFrame::PayloadTooLarge)
                    } else if len == 0 {
                        step matches ReadStep::Frame(f) && f.0 == frame_type && f.1 == session_id
                            && f.2@.len() == 0
                    } else {
                        step == ReadStep::More(
                            ReadState::Payload { frame_type, session_id, len: len as usize },
                        )
                    }
                },
            },
            ReadState::Payload { frame_type, session_id, len } => step matches ReadStep::Frame(f)
                && f.0 == frame_type && f.1 == session_id && f.2@ == bytes@,
        },
{
    match state {
        ReadState::Header => {
            let frame_type = match FrameType::try_from(bytes[0]) {
                Ok(frame_type) => frame_type,
                Err(_) => return ReadStep::Invalid(InvalidFrame::UnknownFrameType),
            };
            let session_id: u32 = from_be_bytes(bytes, 1);
            let len: usize = from_be_bytes(bytes, 5) as usize;
            if len > MAX_PAYLOAD {
                return ReadStep::Invalid(InvalidFrame::PayloadTooLarge);
            }
            if len > 0 {
                ReadStep::More(ReadState::Payload { frame_type, session_id, len })
            } else {
                ReadStep::Frame((frame_type, session_id, Vec::new()))
            }
        },
        ReadState::Payload { frame_type, session_id, len } => {
            ReadStep::Frame((frame_type, session_id, vstd::slice::slice_to_vec(bytes)))
        },
    }
}

/// Reads one frame off the front of `input`, which holds all that the peer
/// sends; gives the frame and the number of bytes that it takes.
pub fn read_frame(input: &[u8]) -> (r: Result<((FrameType, u32, Vec<u8>), usize), ReadError>)
    ensures
        match r {
            Ok((frame, n)) => reads_as(input@, Ok((frame_of(frame), n as nat))),
            Err(e) => reads_as(input@, Err(e)),
        },
{
    let mut state: ReadState = ReadState::Header;
    let mut pos: usize = 0;
    loop
        invariant
            pos <= input@.len(),
            match state {
                ReadState::Header => pos == 0,
                ReadState::Payload { frame_type, session_id, len } => {
                    &&& pos == HEADER_SIZE
                    &&& type_of_code(input@[0]) == Some(frame_type)
                    &&& session_id == from_be32(input@.subrange(1, 5))
                    &&& len == declared_len(input@)
                    &&& 0 < len <= MAX_PAYLOAD
                },
            },
        decreases HEADER_SIZE - pos,
    {
        let n: usize = state.wanted();
        if input.len() - pos < n {
            return Err(ReadError::UnexpectedEof);
        }
        let bytes = vstd::slice::slice_subrange(input, pos, pos + n);
        let ghost start = pos as int;
        pos = pos + n;
        proof {
            if start == 0 {
                assert(bytes@.subrange(1, 5) =~= input@.subrange(1, 5));
                assert(bytes@.subrange(5, 9) =~= input@.subrange(5, 9));
            }
        }
        match read_step(state, bytes) {
            ReadStep::More(next) => {
                state = next;
            },
            ReadStep::Frame(frame) => {
                proof {
                    let len = declared_len(input@);
                    assert(frame.2@ =~= input@.subrange(HEADER_SIZE as int, HEADER_SIZE + len));
                    lemma_frame_at_front(input@, frame_of(frame));
                }
                return Ok((frame, pos));
            },
            ReadStep::Invalid(e) => {
                return Err(ReadError::Invalid(e));
            },
        }
    }
}

/// The bytes of a frame, as they go to the peer.
pub fn write_frame(frame_type: FrameType, session_id: u32, payload: &[u8]) -> (bytes: Vec<u8>)
    ensures
        bytes@ == frame_bytes(FrameModel { frame_type, session_id, payload: payload@ }),
{
    let len: u64 = payload.len() as u64;
    let field: u32 = #[verifier::truncate]
    (len as u32);
    assert(field == len % 0x1_0000_0000) by (bit_vector)
        requires
            field == len as u32,
    ;
    let mut bytes: Vec<u8> = Vec::new();
    bytes.push(frame_type.code());
    bytes.extend_from_slice(&to_be_bytes(session_id));
    bytes.extend_from_slice(&to_be_bytes(field));
    bytes.extend_from_slice(payload);
    assert(bytes@ =~= frame_bytes(FrameModel { frame_type, session_id, payload: payload@ }));
    bytes
}

/// A byte stands for a type exactly when that type is written as that byte.
pub proof fn lemma_code_round_trip(frame_type: FrameType, v: u8)
    ensures
        type_of_code(v) == Some(frame_type) <==> v == frame_type.spec_code(),
{
}

/// Four bytes and the number that they spell determine each other.
pub proof fn lemma_be32_round_trip(x: u32, b: Seq<u8>)
    requires
        b.len() == 4,
    ensures
        be32(x) == b <==> x == from_be32(b),
{
    let b0 = b[0];
    let b1 = b[1];
    let b2 = b[2];
    let b3 = b[3];
    let v = from_be32(b);
    assert(v == b0 * 0x100_0000 + b1 * 0x1_0000 + b2 * 0x100 + b3);
    assert(v / 0x100_0000 == b0 && v / 0x1_0000 % 0x100 == b1 && v / 0x100 % 0x100 == b2 && v
        % 0x100 == b3) by (bit_vector)
        requires
            v == b0 * 0x100_0000 + b1 * 0x1_0000 + b2 * 0x100 + b3,
    ;
    assert(be32(v) =~= b);
    if be32(x) == b {
        assert(x / 0x100_0000 == b0 && x / 0x1_0000 % 0x100 == b1 && x / 0x100 % 0x100 == b2 && x
            % 0x100 == b3);
        assert(x == v) by (bit_vector)
            requires
                v == b0 * 0x100_0000 + b1 * 0x1_0000 + b2 * 0x100 + b3,
                x / 0x100_0000 == b0,
                x / 0x1_0000 % 0x100 == b1,
                x / 0x100 % 0x100 == b2,
                x % 0x100 == b3,
        ;
    }
}

/// Four bytes spell a number in base 256, most significant first, and the bytes of a number
/// spell that number.
pub proof fn theorem_be32_is_the_number(x: u32)
    ensures
        be32(x).len() == 4,
        x == be32(x)[0] * 0x100_0000 + be32(x)[1] * 0x1_0000 + be32(x)[2] * 0x100 + be32(x)[3],
{
    let b0 = be32(x)[0];
    let b1 = be32(x)[1];
    let b2 = be32(x)[2];
    let b3 = be32(x)[3];
    assert(x == b0 * 0x100_0000 + b1 * 0x1_0000 + b2 * 0x100 + b3) by (bit_vector)
        requires
            x / 0x100_0000 == b0,
            x / 0x1_0000 % 0x100 == b1,
            x / 0x100 % 0x100 == b2,
            x % 0x100 == b3,
    ;
}

/// What stands where in the bytes of a frame: the type's byte, the session id and the
/// payload's length, each of the two in four bytes with the most significant first, and
/// then the payload, and nothing else. Of a length that four bytes cannot spell, its
/// lowest 32 bits are there.
pub proof fn theorem_frame_layout(f: FrameModel)
    ensures
        ({
            let bytes = frame_bytes(f);
            &&& bytes.len() == 9 + f.payload.len()
            &&& bytes[0] == f.frame_type.spec_code()
            &&& f.session_id == bytes[1] * 0x100_0000 + bytes[2] * 0x1_0000 + bytes[3] * 0x100
                + bytes[4]
            &&& f.payload.len() % 0x1_0000_0000 == bytes[5] * 0x100_0000 + bytes[6] * 0x1_0000
                + bytes[7] * 0x100 + bytes[8]
            &&& bytes.skip(9) == f.payload
        }),
{
    theorem_be32_is_the_number(f.session_id);
    theorem_be32_is_the_number(length_field(f.payload.len()));
    assert(frame_bytes(f).skip(9) =~= f.payload);
}

/// A header and a payload at the front of `input` are the bytes of a frame.
proof fn lemma_frame_at_front(input: Seq<u8>, frame: FrameModel)
    requires
        input.len() >= HEADER_SIZE + declared_len(input),
        type_of_code(input[0]) == Some(frame.frame_type),
        frame.session_id == from_be32(input.subrange(1, 5)),
        frame.payload == input.subrange(
            HEADER_SIZE as int,
            HEADER_SIZE + declared_len(input),
        ),
    ensures
        input.take(HEADER_SIZE + declared_len(input)) == frame_bytes(frame),
{
    lemma_code_round_trip(frame.frame_type, input[0]);
    lemma_be32_round_trip(frame.session_id, input.subrange(1, 5));
    lemma_be32_round_trip(declared_len(input), input.subrange(5, 9));
    let s = input.take(HEADER_SIZE + declared_len(input));
    assert(length_field(frame.payload.len()) == declared_len(input));
    assert(be32(frame.session_id) == input.subrange(1, 5));
    assert(be32(declared_len(input)) == input.subrange(5, 9));
    assert forall|i: int| 0 <= i < s.len() implies s[i] == frame_bytes(frame)[i] by {
        if 1 <= i < 5 {
            assert(s[i] == input.subrange(1, 5)[i - 1]);
        } else if 5 <= i < 9 {
            assert(s[i] == input.subrange(5, 9)[i - 5]);
        }
    }
    assert(s =~= frame_bytes(frame));
}

/// What the bytes of a frame at the front of `input` say, field by field.
proof fn lemma_fields_at_front(input: Seq<u8>, frame: FrameModel, n: nat)
    requires
        reads_as(input, Ok((frame, n))),
    ensures
        type_of_code(input[0]) == Some(frame.frame_type),
        frame.session_id == from_be32(input.subrange(1, 5)),
        declared_len(input) == frame.payload.len(),
        frame.payload == input.subrange(HEADER_SIZE as int, n as int),
{
    let bytes = frame_bytes(frame);
    assert(input.take(n as int) == bytes);
    assert forall|i: int| 0 <= i < n implies input[i] == bytes[i] by {
        assert(input.take(n as int)[i] == input[i]);
    }
    lemma_code_round_trip(frame.frame_type, input[0]);
    assert(input.subrange(1, 5) =~= be32(frame.session_id));
    lemma_be32_round_trip(frame.session_id, input.subrange(1, 5));
    assert(input.subrange(5, 9) =~= be32(length_field(frame.payload.len())));
    lemma_be32_round_trip(length_field(frame.payload.len()), input.subrange(5, 9));
    assert(frame.payload =~= input.subrange(HEADER_SIZE as int, n as int));
}

/// Bytes read in one way only: no input reads as two different frames or errors.
pub proof fn theorem_reading_is_unambiguous(
    input: Seq<u8>,
    r1: Result<(FrameModel, nat), ReadError>,
    r2: Result<(FrameModel, nat), ReadError>,
)
    requires
        reads_as(input, r1),
        reads_as(input, r2),
    ensures
        r1 == r2,
{
    if let Ok((frame, n)) = r1 {
        lemma_fields_at_front(input, frame, n);
    }
    if let Ok((frame, n)) = r2 {
        lemma_fields_at_front(input, frame, n);
    }
}

/// Reading gives back what was written, and takes no byte of what follows it.
pub proof fn theorem_read_after_write(
    frame: FrameModel,
    rest: Seq<u8>,
    r: Result<(FrameModel, nat), ReadError>,
)
    requires
        frame.payload.len() <= MAX_PAYLOAD,
    ensures
        reads_as(frame_bytes(frame) + rest, r) <==> r == Ok::<(FrameModel, nat), ReadError>(
            (frame, frame_bytes(frame).len()),
        ),
        (frame_bytes(frame) + rest).skip(frame_bytes(frame).len() as int) == rest,
{
    let input = frame_bytes(frame) + rest;
    let n = frame_bytes(frame).len();
    assert(input.take(n as int) =~= frame_bytes(frame));
    assert(reads_as(input, Ok((frame, n))));
    if reads_as(input, r) {
        theorem_reading_is_unambiguous(input, r, Ok((frame, n)));
    }
    assert(input.skip(n as int) =~= rest);
}

/// What was read is what was written: the bytes taken are those of the frame.
pub proof fn theorem_write_after_read(input: Seq<u8>, frame: FrameModel, n: nat)
    requires
        reads_as(input, Ok((frame, n))),
    ensures
        frame_bytes(frame) + input.skip(n as int) == input,
{
    assert(frame_bytes(frame) + input.skip(n as int) =~= input.take(n as int) + input.skip(
        n as int,
    ));
    assert(input.take(n as int) + input.skip(n as int) =~= input);
}

/// A frame that breaks off before its last byte is not read.
pub proof fn theorem_truncated_frame_is_not_read(
    frame: FrameModel,
    k: nat,
    r: Result<(FrameModel, nat), ReadError>,
)
    requires
        frame.payload.len() <= MAX_PAYLOAD,
        k < frame_bytes(frame).len(),
    ensures
        reads_as(frame_bytes(frame).take(k as int), r) <==> r == Err::<(FrameModel, nat), _>(
            ReadError::UnexpectedEof,
        ),
{
    let whole = frame_bytes(frame);
    let input = whole.take(k as int);
    assert(whole.take(whole.len() as int) =~= whole);
    lemma_fields_at_front(whole, frame, whole.len());
    if k >= HEADER_SIZE {
        assert(input[0] == whole[0]);
        assert(input.subrange(5, 9) =~= whole.subrange(5, 9));
    }
    assert(reads_as(input, Err(ReadError::UnexpectedEof)));
    if reads_as(input, r) {
        theorem_reading_is_unambiguous(input, r, Err(ReadError::UnexpectedEof));
    }
}

/// A frame whose payload is longer than a reader accepts is refused as soon as
/// its header is there, as long as the length field can say how long it is.
pub proof fn theorem_oversized_frame_is_refused(
    frame: FrameModel,
    rest: Seq<u8>,
    r: Result<(FrameModel, nat), ReadError>,
)
    requires
        MAX_PAYLOAD < frame.payload.len() <= u32::MAX,
    ensures
        reads_as(frame_bytes(frame) + rest, r) <==> r == Err::<(FrameModel, nat), _>(
            ReadError::Invalid(InvalidFrame::PayloadTooLarge),
        ),
{
    let input = frame_bytes(frame) + rest;
    let len = length_field(frame.payload.len());
    lemma_code_round_trip(frame.frame_type, input[0]);
    assert(input.subrange(5, 9) =~= be32(len));
    lemma_be32_round_trip(len, input.subrange(5, 9));
    let refused = Err::<(FrameModel, nat), _>(ReadError::Invalid(InvalidFrame::PayloadTooLarge));
    assert(reads_as(input, refused));
    if reads_as(input, r) {
        theorem_reading_is_unambiguous(input, r, refused);
    }
}

/// A header that declares more than a reader accepts is refused, whatever follows it: the
/// payload need not be there.
pub proof fn theorem_long_payload_is_refused_early(
    input: Seq<u8>,
    frame_type: FrameType,
    r: Result<(FrameModel, nat), ReadError>,
)
    requires
        input.len() >= 9,
        input[0] == frame_type.spec_code(),
        input[5] * 0x100_0000 + input[6] * 0x1_0000 + input[7] * 0x100 + input[8] > MAX_PAYLOAD,
    ensures
        reads_as(input, r) <==> r == Err::<(FrameModel, nat), _>(
            ReadError::Invalid(InvalidFrame::PayloadTooLarge),
        ),
{
    lemma_code_round_trip(frame_type, input[0]);
    let refused = Err::<(FrameModel, nat), _>(ReadError::Invalid(InvalidFrame::PayloadTooLarge));
    assert(reads_as(input, refused));
    if reads_as(input, r) {
        theorem_reading_is_unambiguous(input, r, refused);
    }
}

/// A header whose first byte is that of no type is refused, whatever follows.
pub proof fn theorem_unknown_type_is_refused(
    input: Seq<u8>,
    r: Result<(FrameModel, nat), ReadError>,
)
    requires
        input.len() >= 9,
        forall|frame_type: FrameType| input[0] != #[trigger] frame_type.spec_code(),
    ensures
        reads_as(input, r) <==> r == Err::<(FrameModel, nat), _>(
            ReadError::Invalid(InvalidFrame::UnknownFrameType),
        ),
{
    if let Some(frame_type) = type_of_code(input[0]) {
        lemma_code_round_trip(frame_type, input[0]);
    }
    let refused = Err::<(FrameModel, nat), _>(ReadError::Invalid(InvalidFrame::UnknownFrameType));
    assert(reads_as(input, refused));
    if reads_as(input, r) {
        theorem_reading_is_unambiguous(input, r, refused);
    }
}

/// Fewer bytes than a header has are no frame yet, whatever they are.
pub proof fn theorem_no_frame_without_header(
    input: Seq<u8>,
    r: Result<(FrameModel, nat), ReadError>,
)
    requires
        input.len() < 9,
    ensures
        reads_as(input, r) <==> r == Err::<(FrameModel, nat), _>(ReadError::UnexpectedEof),
{
    let eof = Err::<(FrameModel, nat), _>(ReadError::UnexpectedEof);
    assert(reads_as(input, eof));
    if reads_as(input, r) {
        theorem_reading_is_unambiguous(input, r, eof);
    }
}

/// The bytes of several frames, one after the other.
pub open spec fn stream_bytes(frames: Seq<FrameModel>) -> Seq<u8>
    decreases frames.len(),
{
    if frames.len() == 0 {
        Seq::empty()
    } else {
        frame_bytes(frames[0]) + stream_bytes(frames.drop_first())
    }
}

/// Reading `input` frame by frame, up to its end, gives `frames`.
pub open spec fn stream_reads_as(input: Seq<u8>, frames: Seq<FrameModel>) -> bool
    decreases frames.len(),
{
    if frames.len() == 0 {
        input.len() == 0
    } else {
        let n = HEADER_SIZE + frames[0].payload.len();
        &&& reads_as(input, Ok((frames[0], n as nat)))
        &&& stream_reads_as(input.skip(n), frames.drop_first())
    }
}

/// A stream of frames reads back as the frames that were written to it, in
/// their order, and as nothing else.
pub proof fn theorem_stream_round_trip(written: Seq<FrameModel>, read: Seq<FrameModel>)
    requires
        forall|i: int|
            0 <= i < written.len() ==> (#[trigger] written[i]).payload.len() <= MAX_PAYLOAD,
    ensures
        stream_reads_as(stream_bytes(written), read) <==> read == written,
    decreases written.len(),
{
    let input = stream_bytes(written);
    if written.len() == 0 {
        assert(read.len() == 0 ==> read =~= written);
    } else {
        let rest = stream_bytes(written.drop_first());
        let n = frame_bytes(written[0]).len();
        theorem_read_after_write(written[0], rest, Ok((written[0], n)));
        if read.len() > 0 {
            let m = (HEADER_SIZE + read[0].payload.len()) as nat;
            theorem_read_after_write(written[0], rest, Ok((read[0], m)));
            theorem_stream_round_trip(written.drop_first(), read.drop_first());
            if stream_reads_as(input, read) {
                assert(read =~= seq![read[0]] + read.drop_first());
                assert(written =~= seq![written[0]] + written.drop_first());
            }
        }
    }
}

/// What is written is what is read: whatever follows the bytes of a frame, a reader takes
/// exactly those bytes and has the type, the session id and the payload that the writer was
/// given.
pub proof fn theorem_written_frame_is_read(
    frame_type: FrameType,
    session_id: u32,
    payload: &[u8],
    bytes: Vec<u8>,
    input: &[u8],
    r: Result<((FrameType, u32, Vec<u8>), usize), ReadError>,
)
    requires
        call_ensures(write_frame, (frame_type, session_id, payload), bytes),
        payload@.len() <= MAX_PAYLOAD,
        bytes@.is_prefix_of(input@),
        call_ensures(read_frame, (input,), r),
    ensures
        r matches Ok((frame, n)) && {
            &&& frame.0 == frame_type
            &&& frame.1 == session_id
            &&& frame.2@ == payload@
            &&& n == bytes@.len()
            &&& n == 9 + payload@.len()
        },
{
    let frame = FrameModel { frame_type, session_id, payload: payload@ };
    let rest = input@.skip(bytes@.len() as int);
    assert(input@ =~= frame_bytes(frame) + rest);
    let read = match r {
        Ok((f, n)) => Ok((frame_of(f), n as nat)),
        Err(e) => Err(e),
    };
    theorem_read_after_write(frame, rest, read);
}

} // verus!
