//! The protocol between tunelithd and its clients: frames of a big-endian length
//! of 32 bits and the bytes of an [`Envelope`], which the program turns into
//! values and back.

use vstd::prelude::*;

use crate::error::{of_kind, of_kind_with, Error, ErrorKind};
use crate::types::{Polarization, StreamFormat, StreamId, System, TuneParams};

verus! {

/// The version of the protocol, exchanged in [`Hello`].
pub const VERSION: u32 = 1;

/// Where tunelithd listens unless told otherwise, a Unix domain socket.
pub const DEFAULT_SOCKET: &'static str = "/run/tunelith/tunelithd.sock";

/// Where tunelithd listens on Windows unless told otherwise, a named pipe.
pub const DEFAULT_PIPE: &'static str = "\\\\.\\pipe\\tunelith";

/// The largest frame taken, keeping a peer from making us allocate at will.
pub const MAX_FRAME: usize = 1_048_576;

/// What a connection is for.
#[derive(Clone, Copy, Debug, PartialEq, Eq, Structural)]
pub enum Role {
    /// Requests and events.
    Control,
    /// The data of the stream of the token.
    StreamToken(u64),
}

/// What opens a connection, and answers that it is open.
#[derive(Clone, Copy, Debug, PartialEq, Eq, Structural)]
pub struct Hello {
    pub version: u32,
    pub role: Option<Role>,
}

/// A tuner as a list tells of it.
#[derive(Clone, Debug)]
pub struct Tuner {
    pub id: String,
    pub systems: Vec<SystemCode>,
    /// Whether a stream holds the tuner.
    pub busy: bool,
}

/// A device as a list tells of it.
#[derive(Clone, Debug)]
pub struct Device {
    pub id: String,
    pub name: String,
    pub tuners: Vec<Tuner>,
}

/// A request for a stream.
#[derive(Clone, Debug)]
pub struct AcquireRequest {
    pub params: Params,
    /// The tuner to take; empty for any.
    pub tuner: String,
    /// Whether to power the LNB.
    pub lnb: bool,
}

/// The stream a request was given.
#[derive(Clone, Debug)]
pub struct AcquireResponse {
    pub stream_token: u64,
    pub tuner: String,
    pub format: FormatCode,
}

/// What an [`Envelope`] carries.
#[derive(Clone, Debug)]
pub enum Body {
    Hello(Hello),
    ListRequest,
    ListResponse(Vec<Device>),
    AcquireRequest(AcquireRequest),
    AcquireResponse(AcquireResponse),
    /// Of the stream of the token.
    ReleaseRequest(u64),
    ReleaseResponse,
    /// Of the stream of the token.
    SignalRequest(u64),
    SignalResponse(crate::types::Signal),
    DropEvent(Drops),
    StreamEndEvent(StreamEnd),
    /// The message of an error.
    Error(String),
}

/// What a stream lost.
#[derive(Clone, Copy, Debug, PartialEq, Eq, Structural)]
pub struct Drops {
    pub stream_token: u64,
    pub dropped_bytes: u64,
}

/// The end of a stream.
#[derive(Clone, Debug)]
pub struct StreamEnd {
    pub stream_token: u64,
    /// The error it ended for; empty for none.
    pub error: String,
}

/// A message, with the id of the request it makes or answers.
#[derive(Clone, Debug)]
pub struct Envelope {
    pub id: u64,
    pub body: Option<Body>,
}

/// An envelope of `id` around `body`.
pub fn envelope(id: u64, body: Body) -> (r: Envelope)
    ensures
        r == (Envelope { id, body: Some(body) }),
{
    Envelope { id, body: Some(body) }
}

/// A number of 32 bits as bytes, the most significant first.
pub open spec fn be_bytes(n: u32) -> Seq<u8> {
    seq![
        (n / 0x100_0000) as u8,
        (n / 0x1_0000 % 0x100) as u8,
        (n / 0x100 % 0x100) as u8,
        (n % 0x100) as u8,
    ]
}

/// The number four bytes make, the most significant first.
pub open spec fn be_number(b: Seq<u8>) -> int {
    b[0] * 0x100_0000 + b[1] * 0x1_0000 + b[2] * 0x100 + b[3]
}

/// The frame of the bytes of an envelope.
pub open spec fn framed(body: Seq<u8>) -> Seq<u8> {
    be_bytes(body.len() as u32) + body
}

/// The frame of the bytes of an envelope.
pub fn encode(body: &[u8]) -> (r: Vec<u8>)
    ensures
        r@ == framed(body@),
{
    let n: u32 = body.len() as u32;
    let mut frame: Vec<u8> = Vec::new();
    frame.push((n / 0x100_0000) as u8);
    frame.push((n / 0x1_0000 % 0x100) as u8);
    frame.push((n / 0x100 % 0x100) as u8);
    frame.push((n % 0x100) as u8);
    assert(frame@ =~= be_bytes(n));
    frame.extend_from_slice(body);
    frame
}

/// What the length of a frame says of the bytes that follow.
pub open spec fn length_of(head: Seq<u8>) -> Result<int, Error> {
    if be_number(head) > MAX_FRAME {
        Err(of_kind_with(ErrorKind::InvalidData, "frame too large"))
    } else {
        Ok(be_number(head))
    }
}

/// The number of the bytes that follow the length of a frame.
pub fn frame_length(head: &[u8]) -> (r: Result<usize, Error>)
    requires
        head@.len() == 4,
    ensures
        match length_of(head@) {
            Ok(n) => r matches Ok(m) && m == n,
            Err(e) => r == Err::<usize, Error>(e),
        },
{
    let n: u64 = head[0] as u64 * 0x100_0000 + head[1] as u64 * 0x1_0000 + head[2] as u64 * 0x100
        + head[3] as u64;
    if n > MAX_FRAME as u64 {
        return Err(of_kind_with(ErrorKind::InvalidData, "frame too large"));
    }
    Ok(n as usize)
}

/// The bytes of the first envelope of what a connection gives until it ends, and
/// where they end. Only an end before the first byte is a clean one.
pub open spec fn first_frame(input: Seq<u8>) -> Result<Option<(Seq<u8>, int)>, Error> {
    if input.len() == 0 {
        Ok(None)
    } else if input.len() < 4 {
        Err(of_kind(ErrorKind::UnexpectedEof))
    } else {
        match length_of(input.take(4)) {
            Err(e) => Err(e),
            Ok(n) => if input.len() - 4 < n {
                Err(of_kind(ErrorKind::UnexpectedEof))
            } else {
                Ok(Some((input.subrange(4, 4 + n), 4 + n)))
            },
        }
    }
}

/// Reads a frame: the bytes of its envelope and where it ends, or `None` if the
/// connection ends before one starts.
pub fn read(input: &[u8]) -> (r: Result<Option<(Vec<u8>, usize)>, Error>)
    ensures
        match first_frame(input@) {
            Err(e) => r == Err::<Option<(Vec<u8>, usize)>, Error>(e),
            Ok(None) => r matches Ok(None),
            Ok(Some(frame)) => r matches Ok(Some(f)) && f.0@ == frame.0 && f.1 == frame.1,
        },
{
    let total: usize = input.len();
    if total == 0 {
        return Ok(None);
    }
    if total < 4 {
        return Err(of_kind(ErrorKind::UnexpectedEof));
    }
    let head: &[u8] = vstd::slice::slice_subrange(input, 0, 4);
    assert(head@ =~= input@.take(4));
    match frame_length(head) {
        Err(e) => Err(e),
        Ok(n) => {
            if total - 4 < n {
                return Err(of_kind(ErrorKind::UnexpectedEof));
            }
            let mut body: Vec<u8> = Vec::new();
            body.extend_from_slice(vstd::slice::slice_subrange(input, 4, 4 + n));
            assert(body@ =~= input@.subrange(4, 4 + n));
            Ok(Some((body, 4 + n)))
        },
    }
}

/// The bytes of a number make it again.
pub proof fn be_bytes_make_the_number(n: u32)
    ensures
        be_bytes(n).len() == 4,
        be_number(be_bytes(n)) == n,
{
    assert((n / 0x100_0000) as u8 == n / 0x100_0000 && (n / 0x1_0000 % 0x100) as u8 == n / 0x1_0000
        % 0x100 && (n / 0x100 % 0x100) as u8 == n / 0x100 % 0x100 && (n % 0x100) as u8 == n
        % 0x100);
}

/// A frame reads back as what was framed, whatever follows it.
pub proof fn frames_read_back(body: Seq<u8>, rest: Seq<u8>)
    requires
        body.len() <= MAX_FRAME,
    ensures
        first_frame(framed(body) + rest) == Ok::<Option<(Seq<u8>, int)>, Error>(
            Some((body, body.len() + 4int)),
        ),
{
    let n = body.len() as u32;
    be_bytes_make_the_number(n);
    let input = framed(body) + rest;
    assert(input.take(4) =~= be_bytes(n));
    assert(input.subrange(4, 4 + n) =~= body);
}

/// A frame cut short is refused, but for one of which nothing came.
pub proof fn truncated_frames_are_refused(body: Seq<u8>, len: int)
    requires
        body.len() <= MAX_FRAME,
        0 < len < framed(body).len(),
    ensures
        first_frame(framed(body).take(len)) == Err::<Option<(Seq<u8>, int)>, Error>(
            of_kind(ErrorKind::UnexpectedEof),
        ),
{
    let n = body.len() as u32;
    be_bytes_make_the_number(n);
    let input = framed(body).take(len);
    if len >= 4 {
        assert(input.take(4) =~= be_bytes(n));
    }
}

/// A frame said to be longer than the limit is refused, whatever follows.
pub proof fn large_frames_are_refused(n: u32, rest: Seq<u8>)
    requires
        n > MAX_FRAME,
    ensures
        first_frame(be_bytes(n) + rest) == Err::<Option<(Seq<u8>, int)>, Error>(
            of_kind_with(ErrorKind::InvalidData, "frame too large"),
        ),
{
    be_bytes_make_the_number(n);
    let input = be_bytes(n) + rest;
    assert(input.take(4) =~= be_bytes(n));
}

/// A system as the protocol has it.
#[derive(Clone, Copy, Debug, PartialEq, Eq, Structural)]
pub enum SystemCode {
    Unspecified,
    IsdbT,
    IsdbS,
    IsdbS3,
    /// A value the protocol has no name for.
    Unknown(i32),
}

/// A format as the protocol has it.
#[derive(Clone, Copy, Debug, PartialEq, Eq, Structural)]
pub enum FormatCode {
    Unspecified,
    Ts,
    Tlv,
    /// A value the protocol has no name for.
    Unknown(i32),
}

/// A polarization as the protocol has it.
#[derive(Clone, Copy, Debug, PartialEq, Eq, Structural)]
pub enum PolarizationCode {
    Unspecified,
    Right,
    Left,
    /// A value the protocol has no name for.
    Unknown(i32),
}

/// Tuning parameters as the protocol has them.
#[derive(Clone, Copy, Debug, PartialEq, Eq, Structural)]
pub struct Params {
    pub system: SystemCode,
    pub frequency_khz: u32,
    pub stream_id: Option<u32>,
    pub polarization: PolarizationCode,
}

/// A system as the protocol has it.
pub open spec fn system_to_code(system: System) -> SystemCode {
    match system {
        System::IsdbT => SystemCode::IsdbT,
        System::IsdbS => SystemCode::IsdbS,
        System::IsdbS3 => SystemCode::IsdbS3,
    }
}

/// A system as the protocol has it.
#[verifier::when_used_as_spec(system_to_code)]
pub fn system_code(system: System) -> (r: SystemCode)
    ensures
        r == system_to_code(system),
{
    match system {
        System::IsdbT => SystemCode::IsdbT,
        System::IsdbS => SystemCode::IsdbS,
        System::IsdbS3 => SystemCode::IsdbS3,
    }
}

/// The system `code` stands for, if any.
pub open spec fn system_of(code: SystemCode) -> Option<System> {
    match code {
        SystemCode::IsdbT => Some(System::IsdbT),
        SystemCode::IsdbS => Some(System::IsdbS),
        SystemCode::IsdbS3 => Some(System::IsdbS3),
        _ => None,
    }
}

/// The system `code` stands for, if any.
#[verifier::when_used_as_spec(system_of)]
pub fn system(code: SystemCode) -> (r: Option<System>)
    ensures
        r == system_of(code),
{
    match code {
        SystemCode::IsdbT => Some(System::IsdbT),
        SystemCode::IsdbS => Some(System::IsdbS),
        SystemCode::IsdbS3 => Some(System::IsdbS3),
        _ => None,
    }
}

/// A format as the protocol has it.
pub open spec fn format_to_code(format: StreamFormat) -> FormatCode {
    match format {
        StreamFormat::Ts => FormatCode::Ts,
        StreamFormat::Tlv => FormatCode::Tlv,
    }
}

/// A format as the protocol has it.
#[verifier::when_used_as_spec(format_to_code)]
pub fn format_code(format: StreamFormat) -> (r: FormatCode)
    ensures
        r == format_to_code(format),
{
    match format {
        StreamFormat::Ts => FormatCode::Ts,
        StreamFormat::Tlv => FormatCode::Tlv,
    }
}

/// The format `code` stands for, if any.
pub open spec fn format_of_code(code: FormatCode) -> Option<StreamFormat> {
    match code {
        FormatCode::Ts => Some(StreamFormat::Ts),
        FormatCode::Tlv => Some(StreamFormat::Tlv),
        _ => None,
    }
}

/// The format `code` stands for, if any.
#[verifier::when_used_as_spec(format_of_code)]
pub fn stream_format(code: FormatCode) -> (r: Option<StreamFormat>)
    ensures
        r == format_of_code(code),
{
    match code {
        FormatCode::Ts => Some(StreamFormat::Ts),
        FormatCode::Tlv => Some(StreamFormat::Tlv),
        _ => None,
    }
}

/// Tuning parameters as the protocol has them.
pub open spec fn params_to_wire(params: TuneParams) -> Params {
    Params {
        system: system_to_code(params.system),
        frequency_khz: params.frequency_khz,
        stream_id: match params.stream_id {
            Some(id) => Some(id.0 as u32),
            None => None,
        },
        polarization: match params.polarization {
            None => PolarizationCode::Unspecified,
            Some(Polarization::Right) => PolarizationCode::Right,
            Some(Polarization::Left) => PolarizationCode::Left,
        },
    }
}

/// The parameters the protocol's stand for.
pub open spec fn params_of_wire(params: Params) -> Result<TuneParams, Error> {
    if params.stream_id matches Some(id) && id > 0xffff {
        Err(Error::InvalidParams("the stream id is out of range"))
    } else if system_of(params.system) is None {
        Err(Error::InvalidParams("unknown system"))
    } else if params.polarization is Unknown {
        Err(Error::InvalidParams("unknown polarization"))
    } else {
        Ok(
            TuneParams {
                system: system_of(params.system)->0,
                frequency_khz: params.frequency_khz,
                stream_id: match params.stream_id {
                    Some(id) => Some(StreamId(id as u16)),
                    None => None,
                },
                polarization: match params.polarization {
                    PolarizationCode::Right => Some(Polarization::Right),
                    PolarizationCode::Left => Some(Polarization::Left),
                    _ => None,
                },
            },
        )
    }
}

impl Params {
    /// Tuning parameters as the protocol has them.
    pub fn of(params: TuneParams) -> (r: Params)
        ensures
            r == params_to_wire(params),
    {
        Params {
            system: system_code(params.system),
            frequency_khz: params.frequency_khz,
            stream_id: match params.stream_id {
                Some(id) => Some(id.0 as u32),
                None => None,
            },
            polarization: match params.polarization {
                None => PolarizationCode::Unspecified,
                Some(Polarization::Right) => PolarizationCode::Right,
                Some(Polarization::Left) => PolarizationCode::Left,
            },
        }
    }

    /// The parameters these stand for.
    pub fn tune_params(&self) -> (r: Result<TuneParams, Error>)
        ensures
            r == params_of_wire(*self),
    {
        let stream_id: Option<StreamId> = match self.stream_id {
            None => None,
            Some(id) => {
                if id > 0xffff {
                    return Err(Error::InvalidParams("the stream id is out of range"));
                }
                Some(StreamId(id as u16))
            },
        };
        let system: System = match system(self.system) {
            Some(system) => system,
            None => return Err(Error::InvalidParams("unknown system")),
        };
        let polarization: Option<Polarization> = match self.polarization {
            PolarizationCode::Right => Some(Polarization::Right),
            PolarizationCode::Left => Some(Polarization::Left),
            PolarizationCode::Unspecified => None,
            PolarizationCode::Unknown(_) => return Err(
                Error::InvalidParams("unknown polarization"),
            ),
        };
        Ok(TuneParams { system, frequency_khz: self.frequency_khz, stream_id, polarization })
    }
}

/// What goes through the protocol comes out as it was.
pub proof fn values_come_through(params: TuneParams, system: System, format: StreamFormat)
    ensures
        params_of_wire(params_to_wire(params)) == Ok::<TuneParams, Error>(params),
        system_of(system_to_code(system)) == Some(system),
        format_of_code(format_to_code(format)) == Some(format),
{
}

/// A frame starts with the length of what follows in four bytes, the most significant
/// first, and one of more than a mebibyte is not taken.
pub proof fn frames_start_with_their_length(body: Seq<u8>, head: Seq<u8>)
    requires
        body.len() <= u32::MAX,
        head.len() == 4,
    ensures
        ({
            let f = framed(body);
            &&& f.len() == body.len() + 4
            &&& f[0] * 0x100_0000 + f[1] * 0x1_0000 + f[2] * 0x100 + f[3] == body.len()
            &&& f.skip(4) == body
        }),
        ({
            let n = head[0] * 0x100_0000 + head[1] * 0x1_0000 + head[2] * 0x100 + head[3];
            &&& length_of(head) is Ok <==> n <= 1_048_576
            &&& length_of(head) matches Ok(len) ==> len == n
        }),
{
    let n = body.len() as u32;
    be_bytes_make_the_number(n);
    assert(framed(body).skip(4) =~= body);
    assert(framed(body)[0] == be_bytes(n)[0] && framed(body)[1] == be_bytes(n)[1]
        && framed(body)[2] == be_bytes(n)[2] && framed(body)[3] == be_bytes(n)[3]);
}

/// The protocol says what is meant: each system, format and polarization goes by its own
/// name, and the frequency and the stream id by their numbers.
pub proof fn values_go_by_their_names(params: TuneParams)
    ensures
        ({
            let wire = params_to_wire(params);
            &&& wire.frequency_khz == params.frequency_khz
            &&& wire.system == SystemCode::IsdbT <==> params.system == System::IsdbT
            &&& wire.system == SystemCode::IsdbS <==> params.system == System::IsdbS
            &&& wire.system == SystemCode::IsdbS3 <==> params.system == System::IsdbS3
            &&& wire.polarization == PolarizationCode::Right <==> params.polarization == Some(
                Polarization::Right,
            )
            &&& wire.polarization == PolarizationCode::Left <==> params.polarization == Some(
                Polarization::Left,
            )
            &&& wire.polarization == PolarizationCode::Unspecified <==> params.polarization is None
            &&& params.stream_id is Some <==> wire.stream_id is Some
            &&& params.stream_id matches Some(id) ==> wire.stream_id == Some(id.0 as u32)
        }),
        format_to_code(StreamFormat::Ts) == FormatCode::Ts,
        format_to_code(StreamFormat::Tlv) == FormatCode::Tlv,
{
}

/// What is asked for is refused if the stream id does not fit 16 bits, if the system is
/// none there is, or if the polarization has no name, and for nothing else; what is taken
/// is what was asked for.
pub proof fn only_what_has_no_meaning_is_refused(wire: Params)
    ensures
        params_of_wire(wire) is Err <==> (wire.stream_id is Some && wire.stream_id->0 > 65_535)
            || wire.system == SystemCode::Unspecified || wire.system is Unknown
            || wire.polarization is Unknown,
        params_of_wire(wire) matches Ok(params) ==> {
            &&& params.frequency_khz == wire.frequency_khz
            &&& params.polarization == Some(Polarization::Left) <==> wire.polarization
                == PolarizationCode::Left
            &&& params.polarization == Some(Polarization::Right) <==> wire.polarization
                == PolarizationCode::Right
            &&& params.system == System::IsdbS <==> wire.system == SystemCode::IsdbS
            &&& params.system == System::IsdbS3 <==> wire.system == SystemCode::IsdbS3
            &&& params.stream_id is Some <==> wire.stream_id is Some
            &&& wire.stream_id matches Some(id) ==> params.stream_id == Some(StreamId(id as u16))
        },
{
}

} // verus!
