//! The frame: eight header bytes and the payload they announce.
use crate::commands::{CommandIdentity, Direction};
use vstd::prelude::*;

verus! {

/// The number of header bytes.
pub const HEADER_LEN: usize = 8;

/// The protocol version that requests are sent with.
pub const PROTOCOL_VERSION: u8 = 1;

/// The longest payload that a header can announce.
pub const MAX_PAYLOAD_LEN: usize = 0xffff;

/// What a frame is: a request or the response to one, of a read or of a
/// write.
#[derive(Debug, Clone, Copy, PartialEq, Eq, Structural)]
pub enum Operation {
    Read,
    ReadResponse,
    Write,
    WriteResponse,
}

/// The header of a frame.
#[derive(Debug, Clone, Copy, PartialEq, Eq, Structural)]
pub struct SmpHeader {
    /// The protocol version, `0` to `3`.
    pub version: u8,
    /// The operation.
    pub op: Operation,
    /// The flags.
    pub flags: u8,
    /// The number of payload bytes.
    pub data_length: u16,
    /// The group of the command.
    pub group_id: u16,
    /// The token that ties a response to its request.
    pub sequence: u8,
    /// The number of the command within its group.
    pub command_id: u8,
}

/// Why a frame is not the response that was waited for.
#[derive(Debug, Clone, Copy, PartialEq, Eq, Structural)]
pub enum Malformed {
    /// Fewer than eight bytes.
    TooShort,
    /// The operation bits hold none of the four operations.
    UnknownOperation,
    /// The header announces another number of payload bytes than follow it.
    LengthMismatch,
    /// The operation is not the response to the request's.
    WrongOperation,
    /// The group or the command number is not the request's.
    WrongCommand,
    /// The sequence token is not the request's.
    WrongSequence,
}

/// The number of an operation on the wire.
pub open spec fn op_code(op: Operation) -> u8 {
    match op {
        Operation::Read => 0,
        Operation::ReadResponse => 1,
        Operation::Write => 2,
        Operation::WriteResponse => 3,
    }
}

/// The operation with number `code`.
pub open spec fn op_of_code(code: u8) -> Option<Operation> {
    if code == 0 {
        Some(Operation::Read)
    } else if code == 1 {
        Some(Operation::ReadResponse)
    } else if code == 2 {
        Some(Operation::Write)
    } else if code == 3 {
        Some(Operation::WriteResponse)
    } else {
        None
    }
}

/// The operation of a request in `direction`.
pub open spec fn request_op(direction: Direction) -> Operation {
    match direction {
        Direction::Read => Operation::Read,
        Direction::Write => Operation::Write,
    }
}

/// The operation of the response to a request in `direction`.
pub open spec fn response_op(direction: Direction) -> Operation {
    match direction {
        Direction::Read => Operation::ReadResponse,
        Direction::Write => Operation::WriteResponse,
    }
}

/// The eight bytes of a header: the operation in the low three bits of the
/// first byte and the version in the two above them, the flags, the payload
/// length and the group most significant byte first, the sequence token,
/// the command number.
pub open spec fn header_bytes(h: SmpHeader) -> Seq<u8> {
    seq![
        (h.version * 8 + op_code(h.op)) as u8,
        h.flags,
        (h.data_length / 256) as u8,
        (h.data_length % 256) as u8,
        (h.group_id / 256) as u8,
        (h.group_id % 256) as u8,
        h.sequence,
        h.command_id,
    ]
}

/// The header that `bytes` start with. The three high bits of the first
/// byte are not read.
pub open spec fn parse_header(bytes: Seq<u8>) -> Result<SmpHeader, Malformed> {
    if bytes.len() < HEADER_LEN {
        Err(Malformed::TooShort)
    } else {
        match op_of_code(bytes[0] % 8) {
            None => Err(Malformed::UnknownOperation),
            Some(op) => Ok(
                SmpHeader {
                    version: (bytes[0] / 8) % 4,
                    op,
                    flags: bytes[1],
                    data_length: (bytes[2] * 256 + bytes[3]) as u16,
                    group_id: (bytes[4] * 256 + bytes[5]) as u16,
                    sequence: bytes[6],
                    command_id: bytes[7],
                },
            ),
        }
    }
}

/// The header of the request for `identity` with `sequence` and a payload
/// of `len` bytes.
pub open spec fn request_header(identity: CommandIdentity, sequence: u8, len: nat) -> SmpHeader {
    SmpHeader {
        version: PROTOCOL_VERSION,
        op: request_op(identity.direction),
        flags: 0,
        data_length: len as u16,
        group_id: identity.group_id,
        sequence,
        command_id: identity.command_id,
    }
}

/// The frame of the request for `identity` with `sequence` and `payload`.
pub open spec fn request_frame(identity: CommandIdentity, sequence: u8, payload: Seq<u8>) -> Seq<
    u8,
> {
    header_bytes(request_header(identity, sequence, payload.len())) + payload
}

/// The frame of the response to the request for `identity` with
/// `sequence`, as a device of the same protocol version sends it.
pub open spec fn response_frame(identity: CommandIdentity, sequence: u8, payload: Seq<u8>) -> Seq<
    u8,
> {
    header_bytes(
        SmpHeader {
            op: response_op(identity.direction),
            ..request_header(identity, sequence, payload.len())
        },
    ) + payload
}

/// The payload of `frame`, where `frame` is the response to the request for
/// `identity` with `sequence`; else the first of these that holds: the frame
/// is too short, its operation is unknown, its length is not the announced
/// one, its operation, its command or its sequence token is not the
/// expected one.
pub open spec fn response_payload(identity: CommandIdentity, sequence: u8, frame: Seq<u8>)
    -> Result<Seq<u8>, Malformed> {
    match parse_header(frame) {
        Err(e) => Err(e),
        Ok(h) => if h.data_length != frame.len() - HEADER_LEN {
            Err(Malformed::LengthMismatch)
        } else if h.op != response_op(identity.direction) {
            Err(Malformed::WrongOperation)
        } else if h.group_id != identity.group_id || h.command_id != identity.command_id {
            Err(Malformed::WrongCommand)
        } else if h.sequence != sequence {
            Err(Malformed::WrongSequence)
        } else {
            Ok(frame.skip(HEADER_LEN as int))
        },
    }
}

/// A header that was written reads back as it was, whatever follows it.
pub proof fn lemma_parse_header_of_bytes(h: SmpHeader, rest: Seq<u8>)
    requires
        h.version < 4,
    ensures
        parse_header(header_bytes(h) + rest) == Ok::<SmpHeader, Malformed>(h),
{
    let bytes = header_bytes(h) + rest;
    assert(bytes[0] == (h.version * 8 + op_code(h.op)) as u8);
    assert(bytes[2] == (h.data_length / 256) as u8);
    assert(bytes[3] == (h.data_length % 256) as u8);
    assert(bytes[4] == (h.group_id / 256) as u8);
    assert(bytes[5] == (h.group_id % 256) as u8);
    assert(bytes[1] == h.flags && bytes[6] == h.sequence && bytes[7] == h.command_id);
}

/// The response that a device frames for a request is taken as that
/// request's response, and its payload comes out as it went in.
pub proof fn lemma_response_payload_of_frame(
    identity: CommandIdentity,
    sequence: u8,
    payload: Seq<u8>,
)
    requires
        payload.len() <= MAX_PAYLOAD_LEN,
    ensures
        response_payload(identity, sequence, response_frame(identity, sequence, payload)) == Ok::<
            Seq<u8>,
            Malformed,
        >(payload),
{
    let h = SmpHeader {
        op: response_op(identity.direction),
        ..request_header(identity, sequence, payload.len())
    };
    lemma_parse_header_of_bytes(h, payload);
    assert((header_bytes(h) + payload).skip(HEADER_LEN as int) =~= payload);
}

/// Appends the eight bytes of `h` to `out`.
pub fn write_header(out: &mut Vec<u8>, h: &SmpHeader)
    requires
        h.version < 4,
    ensures
        final(out)@ == old(out)@ + header_bytes(*h),
{
    let code: u8 = match h.op {
        Operation::Read => 0,
        Operation::ReadResponse => 1,
        Operation::Write => 2,
        Operation::WriteResponse => 3,
    };
    out.push(h.version * 8 + code);
    out.push(h.flags);
    out.push((h.data_length / 256) as u8);
    out.push((h.data_length % 256) as u8);
    out.push((h.group_id / 256) as u8);
    out.push((h.group_id % 256) as u8);
    out.push(h.sequence);
    out.push(h.command_id);
    assert(final(out)@ =~= old(out)@ + header_bytes(*h));
}

/// Reads the header that `bytes` start with.
pub fn read_header(bytes: &[u8]) -> (r: Result<SmpHeader, Malformed>)
    ensures
        r == parse_header(bytes@),
{
    if bytes.len() < HEADER_LEN {
        return Err(Malformed::TooShort);
    }
    let code: u8 = bytes[0] % 8;
    let op = if code == 0 {
        Operation::Read
    } else if code == 1 {
        Operation::ReadResponse
    } else if code == 2 {
        Operation::Write
    } else if code == 3 {
        Operation::WriteResponse
    } else {
        return Err(Malformed::UnknownOperation);
    };
    Ok(
        SmpHeader {
            version: (bytes[0] / 8) % 4,
            op,
            flags: bytes[1],
            data_length: bytes[2] as u16 * 256 + bytes[3] as u16,
            group_id: bytes[4] as u16 * 256 + bytes[5] as u16,
            sequence: bytes[6],
            command_id: bytes[7],
        },
    )
}

/// The frame of the request for `identity` with `sequence` and `payload`.
pub fn build_request(identity: &CommandIdentity, sequence: u8, payload: &[u8]) -> (frame: Vec<u8>)
    requires
        payload.len() <= MAX_PAYLOAD_LEN,
    ensures
        frame@ == request_frame(*identity, sequence, payload@),
{
    let header = SmpHeader {
        version: PROTOCOL_VERSION,
        op: match identity.direction {
            Direction::Read => Operation::Read,
            Direction::Write => Operation::Write,
        },
        flags: 0,
        data_length: payload.len() as u16,
        group_id: identity.group_id,
        sequence,
        command_id: identity.command_id,
    };
    let mut frame: Vec<u8> = Vec::new();
    write_header(&mut frame, &header);
    frame.extend_from_slice(payload);
    assert(frame@ =~= request_frame(*identity, sequence, payload@));
    frame
}

/// The frame of the response to the request for `identity` with
/// `sequence`, as a device of the same protocol version sends it.
pub fn build_response(identity: &CommandIdentity, sequence: u8, payload: &[u8]) -> (frame: Vec<u8>)
    requires
        payload.len() <= MAX_PAYLOAD_LEN,
    ensures
        frame@ == response_frame(*identity, sequence, payload@),
{
    let header = SmpHeader {
        version: PROTOCOL_VERSION,
        op: match identity.direction {
            Direction::Read => Operation::ReadResponse,
            Direction::Write => Operation::WriteResponse,
        },
        flags: 0,
        data_length: payload.len() as u16,
        group_id: identity.group_id,
        sequence,
        command_id: identity.command_id,
    };
    let mut frame: Vec<u8> = Vec::new();
    write_header(&mut frame, &header);
    frame.extend_from_slice(payload);
    assert(frame@ =~= response_frame(*identity, sequence, payload@));
    frame
}

/// Takes the payload out of `frame`, where `frame` is the response to the
/// request for `identity` with `sequence`.
pub fn check_response(identity: &CommandIdentity, sequence: u8, frame: &[u8]) -> (r: Result<
    Vec<u8>,
    Malformed,
>)
    ensures
        match response_payload(*identity, sequence, frame@) {
            Ok(payload) => r matches Ok(p) && p@ == payload,
            Err(e) => r matches Err(f) && f == e,
        },
{
    let h = match read_header(frame) {
        Ok(h) => h,
        Err(e) => {
            return Err(e);
        },
    };
    let expected = match identity.direction {
        Direction::Read => Operation::ReadResponse,
        Direction::Write => Operation::WriteResponse,
    };
    if h.data_length as usize != frame.len() - HEADER_LEN {
        Err(Malformed::LengthMismatch)
    } else if h.op != expected {
        Err(Malformed::WrongOperation)
    } else if h.group_id != identity.group_id || h.command_id != identity.command_id {
        Err(Malformed::WrongCommand)
    } else if h.sequence != sequence {
        Err(Malformed::WrongSequence)
    } else {
        let payload = vstd::slice::slice_to_vec(
            vstd::slice::slice_subrange(frame, HEADER_LEN, frame.len()),
        );
        assert(payload@ =~= frame@.skip(HEADER_LEN as int));
        Ok(payload)
    }
}

} // verus!
