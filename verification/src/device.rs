//! Devices that keep to the protocol, as models, and what a client gets
//! from them.
use crate::cbor::access::{
    bytes_at, entry, integer_at, lookup, lookup_from, required, unsigned_max,
};
use crate::cbor::decode::{decode_value, CodecError, NESTING_LIMIT};
use crate::cbor::laws::{
    lemma_decode_of_encoding, lemma_dict_len, lemma_entries_len_one, lemma_text_item_len,
    lemma_utf8_len,
};
use crate::cbor::value::{encode_value, well_formed, CborModel};
use crate::commands::errors::{parse_err_response, reported};
use crate::commands::fs::{
    lemma_file_upload_response_written_and_read, lemma_file_upload_written_and_read,
    FileUploadResponse, FileUploadView,
};
use crate::commands::image::{lemma_image_upload_written_and_read, ImageUploadView};
use crate::commands::os::{Echo, EchoResponseView, EchoView};
use crate::commands::{CommandIdentity, Direction};
use crate::connection::{outcome, parsed, response_item, Event, ExecuteError, Reply};
use crate::transfer::{
    acknowledged_by, chunk_capacity, chunk_payload, lemma_chunk_frame_fits, report_answer,
    upload_identity, upload_plan, upload_run, UploadPlan, UploadState, UploadTargetView,
};
use vstd::utf8::encode_utf8;
use crate::frame::{
    header_bytes, lemma_parse_header_of_bytes, lemma_response_payload_of_frame, parse_header,
    request_frame, request_header, response_frame, Operation, SmpHeader, HEADER_LEN,
    MAX_PAYLOAD_LEN,
};
use vstd::prelude::*;

verus! {

broadcast use vstd::string::group_string_axioms;

/// The identity of the command that a request header names.
pub open spec fn identity_in(header: SmpHeader) -> CommandIdentity {
    CommandIdentity {
        group_id: header.group_id,
        command_id: header.command_id,
        direction: if header.op == Operation::Write {
            Direction::Write
        } else {
            Direction::Read
        },
    }
}

/// The item in the payload of a request.
pub open spec fn item_in_request(request: Seq<u8>) -> Option<CborModel> {
    decode_value(request.skip(HEADER_LEN as int))
}

/// A device sees in a request what the client put there: the identity of
/// the command, the sequence token and the item of the payload.
pub proof fn lemma_request_is_seen(identity: CommandIdentity, sequence: u8, m: CborModel)
    requires
        well_formed(m, NESTING_LIMIT as nat),
        encode_value(m).len() <= MAX_PAYLOAD_LEN,
    ensures
        parse_header(request_frame(identity, sequence, encode_value(m))) matches Ok(header)
            && identity_in(header) == identity && header.sequence == sequence,
        item_in_request(request_frame(identity, sequence, encode_value(m))) == Some(m),
{
    let payload = encode_value(m);
    let header = request_header(identity, sequence, payload.len());
    lemma_parse_header_of_bytes(header, payload);
    lemma_decode_of_encoding(m);
    assert((header_bytes(header) + payload).skip(HEADER_LEN as int) =~= payload);
}

/// A device sees in a request the identity of the command and the
/// sequence token, whatever the payload is.
pub proof fn lemma_request_identity(identity: CommandIdentity, sequence: u8, payload: Seq<u8>)
    ensures
        parse_header(request_frame(identity, sequence, payload)) matches Ok(header) && identity_in(
            header,
        ) == identity && header.sequence == sequence,
{
    lemma_parse_header_of_bytes(request_header(identity, sequence, payload.len()), payload);
}

/// A client reads from the response of a device the item that the device
/// put there, where the item holds no error.
pub proof fn lemma_response_is_read(identity: CommandIdentity, sequence: u8, m: CborModel)
    requires
        well_formed(m, NESTING_LIMIT as nat),
        encode_value(m).len() <= MAX_PAYLOAD_LEN,
        parse_err_response(m) matches Ok(fields) && reported(fields) is None,
    ensures
        outcome(
            identity,
            sequence,
            Reply::Frame(response_frame(identity, sequence, encode_value(m))),
        ) == Ok::<Seq<u8>, ExecuteError>(encode_value(m)),
        response_item(encode_value(m)) == Ok::<CborModel, ExecuteError>(m),
{
    lemma_response_payload_of_frame(identity, sequence, encode_value(m));
    lemma_decode_of_encoding(m);
}

/// The frame that a device that echoes answers to `request`: the text of
/// the request, under the sequence token of the request. Nothing where
/// `request` is no echo request.
pub open spec fn echo_reply(request: Seq<u8>) -> Option<Seq<u8>> {
    match parse_header(request) {
        Err(_) => None,
        Ok(header) => if identity_in(header) != Echo::identity() {
            None
        } else {
            match item_in_request(request) {
                None => None,
                Some(m) => match EchoView::parse(m) {
                    Err(_) => None,
                    Ok(echo) => Some(
                        response_frame(
                            Echo::identity(),
                            header.sequence,
                            encode_value(EchoResponseView { r: echo.d }.payload()),
                        ),
                    ),
                },
            }
        },
    }
}

/// The payload of a map with one text under a key of one character can be
/// read back and fits a frame, where the text has at most 10000
/// characters.
proof fn lemma_one_text_payload(key: Seq<char>, text: Seq<char>)
    requires
        key.len() == 1,
        text.len() <= 10_000,
    ensures
        well_formed(CborModel::Dict(seq![entry(key, CborModel::Text(text))]), NESTING_LIMIT as nat),
        encode_value(CborModel::Dict(seq![entry(key, CborModel::Text(text))])).len()
            <= MAX_PAYLOAD_LEN,
{
    let es = seq![entry(key, CborModel::Text(text))];
    lemma_utf8_len(key);
    lemma_utf8_len(text);
    lemma_text_item_len(key);
    lemma_text_item_len(text);
    lemma_entries_len_one(key, CborModel::Text(text));
    lemma_dict_len(es);
    assert(well_formed(es[0].0, (NESTING_LIMIT - 1) as nat));
    assert(well_formed(es[0].1, (NESTING_LIMIT - 1) as nat));
}

/// A text of up to 10000 characters of any kind that is sent as an echo
/// request to a device that echoes comes back as it was.
pub proof fn lemma_echo_returns_the_text(text: Seq<char>, sequence: u8)
    requires
        text.len() <= 10_000,
    ensures
        echo_reply(
            request_frame(Echo::identity(), sequence, encode_value(EchoView { d: text }.payload())),
        ) matches Some(frame) && parsed(
            match outcome(Echo::identity(), sequence, Reply::Frame(frame)) {
                Ok(payload) => response_item(payload),
                Err(e) => Err(e),
            },
            |m: CborModel| EchoResponseView::parse(m),
        ) == Ok::<EchoResponseView, ExecuteError>(EchoResponseView { r: text }),
{
    reveal_strlit("d");
    reveal_strlit("r");
    reveal_strlit("rc");
    reveal_strlit("err");
    let asked = EchoView { d: text }.payload();
    let answered = EchoResponseView { r: text }.payload();
    lemma_one_text_payload("d"@, text);
    lemma_one_text_payload("r"@, text);
    lemma_request_is_seen(Echo::identity(), sequence, asked);
    assert(EchoView::parse(asked) == Ok::<EchoView, CodecError>(EchoView { d: text }));
    assert("r"@.len() == 1 && "rc"@.len() == 2 && "err"@.len() == 3);
    reveal_with_fuel(lookup_from, 2);
    assert(lookup(answered->Dict_0, "rc"@) is None);
    assert(lookup(answered->Dict_0, "err"@) is None);
    lemma_response_is_read(Echo::identity(), sequence, answered);
    assert(EchoResponseView::parse(answered) == Ok::<EchoResponseView, CodecError>(
        EchoResponseView { r: text },
    ));
}

/// What a device that stores what it is sent holds after `request`, where
/// it held `content`: the data of the chunk go behind what is there where
/// the chunk starts there, and nowhere else.
pub open spec fn store_step(content: Seq<u8>, request: Seq<u8>) -> Seq<u8> {
    match item_in_request(request) {
        Some(CborModel::Dict(es)) => match (
            required(integer_at(es, "off"@, 0, unsigned_max())),
            required(bytes_at(es, "data"@)),
        ) {
            (Ok(off), Ok(data)) => if off == content.len() {
                content + data
            } else {
                content
            },
            _ => content,
        },
        _ => content,
    }
}

/// The frame that a device that stores what it is sent answers to
/// `request` once it holds `content`: the offset behind what it holds.
pub open spec fn store_reply(content: Seq<u8>, request: Seq<u8>) -> Seq<u8> {
    match parse_header(request) {
        Ok(header) => response_frame(
            identity_in(header),
            header.sequence,
            encode_value(FileUploadResponse { off: content.len() as u64 }.payload()),
        ),
        Err(_) => Seq::empty(),
    }
}

/// What a device that stores what it is sent holds after `events`, where
/// it held nothing before them, every reply in them is the one of that
/// device, and every progress callback in them said to go on. Nothing
/// where a reply is another one, or a callback cancelled.
pub open spec fn stored(events: Seq<Event>) -> Option<Seq<u8>>
    decreases events.len(),
{
    if events.len() == 0 {
        Some(Seq::empty())
    } else {
        match stored(events.drop_last()) {
            None => None,
            Some(content) => match events.last() {
                Event::Exchange { request, reply } => {
                    let after = store_step(content, request);
                    if reply == Reply::Frame(store_reply(after, request)) {
                        Some(after)
                    } else {
                        None
                    }
                },
                Event::Progress { proceed, .. } => if proceed {
                    Some(content)
                } else {
                    None
                },
                Event::Step { proceed, .. } => if proceed {
                    Some(content)
                } else {
                    None
                },
            },
        }
    }
}

/// Whether `plan` is the plan of an upload with frames of at most
/// `frame_size` bytes that leaves room for data, and whose lengths can be
/// written out.
pub open spec fn upload_valid(plan: UploadPlan, frame_size: usize) -> bool {
    &&& plan.data.len() <= u64::MAX
    &&& plan.capacity == chunk_capacity(plan.target, plan.total(), frame_size)
    &&& plan.capacity > 0
    &&& match plan.target {
        UploadTargetView::File { name } => encode_utf8(name).len() <= u64::MAX,
        UploadTargetView::Image { sha, .. } => sha matches Some(hash) ==> hash.len() <= u64::MAX,
    }
}

/// The key of an acknowledgement is short, and none of the keys of an
/// error.
proof fn lemma_chunk_keys()
    ensures
        "rc"@.len() == 2,
        "off"@.len() == 3 && "off"@[0] == 'o',
        "err"@.len() == 3 && "err"@[0] == 'e',
        encode_value(CborModel::Text("off"@)).len() <= 21,
{
    reveal_strlit("rc");
    reveal_strlit("off");
    reveal_strlit("err");
    lemma_text_item_len("off"@);
}

/// A device reads the offset and the data of a chunk as they were sent.
proof fn lemma_chunk_is_seen(plan: UploadPlan, frame_size: usize, off: u64, sequence: u8)
    requires
        upload_valid(plan, frame_size),
        off <= plan.total(),
    ensures
        ({
            let request = plan.request(off, sequence);
            &&& parse_header(request) matches Ok(header) && identity_in(header) == upload_identity(
                plan.target,
            ) && header.sequence == sequence
            &&& item_in_request(request) matches Some(CborModel::Dict(es)) && required(
                integer_at(es, "off"@, 0, unsigned_max()),
            ) == Ok::<int, CodecError>(off as int) && required(bytes_at(es, "data"@)) == Ok::<
                Seq<u8>,
                CodecError,
            >(plan.chunk(off))
        }),
{
    let identity = upload_identity(plan.target);
    let chunk = plan.chunk(off);
    let m = chunk_payload(plan.target, off, chunk, plan.total());
    assert(plan == upload_plan(plan.target, plan.data, frame_size, plan.label));
    lemma_chunk_frame_fits(plan.target, plan.data, frame_size, plan.label, off, sequence);
    assert(chunk.len() <= plan.data.len());
    match plan.target {
        UploadTargetView::File { name } => {
            lemma_file_upload_written_and_read(
                FileUploadView {
                    off,
                    data: chunk,
                    name,
                    len: if off == 0 {
                        Some(plan.total())
                    } else {
                        None
                    },
                },
            );
        },
        UploadTargetView::Image { image, sha, upgrade } => {
            lemma_image_upload_written_and_read(
                ImageUploadView {
                    image: if off == 0 {
                        image
                    } else {
                        None
                    },
                    len: if off == 0 {
                        Some(plan.total())
                    } else {
                        None
                    },
                    off,
                    sha: if off == 0 {
                        sha
                    } else {
                        None
                    },
                    data: chunk,
                    upgrade: if off == 0 && upgrade {
                        Some(true)
                    } else {
                        None
                    },
                },
            );
        },
    }
    lemma_request_is_seen(identity, sequence, m);
}

/// A client reads from the response of a device that acknowledges `ack`
/// that offset.
proof fn lemma_acknowledgement_is_read(identity: CommandIdentity, sequence: u8, ack: u64)
    ensures
        acknowledged_by(
            outcome(
                identity,
                sequence,
                Reply::Frame(
                    response_frame(
                        identity,
                        sequence,
                        encode_value(FileUploadResponse { off: ack }.payload()),
                    ),
                ),
            ),
        ) == Ok::<u64, ExecuteError>(ack),
{
    lemma_chunk_keys();
    let answered = FileUploadResponse { off: ack }.payload();
    lemma_file_upload_response_written_and_read(FileUploadResponse { off: ack });
    reveal_with_fuel(lookup_from, 2);
    assert(lookup(answered->Dict_0, "rc"@) is None);
    assert(lookup(answered->Dict_0, "err"@) is None);
    lemma_entries_len_one("off"@, CborModel::Unsigned(ack));
    lemma_dict_len(answered->Dict_0);
    crate::cbor::laws::lemma_unsigned_len(ack);
    lemma_response_is_read(identity, sequence, answered);
}

/// A device that stores what it is sent and holds the data up to `off`
/// takes the chunk at `off` whole, and acknowledges the offset behind it.
proof fn lemma_store_takes_chunk(plan: UploadPlan, frame_size: usize, off: u64, sequence: u8)
    requires
        upload_valid(plan, frame_size),
        off <= plan.total(),
    ensures
        ({
            let request = plan.request(off, sequence);
            let after = store_step(plan.data.take(off as int), request);
            let ack = off + plan.chunk(off).len();
            &&& ack <= plan.total()
            &&& off < plan.total() ==> ack > off
            &&& after == plan.data.take(ack)
            &&& acknowledged_by(
                outcome(
                    upload_identity(plan.target),
                    sequence,
                    Reply::Frame(store_reply(after, request)),
                ),
            ) == Ok::<u64, ExecuteError>(ack as u64)
        }),
{
    let chunk = plan.chunk(off);
    let content = plan.data.take(off as int);
    let ack = off + chunk.len();
    lemma_chunk_is_seen(plan, frame_size, off, sequence);
    lemma_acknowledgement_is_read(upload_identity(plan.target), sequence, ack as u64);
    assert(content + chunk =~= plan.data.take(ack));
}

/// An upload to a device that stores what it is sent, with a progress
/// callback that never cancels, leaves the device with the bytes up to
/// where the upload stands; where it is over, it has ended well, the
/// device holds the very bytes that were to be sent, and the last report
/// to the callback was that all of them are through.
pub proof fn lemma_upload_reconstruction(
    plan: UploadPlan,
    frame_size: usize,
    sequence: u8,
    events: Seq<Event>,
)
    requires
        upload_valid(plan, frame_size),
        upload_run(plan, sequence, events) is Some,
        stored(events) is Some,
    ensures
        match upload_run(plan, sequence, events).unwrap() {
            UploadState::Sending { off, .. } => off <= plan.total() && stored(events).unwrap()
                == plan.data.take(off as int),
            UploadState::Reporting { ack, .. } => ack <= plan.total() && stored(events).unwrap()
                == plan.data.take(ack as int),
            UploadState::Finished { result, .. } => result is Ok && stored(events).unwrap()
                == plan.data && report_answer(
                events.last(),
                plan.label,
                plan.total(),
                plan.total(),
            ) == Some(true),
        },
    decreases events.len(),
{
    if events.len() == 0 {
        assert(plan.data.take(0) =~= Seq::<u8>::empty());
    } else {
        let earlier = events.drop_last();
        lemma_upload_reconstruction(plan, frame_size, sequence, earlier);
        let content = stored(earlier).unwrap();
        match upload_run(plan, sequence, earlier).unwrap() {
            UploadState::Sending { off, sequence: token, resends } => {
                lemma_store_takes_chunk(plan, frame_size, off, token);
            },
            UploadState::Reporting { ack, .. } => {
                assert(plan.data.take(plan.total() as int) =~= plan.data);
            },
            UploadState::Finished { .. } => {},
        }
    }
}

} // verus!
