//! Chunked transfers: a byte sequence of any length goes to the device in
//! frames that fit the transport.
use crate::cbor::access::{entry, optional};
use crate::cbor::encode::encode;
use crate::cbor::laws::{
    lemma_bytes_len, lemma_dict_len, lemma_entries_len_add, lemma_entries_len_one,
    lemma_entries_len_optional, lemma_unsigned_len,
};
use crate::cbor::value::{encode_value, CborModel, CborValue};
use crate::commands::fs::{
    FileDownload, FileDownloadResponse, FileDownloadResponseView, FileDownloadView, FileUpload,
    FileUploadResponse, FileUploadView, GROUP_FS,
};
use crate::commands::image::{optional_bytes, ImageUpload, ImageUploadView, GROUP_IMAGE};
use crate::commands::{CommandIdentity, Direction};
use crate::connection::{
    chain, label_step, lemma_ran_nothing, lemma_ran_push, lemma_run_empty, lemma_run_push,
    next_token, outcome, read_response_item, reply_of, report_step, reports_run, response_item,
    steps_run, Connection, Event, ExecuteError, Reply,
};
use crate::frame::{request_frame, HEADER_LEN, MAX_PAYLOAD_LEN};
use crate::progress::{FirmwareUpdateProgressCallback, NoProgress, ProgressCallback};
use crate::transport::Transport;
use vstd::prelude::*;
use vstd::slice::{slice_subrange, slice_to_vec};

verus! {

/// How often a device may ask for bytes again that were sent before, in one
/// upload: as often as can be counted.
pub const RESEND_LIMIT: u64 = 0xffff_ffff_ffff_ffff;

/// Why an upload did not complete.
#[derive(Debug, Clone, PartialEq, Eq)]
pub enum FileUploadError {
    /// A chunk could not be executed.
    Execute(ExecuteError),
    /// The progress callback cancelled the upload.
    Cancelled,
    /// The frame size leaves no room for data.
    FrameSizeTooSmall,
    /// The device acknowledged more bytes than there are.
    OffsetOutOfRange,
    /// The device asked for bytes again more often than can be counted.
    TooManyResends,
}

/// Why an image could not be uploaded.
#[derive(Debug, Clone, PartialEq, Eq)]
pub enum ImageUploadError {
    /// A chunk could not be executed.
    Execute(ExecuteError),
    /// The progress callback cancelled the upload.
    Cancelled,
    /// The frame size leaves no room for data.
    FrameSizeTooSmall,
    /// The device acknowledged more bytes than there are.
    OffsetOutOfRange,
    /// The device asked for bytes again more often than can be counted.
    TooManyResends,
}

/// Why the upload of an image did not complete, where the upload of its
/// bytes did not complete for the reason `e`.
pub open spec fn image_failure(e: FileUploadError) -> ImageUploadError {
    match e {
        FileUploadError::Execute(e) => ImageUploadError::Execute(e),
        FileUploadError::Cancelled => ImageUploadError::Cancelled,
        FileUploadError::FrameSizeTooSmall => ImageUploadError::FrameSizeTooSmall,
        FileUploadError::OffsetOutOfRange => ImageUploadError::OffsetOutOfRange,
        FileUploadError::TooManyResends => ImageUploadError::TooManyResends,
    }
}

/// How the upload of an image ended, where the upload of its bytes ended
/// with `r`.
pub open spec fn image_result(r: Result<(), FileUploadError>) -> Result<(), ImageUploadError> {
    match r {
        Ok(_) => Ok(()),
        Err(e) => Err(image_failure(e)),
    }
}

impl ImageUploadError {
    /// Why the upload of an image did not complete, where the upload of
    /// its bytes did not complete for the reason `e`.
    pub fn from_upload(e: FileUploadError) -> (failure: ImageUploadError)
        ensures
            failure == image_failure(e),
    {
        match e {
            FileUploadError::Execute(e) => ImageUploadError::Execute(e),
            FileUploadError::Cancelled => ImageUploadError::Cancelled,
            FileUploadError::FrameSizeTooSmall => ImageUploadError::FrameSizeTooSmall,
            FileUploadError::OffsetOutOfRange => ImageUploadError::OffsetOutOfRange,
            FileUploadError::TooManyResends => ImageUploadError::TooManyResends,
        }
    }
}

/// The hash that checks a transfer.
#[derive(Debug, Clone, Copy, PartialEq, Eq, Structural)]
pub enum HashAlgorithm {
    Sha256,
}

/// The state of one transfer. It lives for one call.
#[derive(Debug, Clone, Copy, PartialEq, Eq)]
pub struct TransferSession {
    /// The length of the whole, once it is known.
    pub total_length: Option<u64>,
    /// The offset that the next chunk starts at.
    pub offset: u64,
    /// The hash that the caller chose to check the transfer with.
    pub chosen_hash_algorithm: Option<HashAlgorithm>,
    /// The number of data bytes in the last chunk.
    pub last_chunk_size: u32,
}

/// Where an upload goes.
#[derive(Debug, Clone, PartialEq, Eq)]
pub enum UploadTarget {
    /// A file on the device.
    File {
        /// The path of the file.
        name: String,
    },
    /// A firmware image slot.
    Image {
        /// The number of the image; without one, the device picks.
        image: Option<u32>,
        /// The hash of the whole image.
        sha: Option<Vec<u8>>,
        /// Whether only a newer version may be written.
        upgrade: bool,
    },
}

/// The model of [`UploadTarget`].
pub enum UploadTargetView {
    File { name: Seq<char> },
    Image { image: Option<u32>, sha: Option<Seq<u8>>, upgrade: bool },
}

impl View for UploadTarget {
    type V = UploadTargetView;

    open spec fn view(&self) -> UploadTargetView {
        match self {
            UploadTarget::File { name } => UploadTargetView::File { name: name@ },
            UploadTarget::Image { image, sha, upgrade } => UploadTargetView::Image {
                image: *image,
                sha: optional_bytes(*sha),
                upgrade: *upgrade,
            },
        }
    }
}

/// The command that carries a chunk to `target`.
pub open spec fn upload_identity(target: UploadTargetView) -> CommandIdentity {
    match target {
        UploadTargetView::File { .. } => FileUpload::identity(),
        UploadTargetView::Image { .. } => ImageUpload::identity(),
    }
}

/// The payload of the chunk `chunk` at offset `off` of a whole of `total`
/// bytes. The chunk at offset zero says what the upload is: the length of
/// the whole and, for an image, its number, its hash and whether it is an
/// upgrade. Later chunks hold the offset and the data only.
pub open spec fn chunk_payload(target: UploadTargetView, off: u64, chunk: Seq<u8>, total: u64)
    -> CborModel {
    match target {
        UploadTargetView::File { name } => FileUploadView {
            off,
            data: chunk,
            name,
            len: if off == 0 {
                Some(total)
            } else {
                None
            },
        }.payload(),
        UploadTargetView::Image { image, sha, upgrade } => ImageUploadView {
            image: if off == 0 {
                image
            } else {
                None
            },
            len: if off == 0 {
                Some(total)
            } else {
                None
            },
            off,
            sha: if off == 0 {
                sha
            } else {
                None
            },
            data: chunk,
            upgrade: if off == 0 && upgrade {
                Some(true)
            } else {
                None
            },
        }.payload(),
    }
}

/// A payload that is at least as long as that of any chunk without data:
/// the greatest offset and everything that a first chunk says.
pub open spec fn probe_payload(target: UploadTargetView, total: u64) -> CborModel {
    match target {
        UploadTargetView::File { name } => FileUploadView {
            off: u64::MAX,
            data: Seq::empty(),
            name,
            len: Some(total),
        }.payload(),
        UploadTargetView::Image { image, sha, upgrade } => ImageUploadView {
            image,
            len: Some(total),
            off: u64::MAX,
            sha,
            data: Seq::empty(),
            upgrade: if upgrade {
                Some(true)
            } else {
                None
            },
        }.payload(),
    }
}

/// The longest frame that an upload sends where the frame size is
/// `frame_size`: no longer than that, and no longer than a header can
/// announce.
pub open spec fn frame_limit(frame_size: usize) -> int {
    if frame_size < HEADER_LEN + MAX_PAYLOAD_LEN {
        frame_size as int
    } else {
        HEADER_LEN + MAX_PAYLOAD_LEN
    }
}

/// The number of data bytes that a chunk may hold so that its frame is no
/// longer than the frame limit: what the header, a probe payload and the
/// two length bytes of the data leave. Not positive where the frame size
/// leaves no room.
pub open spec fn chunk_capacity(target: UploadTargetView, total: u64, frame_size: usize) -> int {
    frame_limit(frame_size) - HEADER_LEN - encode_value(probe_payload(target, total)).len() - 2
}

/// What an upload does.
pub struct UploadPlan {
    /// Where the bytes go.
    pub target: UploadTargetView,
    /// The bytes.
    pub data: Seq<u8>,
    /// The greatest number of data bytes in a chunk.
    pub capacity: int,
    /// The description under which the upload reports its progress, where
    /// it is a step of a firmware update.
    pub label: Option<Seq<char>>,
}

/// The answer of the progress callback, where `event` is the report that
/// the bytes up to `current` of `total` are through: to the callback of a
/// transfer where there is no `label`, else to that of a firmware update
/// under `label`.
pub open spec fn report_answer(event: Event, label: Option<Seq<char>>, current: u64, total: u64)
    -> Option<bool> {
    match (event, label) {
        (Event::Progress { current: c, total: t, proceed }, None) => if c == current && t == total {
            Some(proceed)
        } else {
            None
        },
        (Event::Step { label: l, progress, proceed }, Some(wanted)) => if l == wanted && progress
            == Some((current, total)) {
            Some(proceed)
        } else {
            None
        },
        _ => None,
    }
}

impl UploadPlan {
    /// The length of the whole.
    pub open spec fn total(self) -> u64 {
        self.data.len() as u64
    }

    /// The bytes of the chunk at `off`: as many as the capacity allows, or
    /// those that are left.
    pub open spec fn chunk(self, off: u64) -> Seq<u8> {
        if off + self.capacity <= self.data.len() {
            self.data.subrange(off as int, off + self.capacity)
        } else {
            self.data.subrange(off as int, self.data.len() as int)
        }
    }

    /// The frame that carries the chunk at `off` under `sequence`.
    pub open spec fn request(self, off: u64, sequence: u8) -> Seq<u8> {
        request_frame(
            upload_identity(self.target),
            sequence,
            encode_value(chunk_payload(self.target, off, self.chunk(off), self.total())),
        )
    }
}

/// The offset that a payload acknowledges, or why there is none.
pub open spec fn acknowledged_by(answer: Result<Seq<u8>, ExecuteError>) -> Result<
    u64,
    ExecuteError,
> {
    match answer {
        Err(e) => Err(e),
        Ok(payload) => match response_item(payload) {
            Err(e) => Err(e),
            Ok(m) => match FileUploadResponse::parse(m) {
                Err(e) => Err(ExecuteError::Codec(e)),
                Ok(response) => Ok(response.off),
            },
        },
    }
}

/// Where an upload stands.
pub enum UploadState {
    /// The chunk at `off` is to be sent under `sequence`; the device has
    /// asked for bytes again `resends` times.
    Sending { off: u64, sequence: u8, resends: nat },
    /// The device has acknowledged the bytes up to `ack`, and the progress
    /// callback is to be told.
    Reporting { ack: u64, sequence: u8, resends: nat },
    /// The upload is over, with `result`.
    Finished { sequence: u8, result: Result<(), FileUploadError> },
}

/// Where an upload stands after `event`, where it stood at `state`; nothing
/// where an upload at `state` does no such thing.
///
/// A chunk is sent; what comes back acknowledges an offset, and the next
/// chunk starts there, wherever that is. An offset behind the end is an
/// error. An offset that is not ahead of the chunk that was sent is counted,
/// and is an error only when the count is at the end of what can be counted. After each acknowledged chunk the progress
/// callback hears the acknowledged offset and the total, and may cancel.
/// The upload is complete when the whole is acknowledged and reported.
pub open spec fn upload_step(plan: UploadPlan, state: UploadState, event: Event) -> Option<
    UploadState,
> {
    match state {
        UploadState::Sending { off, sequence, resends } => match event {
            Event::Exchange { request, reply } => if request != plan.request(off, sequence) {
                None
            } else {
                let next = next_token(sequence);
                match acknowledged_by(outcome(upload_identity(plan.target), sequence, reply)) {
                    Err(e) => Some(
                        UploadState::Finished {
                            sequence: next,
                            result: Err(FileUploadError::Execute(e)),
                        },
                    ),
                    Ok(ack) => if ack > plan.total() {
                        Some(
                            UploadState::Finished {
                                sequence: next,
                                result: Err(FileUploadError::OffsetOutOfRange),
                            },
                        )
                    } else if ack == plan.total() || ack > off {
                        Some(UploadState::Reporting { ack, sequence: next, resends })
                    } else if resends >= RESEND_LIMIT {
                        Some(
                            UploadState::Finished {
                                sequence: next,
                                result: Err(FileUploadError::TooManyResends),
                            },
                        )
                    } else {
                        Some(UploadState::Reporting { ack, sequence: next, resends: resends + 1 })
                    },
                }
            },
            _ => None,
        },
        UploadState::Reporting { ack, sequence, resends } => match report_answer(
            event,
            plan.label,
            ack,
            plan.total(),
        ) {
            None => None,
            Some(proceed) => if !proceed {
                Some(UploadState::Finished { sequence, result: Err(FileUploadError::Cancelled) })
            } else if ack == plan.total() {
                Some(UploadState::Finished { sequence, result: Ok(()) })
            } else {
                Some(UploadState::Sending { off: ack, sequence, resends })
            },
        },
        UploadState::Finished { .. } => None,
    }
}

/// Where an upload that starts under `sequence` stands after `events`;
/// nothing where `events` are not what such an upload does.
pub open spec fn upload_run(plan: UploadPlan, sequence: u8, events: Seq<Event>) -> Option<
    UploadState,
>
    decreases events.len(),
{
    if events.len() == 0 {
        Some(UploadState::Sending { off: 0, sequence, resends: 0 })
    } else {
        match upload_run(plan, sequence, events.drop_last()) {
            None => None,
            Some(state) => upload_step(plan, state, events.last()),
        }
    }
}

/// The length of the payload of a file chunk.
proof fn lemma_file_payload_len(v: FileUploadView)
    ensures
        encode_value(v.payload()).len() == 1 + encode_value(CborModel::Text("off"@)).len()
            + encode_value(CborModel::Unsigned(v.off)).len() + encode_value(
            CborModel::Text("data"@),
        ).len() + encode_value(CborModel::Bytes(v.data)).len() + encode_value(
            CborModel::Text("name"@),
        ).len() + encode_value(CborModel::Text(v.name)).len() + if v.len is Some {
            encode_value(CborModel::Text("len"@)).len() + encode_value(
                CborModel::Unsigned(v.len.unwrap()),
            ).len()
        } else {
            0
        },
{
    let a = seq![entry("off"@, CborModel::Unsigned(v.off))];
    let b = seq![entry("data"@, CborModel::Bytes(v.data))];
    let c = seq![entry("name"@, CborModel::Text(v.name))];
    let d = optional(v.len is Some, "len"@, CborModel::Unsigned(v.len.unwrap_or(0)));
    assert(v.payload()->Dict_0 =~= a + b + c + d);
    lemma_entries_len_add(a, b);
    lemma_entries_len_add(a + b, c);
    lemma_entries_len_add(a + b + c, d);
    lemma_entries_len_one("off"@, CborModel::Unsigned(v.off));
    lemma_entries_len_one("data"@, CborModel::Bytes(v.data));
    lemma_entries_len_one("name"@, CborModel::Text(v.name));
    lemma_entries_len_optional(v.len is Some, "len"@, CborModel::Unsigned(v.len.unwrap_or(0)));
    lemma_dict_len(a + b + c + d);
}

/// The length of the payload of an image chunk.
proof fn lemma_image_payload_len(v: ImageUploadView)
    ensures
        encode_value(v.payload()).len() == 1 + encode_value(CborModel::Text("off"@)).len()
            + encode_value(CborModel::Unsigned(v.off)).len() + encode_value(
            CborModel::Text("data"@),
        ).len() + encode_value(CborModel::Bytes(v.data)).len() + (if v.image is Some {
            encode_value(CborModel::Text("image"@)).len() + encode_value(
                CborModel::Unsigned(v.image.unwrap() as u64),
            ).len()
        } else {
            0
        }) + (if v.len is Some {
            encode_value(CborModel::Text("len"@)).len() + encode_value(
                CborModel::Unsigned(v.len.unwrap()),
            ).len()
        } else {
            0
        }) + (if v.sha is Some {
            encode_value(CborModel::Text("sha"@)).len() + encode_value(
                CborModel::Bytes(v.sha.unwrap()),
            ).len()
        } else {
            0
        }) + (if v.upgrade is Some {
            encode_value(CborModel::Text("upgrade"@)).len() + encode_value(
                crate::cbor::value::boolean(v.upgrade.unwrap()),
            ).len()
        } else {
            0
        }),
{
    let a = optional(v.image is Some, "image"@, CborModel::Unsigned(v.image.unwrap_or(0) as u64));
    let b = optional(v.len is Some, "len"@, CborModel::Unsigned(v.len.unwrap_or(0)));
    let c = seq![entry("off"@, CborModel::Unsigned(v.off))];
    let d = optional(v.sha is Some, "sha"@, CborModel::Bytes(v.sha.unwrap_or(Seq::empty())));
    let e = seq![entry("data"@, CborModel::Bytes(v.data))];
    let f = optional(
        v.upgrade is Some,
        "upgrade"@,
        crate::cbor::value::boolean(v.upgrade.unwrap_or(false)),
    );
    assert(v.payload()->Dict_0 =~= a + b + c + d + e + f);
    lemma_entries_len_add(a, b);
    lemma_entries_len_add(a + b, c);
    lemma_entries_len_add(a + b + c, d);
    lemma_entries_len_add(a + b + c + d, e);
    lemma_entries_len_add(a + b + c + d + e, f);
    lemma_entries_len_optional(
        v.image is Some,
        "image"@,
        CborModel::Unsigned(v.image.unwrap_or(0) as u64),
    );
    lemma_entries_len_optional(v.len is Some, "len"@, CborModel::Unsigned(v.len.unwrap_or(0)));
    lemma_entries_len_one("off"@, CborModel::Unsigned(v.off));
    lemma_entries_len_optional(
        v.sha is Some,
        "sha"@,
        CborModel::Bytes(v.sha.unwrap_or(Seq::empty())),
    );
    lemma_entries_len_one("data"@, CborModel::Bytes(v.data));
    lemma_entries_len_optional(
        v.upgrade is Some,
        "upgrade"@,
        crate::cbor::value::boolean(v.upgrade.unwrap_or(false)),
    );
    lemma_dict_len(a + b + c + d + e + f);
}

/// The payload of a chunk of at most 65535 data bytes is longer than the
/// probe payload by no more than the data and two bytes for their length.
pub proof fn lemma_chunk_payload_len(target: UploadTargetView, off: u64, chunk: Seq<u8>, total: u64)
    requires
        chunk.len() <= 0xffff,
    ensures
        encode_value(chunk_payload(target, off, chunk, total)).len() <= encode_value(
            probe_payload(target, total),
        ).len() + 2 + chunk.len(),
{
    lemma_unsigned_len(off);
    lemma_bytes_len(chunk);
    match target {
        UploadTargetView::File { name } => {
            lemma_file_payload_len(
                FileUploadView {
                    off,
                    data: chunk,
                    name,
                    len: if off == 0 {
                        Some(total)
                    } else {
                        None
                    },
                },
            );
            lemma_file_payload_len(
                FileUploadView { off: u64::MAX, data: Seq::empty(), name, len: Some(total) },
            );
        },
        UploadTargetView::Image { image, sha, upgrade } => {
            lemma_image_payload_len(
                ImageUploadView {
                    image: if off == 0 {
                        image
                    } else {
                        None
                    },
                    len: if off == 0 {
                        Some(total)
                    } else {
                        None
                    },
                    off,
                    sha: if off == 0 {
                        sha
                    } else {
                        None
                    },
                    data: chunk,
                    upgrade: if off == 0 && upgrade {
                        Some(true)
                    } else {
                        None
                    },
                },
            );
            lemma_image_payload_len(
                ImageUploadView {
                    image,
                    len: Some(total),
                    off: u64::MAX,
                    sha,
                    data: Seq::empty(),
                    upgrade: if upgrade {
                        Some(true)
                    } else {
                        None
                    },
                },
            );
        },
    }
}

/// Every chunk that an upload sends is framed in no more bytes than the
/// frame limit.
pub proof fn lemma_chunk_frame_fits(
    target: UploadTargetView,
    data: Seq<u8>,
    frame_size: usize,
    label: Option<Seq<char>>,
    off: u64,
    sequence: u8,
)
    requires
        data.len() <= u64::MAX,
        off <= data.len(),
        chunk_capacity(target, data.len() as u64, frame_size) > 0,
    ensures
        ({
            let plan = upload_plan(target, data, frame_size, label);
            &&& plan.request(off, sequence).len() <= frame_limit(frame_size)
            &&& encode_value(chunk_payload(target, off, plan.chunk(off), plan.total())).len()
                <= MAX_PAYLOAD_LEN
        }),
{
    let plan = upload_plan(target, data, frame_size, label);
    lemma_chunk_payload_len(target, off, plan.chunk(off), plan.total());
}

/// The command that carries a chunk to `target`.
fn target_identity(target: &UploadTarget) -> (identity: CommandIdentity)
    ensures
        identity == upload_identity(target@),
{
    match target {
        UploadTarget::File { .. } => CommandIdentity {
            group_id: GROUP_FS,
            command_id: 0,
            direction: Direction::Write,
        },
        UploadTarget::Image { .. } => CommandIdentity {
            group_id: GROUP_IMAGE,
            command_id: 1,
            direction: Direction::Write,
        },
    }
}

/// A copy of an optional byte string.
fn copy_optional_bytes(bytes: &Option<Vec<u8>>) -> (copy: Option<Vec<u8>>)
    ensures
        optional_bytes(copy) == optional_bytes(*bytes),
{
    match bytes {
        Some(b) => Some(slice_to_vec(b.as_slice())),
        None => None,
    }
}

/// The payload of the chunk `chunk` at offset `off` of a whole of `total`
/// bytes.
fn chunk_value(target: &UploadTarget, off: u64, chunk: &[u8], total: u64) -> (v: CborValue)
    ensures
        v@ == chunk_payload(target@, off, chunk@, total),
{
    let first = off == 0;
    match target {
        UploadTarget::File { name } => FileUpload {
            off,
            data: slice_to_vec(chunk),
            name: name.clone(),
            len: if first {
                Some(total)
            } else {
                None
            },
        }.to_value(),
        UploadTarget::Image { image, sha, upgrade } => ImageUpload {
            image: if first {
                *image
            } else {
                None
            },
            len: if first {
                Some(total)
            } else {
                None
            },
            off,
            sha: if first {
                copy_optional_bytes(sha)
            } else {
                None
            },
            data: slice_to_vec(chunk),
            upgrade: if first && *upgrade {
                Some(true)
            } else {
                None
            },
        }.to_value(),
    }
}

/// The probe payload of an upload to `target` of `total` bytes.
fn probe_value(target: &UploadTarget, total: u64) -> (v: CborValue)
    ensures
        v@ == probe_payload(target@, total),
{
    match target {
        UploadTarget::File { name } => FileUpload {
            off: u64::MAX,
            data: Vec::new(),
            name: name.clone(),
            len: Some(total),
        }.to_value(),
        UploadTarget::Image { image, sha, upgrade } => ImageUpload {
            image: *image,
            len: Some(total),
            off: u64::MAX,
            sha: copy_optional_bytes(sha),
            data: Vec::new(),
            upgrade: if *upgrade {
                Some(true)
            } else {
                None
            },
        }.to_value(),
    }
}

/// The number of data bytes that a chunk may hold, or zero where the frame
/// size leaves no room.
pub fn capacity(target: &UploadTarget, total: u64, frame_size: usize) -> (cap: usize)
    ensures
        cap == if chunk_capacity(target@, total, frame_size) > 0 {
            chunk_capacity(target@, total, frame_size)
        } else {
            0
        },
{
    let probe = encode(&probe_value(target, total));
    let limit: usize = if frame_size < HEADER_LEN + MAX_PAYLOAD_LEN {
        frame_size
    } else {
        HEADER_LEN + MAX_PAYLOAD_LEN
    };
    if probe.len() >= limit {
        0
    } else {
        let used: usize = HEADER_LEN + probe.len() + 2;
        if limit > used {
            limit - used
        } else {
            0
        }
    }
}

/// What came back, with the bytes of a payload as a sequence.
pub open spec fn answer_view(answer: Result<Vec<u8>, ExecuteError>) -> Result<
    Seq<u8>,
    ExecuteError,
> {
    match answer {
        Ok(payload) => Ok(payload@),
        Err(e) => Err(e),
    }
}

/// Reads the offset that a payload acknowledges.
pub fn read_ack(answer: Result<Vec<u8>, ExecuteError>) -> (r: Result<u64, ExecuteError>)
    ensures
        r == acknowledged_by(answer_view(answer)),
{
    let payload = answer?;
    let item = read_response_item(payload.as_slice())?;
    match FileUploadResponse::from_value(&item) {
        Ok(response) => Ok(response.off),
        Err(e) => Err(ExecuteError::Codec(e)),
    }
}

/// The characters of an optional text.
pub open spec fn optional_str(label: Option<&str>) -> Option<Seq<char>> {
    match label {
        Some(l) => Some(l@),
        None => None,
    }
}

/// What the upload of `data` to `target` does where the frame size is
/// `frame_size`.
pub open spec fn upload_plan(
    target: UploadTargetView,
    data: Seq<u8>,
    frame_size: usize,
    label: Option<Seq<char>>,
) -> UploadPlan {
    UploadPlan {
        target,
        data,
        capacity: chunk_capacity(target, data.len() as u64, frame_size),
        label,
    }
}

/// Sends `data` to `target`, chunk by chunk, in frames of at most
/// `frame_size` bytes. The chunk at offset zero is sent even where there
/// are no data. After each chunk the device says how far it has got, and
/// the next chunk starts there; the progress callback hears of it and may
/// cancel: `plain` where there is no `label`, else `labelled` under
/// `label`.
pub fn upload_with<T: Transport, P: ProgressCallback, F: FirmwareUpdateProgressCallback>(
    connection: &mut Connection<T>,
    target: &UploadTarget,
    data: &[u8],
    frame_size: usize,
    plain: &mut P,
    labelled: &mut F,
    label: Option<&str>,
) -> (r: Result<(), FileUploadError>)
    ensures
        final(connection).extends(*old(connection)),
        final(connection).ran(*old(connection)),
        reports_run(final(connection).since(*old(connection)), *old(plain), *final(plain)),
        steps_run(final(connection).since(*old(connection)), *old(labelled), *final(labelled)),
        chunk_capacity(target@, data.len() as u64, frame_size) <= 0 ==> r == Err::<
            (),
            FileUploadError,
        >(FileUploadError::FrameSizeTooSmall) && final(connection).history() == old(connection).history() && final(connection).next_sequence() == old(connection).next_sequence(),
        chunk_capacity(target@, data.len() as u64, frame_size) > 0 ==> upload_run(
            upload_plan(target@, data@, frame_size, optional_str(label)),
            old(connection).next_sequence(),
            final(connection).since(*old(connection)),
        ) == Some(
            UploadState::Finished { sequence: final(connection).next_sequence(), result: r },
        ),
{
    let total: u64 = data.len() as u64;
    let cap: usize = capacity(target, total, frame_size);
    proof {
        lemma_ran_nothing(*connection);
        lemma_run_empty(*plain, report_step::<P>());
        lemma_run_empty(*labelled, label_step::<F>());
    }
    if cap == 0 {
        return Err(FileUploadError::FrameSizeTooSmall);
    }
    let identity = target_identity(target);
    let ghost plan = upload_plan(target@, data@, frame_size, optional_str(label));
    let ghost start = old(connection).next_sequence();
    let ghost base = old(connection).history().len() as int;
    let mut session = TransferSession {
        total_length: Some(total),
        offset: 0,
        chosen_hash_algorithm: match target {
            UploadTarget::Image { sha: Some(_), .. } => Some(HashAlgorithm::Sha256),
            _ => None,
        },
        last_chunk_size: 0,
    };
    let mut resends: u64 = 0;
    loop
        invariant
            connection.extends(*old(connection)),
            connection.ran(*old(connection)),
            reports_run(connection.since(*old(connection)), *old(plain), *plain),
            steps_run(connection.since(*old(connection)), *old(labelled), *labelled),
            base == old(connection).history().len(),
            start == old(connection).next_sequence(),
            plan == upload_plan(target@, data@, frame_size, optional_str(label)),
            cap as int == chunk_capacity(target@, data.len() as u64, frame_size),
            cap > 0,
            total == data.len(),
            identity == upload_identity(target@),
            session.offset <= total,
            resends <= RESEND_LIMIT,
            upload_run(plan, start, connection.since(*old(connection))) == Some(
                UploadState::Sending {
                    off: session.offset,
                    sequence: connection.next_sequence(),
                    resends: resends as nat,
                },
            ),
        decreases RESEND_LIMIT - resends, total - session.offset,
    {
        let off: u64 = session.offset;
        let end: usize = if total - off > cap as u64 {
            off as usize + cap
        } else {
            data.len()
        };
        let chunk = slice_subrange(data, off as usize, end);
        assert(chunk@ == plan.chunk(off));
        let payload = encode(&chunk_value(target, off, chunk, total));
        proof {
            lemma_chunk_frame_fits(
                target@,
                data@,
                frame_size,
                optional_str(label),
                off,
                connection.next_sequence(),
            );
        }
        let ghost before = *connection;
        let ghost events = connection.since(*old(connection));
        let answer = connection.execute(identity, payload.as_slice());
        let ghost exchange = connection.history().last();
        proof {
            assert(connection.history() == before.history().push(exchange));
            lemma_ran_push(*connection, before, *old(connection), exchange);
            lemma_run_push(events, *old(plain), *plain, exchange, *plain, report_step::<P>());
            lemma_run_push(
                events,
                *old(labelled),
                *labelled,
                exchange,
                *labelled,
                label_step::<F>(),
            );
            assert(events.push(exchange).drop_last() =~= events);
            assert(answer_view(answer) == outcome(
                identity,
                before.next_sequence(),
                reply_of(exchange),
            ));
        }
        let ack: u64 = match read_ack(answer) {
            Ok(ack) => ack,
            Err(e) => {
                return Err(FileUploadError::Execute(e));
            },
        };
        if ack > total {
            return Err(FileUploadError::OffsetOutOfRange);
        }
        if !(ack == total || ack > off) {
            if resends >= RESEND_LIMIT {
                return Err(FileUploadError::TooManyResends);
            }
            resends = resends + 1;
        }
        session.last_chunk_size = (end - off as usize) as u32;
        let ghost reported = connection.since(*old(connection));
        let ghost sent = *connection;
        let ghost heard = *plain;
        let ghost told = *labelled;
        assert(upload_run(plan, start, reported) == Some(
            UploadState::Reporting {
                ack,
                sequence: connection.next_sequence(),
                resends: resends as nat,
            },
        ));
        let proceed = match label {
            Some(l) => connection.notify_step(labelled, l, Some((ack, total))),
            None => connection.notify(plain, ack, total),
        };
        proof {
            let report = connection.history().last();
            assert(report_answer(report, plan.label, ack, total) == Some(proceed));
            lemma_ran_push(*connection, sent, *old(connection), report);
            lemma_run_push(reported, *old(plain), heard, report, *plain, report_step::<P>());
            lemma_run_push(
                reported,
                *old(labelled),
                told,
                report,
                *labelled,
                label_step::<F>(),
            );
            assert(reported.push(report).drop_last() =~= reported);
            assert(upload_run(plan, start, reported.push(report)) == upload_step(
                plan,
                UploadState::Reporting {
                    ack,
                    sequence: connection.next_sequence(),
                    resends: resends as nat,
                },
                report,
            ));
        }
        if !proceed {
            return Err(FileUploadError::Cancelled);
        }
        if ack == total {
            return Ok(());
        }
        session.offset = ack;
    }
}

/// Sends `data` to `target`, chunk by chunk, in frames of at most
/// `frame_size` bytes, and tells `progress` after each chunk how far the
/// device has got.
pub fn upload<T: Transport, P: ProgressCallback>(
    connection: &mut Connection<T>,
    target: &UploadTarget,
    data: &[u8],
    frame_size: usize,
    progress: &mut P,
) -> (r: Result<(), FileUploadError>)
    ensures
        final(connection).extends(*old(connection)),
        final(connection).ran(*old(connection)),
        reports_run(final(connection).since(*old(connection)), *old(progress), *final(progress)),
        chunk_capacity(target@, data.len() as u64, frame_size) <= 0 ==> r == Err::<
            (),
            FileUploadError,
        >(FileUploadError::FrameSizeTooSmall) && final(connection).history() == old(connection).history() && final(connection).next_sequence() == old(connection).next_sequence(),
        chunk_capacity(target@, data.len() as u64, frame_size) > 0 ==> upload_run(
            upload_plan(target@, data@, frame_size, None),
            old(connection).next_sequence(),
            final(connection).since(*old(connection)),
        ) == Some(
            UploadState::Finished { sequence: final(connection).next_sequence(), result: r },
        ),
{
    let mut unused = NoProgress;
    upload_with(connection, target, data, frame_size, progress, &mut unused, None)
}

/// Where the device acknowledges an offset and the upload goes on, the next
/// chunk starts at that offset: behind the chunk that was sent, within it,
/// or before it, as the device says.
pub proof fn lemma_next_chunk_starts_at_acknowledged_offset(
    plan: UploadPlan,
    off: u64,
    sequence: u8,
    resends: nat,
    reply: Reply,
    ack: u64,
    report: Event,
    next: Event,
)
    requires
        acknowledged_by(outcome(upload_identity(plan.target), sequence, reply)) == Ok::<
            u64,
            ExecuteError,
        >(ack),
        upload_step(
            plan,
            UploadState::Sending { off, sequence, resends },
            Event::Exchange { request: plan.request(off, sequence), reply },
        ) matches Some(reporting) && upload_step(plan, reporting, report) matches Some(sending)
            && upload_step(plan, sending, next) is Some,
    ensures
        next matches Event::Exchange { request, .. } && request == plan.request(
            ack,
            next_token(sequence),
        ),
{
}

/// The callback that lets every transfer go on cancels no upload: where
/// it is the one that hears the reports of an upload, the upload does not
/// end as cancelled.
pub proof fn lemma_no_progress_cancels_no_upload(
    plan: UploadPlan,
    sequence: u8,
    events: Seq<Event>,
    before: NoProgress,
    after: NoProgress,
)
    requires
        plan.label is None,
        reports_run(events, before, after),
    ensures
        upload_run(plan, sequence, events) != Some(
            UploadState::Finished {
                sequence: upload_run(plan, sequence, events)->Some_0->Finished_sequence,
                result: Err(FileUploadError::Cancelled),
            },
        ),
{
    if events.len() > 0 {
        let states = choose|states: Seq<NoProgress>| #[trigger]
            chain(events, states, report_step::<NoProgress>()) && states[0] == before
                && states.last() == after;
        let last = events.len() - 1;
        assert(report_step::<NoProgress>()(states[last], events[last], states[last + 1]));
    }
}

/// Why a download did not complete.
#[derive(Debug, Clone, PartialEq, Eq)]
pub enum FileDownloadError {
    /// A chunk could not be executed.
    Execute(ExecuteError),
    /// The progress callback cancelled the download.
    Cancelled,
    /// The path is too long for a frame; nothing was sent.
    NameTooLong,
    /// The first chunk does not say how long the file is.
    MissingLength,
    /// A chunk is not the one that was asked for.
    UnexpectedOffset,
    /// A chunk holds no data, and the file is not complete.
    EmptyChunk,
    /// A chunk holds more data than the file has left.
    TooMuchData,
}

/// Where a download stands.
pub enum DownloadState {
    /// The chunk behind `received` is to be asked for under `sequence`.
    /// The length of the file is `known`, once the first chunk has said it.
    Requesting { received: Seq<u8>, known: Option<u64>, sequence: u8 },
    /// `received` is there, and the progress callback is to be told.
    Reporting { received: Seq<u8>, total: u64, sequence: u8 },
    /// The download is over, with `result`.
    Finished { sequence: u8, result: Result<Seq<u8>, FileDownloadError> },
}

/// The frame that asks for the chunk at `off` of the file `name`.
pub open spec fn download_request(name: Seq<char>, off: u64, sequence: u8) -> Seq<u8> {
    request_frame(
        FileDownload::identity(),
        sequence,
        encode_value(FileDownloadView { off, name }.payload()),
    )
}

/// The chunk that a payload holds, or why there is none.
pub open spec fn chunk_in(answer: Result<Seq<u8>, ExecuteError>) -> Result<
    FileDownloadResponseView,
    ExecuteError,
> {
    match answer {
        Err(e) => Err(e),
        Ok(payload) => match response_item(payload) {
            Err(e) => Err(e),
            Ok(m) => match FileDownloadResponseView::parse(m) {
                Err(e) => Err(ExecuteError::Codec(e)),
                Ok(response) => Ok(response),
            },
        },
    }
}

/// Where a download stands once `chunk` has come for the request behind
/// `received`.
pub open spec fn download_take(
    received: Seq<u8>,
    total: Option<u64>,
    sequence: u8,
    chunk: FileDownloadResponseView,
) -> DownloadState {
    let length = if received.len() == 0 {
        chunk.len
    } else {
        total
    };
    if chunk.off != received.len() {
        DownloadState::Finished { sequence, result: Err(FileDownloadError::UnexpectedOffset) }
    } else if length is None {
        DownloadState::Finished { sequence, result: Err(FileDownloadError::MissingLength) }
    } else if received.len() + chunk.data.len() > length.unwrap() {
        DownloadState::Finished { sequence, result: Err(FileDownloadError::TooMuchData) }
    } else if chunk.data.len() == 0 && received.len() < length.unwrap() {
        DownloadState::Finished { sequence, result: Err(FileDownloadError::EmptyChunk) }
    } else {
        DownloadState::Reporting {
            received: received + chunk.data,
            total: length.unwrap(),
            sequence,
        }
    }
}

/// Where a download of the file `name` stands after `event`, where it
/// stood at `state`; nothing where a download at `state` does no such
/// thing.
///
/// The chunk behind what is there is asked for. The first chunk says how
/// long the file is. What comes is added in the order in which it comes,
/// and the progress callback hears how much is there and may cancel. The
/// download is complete when as much is there as the first chunk said.
pub open spec fn download_step(name: Seq<char>, state: DownloadState, event: Event) -> Option<
    DownloadState,
> {
    match state {
        DownloadState::Requesting { received, known, sequence } => match event {
            Event::Exchange { request, reply } => if request != download_request(
                name,
                received.len() as u64,
                sequence,
            ) {
                None
            } else {
                match chunk_in(outcome(FileDownload::identity(), sequence, reply)) {
                    Err(e) => Some(
                        DownloadState::Finished {
                            sequence: next_token(sequence),
                            result: Err(FileDownloadError::Execute(e)),
                        },
                    ),
                    Ok(chunk) => Some(
                        download_take(received, known, next_token(sequence), chunk),
                    ),
                }
            },
            _ => None,
        },
        DownloadState::Reporting { received, total, sequence } => match event {
            Event::Progress { current, total: told, proceed } => if current != received.len()
                || told != total {
                None
            } else if !proceed {
                Some(
                    DownloadState::Finished {
                        sequence,
                        result: Err(FileDownloadError::Cancelled),
                    },
                )
            } else if received.len() == total {
                Some(DownloadState::Finished { sequence, result: Ok(received) })
            } else {
                Some(DownloadState::Requesting { received, known: Some(total), sequence })
            },
            _ => None,
        },
        DownloadState::Finished { .. } => None,
    }
}

/// Where a download of the file `name` that starts under `sequence` stands
/// after `events`; nothing where `events` are not what such a download
/// does.
pub open spec fn download_run(name: Seq<char>, sequence: u8, events: Seq<Event>) -> Option<
    DownloadState,
>
    decreases events.len(),
{
    if events.len() == 0 {
        Some(DownloadState::Requesting { received: Seq::empty(), known: None, sequence })
    } else {
        match download_run(name, sequence, events.drop_last()) {
            None => None,
            Some(state) => download_step(name, state, events.last()),
        }
    }
}

/// Whether the request for a chunk of the file `name` fits a frame at
/// every offset.
pub open spec fn download_fits(name: Seq<char>) -> bool {
    encode_value(FileDownloadView { off: u64::MAX, name }.payload()).len() <= MAX_PAYLOAD_LEN
}

/// The request for a chunk is no longer at any offset than at the
/// greatest.
proof fn lemma_download_request_len(name: Seq<char>, off: u64)
    ensures
        encode_value(FileDownloadView { off, name }.payload()).len() <= encode_value(
            FileDownloadView { off: u64::MAX, name }.payload(),
        ).len(),
{
    lemma_unsigned_len(off);
    let a = seq![entry("off"@, CborModel::Unsigned(off))];
    let b = seq![entry("name"@, CborModel::Text(name))];
    let c = seq![entry("off"@, CborModel::Unsigned(u64::MAX))];
    assert((FileDownloadView { off, name }).payload()->Dict_0 =~= a + b);
    assert((FileDownloadView { off: u64::MAX, name }).payload()->Dict_0 =~= c + b);
    lemma_entries_len_add(a, b);
    lemma_entries_len_add(c, b);
    lemma_entries_len_one("off"@, CborModel::Unsigned(off));
    lemma_entries_len_one("off"@, CborModel::Unsigned(u64::MAX));
    lemma_dict_len(a + b);
    lemma_dict_len(c + b);
}

/// What a download gave, with the bytes as a sequence.
pub open spec fn download_view(r: Result<Vec<u8>, FileDownloadError>) -> Result<
    Seq<u8>,
    FileDownloadError,
> {
    match r {
        Ok(bytes) => Ok(bytes@),
        Err(e) => Err(e),
    }
}

/// Reads the chunk that a payload holds.
pub fn read_chunk(answer: Result<Vec<u8>, ExecuteError>) -> (r: Result<
    FileDownloadResponse,
    ExecuteError,
>)
    ensures
        match chunk_in(answer_view(answer)) {
            Ok(chunk) => r matches Ok(c) && c@ == chunk,
            Err(e) => r matches Err(f) && f == e,
        },
{
    let payload = answer?;
    let item = read_response_item(payload.as_slice())?;
    match FileDownloadResponse::from_value(&item) {
        Ok(response) => Ok(response),
        Err(e) => Err(ExecuteError::Codec(e)),
    }
}

/// Reads the file `name` from the device, chunk by chunk, from offset zero
/// on.
pub fn download<T: Transport, P: ProgressCallback>(
    connection: &mut Connection<T>,
    name: &str,
    progress: &mut P,
) -> (r: Result<Vec<u8>, FileDownloadError>)
    ensures
        final(connection).extends(*old(connection)),
        final(connection).ran(*old(connection)),
        reports_run(final(connection).since(*old(connection)), *old(progress), *final(progress)),
        !download_fits(name@) ==> (r matches Err(FileDownloadError::NameTooLong))
            && final(connection).history() == old(connection).history()
            && final(connection).next_sequence() == old(connection).next_sequence(),
        download_fits(name@) ==> download_run(
            name@,
            old(connection).next_sequence(),
            final(connection).since(*old(connection)),
        ) == Some(
            DownloadState::Finished {
                sequence: final(connection).next_sequence(),
                result: download_view(r),
            },
        ),
{
    proof {
        lemma_ran_nothing(*connection);
        lemma_run_empty(*progress, report_step::<P>());
    }
    let probe = encode(&FileDownload { off: u64::MAX, name: name.to_owned() }.to_value());
    if probe.len() > MAX_PAYLOAD_LEN {
        return Err(FileDownloadError::NameTooLong);
    }
    let identity = CommandIdentity {
        group_id: GROUP_FS,
        command_id: 0,
        direction: Direction::Read,
    };
    let ghost start = old(connection).next_sequence();
    let ghost base = old(connection).history().len() as int;
    let mut received: Vec<u8> = Vec::new();
    let mut session = TransferSession {
        total_length: None,
        offset: 0,
        chosen_hash_algorithm: None,
        last_chunk_size: 0,
    };
    loop
        invariant
            connection.extends(*old(connection)),
            connection.ran(*old(connection)),
            reports_run(connection.since(*old(connection)), *old(progress), *progress),
            base == old(connection).history().len(),
            start == old(connection).next_sequence(),
            identity == FileDownload::identity(),
            download_fits(name@),
            session.offset == received.len(),
            received.len() > 0 ==> session.total_length is Some,
            session.total_length matches Some(total) ==> 0 < received.len() < total,
            download_run(name@, start, connection.since(*old(connection))) == Some(
                DownloadState::Requesting {
                    received: received@,
                    known: session.total_length,
                    sequence: connection.next_sequence(),
                },
            ),
        decreases
                match session.total_length {
                    Some(total) => total - received.len() + 1,
                    None => u64::MAX + 2,
                },
    {
        let off: u64 = session.offset;
        let payload = encode(&FileDownload { off, name: name.to_owned() }.to_value());
        proof {
            lemma_download_request_len(name@, off);
        }
        let ghost before = *connection;
        let ghost events = connection.since(*old(connection));
        let answer = connection.execute(identity, payload.as_slice());
        let ghost exchange = connection.history().last();
        proof {
            assert(connection.history() == before.history().push(exchange));
            lemma_ran_push(*connection, before, *old(connection), exchange);
            lemma_run_push(
                events,
                *old(progress),
                *progress,
                exchange,
                *progress,
                report_step::<P>(),
            );
            assert(events.push(exchange).drop_last() =~= events);
            assert(answer_view(answer) == outcome(
                identity,
                before.next_sequence(),
                reply_of(exchange),
            ));
        }
        assert(download_run(name@, start, events.push(exchange)) == download_step(
            name@,
            DownloadState::Requesting {
                received: received@,
                known: session.total_length,
                sequence: before.next_sequence(),
            },
            exchange,
        ));
        let chunk = match read_chunk(answer) {
            Ok(chunk) => chunk,
            Err(e) => {
                return Err(FileDownloadError::Execute(e));
            },
        };
        if chunk.off != off {
            return Err(FileDownloadError::UnexpectedOffset);
        }
        let length = if off == 0 {
            chunk.len
        } else {
            session.total_length
        };
        let total: u64 = match length {
            Some(total) => total,
            None => {
                return Err(FileDownloadError::MissingLength);
            },
        };
        if off > total || chunk.data.len() as u64 > total - off {
            return Err(FileDownloadError::TooMuchData);
        }
        if chunk.data.len() == 0 && off < total {
            return Err(FileDownloadError::EmptyChunk);
        }
        let ghost earlier = received@;
        let ghost known = session.total_length;
        received.extend_from_slice(chunk.data.as_slice());
        assert(received@ =~= earlier + chunk@.data);
        assert(download_take(earlier, known, connection.next_sequence(), chunk@)
            == DownloadState::Reporting {
            received: received@,
            total,
            sequence: connection.next_sequence(),
        });
        session.total_length = Some(total);
        session.offset = off + chunk.data.len() as u64;
        session.last_chunk_size = if chunk.data.len() > 0xffff_ffff {
            0xffff_ffff
        } else {
            chunk.data.len() as u32
        };
        let ghost reported = connection.since(*old(connection));
        let ghost sent = *connection;
        let ghost heard = *progress;
        assert(download_run(name@, start, reported) == Some(
            DownloadState::Reporting {
                received: received@,
                total,
                sequence: connection.next_sequence(),
            },
        ));
        let proceed = connection.notify(progress, session.offset, total);
        proof {
            let report = Event::Progress { current: session.offset, total, proceed };
            lemma_ran_push(*connection, sent, *old(connection), report);
            lemma_run_push(
                reported,
                *old(progress),
                heard,
                report,
                *progress,
                report_step::<P>(),
            );
            assert(reported.push(report).drop_last() =~= reported);
            assert(download_run(name@, start, reported.push(report)) == download_step(
                name@,
                DownloadState::Reporting {
                    received: received@,
                    total,
                    sequence: connection.next_sequence(),
                },
                report,
            ));
        }
        if !proceed {
            return Err(FileDownloadError::Cancelled);
        }
        if session.offset == total {
            return Ok(received);
        }
    }
}

/// The callback that lets every transfer go on cancels no download: where
/// it is the one that hears the reports of a download, the download does
/// not end as cancelled.
pub proof fn lemma_no_progress_cancels_no_download(
    name: Seq<char>,
    sequence: u8,
    events: Seq<Event>,
    before: NoProgress,
    after: NoProgress,
)
    requires
        reports_run(events, before, after),
    ensures
        download_run(name, sequence, events) != Some(
            DownloadState::Finished {
                sequence: download_run(name, sequence, events)->Some_0->Finished_sequence,
                result: Err(FileDownloadError::Cancelled),
            },
        ),
{
    if events.len() > 0 {
        let states = choose|states: Seq<NoProgress>| #[trigger]
            chain(events, states, report_step::<NoProgress>()) && states[0] == before
                && states.last() == after;
        let last = events.len() - 1;
        assert(report_step::<NoProgress>()(states[last], events[last], states[last + 1]));
    }
}

} // verus!
