//! The firmware update: the bootloader is found out, the image goes to the
//! device, is marked for the next boot, and the device restarts.
use crate::bootloader::{bootloader_named, BootloaderType, BootloaderTypeView};
use crate::cbor::access::{empty_payload, optional};
use crate::cbor::head::lemma_encode_head_len;
use crate::cbor::laws::lemma_text_item_len;
use crate::cbor::value::{boolean, encode_value, CborModel};
use crate::client::MCUmgrClient;
use crate::cbor::decode::NESTING_LIMIT;
use crate::cbor::laws::lemma_utf8_len;
use crate::cbor::value::well_formed;
use crate::commands::image::{
    lemma_image_state_write_round_trip, ImageStateWrite, ImageStateWriteView, ImageUpload,
};
use crate::commands::os::{
    BootloaderInfo, BootloaderInfoResponseView, SystemReset,
};
use crate::connection::{
    chain, label_step, lemma_ran_add, lemma_ran_nothing, lemma_ran_push, lemma_run_add, lemma_run_empty,
    lemma_run_push, next_token, outcome, response_item, steps_run, Connection, Event,
    ExecuteError,
};
use crate::device::{
    identity_in, item_in_request, lemma_request_identity, lemma_request_is_seen,
};
use crate::frame::{parse_header, request_frame, MAX_PAYLOAD_LEN};
use crate::mcuboot::{
    lemma_hash_len, mcuboot_parse_image, parse_header as parse_image_header, parse_image,
    tlv_offset, ImageParseError, SHA256_LEN, TLV_INFO_SIZE,
};
use crate::progress::{FirmwareUpdateProgressCallback, NoProgress};
use crate::cbor::laws::{lemma_entries_len_add, lemma_entries_len_optional};
use crate::transfer::{
    image_failure, upload_plan, upload_run, upload_step, upload_with, FileUploadError,
    ImageUploadError, UploadPlan, UploadState, UploadTarget, UploadTargetView,
};
use crate::transport::Transport;
use vstd::prelude::*;
use vstd::slice::slice_to_vec;

verus! {

broadcast use vstd::string::group_string_axioms;

/// Why a firmware update did not complete.
#[derive(Debug, Clone, PartialEq, Eq)]
pub enum FirmwareUpdateError {
    /// The progress callback cancelled the update.
    ProgressCallbackError,
    /// The device could not be asked for its bootloader.
    BootloaderDetectionFailed(ExecuteError),
    /// The bootloader is none that an update can be made for.
    BootloaderNotSupported,
    /// The firmware is no image that can be identified; nothing of it was
    /// sent.
    InvalidImage(ImageParseError),
    /// The image could not be uploaded.
    ImageUploadFailed(ImageUploadError),
    /// The image could not be marked for the next boot.
    SetStateFailed(ExecuteError),
    /// The device could not be told to restart.
    RebootFailed(ExecuteError),
}

/// What a firmware update is to do.
#[derive(Debug, Clone, PartialEq, Eq)]
pub struct FirmwareUpdateParams {
    /// The bootloader of the device; without one, the device is asked.
    pub bootloader_type: Option<BootloaderType>,
    /// Whether the device is left running after the update.
    pub skip_reboot: bool,
    /// Whether the image is to stay from the first boot on, without a
    /// boot to try it.
    pub force_confirm: bool,
}

impl Default for FirmwareUpdateParams {
    fn default() -> (params: Self)
        ensures
            params.bootloader_type is None,
            !params.skip_reboot,
            !params.force_confirm,
    {
        FirmwareUpdateParams { bootloader_type: None, skip_reboot: false, force_confirm: false }
    }
}

/// The model of an optional bootloader.
pub open spec fn bootloader_view(bootloader: Option<BootloaderType>) -> Option<BootloaderTypeView> {
    match bootloader {
        Some(b) => Some(b@),
        None => None,
    }
}

/// What a firmware update does.
pub struct UpdatePlan {
    /// The bytes of the firmware.
    pub firmware: Seq<u8>,
    /// The bootloader that the caller named.
    pub bootloader_type: Option<BootloaderTypeView>,
    /// Whether the device is left running after the update.
    pub skip_reboot: bool,
    /// Whether the image is to stay from the first boot on.
    pub force_confirm: bool,
    /// The largest frame of the upload.
    pub frame_size: usize,
}

/// The description of the step in which the bootloader is found out.
pub open spec fn label_detect() -> Seq<char> {
    "Detecting bootloader"@
}

/// The description of the step in which the image is uploaded.
pub open spec fn label_upload() -> Seq<char> {
    "Uploading image"@
}

/// The description of the step in which the image is marked for the next
/// boot: to stay, or to be tried.
pub open spec fn label_mark(confirm: bool) -> Seq<char> {
    if confirm {
        "Confirming image"@
    } else {
        "Marking image for test"@
    }
}

/// The description of the step in which the device restarts.
pub open spec fn label_reboot() -> Seq<char> {
    "Rebooting device"@
}

impl UpdatePlan {
    /// The hash of the firmware, where it is an image.
    pub open spec fn hash(self) -> Seq<u8> {
        match parse_image(self.firmware) {
            Ok(info) => info.hash,
            Err(_) => Seq::empty(),
        }
    }

    /// Where the image goes: to the slot that the device picks, with its
    /// hash.
    pub open spec fn target(self) -> UploadTargetView {
        UploadTargetView::Image { image: None, sha: Some(self.hash()), upgrade: false }
    }

    /// The upload of the image.
    pub open spec fn upload(self) -> UploadPlan {
        upload_plan(self.target(), self.firmware, self.frame_size, Some(label_upload()))
    }

    /// The frame that asks the device for its bootloader.
    pub open spec fn detect_request(self, sequence: u8) -> Seq<u8> {
        request_frame(BootloaderInfo::identity(), sequence, encode_value(empty_payload()))
    }

    /// The frame that marks the image for the next boot: to stay where the
    /// plan says so, else to be tried once.
    pub open spec fn mark_request(self, sequence: u8) -> Seq<u8> {
        request_frame(
            ImageStateWrite::identity(),
            sequence,
            encode_value(
                ImageStateWriteView { hash: Some(self.hash()), confirm: self.force_confirm }.payload(),
            ),
        )
    }

    /// The frame that tells the device to restart.
    pub open spec fn reboot_request(self, sequence: u8) -> Seq<u8> {
        request_frame(
            SystemReset::identity(),
            sequence,
            encode_value(SystemReset { force: false, boot_mode: None }.payload()),
        )
    }
}

/// Where a firmware update stands.
pub enum UpdateState {
    /// The callback is to hear that the bootloader is being found out.
    AnnounceDetect { sequence: u8 },
    /// The device is to be asked for its bootloader.
    Detect { sequence: u8 },
    /// The callback is to hear that the upload starts.
    AnnounceUpload { sequence: u8 },
    /// The upload is under way.
    Upload { upload: UploadState },
    /// The callback is to hear that the image is being marked.
    AnnounceMark { sequence: u8 },
    /// The image is to be marked for the next boot.
    Mark { sequence: u8 },
    /// The callback is to hear that the device restarts.
    AnnounceReboot { sequence: u8 },
    /// The device is to be told to restart.
    Reboot { sequence: u8 },
    /// The update is over, with `result`.
    Finished { sequence: u8, result: Result<(), FirmwareUpdateError> },
}

/// The answer of the callback, where `event` is the report of the step
/// `label`.
pub open spec fn step_answer(event: Event, label: Seq<char>) -> Option<bool> {
    match event {
        Event::Step { label: l, progress, proceed } => if l == label && progress is None {
            Some(proceed)
        } else {
            None
        },
        _ => None,
    }
}

/// The item that came back, or why there is none.
pub open spec fn item_in(answer: Result<Seq<u8>, ExecuteError>) -> Result<CborModel, ExecuteError> {
    match answer {
        Err(e) => Err(e),
        Ok(payload) => response_item(payload),
    }
}

/// Where an update stands once the bootloader is known: an update can be
/// made for MCUboot alone, and only with firmware that is an image.
pub open spec fn after_detect(plan: UpdatePlan, bootloader: BootloaderTypeView, sequence: u8)
    -> UpdateState {
    match bootloader {
        BootloaderTypeView::Other(_) => UpdateState::Finished {
            sequence,
            result: Err(FirmwareUpdateError::BootloaderNotSupported),
        },
        BootloaderTypeView::MCUboot => match parse_image(plan.firmware) {
            Err(e) => UpdateState::Finished {
                sequence,
                result: Err(FirmwareUpdateError::InvalidImage(e)),
            },
            Ok(_) => UpdateState::AnnounceUpload { sequence },
        },
    }
}

/// Where an update stands while or after the image is uploaded.
pub open spec fn after_upload(upload: UploadState) -> UpdateState {
    match upload {
        UploadState::Finished { sequence, result } => match result {
            Ok(()) => UpdateState::AnnounceMark { sequence },
            Err(FileUploadError::Cancelled) => UpdateState::Finished {
                sequence,
                result: Err(FirmwareUpdateError::ProgressCallbackError),
            },
            Err(e) => UpdateState::Finished {
                sequence,
                result: Err(FirmwareUpdateError::ImageUploadFailed(image_failure(e))),
            },
        },
        _ => UpdateState::Upload { upload },
    }
}

/// Where an update stands after the callback has answered `proceed` to the
/// report of a step: cancelled, or at `next`.
pub open spec fn announced(proceed: bool, sequence: u8, next: UpdateState) -> UpdateState {
    if proceed {
        next
    } else {
        UpdateState::Finished {
            sequence,
            result: Err(FirmwareUpdateError::ProgressCallbackError),
        }
    }
}

/// Where a firmware update stands after `event`, where it stood at
/// `state`; nothing where an update at `state` does no such thing.
///
/// Each step is reported to the callback before it is taken, and the
/// callback may cancel. The bootloader is the one that the caller named,
/// or else the one that the device names. The firmware is looked at before
/// any of it is sent. The image is uploaded; then it is marked: to stay
/// where the plan says so, else to be tried once. Then the device is told
/// to restart, unless the plan says to leave it running. The first
/// failure ends the update, and says in which step it came.
pub open spec fn update_step(plan: UpdatePlan, state: UpdateState, event: Event) -> Option<
    UpdateState,
> {
    match state {
        UpdateState::AnnounceDetect { sequence } => match step_answer(event, label_detect()) {
            None => None,
            Some(proceed) => Some(
                announced(
                    proceed,
                    sequence,
                    match plan.bootloader_type {
                        Some(bootloader) => after_detect(plan, bootloader, sequence),
                        None => UpdateState::Detect { sequence },
                    },
                ),
            ),
        },
        UpdateState::Detect { sequence } => match event {
            Event::Exchange { request, reply } => if request != plan.detect_request(sequence) {
                None
            } else {
                match item_in(outcome(BootloaderInfo::identity(), sequence, reply)) {
                    Err(e) => Some(
                        UpdateState::Finished {
                            sequence: next_token(sequence),
                            result: Err(FirmwareUpdateError::BootloaderDetectionFailed(e)),
                        },
                    ),
                    Ok(m) => match BootloaderInfoResponseView::parse(m) {
                        Err(e) => Some(
                            UpdateState::Finished {
                                sequence: next_token(sequence),
                                result: Err(
                                    FirmwareUpdateError::BootloaderDetectionFailed(
                                        ExecuteError::Codec(e),
                                    ),
                                ),
                            },
                        ),
                        Ok(response) => Some(
                            after_detect(
                                plan,
                                bootloader_named(response.bootloader),
                                next_token(sequence),
                            ),
                        ),
                    },
                }
            },
            _ => None,
        },
        UpdateState::AnnounceUpload { sequence } => match step_answer(event, label_upload()) {
            None => None,
            Some(proceed) => Some(
                announced(
                    proceed,
                    sequence,
                    if plan.upload().capacity <= 0 {
                        UpdateState::Finished {
                            sequence,
                            result: Err(
                                FirmwareUpdateError::ImageUploadFailed(
                                    ImageUploadError::FrameSizeTooSmall,
                                ),
                            ),
                        }
                    } else {
                        UpdateState::Upload {
                            upload: UploadState::Sending { off: 0, sequence, resends: 0 },
                        }
                    },
                ),
            ),
        },
        UpdateState::Upload { upload } => match upload_step(plan.upload(), upload, event) {
            None => None,
            Some(next) => Some(after_upload(next)),
        },
        UpdateState::AnnounceMark { sequence } => match step_answer(
            event,
            label_mark(plan.force_confirm),
        ) {
            None => None,
            Some(proceed) => Some(announced(proceed, sequence, UpdateState::Mark { sequence })),
        },
        UpdateState::Mark { sequence } => match event {
            Event::Exchange { request, reply } => if request != plan.mark_request(sequence) {
                None
            } else {
                match item_in(outcome(ImageStateWrite::identity(), sequence, reply)) {
                    Err(e) => Some(
                        UpdateState::Finished {
                            sequence: next_token(sequence),
                            result: Err(FirmwareUpdateError::SetStateFailed(e)),
                        },
                    ),
                    Ok(_) => if plan.skip_reboot {
                        Some(UpdateState::Finished { sequence: next_token(sequence), result: Ok(()) })
                    } else {
                        Some(UpdateState::AnnounceReboot { sequence: next_token(sequence) })
                    },
                }
            },
            _ => None,
        },
        UpdateState::AnnounceReboot { sequence } => match step_answer(event, label_reboot()) {
            None => None,
            Some(proceed) => Some(announced(proceed, sequence, UpdateState::Reboot { sequence })),
        },
        UpdateState::Reboot { sequence } => match event {
            Event::Exchange { request, reply } => if request != plan.reboot_request(sequence) {
                None
            } else {
                match item_in(outcome(SystemReset::identity(), sequence, reply)) {
                    Err(e) => Some(
                        UpdateState::Finished {
                            sequence: next_token(sequence),
                            result: Err(FirmwareUpdateError::RebootFailed(e)),
                        },
                    ),
                    Ok(_) => Some(
                        UpdateState::Finished { sequence: next_token(sequence), result: Ok(()) },
                    ),
                }
            },
            _ => None,
        },
        UpdateState::Finished { .. } => None,
    }
}

/// Where a firmware update that starts under `sequence` stands after
/// `events`; nothing where `events` are not what such an update does.
pub open spec fn update_run(plan: UpdatePlan, sequence: u8, events: Seq<Event>) -> Option<
    UpdateState,
>
    decreases events.len(),
{
    if events.len() == 0 {
        Some(UpdateState::AnnounceDetect { sequence })
    } else {
        match update_run(plan, sequence, events.drop_last()) {
            None => None,
            Some(state) => update_step(plan, state, events.last()),
        }
    }
}

/// An update that is at the start of its upload after `before` stands,
/// after what the upload does next, where the upload stands.
pub proof fn lemma_upload_within_update(
    plan: UpdatePlan,
    start: u8,
    before: Seq<Event>,
    sequence: u8,
    during: Seq<Event>,
)
    requires
        update_run(plan, start, before) == Some(
            UpdateState::Upload { upload: UploadState::Sending { off: 0, sequence, resends: 0 } },
        ),
        upload_run(plan.upload(), sequence, during) is Some,
    ensures
        update_run(plan, start, before + during) == Some(
            after_upload(upload_run(plan.upload(), sequence, during).unwrap()),
        ),
    decreases during.len(),
{
    if during.len() == 0 {
        assert(before + during =~= before);
    } else {
        let earlier = during.drop_last();
        assert((before + during).drop_last() =~= before + earlier);
        assert((before + during).last() == during.last());
        lemma_upload_within_update(plan, start, before, sequence, earlier);
    }
}

/// Where an update stands after one more event.
proof fn lemma_update_run_push(
    plan: UpdatePlan,
    start: u8,
    events: Seq<Event>,
    state: UpdateState,
    event: Event,
)
    requires
        update_run(plan, start, events) == Some(state),
    ensures
        update_run(plan, start, events.push(event)) == update_step(plan, state, event),
{
    assert(events.push(event).drop_last() =~= events);
}

/// The payloads of the single commands of an update fit a frame.
proof fn lemma_small_payloads(plan: UpdatePlan)
    requires
        plan.hash().len() == SHA256_LEN,
    ensures
        encode_value(empty_payload()).len() <= MAX_PAYLOAD_LEN,
        encode_value((SystemReset { force: false, boot_mode: None }).payload()).len()
            <= MAX_PAYLOAD_LEN,
        encode_value(
            (ImageStateWriteView { hash: Some(plan.hash()), confirm: plan.force_confirm }).payload(),
        ).len() <= MAX_PAYLOAD_LEN,
{
    let none = Seq::<(CborModel, CborModel)>::empty();
    lemma_encode_head_len(5, 0);
    assert(crate::cbor::value::encode_entries(none, 0) =~= Seq::<u8>::empty());
    assert((SystemReset { force: false, boot_mode: None }).payload()->Dict_0 =~= none);
    let hash = optional(true, "hash"@, CborModel::Bytes(plan.hash()));
    let confirm = optional(plan.force_confirm, "confirm"@, boolean(true));
    lemma_entries_len_add(hash, confirm);
    lemma_entries_len_optional(true, "hash"@, CborModel::Bytes(plan.hash()));
    lemma_entries_len_optional(plan.force_confirm, "confirm"@, boolean(true));
    lemma_text_item_len("hash"@);
    lemma_text_item_len("confirm"@);
    reveal_strlit("hash");
    reveal_strlit("confirm");
    lemma_encode_head_len(2, plan.hash().len() as u64);
    lemma_encode_head_len(5, (hash + confirm).len() as u64);
}

/// What the update of a device with `firmware` does, by `params`, where
/// the largest frame of the upload is `frame_size`.
pub open spec fn update_plan(firmware: Seq<u8>, params: FirmwareUpdateParams, frame_size: usize)
    -> UpdatePlan {
    UpdatePlan {
        firmware,
        bootloader_type: bootloader_view(params.bootloader_type),
        skip_reboot: params.skip_reboot,
        force_confirm: params.force_confirm,
        frame_size,
    }
}

/// Whether `request` asks a device to mark an image to be tried once.
pub open spec fn is_test_request(request: Seq<u8>) -> bool {
    &&& parse_header(request) matches Ok(header) && identity_in(header)
        == ImageStateWrite::identity()
    &&& item_in_request(request) matches Some(m) && ImageStateWriteView::parse(m) matches Ok(mark)
        && !mark.confirm
}

/// Whether `request` asks a device to mark an image to stay.
pub open spec fn is_confirm_request(request: Seq<u8>) -> bool {
    &&& parse_header(request) matches Ok(header) && identity_in(header)
        == ImageStateWrite::identity()
    &&& item_in_request(request) matches Some(m) && ImageStateWriteView::parse(m) matches Ok(mark)
        && mark.confirm
}

/// Whether `request` carries a chunk of an image.
pub open spec fn is_upload_request(request: Seq<u8>) -> bool {
    parse_header(request) matches Ok(header) && identity_in(header) == ImageUpload::identity()
}

/// Whether `request` tells a device to restart.
pub open spec fn is_restart_request(request: Seq<u8>) -> bool {
    parse_header(request) matches Ok(header) && identity_in(header) == SystemReset::identity()
}

/// The hash of firmware that is an image has 32 bytes.
proof fn lemma_plan_hash_len(plan: UpdatePlan)
    requires
        parse_image(plan.firmware) is Ok,
    ensures
        plan.hash().len() == SHA256_LEN,
{
    let header = parse_image_header(plan.firmware)->Ok_0;
    let start = tlv_offset(header);
    lemma_hash_len(
        plan.firmware,
        start + TLV_INFO_SIZE,
        start + crate::mcuboot::le16(plan.firmware, start + 2),
    );
}

/// The request that marks the image asks for it to stay where the plan
/// says so, and to be tried once where not; it is never both.
pub proof fn lemma_mark_request_kind(plan: UpdatePlan, sequence: u8)
    requires
        parse_image(plan.firmware) is Ok,
    ensures
        is_confirm_request(plan.mark_request(sequence)) == plan.force_confirm,
        is_test_request(plan.mark_request(sequence)) == !plan.force_confirm,
{
    let mark = ImageStateWriteView { hash: Some(plan.hash()), confirm: plan.force_confirm };
    let m = mark.payload();
    let inner = (NESTING_LIMIT - 1) as nat;
    lemma_plan_hash_len(plan);
    lemma_small_payloads(plan);
    reveal_strlit("hash");
    reveal_strlit("confirm");
    lemma_utf8_len("hash"@);
    lemma_utf8_len("confirm"@);
    let hash = optional(true, "hash"@, CborModel::Bytes(plan.hash()));
    let confirm = optional(plan.force_confirm, "confirm"@, boolean(true));
    assert(m->Dict_0 =~= hash + confirm);
    assert forall|i: int| 0 <= i < m->Dict_0.len() implies well_formed(
        (#[trigger] m->Dict_0[i]).0,
        inner,
    ) && well_formed(m->Dict_0[i].1, inner) by {
        if i == 0 {
            assert(m->Dict_0[i] == hash[0]);
        } else {
            assert(m->Dict_0[i] == confirm[0]);
        }
    }
    lemma_request_is_seen(ImageStateWrite::identity(), sequence, m);
    lemma_image_state_write_round_trip(mark);
}

/// What holds of an update wherever it stands: it has got to the upload
/// only with firmware that is an image, and to the restart only where the
/// plan does not say to leave the device running.
pub open spec fn update_invariant(plan: UpdatePlan, state: UpdateState) -> bool {
    match state {
        UpdateState::AnnounceDetect { .. } | UpdateState::Detect { .. } | UpdateState::Finished {
            ..
        } => true,
        UpdateState::AnnounceReboot { .. } | UpdateState::Reboot { .. } => !plan.skip_reboot
            && parse_image(plan.firmware) is Ok,
        _ => parse_image(plan.firmware) is Ok,
    }
}

/// In an update that is to confirm the image at once, no request asks the
/// device to try the image; in an update that is to leave the device
/// running, no request tells the device to restart; in an update with
/// firmware that is no image, no request carries any of it.
pub proof fn lemma_update_requests(plan: UpdatePlan, start: u8, events: Seq<Event>)
    requires
        update_run(plan, start, events) is Some,
    ensures
        update_invariant(plan, update_run(plan, start, events).unwrap()),
        forall|i: int|
            0 <= i < events.len() ==> ((#[trigger] events[i]) matches Event::Exchange {
                request,
                ..
            } ==> (plan.force_confirm ==> !is_test_request(request)) && (plan.skip_reboot
                ==> !is_restart_request(request)) && (parse_image(plan.firmware) is Err
                ==> !is_upload_request(request))),
    decreases events.len(),
{
    if events.len() > 0 {
        let earlier = events.drop_last();
        lemma_update_requests(plan, start, earlier);
        let state = update_run(plan, start, earlier).unwrap();
        let last = events.last();
        assert forall|i: int| 0 <= i < events.len() implies ((#[trigger] events[i]) matches Event::Exchange {
            request,
            ..
        } ==> (plan.force_confirm ==> !is_test_request(request)) && (plan.skip_reboot
            ==> !is_restart_request(request)) && (parse_image(plan.firmware) is Err
            ==> !is_upload_request(request))) by {
            if i < events.len() - 1 {
                assert(events[i] == earlier[i]);
            } else if let Event::Exchange { request, reply } = last {
                match state {
                    UpdateState::Detect { sequence } => {
                        lemma_request_identity(
                            BootloaderInfo::identity(),
                            sequence,
                            encode_value(empty_payload()),
                        );
                    },
                    UpdateState::Upload { upload } => {
                        if let UploadState::Sending { off, sequence, resends } = upload {
                            lemma_request_identity(
                                ImageUpload::identity(),
                                sequence,
                                encode_value(
                                    crate::transfer::chunk_payload(
                                        plan.target(),
                                        off,
                                        plan.upload().chunk(off),
                                        plan.upload().total(),
                                    ),
                                ),
                            );
                        }
                    },
                    UpdateState::Mark { sequence } => {
                        lemma_mark_request_kind(plan, sequence);
                        lemma_request_identity(
                            ImageStateWrite::identity(),
                            sequence,
                            encode_value(
                                (ImageStateWriteView {
                                    hash: Some(plan.hash()),
                                    confirm: plan.force_confirm,
                                }).payload(),
                            ),
                        );
                    },
                    UpdateState::Reboot { sequence } => {
                        lemma_request_identity(
                            SystemReset::identity(),
                            sequence,
                            encode_value((SystemReset { force: false, boot_mode: None }).payload()),
                        );
                    },
                    _ => {},
                }
            }
        }
    }
}

/// An update with firmware that is no image is over, with the reason why
/// it is none, as soon as the bootloader is known.
pub proof fn lemma_invalid_image_ends_update(plan: UpdatePlan, sequence: u8, e: ImageParseError)
    requires
        parse_image(plan.firmware) == Err::<crate::mcuboot::ImageInfoView, ImageParseError>(e),
    ensures
        after_detect(plan, BootloaderTypeView::MCUboot, sequence) == (UpdateState::Finished {
            sequence,
            result: Err(FirmwareUpdateError::InvalidImage(e)),
        }),
{
}

/// An update that is to leave the device running is over, and has ended
/// well, as soon as the image is marked.
pub proof fn lemma_skip_reboot_ends_well(plan: UpdatePlan, sequence: u8, reply: crate::connection::Reply)
    requires
        plan.skip_reboot,
        item_in(outcome(ImageStateWrite::identity(), sequence, reply)) is Ok,
    ensures
        update_step(
            plan,
            UpdateState::Mark { sequence },
            Event::Exchange { request: plan.mark_request(sequence), reply },
        ) == Some(UpdateState::Finished { sequence: next_token(sequence), result: Ok(()) }),
{
}

/// The callback that lets every step go on cancels no update: where it is
/// the one that hears the steps of an update, the update does not end
/// with the error of the callback.
pub proof fn lemma_no_progress_cancels_no_update(
    plan: UpdatePlan,
    sequence: u8,
    events: Seq<Event>,
    before: NoProgress,
    after: NoProgress,
)
    requires
        steps_run(events, before, after),
    ensures
        update_run(plan, sequence, events) != Some(
            UpdateState::Finished {
                sequence: update_run(plan, sequence, events)->Some_0->Finished_sequence,
                result: Err(FirmwareUpdateError::ProgressCallbackError),
            },
        ),
{
    if events.len() > 0 {
        let states = choose|states: Seq<NoProgress>| #[trigger]
            chain(events, states, label_step::<NoProgress>()) && states[0] == before
                && states.last() == after;
        let last = events.len() - 1;
        assert(label_step::<NoProgress>()(states[last], events[last], states[last + 1]));
    }
}

/// Reports the step `label` to the callback.
fn announce<T: Transport, F: FirmwareUpdateProgressCallback>(
    connection: &mut Connection<T>,
    progress: &mut F,
    label: &str,
    Ghost(plan): Ghost<UpdatePlan>,
    Ghost(start): Ghost<u8>,
    Ghost(origin): Ghost<Connection<T>>,
    Ghost(first): Ghost<F>,
    Ghost(state): Ghost<UpdateState>,
) -> (proceed: bool)
    requires
        old(connection).extends(origin),
        old(connection).ran(origin),
        steps_run(old(connection).since(origin), first, *old(progress)),
        update_run(plan, start, old(connection).since(origin)) == Some(state),
    ensures
        final(connection).extends(origin),
        final(connection).ran(origin),
        steps_run(final(connection).since(origin), first, *final(progress)),
        final(connection).next_sequence() == old(connection).next_sequence(),
        update_run(plan, start, final(connection).since(origin)) == update_step(
            plan,
            state,
            Event::Step { label: label@, progress: None, proceed },
        ),
{
    let ghost before = *connection;
    let ghost heard = *progress;
    let proceed = connection.notify_step(progress, label, None);
    proof {
        let event = connection.history().last();
        lemma_ran_push(*connection, before, origin, event);
        lemma_run_push(before.since(origin), first, heard, event, *progress, label_step::<F>());
        lemma_update_run_push(plan, start, before.since(origin), state, event);
    }
    proceed
}

/// The first step: finds out the bootloader and looks at the firmware.
fn detect<T: Transport, F: FirmwareUpdateProgressCallback>(
    connection: &mut Connection<T>,
    firmware: &[u8],
    bootloader_type: Option<BootloaderType>,
    progress: &mut F,
    Ghost(plan): Ghost<UpdatePlan>,
    Ghost(start): Ghost<u8>,
    Ghost(origin): Ghost<Connection<T>>,
    Ghost(first): Ghost<F>,
) -> (r: Result<Vec<u8>, FirmwareUpdateError>)
    requires
        old(connection).extends(origin),
        old(connection).ran(origin),
        steps_run(old(connection).since(origin), first, *old(progress)),
        plan.firmware == firmware@,
        plan.bootloader_type == bootloader_view(bootloader_type),
        update_run(plan, start, old(connection).since(origin)) == Some(
            UpdateState::AnnounceDetect { sequence: old(connection).next_sequence() },
        ),
    ensures
        final(connection).extends(origin),
        final(connection).ran(origin),
        steps_run(final(connection).since(origin), first, *final(progress)),
        match r {
            Ok(hash) => hash@ == plan.hash() && hash.len() == SHA256_LEN && update_run(
                plan,
                start,
                final(connection).since(origin),
            ) == Some(UpdateState::AnnounceUpload { sequence: final(connection).next_sequence() }),
            Err(e) => update_run(plan, start, final(connection).since(origin)) == Some(
                UpdateState::Finished {
                    sequence: final(connection).next_sequence(),
                    result: Err(e),
                },
            ),
        },
{
    let proceed = announce(
        connection,
        progress,
        "Detecting bootloader",
        Ghost(plan),
        Ghost(start),
        Ghost(origin),
        Ghost(first),
        Ghost(UpdateState::AnnounceDetect { sequence: connection.next_sequence() }),
    );
    if !proceed {
        return Err(FirmwareUpdateError::ProgressCallbackError);
    }
    let bootloader = match bootloader_type {
        Some(bootloader) => bootloader,
        None => {
            let ghost before = *connection;
            proof {
                lemma_encode_head_len(5, 0);
                assert(crate::cbor::value::encode_entries(
                    Seq::<(CborModel, CborModel)>::empty(),
                    0,
                ) =~= Seq::<u8>::empty());
            }
            let answer = connection.execute_command(&BootloaderInfo);
            proof {
                let event = connection.history().last();
                lemma_ran_push(*connection, before, origin, event);
                lemma_run_push(
                    before.since(origin),
                    first,
                    *progress,
                    event,
                    *progress,
                    label_step::<F>(),
                );
                lemma_update_run_push(
                    plan,
                    start,
                    before.since(origin),
                    UpdateState::Detect { sequence: before.next_sequence() },
                    event,
                );
            }
            match answer {
                Ok(response) => BootloaderType::from_name(response.bootloader.as_str()),
                Err(e) => {
                    return Err(FirmwareUpdateError::BootloaderDetectionFailed(e));
                },
            }
        },
    };
    match bootloader {
        BootloaderType::MCUboot => {},
        BootloaderType::Other(_) => {
            return Err(FirmwareUpdateError::BootloaderNotSupported);
        },
    }
    match mcuboot_parse_image(firmware) {
        Ok(info) => Ok(info.hash),
        Err(e) => Err(FirmwareUpdateError::InvalidImage(e)),
    }
}

/// The second step: uploads the image.
fn send_image<T: Transport, F: FirmwareUpdateProgressCallback>(
    connection: &mut Connection<T>,
    firmware: &[u8],
    hash: &Vec<u8>,
    frame_size: usize,
    progress: &mut F,
    Ghost(plan): Ghost<UpdatePlan>,
    Ghost(start): Ghost<u8>,
    Ghost(origin): Ghost<Connection<T>>,
    Ghost(first): Ghost<F>,
) -> (r: Result<(), FirmwareUpdateError>)
    requires
        old(connection).extends(origin),
        old(connection).ran(origin),
        steps_run(old(connection).since(origin), first, *old(progress)),
        plan.firmware == firmware@,
        plan.frame_size == frame_size,
        hash@ == plan.hash(),
        update_run(plan, start, old(connection).since(origin)) == Some(
            UpdateState::AnnounceUpload { sequence: old(connection).next_sequence() },
        ),
    ensures
        final(connection).extends(origin),
        final(connection).ran(origin),
        steps_run(final(connection).since(origin), first, *final(progress)),
        match r {
            Ok(()) => update_run(plan, start, final(connection).since(origin)) == Some(
                UpdateState::AnnounceMark { sequence: final(connection).next_sequence() },
            ),
            Err(e) => update_run(plan, start, final(connection).since(origin)) == Some(
                UpdateState::Finished {
                    sequence: final(connection).next_sequence(),
                    result: Err(e),
                },
            ),
        },
{
    let proceed = announce(
        connection,
        progress,
        "Uploading image",
        Ghost(plan),
        Ghost(start),
        Ghost(origin),
        Ghost(first),
        Ghost(UpdateState::AnnounceUpload { sequence: connection.next_sequence() }),
    );
    if !proceed {
        return Err(FirmwareUpdateError::ProgressCallbackError);
    }
    let target = UploadTarget::Image {
        image: None,
        sha: Some(slice_to_vec(hash.as_slice())),
        upgrade: false,
    };
    assert(target@ == plan.target());
    let mut unused = NoProgress;
    let ghost before = *connection;
    let ghost told = *progress;
    let uploaded = upload_with(
        connection,
        &target,
        firmware,
        frame_size,
        &mut unused,
        progress,
        Some("Uploading image"),
    );
    proof {
        lemma_ran_add(*connection, before, origin);
        lemma_run_add(
            before.since(origin),
            connection.since(before),
            first,
            told,
            *progress,
            label_step::<F>(),
        );
        if plan.upload().capacity > 0 {
            lemma_upload_within_update(
                plan,
                start,
                before.since(origin),
                before.next_sequence(),
                connection.since(before),
            );
        } else {
            assert(connection.since(before) =~= Seq::<Event>::empty());
            assert(before.since(origin) + connection.since(before) =~= before.since(origin));
        }
    }
    match uploaded {
        Ok(()) => Ok(()),
        Err(FileUploadError::Cancelled) => Err(FirmwareUpdateError::ProgressCallbackError),
        Err(e) => Err(FirmwareUpdateError::ImageUploadFailed(ImageUploadError::from_upload(e))),
    }
}

/// The third step: marks the image for the next boot. Gives whether the
/// update is over with it.
fn mark_image<T: Transport, F: FirmwareUpdateProgressCallback>(
    connection: &mut Connection<T>,
    hash: Vec<u8>,
    force_confirm: bool,
    progress: &mut F,
    Ghost(plan): Ghost<UpdatePlan>,
    Ghost(start): Ghost<u8>,
    Ghost(origin): Ghost<Connection<T>>,
    Ghost(first): Ghost<F>,
) -> (r: Result<(), FirmwareUpdateError>)
    requires
        old(connection).extends(origin),
        old(connection).ran(origin),
        steps_run(old(connection).since(origin), first, *old(progress)),
        plan.force_confirm == force_confirm,
        hash@ == plan.hash(),
        hash.len() == SHA256_LEN,
        update_run(plan, start, old(connection).since(origin)) == Some(
            UpdateState::AnnounceMark { sequence: old(connection).next_sequence() },
        ),
    ensures
        final(connection).extends(origin),
        final(connection).ran(origin),
        steps_run(final(connection).since(origin), first, *final(progress)),
        match r {
            Ok(()) => update_run(plan, start, final(connection).since(origin)) == Some(
                if plan.skip_reboot {
                    UpdateState::Finished {
                        sequence: final(connection).next_sequence(),
                        result: Ok(()),
                    }
                } else {
                    UpdateState::AnnounceReboot { sequence: final(connection).next_sequence() }
                },
            ),
            Err(e) => update_run(plan, start, final(connection).since(origin)) == Some(
                UpdateState::Finished {
                    sequence: final(connection).next_sequence(),
                    result: Err(e),
                },
            ),
        },
{
    let label = if force_confirm {
        "Confirming image"
    } else {
        "Marking image for test"
    };
    let proceed = announce(
        connection,
        progress,
        label,
        Ghost(plan),
        Ghost(start),
        Ghost(origin),
        Ghost(first),
        Ghost(UpdateState::AnnounceMark { sequence: connection.next_sequence() }),
    );
    if !proceed {
        return Err(FirmwareUpdateError::ProgressCallbackError);
    }
    let ghost before = *connection;
    let mark = ImageStateWrite { hash: Some(hash), confirm: force_confirm };
    proof {
        lemma_small_payloads(plan);
    }
    let marked = connection.execute_command(&mark);
    proof {
        let event = connection.history().last();
        lemma_ran_push(*connection, before, origin, event);
        lemma_run_push(
            before.since(origin),
            first,
            *progress,
            event,
            *progress,
            label_step::<F>(),
        );
        lemma_update_run_push(
            plan,
            start,
            before.since(origin),
            UpdateState::Mark { sequence: before.next_sequence() },
            event,
        );
    }
    match marked {
        Ok(()) => Ok(()),
        Err(e) => Err(FirmwareUpdateError::SetStateFailed(e)),
    }
}

/// The last step: tells the device to restart.
fn restart<T: Transport, F: FirmwareUpdateProgressCallback>(
    connection: &mut Connection<T>,
    progress: &mut F,
    Ghost(plan): Ghost<UpdatePlan>,
    Ghost(start): Ghost<u8>,
    Ghost(origin): Ghost<Connection<T>>,
    Ghost(first): Ghost<F>,
) -> (r: Result<(), FirmwareUpdateError>)
    requires
        old(connection).extends(origin),
        old(connection).ran(origin),
        steps_run(old(connection).since(origin), first, *old(progress)),
        update_run(plan, start, old(connection).since(origin)) == Some(
            UpdateState::AnnounceReboot { sequence: old(connection).next_sequence() },
        ),
    ensures
        final(connection).extends(origin),
        final(connection).ran(origin),
        steps_run(final(connection).since(origin), first, *final(progress)),
        update_run(plan, start, final(connection).since(origin)) == Some(
            UpdateState::Finished { sequence: final(connection).next_sequence(), result: r },
        ),
{
    let proceed = announce(
        connection,
        progress,
        "Rebooting device",
        Ghost(plan),
        Ghost(start),
        Ghost(origin),
        Ghost(first),
        Ghost(UpdateState::AnnounceReboot { sequence: connection.next_sequence() }),
    );
    if !proceed {
        return Err(FirmwareUpdateError::ProgressCallbackError);
    }
    let ghost before = *connection;
    let reset = SystemReset { force: false, boot_mode: None };
    proof {
        lemma_encode_head_len(5, 0);
        assert(crate::cbor::value::encode_entries(Seq::<(CborModel, CborModel)>::empty(), 0)
            =~= Seq::<u8>::empty());
        assert(reset.payload()->Dict_0 =~= Seq::<(CborModel, CborModel)>::empty());
    }
    let restarted = connection.execute_command(&reset);
    proof {
        let event = connection.history().last();
        lemma_ran_push(*connection, before, origin, event);
        lemma_run_push(
            before.since(origin),
            first,
            *progress,
            event,
            *progress,
            label_step::<F>(),
        );
        lemma_update_run_push(
            plan,
            start,
            before.since(origin),
            UpdateState::Reboot { sequence: before.next_sequence() },
            event,
        );
    }
    match restarted {
        Ok(()) => Ok(()),
        Err(e) => Err(FirmwareUpdateError::RebootFailed(e)),
    }
}

/// Updates the firmware of the device: finds out the bootloader, uploads
/// `firmware`, marks it for the next boot and restarts the device, as
/// `params` say. Every step is reported to `progress` before it is taken,
/// and so is every chunk of the upload once the device has acknowledged
/// it; `progress` may cancel the update each time.
pub fn firmware_update<T: Transport, F: FirmwareUpdateProgressCallback>(
    client: &mut MCUmgrClient<T>,
    firmware: &[u8],
    params: FirmwareUpdateParams,
    progress: &mut F,
) -> (r: Result<(), FirmwareUpdateError>)
    ensures
        final(client).smp_frame_size == old(client).smp_frame_size,
        final(client).connection.extends(old(client).connection),
        final(client).connection.ran(old(client).connection),
        steps_run(
            final(client).connection.since(old(client).connection),
            *old(progress),
            *final(progress),
        ),
        update_run(
            update_plan(firmware@, params, old(client).smp_frame_size),
            old(client).connection.next_sequence(),
            final(client).connection.since(old(client).connection),
        ) == Some(
            UpdateState::Finished {
                sequence: final(client).connection.next_sequence(),
                result: r,
            },
        ),
{
    let frame_size = client.smp_frame_size;
    let ghost plan = update_plan(firmware@, params, frame_size);
    let ghost start = client.connection.next_sequence();
    let ghost origin = client.connection;
    let ghost first = *progress;
    proof {
        lemma_ran_nothing(origin);
        lemma_run_empty(first, label_step::<F>());
    }
    let force_confirm = params.force_confirm;
    let skip_reboot = params.skip_reboot;
    let hash = detect(
        &mut client.connection,
        firmware,
        params.bootloader_type,
        progress,
        Ghost(plan),
        Ghost(start),
        Ghost(origin),
        Ghost(first),
    )?;
    send_image(
        &mut client.connection,
        firmware,
        &hash,
        frame_size,
        progress,
        Ghost(plan),
        Ghost(start),
        Ghost(origin),
        Ghost(first),
    )?;
    mark_image(
        &mut client.connection,
        hash,
        force_confirm,
        progress,
        Ghost(plan),
        Ghost(start),
        Ghost(origin),
        Ghost(first),
    )?;
    if skip_reboot {
        return Ok(());
    }
    restart(
        &mut client.connection,
        progress,
        Ghost(plan),
        Ghost(start),
        Ghost(origin),
        Ghost(first),
    )
}

} // verus!
