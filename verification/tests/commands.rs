use zephyr_mcumgr::cbor::decode::{decode, CodecError};
use zephyr_mcumgr::cbor::encode::encode;
use zephyr_mcumgr::cbor::value::CborValue;
use zephyr_mcumgr::commands::errors::{
    status_code_name, DeviceError, ErrResponse, ErrResponseV2,
};
use zephyr_mcumgr::commands::fs::{
    FileChecksum, FileChecksumData, FileChecksumResponse, FileClose, FileDownload,
    FileDownloadResponse, FileStatus, FileStatusResponse, FileUpload, FileUploadResponse,
    SupportedFileChecksumDataFormat, SupportedFileChecksumTypes,
    SupportedFileChecksumTypesEntry, SupportedFileChecksumTypesResponse,
};
use zephyr_mcumgr::commands::image::{
    ImageStateWrite, ImageUpload, ImageUploadResponse,
};
use zephyr_mcumgr::commands::os::{
    BootloaderInfo, BootloaderInfoResponse, Echo, EchoResponse, MCUmgrParameters,
    MCUmgrParametersResponse, SystemReset, TaskStatistics, TaskStatisticsEntry,
    TaskStatisticsResponse,
};
use zephyr_mcumgr::commands::raw::{RawCommand, RawCommandOp};
use zephyr_mcumgr::commands::shell::{ShellCommandLineExecute, ShellCommandLineExecuteResponse};
use zephyr_mcumgr::commands::{identity_of, is_default, CommandIdentity, Direction, McuMgrCommand};

fn hex(text: &str) -> Vec<u8> {
    (0..text.len())
        .step_by(2)
        .map(|i| u8::from_str_radix(&text[i..i + 2], 16).unwrap())
        .collect()
}

fn item(bytes: &str) -> CborValue {
    decode(&hex(bytes)).unwrap()
}

fn text(s: &str) -> CborValue {
    CborValue::Text(String::from(s))
}

fn dict(entries: Vec<(&str, CborValue)>) -> CborValue {
    CborValue::Dict(entries.into_iter().map(|(k, v)| (text(k), v)).collect())
}

fn reference(value: &CborValue) -> ciborium::Value {
    match value {
        CborValue::Unsigned(n) => ciborium::Value::Integer((*n).into()),
        CborValue::Negative(n) => ciborium::Value::Integer((-1 - (*n as i128)).try_into().unwrap()),
        CborValue::Bytes(b) => ciborium::Value::Bytes(b.clone()),
        CborValue::Text(s) => ciborium::Value::Text(s.clone()),
        CborValue::Array(items) => ciborium::Value::Array(items.iter().map(reference).collect()),
        CborValue::Dict(entries) => ciborium::Value::Map(
            entries.iter().map(|(k, v)| (reference(k), reference(v))).collect(),
        ),
        CborValue::Simple(20) => ciborium::Value::Bool(false),
        CborValue::Simple(21) => ciborium::Value::Bool(true),
        CborValue::Simple(22) => ciborium::Value::Null,
        other => panic!("no reference value for {:?}", other),
    }
}

/// Checks a command as the table of commands gives it: direction, group,
/// number, payload, and the response that a payload spells.
fn command_encode_decode<C: McuMgrCommand>(
    command: &C,
    operation: (bool, u16, u8),
    encoded_request: CborValue,
    encoded_response: CborValue,
    response: C::Response,
) where
    C::Response: std::fmt::Debug + PartialEq,
{
    assert_eq!(command.is_write_operation(), operation.0);
    assert_eq!(command.group_id(), operation.1);
    assert_eq!(command.command_id(), operation.2);
    assert_eq!(
        identity_of(command),
        CommandIdentity {
            group_id: operation.1,
            command_id: operation.2,
            direction: if operation.0 { Direction::Write } else { Direction::Read },
        }
    );

    let mut expected_request: Vec<u8> = Vec::new();
    ciborium::into_writer(&reference(&encoded_request), &mut expected_request).unwrap();
    assert_eq!(encode(&command.data()), expected_request, "encoding mismatch");
    assert_eq!(command.data(), encoded_request);

    let mut response_bytes: Vec<u8> = Vec::new();
    ciborium::into_writer(&reference(&encoded_response), &mut response_bytes).unwrap();
    let decoded = decode(&response_bytes).unwrap();
    assert_eq!(command.parse_response(&decoded), Ok(response), "decoding mismatch");
}

#[test]
fn echo() {
    command_encode_decode(
        &Echo { d: String::from("Hello world!") },
        (false, 0, 0),
        dict(vec![("d", text("Hello world!"))]),
        dict(vec![("r", text("Hello world!"))]),
        EchoResponse { r: String::from("Hello world!") },
    );
    assert_eq!(
        encode(&Echo { d: String::from("Hello world!") }.to_value()),
        hex("a161646c48656c6c6f20776f726c6421")
    );
    assert_eq!(
        encode(&EchoResponse { r: String::from("Hi") }.to_value()),
        hex("a16172624869")
    );
    assert_eq!(
        Echo::from_value(&item("a161646c48656c6c6f20776f726c6421")),
        Ok(Echo { d: String::from("Hello world!") })
    );
    assert_eq!(Echo::from_value(&item("a0")), Err(CodecError::Mismatch));
    assert_eq!(Echo::from_value(&item("a1616401")), Err(CodecError::Mismatch));
    assert_eq!(Echo::from_value(&item("80")), Err(CodecError::Mismatch));
    assert_eq!(EchoResponse::from_value(&item("a1616460")), Err(CodecError::Mismatch));
}

#[test]
fn task_statistics() {
    command_encode_decode(
        &TaskStatistics,
        (false, 0, 2),
        dict(vec![]),
        dict(vec![(
            "tasks",
            dict(vec![
                (
                    "task_a",
                    dict(vec![
                        ("prio", CborValue::Unsigned(20)),
                        ("tid", CborValue::Unsigned(5)),
                        ("state", CborValue::Unsigned(10)),
                    ]),
                ),
                (
                    "task_b",
                    dict(vec![
                        ("prio", CborValue::Negative(4)),
                        ("tid", CborValue::Unsigned(6)),
                        ("state", CborValue::Unsigned(8)),
                        ("stkuse", CborValue::Unsigned(400)),
                        ("stksiz", CborValue::Unsigned(1024)),
                        ("cswcnt", CborValue::Unsigned(7)),
                        ("runtime", CborValue::Unsigned(70000)),
                        ("last_checkin", CborValue::Unsigned(0)),
                    ]),
                ),
            ]),
        )]),
        TaskStatisticsResponse {
            tasks: vec![
                (
                    String::from("task_a"),
                    TaskStatisticsEntry {
                        prio: 20,
                        tid: 5,
                        state: 10,
                        stkuse: None,
                        stksiz: None,
                        cswcnt: None,
                        runtime: None,
                    },
                ),
                (
                    String::from("task_b"),
                    TaskStatisticsEntry {
                        prio: -5,
                        tid: 6,
                        state: 8,
                        stkuse: Some(400),
                        stksiz: Some(1024),
                        cswcnt: Some(7),
                        runtime: Some(70000),
                    },
                ),
            ],
        },
    );
    assert_eq!(encode(&TaskStatistics.data()), hex("a0"));
    let no_tasks = dict(vec![]);
    assert_eq!(TaskStatisticsResponse::from_value(&no_tasks), Err(CodecError::Mismatch));
    let bad_key = dict(vec![(
        "tasks",
        CborValue::Dict(vec![(CborValue::Unsigned(1), dict(vec![]))]),
    )]);
    assert_eq!(TaskStatisticsResponse::from_value(&bad_key), Err(CodecError::Mismatch));
    let bad_task = dict(vec![("tasks", dict(vec![("t", dict(vec![("prio", CborValue::Unsigned(1))]))]))]);
    assert_eq!(TaskStatisticsResponse::from_value(&bad_task), Err(CodecError::Mismatch));
    let out_of_range = dict(vec![(
        "tasks",
        dict(vec![(
            "t",
            dict(vec![
                ("prio", CborValue::Unsigned(0x8000_0000)),
                ("tid", CborValue::Unsigned(1)),
                ("state", CborValue::Unsigned(1)),
            ]),
        )]),
    )]);
    assert_eq!(TaskStatisticsResponse::from_value(&out_of_range), Err(CodecError::Mismatch));
}

#[test]
fn mcumgr_parameters() {
    command_encode_decode(
        &MCUmgrParameters,
        (false, 0, 6),
        dict(vec![]),
        dict(vec![("buf_size", CborValue::Unsigned(2048)), ("buf_count", CborValue::Unsigned(4))]),
        MCUmgrParametersResponse { buf_size: 2048, buf_count: 4 },
    );
    assert_eq!(
        MCUmgrParametersResponse::from_value(&dict(vec![("buf_size", CborValue::Unsigned(1))])),
        Err(CodecError::Mismatch)
    );
    assert_eq!(
        MCUmgrParametersResponse::from_value(&dict(vec![
            ("buf_size", CborValue::Unsigned(0x1_0000_0000)),
            ("buf_count", CborValue::Unsigned(4)),
        ])),
        Err(CodecError::Mismatch)
    );
}

#[test]
fn system_reset() {
    command_encode_decode(
        &SystemReset { force: false, boot_mode: None },
        (true, 0, 5),
        dict(vec![]),
        dict(vec![]),
        (),
    );
    command_encode_decode(
        &SystemReset { force: true, boot_mode: Some(1) },
        (true, 0, 5),
        dict(vec![("force", CborValue::Simple(21)), ("boot_mode", CborValue::Unsigned(1))]),
        dict(vec![]),
        (),
    );
    assert_eq!(encode(&SystemReset { force: true, boot_mode: None }.to_value()), hex("a165666f726365f5"));
}

#[test]
fn bootloader_info() {
    command_encode_decode(
        &BootloaderInfo,
        (false, 0, 8),
        dict(vec![]),
        dict(vec![("bootloader", text("MCUboot"))]),
        BootloaderInfoResponse { bootloader: String::from("MCUboot") },
    );
}

#[test]
fn file_upload() {
    command_encode_decode(
        &FileUpload {
            off: 42,
            data: vec![1, 2, 3, 4, 5],
            name: String::from("foo.txt"),
            len: None,
        },
        (true, 8, 0),
        dict(vec![
            ("off", CborValue::Unsigned(42)),
            ("data", CborValue::Bytes(vec![1, 2, 3, 4, 5])),
            ("name", text("foo.txt")),
        ]),
        dict(vec![("off", CborValue::Unsigned(58))]),
        FileUploadResponse { off: 58 },
    );
    command_encode_decode(
        &FileUpload { off: 0, data: vec![], name: String::from("/lfs/a"), len: Some(0) },
        (true, 8, 0),
        dict(vec![
            ("off", CborValue::Unsigned(0)),
            ("data", CborValue::Bytes(vec![])),
            ("name", text("/lfs/a")),
            ("len", CborValue::Unsigned(0)),
        ]),
        dict(vec![("rc", CborValue::Unsigned(0)), ("off", CborValue::Unsigned(0))]),
        FileUploadResponse { off: 0 },
    );
    assert_eq!(
        encode(
            &FileUpload {
                off: 42,
                data: vec![1, 2, 3, 4, 5],
                name: String::from("foo.txt"),
                len: Some(300),
            }
            .to_value()
        ),
        hex("a4636f6666182a646461746145010203040564 6e616d6567666f6f2e747874636c656e19012c".replace(' ', "").as_str())
    );
    let request = FileUpload {
        off: 42,
        data: vec![1, 2, 3, 4, 5],
        name: String::from("foo.txt"),
        len: Some(300),
    };
    assert_eq!(FileUpload::from_value(&request.to_value()), Ok(request));
    assert_eq!(encode(&FileUploadResponse { off: 58 }.to_value()), hex("a1636f6666183a"));
    assert_eq!(FileUploadResponse::from_value(&item("a0")), Err(CodecError::Mismatch));
    assert_eq!(FileUploadResponse::from_value(&item("a1636f666620")), Err(CodecError::Mismatch));
    assert_eq!(FileUploadResponse::from_value(&item("a1636f66666131")), Err(CodecError::Mismatch));
    assert_eq!(
        FileUploadResponse::from_value(&item("bf636f66661bffffffffffffffff6178f6ff")),
        Ok(FileUploadResponse { off: u64::MAX })
    );
}

#[test]
fn file_download() {
    command_encode_decode(
        &FileDownload { off: 42, name: String::from("foo.txt") },
        (false, 8, 0),
        dict(vec![("off", CborValue::Unsigned(42)), ("name", text("foo.txt"))]),
        dict(vec![
            ("off", CborValue::Unsigned(42)),
            ("data", CborValue::Bytes(vec![1, 2, 3, 4, 5])),
            ("len", CborValue::Unsigned(57)),
        ]),
        FileDownloadResponse { off: 42, data: vec![1, 2, 3, 4, 5], len: Some(57) },
    );
    command_encode_decode(
        &FileDownload { off: 0, name: String::new() },
        (false, 8, 0),
        dict(vec![("off", CborValue::Unsigned(0)), ("name", text(""))]),
        dict(vec![("data", CborValue::Bytes(vec![])), ("off", CborValue::Unsigned(3))]),
        FileDownloadResponse { off: 3, data: vec![], len: None },
    );
    let request = FileDownload { off: 7, name: String::from("a") };
    assert_eq!(FileDownload::from_value(&request.to_value()), Ok(request));
    let response = FileDownloadResponse { off: 0, data: vec![9, 8], len: Some(2) };
    assert_eq!(FileDownloadResponse::from_value(&response.to_value()), Ok(response));
    assert_eq!(
        FileDownloadResponse::from_value(&dict(vec![("off", CborValue::Unsigned(1))])),
        Err(CodecError::Mismatch)
    );
    assert_eq!(
        FileDownloadResponse::from_value(&dict(vec![
            ("off", CborValue::Unsigned(1)),
            ("data", text("x")),
        ])),
        Err(CodecError::Mismatch)
    );
}

#[test]
fn file_status() {
    command_encode_decode(
        &FileStatus { name: String::from("foo.txt") },
        (false, 8, 1),
        dict(vec![("name", text("foo.txt"))]),
        dict(vec![("len", CborValue::Unsigned(123))]),
        FileStatusResponse { len: 123 },
    );
}

#[test]
fn file_checksum() {
    command_encode_decode(
        &FileChecksum { name: String::from("foo.txt"), kind: None, off: 0, len: None },
        (false, 8, 2),
        dict(vec![("name", text("foo.txt"))]),
        dict(vec![
            ("type", text("foo")),
            ("off", CborValue::Unsigned(69)),
            ("len", CborValue::Unsigned(42)),
            ("output", CborValue::Bytes(vec![1, 2, 3, 4])),
        ]),
        FileChecksumResponse {
            kind: String::from("foo"),
            off: 69,
            len: 42,
            output: FileChecksumData::Hash(vec![1, 2, 3, 4]),
        },
    );
    command_encode_decode(
        &FileChecksum {
            name: String::from("foo.txt"),
            kind: Some(String::from("sha256")),
            off: 42,
            len: Some(16),
        },
        (false, 8, 2),
        dict(vec![
            ("name", text("foo.txt")),
            ("type", text("sha256")),
            ("off", CborValue::Unsigned(42)),
            ("len", CborValue::Unsigned(16)),
        ]),
        dict(vec![
            ("type", text("crc32")),
            ("len", CborValue::Unsigned(16)),
            ("output", CborValue::Unsigned(0x8d4a_c3d1)),
        ]),
        FileChecksumResponse {
            kind: String::from("crc32"),
            off: 0,
            len: 16,
            output: FileChecksumData::Checksum(0x8d4a_c3d1),
        },
    );
    let too_large = dict(vec![
        ("type", text("crc32")),
        ("len", CborValue::Unsigned(16)),
        ("output", CborValue::Unsigned(0x1_0000_0000)),
    ]);
    assert_eq!(FileChecksumResponse::from_value(&too_large), Err(CodecError::Mismatch));
    let no_output = dict(vec![("type", text("crc32")), ("len", CborValue::Unsigned(16))]);
    assert_eq!(FileChecksumResponse::from_value(&no_output), Err(CodecError::Mismatch));
}

#[test]
fn supported_file_checksum_types() {
    command_encode_decode(
        &SupportedFileChecksumTypes,
        (false, 8, 3),
        dict(vec![]),
        dict(vec![(
            "types",
            dict(vec![
                (
                    "sha256",
                    dict(vec![("format", CborValue::Unsigned(1)), ("size", CborValue::Unsigned(32))]),
                ),
                (
                    "crc32",
                    dict(vec![("format", CborValue::Unsigned(0)), ("size", CborValue::Unsigned(4))]),
                ),
            ]),
        )]),
        SupportedFileChecksumTypesResponse {
            types: vec![
                (
                    String::from("sha256"),
                    SupportedFileChecksumTypesEntry {
                        format: SupportedFileChecksumDataFormat::ByteArray,
                        size: 32,
                    },
                ),
                (
                    String::from("crc32"),
                    SupportedFileChecksumTypesEntry {
                        format: SupportedFileChecksumDataFormat::Numerical,
                        size: 4,
                    },
                ),
            ],
        },
    );
    let bad_format = dict(vec![(
        "types",
        dict(vec![(
            "x",
            dict(vec![("format", CborValue::Unsigned(2)), ("size", CborValue::Unsigned(4))]),
        )]),
    )]);
    assert_eq!(
        SupportedFileChecksumTypesResponse::from_value(&bad_format),
        Err(CodecError::Mismatch)
    );
    assert_eq!(
        SupportedFileChecksumTypesResponse::from_value(&dict(vec![("types", text("x"))])),
        Err(CodecError::Mismatch)
    );
    assert_eq!(
        SupportedFileChecksumTypesResponse::from_value(&dict(vec![("types", dict(vec![]))])),
        Ok(SupportedFileChecksumTypesResponse { types: vec![] })
    );
}

#[test]
fn file_close() {
    command_encode_decode(&FileClose, (true, 8, 4), dict(vec![]), dict(vec![]), ());
}

#[test]
fn shell_command_line_execute() {
    command_encode_decode(
        &ShellCommandLineExecute {
            argv: vec![String::from("kernel"), String::from("uptime")],
        },
        (true, 9, 0),
        dict(vec![("argv", CborValue::Array(vec![text("kernel"), text("uptime")]))]),
        dict(vec![("o", text("Uptime: 42 ms\n")), ("ret", CborValue::Negative(7))]),
        ShellCommandLineExecuteResponse { o: String::from("Uptime: 42 ms\n"), ret: -8 },
    );
    command_encode_decode(
        &ShellCommandLineExecute { argv: vec![] },
        (true, 9, 0),
        dict(vec![("argv", CborValue::Array(vec![]))]),
        dict(vec![("o", text("")), ("ret", CborValue::Unsigned(0))]),
        ShellCommandLineExecuteResponse { o: String::new(), ret: 0 },
    );
    assert_eq!(
        ShellCommandLineExecuteResponse::from_value(&dict(vec![
            ("o", text("")),
            ("ret", CborValue::Unsigned(0x8000_0000)),
        ])),
        Err(CodecError::Mismatch)
    );
}

#[test]
fn image_upload() {
    command_encode_decode(
        &ImageUpload {
            image: Some(2),
            len: Some(123456789123),
            off: 0,
            sha: Some(vec![0x42; 32]),
            data: vec![5, 6, 7, 8],
            upgrade: Some(false),
        },
        (true, 1, 1),
        dict(vec![
            ("image", CborValue::Unsigned(2)),
            ("len", CborValue::Unsigned(123456789123)),
            ("off", CborValue::Unsigned(0)),
            ("sha", CborValue::Bytes(vec![0x42; 32])),
            ("data", CborValue::Bytes(vec![5, 6, 7, 8])),
            ("upgrade", CborValue::Simple(20)),
        ]),
        dict(vec![("off", CborValue::Unsigned(4)), ("match", CborValue::Simple(21))]),
        ImageUploadResponse { off: 4, matches: Some(true) },
    );
    command_encode_decode(
        &ImageUpload { image: None, len: None, off: 4, sha: None, data: vec![9], upgrade: None },
        (true, 1, 1),
        dict(vec![("off", CborValue::Unsigned(4)), ("data", CborValue::Bytes(vec![9]))]),
        dict(vec![("off", CborValue::Unsigned(5))]),
        ImageUploadResponse { off: 5, matches: None },
    );
}

#[test]
fn image_state_write() {
    command_encode_decode(
        &ImageStateWrite { hash: Some(vec![1, 2, 3]), confirm: true },
        (true, 1, 0),
        dict(vec![("hash", CborValue::Bytes(vec![1, 2, 3])), ("confirm", CborValue::Simple(21))]),
        dict(vec![("images", CborValue::Array(vec![]))]),
        (),
    );
    command_encode_decode(
        &ImageStateWrite { hash: Some(vec![1, 2, 3]), confirm: false },
        (true, 1, 0),
        dict(vec![("hash", CborValue::Bytes(vec![1, 2, 3]))]),
        dict(vec![]),
        (),
    );
    command_encode_decode(
        &ImageStateWrite { hash: None, confirm: false },
        (true, 1, 0),
        dict(vec![]),
        dict(vec![]),
        (),
    );
}

#[test]
fn raw_command() {
    let data = dict(vec![("d", text("raw"))]);
    let read = RawCommand { op: RawCommandOp::Read, group_id: 0, command_id: 0, data: data.clone() };
    command_encode_decode(
        &read,
        (false, 0, 0),
        data.clone(),
        dict(vec![("r", text("raw"))]),
        dict(vec![("r", text("raw"))]),
    );
    let write = RawCommand { op: RawCommandOp::Write, group_id: 64, command_id: 200, data };
    assert!(write.is_write_operation());
    assert_eq!(write.group_id(), 64);
    assert_eq!(write.command_id(), 200);
}

#[test]
fn default_values() {
    assert!(is_default(&0u64));
    assert!(!is_default(&1u64));
    assert!(is_default(&false));
    assert!(!is_default(&true));
    assert!(is_default(&String::new()));
    assert!(!is_default(&String::from("x")));
    assert!(is_default(&None::<u8>));
    assert!(!is_default(&Some(0u8)));
    assert!(is_default(&0i32));
    assert!(!is_default(&-1i32));
}

#[test]
fn error_of_the_first_shape() {
    let fields = ErrResponse::from_value(&dict(vec![("rc", CborValue::Unsigned(8))])).unwrap();
    assert_eq!(fields, ErrResponse { rc: Some(8), err: None });
    assert_eq!(fields.device_error(), Some(DeviceError::V1 { rc: 8 }));
    assert_eq!(fields.device_error().unwrap().code(), 8);
    let negative = ErrResponse::from_value(&dict(vec![("rc", CborValue::Negative(1))])).unwrap();
    assert_eq!(negative.device_error(), Some(DeviceError::V1 { rc: -2 }));
    let fields = ErrResponse::from_value(&item("bf62726303ff")).unwrap();
    assert_eq!(fields.device_error(), Some(DeviceError::V1 { rc: 3 }));
}

#[test]
fn error_of_the_second_shape() {
    let payload = dict(vec![(
        "err",
        dict(vec![("group", CborValue::Unsigned(8)), ("rc", CborValue::Unsigned(3))]),
    )]);
    let fields = ErrResponse::from_value(&payload).unwrap();
    assert_eq!(fields, ErrResponse { rc: None, err: Some(ErrResponseV2 { group: 8, rc: 3 }) });
    assert_eq!(fields.device_error(), Some(DeviceError::V2 { group: 8, rc: 3 }));
    assert_eq!(fields.device_error().unwrap().code(), 3);
    let fields = ErrResponse::from_value(&item("a163657272a26567726f757019ffff62726318ff")).unwrap();
    assert_eq!(fields.device_error(), Some(DeviceError::V2 { group: 65535, rc: 255 }));
}

#[test]
fn no_error() {
    let fields = ErrResponse::from_value(&dict(vec![("r", text("x"))])).unwrap();
    assert_eq!(fields, ErrResponse { rc: None, err: None });
    assert_eq!(fields.device_error(), None);
    let fields = ErrResponse::from_value(&dict(vec![])).unwrap();
    assert_eq!(fields.device_error(), None);
    let fields = ErrResponse::from_value(&CborValue::Array(vec![])).unwrap();
    assert_eq!(fields, ErrResponse { rc: None, err: None });
    let ok = ErrResponse::from_value(&dict(vec![("rc", CborValue::Unsigned(0))])).unwrap();
    assert_eq!(ok, ErrResponse { rc: Some(0), err: None });
    assert_eq!(ok.device_error(), None);
}

#[test]
fn both_shapes_at_once() {
    let payload = dict(vec![
        ("rc", CborValue::Unsigned(1)),
        ("err", dict(vec![("group", CborValue::Unsigned(2)), ("rc", CborValue::Unsigned(3))])),
    ]);
    let fields = ErrResponse::from_value(&payload).unwrap();
    assert_eq!(fields.device_error(), Some(DeviceError::V2 { group: 2, rc: 3 }));
}

#[test]
fn error_fields_of_another_kind() {
    assert_eq!(
        ErrResponse::from_value(&dict(vec![("rc", text("8"))])),
        Err(CodecError::Mismatch)
    );
    assert_eq!(
        ErrResponse::from_value(&dict(vec![("rc", CborValue::Unsigned(0x8000_0000))])),
        Err(CodecError::Mismatch)
    );
    assert_eq!(
        ErrResponse::from_value(&dict(vec![("err", CborValue::Unsigned(1))])),
        Err(CodecError::Mismatch)
    );
    assert_eq!(
        ErrResponse::from_value(&dict(vec![("err", dict(vec![("rc", CborValue::Unsigned(1))]))])),
        Err(CodecError::Mismatch)
    );
    assert_eq!(
        ErrResponse::from_value(&dict(vec![(
            "err",
            dict(vec![("group", CborValue::Unsigned(65536)), ("rc", CborValue::Unsigned(1))]),
        )])),
        Err(CodecError::Mismatch)
    );
    assert_eq!(
        ErrResponseV2::from_value(&dict(vec![
            ("group", CborValue::Unsigned(1)),
            ("rc", CborValue::Negative(0x8000_0000)),
        ])),
        Err(CodecError::Mismatch)
    );
    assert_eq!(
        ErrResponseV2::from_value(&dict(vec![
            ("group", CborValue::Unsigned(1)),
            ("rc", CborValue::Negative(0x7fff_ffff)),
        ])),
        Ok(ErrResponseV2 { group: 1, rc: i32::MIN })
    );
}

#[test]
fn names_of_status_codes() {
    let names = [
        "MGMT_ERR_EOK",
        "MGMT_ERR_EUNKNOWN",
        "MGMT_ERR_ENOMEM",
        "MGMT_ERR_EINVAL",
        "MGMT_ERR_ETIMEOUT",
        "MGMT_ERR_ENOENT",
        "MGMT_ERR_EBADSTATE",
        "MGMT_ERR_EMSGSIZE",
        "MGMT_ERR_ENOTSUP",
        "MGMT_ERR_ECORRUPT",
        "MGMT_ERR_EBUSY",
        "MGMT_ERR_EACCESSDENIED",
        "MGMT_ERR_UNSUPPORTED_TOO_OLD",
        "MGMT_ERR_UNSUPPORTED_TOO_NEW",
    ];
    for (code, name) in names.iter().enumerate() {
        assert_eq!(status_code_name(code as i32), Some(*name));
    }
    assert_eq!(status_code_name(256), Some("MGMT_ERR_EPERUSER"));
    assert_eq!(status_code_name(14), None);
    assert_eq!(status_code_name(255), None);
    assert_eq!(status_code_name(257), None);
    assert_eq!(status_code_name(-1), None);
    assert_eq!(status_code_name(i32::MAX), None);
}
