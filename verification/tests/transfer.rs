use std::collections::HashMap;
use zephyr_mcumgr::cbor::access::{find_bytes, find_integer, find_text};
use zephyr_mcumgr::cbor::decode::decode;
use zephyr_mcumgr::cbor::encode::encode;
use zephyr_mcumgr::cbor::value::CborValue;
use zephyr_mcumgr::commands::errors::DeviceError;
use zephyr_mcumgr::commands::fs::{FileDownload, FileDownloadResponse, FileUpload, FileUploadResponse};
use zephyr_mcumgr::commands::{CommandIdentity, Direction};
use zephyr_mcumgr::connection::{Connection, ExecuteError};
use zephyr_mcumgr::frame::{build_response, read_header, Operation, HEADER_LEN};
use zephyr_mcumgr::progress::{NoProgress, ProgressCallback};
use zephyr_mcumgr::transfer::{
    capacity, download, upload, FileDownloadError, FileUploadError, ImageUploadError,
    UploadTarget, RESEND_LIMIT,
};
use zephyr_mcumgr::transport::{Transport, TransportError};
use zephyr_mcumgr::MCUmgrClient;

fn text(s: &str) -> CborValue {
    CborValue::Text(String::from(s))
}

fn dict(entries: Vec<(&str, CborValue)>) -> CborValue {
    CborValue::Dict(entries.into_iter().map(|(k, v)| (text(k), v)).collect())
}

/// What the device does with the chunk that has a given number.
#[derive(Clone, Debug, PartialEq)]
enum Quirk {
    /// Acknowledges this offset and stores nothing.
    Acknowledge(u64),
    /// Answers with this payload.
    Answer(CborValue),
    /// Fails to read.
    Silence,
}

/// A device that keeps files: it puts each chunk behind what it has where
/// the chunk starts there, and says how much it has.
#[derive(Default)]
struct FileDevice {
    files: HashMap<String, Vec<u8>>,
    images: HashMap<u32, Vec<u8>>,
    slot: u32,
    quirks: HashMap<usize, Quirk>,
    download_chunk: usize,
    uploads: Vec<CborValue>,
    downloads: Vec<u64>,
    frames: Vec<usize>,
    pending: Option<Vec<u8>>,
}

impl FileDevice {
    fn file_upload(&mut self, payload: &CborValue) -> CborValue {
        let request = FileUpload::from_value(payload).expect("a file upload");
        let file = self.files.entry(request.name.clone()).or_default();
        if request.off == 0 {
            assert!(request.len.is_some(), "the first chunk says the length");
            file.clear();
        } else {
            assert_eq!(request.len, None, "a later chunk says no length");
        }
        if request.off as usize == file.len() {
            file.extend_from_slice(&request.data);
        }
        FileUploadResponse { off: file.len() as u64 }.to_value()
    }

    fn image_upload(&mut self, payload: &CborValue) -> CborValue {
        let entries = match payload {
            CborValue::Dict(entries) => entries,
            other => panic!("no map: {:?}", other),
        };
        let off = find_integer(entries, "off", 0, u64::MAX as i128).unwrap().unwrap() as usize;
        let data = find_bytes(entries, "data").unwrap().unwrap();
        if off == 0 {
            self.slot = find_integer(entries, "image", 0, 255).unwrap().unwrap_or(0) as u32;
        } else {
            assert_eq!(entries.len(), 2, "a later chunk holds the offset and the data");
        }
        let image = self.images.entry(self.slot).or_default();
        if off == 0 {
            image.clear();
        }
        if off == image.len() {
            image.extend_from_slice(&data);
        }
        dict(vec![("off", CborValue::Unsigned(image.len() as u64))])
    }

    fn file_download(&mut self, payload: &CborValue) -> CborValue {
        let request = FileDownload::from_value(payload).expect("a file download");
        self.downloads.push(request.off);
        let file = match self.files.get(&request.name) {
            Some(file) => file,
            None => return dict(vec![("rc", CborValue::Unsigned(5))]),
        };
        let start = (request.off as usize).min(file.len());
        let end = (start + self.download_chunk).min(file.len());
        FileDownloadResponse {
            off: request.off,
            data: file[start..end].to_vec(),
            len: if request.off == 0 { Some(file.len() as u64) } else { None },
        }
        .to_value()
    }
}

impl Transport for FileDevice {
    fn write(&mut self, frame: &[u8]) -> Result<(), TransportError> {
        let header = read_header(frame).unwrap();
        assert_eq!(header.data_length as usize, frame.len() - HEADER_LEN);
        let payload = decode(&frame[HEADER_LEN..]).unwrap();
        let number = self.frames.len();
        self.frames.push(frame.len());
        let direction = match header.op {
            Operation::Read => Direction::Read,
            Operation::Write => Direction::Write,
            other => panic!("a request with operation {:?}", other),
        };
        let identity =
            CommandIdentity { group_id: header.group_id, command_id: header.command_id, direction };
        let answer = match self.quirks.get(&number).cloned() {
            Some(Quirk::Silence) => {
                self.uploads.push(payload);
                self.pending = None;
                return Ok(());
            }
            Some(Quirk::Acknowledge(off)) => {
                self.uploads.push(payload);
                dict(vec![("off", CborValue::Unsigned(off))])
            }
            Some(Quirk::Answer(answer)) => {
                self.uploads.push(payload);
                answer
            }
            None => match (header.group_id, header.command_id, direction) {
                (8, 0, Direction::Write) => {
                    self.uploads.push(payload.clone());
                    self.file_upload(&payload)
                }
                (8, 0, Direction::Read) => self.file_download(&payload),
                (1, 1, Direction::Write) => {
                    self.uploads.push(payload.clone());
                    self.image_upload(&payload)
                }
                other => panic!("no such command: {:?}", other),
            },
        };
        self.pending = Some(build_response(&identity, header.sequence, &encode(&answer)));
        Ok(())
    }

    fn read(&mut self) -> Result<Vec<u8>, TransportError> {
        self.pending.take().ok_or(TransportError::Timeout)
    }
}

/// A callback that writes down what it hears and cancels at a given call.
#[derive(Default)]
struct Reports {
    heard: Vec<(u64, u64)>,
    cancel_at: Option<usize>,
}

impl ProgressCallback for Reports {
    fn report(&mut self, current: u64, total: u64) -> bool {
        self.heard.push((current, total));
        Some(self.heard.len()) != self.cancel_at
    }
}

fn offsets(device: &FileDevice) -> Vec<u64> {
    device
        .uploads
        .iter()
        .map(|payload| match payload {
            CborValue::Dict(entries) => {
                find_integer(entries, "off", 0, u64::MAX as i128).unwrap().unwrap() as u64
            }
            other => panic!("no map: {:?}", other),
        })
        .collect()
}

fn pattern(len: usize) -> Vec<u8> {
    (0..len).map(|i| (i * 7 + i / 251) as u8).collect()
}

fn file(name: &str) -> UploadTarget {
    UploadTarget::File { name: String::from(name) }
}

#[test]
fn room_for_data_in_a_frame() {
    // header 8, map 1, off 4 + 9, data 5 + 1, name 5 + 1 + 6, len 4 + 3, data length 2
    assert_eq!(capacity(&file("/lfs/a"), 1000, 256), 256 - 8 - 39 - 2);
    assert_eq!(capacity(&file("/lfs/a"), 1000, 50), 1);
    assert_eq!(capacity(&file("/lfs/a"), 1000, 49), 0);
    assert_eq!(capacity(&file("/lfs/a"), 1000, 0), 0);
    assert_eq!(capacity(&file("/lfs/a"), 23, 256), 256 - 8 - 37 - 2);
    assert_eq!(capacity(&file("/lfs/a"), u64::MAX, 256), 256 - 8 - 45 - 2);
    assert_eq!(capacity(&file(""), 0, 256), 256 - 8 - 31 - 2);
    assert_eq!(capacity(&file("/lfs/a"), 1000, usize::MAX), 8 + 65535 - 8 - 39 - 2);
    assert_eq!(capacity(&file("/lfs/a"), 1000, 65543), 65535 - 39 - 2);
    let image = UploadTarget::Image { image: None, sha: None, upgrade: false };
    // map 1, len 4 + 3, off 4 + 9, data 5 + 1
    assert_eq!(capacity(&image, 1000, 256), 256 - 8 - 27 - 2);
    let image = UploadTarget::Image { image: Some(1), sha: Some(vec![0; 32]), upgrade: true };
    // and image 6 + 1, sha 4 + 2 + 32, upgrade 8 + 1
    assert_eq!(capacity(&image, 1000, 256), 256 - 8 - 27 - 7 - 38 - 9 - 2);
}

#[test]
fn upload_arrives_whole() {
    let room = capacity(&file("/lfs/data.bin"), 1, 256);
    for len in [0, 1, 2, room - 1, room, room + 1, 2 * room, 3 * room + 7, 5000] {
        let data = pattern(len);
        let mut client = MCUmgrClient::new(FileDevice::default());
        let mut reports = Reports::default();
        assert_eq!(client.fs_file_upload("/lfs/data.bin", &data, &mut reports), Ok(()));
        let device = client.transport();
        assert_eq!(device.files["/lfs/data.bin"], data, "an upload of {} bytes", len);
        assert_eq!(reports.heard.last(), Some(&(len as u64, len as u64)));
        assert_eq!(reports.heard.len(), device.uploads.len());
        assert!(reports.heard.iter().all(|report| report.1 == len as u64));
        assert!(device.frames.iter().all(|frame| *frame <= 256));
        let room = capacity(&file("/lfs/data.bin"), len as u64, 256);
        assert_eq!(device.uploads.len(), ((len + room - 1) / room).max(1));
        let expected: Vec<u64> = (0..device.uploads.len()).map(|i| (i * room) as u64).collect();
        assert_eq!(offsets(device), expected);
    }
}

#[test]
fn upload_in_frames_of_many_sizes() {
    let data = pattern(3000);
    for frame_size in [52, 53, 64, 100, 127, 128, 255, 256, 257, 512, 1024, 2048, 4096, 70000] {
        let mut client = MCUmgrClient::new(FileDevice::default());
        client.set_frame_size(frame_size);
        assert_eq!(client.fs_file_upload("/lfs/a", &data, &mut NoProgress), Ok(()));
        let device = client.transport();
        assert_eq!(device.files["/lfs/a"], data);
        assert!(device.frames.iter().all(|frame| *frame <= frame_size));
        assert!(device.frames.iter().any(|frame| *frame + 20 > frame_size.min(3000)));
    }
}

#[test]
fn upload_of_nothing_sends_one_chunk() {
    let mut client = MCUmgrClient::new(FileDevice::default());
    let mut reports = Reports::default();
    assert_eq!(client.fs_file_upload("/lfs/empty", &[], &mut reports), Ok(()));
    let device = client.transport();
    assert_eq!(
        device.uploads,
        vec![dict(vec![
            ("off", CborValue::Unsigned(0)),
            ("data", CborValue::Bytes(vec![])),
            ("name", text("/lfs/empty")),
            ("len", CborValue::Unsigned(0)),
        ])]
    );
    assert_eq!(device.files["/lfs/empty"], Vec::<u8>::new());
    assert_eq!(reports.heard, vec![(0, 0)]);
}

#[test]
fn chunks_of_an_upload() {
    let data = pattern(500);
    let mut client = MCUmgrClient::new(FileDevice::default());
    client.set_frame_size(250);
    assert_eq!(client.fs_file_upload("/lfs/a", &data, &mut NoProgress), Ok(()));
    let room = capacity(&file("/lfs/a"), 500, 250);
    assert_eq!(room, 250 - 8 - 39 - 2);
    let device = client.transport();
    assert_eq!(
        device.uploads,
        vec![
            dict(vec![
                ("off", CborValue::Unsigned(0)),
                ("data", CborValue::Bytes(data[..room].to_vec())),
                ("name", text("/lfs/a")),
                ("len", CborValue::Unsigned(500)),
            ]),
            dict(vec![
                ("off", CborValue::Unsigned(room as u64)),
                ("data", CborValue::Bytes(data[room..2 * room].to_vec())),
                ("name", text("/lfs/a")),
            ]),
            dict(vec![
                ("off", CborValue::Unsigned(2 * room as u64)),
                ("data", CborValue::Bytes(data[2 * room..].to_vec())),
                ("name", text("/lfs/a")),
            ]),
        ]
    );
}

#[test]
fn the_next_chunk_starts_where_the_device_says() {
    let data = pattern(1000);
    let room = capacity(&file("/lfs/a"), 1000, 256) as u64;
    let mut device = FileDevice::default();
    device.quirks.insert(2, Quirk::Acknowledge(room + 10));
    device.quirks.insert(3, Quirk::Acknowledge(5));
    device.quirks.insert(4, Quirk::Acknowledge(2 * room));
    let mut client = MCUmgrClient::new(device);
    let mut reports = Reports::default();
    let result = client.fs_file_upload("/lfs/a", &data, &mut reports);
    let device = client.transport();
    assert_eq!(
        offsets(device)[..6],
        [0, room, 2 * room, room + 10, 5, 2 * room]
    );
    assert_eq!(
        reports.heard[..5],
        [(room, 1000), (2 * room, 1000), (room + 10, 1000), (5, 1000), (2 * room, 1000)]
    );
    assert_eq!(device.files["/lfs/a"], data);
    match device.uploads[3] {
        CborValue::Dict(ref entries) => {
            let from = (room + 10) as usize;
            assert_eq!(
                find_bytes(entries, "data").unwrap().unwrap(),
                data[from..from + room as usize].to_vec()
            );
            assert_eq!(find_text(entries, "name").unwrap().unwrap(), "/lfs/a");
            assert_eq!(find_integer(entries, "len", 0, 10000), Ok(None));
        }
        ref other => panic!("no map: {:?}", other),
    }
    assert_eq!(result, Ok(()));
    assert_eq!(reports.heard.last(), Some(&(1000, 1000)));
}

#[test]
fn a_resend_from_the_start_says_the_length_again() {
    let data = pattern(600);
    let mut device = FileDevice::default();
    device.quirks.insert(1, Quirk::Acknowledge(0));
    let mut client = MCUmgrClient::new(device);
    assert_eq!(client.fs_file_upload("/lfs/a", &data, &mut NoProgress), Ok(()));
    let device = client.transport();
    let room = capacity(&file("/lfs/a"), 600, 256) as u64;
    assert_eq!(offsets(device), vec![0, room, 0, room, 2 * room]);
    assert_eq!(device.uploads[0], device.uploads[2]);
    assert_eq!(device.files["/lfs/a"], data);
}

#[test]
fn a_device_that_asks_again_many_times_is_heard_each_time() {
    let data = pattern(100);
    let mut device = FileDevice::default();
    for i in 0..200 {
        device.quirks.insert(i, Quirk::Acknowledge(0));
    }
    let mut client = MCUmgrClient::new(device);
    let mut reports = Reports::default();
    assert_eq!(client.fs_file_upload("/lfs/a", &data, &mut reports), Ok(()));
    let device = client.transport();
    assert_eq!(device.uploads.len(), 201);
    assert!(offsets(device).iter().all(|off| *off == 0));
    assert_eq!(device.files["/lfs/a"], data);
    assert_eq!(reports.heard.len(), 201);
    assert!(reports.heard[..200].iter().all(|report| *report == (0, 100)));
    assert_eq!(reports.heard[200], (100, 100));
    assert_eq!(RESEND_LIMIT, u64::MAX);
}

#[test]
fn an_offset_behind_the_end() {
    let mut device = FileDevice::default();
    device.quirks.insert(1, Quirk::Acknowledge(1001));
    let mut client = MCUmgrClient::new(device);
    let mut reports = Reports::default();
    assert_eq!(
        client.fs_file_upload("/lfs/a", &pattern(1000), &mut reports),
        Err(FileUploadError::OffsetOutOfRange)
    );
    assert_eq!(client.transport().uploads.len(), 2);
    assert_eq!(reports.heard.len(), 1);
}

#[test]
fn the_end_acknowledged_early_ends_the_upload() {
    let mut device = FileDevice::default();
    device.quirks.insert(0, Quirk::Acknowledge(1000));
    let mut client = MCUmgrClient::new(device);
    let mut reports = Reports::default();
    assert_eq!(client.fs_file_upload("/lfs/a", &pattern(1000), &mut reports), Ok(()));
    assert_eq!(client.transport().uploads.len(), 1);
    assert_eq!(reports.heard, vec![(1000, 1000)]);
}

#[test]
fn upload_cancelled() {
    for cancel_at in 1..=4usize {
        let mut client = MCUmgrClient::new(FileDevice::default());
        let mut reports = Reports { heard: Vec::new(), cancel_at: Some(cancel_at) };
        assert_eq!(
            client.fs_file_upload("/lfs/a", &pattern(1000), &mut reports),
            Err(FileUploadError::Cancelled)
        );
        assert_eq!(client.transport().uploads.len(), cancel_at);
        assert_eq!(reports.heard.len(), cancel_at);
    }
    let room = capacity(&file("/lfs/a"), 1000, 256);
    let chunks = (1000 + room - 1) / room;
    let mut client = MCUmgrClient::new(FileDevice::default());
    let mut reports = Reports { heard: Vec::new(), cancel_at: Some(chunks) };
    assert_eq!(
        client.fs_file_upload("/lfs/a", &pattern(1000), &mut reports),
        Err(FileUploadError::Cancelled)
    );
    assert_eq!(client.transport().files["/lfs/a"].len(), 1000);
}

#[test]
fn no_room_for_data() {
    let mut client = MCUmgrClient::new(FileDevice::default());
    client.set_frame_size(49);
    let mut reports = Reports::default();
    assert_eq!(
        client.fs_file_upload("/lfs/a", &pattern(1000), &mut reports),
        Err(FileUploadError::FrameSizeTooSmall)
    );
    assert!(client.transport().frames.is_empty());
    assert!(reports.heard.is_empty());
    client.set_frame_size(50);
    assert_eq!(capacity(&file("/lfs/a"), 20, 50), 3);
    assert_eq!(client.fs_file_upload("/lfs/a", &pattern(20), &mut reports), Ok(()));
    assert_eq!(client.transport().uploads.len(), 7);
    assert_eq!(client.transport().files["/lfs/a"], pattern(20));
    let long = "n".repeat(300);
    client.set_frame_size(256);
    assert_eq!(
        client.fs_file_upload(&long, &pattern(20), &mut reports),
        Err(FileUploadError::FrameSizeTooSmall)
    );
    let longer = "n".repeat(70000);
    client.set_frame_size(usize::MAX);
    assert_eq!(
        client.fs_file_upload(&longer, &pattern(20), &mut reports),
        Err(FileUploadError::FrameSizeTooSmall)
    );
}

#[test]
fn upload_fails_with_the_failure_of_a_chunk() {
    let mut device = FileDevice::default();
    device.quirks.insert(1, Quirk::Answer(dict(vec![("rc", CborValue::Unsigned(2))])));
    let mut client = MCUmgrClient::new(device);
    assert_eq!(
        client.fs_file_upload("/lfs/a", &pattern(1000), &mut NoProgress),
        Err(FileUploadError::Execute(ExecuteError::Device(DeviceError::V1 { rc: 2 })))
    );
    assert_eq!(client.transport().uploads.len(), 2);

    let mut device = FileDevice::default();
    device.quirks.insert(
        0,
        Quirk::Answer(dict(vec![(
            "err",
            dict(vec![("group", CborValue::Unsigned(8)), ("rc", CborValue::Unsigned(4))]),
        )])),
    );
    let mut client = MCUmgrClient::new(device);
    assert_eq!(
        client.fs_file_upload("/lfs/a", &pattern(1000), &mut NoProgress),
        Err(FileUploadError::Execute(ExecuteError::Device(DeviceError::V2 { group: 8, rc: 4 })))
    );

    let mut device = FileDevice::default();
    device.quirks.insert(2, Quirk::Silence);
    let mut client = MCUmgrClient::new(device);
    assert_eq!(
        client.fs_file_upload("/lfs/a", &pattern(1000), &mut NoProgress),
        Err(FileUploadError::Execute(ExecuteError::Transport(TransportError::Timeout)))
    );
    assert_eq!(client.transport().uploads.len(), 3);

    let mut device = FileDevice::default();
    device.quirks.insert(0, Quirk::Answer(dict(vec![("offset", CborValue::Unsigned(1))])));
    let mut client = MCUmgrClient::new(device);
    assert!(matches!(
        client.fs_file_upload("/lfs/a", &pattern(1000), &mut NoProgress),
        Err(FileUploadError::Execute(ExecuteError::Codec(_)))
    ));
}

#[test]
fn image_arrives_whole() {
    let data = pattern(2000);
    let mut client = MCUmgrClient::new(FileDevice::default());
    let mut reports = Reports::default();
    assert_eq!(
        client.image_upload(&data, Some(1), Some(vec![0xab; 32]), true, &mut reports),
        Ok(())
    );
    let device = client.transport();
    assert_eq!(device.images[&1], data);
    assert_eq!(reports.heard.last(), Some(&(2000, 2000)));
    assert!(device.frames.iter().all(|frame| *frame <= 256));
    let target = UploadTarget::Image { image: Some(1), sha: Some(vec![0xab; 32]), upgrade: true };
    let room = capacity(&target, 2000, 256);
    assert_eq!(
        device.uploads[0],
        dict(vec![
            ("image", CborValue::Unsigned(1)),
            ("len", CborValue::Unsigned(2000)),
            ("off", CborValue::Unsigned(0)),
            ("sha", CborValue::Bytes(vec![0xab; 32])),
            ("data", CborValue::Bytes(data[..room].to_vec())),
            ("upgrade", CborValue::Simple(21)),
        ])
    );
    assert_eq!(
        device.uploads[1],
        dict(vec![
            ("off", CborValue::Unsigned(room as u64)),
            ("data", CborValue::Bytes(data[room..2 * room].to_vec())),
        ])
    );

    let mut client = MCUmgrClient::new(FileDevice::default());
    assert_eq!(client.image_upload(&data, None, None, false, &mut NoProgress), Ok(()));
    assert_eq!(client.transport().images[&0], data);
    let plain = UploadTarget::Image { image: None, sha: None, upgrade: false };
    assert_eq!(
        client.transport().uploads[0],
        dict(vec![
            ("len", CborValue::Unsigned(2000)),
            ("off", CborValue::Unsigned(0)),
            ("data", CborValue::Bytes(data[..capacity(&plain, 2000, 256)].to_vec())),
        ])
    );
}

#[test]
fn image_upload_fails_with_the_failure_of_the_upload() {
    let cases: Vec<(FileUploadError, ImageUploadError)> = vec![
        (FileUploadError::Cancelled, ImageUploadError::Cancelled),
        (FileUploadError::FrameSizeTooSmall, ImageUploadError::FrameSizeTooSmall),
        (FileUploadError::OffsetOutOfRange, ImageUploadError::OffsetOutOfRange),
        (FileUploadError::TooManyResends, ImageUploadError::TooManyResends),
        (
            FileUploadError::Execute(ExecuteError::PayloadTooLarge),
            ImageUploadError::Execute(ExecuteError::PayloadTooLarge),
        ),
    ];
    for (upload, image) in cases {
        assert_eq!(ImageUploadError::from_upload(upload), image);
    }
    let mut device = FileDevice::default();
    device.quirks.insert(1, Quirk::Acknowledge(5000));
    let mut client = MCUmgrClient::new(device);
    assert_eq!(
        client.image_upload(&pattern(2000), None, None, false, &mut NoProgress),
        Err(ImageUploadError::OffsetOutOfRange)
    );
    client.set_frame_size(30);
    assert_eq!(
        client.image_upload(&pattern(2000), None, None, false, &mut NoProgress),
        Err(ImageUploadError::FrameSizeTooSmall)
    );
    let mut reports = Reports { heard: Vec::new(), cancel_at: Some(2) };
    let mut client = MCUmgrClient::new(FileDevice::default());
    assert_eq!(
        client.image_upload(&pattern(2000), None, None, false, &mut reports),
        Err(ImageUploadError::Cancelled)
    );
}

#[test]
fn upload_over_a_connection() {
    let data = pattern(300);
    let mut connection = Connection::new(FileDevice::default());
    let mut reports = Reports::default();
    assert_eq!(upload(&mut connection, &file("a"), &data, 128, &mut reports), Ok(()));
    assert_eq!(connection.transport().files["a"], data);
    assert!(connection.transport().frames.iter().all(|frame| *frame <= 128));
    assert_eq!(reports.heard.last(), Some(&(300, 300)));
}

fn device_with(name: &str, content: Vec<u8>, chunk: usize) -> FileDevice {
    let mut device = FileDevice::default();
    device.files.insert(String::from(name), content);
    device.download_chunk = chunk;
    device
}

#[test]
fn download_arrives_whole() {
    for (len, chunk) in [(0, 10), (1, 10), (9, 10), (10, 10), (11, 10), (1000, 64), (1000, 1), (5000, 4000)] {
        let data = pattern(len);
        let mut client = MCUmgrClient::new(device_with("/lfs/a", data.clone(), chunk));
        let mut reports = Reports::default();
        assert_eq!(client.fs_file_download("/lfs/a", &mut reports), Ok(data));
        let device = client.transport();
        let chunks = ((len + chunk - 1) / chunk).max(1);
        let expected: Vec<u64> = (0..chunks).map(|i| (i * chunk) as u64).collect();
        assert_eq!(device.downloads, expected);
        let heard: Vec<(u64, u64)> =
            (1..=chunks).map(|i| ((i * chunk).min(len) as u64, len as u64)).collect();
        assert_eq!(reports.heard, heard);
    }
}

#[test]
fn download_cancelled() {
    let mut client = MCUmgrClient::new(device_with("/lfs/a", pattern(100), 10));
    let mut reports = Reports { heard: Vec::new(), cancel_at: Some(3) };
    assert_eq!(
        client.fs_file_download("/lfs/a", &mut reports),
        Err(FileDownloadError::Cancelled)
    );
    assert_eq!(client.transport().downloads, vec![0, 10, 20]);
    assert_eq!(reports.heard, vec![(10, 100), (20, 100), (30, 100)]);
    let mut client = MCUmgrClient::new(device_with("/lfs/a", pattern(30), 10));
    let mut reports = Reports { heard: Vec::new(), cancel_at: Some(3) };
    assert_eq!(
        client.fs_file_download("/lfs/a", &mut reports),
        Err(FileDownloadError::Cancelled)
    );
}

#[test]
fn download_of_a_file_that_is_not_there() {
    let mut client = MCUmgrClient::new(device_with("/lfs/a", pattern(100), 10));
    assert_eq!(
        client.fs_file_download("/lfs/b", &mut NoProgress),
        Err(FileDownloadError::Execute(ExecuteError::Device(DeviceError::V1 { rc: 5 })))
    );
}

fn download_with(answers: Vec<CborValue>) -> (Result<Vec<u8>, FileDownloadError>, usize) {
    let mut device = FileDevice::default();
    for (i, answer) in answers.into_iter().enumerate() {
        device.quirks.insert(i, Quirk::Answer(answer));
    }
    let mut connection = Connection::new(device);
    let result = download(&mut connection, "/lfs/a", &mut NoProgress);
    (result, connection.transport().frames.len())
}

fn chunk(off: u64, data: &[u8], len: Option<u64>) -> CborValue {
    FileDownloadResponse { off, data: data.to_vec(), len }.to_value()
}

#[test]
fn chunks_that_do_not_fit() {
    assert_eq!(
        download_with(vec![chunk(0, &[1, 2], None)]),
        (Err(FileDownloadError::MissingLength), 1)
    );
    assert_eq!(
        download_with(vec![chunk(1, &[1, 2], Some(2))]),
        (Err(FileDownloadError::UnexpectedOffset), 1)
    );
    assert_eq!(
        download_with(vec![chunk(0, &[1, 2], Some(4)), chunk(3, &[3], None)]),
        (Err(FileDownloadError::UnexpectedOffset), 2)
    );
    assert_eq!(
        download_with(vec![chunk(0, &[1, 2], Some(4)), chunk(0, &[1, 2], Some(4))]),
        (Err(FileDownloadError::UnexpectedOffset), 2)
    );
    assert_eq!(
        download_with(vec![chunk(0, &[1, 2, 3], Some(2))]),
        (Err(FileDownloadError::TooMuchData), 1)
    );
    assert_eq!(
        download_with(vec![chunk(0, &[1, 2], Some(3)), chunk(2, &[3, 4], None)]),
        (Err(FileDownloadError::TooMuchData), 2)
    );
    assert_eq!(
        download_with(vec![chunk(0, &[], Some(3))]),
        (Err(FileDownloadError::EmptyChunk), 1)
    );
    assert_eq!(
        download_with(vec![chunk(0, &[1], Some(3)), chunk(1, &[], None)]),
        (Err(FileDownloadError::EmptyChunk), 2)
    );
    assert_eq!(download_with(vec![chunk(0, &[], Some(0))]), (Ok(vec![]), 1));
    // the length that counts is the one of the first chunk
    assert_eq!(
        download_with(vec![chunk(0, &[1, 2], Some(3)), chunk(2, &[3], Some(100))]),
        (Ok(vec![1, 2, 3]), 2)
    );
    assert!(matches!(
        download_with(vec![dict(vec![("off", CborValue::Unsigned(0))])]),
        (Err(FileDownloadError::Execute(ExecuteError::Codec(_))), 1)
    ));
}

#[test]
fn a_path_that_no_frame_can_hold() {
    let mut client = MCUmgrClient::new(FileDevice::default());
    let name = "n".repeat(70000);
    assert_eq!(
        client.fs_file_download(&name, &mut NoProgress),
        Err(FileDownloadError::NameTooLong)
    );
    assert!(client.transport().frames.is_empty());
}
