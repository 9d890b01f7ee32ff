use std::collections::HashMap;
use zephyr_mcumgr::bootloader::BootloaderType;
use zephyr_mcumgr::cbor::access::{find_bool, find_bytes, find_integer};
use zephyr_mcumgr::cbor::decode::decode;
use zephyr_mcumgr::cbor::encode::encode;
use zephyr_mcumgr::cbor::value::CborValue;
use zephyr_mcumgr::commands::errors::DeviceError;
use zephyr_mcumgr::commands::{CommandIdentity, Direction};
use zephyr_mcumgr::connection::ExecuteError;
use zephyr_mcumgr::frame::{build_response, read_header, Operation, HEADER_LEN};
use zephyr_mcumgr::mcuboot::ImageParseError;
use zephyr_mcumgr::progress::{FirmwareUpdateProgressCallback, NoProgress};
use zephyr_mcumgr::transfer::ImageUploadError;
use zephyr_mcumgr::transport::{Transport, TransportError};
use zephyr_mcumgr::{firmware_update, FirmwareUpdateError, FirmwareUpdateParams, MCUmgrClient};

fn text(s: &str) -> CborValue {
    CborValue::Text(String::from(s))
}

fn dict(entries: Vec<(&str, CborValue)>) -> CborValue {
    CborValue::Dict(entries.into_iter().map(|(k, v)| (text(k), v)).collect())
}

/// What the device was told to do.
#[derive(Clone, Debug, PartialEq)]
enum Told {
    BootloaderInfo,
    Chunk { off: u64, len: usize },
    Test { hash: Vec<u8> },
    Confirm { hash: Vec<u8> },
    Reset,
}

/// A device with a bootloader: it takes an image, marks it and restarts.
struct Board {
    bootloader: String,
    image: Vec<u8>,
    told: Vec<Told>,
    failures: HashMap<usize, CborValue>,
    pending: Option<Vec<u8>>,
}

impl Board {
    fn new(bootloader: &str) -> Self {
        Board {
            bootloader: String::from(bootloader),
            image: Vec::new(),
            told: Vec::new(),
            failures: HashMap::new(),
            pending: None,
        }
    }

    fn chunks(&self) -> usize {
        self.told.iter().filter(|told| matches!(told, Told::Chunk { .. })).count()
    }

    fn without_chunks(&self) -> Vec<Told> {
        self.told.iter().filter(|told| !matches!(told, Told::Chunk { .. })).cloned().collect()
    }
}

impl Transport for Board {
    fn write(&mut self, frame: &[u8]) -> Result<(), TransportError> {
        let header = read_header(frame).unwrap();
        let entries = match decode(&frame[HEADER_LEN..]).unwrap() {
            CborValue::Dict(entries) => entries,
            other => panic!("no map: {:?}", other),
        };
        let direction = match header.op {
            Operation::Read => Direction::Read,
            Operation::Write => Direction::Write,
            other => panic!("a request with operation {:?}", other),
        };
        let number = self.told.len();
        let answer = match (header.group_id, header.command_id, direction) {
            (0, 8, Direction::Read) => {
                assert!(entries.is_empty());
                self.told.push(Told::BootloaderInfo);
                dict(vec![("bootloader", text(&self.bootloader))])
            }
            (1, 1, Direction::Write) => {
                let off = find_integer(&entries, "off", 0, u64::MAX as i128).unwrap().unwrap();
                let data = find_bytes(&entries, "data").unwrap().unwrap();
                self.told.push(Told::Chunk { off: off as u64, len: data.len() });
                if off == 0 {
                    self.image.clear();
                }
                if off as usize == self.image.len() {
                    self.image.extend_from_slice(&data);
                }
                dict(vec![("off", CborValue::Unsigned(self.image.len() as u64))])
            }
            (1, 0, Direction::Write) => {
                let hash = find_bytes(&entries, "hash").unwrap().unwrap();
                if find_bool(&entries, "confirm").unwrap().unwrap_or(false) {
                    self.told.push(Told::Confirm { hash });
                } else {
                    self.told.push(Told::Test { hash });
                }
                dict(vec![("images", CborValue::Array(vec![]))])
            }
            (0, 5, Direction::Write) => {
                assert!(entries.is_empty());
                self.told.push(Told::Reset);
                dict(vec![])
            }
            other => panic!("no such command: {:?}", other),
        };
        let answer = self.failures.get(&number).cloned().unwrap_or(answer);
        let identity =
            CommandIdentity { group_id: header.group_id, command_id: header.command_id, direction };
        self.pending = Some(build_response(&identity, header.sequence, &encode(&answer)));
        Ok(())
    }

    fn read(&mut self) -> Result<Vec<u8>, TransportError> {
        self.pending.take().ok_or(TransportError::Timeout)
    }
}

/// A callback that writes down what it hears and cancels at a given call.
#[derive(Default)]
struct Steps {
    heard: Vec<(String, Option<(u64, u64)>)>,
    cancel_at: Option<usize>,
}

impl Steps {
    fn labels(&self) -> Vec<&str> {
        let mut labels: Vec<&str> = Vec::new();
        for (label, _) in self.heard.iter() {
            if labels.last() != Some(&label.as_str()) {
                labels.push(label);
            }
        }
        labels
    }
}

impl FirmwareUpdateProgressCallback for Steps {
    fn report_step(&mut self, label: &str, progress: Option<(u64, u64)>) -> bool {
        self.heard.push((String::from(label), progress));
        Some(self.heard.len()) != self.cancel_at
    }
}

fn hash() -> Vec<u8> {
    (1..=32).collect()
}

fn firmware(body: usize) -> Vec<u8> {
    let mut bytes: Vec<u8> = Vec::new();
    bytes.extend_from_slice(&0x96f3b83du32.to_le_bytes());
    bytes.extend_from_slice(&[0; 4]);
    bytes.extend_from_slice(&32u16.to_le_bytes());
    bytes.extend_from_slice(&0u16.to_le_bytes());
    bytes.extend_from_slice(&(body as u32).to_le_bytes());
    bytes.extend_from_slice(&[0; 4]);
    bytes.extend_from_slice(&[1, 2, 3, 0, 4, 0, 0, 0]);
    bytes.extend_from_slice(&[0; 4]);
    bytes.extend((0..body).map(|i| (i % 253) as u8));
    bytes.extend_from_slice(&0x6907u16.to_le_bytes());
    bytes.extend_from_slice(&40u16.to_le_bytes());
    bytes.extend_from_slice(&0x10u16.to_le_bytes());
    bytes.extend_from_slice(&32u16.to_le_bytes());
    bytes.extend_from_slice(&hash());
    bytes
}

fn params(bootloader: Option<BootloaderType>, skip_reboot: bool, force_confirm: bool) -> FirmwareUpdateParams {
    FirmwareUpdateParams { bootloader_type: bootloader, skip_reboot, force_confirm }
}

fn update(
    board: Board,
    image: &[u8],
    params: FirmwareUpdateParams,
    steps: &mut Steps,
) -> (Result<(), FirmwareUpdateError>, MCUmgrClient<Board>) {
    let mut client = MCUmgrClient::new(board);
    let result = firmware_update(&mut client, image, params, steps);
    (result, client)
}

#[test]
fn default_parameters() {
    let params = FirmwareUpdateParams::default();
    assert_eq!(params.bootloader_type, None);
    assert!(!params.skip_reboot);
    assert!(!params.force_confirm);
}

#[test]
fn update_by_default() {
    let image = firmware(1000);
    let mut steps = Steps::default();
    let (result, client) = update(Board::new("MCUboot"), &image, FirmwareUpdateParams::default(), &mut steps);
    assert_eq!(result, Ok(()));
    let board = client.transport();
    assert_eq!(board.image, image);
    assert_eq!(
        board.without_chunks(),
        vec![Told::BootloaderInfo, Told::Test { hash: hash() }, Told::Reset]
    );
    assert_eq!(board.told[0], Told::BootloaderInfo);
    assert!(board.told[1..board.told.len() - 2].iter().all(|told| matches!(told, Told::Chunk { .. })));
    assert!(board.chunks() > 1);
    assert_eq!(
        steps.labels(),
        vec!["Detecting bootloader", "Uploading image", "Marking image for test", "Rebooting device"]
    );
    assert_eq!(steps.heard[0], (String::from("Detecting bootloader"), None));
    assert_eq!(steps.heard[1], (String::from("Uploading image"), None));
    let total = image.len() as u64;
    assert_eq!(steps.heard.len(), 4 + board.chunks());
    for (i, (label, progress)) in steps.heard[2..2 + board.chunks()].iter().enumerate() {
        assert_eq!(label, "Uploading image");
        let (current, of) = progress.unwrap();
        assert_eq!(of, total);
        match board.told[1 + i] {
            Told::Chunk { off, len } => assert_eq!(current, off + len as u64),
            ref other => panic!("no chunk: {:?}", other),
        }
    }
    assert_eq!(steps.heard[1 + board.chunks()].1, Some((total, total)));
    assert_eq!(steps.heard[steps.heard.len() - 2], (String::from("Marking image for test"), None));
    assert_eq!(steps.heard[steps.heard.len() - 1], (String::from("Rebooting device"), None));
}

#[test]
fn force_confirm_confirms_and_never_tests() {
    for skip_reboot in [false, true] {
        let image = firmware(700);
        let mut steps = Steps::default();
        let (result, client) =
            update(Board::new("MCUboot"), &image, params(None, skip_reboot, true), &mut steps);
        assert_eq!(result, Ok(()));
        let board = client.transport();
        assert!(!board.told.iter().any(|told| matches!(told, Told::Test { .. })));
        assert_eq!(
            board.told.iter().filter(|told| matches!(told, Told::Confirm { .. })).count(),
            1
        );
        assert!(board.told.contains(&Told::Confirm { hash: hash() }));
        assert_eq!(board.image, image);
        assert!(steps.labels().contains(&"Confirming image"));
        assert!(!steps.labels().contains(&"Marking image for test"));
    }
}

#[test]
fn skip_reboot_sends_no_reset_and_ends_well() {
    for force_confirm in [false, true] {
        let image = firmware(700);
        let mut steps = Steps::default();
        let (result, client) =
            update(Board::new("MCUboot"), &image, params(None, true, force_confirm), &mut steps);
        assert_eq!(result, Ok(()));
        let board = client.transport();
        assert!(!board.told.contains(&Told::Reset));
        assert_eq!(board.image, image);
        assert!(!steps.labels().contains(&"Rebooting device"));
        let last = board.told.last().unwrap();
        if force_confirm {
            assert_eq!(*last, Told::Confirm { hash: hash() });
        } else {
            assert_eq!(*last, Told::Test { hash: hash() });
        }
    }
}

#[test]
fn every_combination_of_flags() {
    for (skip_reboot, force_confirm) in [(false, false), (false, true), (true, false), (true, true)] {
        let image = firmware(100);
        let (result, client) = update(
            Board::new("MCUboot"),
            &image,
            params(Some(BootloaderType::MCUboot), skip_reboot, force_confirm),
            &mut Steps::default(),
        );
        assert_eq!(result, Ok(()));
        let mut expected: Vec<Told> = Vec::new();
        expected.push(if force_confirm {
            Told::Confirm { hash: hash() }
        } else {
            Told::Test { hash: hash() }
        });
        if !skip_reboot {
            expected.push(Told::Reset);
        }
        assert_eq!(client.transport().without_chunks(), expected);
    }
}

#[test]
fn a_named_bootloader_is_not_asked_for() {
    let image = firmware(100);
    let (result, client) = update(
        Board::new("anything"),
        &image,
        params(Some(BootloaderType::MCUboot), false, false),
        &mut Steps::default(),
    );
    assert_eq!(result, Ok(()));
    assert!(!client.transport().told.contains(&Told::BootloaderInfo));
}

#[test]
fn another_bootloader() {
    let image = firmware(100);
    let mut steps = Steps::default();
    let (result, client) = update(Board::new("U-Boot"), &image, FirmwareUpdateParams::default(), &mut steps);
    assert_eq!(result, Err(FirmwareUpdateError::BootloaderNotSupported));
    assert_eq!(client.transport().told, vec![Told::BootloaderInfo]);
    assert_eq!(steps.labels(), vec!["Detecting bootloader"]);

    let other = BootloaderType::Other(String::from("mine"));
    let (result, client) =
        update(Board::new("MCUboot"), &image, params(Some(other), false, false), &mut Steps::default());
    assert_eq!(result, Err(FirmwareUpdateError::BootloaderNotSupported));
    assert!(client.transport().told.is_empty());
}

#[test]
fn names_of_bootloaders() {
    assert_eq!(BootloaderType::from_name("MCUboot"), BootloaderType::MCUboot);
    assert_eq!(BootloaderType::from_name("mcuboot"), BootloaderType::Other(String::from("mcuboot")));
    assert_eq!(BootloaderType::from_name(""), BootloaderType::Other(String::new()));
    assert_eq!(BootloaderType::from_name("MCUboot "), BootloaderType::Other(String::from("MCUboot ")));
    assert_eq!(BootloaderType::parse("MCUboot"), Some(BootloaderType::MCUboot));
    assert_eq!(BootloaderType::parse("MCUBoot"), None);
    assert_eq!(BootloaderType::parse(""), None);
}

#[test]
fn firmware_that_is_no_image_is_not_sent() {
    let good = firmware(100);
    let mut bad_magic = good.clone();
    bad_magic[0] ^= 0xff;
    let mut old = good.clone();
    old[0] = 0x3c;
    let cases: Vec<(Vec<u8>, ImageParseError)> = vec![
        (vec![], ImageParseError::Truncated),
        (good[..31].to_vec(), ImageParseError::Truncated),
        (bad_magic, ImageParseError::BadMagic),
        (old, ImageParseError::UnsupportedVersion),
        (good[..good.len() - 1].to_vec(), ImageParseError::Truncated),
        (good[..132].to_vec(), ImageParseError::Truncated),
    ];
    for (image, reason) in cases {
        for bootloader in [None, Some(BootloaderType::MCUboot)] {
            let asked = bootloader.is_none();
            let mut steps = Steps::default();
            let (result, client) =
                update(Board::new("MCUboot"), &image, params(bootloader, false, false), &mut steps);
            assert_eq!(result, Err(FirmwareUpdateError::InvalidImage(reason)));
            let board = client.transport();
            assert_eq!(board.chunks(), 0);
            assert!(board.image.is_empty());
            assert_eq!(board.told, if asked { vec![Told::BootloaderInfo] } else { vec![] });
            assert_eq!(steps.labels(), vec!["Detecting bootloader"]);
        }
    }
}

#[test]
fn cancelled_at_every_step() {
    let image = firmware(600);
    let (_, client) = update(Board::new("MCUboot"), &image, FirmwareUpdateParams::default(), &mut Steps::default());
    let chunks = client.transport().chunks();
    let reports = 4 + chunks;
    for cancel_at in 1..=reports {
        let mut steps = Steps { heard: Vec::new(), cancel_at: Some(cancel_at) };
        let (result, client) =
            update(Board::new("MCUboot"), &image, FirmwareUpdateParams::default(), &mut steps);
        assert_eq!(result, Err(FirmwareUpdateError::ProgressCallbackError));
        assert_eq!(steps.heard.len(), cancel_at);
        let board = client.transport();
        let expected = if cancel_at == 1 {
            0
        } else if cancel_at == 2 {
            1
        } else if cancel_at <= 2 + chunks {
            1 + (cancel_at - 2)
        } else if cancel_at == 3 + chunks {
            1 + chunks
        } else {
            2 + chunks
        };
        assert_eq!(board.told.len(), expected, "cancelled at report {}", cancel_at);
        assert!(!board.told.contains(&Told::Reset));
    }
}

#[test]
fn the_step_that_failed_is_told() {
    let image = firmware(600);
    let failure = dict(vec![("rc", CborValue::Unsigned(7))]);
    let device = ExecuteError::Device(DeviceError::V1 { rc: 7 });
    let (_, client) = update(Board::new("MCUboot"), &image, FirmwareUpdateParams::default(), &mut Steps::default());
    let last = client.transport().told.len() - 1;

    let mut board = Board::new("MCUboot");
    board.failures.insert(0, failure.clone());
    let (result, client) = update(board, &image, FirmwareUpdateParams::default(), &mut Steps::default());
    assert_eq!(result, Err(FirmwareUpdateError::BootloaderDetectionFailed(device.clone())));
    assert_eq!(client.transport().told.len(), 1);

    let mut board = Board::new("MCUboot");
    board.failures.insert(0, dict(vec![("bootloader", CborValue::Unsigned(1))]));
    let (result, _) = update(board, &image, FirmwareUpdateParams::default(), &mut Steps::default());
    assert!(matches!(
        result,
        Err(FirmwareUpdateError::BootloaderDetectionFailed(ExecuteError::Codec(_)))
    ));

    let mut board = Board::new("MCUboot");
    board.failures.insert(2, failure.clone());
    let (result, client) = update(board, &image, FirmwareUpdateParams::default(), &mut Steps::default());
    assert_eq!(
        result,
        Err(FirmwareUpdateError::ImageUploadFailed(ImageUploadError::Execute(device.clone())))
    );
    assert_eq!(client.transport().told.len(), 3);

    let mut board = Board::new("MCUboot");
    board.failures.insert(last - 1, failure.clone());
    let (result, client) = update(board, &image, FirmwareUpdateParams::default(), &mut Steps::default());
    assert_eq!(result, Err(FirmwareUpdateError::SetStateFailed(device.clone())));
    assert!(!client.transport().told.contains(&Told::Reset));

    let mut board = Board::new("MCUboot");
    board.failures.insert(last, failure.clone());
    let (result, client) = update(board, &image, FirmwareUpdateParams::default(), &mut Steps::default());
    assert_eq!(result, Err(FirmwareUpdateError::RebootFailed(device)));
    assert_eq!(client.transport().told.len(), last + 1);
}

#[test]
fn a_frame_size_without_room() {
    let image = firmware(600);
    let mut client = MCUmgrClient::new(Board::new("MCUboot"));
    client.set_frame_size(40);
    let mut steps = Steps::default();
    assert_eq!(
        firmware_update(&mut client, &image, FirmwareUpdateParams::default(), &mut steps),
        Err(FirmwareUpdateError::ImageUploadFailed(ImageUploadError::FrameSizeTooSmall))
    );
    assert_eq!(client.transport().told, vec![Told::BootloaderInfo]);
    assert_eq!(steps.labels(), vec!["Detecting bootloader", "Uploading image"]);
    assert_eq!(client.smp_frame_size, 40);
}

#[test]
fn update_without_a_callback() {
    let image = firmware(3000);
    let mut client = MCUmgrClient::new(Board::new("MCUboot"));
    client.set_frame_size(1024);
    assert_eq!(
        firmware_update(&mut client, &image, FirmwareUpdateParams::default(), &mut NoProgress),
        Ok(())
    );
    assert_eq!(client.transport().image, image);
    assert_eq!(client.transport().chunks(), 4);
}

#[test]
fn a_device_that_asks_for_bytes_again() {
    let image = firmware(600);
    let mut board = Board::new("MCUboot");
    board.failures.insert(2, dict(vec![("off", CborValue::Unsigned(10))]));
    let (result, client) = update(board, &image, FirmwareUpdateParams::default(), &mut Steps::default());
    let board = client.transport();
    match (&board.told[2], &board.told[3]) {
        (Told::Chunk { .. }, Told::Chunk { off, .. }) => assert_eq!(*off, 10),
        other => panic!("no chunks: {:?}", other),
    }
    // the device drops the chunk that it asked for again and says how far it is
    assert_eq!(result, Ok(()));
    assert_eq!(board.image, image);
    assert_eq!(board.without_chunks(), vec![Told::BootloaderInfo, Told::Test { hash: hash() }, Told::Reset]);
}
