use std::collections::VecDeque;
use zephyr_mcumgr::cbor::decode::{decode, CodecError};
use zephyr_mcumgr::cbor::encode::encode;
use zephyr_mcumgr::cbor::value::CborValue;
use zephyr_mcumgr::commands::errors::DeviceError;
use zephyr_mcumgr::commands::fs::{
    FileChecksumData, FileChecksumResponse, FileStatusResponse, SupportedFileChecksumDataFormat,
    SupportedFileChecksumTypesEntry,
};
use zephyr_mcumgr::commands::os::{Echo, MCUmgrParametersResponse, TaskStatisticsEntry};
use zephyr_mcumgr::commands::raw::{RawCommand, RawCommandOp};
use zephyr_mcumgr::commands::{CommandIdentity, Direction};
use zephyr_mcumgr::connection::{read_response_item, Connection, ExecuteError};
use zephyr_mcumgr::frame::{build_response, read_header, Malformed, Operation, HEADER_LEN};
use zephyr_mcumgr::transport::{Transport, TransportError};
use zephyr_mcumgr::MCUmgrClient;

fn text(s: &str) -> CborValue {
    CborValue::Text(String::from(s))
}

fn dict(entries: Vec<(&str, CborValue)>) -> CborValue {
    CborValue::Dict(entries.into_iter().map(|(k, v)| (text(k), v)).collect())
}

/// A transport that hands out the frames it was given, one per read.
#[derive(Default)]
struct Scripted {
    written: Vec<Vec<u8>>,
    replies: VecDeque<Result<Vec<u8>, TransportError>>,
    write_failure: Option<TransportError>,
}

impl Transport for Scripted {
    fn write(&mut self, frame: &[u8]) -> Result<(), TransportError> {
        match self.write_failure.take() {
            Some(failure) => Err(failure),
            None => {
                self.written.push(frame.to_vec());
                Ok(())
            }
        }
    }

    fn read(&mut self) -> Result<Vec<u8>, TransportError> {
        self.replies.pop_front().unwrap_or(Err(TransportError::EndOfStream))
    }
}

/// A device that answers each request with the payload that is next, under
/// the identity and the sequence token of the request.
#[derive(Default)]
struct Answering {
    requests: Vec<(CommandIdentity, u8, CborValue)>,
    answers: VecDeque<CborValue>,
    pending: Option<Vec<u8>>,
}

impl Answering {
    fn with(answers: Vec<CborValue>) -> Self {
        Answering { requests: Vec::new(), answers: answers.into(), pending: None }
    }
}

impl Transport for Answering {
    fn write(&mut self, frame: &[u8]) -> Result<(), TransportError> {
        let header = read_header(frame).unwrap();
        assert_eq!(header.version, 1);
        assert_eq!(header.flags, 0);
        assert_eq!(header.data_length as usize, frame.len() - HEADER_LEN);
        let direction = match header.op {
            Operation::Read => Direction::Read,
            Operation::Write => Direction::Write,
            other => panic!("a request with operation {:?}", other),
        };
        let identity =
            CommandIdentity { group_id: header.group_id, command_id: header.command_id, direction };
        self.requests.push((identity, header.sequence, decode(&frame[HEADER_LEN..]).unwrap()));
        let answer = self.answers.pop_front().expect("an answer");
        self.pending = Some(build_response(&identity, header.sequence, &encode(&answer)));
        Ok(())
    }

    fn read(&mut self) -> Result<Vec<u8>, TransportError> {
        self.pending.take().ok_or(TransportError::Timeout)
    }
}

/// A transport that counts its calls and fails as it is told.
#[derive(Default)]
struct Counting {
    writes: usize,
    reads: usize,
    fail_write: bool,
}

impl Transport for Counting {
    fn write(&mut self, _frame: &[u8]) -> Result<(), TransportError> {
        self.writes += 1;
        if self.fail_write {
            Err(TransportError::Timeout)
        } else {
            Ok(())
        }
    }

    fn read(&mut self) -> Result<Vec<u8>, TransportError> {
        self.reads += 1;
        Err(TransportError::EndOfStream)
    }
}

fn echo() -> CommandIdentity {
    CommandIdentity { group_id: 0, command_id: 0, direction: Direction::Read }
}

#[test]
fn payload_comes_back() {
    let mut transport = Scripted::default();
    transport.replies.push_back(Ok(build_response(&echo(), 0, &[0xa0])));
    transport.replies.push_back(Ok(build_response(&echo(), 1, &[1, 2, 3])));
    let mut connection = Connection::new(transport);
    assert_eq!(connection.execute(echo(), &[0xa1, 0x01, 0x02]), Ok(vec![0xa0]));
    assert_eq!(connection.execute(echo(), &[]), Ok(vec![1, 2, 3]));
    let transport = connection.into_transport();
    assert_eq!(
        transport.written,
        vec![
            vec![0x08, 0, 0, 3, 0, 0, 0, 0, 0xa1, 0x01, 0x02],
            vec![0x08, 0, 0, 0, 0, 0, 1, 0],
        ]
    );
}

#[test]
fn sequence_tokens_count_up_and_start_over() {
    let mut transport = Scripted::default();
    for i in 0..=257u32 {
        transport.replies.push_back(Ok(build_response(&echo(), (i % 256) as u8, &[])));
    }
    let mut connection = Connection::new(transport);
    for _ in 0..=257u32 {
        assert_eq!(connection.execute(echo(), &[]), Ok(vec![]));
    }
    let written = &connection.transport().written;
    assert_eq!(written.len(), 258);
    for (i, frame) in written.iter().enumerate() {
        assert_eq!(frame[6], (i % 256) as u8);
    }
}

#[test]
fn a_failed_exchange_uses_up_its_token() {
    let mut transport = Scripted::default();
    transport.write_failure = Some(TransportError::Timeout);
    transport.replies.push_back(Ok(build_response(&echo(), 1, &[])));
    let mut connection = Connection::new(transport);
    assert_eq!(
        connection.execute(echo(), &[]),
        Err(ExecuteError::Transport(TransportError::Timeout))
    );
    assert_eq!(connection.execute(echo(), &[]), Ok(vec![]));
}

#[test]
fn transport_failures() {
    let mut transport = Scripted::default();
    transport.write_failure = Some(TransportError::Other(String::from("unplugged")));
    let mut connection = Connection::new(transport);
    assert_eq!(
        connection.execute(echo(), &[]),
        Err(ExecuteError::Transport(TransportError::Other(String::from("unplugged"))))
    );
    assert!(connection.transport().written.is_empty());

    let mut transport = Scripted::default();
    transport.replies.push_back(Err(TransportError::Timeout));
    let mut connection = Connection::new(transport);
    assert_eq!(
        connection.execute(echo(), &[]),
        Err(ExecuteError::Transport(TransportError::Timeout))
    );
    assert_eq!(
        connection.execute(echo(), &[]),
        Err(ExecuteError::Transport(TransportError::EndOfStream))
    );
    assert_eq!(connection.transport().written.len(), 2);
}

#[test]
fn malformed_responses() {
    let cases: Vec<(Vec<u8>, Malformed)> = vec![
        (vec![], Malformed::TooShort),
        (vec![0x09, 0, 0, 0, 0, 0, 0], Malformed::TooShort),
        (vec![0x0f, 0, 0, 0, 0, 0, 0, 0], Malformed::UnknownOperation),
        (vec![0x09, 0, 0, 1, 0, 0, 0, 0], Malformed::LengthMismatch),
        (vec![0x08, 0, 0, 0, 0, 0, 0, 0], Malformed::WrongOperation),
        (vec![0x0b, 0, 0, 0, 0, 0, 0, 0], Malformed::WrongOperation),
        (vec![0x09, 0, 0, 0, 0, 1, 0, 0], Malformed::WrongCommand),
        (vec![0x09, 0, 0, 0, 0, 0, 0, 1], Malformed::WrongCommand),
        (vec![0x09, 0, 0, 0, 0, 0, 1, 0], Malformed::WrongSequence),
    ];
    for (frame, expected) in cases {
        let mut transport = Scripted::default();
        transport.replies.push_back(Ok(frame));
        let mut connection = Connection::new(transport);
        assert_eq!(connection.execute(echo(), &[]), Err(ExecuteError::Malformed(expected)));
    }
}

#[test]
fn a_payload_that_no_frame_can_hold() {
    let mut connection = Connection::new(Scripted::default());
    let payload = vec![0u8; 0x1_0000];
    assert_eq!(connection.execute(echo(), &payload), Err(ExecuteError::PayloadTooLarge));
    assert!(connection.transport().written.is_empty());
    let mut transport = Scripted::default();
    transport.replies.push_back(Ok(build_response(&echo(), 0, &[])));
    let mut connection = Connection::new(transport);
    assert_eq!(connection.execute(echo(), &payload[..0xffff]), Ok(vec![]));
    assert_eq!(connection.transport().written[0].len(), 8 + 0xffff);
}

#[test]
fn item_of_a_response() {
    assert_eq!(read_response_item(&[0xa0]), Ok(CborValue::Dict(vec![])));
    assert_eq!(read_response_item(&[0x01]), Ok(CborValue::Unsigned(1)));
    assert_eq!(read_response_item(&[]), Err(ExecuteError::Codec(CodecError::Malformed)));
    assert_eq!(read_response_item(&[0xa1, 0x01]), Err(ExecuteError::Codec(CodecError::Malformed)));
    assert_eq!(
        read_response_item(&encode(&dict(vec![("rc", CborValue::Unsigned(5))]))),
        Err(ExecuteError::Device(DeviceError::V1 { rc: 5 }))
    );
    assert_eq!(
        read_response_item(&encode(&dict(vec![("rc", CborValue::Unsigned(0))]))),
        Ok(dict(vec![("rc", CborValue::Unsigned(0))]))
    );
    assert_eq!(
        read_response_item(&encode(&dict(vec![(
            "err",
            dict(vec![("group", CborValue::Unsigned(8)), ("rc", CborValue::Unsigned(2))])
        )]))),
        Err(ExecuteError::Device(DeviceError::V2 { group: 8, rc: 2 }))
    );
    assert_eq!(
        read_response_item(&encode(&dict(vec![("rc", text("no"))]))),
        Err(ExecuteError::Codec(CodecError::Mismatch))
    );
}

#[test]
fn a_device_error_comes_before_the_shape_of_the_response() {
    let mut connection = Connection::new(Answering::with(vec![
        dict(vec![("rc", CborValue::Unsigned(3))]),
        dict(vec![("x", CborValue::Unsigned(3))]),
        dict(vec![("r", CborValue::Unsigned(3)), ("rc", CborValue::Unsigned(4))]),
    ]));
    let command = Echo { d: String::from("x") };
    assert_eq!(
        connection.execute_command(&command),
        Err(ExecuteError::Device(DeviceError::V1 { rc: 3 }))
    );
    assert_eq!(
        connection.execute_command(&command),
        Err(ExecuteError::Codec(CodecError::Mismatch))
    );
    assert_eq!(
        connection.execute_command(&command),
        Err(ExecuteError::Device(DeviceError::V1 { rc: 4 }))
    );
}

#[test]
fn commands_of_the_client() {
    let answers = vec![
        dict(vec![("buf_size", CborValue::Unsigned(1024)), ("buf_count", CborValue::Unsigned(2))]),
        dict(vec![(
            "tasks",
            dict(vec![(
                "idle",
                dict(vec![
                    ("prio", CborValue::Unsigned(15)),
                    ("tid", CborValue::Unsigned(1)),
                    ("state", CborValue::Unsigned(2)),
                ]),
            )]),
        )]),
        dict(vec![("bootloader", text("MCUboot"))]),
        dict(vec![]),
        dict(vec![]),
        dict(vec![("len", CborValue::Unsigned(77))]),
        dict(vec![
            ("type", text("crc32")),
            ("len", CborValue::Unsigned(77)),
            ("output", CborValue::Unsigned(0xdeadbeef)),
        ]),
        dict(vec![(
            "types",
            dict(vec![(
                "crc32",
                dict(vec![("format", CborValue::Unsigned(0)), ("size", CborValue::Unsigned(4))]),
            )]),
        )]),
        dict(vec![]),
        dict(vec![("o", text("ok\n")), ("ret", CborValue::Unsigned(0))]),
        dict(vec![("any", CborValue::Array(vec![CborValue::Simple(22)]))]),
    ];
    let mut client = MCUmgrClient::new(Answering::with(answers));
    assert_eq!(
        client.os_mcumgr_parameters(),
        Ok(MCUmgrParametersResponse { buf_size: 1024, buf_count: 2 })
    );
    assert_eq!(
        client.os_task_statistics().unwrap().tasks,
        vec![(
            String::from("idle"),
            TaskStatisticsEntry {
                prio: 15,
                tid: 1,
                state: 2,
                stkuse: None,
                stksiz: None,
                cswcnt: None,
                runtime: None,
            }
        )]
    );
    assert_eq!(client.os_bootloader_info().unwrap().bootloader, "MCUboot");
    assert_eq!(client.os_system_reset(true, None), Ok(()));
    assert_eq!(client.image_state_write(Some(vec![7; 32]), true), Ok(()));
    assert_eq!(client.fs_file_status("/lfs/a"), Ok(FileStatusResponse { len: 77 }));
    assert_eq!(
        client.fs_file_checksum("/lfs/a", Some("crc32"), 0, None),
        Ok(FileChecksumResponse {
            kind: String::from("crc32"),
            off: 0,
            len: 77,
            output: FileChecksumData::Checksum(0xdeadbeef),
        })
    );
    assert_eq!(
        client.fs_supported_checksum_types().unwrap().types,
        vec![(
            String::from("crc32"),
            SupportedFileChecksumTypesEntry {
                format: SupportedFileChecksumDataFormat::Numerical,
                size: 4
            }
        )]
    );
    assert_eq!(client.fs_file_close(), Ok(()));
    let shell = client.shell_execute(vec![String::from("echo"), String::from("ok")]).unwrap();
    assert_eq!((shell.ret, shell.o.as_str()), (0, "ok\n"));
    let raw = RawCommand {
        op: RawCommandOp::Write,
        group_id: 64,
        command_id: 3,
        data: dict(vec![("x", CborValue::Unsigned(1))]),
    };
    assert_eq!(
        client.raw_command(&raw),
        Ok(dict(vec![("any", CborValue::Array(vec![CborValue::Simple(22)]))]))
    );

    let read = |group_id: u16, command_id: u8| CommandIdentity {
        group_id,
        command_id,
        direction: Direction::Read,
    };
    let write = |group_id: u16, command_id: u8| CommandIdentity {
        group_id,
        command_id,
        direction: Direction::Write,
    };
    let expected: Vec<(CommandIdentity, CborValue)> = vec![
        (read(0, 6), dict(vec![])),
        (read(0, 2), dict(vec![])),
        (read(0, 8), dict(vec![])),
        (write(0, 5), dict(vec![("force", CborValue::Simple(21))])),
        (
            write(1, 0),
            dict(vec![("hash", CborValue::Bytes(vec![7; 32])), ("confirm", CborValue::Simple(21))]),
        ),
        (read(8, 1), dict(vec![("name", text("/lfs/a"))])),
        (read(8, 2), dict(vec![("name", text("/lfs/a")), ("type", text("crc32"))])),
        (read(8, 3), dict(vec![])),
        (write(8, 4), dict(vec![])),
        (write(9, 0), dict(vec![("argv", CborValue::Array(vec![text("echo"), text("ok")]))])),
        (write(64, 3), dict(vec![("x", CborValue::Unsigned(1))])),
    ];
    let requests = &client.transport().requests;
    assert_eq!(requests.len(), expected.len());
    for (i, (request, expected)) in requests.iter().zip(expected.iter()).enumerate() {
        assert_eq!(request.0, expected.0);
        assert_eq!(request.1, i as u8);
        assert_eq!(request.2, expected.1);
    }
}

#[test]
fn frame_size_of_the_client() {
    let mut client = MCUmgrClient::new(Answering::with(vec![
        dict(vec![("buf_size", CborValue::Unsigned(2475)), ("buf_count", CborValue::Unsigned(4))]),
        dict(vec![("rc", CborValue::Unsigned(8))]),
    ]));
    assert_eq!(client.smp_frame_size, 256);
    client.set_frame_size(512);
    assert_eq!(client.smp_frame_size, 512);
    assert_eq!(client.use_auto_frame_size(), Ok(()));
    assert_eq!(client.smp_frame_size, 2475);
    assert_eq!(
        client.use_auto_frame_size(),
        Err(ExecuteError::Device(DeviceError::V1 { rc: 8 }))
    );
    assert_eq!(client.smp_frame_size, 2475);
}

#[test]
fn nothing_is_tried_again() {
    let mut connection = Connection::new(Counting { fail_write: true, ..Counting::default() });
    assert_eq!(
        connection.execute(echo(), &[1, 2, 3]),
        Err(ExecuteError::Transport(TransportError::Timeout))
    );
    assert_eq!(connection.transport().writes, 1);
    assert_eq!(connection.transport().reads, 0);

    let mut connection = Connection::new(Counting::default());
    assert_eq!(
        connection.execute(echo(), &[1, 2, 3]),
        Err(ExecuteError::Transport(TransportError::EndOfStream))
    );
    assert_eq!(connection.transport().writes, 1);
    assert_eq!(connection.transport().reads, 1);

    let mut connection = Connection::new(Counting::default());
    assert_eq!(
        connection.execute(echo(), &vec![0u8; 0x10000]),
        Err(ExecuteError::PayloadTooLarge)
    );
    assert_eq!(connection.transport().writes, 0);
    assert_eq!(connection.transport().reads, 0);
}
