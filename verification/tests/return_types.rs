use zephyr_mcumgr::commands::fs::{
    FileChecksumData, FileChecksumResponse, FileStatusResponse, SupportedFileChecksumDataFormat,
    SupportedFileChecksumTypesEntry,
};
use zephyr_mcumgr::return_types::{
    FileHashChecksum, FileStatus, HashChecksumDataFormat, HashChecksumProperties,
};

#[test]
fn status_of_a_file() {
    assert_eq!(FileStatus::from(FileStatusResponse { len: 0 }), FileStatus { length: 0 });
    assert_eq!(
        FileStatus::from(FileStatusResponse { len: u64::MAX }),
        FileStatus { length: u64::MAX }
    );
}

#[test]
fn bytes_of_a_hash() {
    let record = FileHashChecksum::from_response(FileChecksumResponse {
        kind: String::from("sha256"),
        off: 3,
        len: 100,
        output: FileChecksumData::Hash(vec![9, 8, 7]),
    });
    assert_eq!(
        record,
        FileHashChecksum {
            kind: String::from("sha256"),
            offset: 3,
            length: 100,
            output: vec![9, 8, 7],
        }
    );
}

#[test]
fn bytes_of_a_checksum() {
    let record = |number: u32| {
        FileHashChecksum::from_response(FileChecksumResponse {
            kind: String::from("crc32"),
            off: 0,
            len: 1,
            output: FileChecksumData::Checksum(number),
        })
        .output
    };
    assert_eq!(record(0x1234_5678), vec![0x12, 0x34, 0x56, 0x78]);
    assert_eq!(record(0), vec![0, 0, 0, 0]);
    assert_eq!(record(1), vec![0, 0, 0, 1]);
    assert_eq!(record(0xff00_0000), vec![0xff, 0, 0, 0]);
    assert_eq!(record(u32::MAX), vec![0xff; 4]);
    assert_eq!(record(0xdead_beef), 0xdead_beefu32.to_be_bytes().to_vec());
}

#[test]
fn properties_of_a_checksum() {
    assert_eq!(
        HashChecksumProperties::from(SupportedFileChecksumTypesEntry {
            format: SupportedFileChecksumDataFormat::Numerical,
            size: 4,
        }),
        HashChecksumProperties { format: HashChecksumDataFormat::Numerical, size: 4 }
    );
    assert_eq!(
        HashChecksumProperties::from(SupportedFileChecksumTypesEntry {
            format: SupportedFileChecksumDataFormat::ByteArray,
            size: 32,
        }),
        HashChecksumProperties { format: HashChecksumDataFormat::ByteArray, size: 32 }
    );
}
