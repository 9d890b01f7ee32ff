//! What the commands give, as plain records for callers in other
//! languages.
use crate::cbor::head::{be_bytes, push_be};
use crate::commands::fs::{
    FileChecksumData, FileChecksumDataView, FileChecksumResponse, FileStatusResponse,
    SupportedFileChecksumDataFormat, SupportedFileChecksumTypesEntry,
};
use vstd::prelude::*;
use vstd::slice::slice_to_vec;
use vstd::std_specs::convert::FromSpecImpl;

verus! {

/// The status of a file.
#[derive(Debug, Clone, Copy, PartialEq, Eq)]
pub struct FileStatus {
    /// The length of the file in bytes.
    pub length: u64,
}

impl From<FileStatusResponse> for FileStatus {
    fn from(value: FileStatusResponse) -> (status: Self) {
        FileStatus { length: value.len }
    }
}

impl FromSpecImpl<FileStatusResponse> for FileStatus {
    open spec fn obeys_from_spec() -> bool {
        true
    }

    open spec fn from_spec(value: FileStatusResponse) -> Self {
        FileStatus { length: value.len }
    }
}

/// The hash or the checksum of a file.
#[derive(Debug, Clone, PartialEq, Eq)]
pub struct FileHashChecksum {
    /// The name of the hash or checksum.
    pub kind: String,
    /// The offset that was started at.
    pub offset: u64,
    /// The number of bytes that were taken in.
    pub length: u64,
    /// The hash, or the four bytes of the checksum, most significant
    /// first.
    pub output: Vec<u8>,
}

/// The bytes of a hash or a checksum: those of the hash, or the four of
/// the checksum, most significant first.
pub open spec fn output_bytes(output: FileChecksumDataView) -> Seq<u8> {
    match output {
        FileChecksumDataView::Hash(bytes) => bytes,
        FileChecksumDataView::Checksum(number) => be_bytes(number as nat, 4),
    }
}

impl FileHashChecksum {
    /// The record of a response.
    pub fn from_response(value: FileChecksumResponse) -> (record: Self)
        ensures
            record.kind@ == value.kind@,
            record.offset == value.off,
            record.length == value.len,
            record.output@ == output_bytes(value.output@),
    {
        let output = match &value.output {
            FileChecksumData::Hash(data) => slice_to_vec(data.as_slice()),
            FileChecksumData::Checksum(data) => {
                let mut bytes: Vec<u8> = Vec::new();
                push_be(&mut bytes, *data as u64, 4);
                assert(bytes@ =~= be_bytes(*data as nat, 4));
                bytes
            },
        };
        FileHashChecksum { kind: value.kind, offset: value.off, length: value.len, output }
    }
}

/// What a hash or checksum comes as.
#[derive(Debug, Clone, Copy, PartialEq, Eq, Structural)]
pub enum HashChecksumDataFormat {
    /// A number.
    Numerical,
    /// A byte string.
    ByteArray,
}

/// What is known of one kind of hash or checksum.
#[derive(Debug, Clone, Copy, PartialEq, Eq)]
pub struct HashChecksumProperties {
    /// What it comes as.
    pub format: HashChecksumDataFormat,
    /// The number of bytes that it has.
    pub size: u32,
}

impl From<SupportedFileChecksumTypesEntry> for HashChecksumProperties {
    fn from(value: SupportedFileChecksumTypesEntry) -> (properties: Self) {
        HashChecksumProperties {
            format: match value.format {
                SupportedFileChecksumDataFormat::Numerical => HashChecksumDataFormat::Numerical,
                SupportedFileChecksumDataFormat::ByteArray => HashChecksumDataFormat::ByteArray,
            },
            size: value.size,
        }
    }
}

impl FromSpecImpl<SupportedFileChecksumTypesEntry> for HashChecksumProperties {
    open spec fn obeys_from_spec() -> bool {
        true
    }

    open spec fn from_spec(value: SupportedFileChecksumTypesEntry) -> Self {
        HashChecksumProperties {
            format: match value.format {
                SupportedFileChecksumDataFormat::Numerical => HashChecksumDataFormat::Numerical,
                SupportedFileChecksumDataFormat::ByteArray => HashChecksumDataFormat::ByteArray,
            },
            size: value.size,
        }
    }
}

} // verus!
