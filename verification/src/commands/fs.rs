//! The commands of the file group.
use crate::cbor::access::{
    bytes_at, bytes_value, dict_value, empty_payload, empty_value, entries, entries_of, entry,
    find, find_bytes, find_integer, find_text, integer_at, lookup, named, named_records,
    optional, put, record_entries, required, text_at, text_value, unsigned_max,
};
use crate::cbor::decode::{decode_value, CodecError, NESTING_LIMIT};
use crate::cbor::laws::{
    lemma_decode_of_encoding, lemma_dict_well_formed, lemma_entries_well_formed_add,
    lemma_field_well_formed,
};
use crate::cbor::value::{encode_value, well_formed};
use vstd::utf8::encode_utf8;
use crate::cbor::value::{pair_models, CborModel, CborValue};
use crate::commands::{CommandIdentity, Direction, McuMgrCommand};
use vstd::prelude::*;

verus! {

broadcast use vstd::string::group_string_axioms;

/// The number of the file group.
pub const GROUP_FS: u16 = 8;

/// Writes one chunk of a file.
#[derive(Debug, Clone, PartialEq, Eq)]
pub struct FileUpload {
    /// The offset of the chunk in the file.
    pub off: u64,
    /// The bytes of the chunk.
    pub data: Vec<u8>,
    /// The path of the file on the device.
    pub name: String,
    /// The length of the whole file; sent with the chunk at offset zero.
    pub len: Option<u64>,
}

/// The model of [`FileUpload`].
pub struct FileUploadView {
    pub off: u64,
    pub data: Seq<u8>,
    pub name: Seq<char>,
    pub len: Option<u64>,
}

impl View for FileUpload {
    type V = FileUploadView;

    open spec fn view(&self) -> FileUploadView {
        FileUploadView { off: self.off, data: self.data@, name: self.name@, len: self.len }
    }
}

impl FileUploadView {
    /// The payload: `off`, `data` and `name`, and `len` where there is one.
    pub open spec fn payload(self) -> CborModel {
        CborModel::Dict(
            seq![
                entry("off"@, CborModel::Unsigned(self.off)),
                entry("data"@, CborModel::Bytes(self.data)),
                entry("name"@, CborModel::Text(self.name)),
            ] + optional(
                self.len is Some,
                "len"@,
                CborModel::Unsigned(self.len.unwrap_or(0)),
            ),
        )
    }

    /// The request that a payload spells.
    pub open spec fn parse(m: CborModel) -> Result<FileUploadView, CodecError> {
        match entries_of(m) {
            None => Err(CodecError::Mismatch),
            Some(es) => {
                let off = required(integer_at(es, "off"@, 0, unsigned_max()));
                let data = required(bytes_at(es, "data"@));
                let name = required(text_at(es, "name"@));
                let len = integer_at(es, "len"@, 0, unsigned_max());
                if off is Ok && data is Ok && name is Ok && len is Ok {
                    Ok(
                        FileUploadView {
                            off: off->Ok_0 as u64,
                            data: data->Ok_0,
                            name: name->Ok_0,
                            len: match len->Ok_0 {
                                Some(l) => Some(l as u64),
                                None => None,
                            },
                        },
                    )
                } else {
                    Err(CodecError::Mismatch)
                }
            },
        }
    }
}

impl FileUpload {
    /// The identity of the command: write `0` of the file group.
    pub open spec fn identity() -> CommandIdentity {
        CommandIdentity { group_id: GROUP_FS, command_id: 0, direction: Direction::Write }
    }

    /// The payload of this request.
    pub fn to_value(&self) -> (v: CborValue)
        ensures
            v@ == self@.payload(),
    {
        let mut es: Vec<(CborValue, CborValue)> = Vec::new();
        put(&mut es, "off", CborValue::Unsigned(self.off));
        put(&mut es, "data", bytes_value(self.data.as_slice()));
        put(&mut es, "name", text_value(self.name.as_str()));
        match self.len {
            Some(len) => {
                put(&mut es, "len", CborValue::Unsigned(len));
            },
            None => {},
        }
        assert(pair_models(es@) =~= self@.payload()->Dict_0);
        dict_value(es)
    }

    /// Reads a request from its payload.
    pub fn from_value(value: &CborValue) -> (r: Result<FileUpload, CodecError>)
        ensures
            match FileUploadView::parse(value@) {
                Ok(e) => r matches Ok(x) && x@ == e,
                Err(e) => r matches Err(f) && f == e,
            },
    {
        let es = entries(value)?;
        let off = find_integer(es, "off", 0, 0xffff_ffff_ffff_ffff)?;
        let data = find_bytes(es, "data")?;
        let name = find_text(es, "name")?;
        let len = find_integer(es, "len", 0, 0xffff_ffff_ffff_ffff)?;
        match (off, data, name) {
            (Some(off), Some(data), Some(name)) => Ok(
                FileUpload {
                    off: off as u64,
                    data,
                    name,
                    len: match len {
                        Some(l) => Some(l as u64),
                        None => None,
                    },
                },
            ),
            _ => Err(CodecError::Mismatch),
        }
    }
}

/// The offset up to which the device has the file.
#[derive(Debug, Clone, Copy, PartialEq, Eq, Structural)]
pub struct FileUploadResponse {
    /// The offset of the next chunk that the device wants.
    pub off: u64,
}

impl FileUploadResponse {
    /// The payload: `off`.
    pub open spec fn payload(self) -> CborModel {
        CborModel::Dict(seq![entry("off"@, CborModel::Unsigned(self.off))])
    }

    /// The response that a payload spells.
    pub open spec fn parse(m: CborModel) -> Result<FileUploadResponse, CodecError> {
        match entries_of(m) {
            None => Err(CodecError::Mismatch),
            Some(es) => match required(integer_at(es, "off"@, 0, unsigned_max())) {
                Ok(off) => Ok(FileUploadResponse { off: off as u64 }),
                Err(e) => Err(e),
            },
        }
    }

    /// The payload of this response.
    pub fn to_value(&self) -> (v: CborValue)
        ensures
            v@ == self.payload(),
    {
        let mut es: Vec<(CborValue, CborValue)> = Vec::new();
        put(&mut es, "off", CborValue::Unsigned(self.off));
        assert(pair_models(es@) =~= self.payload()->Dict_0);
        dict_value(es)
    }

    /// Reads a response from its payload.
    pub fn from_value(value: &CborValue) -> (r: Result<FileUploadResponse, CodecError>)
        ensures
            r == Self::parse(value@),
    {
        let es = entries(value)?;
        match find_integer(es, "off", 0, 0xffff_ffff_ffff_ffff)? {
            Some(off) => Ok(FileUploadResponse { off: off as u64 }),
            None => Err(CodecError::Mismatch),
        }
    }
}

impl McuMgrCommand for FileUpload {
    type Response = FileUploadResponse;

    fn is_write_operation(&self) -> (w: bool)
        ensures
            w,
    {
        true
    }

    fn group_id(&self) -> (g: u16)
        ensures
            g == GROUP_FS,
    {
        GROUP_FS
    }

    fn command_id(&self) -> (c: u8)
        ensures
            c == 0,
    {
        0
    }

    fn data(&self) -> (v: CborValue)
        ensures
            v@ == self@.payload(),
    {
        self.to_value()
    }

    fn parse_response(&self, payload: &CborValue) -> (r: Result<FileUploadResponse, CodecError>)
        ensures
            r == FileUploadResponse::parse(payload@),
    {
        FileUploadResponse::from_value(payload)
    }
}

/// Reads one chunk of a file.
#[derive(Debug, Clone, PartialEq, Eq)]
pub struct FileDownload {
    /// The offset of the chunk in the file.
    pub off: u64,
    /// The path of the file on the device.
    pub name: String,
}

/// The model of [`FileDownload`].
pub struct FileDownloadView {
    pub off: u64,
    pub name: Seq<char>,
}

impl View for FileDownload {
    type V = FileDownloadView;

    open spec fn view(&self) -> FileDownloadView {
        FileDownloadView { off: self.off, name: self.name@ }
    }
}

impl FileDownloadView {
    /// The payload: `off` and `name`.
    pub open spec fn payload(self) -> CborModel {
        CborModel::Dict(
            seq![
                entry("off"@, CborModel::Unsigned(self.off)),
                entry("name"@, CborModel::Text(self.name)),
            ],
        )
    }

    /// The request that a payload spells.
    pub open spec fn parse(m: CborModel) -> Result<FileDownloadView, CodecError> {
        match entries_of(m) {
            None => Err(CodecError::Mismatch),
            Some(es) => {
                let off = required(integer_at(es, "off"@, 0, unsigned_max()));
                let name = required(text_at(es, "name"@));
                if off is Ok && name is Ok {
                    Ok(FileDownloadView { off: off->Ok_0 as u64, name: name->Ok_0 })
                } else {
                    Err(CodecError::Mismatch)
                }
            },
        }
    }
}

impl FileDownload {
    /// The identity of the command: read `0` of the file group.
    pub open spec fn identity() -> CommandIdentity {
        CommandIdentity { group_id: GROUP_FS, command_id: 0, direction: Direction::Read }
    }

    /// The payload of this request.
    pub fn to_value(&self) -> (v: CborValue)
        ensures
            v@ == self@.payload(),
    {
        let mut es: Vec<(CborValue, CborValue)> = Vec::new();
        put(&mut es, "off", CborValue::Unsigned(self.off));
        put(&mut es, "name", text_value(self.name.as_str()));
        assert(pair_models(es@) =~= self@.payload()->Dict_0);
        dict_value(es)
    }

    /// Reads a request from its payload.
    pub fn from_value(value: &CborValue) -> (r: Result<FileDownload, CodecError>)
        ensures
            match FileDownloadView::parse(value@) {
                Ok(e) => r matches Ok(x) && x@ == e,
                Err(e) => r matches Err(f) && f == e,
            },
    {
        let es = entries(value)?;
        let off = find_integer(es, "off", 0, 0xffff_ffff_ffff_ffff)?;
        let name = find_text(es, "name")?;
        match (off, name) {
            (Some(off), Some(name)) => Ok(FileDownload { off: off as u64, name }),
            _ => Err(CodecError::Mismatch),
        }
    }
}

/// One chunk of a file.
#[derive(Debug, Clone, PartialEq, Eq)]
pub struct FileDownloadResponse {
    /// The offset of the chunk in the file.
    pub off: u64,
    /// The bytes of the chunk.
    pub data: Vec<u8>,
    /// The length of the whole file; sent with the chunk at offset zero.
    pub len: Option<u64>,
}

/// The model of [`FileDownloadResponse`].
pub struct FileDownloadResponseView {
    pub off: u64,
    pub data: Seq<u8>,
    pub len: Option<u64>,
}

impl View for FileDownloadResponse {
    type V = FileDownloadResponseView;

    open spec fn view(&self) -> FileDownloadResponseView {
        FileDownloadResponseView { off: self.off, data: self.data@, len: self.len }
    }
}

impl FileDownloadResponseView {
    /// The payload: `off` and `data`, and `len` where there is one.
    pub open spec fn payload(self) -> CborModel {
        CborModel::Dict(
            seq![
                entry("off"@, CborModel::Unsigned(self.off)),
                entry("data"@, CborModel::Bytes(self.data)),
            ] + optional(
                self.len is Some,
                "len"@,
                CborModel::Unsigned(self.len.unwrap_or(0)),
            ),
        )
    }

    /// The response that a payload spells.
    pub open spec fn parse(m: CborModel) -> Result<FileDownloadResponseView, CodecError> {
        match entries_of(m) {
            None => Err(CodecError::Mismatch),
            Some(es) => {
                let off = required(integer_at(es, "off"@, 0, unsigned_max()));
                let data = required(bytes_at(es, "data"@));
                let len = integer_at(es, "len"@, 0, unsigned_max());
                if off is Ok && data is Ok && len is Ok {
                    Ok(
                        FileDownloadResponseView {
                            off: off->Ok_0 as u64,
                            data: data->Ok_0,
                            len: match len->Ok_0 {
                                Some(l) => Some(l as u64),
                                None => None,
                            },
                        },
                    )
                } else {
                    Err(CodecError::Mismatch)
                }
            },
        }
    }
}

impl FileDownloadResponse {
    /// The payload of this response.
    pub fn to_value(&self) -> (v: CborValue)
        ensures
            v@ == self@.payload(),
    {
        let mut es: Vec<(CborValue, CborValue)> = Vec::new();
        put(&mut es, "off", CborValue::Unsigned(self.off));
        put(&mut es, "data", bytes_value(self.data.as_slice()));
        match self.len {
            Some(len) => {
                put(&mut es, "len", CborValue::Unsigned(len));
            },
            None => {},
        }
        assert(pair_models(es@) =~= self@.payload()->Dict_0);
        dict_value(es)
    }

    /// Reads a response from its payload.
    pub fn from_value(value: &CborValue) -> (r: Result<FileDownloadResponse, CodecError>)
        ensures
            match FileDownloadResponseView::parse(value@) {
                Ok(e) => r matches Ok(x) && x@ == e,
                Err(e) => r matches Err(f) && f == e,
            },
    {
        let es = entries(value)?;
        let off = find_integer(es, "off", 0, 0xffff_ffff_ffff_ffff)?;
        let data = find_bytes(es, "data")?;
        let len = find_integer(es, "len", 0, 0xffff_ffff_ffff_ffff)?;
        match (off, data) {
            (Some(off), Some(data)) => Ok(
                FileDownloadResponse {
                    off: off as u64,
                    data,
                    len: match len {
                        Some(l) => Some(l as u64),
                        None => None,
                    },
                },
            ),
            _ => Err(CodecError::Mismatch),
        }
    }
}

impl McuMgrCommand for FileDownload {
    type Response = FileDownloadResponse;

    fn is_write_operation(&self) -> (w: bool)
        ensures
            !w,
    {
        false
    }

    fn group_id(&self) -> (g: u16)
        ensures
            g == GROUP_FS,
    {
        GROUP_FS
    }

    fn command_id(&self) -> (c: u8)
        ensures
            c == 0,
    {
        0
    }

    fn data(&self) -> (v: CborValue)
        ensures
            v@ == self@.payload(),
    {
        self.to_value()
    }

    fn parse_response(&self, payload: &CborValue) -> (r: Result<FileDownloadResponse, CodecError>)
        ensures
            match FileDownloadResponseView::parse(payload@) {
                Ok(e) => r matches Ok(x) && x@ == e,
                Err(e) => r matches Err(f) && f == e,
            },
    {
        FileDownloadResponse::from_value(payload)
    }
}

/// Asks for the length of a file.
#[derive(Debug, Clone, PartialEq, Eq)]
pub struct FileStatus {
    /// The path of the file on the device.
    pub name: String,
}

/// The model of [`FileStatus`].
pub struct FileStatusView {
    pub name: Seq<char>,
}

impl View for FileStatus {
    type V = FileStatusView;

    open spec fn view(&self) -> FileStatusView {
        FileStatusView { name: self.name@ }
    }
}

impl FileStatusView {
    /// The payload: `name`.
    pub open spec fn payload(self) -> CborModel {
        CborModel::Dict(seq![entry("name"@, CborModel::Text(self.name))])
    }

    /// The request that a payload spells.
    pub open spec fn parse(m: CborModel) -> Result<FileStatusView, CodecError> {
        match entries_of(m) {
            None => Err(CodecError::Mismatch),
            Some(es) => match required(text_at(es, "name"@)) {
                Err(e) => Err(e),
                Ok(name) => Ok(FileStatusView { name }),
            },
        }
    }
}

/// The length of a file.
#[derive(Debug, Clone, Copy, PartialEq, Eq, Structural)]
pub struct FileStatusResponse {
    /// The length of the file in bytes.
    pub len: u64,
}

impl FileStatusResponse {
    /// The payload: `len`.
    pub open spec fn payload(self) -> CborModel {
        CborModel::Dict(seq![entry("len"@, CborModel::Unsigned(self.len))])
    }

    /// The response that a payload spells.
    pub open spec fn parse(m: CborModel) -> Result<FileStatusResponse, CodecError> {
        match entries_of(m) {
            None => Err(CodecError::Mismatch),
            Some(es) => match required(integer_at(es, "len"@, 0, unsigned_max())) {
                Ok(len) => Ok(FileStatusResponse { len: len as u64 }),
                Err(e) => Err(e),
            },
        }
    }

    /// Reads a response from its payload.
    pub fn from_value(value: &CborValue) -> (r: Result<FileStatusResponse, CodecError>)
        ensures
            r == Self::parse(value@),
    {
        let es = entries(value)?;
        match find_integer(es, "len", 0, 0xffff_ffff_ffff_ffff)? {
            Some(len) => Ok(FileStatusResponse { len: len as u64 }),
            None => Err(CodecError::Mismatch),
        }
    }
}

impl FileStatus {
    /// The identity of the command: read `1` of the file group.
    pub open spec fn identity() -> CommandIdentity {
        CommandIdentity { group_id: GROUP_FS, command_id: 1, direction: Direction::Read }
    }

    /// The payload of this request.
    pub fn to_value(&self) -> (v: CborValue)
        ensures
            v@ == self@.payload(),
    {
        let mut es: Vec<(CborValue, CborValue)> = Vec::new();
        put(&mut es, "name", text_value(self.name.as_str()));
        assert(pair_models(es@) =~= self@.payload()->Dict_0);
        dict_value(es)
    }
}

impl McuMgrCommand for FileStatus {
    type Response = FileStatusResponse;

    fn is_write_operation(&self) -> (w: bool)
        ensures
            !w,
    {
        false
    }

    fn group_id(&self) -> (g: u16)
        ensures
            g == GROUP_FS,
    {
        GROUP_FS
    }

    fn command_id(&self) -> (c: u8)
        ensures
            c == 1,
    {
        1
    }

    fn data(&self) -> (v: CborValue)
        ensures
            v@ == self@.payload(),
    {
        self.to_value()
    }

    fn parse_response(&self, payload: &CborValue) -> (r: Result<FileStatusResponse, CodecError>)
        ensures
            r == FileStatusResponse::parse(payload@),
    {
        FileStatusResponse::from_value(payload)
    }
}

/// Asks for the hash or the checksum of a file, or of a part of it.
#[derive(Debug, Clone, PartialEq, Eq)]
pub struct FileChecksum {
    /// The path of the file on the device.
    pub name: String,
    /// The name of the hash or checksum; without one, the device picks.
    pub kind: Option<String>,
    /// The offset to start at.
    pub off: u64,
    /// The number of bytes to take in; without one, all to the end.
    pub len: Option<u64>,
}

/// The model of [`FileChecksum`].
pub struct FileChecksumView {
    pub name: Seq<char>,
    pub kind: Option<Seq<char>>,
    pub off: u64,
    pub len: Option<u64>,
}

/// The model of an optional text.
pub open spec fn optional_text(text: Option<String>) -> Option<Seq<char>> {
    match text {
        Some(t) => Some(t@),
        None => None,
    }
}

impl View for FileChecksum {
    type V = FileChecksumView;

    open spec fn view(&self) -> FileChecksumView {
        FileChecksumView {
            name: self.name@,
            kind: optional_text(self.kind),
            off: self.off,
            len: self.len,
        }
    }
}

impl FileChecksumView {
    /// The payload: `name`, `type` where there is one, `off` where it is
    /// not zero, and `len` where there is one.
    pub open spec fn payload(self) -> CborModel {
        CborModel::Dict(
            seq![entry("name"@, CborModel::Text(self.name))] + optional(
                self.kind is Some,
                "type"@,
                CborModel::Text(self.kind.unwrap_or(Seq::empty())),
            ) + optional(self.off != 0, "off"@, CborModel::Unsigned(self.off)) + optional(
                self.len is Some,
                "len"@,
                CborModel::Unsigned(self.len.unwrap_or(0)),
            ),
        )
    }

    /// The request that a payload spells.
    pub open spec fn parse(m: CborModel) -> Result<FileChecksumView, CodecError> {
        match entries_of(m) {
            None => Err(CodecError::Mismatch),
            Some(es) => {
                let name = required(text_at(es, "name"@));
                let kind = text_at(es, "type"@);
                let off = integer_at(es, "off"@, 0, unsigned_max());
                let len = integer_at(es, "len"@, 0, unsigned_max());
                if name is Ok && kind is Ok && off is Ok && len is Ok {
                    Ok(
                        FileChecksumView {
                            name: name->Ok_0,
                            kind: kind->Ok_0,
                            off: match off->Ok_0 {
                                Some(o) => o as u64,
                                None => 0,
                            },
                            len: match len->Ok_0 {
                                Some(l) => Some(l as u64),
                                None => None,
                            },
                        },
                    )
                } else {
                    Err(CodecError::Mismatch)
                }
            },
        }
    }
}

impl FileChecksum {
    /// The identity of the command: read `2` of the file group.
    pub open spec fn identity() -> CommandIdentity {
        CommandIdentity { group_id: GROUP_FS, command_id: 2, direction: Direction::Read }
    }

    /// The payload of this request.
    pub fn to_value(&self) -> (v: CborValue)
        ensures
            v@ == self@.payload(),
    {
        let mut es: Vec<(CborValue, CborValue)> = Vec::new();
        put(&mut es, "name", text_value(self.name.as_str()));
        match &self.kind {
            Some(kind) => {
                put(&mut es, "type", text_value(kind.as_str()));
            },
            None => {},
        }
        if !crate::commands::is_default(&self.off) {
            put(&mut es, "off", CborValue::Unsigned(self.off));
        }
        match self.len {
            Some(len) => {
                put(&mut es, "len", CborValue::Unsigned(len));
            },
            None => {},
        }
        assert(pair_models(es@) =~= self@.payload()->Dict_0);
        dict_value(es)
    }
}

/// A hash or a checksum.
#[derive(Debug, Clone, PartialEq, Eq)]
pub enum FileChecksumData {
    /// The bytes of a hash.
    Hash(Vec<u8>),
    /// The number of a checksum.
    Checksum(u32),
}

/// The model of [`FileChecksumData`].
pub enum FileChecksumDataView {
    Hash(Seq<u8>),
    Checksum(u32),
}

impl View for FileChecksumData {
    type V = FileChecksumDataView;

    open spec fn view(&self) -> FileChecksumDataView {
        match self {
            FileChecksumData::Hash(bytes) => FileChecksumDataView::Hash(bytes@),
            FileChecksumData::Checksum(number) => FileChecksumDataView::Checksum(*number),
        }
    }
}

/// The hash or the checksum of a file.
#[derive(Debug, Clone, PartialEq, Eq)]
pub struct FileChecksumResponse {
    /// The name of the hash or checksum.
    pub kind: String,
    /// The offset that was started at.
    pub off: u64,
    /// The number of bytes that were taken in.
    pub len: u64,
    /// The hash or the checksum.
    pub output: FileChecksumData,
}

/// The model of [`FileChecksumResponse`].
pub struct FileChecksumResponseView {
    pub kind: Seq<char>,
    pub off: u64,
    pub len: u64,
    pub output: FileChecksumDataView,
}

impl View for FileChecksumResponse {
    type V = FileChecksumResponseView;

    open spec fn view(&self) -> FileChecksumResponseView {
        FileChecksumResponseView {
            kind: self.kind@,
            off: self.off,
            len: self.len,
            output: self.output@,
        }
    }
}

/// The item of a hash or a checksum: a byte string or an unsigned integer.
pub open spec fn output_item(output: FileChecksumDataView) -> CborModel {
    match output {
        FileChecksumDataView::Hash(bytes) => CborModel::Bytes(bytes),
        FileChecksumDataView::Checksum(number) => CborModel::Unsigned(number as u64),
    }
}

/// The hash or the checksum that an item is.
pub open spec fn output_of(m: Option<CborModel>) -> Result<FileChecksumDataView, CodecError> {
    match m {
        Some(CborModel::Bytes(bytes)) => Ok(FileChecksumDataView::Hash(bytes)),
        Some(CborModel::Unsigned(number)) => if number <= 0xffff_ffff {
            Ok(FileChecksumDataView::Checksum(number as u32))
        } else {
            Err(CodecError::Mismatch)
        },
        _ => Err(CodecError::Mismatch),
    }
}

impl FileChecksumResponseView {
    /// The payload: `type`, `off` where it is not zero, `len` and `output`.
    pub open spec fn payload(self) -> CborModel {
        CborModel::Dict(
            seq![entry("type"@, CborModel::Text(self.kind))] + optional(
                self.off != 0,
                "off"@,
                CborModel::Unsigned(self.off),
            ) + seq![
                entry("len"@, CborModel::Unsigned(self.len)),
                entry("output"@, output_item(self.output)),
            ],
        )
    }

    /// The response that a payload spells.
    pub open spec fn parse(m: CborModel) -> Result<FileChecksumResponseView, CodecError> {
        match entries_of(m) {
            None => Err(CodecError::Mismatch),
            Some(es) => {
                let kind = required(text_at(es, "type"@));
                let off = integer_at(es, "off"@, 0, unsigned_max());
                let len = required(integer_at(es, "len"@, 0, unsigned_max()));
                let output = output_of(lookup(es, "output"@));
                if kind is Ok && off is Ok && len is Ok && output is Ok {
                    Ok(
                        FileChecksumResponseView {
                            kind: kind->Ok_0,
                            off: match off->Ok_0 {
                                Some(o) => o as u64,
                                None => 0,
                            },
                            len: len->Ok_0 as u64,
                            output: output->Ok_0,
                        },
                    )
                } else {
                    Err(CodecError::Mismatch)
                }
            },
        }
    }
}

impl FileChecksumResponse {
    /// Reads a response from its payload.
    pub fn from_value(value: &CborValue) -> (r: Result<FileChecksumResponse, CodecError>)
        ensures
            match FileChecksumResponseView::parse(value@) {
                Ok(e) => r matches Ok(x) && x@ == e,
                Err(e) => r matches Err(f) && f == e,
            },
    {
        let es = entries(value)?;
        let kind = find_text(es, "type")?;
        let off = find_integer(es, "off", 0, 0xffff_ffff_ffff_ffff)?;
        let len = find_integer(es, "len", 0, 0xffff_ffff_ffff_ffff)?;
        let output = match find(es, "output") {
            Some(CborValue::Bytes(bytes)) => FileChecksumData::Hash(
                vstd::slice::slice_to_vec(bytes.as_slice()),
            ),
            Some(CborValue::Unsigned(number)) => if *number <= 0xffff_ffff {
                FileChecksumData::Checksum(*number as u32)
            } else {
                return Err(CodecError::Mismatch);
            },
            _ => {
                return Err(CodecError::Mismatch);
            },
        };
        match (kind, len) {
            (Some(kind), Some(len)) => Ok(
                FileChecksumResponse {
                    kind: kind,
                    off: match off {
                        Some(o) => o as u64,
                        None => 0,
                    },
                    len: len as u64,
                    output,
                },
            ),
            _ => Err(CodecError::Mismatch),
        }
    }
}

impl McuMgrCommand for FileChecksum {
    type Response = FileChecksumResponse;

    fn is_write_operation(&self) -> (w: bool)
        ensures
            !w,
    {
        false
    }

    fn group_id(&self) -> (g: u16)
        ensures
            g == GROUP_FS,
    {
        GROUP_FS
    }

    fn command_id(&self) -> (c: u8)
        ensures
            c == 2,
    {
        2
    }

    fn data(&self) -> (v: CborValue)
        ensures
            v@ == self@.payload(),
    {
        self.to_value()
    }

    fn parse_response(&self, payload: &CborValue) -> (r: Result<FileChecksumResponse, CodecError>)
        ensures
            match FileChecksumResponseView::parse(payload@) {
                Ok(e) => r matches Ok(x) && x@ == e,
                Err(e) => r matches Err(f) && f == e,
            },
    {
        FileChecksumResponse::from_value(payload)
    }
}

/// Asks which hashes and checksums the device can make.
#[derive(Debug, Clone, Copy, PartialEq, Eq, Structural)]
pub struct SupportedFileChecksumTypes;

/// What a hash or checksum comes as.
#[derive(Debug, Clone, Copy, PartialEq, Eq, Structural)]
pub enum SupportedFileChecksumDataFormat {
    /// A number.
    Numerical,
    /// A byte string.
    ByteArray,
}

/// What is known of one kind of hash or checksum.
#[derive(Debug, Clone, Copy, PartialEq, Eq, Structural)]
pub struct SupportedFileChecksumTypesEntry {
    /// What it comes as.
    pub format: SupportedFileChecksumDataFormat,
    /// The number of bytes that it has.
    pub size: u32,
}

/// The hashes and checksums that the device can make.
#[derive(Debug, Clone, PartialEq, Eq)]
pub struct SupportedFileChecksumTypesResponse {
    /// Each kind by its name, in the order of the response.
    pub types: Vec<(String, SupportedFileChecksumTypesEntry)>,
}

/// The model of [`SupportedFileChecksumTypesResponse`].
pub struct SupportedFileChecksumTypesResponseView {
    pub types: Seq<(Seq<char>, SupportedFileChecksumTypesEntry)>,
}

impl View for SupportedFileChecksumTypesResponse {
    type V = SupportedFileChecksumTypesResponseView;

    open spec fn view(&self) -> SupportedFileChecksumTypesResponseView {
        SupportedFileChecksumTypesResponseView { types: named(self.types@) }
    }
}

impl SupportedFileChecksumTypesEntry {
    /// The payload: `format`, `0` for a number and `1` for a byte string,
    /// and `size`.
    pub open spec fn payload(self) -> CborModel {
        CborModel::Dict(
            seq![
                entry(
                    "format"@,
                    CborModel::Unsigned(
                        match self.format {
                            SupportedFileChecksumDataFormat::Numerical => 0,
                            SupportedFileChecksumDataFormat::ByteArray => 1,
                        },
                    ),
                ),
                entry("size"@, CborModel::Unsigned(self.size as u64)),
            ],
        )
    }

    /// The record that an item spells.
    pub open spec fn parse(m: CborModel) -> Result<SupportedFileChecksumTypesEntry, CodecError> {
        match entries_of(m) {
            None => Err(CodecError::Mismatch),
            Some(es) => {
                let format = required(integer_at(es, "format"@, 0, 1));
                let size = required(integer_at(es, "size"@, 0, 0xffff_ffff));
                if format is Ok && size is Ok {
                    Ok(
                        SupportedFileChecksumTypesEntry {
                            format: if format->Ok_0 == 0 {
                                SupportedFileChecksumDataFormat::Numerical
                            } else {
                                SupportedFileChecksumDataFormat::ByteArray
                            },
                            size: size->Ok_0 as u32,
                        },
                    )
                } else {
                    Err(CodecError::Mismatch)
                }
            },
        }
    }

    /// Reads a record from an item.
    pub fn from_value(value: &CborValue) -> (r: Result<SupportedFileChecksumTypesEntry, CodecError>)
        ensures
            r == Self::parse(value@),
    {
        let es = entries(value)?;
        let format = find_integer(es, "format", 0, 1)?;
        let size = find_integer(es, "size", 0, 0xffff_ffff)?;
        match (format, size) {
            (Some(format), Some(size)) => Ok(
                SupportedFileChecksumTypesEntry {
                    format: if format == 0 {
                        SupportedFileChecksumDataFormat::Numerical
                    } else {
                        SupportedFileChecksumDataFormat::ByteArray
                    },
                    size: size as u32,
                },
            ),
            _ => Err(CodecError::Mismatch),
        }
    }
}

impl SupportedFileChecksumTypes {
    /// The identity of the command: read `3` of the file group.
    pub open spec fn identity() -> CommandIdentity {
        CommandIdentity { group_id: GROUP_FS, command_id: 3, direction: Direction::Read }
    }

    /// The payload: the empty map.
    pub open spec fn payload(self) -> CborModel {
        empty_payload()
    }
}

impl SupportedFileChecksumTypesResponseView {
    /// The payload: under `types`, a map from each name to its record.
    pub open spec fn payload(self) -> CborModel {
        CborModel::Dict(
            seq![
                entry(
                    "types"@,
                    CborModel::Dict(
                        record_entries(
                            self.types,
                            |e: SupportedFileChecksumTypesEntry| e.payload(),
                        ),
                    ),
                ),
            ],
        )
    }

    /// The response that a payload spells.
    pub open spec fn parse(m: CborModel) -> Result<
        SupportedFileChecksumTypesResponseView,
        CodecError,
    > {
        match entries_of(m) {
            None => Err(CodecError::Mismatch),
            Some(es) => match lookup(es, "types"@) {
                Some(CborModel::Dict(inner)) => match named_records(
                    inner,
                    |m: CborModel| SupportedFileChecksumTypesEntry::parse(m),
                ) {
                    Ok(types) => Ok(SupportedFileChecksumTypesResponseView { types }),
                    Err(e) => Err(e),
                },
                _ => Err(CodecError::Mismatch),
            },
        }
    }
}

impl SupportedFileChecksumTypesResponse {
    /// Reads a response from its payload.
    pub fn from_value(value: &CborValue) -> (r: Result<
        SupportedFileChecksumTypesResponse,
        CodecError,
    >)
        ensures
            match SupportedFileChecksumTypesResponseView::parse(value@) {
                Ok(e) => r matches Ok(x) && x@ == e,
                Err(e) => r matches Err(f) && f == e,
            },
    {
        let es = entries(value)?;
        let inner = match find(es, "types") {
            Some(found) => match found {
                CborValue::Dict(_) => entries(found)?,
                _ => {
                    return Err(CodecError::Mismatch);
                },
            },
            None => {
                return Err(CodecError::Mismatch);
            },
        };
        let ghost ms = pair_models(inner@);
        let ghost parse_one = |m: CborModel| SupportedFileChecksumTypesEntry::parse(m);
        let mut types: Vec<(String, SupportedFileChecksumTypesEntry)> = Vec::new();
        let mut i: usize = 0;
        while i < inner.len()
            invariant
                i <= inner.len(),
                ms == pair_models(inner@),
                parse_one == (|m: CborModel| SupportedFileChecksumTypesEntry::parse(m)),
                SupportedFileChecksumTypesResponseView::parse(value@) == match named_records(
                    ms,
                    parse_one,
                ) {
                    Ok(types) => Ok::<SupportedFileChecksumTypesResponseView, CodecError>(
                        SupportedFileChecksumTypesResponseView { types },
                    ),
                    Err(e) => Err(e),
                },
                types.len() == i,
                forall|j: int|
                    0 <= j < i ==> (#[trigger] ms[j]).0 is Text && parse_one(ms[j].1) is Ok,
                forall|j: int|
                    0 <= j < i ==> (#[trigger] types[j]).0@ == ms[j].0->Text_0 && types[j].1
                        == parse_one(ms[j].1)->Ok_0,
            decreases inner.len() - i,
        {
            let name = match &inner[i].0 {
                CborValue::Text(name) => name.clone(),
                _ => {
                    assert(!(ms[i as int].0 is Text));
                    return Err(CodecError::Mismatch);
                },
            };
            let record = match SupportedFileChecksumTypesEntry::from_value(&inner[i].1) {
                Ok(record) => record,
                Err(e) => {
                    assert(!(parse_one(ms[i as int].1) is Ok));
                    return Err(CodecError::Mismatch);
                },
            };
            types.push((name, record));
            i = i + 1;
        }
        assert(named(types@) =~= named_records(ms, parse_one)->Ok_0);
        Ok(SupportedFileChecksumTypesResponse { types })
    }
}

impl McuMgrCommand for SupportedFileChecksumTypes {
    type Response = SupportedFileChecksumTypesResponse;

    fn is_write_operation(&self) -> (w: bool)
        ensures
            !w,
    {
        false
    }

    fn group_id(&self) -> (g: u16)
        ensures
            g == GROUP_FS,
    {
        GROUP_FS
    }

    fn command_id(&self) -> (c: u8)
        ensures
            c == 3,
    {
        3
    }

    fn data(&self) -> (v: CborValue)
        ensures
            v@ == self.payload(),
    {
        empty_value()
    }

    fn parse_response(&self, payload: &CborValue) -> (r: Result<
        SupportedFileChecksumTypesResponse,
        CodecError,
    >)
        ensures
            match SupportedFileChecksumTypesResponseView::parse(payload@) {
                Ok(e) => r matches Ok(x) && x@ == e,
                Err(e) => r matches Err(f) && f == e,
            },
    {
        SupportedFileChecksumTypesResponse::from_value(payload)
    }
}

/// A record of a kind of hash or checksum reads back from its payload as
/// it was.
pub proof fn lemma_supported_entry_round_trip(e: SupportedFileChecksumTypesEntry)
    ensures
        SupportedFileChecksumTypesEntry::parse(e.payload()) == Ok::<
            SupportedFileChecksumTypesEntry,
            CodecError,
        >(e),
{
    reveal_strlit("format");
    reveal_strlit("size");
    assert("format"@.len() == 6 && "size"@.len() == 4);
    reveal_with_fuel(crate::cbor::access::lookup_from, 3);
}

/// A response of supported hashes and checksums reads back from its
/// payload as it was.
pub proof fn lemma_supported_response_round_trip(e: SupportedFileChecksumTypesResponseView)
    ensures
        SupportedFileChecksumTypesResponseView::parse(e.payload()) == Ok::<
            SupportedFileChecksumTypesResponseView,
            CodecError,
        >(e),
{
    let payload_one = |e: SupportedFileChecksumTypesEntry| e.payload();
    let parse_one = |m: CborModel| SupportedFileChecksumTypesEntry::parse(m);
    let inner = record_entries(e.types, payload_one);
    assert forall|i: int| 0 <= i < inner.len() implies (#[trigger] inner[i]).0 is Text
        && parse_one(inner[i].1) == Ok::<SupportedFileChecksumTypesEntry, CodecError>(
        e.types[i].1,
    ) by {
        lemma_supported_entry_round_trip(e.types[i].1);
    }
    assert(named_records(inner, parse_one)->Ok_0 =~= e.types);
}

/// Closes the files that the device holds open.
#[derive(Debug, Clone, Copy, PartialEq, Eq, Structural)]
pub struct FileClose;

impl FileClose {
    /// The identity of the command: write `4` of the file group.
    pub open spec fn identity() -> CommandIdentity {
        CommandIdentity { group_id: GROUP_FS, command_id: 4, direction: Direction::Write }
    }

    /// The payload: the empty map.
    pub open spec fn payload(self) -> CborModel {
        empty_payload()
    }
}

impl McuMgrCommand for FileClose {
    type Response = ();

    fn is_write_operation(&self) -> (w: bool)
        ensures
            w,
    {
        true
    }

    fn group_id(&self) -> (g: u16)
        ensures
            g == GROUP_FS,
    {
        GROUP_FS
    }

    fn command_id(&self) -> (c: u8)
        ensures
            c == 4,
    {
        4
    }

    fn data(&self) -> (v: CborValue)
        ensures
            v@ == self.payload(),
    {
        empty_value()
    }

    fn parse_response(&self, payload: &CborValue) -> (r: Result<(), CodecError>)
        ensures
            r is Ok,
    {
        Ok(())
    }
}

/// The keys of the payloads of this group differ from one another.
proof fn lemma_keys()
    ensures
        "off"@.len() == 3 && "off"@[0] == 'o',
        "len"@.len() == 3 && "len"@[0] == 'l',
        "data"@.len() == 4 && "data"@[0] == 'd',
        "name"@.len() == 4 && "name"@[0] == 'n',
        "type"@.len() == 4 && "type"@[0] == 't',
        "output"@.len() == 6,
{
    reveal_strlit("off");
    reveal_strlit("len");
    reveal_strlit("data");
    reveal_strlit("name");
    reveal_strlit("type");
    reveal_strlit("output");
}

/// A file status response reads back from its payload as it was.
pub proof fn lemma_file_status_response_round_trip(e: FileStatusResponse)
    ensures
        FileStatusResponse::parse(e.payload()) == Ok::<FileStatusResponse, CodecError>(e),
{
}

/// A file status request reads back from its payload as it was.
pub proof fn lemma_file_status_round_trip(e: FileStatusView)
    ensures
        FileStatusView::parse(e.payload()) == Ok::<FileStatusView, CodecError>(e),
{
}

/// A file checksum request reads back from its payload as it was.
pub proof fn lemma_file_checksum_round_trip(e: FileChecksumView)
    ensures
        FileChecksumView::parse(e.payload()) == Ok::<FileChecksumView, CodecError>(e),
{
    lemma_keys();
    reveal_with_fuel(crate::cbor::access::lookup_from, 5);
}

/// A file checksum response reads back from its payload as it was.
pub proof fn lemma_file_checksum_response_round_trip(e: FileChecksumResponseView)
    ensures
        FileChecksumResponseView::parse(e.payload()) == Ok::<FileChecksumResponseView, CodecError>(
            e,
        ),
{
    lemma_keys();
    reveal_with_fuel(crate::cbor::access::lookup_from, 5);
}

/// A file upload request reads back from its payload as it was.
pub proof fn lemma_file_upload_round_trip(e: FileUploadView)
    ensures
        FileUploadView::parse(e.payload()) == Ok::<FileUploadView, CodecError>(e),
{
    lemma_keys();
    reveal_with_fuel(crate::cbor::access::lookup_from, 5);
}

/// A file upload response reads back from its payload as it was.
pub proof fn lemma_file_upload_response_round_trip(e: FileUploadResponse)
    ensures
        FileUploadResponse::parse(e.payload()) == Ok::<FileUploadResponse, CodecError>(e),
{
}

/// A file download request reads back from its payload as it was.
pub proof fn lemma_file_download_round_trip(e: FileDownloadView)
    ensures
        FileDownloadView::parse(e.payload()) == Ok::<FileDownloadView, CodecError>(e),
{
    lemma_keys();
    reveal_with_fuel(crate::cbor::access::lookup_from, 3);
}

/// A file download response reads back from its payload as it was.
pub proof fn lemma_file_download_response_round_trip(e: FileDownloadResponseView)
    ensures
        FileDownloadResponseView::parse(e.payload()) == Ok::<FileDownloadResponseView, CodecError>(
            e,
        ),
{
    lemma_keys();
    reveal_with_fuel(crate::cbor::access::lookup_from, 4);
}

/// The nesting depth of the fields of a payload.
pub open spec fn field_depth() -> nat {
    (NESTING_LIMIT - 1) as nat
}

/// A file upload request that is written out and read back from the bytes
/// is as it was, where its lengths can be written.
pub proof fn lemma_file_upload_written_and_read(e: FileUploadView)
    requires
        e.data.len() <= u64::MAX,
        encode_utf8(e.name).len() <= u64::MAX,
    ensures
        well_formed(e.payload(), NESTING_LIMIT as nat),
        decode_value(encode_value(e.payload())) == Some(e.payload()),
        FileUploadView::parse(e.payload()) == Ok::<FileUploadView, CodecError>(e),
{
    lemma_keys();
    let d = field_depth();
    let a = seq![entry("off"@, CborModel::Unsigned(e.off))];
    let b = seq![entry("data"@, CborModel::Bytes(e.data))];
    let c = seq![entry("name"@, CborModel::Text(e.name))];
    let o = optional(e.len is Some, "len"@, CborModel::Unsigned(e.len.unwrap_or(0)));
    lemma_field_well_formed("off"@, CborModel::Unsigned(e.off), d);
    lemma_field_well_formed("data"@, CborModel::Bytes(e.data), d);
    lemma_field_well_formed("name"@, CborModel::Text(e.name), d);
    lemma_field_well_formed("len"@, CborModel::Unsigned(e.len.unwrap_or(0)), d);
    lemma_entries_well_formed_add(a, b, d);
    lemma_entries_well_formed_add(a + b, c, d);
    lemma_entries_well_formed_add(a + b + c, o, d);
    assert(e.payload()->Dict_0 =~= a + b + c + o);
    lemma_dict_well_formed(e.payload()->Dict_0, d);
    lemma_decode_of_encoding(e.payload());
    lemma_file_upload_round_trip(e);
}

/// A file upload response that is written out and read back from the
/// bytes is as it was.
pub proof fn lemma_file_upload_response_written_and_read(e: FileUploadResponse)
    ensures
        well_formed(e.payload(), NESTING_LIMIT as nat),
        decode_value(encode_value(e.payload())) == Some(e.payload()),
        FileUploadResponse::parse(e.payload()) == Ok::<FileUploadResponse, CodecError>(e),
{
    lemma_keys();
    lemma_field_well_formed("off"@, CborModel::Unsigned(e.off), field_depth());
    lemma_dict_well_formed(e.payload()->Dict_0, field_depth());
    lemma_decode_of_encoding(e.payload());
    lemma_file_upload_response_round_trip(e);
}

/// A file download request that is written out and read back from the
/// bytes is as it was, where its lengths can be written.
pub proof fn lemma_file_download_written_and_read(e: FileDownloadView)
    requires
        encode_utf8(e.name).len() <= u64::MAX,
    ensures
        well_formed(e.payload(), NESTING_LIMIT as nat),
        decode_value(encode_value(e.payload())) == Some(e.payload()),
        FileDownloadView::parse(e.payload()) == Ok::<FileDownloadView, CodecError>(e),
{
    lemma_keys();
    let d = field_depth();
    let a = seq![entry("off"@, CborModel::Unsigned(e.off))];
    let b = seq![entry("name"@, CborModel::Text(e.name))];
    lemma_field_well_formed("off"@, CborModel::Unsigned(e.off), d);
    lemma_field_well_formed("name"@, CborModel::Text(e.name), d);
    lemma_entries_well_formed_add(a, b, d);
    assert(e.payload()->Dict_0 =~= a + b);
    lemma_dict_well_formed(e.payload()->Dict_0, d);
    lemma_decode_of_encoding(e.payload());
    lemma_file_download_round_trip(e);
}

/// A file download response that is written out and read back from the
/// bytes is as it was, where its lengths can be written.
pub proof fn lemma_file_download_response_written_and_read(e: FileDownloadResponseView)
    requires
        e.data.len() <= u64::MAX,
    ensures
        well_formed(e.payload(), NESTING_LIMIT as nat),
        decode_value(encode_value(e.payload())) == Some(e.payload()),
        FileDownloadResponseView::parse(e.payload()) == Ok::<FileDownloadResponseView, CodecError>(e),
{
    lemma_keys();
    let d = field_depth();
    let a = seq![entry("off"@, CborModel::Unsigned(e.off))];
    let b = seq![entry("data"@, CborModel::Bytes(e.data))];
    let o = optional(e.len is Some, "len"@, CborModel::Unsigned(e.len.unwrap_or(0)));
    lemma_field_well_formed("off"@, CborModel::Unsigned(e.off), d);
    lemma_field_well_formed("data"@, CborModel::Bytes(e.data), d);
    lemma_field_well_formed("len"@, CborModel::Unsigned(e.len.unwrap_or(0)), d);
    lemma_entries_well_formed_add(a, b, d);
    lemma_entries_well_formed_add(a + b, o, d);
    assert(e.payload()->Dict_0 =~= a + b + o);
    lemma_dict_well_formed(e.payload()->Dict_0, d);
    lemma_decode_of_encoding(e.payload());
    lemma_file_download_response_round_trip(e);
}

/// A file status request that is written out and read back from the bytes
/// is as it was, where its lengths can be written.
pub proof fn lemma_file_status_written_and_read(e: FileStatusView)
    requires
        encode_utf8(e.name).len() <= u64::MAX,
    ensures
        well_formed(e.payload(), NESTING_LIMIT as nat),
        decode_value(encode_value(e.payload())) == Some(e.payload()),
        FileStatusView::parse(e.payload()) == Ok::<FileStatusView, CodecError>(e),
{
    lemma_keys();
    lemma_field_well_formed("name"@, CborModel::Text(e.name), field_depth());
    lemma_dict_well_formed(e.payload()->Dict_0, field_depth());
    lemma_decode_of_encoding(e.payload());
    lemma_file_status_round_trip(e);
}

/// A file status response that is written out and read back from the
/// bytes is as it was.
pub proof fn lemma_file_status_response_written_and_read(e: FileStatusResponse)
    ensures
        well_formed(e.payload(), NESTING_LIMIT as nat),
        decode_value(encode_value(e.payload())) == Some(e.payload()),
        FileStatusResponse::parse(e.payload()) == Ok::<FileStatusResponse, CodecError>(e),
{
    lemma_keys();
    lemma_field_well_formed("len"@, CborModel::Unsigned(e.len), field_depth());
    lemma_dict_well_formed(e.payload()->Dict_0, field_depth());
    lemma_decode_of_encoding(e.payload());
    lemma_file_status_response_round_trip(e);
}

/// A file checksum request that is written out and read back from the
/// bytes is as it was, where its lengths can be written.
pub proof fn lemma_file_checksum_written_and_read(e: FileChecksumView)
    requires
        encode_utf8(e.name).len() <= u64::MAX,
        e.kind matches Some(kind) ==> encode_utf8(kind).len() <= u64::MAX,
    ensures
        well_formed(e.payload(), NESTING_LIMIT as nat),
        decode_value(encode_value(e.payload())) == Some(e.payload()),
        FileChecksumView::parse(e.payload()) == Ok::<FileChecksumView, CodecError>(e),
{
    lemma_keys();
    let d = field_depth();
    let a = seq![entry("name"@, CborModel::Text(e.name))];
    let b = optional(e.kind is Some, "type"@, CborModel::Text(e.kind.unwrap_or(Seq::empty())));
    let c = optional(e.off != 0, "off"@, CborModel::Unsigned(e.off));
    let o = optional(e.len is Some, "len"@, CborModel::Unsigned(e.len.unwrap_or(0)));
    assert(encode_utf8(Seq::<char>::empty()).len() == 0);
    lemma_field_well_formed("name"@, CborModel::Text(e.name), d);
    lemma_field_well_formed("type"@, CborModel::Text(e.kind.unwrap_or(Seq::empty())), d);
    lemma_field_well_formed("off"@, CborModel::Unsigned(e.off), d);
    lemma_field_well_formed("len"@, CborModel::Unsigned(e.len.unwrap_or(0)), d);
    lemma_entries_well_formed_add(a, b, d);
    lemma_entries_well_formed_add(a + b, c, d);
    lemma_entries_well_formed_add(a + b + c, o, d);
    assert(e.payload()->Dict_0 =~= a + b + c + o);
    lemma_dict_well_formed(e.payload()->Dict_0, d);
    lemma_decode_of_encoding(e.payload());
    lemma_file_checksum_round_trip(e);
}

/// A file checksum response that is written out and read back from the
/// bytes is as it was, where its lengths can be written.
pub proof fn lemma_file_checksum_response_written_and_read(e: FileChecksumResponseView)
    requires
        encode_utf8(e.kind).len() <= u64::MAX,
        e.output matches FileChecksumDataView::Hash(bytes) ==> bytes.len() <= u64::MAX,
    ensures
        well_formed(e.payload(), NESTING_LIMIT as nat),
        decode_value(encode_value(e.payload())) == Some(e.payload()),
        FileChecksumResponseView::parse(e.payload()) == Ok::<FileChecksumResponseView, CodecError>(e),
{
    lemma_keys();
    let d = field_depth();
    let a = seq![entry("type"@, CborModel::Text(e.kind))];
    let b = optional(e.off != 0, "off"@, CborModel::Unsigned(e.off));
    let c = seq![entry("len"@, CborModel::Unsigned(e.len))];
    let o = seq![entry("output"@, output_item(e.output))];
    lemma_field_well_formed("type"@, CborModel::Text(e.kind), d);
    lemma_field_well_formed("off"@, CborModel::Unsigned(e.off), d);
    lemma_field_well_formed("len"@, CborModel::Unsigned(e.len), d);
    lemma_field_well_formed("output"@, output_item(e.output), d);
    lemma_entries_well_formed_add(a, b, d);
    lemma_entries_well_formed_add(a + b, c, d);
    lemma_entries_well_formed_add(a + b + c, o, d);
    assert(e.payload()->Dict_0 =~= a + b + c + o);
    lemma_dict_well_formed(e.payload()->Dict_0, d);
    lemma_decode_of_encoding(e.payload());
    lemma_file_checksum_response_round_trip(e);
}

/// A response of supported hashes and checksums that is written out and
/// read back from the bytes is as it was, where its lengths can be
/// written.
pub proof fn lemma_supported_response_written_and_read(e: SupportedFileChecksumTypesResponseView)
    requires
        e.types.len() <= u64::MAX,
        forall|i: int| 0 <= i < e.types.len() ==> encode_utf8((#[trigger] e.types[i]).0).len()
            <= u64::MAX,
    ensures
        well_formed(e.payload(), NESTING_LIMIT as nat),
        decode_value(encode_value(e.payload())) == Some(e.payload()),
        SupportedFileChecksumTypesResponseView::parse(e.payload()) == Ok::<SupportedFileChecksumTypesResponseView, CodecError>(e),
{
    reveal_strlit("types");
    reveal_strlit("format");
    reveal_strlit("size");
    let d = field_depth();
    let inner_depth = (d - 1) as nat;
    let record_depth = (d - 2) as nat;
    let inner = record_entries(e.types, |e: SupportedFileChecksumTypesEntry| e.payload());
    assert forall|i: int| 0 <= i < inner.len() implies well_formed(
        (#[trigger] inner[i]).0,
        inner_depth,
    ) && well_formed(inner[i].1, inner_depth) by {
        let record = e.types[i].1;
        let format = CborModel::Unsigned(
            match record.format {
                SupportedFileChecksumDataFormat::Numerical => 0,
                SupportedFileChecksumDataFormat::ByteArray => 1,
            },
        );
        let a = seq![entry("format"@, format)];
        let b = seq![entry("size"@, CborModel::Unsigned(record.size as u64))];
        lemma_field_well_formed("format"@, format, record_depth);
        lemma_field_well_formed("size"@, CborModel::Unsigned(record.size as u64), record_depth);
        lemma_entries_well_formed_add(a, b, record_depth);
        assert(record.payload()->Dict_0 =~= a + b);
        lemma_dict_well_formed(record.payload()->Dict_0, record_depth);
        assert(inner[i].0 == CborModel::Text(e.types[i].0));
    }
    lemma_dict_well_formed(inner, inner_depth);
    lemma_field_well_formed("types"@, CborModel::Dict(inner), d);
    lemma_dict_well_formed(e.payload()->Dict_0, d);
    lemma_decode_of_encoding(e.payload());
    lemma_supported_response_round_trip(e);
}

} // verus!
