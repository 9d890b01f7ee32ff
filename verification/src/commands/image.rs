//! The commands of the image group.
use crate::cbor::access::{
    bool_at, bool_value, bytes_at, bytes_value, dict_value, entries, entries_of, entry, find_bool,
    find_integer, integer_at, optional, put, required, unsigned_max,
};
use crate::cbor::decode::{decode_value, CodecError, NESTING_LIMIT};
use crate::cbor::laws::{
    lemma_decode_of_encoding, lemma_dict_well_formed, lemma_entries_well_formed_add,
    lemma_field_well_formed,
};
use crate::cbor::value::{encode_value, well_formed};
use crate::commands::fs::field_depth;
use crate::cbor::value::{boolean, pair_models, CborModel, CborValue};
use crate::commands::{CommandIdentity, Direction, McuMgrCommand};
use vstd::prelude::*;

verus! {

broadcast use vstd::string::group_string_axioms;

/// The number of the image group.
pub const GROUP_IMAGE: u16 = 1;

/// Writes one chunk of a firmware image.
#[derive(Debug, Clone, PartialEq, Eq)]
pub struct ImageUpload {
    /// The number of the image to write; sent with the chunk at offset zero.
    pub image: Option<u32>,
    /// The length of the whole image; sent with the chunk at offset zero.
    pub len: Option<u64>,
    /// The offset of the chunk in the image.
    pub off: u64,
    /// The hash of the whole image; sent with the chunk at offset zero.
    pub sha: Option<Vec<u8>>,
    /// The bytes of the chunk.
    pub data: Vec<u8>,
    /// Whether only a newer version may be written; sent with the chunk at
    /// offset zero.
    pub upgrade: Option<bool>,
}

/// The model of [`ImageUpload`].
pub struct ImageUploadView {
    pub image: Option<u32>,
    pub len: Option<u64>,
    pub off: u64,
    pub sha: Option<Seq<u8>>,
    pub data: Seq<u8>,
    pub upgrade: Option<bool>,
}

/// The model of an optional byte string.
pub open spec fn optional_bytes(bytes: Option<Vec<u8>>) -> Option<Seq<u8>> {
    match bytes {
        Some(b) => Some(b@),
        None => None,
    }
}

impl View for ImageUpload {
    type V = ImageUploadView;

    open spec fn view(&self) -> ImageUploadView {
        ImageUploadView {
            image: self.image,
            len: self.len,
            off: self.off,
            sha: optional_bytes(self.sha),
            data: self.data@,
            upgrade: self.upgrade,
        }
    }
}

impl ImageUploadView {
    /// The payload: `off` and `data`, and each of `image`, `len`, `sha` and
    /// `upgrade` where there is one.
    pub open spec fn payload(self) -> CborModel {
        CborModel::Dict(
            optional(self.image is Some, "image"@, CborModel::Unsigned(self.image.unwrap_or(0) as u64))
                + optional(self.len is Some, "len"@, CborModel::Unsigned(self.len.unwrap_or(0)))
                + seq![entry("off"@, CborModel::Unsigned(self.off))] + optional(
                self.sha is Some,
                "sha"@,
                CborModel::Bytes(self.sha.unwrap_or(Seq::empty())),
            ) + seq![entry("data"@, CborModel::Bytes(self.data))] + optional(
                self.upgrade is Some,
                "upgrade"@,
                boolean(self.upgrade.unwrap_or(false)),
            ),
        )
    }

    /// The request that a payload spells.
    pub open spec fn parse(m: CborModel) -> Result<ImageUploadView, CodecError> {
        match entries_of(m) {
            None => Err(CodecError::Mismatch),
            Some(es) => {
                let image = integer_at(es, "image"@, 0, 0xffff_ffff);
                let len = integer_at(es, "len"@, 0, unsigned_max());
                let off = required(integer_at(es, "off"@, 0, unsigned_max()));
                let sha = bytes_at(es, "sha"@);
                let data = required(bytes_at(es, "data"@));
                let upgrade = bool_at(es, "upgrade"@);
                if image is Ok && len is Ok && off is Ok && sha is Ok && data is Ok && upgrade
                    is Ok {
                    Ok(
                        ImageUploadView {
                            image: match image->Ok_0 {
                                Some(i) => Some(i as u32),
                                None => None,
                            },
                            len: match len->Ok_0 {
                                Some(l) => Some(l as u64),
                                None => None,
                            },
                            off: off->Ok_0 as u64,
                            sha: sha->Ok_0,
                            data: data->Ok_0,
                            upgrade: upgrade->Ok_0,
                        },
                    )
                } else {
                    Err(CodecError::Mismatch)
                }
            },
        }
    }
}

impl ImageUpload {
    /// The identity of the command: write `1` of the image group.
    pub open spec fn identity() -> CommandIdentity {
        CommandIdentity { group_id: GROUP_IMAGE, command_id: 1, direction: Direction::Write }
    }

    /// The payload of this request.
    pub fn to_value(&self) -> (v: CborValue)
        ensures
            v@ == self@.payload(),
    {
        let mut es: Vec<(CborValue, CborValue)> = Vec::new();
        match self.image {
            Some(image) => {
                put(&mut es, "image", CborValue::Unsigned(image as u64));
            },
            None => {},
        }
        match self.len {
            Some(len) => {
                put(&mut es, "len", CborValue::Unsigned(len));
            },
            None => {},
        }
        put(&mut es, "off", CborValue::Unsigned(self.off));
        match &self.sha {
            Some(sha) => {
                put(&mut es, "sha", bytes_value(sha.as_slice()));
            },
            None => {},
        }
        put(&mut es, "data", bytes_value(self.data.as_slice()));
        match self.upgrade {
            Some(upgrade) => {
                put(&mut es, "upgrade", bool_value(upgrade));
            },
            None => {},
        }
        assert(pair_models(es@) =~= self@.payload()->Dict_0);
        dict_value(es)
    }
}

/// The offset up to which the device has the image.
#[derive(Debug, Clone, Copy, PartialEq, Eq)]
pub struct ImageUploadResponse {
    /// The offset of the next chunk that the device wants.
    pub off: u64,
    /// Whether what the device has matches the hash that was sent; sent
    /// when the image is complete.
    pub matches: Option<bool>,
}

impl ImageUploadResponse {
    /// The payload: `off`, and `match` where there is one.
    pub open spec fn payload(self) -> CborModel {
        CborModel::Dict(
            seq![entry("off"@, CborModel::Unsigned(self.off))] + optional(
                self.matches is Some,
                "match"@,
                boolean(self.matches.unwrap_or(false)),
            ),
        )
    }

    /// The response that a payload spells.
    pub open spec fn parse(m: CborModel) -> Result<ImageUploadResponse, CodecError> {
        match entries_of(m) {
            None => Err(CodecError::Mismatch),
            Some(es) => {
                let off = required(integer_at(es, "off"@, 0, unsigned_max()));
                let matches = bool_at(es, "match"@);
                if off is Ok && matches is Ok {
                    Ok(ImageUploadResponse { off: off->Ok_0 as u64, matches: matches->Ok_0 })
                } else {
                    Err(CodecError::Mismatch)
                }
            },
        }
    }

    /// Reads a response from its payload.
    pub fn from_value(value: &CborValue) -> (r: Result<ImageUploadResponse, CodecError>)
        ensures
            r == Self::parse(value@),
    {
        let es = entries(value)?;
        let off = find_integer(es, "off", 0, 0xffff_ffff_ffff_ffff)?;
        let matches = find_bool(es, "match")?;
        match off {
            Some(off) => Ok(ImageUploadResponse { off: off as u64, matches }),
            None => Err(CodecError::Mismatch),
        }
    }
}

impl McuMgrCommand for ImageUpload {
    type Response = ImageUploadResponse;

    fn is_write_operation(&self) -> (w: bool)
        ensures
            w,
    {
        true
    }

    fn group_id(&self) -> (g: u16)
        ensures
            g == GROUP_IMAGE,
    {
        GROUP_IMAGE
    }

    fn command_id(&self) -> (c: u8)
        ensures
            c == 1,
    {
        1
    }

    fn data(&self) -> (v: CborValue)
        ensures
            v@ == self@.payload(),
    {
        self.to_value()
    }

    fn parse_response(&self, payload: &CborValue) -> (r: Result<ImageUploadResponse, CodecError>)
        ensures
            r == ImageUploadResponse::parse(payload@),
    {
        ImageUploadResponse::from_value(payload)
    }
}

/// Marks an image for the next boot: to be tried once, or to stay.
#[derive(Debug, Clone, PartialEq, Eq)]
pub struct ImageStateWrite {
    /// The hash of the image; without one, the running image is meant.
    pub hash: Option<Vec<u8>>,
    /// Whether the image is to stay: `false` marks it to be tried once and
    /// given up unless it is confirmed after it has booted.
    pub confirm: bool,
}

/// The model of [`ImageStateWrite`].
pub struct ImageStateWriteView {
    pub hash: Option<Seq<u8>>,
    pub confirm: bool,
}

impl View for ImageStateWrite {
    type V = ImageStateWriteView;

    open spec fn view(&self) -> ImageStateWriteView {
        ImageStateWriteView { hash: optional_bytes(self.hash), confirm: self.confirm }
    }
}

impl ImageStateWriteView {
    /// The payload: `hash` where there is one, and `confirm` where it is
    /// not `false`.
    pub open spec fn payload(self) -> CborModel {
        CborModel::Dict(
            optional(
                self.hash is Some,
                "hash"@,
                CborModel::Bytes(self.hash.unwrap_or(Seq::empty())),
            ) + optional(self.confirm, "confirm"@, boolean(true)),
        )
    }

    /// The request that a payload spells.
    pub open spec fn parse(m: CborModel) -> Result<ImageStateWriteView, CodecError> {
        match entries_of(m) {
            None => Err(CodecError::Mismatch),
            Some(es) => {
                let hash = bytes_at(es, "hash"@);
                let confirm = bool_at(es, "confirm"@);
                if hash is Ok && confirm is Ok {
                    Ok(
                        ImageStateWriteView {
                            hash: hash->Ok_0,
                            confirm: confirm->Ok_0.unwrap_or(false),
                        },
                    )
                } else {
                    Err(CodecError::Mismatch)
                }
            },
        }
    }
}

impl ImageStateWrite {
    /// The identity of the command: write `0` of the image group.
    pub open spec fn identity() -> CommandIdentity {
        CommandIdentity { group_id: GROUP_IMAGE, command_id: 0, direction: Direction::Write }
    }

    /// The payload of this request.
    pub fn to_value(&self) -> (v: CborValue)
        ensures
            v@ == self@.payload(),
    {
        let mut es: Vec<(CborValue, CborValue)> = Vec::new();
        match &self.hash {
            Some(hash) => {
                put(&mut es, "hash", bytes_value(hash.as_slice()));
            },
            None => {},
        }
        if !crate::commands::is_default(&self.confirm) {
            put(&mut es, "confirm", bool_value(true));
        }
        assert(pair_models(es@) =~= self@.payload()->Dict_0);
        dict_value(es)
    }
}

impl McuMgrCommand for ImageStateWrite {
    type Response = ();

    fn is_write_operation(&self) -> (w: bool)
        ensures
            w,
    {
        true
    }

    fn group_id(&self) -> (g: u16)
        ensures
            g == GROUP_IMAGE,
    {
        GROUP_IMAGE
    }

    fn command_id(&self) -> (c: u8)
        ensures
            c == 0,
    {
        0
    }

    fn data(&self) -> (v: CborValue)
        ensures
            v@ == self@.payload(),
    {
        self.to_value()
    }

    fn parse_response(&self, payload: &CborValue) -> (r: Result<(), CodecError>)
        ensures
            r is Ok,
    {
        Ok(())
    }
}

/// The keys of the payloads of this group differ from one another.
proof fn lemma_keys()
    ensures
        "off"@.len() == 3 && "off"@[0] == 'o',
        "len"@.len() == 3 && "len"@[0] == 'l',
        "sha"@.len() == 3 && "sha"@[0] == 's',
        "data"@.len() == 4 && "data"@[0] == 'd',
        "hash"@.len() == 4 && "hash"@[0] == 'h',
        "image"@.len() == 5 && "image"@[0] == 'i',
        "match"@.len() == 5 && "match"@[0] == 'm',
        "upgrade"@.len() == 7 && "upgrade"@[0] == 'u',
        "confirm"@.len() == 7 && "confirm"@[0] == 'c',
{
    reveal_strlit("off");
    reveal_strlit("len");
    reveal_strlit("sha");
    reveal_strlit("data");
    reveal_strlit("hash");
    reveal_strlit("image");
    reveal_strlit("match");
    reveal_strlit("upgrade");
    reveal_strlit("confirm");
}

/// An image upload request reads back from its payload as it was.
pub proof fn lemma_image_upload_round_trip(e: ImageUploadView)
    ensures
        ImageUploadView::parse(e.payload()) == Ok::<ImageUploadView, CodecError>(e),
{
    lemma_keys();
    reveal_with_fuel(crate::cbor::access::lookup_from, 7);
}

/// An image upload response reads back from its payload as it was.
pub proof fn lemma_image_upload_response_round_trip(e: ImageUploadResponse)
    ensures
        ImageUploadResponse::parse(e.payload()) == Ok::<ImageUploadResponse, CodecError>(e),
{
    lemma_keys();
    reveal_with_fuel(crate::cbor::access::lookup_from, 3);
}

/// An image state request reads back from its payload as it was.
pub proof fn lemma_image_state_write_round_trip(e: ImageStateWriteView)
    ensures
        ImageStateWriteView::parse(e.payload()) == Ok::<ImageStateWriteView, CodecError>(e),
{
    lemma_keys();
    reveal_with_fuel(crate::cbor::access::lookup_from, 3);
}

/// An image upload request that is written out and read back from the
/// bytes is as it was, where its lengths can be written.
pub proof fn lemma_image_upload_written_and_read(e: ImageUploadView)
    requires
        e.data.len() <= u64::MAX,
        e.sha matches Some(sha) ==> sha.len() <= u64::MAX,
    ensures
        well_formed(e.payload(), NESTING_LIMIT as nat),
        decode_value(encode_value(e.payload())) == Some(e.payload()),
        ImageUploadView::parse(e.payload()) == Ok::<ImageUploadView, CodecError>(e),
{
    lemma_keys();
    let d = field_depth();
    let image = CborModel::Unsigned(e.image.unwrap_or(0) as u64);
    let len = CborModel::Unsigned(e.len.unwrap_or(0));
    let sha = CborModel::Bytes(e.sha.unwrap_or(Seq::empty()));
    let upgrade = boolean(e.upgrade.unwrap_or(false));
    let a = optional(e.image is Some, "image"@, image);
    let b = optional(e.len is Some, "len"@, len);
    let c = seq![entry("off"@, CborModel::Unsigned(e.off))];
    let o = optional(e.sha is Some, "sha"@, sha);
    let p = seq![entry("data"@, CborModel::Bytes(e.data))];
    let q = optional(e.upgrade is Some, "upgrade"@, upgrade);
    lemma_field_well_formed("image"@, image, d);
    lemma_field_well_formed("len"@, len, d);
    lemma_field_well_formed("off"@, CborModel::Unsigned(e.off), d);
    lemma_field_well_formed("sha"@, sha, d);
    lemma_field_well_formed("data"@, CborModel::Bytes(e.data), d);
    lemma_field_well_formed("upgrade"@, upgrade, d);
    lemma_entries_well_formed_add(a, b, d);
    lemma_entries_well_formed_add(a + b, c, d);
    lemma_entries_well_formed_add(a + b + c, o, d);
    lemma_entries_well_formed_add(a + b + c + o, p, d);
    lemma_entries_well_formed_add(a + b + c + o + p, q, d);
    assert(e.payload()->Dict_0 =~= a + b + c + o + p + q);
    lemma_dict_well_formed(e.payload()->Dict_0, d);
    lemma_decode_of_encoding(e.payload());
    lemma_image_upload_round_trip(e);
}

/// An image upload response that is written out and read back from the
/// bytes is as it was.
pub proof fn lemma_image_upload_response_written_and_read(e: ImageUploadResponse)
    ensures
        well_formed(e.payload(), NESTING_LIMIT as nat),
        decode_value(encode_value(e.payload())) == Some(e.payload()),
        ImageUploadResponse::parse(e.payload()) == Ok::<ImageUploadResponse, CodecError>(e),
{
    lemma_keys();
    let d = field_depth();
    let a = seq![entry("off"@, CborModel::Unsigned(e.off))];
    let b = optional(e.matches is Some, "match"@, boolean(e.matches.unwrap_or(false)));
    lemma_field_well_formed("off"@, CborModel::Unsigned(e.off), d);
    lemma_field_well_formed("match"@, boolean(e.matches.unwrap_or(false)), d);
    lemma_entries_well_formed_add(a, b, d);
    lemma_dict_well_formed(e.payload()->Dict_0, d);
    lemma_decode_of_encoding(e.payload());
    lemma_image_upload_response_round_trip(e);
}

/// An image state request that is written out and read back from the
/// bytes is as it was, where its lengths can be written.
pub proof fn lemma_image_state_write_written_and_read(e: ImageStateWriteView)
    requires
        e.hash matches Some(hash) ==> hash.len() <= u64::MAX,
    ensures
        well_formed(e.payload(), NESTING_LIMIT as nat),
        decode_value(encode_value(e.payload())) == Some(e.payload()),
        ImageStateWriteView::parse(e.payload()) == Ok::<ImageStateWriteView, CodecError>(e),
{
    lemma_keys();
    let d = field_depth();
    let hash = CborModel::Bytes(e.hash.unwrap_or(Seq::empty()));
    let a = optional(e.hash is Some, "hash"@, hash);
    let b = optional(e.confirm, "confirm"@, boolean(true));
    lemma_field_well_formed("hash"@, hash, d);
    lemma_field_well_formed("confirm"@, boolean(true), d);
    lemma_entries_well_formed_add(a, b, d);
    lemma_dict_well_formed(e.payload()->Dict_0, d);
    lemma_decode_of_encoding(e.payload());
    lemma_image_state_write_round_trip(e);
}

} // verus!
