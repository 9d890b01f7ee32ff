//! MCUboot firmware images: the header at the front and the records behind
//! the image, read from the bytes of a file.
use vstd::prelude::*;
use vstd::slice::{slice_subrange, slice_to_vec};
use vstd::string::StringExecFns;

verus! {

/// The first four bytes of an image, as a little-endian number.
pub const IMAGE_MAGIC: u32 = 0x96f3_b83d;

/// The first four bytes of an image with the header of the first version.
pub const IMAGE_MAGIC_V1: u32 = 0x96f3_b83c;

/// The number of bytes that the fields of the header take.
pub const IMAGE_HEADER_SIZE: usize = 32;

/// The first two bytes of the records that are not protected.
pub const TLV_INFO_MAGIC: u16 = 0x6907;

/// The first two bytes of the records that are protected.
pub const TLV_PROT_INFO_MAGIC: u16 = 0x6908;

/// The number of bytes in front of a run of records: the magic and the
/// length of the run.
pub const TLV_INFO_SIZE: usize = 4;

/// The type of the record that holds the SHA-256 hash of the image.
pub const TLV_SHA256: u16 = 0x10;

/// The number of bytes of a SHA-256 hash.
pub const SHA256_LEN: usize = 32;

/// The version of an image.
#[derive(Debug, Clone, Copy, PartialEq, Eq, Structural)]
pub struct ImageVersion {
    pub major: u8,
    pub minor: u8,
    pub revision: u16,
    pub build_num: u32,
}

/// What the header of an image says.
#[derive(Debug, Clone, Copy, PartialEq, Eq, Structural)]
pub struct ImageHeader {
    /// The address to load the image at.
    pub load_addr: u32,
    /// The number of bytes from the start of the file to the image.
    pub hdr_size: u16,
    /// The number of bytes of the protected records.
    pub protect_tlv_size: u16,
    /// The number of bytes of the image.
    pub img_size: u32,
    /// The flags.
    pub flags: u32,
    /// The version.
    pub version: ImageVersion,
}

/// What identifies an image.
#[derive(Debug, Clone, PartialEq, Eq)]
pub struct ImageInfo {
    /// The version.
    pub version: ImageVersion,
    /// The SHA-256 hash, 32 bytes.
    pub hash: Vec<u8>,
}

/// The model of [`ImageInfo`].
pub struct ImageInfoView {
    pub version: ImageVersion,
    pub hash: Seq<u8>,
}

impl View for ImageInfo {
    type V = ImageInfoView;

    open spec fn view(&self) -> ImageInfoView {
        ImageInfoView { version: self.version, hash: self.hash@ }
    }
}

/// Why bytes are no image that can be identified.
#[derive(Debug, Clone, Copy, PartialEq, Eq, Structural)]
pub enum ImageParseError {
    /// The bytes end before the header, the records or a record does.
    Truncated,
    /// The bytes do not start with the magic of an image.
    BadMagic,
    /// The header is of the first version, which is not read.
    UnsupportedVersion,
    /// The records do not start with their magic.
    BadTlvMagic,
    /// The records say that they are shorter than their own first bytes.
    BadTlvLength,
    /// No record holds a SHA-256 hash.
    MissingHash,
    /// The record of the SHA-256 hash does not hold 32 bytes.
    BadHashLength,
}

/// The little-endian number of the two bytes at `at`.
pub open spec fn le16(bytes: Seq<u8>, at: int) -> u16 {
    (bytes[at] + 256 * bytes[at + 1]) as u16
}

/// The little-endian number of the four bytes at `at`.
pub open spec fn le32(bytes: Seq<u8>, at: int) -> u32 {
    (bytes[at] + 256 * bytes[at + 1] + 65536 * bytes[at + 2] + 16777216 * bytes[at + 3]) as u32
}

/// The header that `bytes` start with.
pub open spec fn parse_header(bytes: Seq<u8>) -> Result<ImageHeader, ImageParseError> {
    if bytes.len() < IMAGE_HEADER_SIZE {
        Err(ImageParseError::Truncated)
    } else if le32(bytes, 0) == IMAGE_MAGIC_V1 {
        Err(ImageParseError::UnsupportedVersion)
    } else if le32(bytes, 0) != IMAGE_MAGIC {
        Err(ImageParseError::BadMagic)
    } else {
        Ok(
            ImageHeader {
                load_addr: le32(bytes, 4),
                hdr_size: le16(bytes, 8),
                protect_tlv_size: le16(bytes, 10),
                img_size: le32(bytes, 12),
                flags: le32(bytes, 16),
                version: ImageVersion {
                    major: bytes[20],
                    minor: bytes[21],
                    revision: le16(bytes, 22),
                    build_num: le32(bytes, 24),
                },
            },
        )
    }
}

/// The offset of the records that are not protected: behind the header,
/// the image and the protected records.
pub open spec fn tlv_offset(header: ImageHeader) -> int {
    header.hdr_size + header.img_size + header.protect_tlv_size
}

impl ImageHeader {
    /// The offset of the records that are not protected.
    pub fn records_offset(&self) -> (offset: u64)
        ensures
            offset == tlv_offset(*self),
    {
        self.hdr_size as u64 + self.img_size as u64 + self.protect_tlv_size as u64
    }
}

/// The hash in the first SHA-256 record among the records from `pos` up to
/// `end`. Each record is a type, a length and as many bytes as the length
/// says.
pub open spec fn find_hash(bytes: Seq<u8>, pos: int, end: int) -> Result<
    Seq<u8>,
    ImageParseError,
>
    decreases end - pos,
{
    if pos >= end {
        Err(ImageParseError::MissingHash)
    } else if pos + 4 > end {
        Err(ImageParseError::Truncated)
    } else if pos + 4 + le16(bytes, pos + 2) > end {
        Err(ImageParseError::Truncated)
    } else if le16(bytes, pos) == TLV_SHA256 {
        if le16(bytes, pos + 2) == SHA256_LEN {
            Ok(bytes.subrange(pos + 4, pos + 4 + SHA256_LEN))
        } else {
            Err(ImageParseError::BadHashLength)
        }
    } else {
        find_hash(bytes, pos + 4 + le16(bytes, pos + 2), end)
    }
}

/// The hash among the records that start at `start`: their magic, their
/// length with these four bytes counted in, and the records.
pub open spec fn parse_records(bytes: Seq<u8>, start: int) -> Result<Seq<u8>, ImageParseError> {
    if start + TLV_INFO_SIZE > bytes.len() {
        Err(ImageParseError::Truncated)
    } else if le16(bytes, start) != TLV_INFO_MAGIC {
        Err(ImageParseError::BadTlvMagic)
    } else if le16(bytes, start + 2) < TLV_INFO_SIZE {
        Err(ImageParseError::BadTlvLength)
    } else if start + le16(bytes, start + 2) > bytes.len() {
        Err(ImageParseError::Truncated)
    } else {
        find_hash(bytes, start + TLV_INFO_SIZE, start + le16(bytes, start + 2))
    }
}

/// What identifies the image that `bytes` hold: the version that the
/// header says, and the hash among the records behind the image.
pub open spec fn parse_image(bytes: Seq<u8>) -> Result<ImageInfoView, ImageParseError> {
    match parse_header(bytes) {
        Err(e) => Err(e),
        Ok(header) => match parse_records(bytes, tlv_offset(header)) {
            Err(e) => Err(e),
            Ok(hash) => Ok(ImageInfoView { version: header.version, hash }),
        },
    }
}

/// Bytes that are fewer than a header, or that do not start with the magic
/// of an image, hold no image.
pub proof fn lemma_short_or_wrong_magic_is_rejected(bytes: Seq<u8>)
    requires
        bytes.len() < IMAGE_HEADER_SIZE || le32(bytes, 0) != IMAGE_MAGIC,
    ensures
        parse_image(bytes) is Err,
        bytes.len() < IMAGE_HEADER_SIZE ==> parse_image(bytes) == Err::<
            ImageInfoView,
            ImageParseError,
        >(ImageParseError::Truncated),
        bytes.len() >= IMAGE_HEADER_SIZE ==> parse_image(bytes) == Err::<
            ImageInfoView,
            ImageParseError,
        >(
            if le32(bytes, 0) == IMAGE_MAGIC_V1 {
                ImageParseError::UnsupportedVersion
            } else {
                ImageParseError::BadMagic
            },
        ),
{
}

/// The hash of an image that is identified has 32 bytes.
pub proof fn lemma_hash_len(bytes: Seq<u8>, pos: int, end: int)
    requires
        0 <= pos,
        end <= bytes.len(),
    ensures
        find_hash(bytes, pos, end) matches Ok(hash) ==> hash.len() == SHA256_LEN,
    decreases end - pos,
{
    if pos >= end {
    } else if pos + 4 > end {
    } else if pos + 4 + le16(bytes, pos + 2) > end {
    } else if le16(bytes, pos) == TLV_SHA256 {
    } else {
        lemma_hash_len(bytes, pos + 4 + le16(bytes, pos + 2), end);
    }
}

/// Reads the little-endian number of the two bytes at `at`.
fn read_le16(bytes: &[u8], at: usize) -> (v: u16)
    requires
        at + 2 <= bytes.len(),
    ensures
        v == le16(bytes@, at as int),
{
    bytes[at] as u16 + 256 * (bytes[at + 1] as u16)
}

/// Reads the little-endian number of the four bytes at `at`.
fn read_le32(bytes: &[u8], at: usize) -> (v: u32)
    requires
        at + 4 <= bytes.len(),
    ensures
        v == le32(bytes@, at as int),
{
    bytes[at] as u32 + 256 * (bytes[at + 1] as u32) + 65536 * (bytes[at + 2] as u32) + 16777216
        * (bytes[at + 3] as u32)
}

/// Reads the header that `bytes` start with.
pub fn read_image_header(bytes: &[u8]) -> (r: Result<ImageHeader, ImageParseError>)
    ensures
        r == parse_header(bytes@),
{
    if bytes.len() < IMAGE_HEADER_SIZE {
        return Err(ImageParseError::Truncated);
    }
    let magic = read_le32(bytes, 0);
    if magic == IMAGE_MAGIC_V1 {
        return Err(ImageParseError::UnsupportedVersion);
    }
    if magic != IMAGE_MAGIC {
        return Err(ImageParseError::BadMagic);
    }
    Ok(
        ImageHeader {
            load_addr: read_le32(bytes, 4),
            hdr_size: read_le16(bytes, 8),
            protect_tlv_size: read_le16(bytes, 10),
            img_size: read_le32(bytes, 12),
            flags: read_le32(bytes, 16),
            version: ImageVersion {
                major: bytes[20],
                minor: bytes[21],
                revision: read_le16(bytes, 22),
                build_num: read_le32(bytes, 24),
            },
        },
    )
}

/// Reads the hash among the records that start at `start`.
pub fn read_records(bytes: &[u8], start: u64) -> (r: Result<Vec<u8>, ImageParseError>)
    ensures
        match parse_records(bytes@, start as int) {
            Ok(hash) => r matches Ok(h) && h@ == hash && h.len() == SHA256_LEN,
            Err(e) => r matches Err(f) && f == e,
        },
{
    let len: u64 = bytes.len() as u64;
    if start > len || len - start < TLV_INFO_SIZE as u64 {
        return Err(ImageParseError::Truncated);
    }
    let base: usize = start as usize;
    if read_le16(bytes, base) != TLV_INFO_MAGIC {
        return Err(ImageParseError::BadTlvMagic);
    }
    let run: usize = read_le16(bytes, base + 2) as usize;
    if run < TLV_INFO_SIZE {
        return Err(ImageParseError::BadTlvLength);
    }
    if run > bytes.len() - base {
        return Err(ImageParseError::Truncated);
    }
    let end: usize = base + run;
    let mut pos: usize = base + TLV_INFO_SIZE;
    proof {
        lemma_hash_len(bytes@, pos as int, end as int);
    }
    while pos < end
        invariant
            pos <= end <= bytes.len() || pos > end,
            end <= bytes.len(),
            find_hash(bytes@, pos as int, end as int) == find_hash(
                bytes@,
                base + TLV_INFO_SIZE,
                end as int,
            ),
            parse_records(bytes@, start as int) == find_hash(
                bytes@,
                base + TLV_INFO_SIZE,
                end as int,
            ),
        decreases end - pos,
    {
        if end - pos < 4 {
            return Err(ImageParseError::Truncated);
        }
        let kind = read_le16(bytes, pos);
        let size: usize = read_le16(bytes, pos + 2) as usize;
        if size > end - pos - 4 {
            return Err(ImageParseError::Truncated);
        }
        if kind == TLV_SHA256 {
            if size != SHA256_LEN {
                return Err(ImageParseError::BadHashLength);
            }
            let hash = slice_to_vec(slice_subrange(bytes, pos + 4, pos + 4 + SHA256_LEN));
            return Ok(hash);
        }
        pos = pos + 4 + size;
    }
    Err(ImageParseError::MissingHash)
}

/// Identifies the image that `image_data` hold: reads the version from the
/// header and the SHA-256 hash from the records behind the image.
pub fn mcuboot_parse_image(image_data: &[u8]) -> (r: Result<ImageInfo, ImageParseError>)
    ensures
        match parse_image(image_data@) {
            Ok(info) => r matches Ok(i) && i@ == info && i.hash.len() == SHA256_LEN,
            Err(e) => r matches Err(f) && f == e,
        },
{
    let header = read_image_header(image_data)?;
    let hash = read_records(image_data, header.records_offset())?;
    Ok(ImageInfo { version: header.version, hash })
}

/// The character of the digit `d`.
pub open spec fn digit(d: nat) -> char {
    if d == 0 {
        '0'
    } else if d == 1 {
        '1'
    } else if d == 2 {
        '2'
    } else if d == 3 {
        '3'
    } else if d == 4 {
        '4'
    } else if d == 5 {
        '5'
    } else if d == 6 {
        '6'
    } else if d == 7 {
        '7'
    } else if d == 8 {
        '8'
    } else {
        '9'
    }
}

/// The digits of `n` in base ten, without leading zeros.
pub open spec fn decimal(n: nat) -> Seq<char>
    decreases n,
{
    if n < 10 {
        seq![digit(n)]
    } else {
        decimal(n / 10).push(digit(n % 10))
    }
}

/// The text of a version: major, minor and revision with a dot between
/// them, and the build number behind a plus sign where it is not zero.
pub open spec fn version_text(version: ImageVersion) -> Seq<char> {
    decimal(version.major as nat) + seq!['.'] + decimal(version.minor as nat) + seq!['.']
        + decimal(version.revision as nat) + if version.build_num != 0 {
        seq!['+'] + decimal(version.build_num as nat)
    } else {
        Seq::empty()
    }
}

/// The text of the digit `d`.
fn digit_text(d: u32) -> (text: &'static str)
    requires
        d < 10,
    ensures
        text@ == seq![digit(d as nat)],
{
    proof {
        reveal_strlit("0");
        reveal_strlit("1");
        reveal_strlit("2");
        reveal_strlit("3");
        reveal_strlit("4");
        reveal_strlit("5");
        reveal_strlit("6");
        reveal_strlit("7");
        reveal_strlit("8");
        reveal_strlit("9");
    }
    let text = if d == 0 {
        "0"
    } else if d == 1 {
        "1"
    } else if d == 2 {
        "2"
    } else if d == 3 {
        "3"
    } else if d == 4 {
        "4"
    } else if d == 5 {
        "5"
    } else if d == 6 {
        "6"
    } else if d == 7 {
        "7"
    } else if d == 8 {
        "8"
    } else {
        "9"
    };
    assert(text@ =~= seq![digit(d as nat)]);
    text
}

/// Appends the digits of `n` in base ten to `out`.
fn push_decimal(out: &mut String, n: u32)
    ensures
        final(out)@ == old(out)@ + decimal(n as nat),
    decreases n,
{
    if n >= 10 {
        push_decimal(out, n / 10);
    }
    out.append(digit_text(n % 10));
    assert(final(out)@ =~= old(out)@ + decimal(n as nat));
}

impl ImageVersion {
    /// The text of this version.
    pub fn to_text(&self) -> (text: String)
        ensures
            text@ == version_text(*self),
    {
        proof {
            reveal_strlit(".");
            reveal_strlit("+");
        }
        let mut text = String::new();
        push_decimal(&mut text, self.major as u32);
        text.append(".");
        push_decimal(&mut text, self.minor as u32);
        text.append(".");
        push_decimal(&mut text, self.revision as u32);
        if self.build_num != 0 {
            text.append("+");
            push_decimal(&mut text, self.build_num);
        }
        assert(text@ =~= version_text(*self));
        text
    }
}

} // verus!
