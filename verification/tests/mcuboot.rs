use zephyr_mcumgr::mcuboot::{
    mcuboot_parse_image, read_image_header, read_records, ImageHeader, ImageInfo,
    ImageParseError, ImageVersion,
};

fn header(hdr_size: u16, protect: u16, img_size: u32, version: (u8, u8, u16, u32)) -> Vec<u8> {
    let mut bytes: Vec<u8> = Vec::new();
    bytes.extend_from_slice(&0x96f3b83du32.to_le_bytes());
    bytes.extend_from_slice(&0x0800_0000u32.to_le_bytes());
    bytes.extend_from_slice(&hdr_size.to_le_bytes());
    bytes.extend_from_slice(&protect.to_le_bytes());
    bytes.extend_from_slice(&img_size.to_le_bytes());
    bytes.extend_from_slice(&0x0000_0010u32.to_le_bytes());
    bytes.push(version.0);
    bytes.push(version.1);
    bytes.extend_from_slice(&version.2.to_le_bytes());
    bytes.extend_from_slice(&version.3.to_le_bytes());
    bytes.extend_from_slice(&[0; 4]);
    bytes
}

fn record(kind: u16, data: &[u8]) -> Vec<u8> {
    let mut bytes: Vec<u8> = Vec::new();
    bytes.extend_from_slice(&kind.to_le_bytes());
    bytes.extend_from_slice(&(data.len() as u16).to_le_bytes());
    bytes.extend_from_slice(data);
    bytes
}

fn records(magic: u16, entries: &[Vec<u8>]) -> Vec<u8> {
    let body: Vec<u8> = entries.concat();
    let mut bytes: Vec<u8> = Vec::new();
    bytes.extend_from_slice(&magic.to_le_bytes());
    bytes.extend_from_slice(&((body.len() + 4) as u16).to_le_bytes());
    bytes.extend_from_slice(&body);
    bytes
}

fn hash() -> Vec<u8> {
    (100..132).collect()
}

fn image() -> Vec<u8> {
    let mut bytes = header(0x200, 0, 5, (1, 2, 3, 4));
    bytes.resize(0x200, 0xff);
    bytes.extend_from_slice(&[1, 2, 3, 4, 5]);
    bytes.extend_from_slice(&records(
        0x6907,
        &[record(0x01, &[9; 32]), record(0x10, &hash()), record(0x20, &[8; 64])],
    ));
    bytes
}

#[test]
fn image_is_identified() {
    assert_eq!(
        mcuboot_parse_image(&image()),
        Ok(ImageInfo {
            version: ImageVersion { major: 1, minor: 2, revision: 3, build_num: 4 },
            hash: hash(),
        })
    );
    let mut padded = image();
    padded.extend_from_slice(&[0xff; 100]);
    assert_eq!(mcuboot_parse_image(&padded).unwrap().hash, hash());
}

#[test]
fn header_is_read() {
    assert_eq!(
        read_image_header(&image()),
        Ok(ImageHeader {
            load_addr: 0x0800_0000,
            hdr_size: 0x200,
            protect_tlv_size: 0,
            img_size: 5,
            flags: 0x10,
            version: ImageVersion { major: 1, minor: 2, revision: 3, build_num: 4 },
        })
    );
    let bytes = header(0xfffe, 0x1234, 0xdead_beef, (255, 254, 0xfffd, 0xffff_fffc));
    assert_eq!(
        read_image_header(&bytes),
        Ok(ImageHeader {
            load_addr: 0x0800_0000,
            hdr_size: 0xfffe,
            protect_tlv_size: 0x1234,
            img_size: 0xdead_beef,
            flags: 0x10,
            version: ImageVersion {
                major: 255,
                minor: 254,
                revision: 0xfffd,
                build_num: 0xffff_fffc
            },
        })
    );
}

#[test]
fn protected_records_are_passed_over() {
    let protected = records(0x6908, &[record(0x50, &[1, 2, 3, 4])]);
    let mut bytes = header(32, protected.len() as u16, 3, (0, 0, 0, 0));
    bytes.extend_from_slice(&[1, 2, 3]);
    bytes.extend_from_slice(&protected);
    bytes.extend_from_slice(&records(0x6907, &[record(0x10, &hash())]));
    assert_eq!(mcuboot_parse_image(&bytes).unwrap().hash, hash());
}

#[test]
fn the_first_hash_is_the_hash() {
    let mut bytes = header(32, 0, 0, (0, 0, 0, 0));
    bytes.extend_from_slice(&records(0x6907, &[record(0x10, &hash()), record(0x10, &[0; 32])]));
    assert_eq!(mcuboot_parse_image(&bytes).unwrap().hash, hash());
}

#[test]
fn too_short_for_a_header() {
    assert_eq!(mcuboot_parse_image(&[]), Err(ImageParseError::Truncated));
    assert_eq!(mcuboot_parse_image(&image()[..31]), Err(ImageParseError::Truncated));
    assert_eq!(mcuboot_parse_image(&[0x3d, 0xb8, 0xf3, 0x96]), Err(ImageParseError::Truncated));
    assert_eq!(read_image_header(&image()[..31]), Err(ImageParseError::Truncated));
    assert!(read_image_header(&image()[..32]).is_ok());
}

#[test]
fn wrong_magic() {
    let mut bytes = image();
    bytes[0] = 0x3e;
    assert_eq!(mcuboot_parse_image(&bytes), Err(ImageParseError::BadMagic));
    let mut bytes = image();
    bytes[3] = 0x00;
    assert_eq!(mcuboot_parse_image(&bytes), Err(ImageParseError::BadMagic));
    assert_eq!(mcuboot_parse_image(&[0u8; 64]), Err(ImageParseError::BadMagic));
    let swapped = [0x96u8, 0xf3, 0xb8, 0x3d];
    let mut bytes = image();
    bytes[..4].copy_from_slice(&swapped);
    assert_eq!(mcuboot_parse_image(&bytes), Err(ImageParseError::BadMagic));
}

#[test]
fn header_of_the_first_version() {
    let mut bytes = image();
    bytes[0] = 0x3c;
    assert_eq!(mcuboot_parse_image(&bytes), Err(ImageParseError::UnsupportedVersion));
}

#[test]
fn records_cut_short() {
    let whole = image();
    let start = 0x200 + 5;
    assert_eq!(mcuboot_parse_image(&whole[..start]), Err(ImageParseError::Truncated));
    assert_eq!(mcuboot_parse_image(&whole[..start + 3]), Err(ImageParseError::Truncated));
    assert_eq!(mcuboot_parse_image(&whole[..start + 4]), Err(ImageParseError::Truncated));
    assert_eq!(mcuboot_parse_image(&whole[..whole.len() - 1]), Err(ImageParseError::Truncated));
    let mut bytes = header(32, 0, 0x1000, (0, 0, 0, 0));
    bytes.extend_from_slice(&records(0x6907, &[record(0x10, &hash())]));
    assert_eq!(mcuboot_parse_image(&bytes), Err(ImageParseError::Truncated));
    let mut bytes = header(0xffff, 0xffff, 0xffff_ffff, (0, 0, 0, 0));
    bytes.extend_from_slice(&[0; 64]);
    assert_eq!(mcuboot_parse_image(&bytes), Err(ImageParseError::Truncated));
}

#[test]
fn a_record_longer_than_the_records() {
    let mut bytes = header(32, 0, 0, (0, 0, 0, 0));
    let mut run = records(0x6907, &[record(0x20, &[1, 2, 3])]);
    run[6] = 4;
    bytes.extend_from_slice(&run);
    bytes.extend_from_slice(&record(0x10, &hash()));
    assert_eq!(mcuboot_parse_image(&bytes), Err(ImageParseError::Truncated));
    let mut bytes = header(32, 0, 0, (0, 0, 0, 0));
    let mut run = records(0x6907, &[record(0x20, &[])]);
    run.truncate(7);
    run[2] = 7;
    bytes.extend_from_slice(&run);
    assert_eq!(mcuboot_parse_image(&bytes), Err(ImageParseError::Truncated));
}

#[test]
fn records_without_their_magic() {
    let mut bytes = header(32, 0, 0, (0, 0, 0, 0));
    bytes.extend_from_slice(&records(0x6908, &[record(0x10, &hash())]));
    assert_eq!(mcuboot_parse_image(&bytes), Err(ImageParseError::BadTlvMagic));
    let mut bytes = header(32, 0, 0, (0, 0, 0, 0));
    bytes.extend_from_slice(&[0; 40]);
    assert_eq!(mcuboot_parse_image(&bytes), Err(ImageParseError::BadTlvMagic));
}

#[test]
fn records_shorter_than_their_own_start() {
    let mut bytes = header(32, 0, 0, (0, 0, 0, 0));
    bytes.extend_from_slice(&[0x07, 0x69, 0x03, 0x00, 0, 0, 0, 0]);
    assert_eq!(mcuboot_parse_image(&bytes), Err(ImageParseError::BadTlvLength));
    assert_eq!(read_records(&[0x07, 0x69, 0x00, 0x00], 0), Err(ImageParseError::BadTlvLength));
}

#[test]
fn no_hash_among_the_records() {
    let mut bytes = header(32, 0, 0, (0, 0, 0, 0));
    bytes.extend_from_slice(&records(0x6907, &[]));
    assert_eq!(mcuboot_parse_image(&bytes), Err(ImageParseError::MissingHash));
    let mut bytes = header(32, 0, 0, (0, 0, 0, 0));
    bytes.extend_from_slice(&records(0x6907, &[record(0x11, &[0; 48]), record(0x20, &[1])]));
    assert_eq!(mcuboot_parse_image(&bytes), Err(ImageParseError::MissingHash));
}

#[test]
fn a_hash_of_another_length() {
    let mut bytes = header(32, 0, 0, (0, 0, 0, 0));
    bytes.extend_from_slice(&records(0x6907, &[record(0x10, &[0; 31])]));
    assert_eq!(mcuboot_parse_image(&bytes), Err(ImageParseError::BadHashLength));
    let mut bytes = header(32, 0, 0, (0, 0, 0, 0));
    bytes.extend_from_slice(&records(0x6907, &[record(0x10, &[0; 33])]));
    assert_eq!(mcuboot_parse_image(&bytes), Err(ImageParseError::BadHashLength));
}

#[test]
fn records_read_from_an_offset() {
    let run = records(0x6907, &[record(0x10, &hash())]);
    assert_eq!(read_records(&run, 0), Ok(hash()));
    let mut shifted = vec![0u8; 10];
    shifted.extend_from_slice(&run);
    assert_eq!(read_records(&shifted, 10), Ok(hash()));
    assert_eq!(read_records(&shifted, 11), Err(ImageParseError::BadTlvMagic));
    assert_eq!(read_records(&shifted, shifted.len() as u64), Err(ImageParseError::Truncated));
    assert_eq!(read_records(&shifted, u64::MAX), Err(ImageParseError::Truncated));
}

#[test]
fn text_of_a_version() {
    let version = |major, minor, revision, build_num| ImageVersion { major, minor, revision, build_num };
    assert_eq!(version(1, 2, 3, 4).to_text(), "1.2.3+4");
    assert_eq!(version(0, 0, 0, 0).to_text(), "0.0.0");
    assert_eq!(version(10, 20, 300, 0).to_text(), "10.20.300");
    assert_eq!(version(255, 255, 65535, 4294967295).to_text(), "255.255.65535+4294967295");
    assert_eq!(version(9, 10, 99, 100).to_text(), "9.10.99+100");
    assert_eq!(version(100, 101, 1000, 1).to_text(), "100.101.1000+1");
}

#[test]
fn header_and_records_without_the_image() {
    let whole = image();
    let header = read_image_header(&whole[..32]).unwrap();
    assert_eq!(header.records_offset(), 0x200 + 5);
    let trailer = &whole[header.records_offset() as usize..];
    assert_eq!(read_records(trailer, 0), Ok(hash()));
    let header = read_image_header(&self::header(0xffff, 0xffff, 0xffff_ffff, (0, 0, 0, 0))).unwrap();
    assert_eq!(header.records_offset(), 0xffff + 0xffff + 0xffff_ffff);
}
