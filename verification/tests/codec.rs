use vdisk::checksum::checksum_of;
use vdisk::endian::{push_be_u32, push_be_u64};
use vdisk::error::DecodeError;
use vdisk::qcow::{QcowHeader, QCOW_MAGIC};
use vdisk::source::ByteSource;
use vdisk::vhd::{DynamicDiskHeader, VhdFooter};

fn put_u32(buf: &mut [u8], at: usize, value: u32) {
    buf[at..at + 4].copy_from_slice(&value.to_be_bytes());
}

fn put_u64(buf: &mut [u8], at: usize, value: u64) {
    buf[at..at + 8].copy_from_slice(&value.to_be_bytes());
}

fn sample_footer_bytes() -> Vec<u8> {
    let mut buf = vec![0u8; 512];
    buf[0..8].copy_from_slice(b"conectix");
    put_u32(&mut buf, 8, 0x0000_0002);
    put_u32(&mut buf, 12, 0x0001_0000);
    put_u64(&mut buf, 16, 0x0000_0000_0000_0200);
    put_u32(&mut buf, 24, 0x2A3B_4C5D);
    put_u32(&mut buf, 28, 0x7670_6320);
    put_u32(&mut buf, 32, 0x0005_0003);
    put_u32(&mut buf, 36, 0x5769_326B);
    put_u64(&mut buf, 40, 0x0000_0001_0000_0000);
    put_u64(&mut buf, 48, 0x0000_0000_8000_0000);
    put_u32(&mut buf, 56, 0x041F_100F);
    put_u32(&mut buf, 60, 3);
    put_u32(&mut buf, 64, 0xFFFF_EE11);
    for i in 0..16 {
        buf[68 + i] = 0xA0 + i as u8;
    }
    buf[84] = 1;
    for i in 85..512 {
        buf[i] = (i % 251) as u8;
    }
    buf
}

fn sample_header_bytes() -> Vec<u8> {
    let mut buf = vec![0u8; 1024];
    buf[0..8].copy_from_slice(b"cxsparse");
    put_u64(&mut buf, 8, 0xFFFF_FFFF_FFFF_FFFF);
    put_u64(&mut buf, 16, 0x0000_0000_0000_0600);
    put_u32(&mut buf, 24, 0x0001_0000);
    put_u32(&mut buf, 28, 2);
    put_u32(&mut buf, 32, 0x0020_0000);
    put_u32(&mut buf, 36, 0x1234_5678);
    for i in 0..16 {
        buf[40 + i] = 0x10 + i as u8;
    }
    put_u32(&mut buf, 56, 0x0BAD_CAFE);
    put_u32(&mut buf, 60, 0x0000_0007);
    for i in 64..1024 {
        buf[i] = (i % 253) as u8;
    }
    buf
}

#[test]
fn big_endian_reads_take_the_first_byte_as_most_significant() {
    let mut buf = vec![0u8; 72];
    buf[0..4].copy_from_slice(&[0x01, 0x02, 0x03, 0x04]);
    buf[8..16].copy_from_slice(&[0x01, 0x02, 0x03, 0x04, 0x05, 0x06, 0x07, 0x08]);
    let header = QcowHeader::parse(&buf).unwrap();
    assert_eq!(header.magic, 0x0102_0304);
    assert_eq!(header.backing_file_offset, 0x0102_0304_0506_0708);
}

#[test]
fn big_endian_writes_put_the_most_significant_byte_first() {
    let mut out = vec![0xEEu8];
    push_be_u32(&mut out, 0xDEAD_BEEF);
    push_be_u64(&mut out, 0x0123_4567_89AB_CDEF);
    assert_eq!(
        out,
        vec![0xEE, 0xDE, 0xAD, 0xBE, 0xEF, 0x01, 0x23, 0x45, 0x67, 0x89, 0xAB, 0xCD, 0xEF]
    );
}

#[test]
fn footer_shorter_than_512_bytes_is_too_short() {
    for len in [0usize, 1, 8, 84, 511] {
        let buf = vec![0x63u8; len];
        assert_eq!(VhdFooter::parse(&buf), Err(DecodeError::TooShort));
    }
}

#[test]
fn dynamic_header_shorter_than_1024_bytes_is_too_short() {
    for len in [0usize, 8, 512, 1023] {
        let buf = vec![0x63u8; len];
        assert_eq!(DynamicDiskHeader::parse(&buf), Err(DecodeError::TooShort));
    }
}

#[test]
fn footer_fields_are_decoded_at_their_offsets() {
    let buf = sample_footer_bytes();
    let footer = VhdFooter::parse(&buf).unwrap();
    assert_eq!(footer.signature(), b"conectix");
    assert_eq!(footer.next_offset(), 0x200);
    assert_eq!(footer.disk_size(), 0x1_0000_0000);
    assert_eq!(footer.data_size(), 0x8000_0000);
    assert_eq!(footer.disk_cylinders(), 1055);
    assert_eq!(footer.disk_heads(), 16);
    assert_eq!(footer.disk_sectors(), 15);
    assert_eq!(footer.check_signature(), Ok(()));
    assert_eq!(footer.features(), 2);
    assert_eq!(footer.version(), 0x0001_0000);
    assert_eq!(footer.disk_geometry(), 0x041F_100F);
    assert_eq!(footer.checksum(), 0xFFFF_EE11);
    assert_eq!(
        footer.identifier(),
        &[
            0xA0, 0xA1, 0xA2, 0xA3, 0xA4, 0xA5, 0xA6, 0xA7, 0xA8, 0xA9, 0xAA, 0xAB, 0xAC, 0xAD,
            0xAE, 0xAF
        ]
    );
}

#[test]
fn footer_next_offset_sentinel_is_kept_raw() {
    let mut buf = sample_footer_bytes();
    put_u64(&mut buf, 16, 0xFFFF_FFFF_FFFF_FFFF);
    let footer = VhdFooter::parse(&buf).unwrap();
    assert_eq!(footer.next_offset(), u64::MAX);
}

#[test]
fn footer_ignores_bytes_behind_the_record() {
    let mut buf = sample_footer_bytes();
    let exact = VhdFooter::parse(&buf).unwrap();
    buf.extend_from_slice(&[0xFFu8; 100]);
    let longer = VhdFooter::parse(&buf).unwrap();
    assert_eq!(exact, longer);
    assert_eq!(longer.to_bytes(), &buf[..512]);
}

#[test]
fn footer_round_trip_reproduces_the_record() {
    let buf = sample_footer_bytes();
    let footer = VhdFooter::parse(&buf).unwrap();
    assert_eq!(footer.to_bytes(), buf);
    let again = VhdFooter::parse(&footer.to_bytes()).unwrap();
    assert_eq!(again, footer);
}

#[test]
fn footer_round_trip_holds_for_a_record_of_high_bytes() {
    let mut buf = vec![0xFFu8; 512];
    buf[0..8].copy_from_slice(b"conectix");
    let footer = VhdFooter::parse(&buf).unwrap();
    assert_eq!(footer.to_bytes(), buf);
    assert_eq!(footer.disk_size(), u64::MAX);
}

#[test]
fn geometry_is_split_by_its_bit_fields() {
    let fields =
        [0u32, 0x041F_100F, 0xFFFF_FFFF, 0x0001_0000, 0x0000_0100, 0x0000_0001, 0x8000_8080];
    for geometry in fields {
        let mut buf = sample_footer_bytes();
        put_u32(&mut buf, 56, geometry);
        let footer = VhdFooter::parse(&buf).unwrap();
        let (c, h, s) = (footer.disk_cylinders(), footer.disk_heads(), footer.disk_sectors());
        assert_eq!(c as u64 * 65536 + h as u64 * 256 + s as u64, geometry as u64);
        assert_eq!(c, geometry >> 16);
        assert_eq!(h, (geometry >> 8) & 0xFF);
        assert_eq!(s, geometry & 0xFF);
        let again = (footer.disk_cylinders(), footer.disk_heads(), footer.disk_sectors());
        assert_eq!((c, h, s), again);
    }
}

#[test]
fn footer_with_other_magic_is_a_signature_mismatch() {
    let mut buf = sample_footer_bytes();
    buf[0..8].copy_from_slice(b"badsig!!");
    let footer = VhdFooter::parse(&buf).unwrap();
    assert_eq!(footer.signature(), b"badsig!!");
    assert_eq!(footer.check_signature(), Err(DecodeError::SignatureMismatch));
    buf[0..8].copy_from_slice(b"conectiX");
    let footer = VhdFooter::parse(&buf).unwrap();
    assert_eq!(footer.check_signature(), Err(DecodeError::SignatureMismatch));
}

#[test]
fn checksum_is_the_inverted_sum_without_the_stored_checksum() {
    let mut buf = vec![0u8; 512];
    buf[0..8].copy_from_slice(b"conectix");
    // The eight bytes of the magic add up to 861.
    assert_eq!(checksum_of(&buf, 64), 0xFFFF_FFFF - 861);
    put_u32(&mut buf, 64, 0xAABB_CCDD);
    assert_eq!(checksum_of(&buf, 64), 0xFFFF_FCA2);
    buf[511] = 0xFF;
    buf[63] = 1;
    buf[68] = 2;
    assert_eq!(checksum_of(&buf, 64), 0xFFFF_FFFF - 861 - 255 - 1 - 2);
}

#[test]
fn footer_checksum_is_verified_against_the_fields() {
    let mut buf = sample_footer_bytes();
    let footer = VhdFooter::parse(&buf).unwrap();
    assert!(!footer.verify_checksum());
    let mut sum: u32 = 0;
    for (i, b) in buf.iter().enumerate() {
        if !(64..68).contains(&i) {
            sum += *b as u32;
        }
    }
    assert_eq!(footer.computed_checksum(), !sum);
    put_u32(&mut buf, 64, !sum);
    let footer = VhdFooter::parse(&buf).unwrap();
    assert!(footer.verify_checksum());
    assert_eq!(footer.computed_checksum(), !sum);
}

#[test]
fn dynamic_header_fields_are_decoded_at_their_offsets() {
    let buf = sample_header_bytes();
    let header = DynamicDiskHeader::parse(&buf).unwrap();
    assert_eq!(header.signature(), b"cxsparse");
    assert_eq!(header.block_table_offset(), 0x600);
    assert_eq!(header.max_block_entries(), 2);
    assert_eq!(header.block_size(), 0x0020_0000);
    assert_eq!(header.check_signature(), Ok(()));
    assert_eq!(header.next_offset(), u64::MAX);
    assert_eq!(header.format_version(), 0x0001_0000);
    assert_eq!(header.checksum(), 0x1234_5678);
    assert_eq!(
        header.parent_id(),
        &[
            0x10, 0x11, 0x12, 0x13, 0x14, 0x15, 0x16, 0x17, 0x18, 0x19, 0x1A, 0x1B, 0x1C, 0x1D,
            0x1E, 0x1F
        ]
    );
    assert_eq!(header.parent_modification_time(), 0x0BAD_CAFE);
    assert_eq!(&header.parent_name()[..], &buf[64..576]);
    for (k, entry) in header.parent_locator_entries().iter().enumerate() {
        assert_eq!(&entry[..], &buf[576 + 8 * k..584 + 8 * k]);
    }
}

#[test]
fn dynamic_header_round_trip_reproduces_the_record() {
    let buf = sample_header_bytes();
    let header = DynamicDiskHeader::parse(&buf).unwrap();
    assert_eq!(header.to_bytes(), buf);
    let mut longer = buf.clone();
    longer.extend_from_slice(&[7u8; 33]);
    assert_eq!(DynamicDiskHeader::parse(&longer).unwrap(), header);
}

#[test]
fn dynamic_header_with_other_magic_is_a_signature_mismatch() {
    let mut buf = sample_header_bytes();
    buf[0..8].copy_from_slice(b"conectix");
    let header = DynamicDiskHeader::parse(&buf).unwrap();
    assert_eq!(header.check_signature(), Err(DecodeError::SignatureMismatch));
}

#[test]
fn dynamic_header_checksum_is_verified_against_the_fields() {
    let mut buf = sample_header_bytes();
    let mut sum: u32 = 0;
    for (i, b) in buf.iter().enumerate() {
        if !(36..40).contains(&i) {
            sum += *b as u32;
        }
    }
    let header = DynamicDiskHeader::parse(&buf).unwrap();
    assert_eq!(header.computed_checksum(), !sum);
    assert!(!header.verify_checksum());
    put_u32(&mut buf, 36, !sum);
    assert!(DynamicDiskHeader::parse(&buf).unwrap().verify_checksum());
}

fn sample_qcow_bytes() -> Vec<u8> {
    let mut buf = vec![0u8; 72];
    put_u32(&mut buf, 0, 0x5146_49fb);
    put_u32(&mut buf, 4, 3);
    put_u64(&mut buf, 8, 0x1122_3344_5566_7788);
    put_u32(&mut buf, 16, 17);
    put_u32(&mut buf, 20, 16);
    put_u64(&mut buf, 24, 0x0000_0002_8000_0000);
    put_u32(&mut buf, 32, 1);
    put_u32(&mut buf, 36, 20);
    put_u64(&mut buf, 40, 0x0000_0000_0003_0000);
    put_u64(&mut buf, 48, 0x0000_0000_0001_0000);
    put_u32(&mut buf, 56, 1);
    put_u32(&mut buf, 60, 4);
    put_u64(&mut buf, 64, 0x0000_0000_0009_0000);
    buf
}

fn sample_qcow_header() -> QcowHeader {
    QcowHeader {
        magic: 0x5146_49fb,
        version: 3,
        backing_file_offset: 0x1122_3344_5566_7788,
        backing_file_size: 17,
        cluster_bits: 16,
        size: 0x0000_0002_8000_0000,
        crypt_method: 1,
        l1_size: 20,
        l1_table_offset: 0x3_0000,
        refcount_table_offset: 0x1_0000,
        refcount_table_clusters: 1,
        nb_snapshots: 4,
        snapshots_offset: 0x9_0000,
    }
}

#[test]
fn qcow_header_fields_are_decoded_in_order() {
    let buf = sample_qcow_bytes();
    let header = QcowHeader::parse(&buf).unwrap();
    assert_eq!(header, sample_qcow_header());
    assert_eq!(header.magic, QCOW_MAGIC);
    assert_eq!(header.check_signature(), Ok(()));
}

#[test]
fn qcow_header_shorter_than_72_bytes_is_too_short() {
    let buf = sample_qcow_bytes();
    assert_eq!(QcowHeader::parse(&buf[..71]), Err(DecodeError::TooShort));
    assert_eq!(QcowHeader::parse(&[]), Err(DecodeError::TooShort));
}

#[test]
fn qcow_header_with_other_magic_is_a_signature_mismatch() {
    let mut buf = sample_qcow_bytes();
    buf[3] = 0xfa;
    let header = QcowHeader::parse(&buf).unwrap();
    assert_eq!(header.magic, 0x5146_49fa);
    assert_eq!(header.check_signature(), Err(DecodeError::SignatureMismatch));
}

#[test]
fn qcow_header_is_read_at_the_cursor() {
    let mut image = vec![0xEEu8; 5];
    image.extend_from_slice(&sample_qcow_bytes());
    image.extend_from_slice(&[0xDDu8; 3]);
    let mut reader = ByteSource::new(image);
    reader.seek(5);
    assert_eq!(QcowHeader::from_reader(&mut reader), Ok(sample_qcow_header()));
    // The cursor now stands behind the header: three bytes are left.
    assert_eq!(reader.read_exact(3), Some(vec![0xDD; 3]));
    assert_eq!(reader.read_exact(1), None);
}

#[test]
fn qcow_header_from_an_exhausted_reader_is_too_short() {
    let mut reader = ByteSource::new(sample_qcow_bytes());
    reader.seek(1);
    assert_eq!(QcowHeader::from_reader(&mut reader), Err(DecodeError::TooShort));
    // The cursor did not move: 71 bytes can still be read.
    assert_eq!(reader.read_exact(71).map(|bytes| bytes.len()), Some(71));
}
