use vdisk::bat::{translate, translate_all, BlockRegions, ByteRange};
use vdisk::error::DecodeError;
use vdisk::source::ByteSource;
use vdisk::vhd::read_bat_entries;

fn table_bytes(entries: &[u32]) -> Vec<u8> {
    let mut out = Vec::new();
    for entry in entries {
        out.extend_from_slice(&entry.to_be_bytes());
    }
    out
}

#[test]
fn sentinel_entry_is_unallocated() {
    assert_eq!(translate(0xFFFF_FFFF, 0x0020_0000), Ok(BlockRegions::Unallocated));
    assert_eq!(translate(0xFFFF_FFFF, 1), Ok(BlockRegions::Unallocated));
    assert_eq!(translate(0xFFFF_FFFF, u32::MAX), Ok(BlockRegions::Unallocated));
}

#[test]
fn allocated_entry_gives_bitmap_and_data_ranges() {
    assert_eq!(
        translate(0x20, 0x0020_0000),
        Ok(BlockRegions::Allocated {
            bitmap_range: ByteRange { start: 0x4000, end: 0x4200 },
            data_range: ByteRange { start: 0x4200, end: 0x0020_4200 },
        })
    );
    assert_eq!(
        translate(0, 512),
        Ok(BlockRegions::Allocated {
            bitmap_range: ByteRange { start: 0, end: 512 },
            data_range: ByteRange { start: 512, end: 1024 },
        })
    );
}

#[test]
fn largest_sector_number_does_not_wrap() {
    let entry = 0xFFFF_FFFEu32;
    let base = entry as u64 * 512;
    assert_eq!(
        translate(entry, u32::MAX),
        Ok(BlockRegions::Allocated {
            bitmap_range: ByteRange { start: base, end: base + 512 },
            data_range: ByteRange { start: base + 512, end: base + 512 + u32::MAX as u64 },
        })
    );
    assert_eq!(base, 0x1FF_FFFF_FC00);
}

#[test]
fn ranges_touch_and_do_not_overlap() {
    for (entry, block_size) in [(0u32, 1u32), (1, 512), (0x20, 0x0020_0000), (0x1234_5678, 4096)] {
        match translate(entry, block_size) {
            Ok(BlockRegions::Allocated { bitmap_range, data_range }) => {
                assert_eq!(bitmap_range.start, 512 * entry as u64);
                assert_eq!(bitmap_range.end - bitmap_range.start, 512);
                assert_eq!(bitmap_range.end, data_range.start);
                assert_eq!(data_range.end - data_range.start, block_size as u64);
                assert!(bitmap_range.start < bitmap_range.end);
                assert!(data_range.start < data_range.end);
            }
            other => panic!("entry {} gave {:?}", entry, other),
        }
    }
}

#[test]
fn zero_block_size_is_invalid() {
    assert_eq!(translate(0x20, 0), Err(DecodeError::InvalidBlockSize));
    assert_eq!(translate(0, 0), Err(DecodeError::InvalidBlockSize));
    assert_eq!(translate(0xFFFF_FFFF, 0), Err(DecodeError::InvalidBlockSize));
}

#[test]
fn table_is_translated_in_order() {
    let blocks = translate_all(&[0xFFFF_FFFF, 3, 0xFFFF_FFFF, 1], 1024).unwrap();
    assert_eq!(
        blocks,
        vec![
            BlockRegions::Unallocated,
            BlockRegions::Allocated {
                bitmap_range: ByteRange { start: 1536, end: 2048 },
                data_range: ByteRange { start: 2048, end: 3072 },
            },
            BlockRegions::Unallocated,
            BlockRegions::Allocated {
                bitmap_range: ByteRange { start: 512, end: 1024 },
                data_range: ByteRange { start: 1024, end: 2048 },
            },
        ]
    );
}

#[test]
fn empty_table_translates_to_no_blocks() {
    assert_eq!(translate_all(&[], 4096), Ok(vec![]));
    assert_eq!(translate_all(&[], 0), Ok(vec![]));
}

#[test]
fn table_with_zero_block_size_is_invalid() {
    assert_eq!(translate_all(&[1, 2], 0), Err(DecodeError::InvalidBlockSize));
    assert_eq!(translate_all(&[0xFFFF_FFFF], 0), Err(DecodeError::InvalidBlockSize));
}

#[test]
fn entries_are_read_big_endian_in_table_order() {
    let mut image = vec![0xEEu8; 10];
    image.extend_from_slice(&table_bytes(&[0x20, 0xFFFF_FFFF, 0x0102_0304]));
    let mut source = ByteSource::new(image);
    assert_eq!(read_bat_entries(&mut source, 10, 3), Ok(vec![0x20, 0xFFFF_FFFF, 0x0102_0304]));
    assert_eq!(read_bat_entries(&mut source, 14, 2), Ok(vec![0xFFFF_FFFF, 0x0102_0304]));
    assert_eq!(read_bat_entries(&mut source, 11, 1), Ok(vec![0x0000_20FF]));
}

#[test]
fn table_that_ends_early_is_truncated() {
    let image = table_bytes(&[1, 2, 3]);
    for wanted in [4usize, 5, 100] {
        let mut source = ByteSource::new(image.clone());
        assert_eq!(read_bat_entries(&mut source, 0, wanted), Err(DecodeError::TruncatedTable));
    }
    let mut source = ByteSource::new(image.clone());
    assert_eq!(read_bat_entries(&mut source, 1, 3), Err(DecodeError::TruncatedTable));
    // Two whole entries were read from offset 1 on: the cursor rests at 9.
    assert_eq!(source.read_exact(3), Some(vec![0, 0, 3]));
    let mut source = ByteSource::new(image);
    assert_eq!(read_bat_entries(&mut source, 13, 1), Err(DecodeError::TruncatedTable));
    assert_eq!(read_bat_entries(&mut source, u64::MAX, 1), Err(DecodeError::TruncatedTable));
}

#[test]
fn table_of_no_entries_is_empty_at_any_offset() {
    let mut source = ByteSource::new(vec![1, 2, 3]);
    assert_eq!(read_bat_entries(&mut source, 0, 0), Ok(vec![]));
    assert_eq!(read_bat_entries(&mut source, 3, 0), Ok(vec![]));
    assert_eq!(read_bat_entries(&mut source, 1000, 0), Ok(vec![]));
}

#[test]
fn reading_the_table_leaves_the_cursor_behind_it() {
    let mut image = table_bytes(&[7, 8]);
    image.push(0x99);
    let mut source = ByteSource::new(image);
    assert_eq!(read_bat_entries(&mut source, 0, 2), Ok(vec![7, 8]));
    assert_eq!(source.read_exact(1), Some(vec![0x99]));
}
