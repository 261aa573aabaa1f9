use vdisk::ramdisk::RamDisk;
use vdisk::source::{ByteSource, ReadOutcome};

#[test]
fn source_reads_move_the_cursor() {
    let mut source = ByteSource::new(vec![10, 11, 12, 13, 14]);
    assert_eq!(source.len(), 5);
    assert_eq!(source.read_exact(2), Some(vec![10, 11]));
    assert_eq!(source.read_exact(3), Some(vec![12, 13, 14]));
    assert_eq!(source.read_exact(1), None);
    source.seek(1);
    assert_eq!(source.read_exact(1), Some(vec![11]));
}

#[test]
fn short_read_returns_nothing_and_keeps_the_cursor() {
    let mut source = ByteSource::new(vec![10, 11, 12, 13, 14]);
    source.seek(3);
    assert_eq!(source.read_exact(3), None);
    assert_eq!(source.read_exact(2), Some(vec![13, 14]));
    assert_eq!(source.read_exact(usize::MAX), None);
}

#[test]
fn seek_past_the_end_is_allowed() {
    let mut source = ByteSource::new(vec![1, 2, 3]);
    source.seek(u64::MAX);
    assert_eq!(source.read_exact(1), None);
    assert_eq!(source.read_exact(0), Some(vec![]));
    source.seek(3);
    assert_eq!(source.read_exact(0), Some(vec![]));
    assert_eq!(source.read_exact(1), None);
}

#[test]
fn positional_read_does_not_move_the_cursor() {
    let mut source = ByteSource::new(vec![10, 11, 12, 13, 14]);
    source.seek(1);
    assert_eq!(source.read_at(3, 2), ReadOutcome::Data(vec![13, 14]));
    assert_eq!(source.read_at(0, 5), ReadOutcome::Data(vec![10, 11, 12, 13, 14]));
    assert_eq!(source.read_exact(1), Some(vec![11]));
}

#[test]
fn positional_read_past_the_end_is_short() {
    let source = ByteSource::new(vec![10, 11, 12, 13, 14]);
    assert_eq!(source.read_at(3, 3), ReadOutcome::ShortRead);
    assert_eq!(source.read_at(5, 1), ReadOutcome::ShortRead);
    assert_eq!(source.read_at(6, 1), ReadOutcome::ShortRead);
    assert_eq!(source.read_at(u64::MAX, u64::MAX), ReadOutcome::ShortRead);
    assert_eq!(source.read_at(0, u64::MAX), ReadOutcome::ShortRead);
    assert_eq!(source.read_at(5, 0), ReadOutcome::Data(vec![]));
    assert_eq!(source.read_at(u64::MAX, 0), ReadOutcome::Data(vec![]));
}

#[test]
fn new_disk_is_filled_with_zeros() {
    let disk = RamDisk::new(16);
    assert_eq!(disk.get_size(), 16);
    let mut buf = [0xFFu8; 16];
    disk.read_at(&mut buf, 0);
    assert_eq!(buf, [0u8; 16]);
    assert_eq!(RamDisk::new(0).get_size(), 0);
}

#[test]
fn written_bytes_are_read_back() {
    let mut disk = RamDisk::new(8);
    disk.write_at(&[1, 2, 3], 2);
    let mut all = [0xFFu8; 8];
    disk.read_at(&mut all, 0);
    assert_eq!(all, [0, 0, 1, 2, 3, 0, 0, 0]);
    disk.write_at(&[9, 8], 6);
    disk.write_at(&[7], 0);
    disk.read_at(&mut all, 0);
    assert_eq!(all, [7, 0, 1, 2, 3, 0, 9, 8]);
    let mut part = [0u8; 3];
    disk.read_at(&mut part, 3);
    assert_eq!(part, [2, 3, 0]);
    assert_eq!(disk.get_size(), 8);
}

#[test]
fn empty_ranges_touch_nothing() {
    let mut disk = RamDisk::new(4);
    disk.write_at(&[5, 6, 7, 8], 0);
    disk.write_at(&[], 4);
    disk.write_at(&[], 0);
    let mut none: [u8; 0] = [];
    disk.read_at(&mut none, 4);
    let mut all = [0u8; 4];
    disk.read_at(&mut all, 0);
    assert_eq!(all, [5, 6, 7, 8]);
}
