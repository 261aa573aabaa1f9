//! The checksum that VHD records carry: the one's complement of the sum of
//! the record's bytes, with the stored checksum itself counted as zero.

use vstd::prelude::*;

verus! {

/// The sum of all bytes of `s`.
pub open spec fn byte_sum(s: Seq<u8>) -> nat
    decreases s.len(),
{
    if s.len() == 0 {
        0
    } else {
        byte_sum(s.drop_last()) + s.last() as nat
    }
}

/// `record` with the four bytes of its checksum field, which starts at `at`,
/// set to zero.
pub open spec fn without_checksum(record: Seq<u8>, at: int) -> Seq<u8> {
    Seq::new(
        record.len(),
        |i: int|
            if at <= i < at + 4 {
                0u8
            } else {
                record[i]
            },
    )
}

/// The checksum of `record` when its checksum field starts at `at`: the bytes
/// of the record, with the field counted as zero, are summed in 32 bits and
/// every bit of the sum is inverted.
pub open spec fn record_checksum(record: Seq<u8>, at: int) -> u32 {
    (0xFFFF_FFFF - byte_sum(without_checksum(record, at)) % 0x1_0000_0000) as u32
}

/// Computes the checksum of `record`, whose stored checksum occupies the four
/// bytes at `at`.
pub fn checksum_of(record: &[u8], at: usize) -> (checksum: u32)
    ensures
        checksum == record_checksum(record@, at as int),
{
    let ghost counted = without_checksum(record@, at as int);
    let mut sum: u32 = 0;
    let mut i: usize = 0;
    while i < record.len()
        invariant
            i <= record.len(),
            counted == without_checksum(record@, at as int),
            sum == byte_sum(counted.subrange(0, i as int)) % 0x1_0000_0000,
        decreases record.len() - i,
    {
        proof {
            let next = counted.subrange(0, i + 1);
            assert(next.drop_last() =~= counted.subrange(0, i as int));
            assert(next.last() == counted[i as int]);
        }
        let in_field = at <= i && i - at < 4;
        let byte: u8 = if in_field {
            0
        } else {
            record[i]
        };
        sum = ((sum as u64 + byte as u64) % 0x1_0000_0000) as u32;
        i += 1;
    }
    assert(counted.subrange(0, record.len() as int) =~= counted);
    0xFFFF_FFFF - sum
}

} // verus!
