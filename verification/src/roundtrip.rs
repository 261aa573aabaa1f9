//! Decoding and encoding of the VHD records undo each other: a record that is
//! decoded and encoded again comes back byte for byte, and a footer or header
//! that is encoded and decoded again comes back field for field.

use crate::bytes::{lemma_join, lemma_split};
use crate::endian::{
    be_bytes_u32, be_bytes_u64, lemma_u32_at_part, lemma_u32_read_of_written,
    lemma_u32_written_of_read, lemma_u64_at_part, lemma_u64_read_of_written,
    lemma_u64_written_of_read,
};
use crate::vhd::{
    dynamic_header_bytes, dynamic_header_of, footer_bytes, footer_of, locator_bytes,
    locator_entry_of, DynamicHeaderModel, FooterModel,
};
use vstd::prelude::*;

verus! {

/// Decoding a 512-byte record and encoding the footer again gives back the
/// record, byte for byte.
pub proof fn lemma_footer_round_trip(bytes: Seq<u8>)
    requires
        bytes.len() >= 512,
    ensures
        footer_of(bytes).wf(),
        footer_bytes(footer_of(bytes)) == bytes.subrange(0, 512),
        bytes.len() == 512 ==> footer_bytes(footer_of(bytes)) == bytes,
{
    let footer = footer_of(bytes);
    let prefix1 = footer.signature;
    let prefix2 = prefix1 + be_bytes_u32(footer.features);
    assert(prefix2 == bytes.subrange(0, 12)) by {
        lemma_u32_written_of_read(bytes, 8);
        lemma_join(bytes, 0, 8, 12);
    }
    let prefix3 = prefix2 + be_bytes_u32(footer.version);
    assert(prefix3 == bytes.subrange(0, 16)) by {
        lemma_u32_written_of_read(bytes, 12);
        lemma_join(bytes, 0, 12, 16);
    }
    let prefix4 = prefix3 + be_bytes_u64(footer.next_offset);
    assert(prefix4 == bytes.subrange(0, 24)) by {
        lemma_u64_written_of_read(bytes, 16);
        lemma_join(bytes, 0, 16, 24);
    }
    let prefix5 = prefix4 + be_bytes_u32(footer.modification_time);
    assert(prefix5 == bytes.subrange(0, 28)) by {
        lemma_u32_written_of_read(bytes, 24);
        lemma_join(bytes, 0, 24, 28);
    }
    let prefix6 = prefix5 + be_bytes_u32(footer.creator_app);
    assert(prefix6 == bytes.subrange(0, 32)) by {
        lemma_u32_written_of_read(bytes, 28);
        lemma_join(bytes, 0, 28, 32);
    }
    let prefix7 = prefix6 + be_bytes_u32(footer.creator_version);
    assert(prefix7 == bytes.subrange(0, 36)) by {
        lemma_u32_written_of_read(bytes, 32);
        lemma_join(bytes, 0, 32, 36);
    }
    let prefix8 = prefix7 + be_bytes_u32(footer.creator_os);
    assert(prefix8 == bytes.subrange(0, 40)) by {
        lemma_u32_written_of_read(bytes, 36);
        lemma_join(bytes, 0, 36, 40);
    }
    let prefix9 = prefix8 + be_bytes_u64(footer.disk_size);
    assert(prefix9 == bytes.subrange(0, 48)) by {
        lemma_u64_written_of_read(bytes, 40);
        lemma_join(bytes, 0, 40, 48);
    }
    let prefix10 = prefix9 + be_bytes_u64(footer.data_size);
    assert(prefix10 == bytes.subrange(0, 56)) by {
        lemma_u64_written_of_read(bytes, 48);
        lemma_join(bytes, 0, 48, 56);
    }
    let prefix11 = prefix10 + be_bytes_u32(footer.disk_geometry);
    assert(prefix11 == bytes.subrange(0, 60)) by {
        lemma_u32_written_of_read(bytes, 56);
        lemma_join(bytes, 0, 56, 60);
    }
    let prefix12 = prefix11 + be_bytes_u32(footer.disk_type);
    assert(prefix12 == bytes.subrange(0, 64)) by {
        lemma_u32_written_of_read(bytes, 60);
        lemma_join(bytes, 0, 60, 64);
    }
    let prefix13 = prefix12 + be_bytes_u32(footer.checksum);
    assert(prefix13 == bytes.subrange(0, 68)) by {
        lemma_u32_written_of_read(bytes, 64);
        lemma_join(bytes, 0, 64, 68);
    }
    let prefix14 = prefix13 + footer.identifier;
    assert(prefix14 == bytes.subrange(0, 84)) by {
        lemma_join(bytes, 0, 68, 84);
    }
    let prefix15 = prefix14 + seq![footer.saved_state];
    assert(prefix15 == bytes.subrange(0, 85)) by {
        assert(seq![bytes[84]] =~= bytes.subrange(84, 85));
        lemma_join(bytes, 0, 84, 85);
    }
    let prefix16 = prefix15 + footer.reserved;
    assert(prefix16 == bytes.subrange(0, 512)) by {
        lemma_join(bytes, 0, 85, 512);
    }
    assert(footer_bytes(footer) == prefix16);
    if bytes.len() == 512 {
        assert(bytes.subrange(0, 512) =~= bytes);
    }
}

/// Sixteen parts with the widths of the footer's fields, joined in order,
/// make a 512-byte record in which each part lies at the offset of its field.
proof fn lemma_footer_layout(
    signature: Seq<u8>,
    features: Seq<u8>,
    version: Seq<u8>,
    next_offset: Seq<u8>,
    modification_time: Seq<u8>,
    creator_app: Seq<u8>,
    creator_version: Seq<u8>,
    creator_os: Seq<u8>,
    disk_size: Seq<u8>,
    data_size: Seq<u8>,
    disk_geometry: Seq<u8>,
    disk_type: Seq<u8>,
    checksum: Seq<u8>,
    identifier: Seq<u8>,
    saved_state: Seq<u8>,
    reserved: Seq<u8>,
) -> (bytes: Seq<u8>)
    requires
        signature.len() == 8,
        features.len() == 4,
        version.len() == 4,
        next_offset.len() == 8,
        modification_time.len() == 4,
        creator_app.len() == 4,
        creator_version.len() == 4,
        creator_os.len() == 4,
        disk_size.len() == 8,
        data_size.len() == 8,
        disk_geometry.len() == 4,
        disk_type.len() == 4,
        checksum.len() == 4,
        identifier.len() == 16,
        saved_state.len() == 1,
        reserved.len() == 427,
    ensures
        bytes == signature + features + version + next_offset + modification_time + creator_app
            + creator_version + creator_os + disk_size + data_size + disk_geometry + disk_type
            + checksum + identifier + saved_state + reserved,
        bytes.len() == 512,
        bytes.subrange(0, 8) == signature,
        bytes.subrange(8, 12) == features,
        bytes.subrange(12, 16) == version,
        bytes.subrange(16, 24) == next_offset,
        bytes.subrange(24, 28) == modification_time,
        bytes.subrange(28, 32) == creator_app,
        bytes.subrange(32, 36) == creator_version,
        bytes.subrange(36, 40) == creator_os,
        bytes.subrange(40, 48) == disk_size,
        bytes.subrange(48, 56) == data_size,
        bytes.subrange(56, 60) == disk_geometry,
        bytes.subrange(60, 64) == disk_type,
        bytes.subrange(64, 68) == checksum,
        bytes.subrange(68, 84) == identifier,
        bytes.subrange(84, 85) == saved_state,
        bytes.subrange(85, 512) == reserved,
{
    let prefix1 = signature;
    let prefix2 = prefix1 + features;
    let prefix3 = prefix2 + version;
    let prefix4 = prefix3 + next_offset;
    let prefix5 = prefix4 + modification_time;
    let prefix6 = prefix5 + creator_app;
    let prefix7 = prefix6 + creator_version;
    let prefix8 = prefix7 + creator_os;
    let prefix9 = prefix8 + disk_size;
    let prefix10 = prefix9 + data_size;
    let prefix11 = prefix10 + disk_geometry;
    let prefix12 = prefix11 + disk_type;
    let prefix13 = prefix12 + checksum;
    let prefix14 = prefix13 + identifier;
    let prefix15 = prefix14 + saved_state;
    let bytes = prefix15 + reserved;
    assert(bytes.subrange(0, 512) == prefix15 + reserved) by {
        assert(bytes.subrange(0, 512) =~= bytes);
    }
    lemma_split(bytes, prefix15, reserved, 85, 512);
    lemma_split(bytes, prefix14, saved_state, 84, 85);
    lemma_split(bytes, prefix13, identifier, 68, 84);
    lemma_split(bytes, prefix12, checksum, 64, 68);
    lemma_split(bytes, prefix11, disk_type, 60, 64);
    lemma_split(bytes, prefix10, disk_geometry, 56, 60);
    lemma_split(bytes, prefix9, data_size, 48, 56);
    lemma_split(bytes, prefix8, disk_size, 40, 48);
    lemma_split(bytes, prefix7, creator_os, 36, 40);
    lemma_split(bytes, prefix6, creator_version, 32, 36);
    lemma_split(bytes, prefix5, creator_app, 28, 32);
    lemma_split(bytes, prefix4, modification_time, 24, 28);
    lemma_split(bytes, prefix3, next_offset, 16, 24);
    lemma_split(bytes, prefix2, version, 12, 16);
    lemma_split(bytes, prefix1, features, 8, 12);
    bytes
}

/// Encoding a footer and decoding the record again gives back the footer,
/// field for field.
pub proof fn lemma_footer_decode_of_encoded(footer: FooterModel)
    requires
        footer.wf(),
    ensures
        footer_bytes(footer).len() == 512,
        footer_of(footer_bytes(footer)) == footer,
{
    lemma_u32_read_of_written(footer.features);
    lemma_u32_read_of_written(footer.version);
    lemma_u64_read_of_written(footer.next_offset);
    lemma_u32_read_of_written(footer.modification_time);
    lemma_u32_read_of_written(footer.creator_app);
    lemma_u32_read_of_written(footer.creator_version);
    lemma_u32_read_of_written(footer.creator_os);
    lemma_u64_read_of_written(footer.disk_size);
    lemma_u64_read_of_written(footer.data_size);
    lemma_u32_read_of_written(footer.disk_geometry);
    lemma_u32_read_of_written(footer.disk_type);
    lemma_u32_read_of_written(footer.checksum);
    let bytes = lemma_footer_layout(
        footer.signature,
        be_bytes_u32(footer.features),
        be_bytes_u32(footer.version),
        be_bytes_u64(footer.next_offset),
        be_bytes_u32(footer.modification_time),
        be_bytes_u32(footer.creator_app),
        be_bytes_u32(footer.creator_version),
        be_bytes_u32(footer.creator_os),
        be_bytes_u64(footer.disk_size),
        be_bytes_u64(footer.data_size),
        be_bytes_u32(footer.disk_geometry),
        be_bytes_u32(footer.disk_type),
        be_bytes_u32(footer.checksum),
        footer.identifier,
        seq![footer.saved_state],
        footer.reserved,
    );
    assert(bytes == footer_bytes(footer));
    assert(bytes[84] == footer.saved_state) by {
        assert(bytes.subrange(84, 85)[0] == bytes[84]);
    }
    lemma_u32_at_part(bytes, 8, footer.features);
    lemma_u32_at_part(bytes, 12, footer.version);
    lemma_u64_at_part(bytes, 16, footer.next_offset);
    lemma_u32_at_part(bytes, 24, footer.modification_time);
    lemma_u32_at_part(bytes, 28, footer.creator_app);
    lemma_u32_at_part(bytes, 32, footer.creator_version);
    lemma_u32_at_part(bytes, 36, footer.creator_os);
    lemma_u64_at_part(bytes, 40, footer.disk_size);
    lemma_u64_at_part(bytes, 48, footer.data_size);
    lemma_u32_at_part(bytes, 56, footer.disk_geometry);
    lemma_u32_at_part(bytes, 60, footer.disk_type);
    lemma_u32_at_part(bytes, 64, footer.checksum);
}

/// Decoding a 1024-byte record and encoding the header again gives back the
/// record, byte for byte.
pub proof fn lemma_dynamic_header_round_trip(bytes: Seq<u8>)
    requires
        bytes.len() >= 1024,
    ensures
        dynamic_header_of(bytes).wf(),
        dynamic_header_bytes(dynamic_header_of(bytes)) == bytes.subrange(0, 1024),
        bytes.len() == 1024 ==> dynamic_header_bytes(dynamic_header_of(bytes)) == bytes,
{
    let header = dynamic_header_of(bytes);
    let prefix1 = header.signature;
    let prefix2 = prefix1 + be_bytes_u64(header.next_offset);
    assert(prefix2 == bytes.subrange(0, 16)) by {
        lemma_u64_written_of_read(bytes, 8);
        lemma_join(bytes, 0, 8, 16);
    }
    let prefix3 = prefix2 + be_bytes_u64(header.block_table_offset);
    assert(prefix3 == bytes.subrange(0, 24)) by {
        lemma_u64_written_of_read(bytes, 16);
        lemma_join(bytes, 0, 16, 24);
    }
    let prefix4 = prefix3 + be_bytes_u32(header.format_version);
    assert(prefix4 == bytes.subrange(0, 28)) by {
        lemma_u32_written_of_read(bytes, 24);
        lemma_join(bytes, 0, 24, 28);
    }
    let prefix5 = prefix4 + be_bytes_u32(header.max_block_entries);
    assert(prefix5 == bytes.subrange(0, 32)) by {
        lemma_u32_written_of_read(bytes, 28);
        lemma_join(bytes, 0, 28, 32);
    }
    let prefix6 = prefix5 + be_bytes_u32(header.block_size);
    assert(prefix6 == bytes.subrange(0, 36)) by {
        lemma_u32_written_of_read(bytes, 32);
        lemma_join(bytes, 0, 32, 36);
    }
    let prefix7 = prefix6 + be_bytes_u32(header.checksum);
    assert(prefix7 == bytes.subrange(0, 40)) by {
        lemma_u32_written_of_read(bytes, 36);
        lemma_join(bytes, 0, 36, 40);
    }
    let prefix8 = prefix7 + header.parent_id;
    assert(prefix8 == bytes.subrange(0, 56)) by {
        lemma_join(bytes, 0, 40, 56);
    }
    let prefix9 = prefix8 + be_bytes_u32(header.parent_modification_time);
    assert(prefix9 == bytes.subrange(0, 60)) by {
        lemma_u32_written_of_read(bytes, 56);
        lemma_join(bytes, 0, 56, 60);
    }
    let prefix10 = prefix9 + be_bytes_u32(header.reserved);
    assert(prefix10 == bytes.subrange(0, 64)) by {
        lemma_u32_written_of_read(bytes, 60);
        lemma_join(bytes, 0, 60, 64);
    }
    let prefix11 = prefix10 + header.parent_name;
    assert(prefix11 == bytes.subrange(0, 576)) by {
        lemma_join(bytes, 0, 64, 576);
    }
    let prefix12 = prefix11 + locator_bytes(header.parent_locator_entries, 24);
    assert(prefix12 == bytes.subrange(0, 768)) by {
        assert(locator_bytes(header.parent_locator_entries, 24) =~= bytes.subrange(576, 768));
        lemma_join(bytes, 0, 576, 768);
    }
    let prefix13 = prefix12 + header.reserved_2;
    assert(prefix13 == bytes.subrange(0, 1024)) by {
        lemma_join(bytes, 0, 768, 1024);
    }
    assert(dynamic_header_bytes(header) == prefix13);
    if bytes.len() == 1024 {
        assert(bytes.subrange(0, 1024) =~= bytes);
    }
}

/// Thirteen parts with the widths of the header's fields, joined in order,
/// make a 1024-byte record in which each part lies at the offset of its
/// field.
proof fn lemma_dynamic_header_layout(
    signature: Seq<u8>,
    next_offset: Seq<u8>,
    block_table_offset: Seq<u8>,
    format_version: Seq<u8>,
    max_block_entries: Seq<u8>,
    block_size: Seq<u8>,
    checksum: Seq<u8>,
    parent_id: Seq<u8>,
    parent_modification_time: Seq<u8>,
    reserved: Seq<u8>,
    parent_name: Seq<u8>,
    locators: Seq<u8>,
    reserved_2: Seq<u8>,
) -> (bytes: Seq<u8>)
    requires
        signature.len() == 8,
        next_offset.len() == 8,
        block_table_offset.len() == 8,
        format_version.len() == 4,
        max_block_entries.len() == 4,
        block_size.len() == 4,
        checksum.len() == 4,
        parent_id.len() == 16,
        parent_modification_time.len() == 4,
        reserved.len() == 4,
        parent_name.len() == 512,
        locators.len() == 192,
        reserved_2.len() == 256,
    ensures
        bytes == signature + next_offset + block_table_offset + format_version + max_block_entries
            + block_size + checksum + parent_id + parent_modification_time + reserved + parent_name
            + locators + reserved_2,
        bytes.len() == 1024,
        bytes.subrange(0, 8) == signature,
        bytes.subrange(8, 16) == next_offset,
        bytes.subrange(16, 24) == block_table_offset,
        bytes.subrange(24, 28) == format_version,
        bytes.subrange(28, 32) == max_block_entries,
        bytes.subrange(32, 36) == block_size,
        bytes.subrange(36, 40) == checksum,
        bytes.subrange(40, 56) == parent_id,
        bytes.subrange(56, 60) == parent_modification_time,
        bytes.subrange(60, 64) == reserved,
        bytes.subrange(64, 576) == parent_name,
        bytes.subrange(576, 768) == locators,
        bytes.subrange(768, 1024) == reserved_2,
{
    let prefix1 = signature;
    let prefix2 = prefix1 + next_offset;
    let prefix3 = prefix2 + block_table_offset;
    let prefix4 = prefix3 + format_version;
    let prefix5 = prefix4 + max_block_entries;
    let prefix6 = prefix5 + block_size;
    let prefix7 = prefix6 + checksum;
    let prefix8 = prefix7 + parent_id;
    let prefix9 = prefix8 + parent_modification_time;
    let prefix10 = prefix9 + reserved;
    let prefix11 = prefix10 + parent_name;
    let prefix12 = prefix11 + locators;
    let bytes = prefix12 + reserved_2;
    assert(bytes.subrange(0, 1024) == prefix12 + reserved_2) by {
        assert(bytes.subrange(0, 1024) =~= bytes);
    }
    lemma_split(bytes, prefix12, reserved_2, 768, 1024);
    lemma_split(bytes, prefix11, locators, 576, 768);
    lemma_split(bytes, prefix10, parent_name, 64, 576);
    lemma_split(bytes, prefix9, reserved, 60, 64);
    lemma_split(bytes, prefix8, parent_modification_time, 56, 60);
    lemma_split(bytes, prefix7, parent_id, 40, 56);
    lemma_split(bytes, prefix6, checksum, 36, 40);
    lemma_split(bytes, prefix5, block_size, 32, 36);
    lemma_split(bytes, prefix4, max_block_entries, 28, 32);
    lemma_split(bytes, prefix3, format_version, 24, 28);
    lemma_split(bytes, prefix2, block_table_offset, 16, 24);
    lemma_split(bytes, prefix1, next_offset, 8, 16);
    bytes
}

/// Encoding a dynamic disk header and decoding the record again gives back
/// the header, field for field.
pub proof fn lemma_dynamic_header_decode_of_encoded(header: DynamicHeaderModel)
    requires
        header.wf(),
    ensures
        dynamic_header_bytes(header).len() == 1024,
        dynamic_header_of(dynamic_header_bytes(header)) == header,
{
    let locators = locator_bytes(header.parent_locator_entries, 24);
    lemma_u64_read_of_written(header.next_offset);
    lemma_u64_read_of_written(header.block_table_offset);
    lemma_u32_read_of_written(header.format_version);
    lemma_u32_read_of_written(header.max_block_entries);
    lemma_u32_read_of_written(header.block_size);
    lemma_u32_read_of_written(header.checksum);
    lemma_u32_read_of_written(header.parent_modification_time);
    lemma_u32_read_of_written(header.reserved);
    let bytes = lemma_dynamic_header_layout(
        header.signature,
        be_bytes_u64(header.next_offset),
        be_bytes_u64(header.block_table_offset),
        be_bytes_u32(header.format_version),
        be_bytes_u32(header.max_block_entries),
        be_bytes_u32(header.block_size),
        be_bytes_u32(header.checksum),
        header.parent_id,
        be_bytes_u32(header.parent_modification_time),
        be_bytes_u32(header.reserved),
        header.parent_name,
        locators,
        header.reserved_2,
    );
    assert(bytes == dynamic_header_bytes(header));
    lemma_u64_at_part(bytes, 8, header.next_offset);
    lemma_u64_at_part(bytes, 16, header.block_table_offset);
    lemma_u32_at_part(bytes, 24, header.format_version);
    lemma_u32_at_part(bytes, 28, header.max_block_entries);
    lemma_u32_at_part(bytes, 32, header.block_size);
    lemma_u32_at_part(bytes, 36, header.checksum);
    lemma_u32_at_part(bytes, 56, header.parent_modification_time);
    lemma_u32_at_part(bytes, 60, header.reserved);
    assert forall|k: int| 0 <= k < 24 implies #[trigger] locator_entry_of(bytes, k)
        == header.parent_locator_entries[k] by {
        let entry = header.parent_locator_entries[k];
        assert forall|i: int| 0 <= i < 8 implies locator_entry_of(bytes, k)[i] == entry[i] by {
            assert(bytes.subrange(576, 768)[8 * k + i] == locators[8 * k + i]);
            assert((8 * k + i) / 8 == k && (8 * k + i) % 8 == i);
        }
        assert(locator_entry_of(bytes, k) =~= entry);
    }
    assert(dynamic_header_of(bytes).parent_locator_entries =~= header.parent_locator_entries);
}

} // verus!
