//! The VHD footer and dynamic disk header, and the block allocation table.

use crate::bytes::{array_at, bytes_equal, push_bytes};
use crate::checksum::{checksum_of, record_checksum};
use crate::endian::{
    be_bytes_u32, be_bytes_u64, be_u32_at, be_u64_at, push_be_u32, push_be_u64, u32_at, u64_at,
};
use crate::error::DecodeError;
use crate::source::ByteSource;
use vstd::prelude::*;

verus! {

/// Size in bytes of the footer record.
pub const FOOTER_SIZE: usize = 512;

/// The magic that a footer starts with: the ASCII text `conectix`.
pub open spec fn footer_magic() -> Seq<u8> {
    seq![0x63u8, 0x6fu8, 0x6eu8, 0x65u8, 0x63u8, 0x74u8, 0x69u8, 0x78u8]
}

/// The footer as a mathematical record: what each field of the 512-byte
/// record holds.
pub struct FooterModel {
    pub signature: Seq<u8>,
    pub features: u32,
    pub version: u32,
    pub next_offset: u64,
    pub modification_time: u32,
    pub creator_app: u32,
    pub creator_version: u32,
    pub creator_os: u32,
    pub disk_size: u64,
    pub data_size: u64,
    pub disk_geometry: u32,
    pub disk_type: u32,
    pub checksum: u32,
    pub identifier: Seq<u8>,
    pub saved_state: u8,
    pub reserved: Seq<u8>,
}

impl FooterModel {
    /// The byte fields have the widths that the record layout gives them.
    pub open spec fn wf(self) -> bool {
        &&& self.signature.len() == 8
        &&& self.identifier.len() == 16
        &&& self.reserved.len() == 427
    }
}

/// The footer that the first 512 bytes of `bytes` hold: every field at its
/// fixed offset, integers in big-endian order.
pub open spec fn footer_of(bytes: Seq<u8>) -> FooterModel
    recommends
        bytes.len() >= 512,
{
    FooterModel {
        signature: bytes.subrange(0, 8),
        features: be_u32_at(bytes, 8),
        version: be_u32_at(bytes, 12),
        next_offset: be_u64_at(bytes, 16),
        modification_time: be_u32_at(bytes, 24),
        creator_app: be_u32_at(bytes, 28),
        creator_version: be_u32_at(bytes, 32),
        creator_os: be_u32_at(bytes, 36),
        disk_size: be_u64_at(bytes, 40),
        data_size: be_u64_at(bytes, 48),
        disk_geometry: be_u32_at(bytes, 56),
        disk_type: be_u32_at(bytes, 60),
        checksum: be_u32_at(bytes, 64),
        identifier: bytes.subrange(68, 84),
        saved_state: bytes[84],
        reserved: bytes.subrange(85, 512),
    }
}

/// The 512-byte record that holds `footer`.
pub open spec fn footer_bytes(footer: FooterModel) -> Seq<u8> {
    footer.signature + be_bytes_u32(footer.features) + be_bytes_u32(footer.version)
        + be_bytes_u64(footer.next_offset) + be_bytes_u32(footer.modification_time)
        + be_bytes_u32(footer.creator_app) + be_bytes_u32(footer.creator_version)
        + be_bytes_u32(footer.creator_os) + be_bytes_u64(footer.disk_size) + be_bytes_u64(
        footer.data_size,
    ) + be_bytes_u32(footer.disk_geometry) + be_bytes_u32(footer.disk_type) + be_bytes_u32(
        footer.checksum,
    ) + footer.identifier + seq![footer.saved_state] + footer.reserved
}

/// The cylinder count packed into bits 31 to 16 of a geometry field.
pub open spec fn geometry_cylinders(geometry: u32) -> u32 {
    (geometry & 0xFFFF_0000) >> 16
}

/// The head count packed into bits 15 to 8 of a geometry field.
pub open spec fn geometry_heads(geometry: u32) -> u32 {
    (geometry & 0x0000_FF00) >> 8
}

/// The sectors per track packed into bits 7 to 0 of a geometry field.
pub open spec fn geometry_sectors(geometry: u32) -> u32 {
    geometry & 0x0000_00FF
}

/// The fixed 512-byte record that identifies a VHD image.
#[derive(Debug, PartialEq, Eq)]
pub struct VhdFooter {
    signature: [u8; 8],
    features: u32,
    version: u32,
    next_offset: u64,
    modification_time: u32,
    creator_app: u32,
    creator_version: u32,
    creator_os: u32,
    disk_size: u64,
    data_size: u64,
    disk_geometry: u32,
    disk_type: u32,
    checksum: u32,
    identifier: [u8; 16],
    saved_state: u8,
    reserved: [u8; 427],
}

impl View for VhdFooter {
    type V = FooterModel;

    closed spec fn view(&self) -> FooterModel {
        FooterModel {
            signature: self.signature@,
            features: self.features,
            version: self.version,
            next_offset: self.next_offset,
            modification_time: self.modification_time,
            creator_app: self.creator_app,
            creator_version: self.creator_version,
            creator_os: self.creator_os,
            disk_size: self.disk_size,
            data_size: self.data_size,
            disk_geometry: self.disk_geometry,
            disk_type: self.disk_type,
            checksum: self.checksum,
            identifier: self.identifier@,
            saved_state: self.saved_state,
            reserved: self.reserved@,
        }
    }
}

impl VhdFooter {
    /// The byte fields of every footer have the widths of the record layout.
    pub proof fn lemma_wf(&self)
        ensures
            self@.wf(),
    {
    }

    /// Decodes a footer from the first 512 bytes of `footer_bytes`. The
    /// signature is copied as it is found and not checked here.
    pub fn parse(footer_bytes: &[u8]) -> (result: Result<VhdFooter, DecodeError>)
        ensures
            footer_bytes@.len() < 512 ==> result == Err::<VhdFooter, DecodeError>(
                DecodeError::TooShort,
            ),
            footer_bytes@.len() >= 512 ==> result is Ok && result->Ok_0@ == footer_of(
                footer_bytes@,
            ),
            result is Ok ==> result->Ok_0@.wf(),
    {
        if footer_bytes.len() < FOOTER_SIZE {
            return Err(DecodeError::TooShort);
        }
        let footer = VhdFooter {
            signature: array_at::<8>(footer_bytes, 0),
            features: u32_at(footer_bytes, 8),
            version: u32_at(footer_bytes, 12),
            next_offset: u64_at(footer_bytes, 16),
            modification_time: u32_at(footer_bytes, 24),
            creator_app: u32_at(footer_bytes, 28),
            creator_version: u32_at(footer_bytes, 32),
            creator_os: u32_at(footer_bytes, 36),
            disk_size: u64_at(footer_bytes, 40),
            data_size: u64_at(footer_bytes, 48),
            disk_geometry: u32_at(footer_bytes, 56),
            disk_type: u32_at(footer_bytes, 60),
            checksum: u32_at(footer_bytes, 64),
            identifier: array_at::<16>(footer_bytes, 68),
            saved_state: footer_bytes[84],
            reserved: array_at::<427>(footer_bytes, 85),
        };
        Ok(footer)
    }

    /// The magic as it was found in the record.
    pub fn signature(&self) -> (signature: &[u8; 8])
        ensures
            signature@ == self@.signature,
    {
        &self.signature
    }

    /// Byte offset of the next chained header, as stored.
    pub fn next_offset(&self) -> (offset: u64)
        ensures
            offset == self@.next_offset,
    {
        self.next_offset
    }

    /// The virtual capacity in bytes.
    pub fn disk_size(&self) -> (size: u64)
        ensures
            size == self@.disk_size,
    {
        self.disk_size
    }

    /// The physical capacity in bytes.
    pub fn data_size(&self) -> (size: u64)
        ensures
            size == self@.data_size,
    {
        self.data_size
    }

    /// The feature flags, as stored.
    pub fn features(&self) -> (features: u32)
        ensures
            features == self@.features,
    {
        self.features
    }

    /// The format version, as stored.
    pub fn version(&self) -> (version: u32)
        ensures
            version == self@.version,
    {
        self.version
    }

    /// The bit-packed geometry field, as stored.
    pub fn disk_geometry(&self) -> (geometry: u32)
        ensures
            geometry == self@.disk_geometry,
    {
        self.disk_geometry
    }

    /// The checksum, as stored.
    pub fn checksum(&self) -> (checksum: u32)
        ensures
            checksum == self@.checksum,
    {
        self.checksum
    }

    /// The unique identifier of the image.
    pub fn identifier(&self) -> (identifier: &[u8; 16])
        ensures
            identifier@ == self@.identifier,
    {
        &self.identifier
    }

    /// The cylinder count of the disk geometry.
    pub fn disk_cylinders(&self) -> (cylinders: u32)
        ensures
            cylinders == geometry_cylinders(self@.disk_geometry),
    {
        (self.disk_geometry & 0xFFFF_0000) >> 16
    }

    /// The head count of the disk geometry.
    pub fn disk_heads(&self) -> (heads: u32)
        ensures
            heads == geometry_heads(self@.disk_geometry),
    {
        (self.disk_geometry & 0x0000_FF00) >> 8
    }

    /// The sectors per track of the disk geometry.
    pub fn disk_sectors(&self) -> (sectors: u32)
        ensures
            sectors == geometry_sectors(self@.disk_geometry),
    {
        self.disk_geometry & 0x0000_00FF
    }

    /// Tells whether the record starts with the footer magic.
    pub fn check_signature(&self) -> (result: Result<(), DecodeError>)
        ensures
            self@.signature == footer_magic() ==> result == Ok::<(), DecodeError>(()),
            self@.signature != footer_magic() ==> result == Err::<(), DecodeError>(
                DecodeError::SignatureMismatch,
            ),
    {
        let magic: [u8; 8] = [0x63, 0x6f, 0x6e, 0x65, 0x63, 0x74, 0x69, 0x78];
        assert(magic@ =~= footer_magic());
        if bytes_equal(&self.signature, &magic) {
            Ok(())
        } else {
            Err(DecodeError::SignatureMismatch)
        }
    }

    /// Encodes the footer into its 512-byte record.
    pub fn to_bytes(&self) -> (bytes: Vec<u8>)
        ensures
            bytes@ == footer_bytes(self@),
            bytes@.len() == 512,
    {
        let mut out: Vec<u8> = Vec::new();
        push_bytes(&mut out, &self.signature);
        assert(out@ =~= self.signature@);
        push_be_u32(&mut out, self.features);
        push_be_u32(&mut out, self.version);
        push_be_u64(&mut out, self.next_offset);
        push_be_u32(&mut out, self.modification_time);
        push_be_u32(&mut out, self.creator_app);
        push_be_u32(&mut out, self.creator_version);
        push_be_u32(&mut out, self.creator_os);
        push_be_u64(&mut out, self.disk_size);
        push_be_u64(&mut out, self.data_size);
        push_be_u32(&mut out, self.disk_geometry);
        push_be_u32(&mut out, self.disk_type);
        push_be_u32(&mut out, self.checksum);
        push_bytes(&mut out, &self.identifier);
        let ghost head = out@;
        out.push(self.saved_state);
        assert(out@ =~= head + seq![self.saved_state]);
        push_bytes(&mut out, &self.reserved);
        out
    }

    /// The checksum that the footer's fields call for, whatever is stored.
    pub fn computed_checksum(&self) -> (checksum: u32)
        ensures
            checksum == record_checksum(footer_bytes(self@), 64),
    {
        let record = self.to_bytes();
        checksum_of(record.as_slice(), 64)
    }

    /// Whether the stored checksum is the one that the fields call for.
    pub fn verify_checksum(&self) -> (valid: bool)
        ensures
            valid == (self@.checksum == record_checksum(footer_bytes(self@), 64)),
    {
        self.checksum == self.computed_checksum()
    }
}

/// The footer is decided by the first 512 bytes alone: what follows them
/// changes nothing.
pub proof fn lemma_footer_of_prefix(bytes: Seq<u8>, other: Seq<u8>)
    requires
        bytes.len() >= 512,
        other.len() >= 512,
        forall|i: int| 0 <= i < 512 ==> bytes[i] == other[i],
    ensures
        footer_of(bytes) == footer_of(other),
{
    assert(bytes.subrange(0, 8) =~= other.subrange(0, 8));
    assert(bytes.subrange(68, 84) =~= other.subrange(68, 84));
    assert(bytes.subrange(85, 512) =~= other.subrange(85, 512));
}

/// The geometry field is the three counts packed together, each within its
/// bit width. The counts depend on the field alone, so extracting them again
/// always gives the same triple.
pub proof fn lemma_geometry_decomposition(geometry: u32)
    ensures
        geometry_cylinders(geometry) * 65536 + geometry_heads(geometry) * 256 + geometry_sectors(
            geometry,
        ) == geometry,
        geometry_cylinders(geometry) < 65536,
        geometry_heads(geometry) < 256,
        geometry_sectors(geometry) < 256,
{
    assert(((geometry & 0xFFFF_0000) >> 16) * 65536 + ((geometry & 0x0000_FF00) >> 8) * 256 + (
    geometry & 0x0000_00FF) == geometry) by (bit_vector);
    assert(((geometry & 0xFFFF_0000) >> 16) < 65536) by (bit_vector);
    assert(((geometry & 0x0000_FF00) >> 8) < 256) by (bit_vector);
    assert((geometry & 0x0000_00FF) < 256) by (bit_vector);
}

/// Three counts in range, packed into a geometry field, are the counts that
/// the field decomposes to.
pub proof fn lemma_geometry_of_packed(cylinders: u32, heads: u32, sectors: u32)
    requires
        cylinders < 65536,
        heads < 256,
        sectors < 256,
    ensures
        geometry_cylinders((cylinders * 65536 + heads * 256 + sectors) as u32) == cylinders,
        geometry_heads((cylinders * 65536 + heads * 256 + sectors) as u32) == heads,
        geometry_sectors((cylinders * 65536 + heads * 256 + sectors) as u32) == sectors,
{
    let geometry = (cylinders * 65536 + heads * 256 + sectors) as u32;
    assert((geometry & 0xFFFF_0000) >> 16 == cylinders && (geometry & 0x0000_FF00) >> 8 == heads
        && geometry & 0x0000_00FF == sectors) by (bit_vector)
        requires
            cylinders < 65536,
            heads < 256,
            sectors < 256,
            geometry == cylinders * 65536 + heads * 256 + sectors,
    ;
}

/// Size in bytes of the dynamic disk header record.
pub const DYNAMIC_HEADER_SIZE: usize = 1024;

/// The magic that a dynamic disk header starts with: the ASCII text
/// `cxsparse`.
pub open spec fn dynamic_header_magic() -> Seq<u8> {
    seq![0x63u8, 0x78u8, 0x73u8, 0x70u8, 0x61u8, 0x72u8, 0x73u8, 0x65u8]
}

/// The dynamic disk header as a mathematical record: what each field of the
/// 1024-byte record holds.
pub struct DynamicHeaderModel {
    pub signature: Seq<u8>,
    pub next_offset: u64,
    pub block_table_offset: u64,
    pub format_version: u32,
    pub max_block_entries: u32,
    pub block_size: u32,
    pub checksum: u32,
    pub parent_id: Seq<u8>,
    pub parent_modification_time: u32,
    pub reserved: u32,
    pub parent_name: Seq<u8>,
    pub parent_locator_entries: Seq<Seq<u8>>,
    pub reserved_2: Seq<u8>,
}

impl DynamicHeaderModel {
    /// The byte fields have the widths that the record layout gives them.
    pub open spec fn wf(self) -> bool {
        &&& self.signature.len() == 8
        &&& self.parent_id.len() == 16
        &&& self.parent_name.len() == 512
        &&& self.parent_locator_entries.len() == 24
        &&& forall|k: int| 0 <= k < 24 ==> (#[trigger] self.parent_locator_entries[k]).len() == 8
        &&& self.reserved_2.len() == 256
    }
}

/// The bytes of the first `count` parent locator entries, one entry after the
/// other.
pub open spec fn locator_bytes(entries: Seq<Seq<u8>>, count: int) -> Seq<u8> {
    Seq::new((8 * count) as nat, |i: int| entries[i / 8][i % 8])
}

/// The parent locator entry number `k` of the record in `bytes`: the eight
/// bytes at offset `576 + 8 * k`.
pub open spec fn locator_entry_of(bytes: Seq<u8>, k: int) -> Seq<u8> {
    bytes.subrange(576 + 8 * k, 584 + 8 * k)
}

/// The dynamic disk header that the first 1024 bytes of `bytes` hold: every
/// field at its fixed offset, integers in big-endian order.
pub open spec fn dynamic_header_of(bytes: Seq<u8>) -> DynamicHeaderModel
    recommends
        bytes.len() >= 1024,
{
    DynamicHeaderModel {
        signature: bytes.subrange(0, 8),
        next_offset: be_u64_at(bytes, 8),
        block_table_offset: be_u64_at(bytes, 16),
        format_version: be_u32_at(bytes, 24),
        max_block_entries: be_u32_at(bytes, 28),
        block_size: be_u32_at(bytes, 32),
        checksum: be_u32_at(bytes, 36),
        parent_id: bytes.subrange(40, 56),
        parent_modification_time: be_u32_at(bytes, 56),
        reserved: be_u32_at(bytes, 60),
        parent_name: bytes.subrange(64, 576),
        parent_locator_entries: Seq::new(24, |k: int| locator_entry_of(bytes, k)),
        reserved_2: bytes.subrange(768, 1024),
    }
}

/// The 1024-byte record that holds `header`.
pub open spec fn dynamic_header_bytes(header: DynamicHeaderModel) -> Seq<u8> {
    header.signature + be_bytes_u64(header.next_offset) + be_bytes_u64(header.block_table_offset)
        + be_bytes_u32(header.format_version) + be_bytes_u32(header.max_block_entries)
        + be_bytes_u32(header.block_size) + be_bytes_u32(header.checksum) + header.parent_id
        + be_bytes_u32(header.parent_modification_time) + be_bytes_u32(header.reserved)
        + header.parent_name + locator_bytes(header.parent_locator_entries, 24) + header.reserved_2
}

/// The fixed 1024-byte record that locates the block allocation table of a
/// dynamic VHD image.
#[derive(Debug, PartialEq, Eq)]
pub struct DynamicDiskHeader {
    signature: [u8; 8],
    next_offset: u64,
    block_table_offset: u64,
    format_version: u32,
    max_block_entries: u32,
    block_size: u32,
    checksum: u32,
    parent_id: [u8; 16],
    parent_modification_time: u32,
    reserved: u32,
    parent_name: [u8; 512],
    parent_locator_entries: [[u8; 8]; 24],
    reserved_2: [u8; 256],
}

impl View for DynamicDiskHeader {
    type V = DynamicHeaderModel;

    closed spec fn view(&self) -> DynamicHeaderModel {
        DynamicHeaderModel {
            signature: self.signature@,
            next_offset: self.next_offset,
            block_table_offset: self.block_table_offset,
            format_version: self.format_version,
            max_block_entries: self.max_block_entries,
            block_size: self.block_size,
            checksum: self.checksum,
            parent_id: self.parent_id@,
            parent_modification_time: self.parent_modification_time,
            reserved: self.reserved,
            parent_name: self.parent_name@,
            parent_locator_entries: Seq::new(24, |k: int| self.parent_locator_entries@[k]@),
            reserved_2: self.reserved_2@,
        }
    }
}

impl DynamicDiskHeader {
    /// The byte fields of every header have the widths of the record layout.
    pub proof fn lemma_wf(&self)
        ensures
            self@.wf(),
    {
    }

    /// Decodes a dynamic disk header from the first 1024 bytes of
    /// `header_bytes`. The signature is copied as it is found and not checked
    /// here.
    pub fn parse(header_bytes: &[u8]) -> (result: Result<DynamicDiskHeader, DecodeError>)
        ensures
            header_bytes@.len() < 1024 ==> result == Err::<DynamicDiskHeader, DecodeError>(
                DecodeError::TooShort,
            ),
            header_bytes@.len() >= 1024 ==> result is Ok && result->Ok_0@ == dynamic_header_of(
                header_bytes@,
            ),
            result is Ok ==> result->Ok_0@.wf(),
    {
        if header_bytes.len() < DYNAMIC_HEADER_SIZE {
            return Err(DecodeError::TooShort);
        }
        let mut locators: [[u8; 8]; 24] = [[0u8; 8]; 24];
        let mut i: usize = 0;
        while i < 24
            invariant
                i <= 24,
                header_bytes.len() >= 1024,
                forall|k: int|
                    0 <= k < i ==> (#[trigger] locators@[k])@ == locator_entry_of(
                        header_bytes@,
                        k,
                    ),
            decreases 24 - i,
        {
            locators[i] = array_at::<8>(header_bytes, 576 + i * 8);
            i += 1;
        }
        let header = DynamicDiskHeader {
            signature: array_at::<8>(header_bytes, 0),
            next_offset: u64_at(header_bytes, 8),
            block_table_offset: u64_at(header_bytes, 16),
            format_version: u32_at(header_bytes, 24),
            max_block_entries: u32_at(header_bytes, 28),
            block_size: u32_at(header_bytes, 32),
            checksum: u32_at(header_bytes, 36),
            parent_id: array_at::<16>(header_bytes, 40),
            parent_modification_time: u32_at(header_bytes, 56),
            reserved: u32_at(header_bytes, 60),
            parent_name: array_at::<512>(header_bytes, 64),
            parent_locator_entries: locators,
            reserved_2: array_at::<256>(header_bytes, 768),
        };
        assert(header@.parent_locator_entries =~= dynamic_header_of(
            header_bytes@,
        ).parent_locator_entries);
        Ok(header)
    }

    /// The magic as it was found in the record.
    pub fn signature(&self) -> (signature: &[u8; 8])
        ensures
            signature@ == self@.signature,
    {
        &self.signature
    }

    /// Byte offset of the block allocation table.
    pub fn block_table_offset(&self) -> (offset: u64)
        ensures
            offset == self@.block_table_offset,
    {
        self.block_table_offset
    }

    /// The number of entries in the block allocation table.
    pub fn max_block_entries(&self) -> (entries: u32)
        ensures
            entries == self@.max_block_entries,
    {
        self.max_block_entries
    }

    /// The size in bytes of the data of one block.
    pub fn block_size(&self) -> (size: u32)
        ensures
            size == self@.block_size,
    {
        self.block_size
    }

    /// Byte offset of the next chained header, as stored.
    pub fn next_offset(&self) -> (offset: u64)
        ensures
            offset == self@.next_offset,
    {
        self.next_offset
    }

    /// The format version, as stored.
    pub fn format_version(&self) -> (version: u32)
        ensures
            version == self@.format_version,
    {
        self.format_version
    }

    /// The checksum, as stored.
    pub fn checksum(&self) -> (checksum: u32)
        ensures
            checksum == self@.checksum,
    {
        self.checksum
    }

    /// The identifier of the parent image; all zero where there is none.
    pub fn parent_id(&self) -> (identifier: &[u8; 16])
        ensures
            identifier@ == self@.parent_id,
    {
        &self.parent_id
    }

    /// The modification time of the parent image, as stored.
    pub fn parent_modification_time(&self) -> (time: u32)
        ensures
            time == self@.parent_modification_time,
    {
        self.parent_modification_time
    }

    /// The bytes of the parent image's name.
    pub fn parent_name(&self) -> (name: &[u8; 512])
        ensures
            name@ == self@.parent_name,
    {
        &self.parent_name
    }

    /// The parent locator entries, in record order.
    pub fn parent_locator_entries(&self) -> (entries: &[[u8; 8]; 24])
        ensures
            forall|k: int|
                0 <= k < 24 ==> (#[trigger] entries@[k])@ == self@.parent_locator_entries[k],
    {
        &self.parent_locator_entries
    }

    /// Tells whether the record starts with the dynamic disk header magic.
    pub fn check_signature(&self) -> (result: Result<(), DecodeError>)
        ensures
            self@.signature == dynamic_header_magic() ==> result == Ok::<(), DecodeError>(()),
            self@.signature != dynamic_header_magic() ==> result == Err::<(), DecodeError>(
                DecodeError::SignatureMismatch,
            ),
    {
        let magic: [u8; 8] = [0x63, 0x78, 0x73, 0x70, 0x61, 0x72, 0x73, 0x65];
        assert(magic@ =~= dynamic_header_magic());
        if bytes_equal(&self.signature, &magic) {
            Ok(())
        } else {
            Err(DecodeError::SignatureMismatch)
        }
    }

    /// Encodes the header into its 1024-byte record.
    pub fn to_bytes(&self) -> (bytes: Vec<u8>)
        ensures
            bytes@ == dynamic_header_bytes(self@),
            bytes@.len() == 1024,
    {
        let mut out: Vec<u8> = Vec::new();
        push_bytes(&mut out, &self.signature);
        assert(out@ =~= self.signature@);
        push_be_u64(&mut out, self.next_offset);
        push_be_u64(&mut out, self.block_table_offset);
        push_be_u32(&mut out, self.format_version);
        push_be_u32(&mut out, self.max_block_entries);
        push_be_u32(&mut out, self.block_size);
        push_be_u32(&mut out, self.checksum);
        push_bytes(&mut out, &self.parent_id);
        push_be_u32(&mut out, self.parent_modification_time);
        push_be_u32(&mut out, self.reserved);
        push_bytes(&mut out, &self.parent_name);
        let ghost head = out@;
        let mut i: usize = 0;
        while i < 24
            invariant
                i <= 24,
                out@ == head + locator_bytes(self@.parent_locator_entries, i as int),
            decreases 24 - i,
        {
            push_bytes(&mut out, &self.parent_locator_entries[i]);
            i += 1;
            assert(out@ =~= head + locator_bytes(self@.parent_locator_entries, i as int));
        }
        push_bytes(&mut out, &self.reserved_2);
        out
    }

    /// The checksum that the header's fields call for, whatever is stored.
    pub fn computed_checksum(&self) -> (checksum: u32)
        ensures
            checksum == record_checksum(dynamic_header_bytes(self@), 36),
    {
        let record = self.to_bytes();
        checksum_of(record.as_slice(), 36)
    }

    /// Whether the stored checksum is the one that the fields call for.
    pub fn verify_checksum(&self) -> (valid: bool)
        ensures
            valid == (self@.checksum == record_checksum(dynamic_header_bytes(self@), 36)),
    {
        self.checksum == self.computed_checksum()
    }
}

/// The dynamic disk header is decided by the first 1024 bytes alone: what
/// follows them changes nothing.
pub proof fn lemma_dynamic_header_of_prefix(bytes: Seq<u8>, other: Seq<u8>)
    requires
        bytes.len() >= 1024,
        other.len() >= 1024,
        forall|i: int| 0 <= i < 1024 ==> bytes[i] == other[i],
    ensures
        dynamic_header_of(bytes) == dynamic_header_of(other),
{
    assert(bytes.subrange(0, 8) =~= other.subrange(0, 8));
    assert(bytes.subrange(40, 56) =~= other.subrange(40, 56));
    assert(bytes.subrange(64, 576) =~= other.subrange(64, 576));
    assert(bytes.subrange(768, 1024) =~= other.subrange(768, 1024));
    assert forall|k: int| 0 <= k < 24 implies #[trigger] locator_entry_of(bytes, k)
        == locator_entry_of(other, k) by {
        assert(locator_entry_of(bytes, k) =~= locator_entry_of(other, k));
    }
    assert(dynamic_header_of(bytes).parent_locator_entries =~= dynamic_header_of(
        other,
    ).parent_locator_entries);
}

/// Size in bytes of one entry of the block allocation table.
pub const BAT_ENTRY_SIZE: usize = 4;

/// The table of `count` entries that starts at `offset` in `bytes`: entry `i`
/// is the big-endian integer in the four bytes at `offset + 4 * i`.
pub open spec fn table_entries(bytes: Seq<u8>, offset: int, count: int) -> Seq<u32> {
    Seq::new(count as nat, |i: int| be_u32_at(bytes, offset + 4 * i))
}

/// Whether a source of `len` bytes holds all `count` entries of a table that
/// starts at `offset`. An empty table is always complete.
pub open spec fn table_fits(len: int, offset: int, count: int) -> bool {
    count == 0 || offset + 4 * count <= len
}

/// The number of whole entries that a source of `len` bytes holds from
/// `offset` on.
pub open spec fn whole_entries(len: int, offset: int) -> int {
    if offset <= len {
        (len - offset) / 4
    } else {
        0
    }
}

/// Reads the block allocation table: seeks `source` to `bat_offset` and reads
/// `num_entries` big-endian entries one after the other, in table order. Where
/// the source ends before the last entry no entry is returned, and the cursor
/// rests behind the last whole entry.
pub fn read_bat_entries(source: &mut ByteSource, bat_offset: u64, num_entries: usize) -> (result:
    Result<Vec<u32>, DecodeError>)
    ensures
        final(source).bytes() == old(source).bytes(),
        table_fits(old(source).bytes().len() as int, bat_offset as int, num_entries as int)
            ==> result is Ok && result->Ok_0@ == table_entries(
            old(source).bytes(),
            bat_offset as int,
            num_entries as int,
        ) && final(source).position() == bat_offset + 4 * num_entries,
        !table_fits(old(source).bytes().len() as int, bat_offset as int, num_entries as int)
            ==> result == Err::<Vec<u32>, DecodeError>(DecodeError::TruncatedTable)
            && final(source).position() == bat_offset + 4 * whole_entries(
            old(source).bytes().len() as int,
            bat_offset as int,
        ),
{
    source.seek(bat_offset);
    let ghost bytes = source.bytes();
    let mut bat_entries: Vec<u32> = Vec::new();
    let mut i: usize = 0;
    while i < num_entries
        invariant
            i <= num_entries,
            bytes == old(source).bytes(),
            source.bytes() == bytes,
            source.position() == bat_offset + 4 * i,
            table_fits(bytes.len() as int, bat_offset as int, i as int),
            bat_entries@ == table_entries(bytes, bat_offset as int, i as int),
        decreases num_entries - i,
    {
        match source.read_exact(BAT_ENTRY_SIZE) {
            None => {
                return Err(DecodeError::TruncatedTable);
            },
            Some(buffer) => {
                let entry = u32_at(buffer.as_slice(), 0);
                bat_entries.push(entry);
                i += 1;
                assert(bat_entries@ =~= table_entries(bytes, bat_offset as int, i as int));
            },
        }
    }
    Ok(bat_entries)
}

} // verus!
