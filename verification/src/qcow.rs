//! The flat, fixed-layout header at the start of a QCOW image. The lookup
//! tables that the header points to are not entered.

use crate::endian::{be_u32_at, be_u64_at, u32_at, u64_at};
use crate::error::DecodeError;
use crate::source::{readable, window, ByteSource};
use vstd::prelude::*;

verus! {

/// Size in bytes of the header fields that are decoded.
pub const QCOW_HEADER_SIZE: usize = 72;

/// The magic that a QCOW image starts with: the bytes `Q`, `F`, `I`, `0xfb`
/// read as one big-endian integer.
pub const QCOW_MAGIC: u32 = 0x5146_49fb;

/// The header fields of a QCOW image, in the order in which the file holds
/// them.
#[derive(Debug, Clone, Copy, PartialEq, Eq, Structural)]
pub struct QcowHeader {
    /// Magic number of the format.
    pub magic: u32,
    /// Version of the format.
    pub version: u32,
    /// Offset of the backing file's name.
    pub backing_file_offset: u64,
    /// Length in bytes of the backing file's name.
    pub backing_file_size: u32,
    /// Exponent of the cluster size: a cluster has `2^cluster_bits` bytes.
    pub cluster_bits: u32,
    /// Virtual disk size in bytes.
    pub size: u64,
    /// Encryption method.
    pub crypt_method: u32,
    /// Number of entries in the active L1 table.
    pub l1_size: u32,
    /// Offset of the active L1 table.
    pub l1_table_offset: u64,
    /// Offset of the refcount table.
    pub refcount_table_offset: u64,
    /// Number of clusters that the refcount table occupies.
    pub refcount_table_clusters: u32,
    /// Number of snapshots in the image.
    pub nb_snapshots: u32,
    /// Offset of the snapshot table.
    pub snapshots_offset: u64,
}

/// The header that the first 72 bytes of `bytes` hold: every field at its
/// fixed offset, in big-endian order.
pub open spec fn qcow_header_of(bytes: Seq<u8>) -> QcowHeader
    recommends
        bytes.len() >= 72,
{
    QcowHeader {
        magic: be_u32_at(bytes, 0),
        version: be_u32_at(bytes, 4),
        backing_file_offset: be_u64_at(bytes, 8),
        backing_file_size: be_u32_at(bytes, 16),
        cluster_bits: be_u32_at(bytes, 20),
        size: be_u64_at(bytes, 24),
        crypt_method: be_u32_at(bytes, 32),
        l1_size: be_u32_at(bytes, 36),
        l1_table_offset: be_u64_at(bytes, 40),
        refcount_table_offset: be_u64_at(bytes, 48),
        refcount_table_clusters: be_u32_at(bytes, 56),
        nb_snapshots: be_u32_at(bytes, 60),
        snapshots_offset: be_u64_at(bytes, 64),
    }
}

impl QcowHeader {
    /// Decodes a header from the first 72 bytes of `bytes`. The magic is
    /// copied as it is found and not checked here.
    pub fn parse(bytes: &[u8]) -> (result: Result<QcowHeader, DecodeError>)
        ensures
            bytes@.len() < 72 ==> result == Err::<QcowHeader, DecodeError>(DecodeError::TooShort),
            bytes@.len() >= 72 ==> result == Ok::<QcowHeader, DecodeError>(
                qcow_header_of(bytes@),
            ),
    {
        if bytes.len() < QCOW_HEADER_SIZE {
            return Err(DecodeError::TooShort);
        }
        Ok(
            QcowHeader {
                magic: u32_at(bytes, 0),
                version: u32_at(bytes, 4),
                backing_file_offset: u64_at(bytes, 8),
                backing_file_size: u32_at(bytes, 16),
                cluster_bits: u32_at(bytes, 20),
                size: u64_at(bytes, 24),
                crypt_method: u32_at(bytes, 32),
                l1_size: u32_at(bytes, 36),
                l1_table_offset: u64_at(bytes, 40),
                refcount_table_offset: u64_at(bytes, 48),
                refcount_table_clusters: u32_at(bytes, 56),
                nb_snapshots: u32_at(bytes, 60),
                snapshots_offset: u64_at(bytes, 64),
            },
        )
    }

    /// Reads a header at the cursor of `reader` and moves the cursor behind
    /// it. Where fewer than 72 bytes are left, nothing is decoded and the
    /// cursor stays where it was.
    pub fn from_reader(reader: &mut ByteSource) -> (result: Result<QcowHeader, DecodeError>)
        ensures
            final(reader).bytes() == old(reader).bytes(),
            readable(old(reader).bytes(), old(reader).position(), 72) ==> result == Ok::<
                QcowHeader,
                DecodeError,
            >(qcow_header_of(window(old(reader).bytes(), old(reader).position(), 72)))
                && final(reader).position() == old(reader).position() + 72,
            !readable(old(reader).bytes(), old(reader).position(), 72) ==> result == Err::<
                QcowHeader,
                DecodeError,
            >(DecodeError::TooShort) && final(reader).position() == old(reader).position(),
    {
        match reader.read_exact(QCOW_HEADER_SIZE) {
            None => Err(DecodeError::TooShort),
            Some(bytes) => QcowHeader::parse(bytes.as_slice()),
        }
    }

    /// Tells whether the header carries the QCOW magic.
    pub fn check_signature(&self) -> (result: Result<(), DecodeError>)
        ensures
            self.magic == QCOW_MAGIC ==> result == Ok::<(), DecodeError>(()),
            self.magic != QCOW_MAGIC ==> result == Err::<(), DecodeError>(
                DecodeError::SignatureMismatch,
            ),
    {
        if self.magic == QCOW_MAGIC {
            Ok(())
        } else {
            Err(DecodeError::SignatureMismatch)
        }
    }
}

} // verus!
