//! Decoding of virtual hard-disk image metadata: the VHD footer and dynamic
//! disk header, the block allocation table they point to, and the flat header
//! of a QCOW image.

pub mod bat;
pub mod bytes;
pub mod checksum;
pub mod endian;
pub mod error;
pub mod inspect;
pub mod qcow;
pub mod ramdisk;
pub mod roundtrip;
pub mod source;
pub mod vhd;
