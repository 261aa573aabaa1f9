//! The failures that decoding and inspection can report.

use vstd::prelude::*;

verus! {

/// Why a decoding step did not produce a value.
#[derive(Debug, Clone, Copy, PartialEq, Eq, Structural)]
pub enum DecodeError {
    /// The buffer is smaller than the fixed size of the record.
    TooShort,
    /// The record has the right length but does not start with the expected magic.
    SignatureMismatch,
    /// The block allocation table ended before all of its entries were read.
    TruncatedTable,
    /// A block size of zero was used to translate a table entry.
    InvalidBlockSize,
    /// The underlying source failed to seek or read.
    IoError,
}

} // verus!
