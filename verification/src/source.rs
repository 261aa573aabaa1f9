//! An in-memory byte source with a seek cursor.

use vstd::prelude::*;
use vstd::slice::{slice_subrange, slice_to_vec};

verus! {

/// Whether `count` bytes can be read at offset `at` of `bytes`. Reading
/// nothing succeeds at every offset.
pub open spec fn readable(bytes: Seq<u8>, at: int, count: int) -> bool {
    count == 0 || at + count <= bytes.len()
}

/// The `count` bytes of `bytes` that start at offset `at`.
pub open spec fn window(bytes: Seq<u8>, at: int, count: int) -> Seq<u8> {
    Seq::new(count as nat, |i: int| bytes[at + i])
}

/// What a source answers to the request to read a number of bytes at an
/// offset.
#[derive(Debug, PartialEq, Eq)]
pub enum ReadOutcome {
    /// The bytes that were asked for.
    Data(Vec<u8>),
    /// The source ended before the last byte that was asked for.
    ShortRead,
    /// The source could not seek or read.
    Failed,
}

/// A `ReadOutcome` with its bytes as a sequence.
pub enum OutcomeModel {
    Data(Seq<u8>),
    ShortRead,
    Failed,
}

impl View for ReadOutcome {
    type V = OutcomeModel;

    open spec fn view(&self) -> OutcomeModel {
        match *self {
            ReadOutcome::Data(bytes) => OutcomeModel::Data(bytes@),
            ReadOutcome::ShortRead => OutcomeModel::ShortRead,
            ReadOutcome::Failed => OutcomeModel::Failed,
        }
    }
}

/// What a source that holds `bytes` answers to the request for `count` bytes
/// at offset `at`. A source in memory never fails otherwise than by ending.
pub open spec fn served(bytes: Seq<u8>, at: int, count: int) -> OutcomeModel {
    if readable(bytes, at, count) {
        OutcomeModel::Data(window(bytes, at, count))
    } else {
        OutcomeModel::ShortRead
    }
}

/// A seekable, readable sequence of bytes held in memory.
#[derive(Debug)]
pub struct ByteSource {
    data: Vec<u8>,
    position: u64,
}

impl ByteSource {
    /// The bytes of the source, from its first byte to its last.
    pub closed spec fn bytes(&self) -> Seq<u8> {
        self.data@
    }

    /// The offset at which the next read starts.
    pub closed spec fn position(&self) -> int {
        self.position as int
    }

    /// A source over `data`, with the cursor at its first byte.
    pub fn new(data: Vec<u8>) -> (source: ByteSource)
        ensures
            source.bytes() == data@,
            source.position() == 0,
    {
        ByteSource { data, position: 0 }
    }

    /// The number of bytes in the source.
    pub fn len(&self) -> (len: usize)
        ensures
            len == self.bytes().len(),
    {
        self.data.len()
    }

    /// Moves the cursor to the absolute offset `offset`, which may lie past
    /// the end of the source.
    pub fn seek(&mut self, offset: u64)
        ensures
            final(self).bytes() == old(self).bytes(),
            final(self).position() == offset,
    {
        self.position = offset;
    }

    /// Reads exactly `count` bytes at the cursor and moves the cursor past
    /// them. Where fewer than `count` bytes are left the read fails, nothing
    /// is returned and the cursor stays where it was.
    pub fn read_exact(&mut self, count: usize) -> (read: Option<Vec<u8>>)
        ensures
            final(self).bytes() == old(self).bytes(),
            readable(old(self).bytes(), old(self).position(), count as int) ==> read is Some
                && read->0@ == window(old(self).bytes(), old(self).position(), count as int)
                && final(self).position() == old(self).position() + count,
            !readable(old(self).bytes(), old(self).position(), count as int) ==> read is None
                && final(self).position() == old(self).position(),
    {
        if count == 0 {
            let empty: Vec<u8> = Vec::new();
            assert(empty@ =~= window(self.data@, self.position as int, 0));
            return Some(empty);
        }
        let len = self.data.len();
        if self.position > len as u64 {
            return None;
        }
        let start = self.position as usize;
        if count > len - start {
            return None;
        }
        let read = slice_to_vec(slice_subrange(self.data.as_slice(), start, start + count));
        assert(read@ =~= window(self.data@, start as int, count as int));
        self.position = (start + count) as u64;
        Some(read)
    }

    /// Reads exactly `count` bytes at the absolute offset `offset`, without
    /// regard to the cursor and without moving it.
    pub fn read_at(&self, offset: u64, count: u64) -> (outcome: ReadOutcome)
        ensures
            outcome@ == served(self.bytes(), offset as int, count as int),
    {
        if count == 0 {
            let empty: Vec<u8> = Vec::new();
            assert(empty@ =~= window(self.data@, offset as int, 0));
            return ReadOutcome::Data(empty);
        }
        let len = self.data.len();
        if offset > len as u64 || count > len as u64 - offset {
            return ReadOutcome::ShortRead;
        }
        let start = offset as usize;
        let end = start + count as usize;
        let read = slice_to_vec(slice_subrange(self.data.as_slice(), start, end));
        assert(read@ =~= window(self.data@, offset as int, count as int));
        ReadOutcome::Data(read)
    }
}

} // verus!
