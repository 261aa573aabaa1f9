//! A disk held in memory: the storage behind a block-device adapter, read
//! and written by byte range.

use vstd::prelude::*;

verus! {

/// A fixed-size run of bytes that can be read and overwritten in place.
#[derive(Debug)]
pub struct RamDisk {
    data: Vec<u8>,
}

impl RamDisk {
    /// The bytes of the disk.
    pub closed spec fn bytes(&self) -> Seq<u8> {
        self.data@
    }

    /// A disk of `size` zero bytes.
    pub fn new(size: usize) -> (disk: RamDisk)
        ensures
            disk.bytes() == Seq::new(size as nat, |i: int| 0u8),
    {
        let data: Vec<u8> = vec![0u8; size];
        assert(data@ =~= Seq::new(size as nat, |i: int| 0u8));
        RamDisk { data }
    }

    /// The size of the disk in bytes.
    pub fn get_size(&self) -> (size: usize)
        ensures
            size == self.bytes().len(),
    {
        self.data.len()
    }

    /// Fills `buf` with the bytes of the disk from `offset` on.
    pub fn read_at(&self, buf: &mut [u8], offset: u64)
        requires
            offset + old(buf)@.len() <= self.bytes().len(),
        ensures
            final(buf)@ == self.bytes().subrange(offset as int, offset + old(buf)@.len()),
    {
        assert(offset <= self.data.len());
        let ofs = offset as usize;
        let count = buf.len();
        let mut i: usize = 0;
        while i < count
            invariant
                i <= count,
                count == buf@.len(),
                ofs == offset,
                ofs + count <= self.data.len(),
                forall|k: int| 0 <= k < i ==> buf@[k] == self.data@[ofs + k],
            decreases count - i,
        {
            buf[i] = self.data[ofs + i];
            i += 1;
        }
        assert(buf@ =~= self.data@.subrange(offset as int, offset + count));
    }

    /// Overwrites the bytes of the disk from `offset` on with `buf`. The
    /// bytes before and behind that range, and the size, stay as they were.
    pub fn write_at(&mut self, buf: &[u8], offset: u64)
        requires
            offset + buf@.len() <= old(self).bytes().len(),
        ensures
            final(self).bytes() == old(self).bytes().subrange(0, offset as int) + buf@ + old(
                self,
            ).bytes().subrange(offset + buf@.len(), old(self).bytes().len() as int),
    {
        assert(offset <= self.data.len());
        let ofs = offset as usize;
        let count = buf.len();
        let mut i: usize = 0;
        while i < count
            invariant
                i <= count,
                count == buf@.len(),
                ofs == offset,
                ofs + count <= self.data.len(),
                self.data@.len() == old(self).data@.len(),
                forall|k: int| 0 <= k < i ==> self.data@[ofs + k] == buf@[k],
                forall|k: int|
                    0 <= k < self.data@.len() && !(ofs <= k < ofs + i) ==> self.data@[k] == old(
                        self,
                    ).data@[k],
            decreases count - i,
        {
            self.data[ofs + i] = buf[i];
            i += 1;
        }
        assert(self.data@ =~= old(self).data@.subrange(0, offset as int) + buf@ + old(
            self,
        ).data@.subrange(offset + count, old(self).data@.len() as int));
    }
}

} // verus!
