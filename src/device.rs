//! The block device the filesystem lives on, seen as one flat array of bytes.

use vstd::prelude::*;

verus! {

/// The unit of device addressing, in bytes.
pub const BLOCK_SIZE: u32 = 1024;

/// Why a device access did not complete.
#[derive(Debug, Clone, Copy, PartialEq, Eq, Structural)]
pub enum DeviceError {
    /// The device could not be positioned at the address.
    Seek,
    /// Fewer bytes than asked for could be read.
    Read,
    /// Fewer bytes than asked for could be written, or they were not flushed.
    Write,
    /// The address range lies beyond the end of the device.
    OutOfRange,
}

/// The byte address of `offset` within block `block_num`.
pub open spec fn byte_address(block_num: u32, offset: u32) -> int {
    block_num as int * 1024 + offset as int
}

/// The device contents `d` after `data` has been written at byte `addr`.
/// A write past the end grows the device; a gap it leaves reads as zero.
pub open spec fn written(d: Seq<u8>, addr: int, data: Seq<u8>) -> Seq<u8> {
    let len = if addr + data.len() > d.len() { addr + data.len() } else { d.len() as int };
    Seq::new(
        len as nat,
        |i: int|
            if addr <= i < addr + data.len() {
                data[i - addr]
            } else if i < d.len() {
                d[i]
            } else {
                0u8
            },
    )
}

/// The `len` bytes of `d` that start at byte `addr`.
pub open spec fn bytes_at(d: Seq<u8>, addr: int, len: int) -> Seq<u8> {
    d.subrange(addr, addr + len)
}

/// A write leaves the device at least as long as before and as the end of
/// what it wrote, and the written bytes read back.
pub proof fn lemma_written_reads_back(d: Seq<u8>, addr: int, data: Seq<u8>)
    requires
        0 <= addr,
    ensures
        written(d, addr, data).len() >= d.len(),
        written(d, addr, data).len() >= addr + data.len(),
        bytes_at(written(d, addr, data), addr, data.len() as int) == data,
{
    assert(bytes_at(written(d, addr, data), addr, data.len() as int) =~= data);
}

/// A write leaves alone the bytes of a range it does not touch.
pub proof fn lemma_written_elsewhere(d: Seq<u8>, addr: int, data: Seq<u8>, at: int, len: int)
    requires
        0 <= addr,
        0 <= at,
        0 <= len,
        at + len <= d.len(),
        addr + data.len() <= at || at + len <= addr,
    ensures
        bytes_at(written(d, addr, data), at, len) == bytes_at(d, at, len),
{
    assert(bytes_at(written(d, addr, data), at, len) =~= bytes_at(d, at, len));
}

/// A fixed-size-block storage medium, addressed at
/// `block_num * BLOCK_SIZE + offset`.
pub trait BlockDevice {
    /// The bytes the device holds.
    spec fn contents(&self) -> Seq<u8>;

    /// Whether the device promises that every access within its contents
    /// succeeds. A device that can fail for reasons of its own (a file, a
    /// disk) says `false`.
    spec fn reliable(&self) -> bool;

    /// Reads `buf.len()` bytes starting at `offset` within block `block_num`.
    /// A short read is an error, never a partial result.
    fn read_block(&mut self, block_num: u32, offset: u32, buf: &mut [u8]) -> (r: Result<
        (),
        DeviceError,
    >)
        ensures
            final(self).contents() == old(self).contents(),
            final(self).reliable() == old(self).reliable(),
            final(buf)@.len() == old(buf)@.len(),
            old(self).reliable() && byte_address(block_num, offset) + old(buf)@.len() <= old(
                self,
            ).contents().len() ==> r is Ok,
            r is Ok ==> byte_address(block_num, offset) + old(buf)@.len() <= old(
                self,
            ).contents().len(),
            r is Ok ==> final(buf)@ == bytes_at(
                old(self).contents(),
                byte_address(block_num, offset),
                old(buf)@.len() as int,
            ),
    ;

    /// Writes all of `buf` starting at `offset` within block `block_num`, and
    /// makes it durable before returning.
    fn write_block(&mut self, block_num: u32, offset: u32, buf: &[u8]) -> (r: Result<
        (),
        DeviceError,
    >)
        ensures
            final(self).reliable() == old(self).reliable(),
            old(self).reliable() && byte_address(block_num, offset) + buf@.len() <= old(
                self,
            ).contents().len() ==> r is Ok,
            r is Ok ==> final(self).contents() == written(
                old(self).contents(),
                byte_address(block_num, offset),
                buf@,
            ),
    ;
}

/// A device held in memory, of a size fixed when it is made.
pub struct MemBlockDevice {
    data: Vec<u8>,
}

impl MemBlockDevice {
    /// A zero-filled device of `size` bytes.
    pub fn new(size: usize) -> (r: MemBlockDevice)
        ensures
            r.contents() == Seq::new(size as nat, |i: int| 0u8),
    {
        let mut data: Vec<u8> = Vec::new();
        let mut i: usize = 0;
        while i < size
            invariant
                i <= size,
                data@ == Seq::new(i as nat, |k: int| 0u8),
            decreases size - i,
        {
            data.push(0u8);
            i = i + 1;
            assert(data@ =~= Seq::new(i as nat, |k: int| 0u8));
        }
        MemBlockDevice { data }
    }

    /// A device holding `data`.
    pub fn from_bytes(data: Vec<u8>) -> (r: MemBlockDevice)
        ensures
            r.contents() == data@,
    {
        MemBlockDevice { data }
    }

    /// The bytes the device holds.
    pub fn into_bytes(self) -> (r: Vec<u8>)
        ensures
            r@ == self.contents(),
    {
        self.data
    }

    /// The size of the device in bytes.
    pub fn size(&self) -> (r: usize)
        ensures
            r == self.contents().len(),
    {
        self.data.len()
    }
}

impl BlockDevice for MemBlockDevice {
    closed spec fn contents(&self) -> Seq<u8> {
        self.data@
    }

    open spec fn reliable(&self) -> bool {
        true
    }

    fn read_block(&mut self, block_num: u32, offset: u32, buf: &mut [u8]) -> (r: Result<
        (),
        DeviceError,
    >) {
        let addr: u64 = block_num as u64 * 1024u64 + offset as u64;
        let len: usize = buf.len();
        let n: usize = self.data.len();
        if addr > n as u64 || len as u64 > n as u64 - addr {
            return Err(DeviceError::OutOfRange);
        }
        let start: usize = addr as usize;
        let mut i: usize = 0;
        while i < len
            invariant
                i <= len,
                len == old(buf)@.len(),
                buf@.len() == len,
                start + len <= n,
                n == self.data@.len(),
                start == byte_address(block_num, offset),
                self.data@ == old(self).data@,
                forall|k: int| 0 <= k < i ==> buf@[k] == self.data@[start + k],
            decreases len - i,
        {
            buf[i] = self.data[start + i];
            i = i + 1;
        }
        assert(buf@ =~= bytes_at(self.data@, start as int, len as int));
        Ok(())
    }

    fn write_block(&mut self, block_num: u32, offset: u32, buf: &[u8]) -> (r: Result<
        (),
        DeviceError,
    >) {
        let addr: u64 = block_num as u64 * 1024u64 + offset as u64;
        let len: usize = buf.len();
        let n: usize = self.data.len();
        if addr > n as u64 || len as u64 > n as u64 - addr {
            return Err(DeviceError::OutOfRange);
        }
        let start: usize = addr as usize;
        let mut i: usize = 0;
        while i < len
            invariant
                i <= len,
                len == buf@.len(),
                start + len <= n,
                n == self.data@.len(),
                start == byte_address(block_num, offset),
                self.data@.len() == old(self).data@.len(),
                forall|k: int|
                    0 <= k < self.data@.len() ==> self.data@[k] == if start <= k < start + i {
                        buf@[k - start]
                    } else {
                        old(self).data@[k]
                    },
            decreases len - i,
        {
            self.data.set(start + i, buf[i]);
            i = i + 1;
        }
        assert(self.data@ =~= written(old(self).data@, start as int, buf@));
        Ok(())
    }
}

} // verus!
