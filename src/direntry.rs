//! Directory entries: a name bound to an inode id, 256 bytes each.

use crate::codec::{le_u32, lemma_u32_at_concat, push_u32, read_u32, u32_at};
use vstd::prelude::*;

verus! {

/// The width of the name field, in bytes.
pub const NAME_LEN: usize = 252;

/// The encoded size of a directory entry, in bytes.
pub const DIR_ENTRY_SIZE: usize = 256;

/// One entry of a directory's data block.
#[derive(Debug, Clone, Copy, PartialEq, Eq)]
pub struct DirEntry {
    /// The id of the inode the entry names.
    pub inode: u32,
    /// The name, padded with NUL bytes.
    pub name: [u8; 252],
}

/// The name field made from `src`: its first bytes, at most 251 of them so
/// that a NUL always ends the name, and NUL bytes after.
pub open spec fn name_field(src: Seq<u8>) -> Seq<u8> {
    Seq::new(NAME_LEN as nat, |i: int| if i < src.len() && i < NAME_LEN - 1 { src[i] } else { 0u8 })
}

/// The bytes of an entry: the inode id, then the name field.
pub open spec fn dir_entry_bytes(inode: u32, name: Seq<u8>) -> Seq<u8> {
    le_u32(inode) + name
}

/// Whether `e` is the entry that the bytes `b` hold at byte `at`.
pub open spec fn dir_entry_at(e: DirEntry, b: Seq<u8>, at: int) -> bool {
    &&& e.inode == u32_at(b, at)
    &&& e.name@ == b.subrange(at + 4, at + DIR_ENTRY_SIZE)
}

/// The name field of a new entry.
pub fn convert_name(name_src: &[u8]) -> (r: [u8; 252])
    ensures
        r@ == name_field(name_src@),
{
    let mut name: [u8; 252] = [0u8; 252];
    let n: usize = if name_src.len() < NAME_LEN - 1 { name_src.len() } else { NAME_LEN - 1 };
    let mut i: usize = 0;
    while i < NAME_LEN
        invariant
            i <= NAME_LEN,
            n <= name_src@.len(),
            n == if name_src@.len() < NAME_LEN - 1 { name_src@.len() as int } else { NAME_LEN - 1 },
            name@.len() == NAME_LEN,
            forall|k: int| 0 <= k < i ==> name@[k] == name_field(name_src@)[k],
        decreases NAME_LEN - i,
    {
        if i < n {
            name[i] = name_src[i];
        } else {
            name[i] = 0u8;
        }
        i = i + 1;
    }
    assert(name@ =~= name_field(name_src@));
    name
}

impl DirEntry {
    /// An entry with inode 0 and an empty name: an unoccupied slot.
    pub fn empty() -> (r: DirEntry)
        ensures
            r.inode == 0,
            forall|i: int| 0 <= i < NAME_LEN ==> r.name@[i] == 0,
    {
        DirEntry { inode: 0, name: [0u8; 252] }
    }

    /// The entry as bytes.
    pub fn as_bytes(&self) -> (r: Vec<u8>)
        ensures
            r@ == dir_entry_bytes(self.inode, self.name@),
    {
        let mut out: Vec<u8> = Vec::new();
        push_u32(&mut out, self.inode);
        let mut i: usize = 0;
        while i < NAME_LEN
            invariant
                i <= NAME_LEN,
                self.name@.len() == NAME_LEN,
                out@ == le_u32(self.inode) + self.name@.subrange(0, i as int),
            decreases NAME_LEN - i,
        {
            out.push(self.name[i]);
            i = i + 1;
            assert(out@ =~= le_u32(self.inode) + self.name@.subrange(0, i as int));
        }
        assert(self.name@.subrange(0, NAME_LEN as int) =~= self.name@);
        out
    }

    /// The entry at byte `at` of `buf`; `None` when `buf` ends before it does.
    pub fn from_bytes_at(buf: &[u8], at: usize) -> (r: Option<DirEntry>)
        ensures
            r is Some <==> at + DIR_ENTRY_SIZE <= buf@.len(),
            r matches Some(e) ==> dir_entry_at(e, buf@, at as int),
    {
        let len: usize = buf.len();
        if at > len || len - at < DIR_ENTRY_SIZE {
            return None;
        }
        let inode: u32 = read_u32(buf, at);
        let mut name: [u8; 252] = [0u8; 252];
        let mut i: usize = 0;
        while i < NAME_LEN
            invariant
                i <= NAME_LEN,
                at + DIR_ENTRY_SIZE <= len,
                len == buf@.len(),
                name@.len() == NAME_LEN,
                forall|k: int| 0 <= k < i ==> name@[k] == buf@[at + 4 + k],
            decreases NAME_LEN - i,
        {
            name[i] = buf[at + 4 + i];
            i = i + 1;
        }
        assert(name@ =~= buf@.subrange(at + 4, at + DIR_ENTRY_SIZE));
        Some(DirEntry { inode, name })
    }

    /// The entry at the start of `buf`; `None` when `buf` is too short.
    pub fn from_bytes(buf: &[u8]) -> (r: Option<DirEntry>)
        ensures
            r is Some <==> DIR_ENTRY_SIZE <= buf@.len(),
            r matches Some(e) ==> dir_entry_at(e, buf@, 0),
    {
        DirEntry::from_bytes_at(buf, 0)
    }
}

/// Decoding the bytes of an entry gives back an entry equal to it in every
/// field.
pub proof fn lemma_dir_entry_round_trip(e: DirEntry, decoded: DirEntry)
    requires
        dir_entry_at(decoded, dir_entry_bytes(e.inode, e.name@), 0),
    ensures
        decoded.inode == e.inode,
        decoded.name@ == e.name@,
        dir_entry_bytes(e.inode, e.name@).len() == DIR_ENTRY_SIZE,
{
    let b = dir_entry_bytes(e.inode, e.name@);
    lemma_u32_at_concat(Seq::empty(), e.inode, e.name@);
    assert(Seq::<u8>::empty() + le_u32(e.inode) + e.name@ =~= b);
    assert(b.subrange(4, DIR_ENTRY_SIZE as int) =~= e.name@);
}

} // verus!
