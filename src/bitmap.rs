//! Presence arrays with one byte per slot: zero is free, anything else used.

use vstd::prelude::*;

verus! {

/// `n` slots, all free.
pub open spec fn free_slots(n: nat) -> Seq<u8> {
    Seq::new(n, |i: int| 0u8)
}

/// Whether taking a slot below `max` from `before` may give `r` and leave
/// `after`: the lowest free slot below `max` is marked used and returned, and
/// when there is none nothing changes and `None` is returned.
pub open spec fn allocates(before: Seq<u8>, max: int, r: Option<usize>, after: Seq<u8>) -> bool {
    match r {
        Some(i) => {
            &&& i < max
            &&& before[i as int] == 0
            &&& forall|j: int| 0 <= j < i ==> before[j] != 0
            &&& after == before.update(i as int, 1u8)
        },
        None => {
            &&& forall|j: int| 0 <= j < max ==> before[j] != 0
            &&& after == before
        },
    }
}

/// Two allocations in a row, with no slot freed between them, never give the
/// same slot.
pub proof fn lemma_allocate_twice_distinct(
    s0: Seq<u8>,
    s1: Seq<u8>,
    s2: Seq<u8>,
    max: int,
    i: usize,
    j: usize,
)
    requires
        max <= s0.len(),
        allocates(s0, max, Some(i), s1),
        allocates(s1, max, Some(j), s2),
    ensures
        i != j,
{
    assert(s1[i as int] == 1u8);
}

/// After slot `i` is freed, the next allocation takes a slot that is free:
/// either `i` itself, or one that was already free. It takes `i` again
/// exactly when every slot below `i` is in use.
pub proof fn lemma_free_then_allocate(s0: Seq<u8>, i: usize, max: int, r: Option<usize>, s2: Seq<u8>)
    requires
        i < max <= s0.len(),
        allocates(s0.update(i as int, 0u8), max, r, s2),
    ensures
        r is Some,
        r matches Some(k) ==> k == i || s0[k as int] == 0,
        (forall|j: int| 0 <= j < i ==> s0[j] != 0) <==> r == Some(i),
{
    let s1 = s0.update(i as int, 0u8);
    if r is None {
        assert(s1[i as int] == 0);
    }
    if let Some(k) = r {
        if k != i {
            assert(s1[k as int] == s0[k as int]);
        } else {
            assert forall|j: int| 0 <= j < i implies s0[j] != 0 by {
                assert(s1[j] == s0[j]);
            }
        }
        if k < i {
            assert(s0[k as int] == 0);
        }
        if (forall|j: int| 0 <= j < i ==> s0[j] != 0) {
            if k < i {
                assert(s0[k as int] != 0);
            } else if k > i {
                assert(s1[i as int] == 0);
            }
        }
    }
}

/// Operations on a presence array of blocks or inodes.
pub trait Bitmap {
    /// The slots, one byte each.
    spec fn slots(&self) -> Seq<u8>;

    /// Marks slot `index` used (1) or free (0).
    fn set(&mut self, index: usize, used: bool)
        requires
            index < old(self).slots().len(),
        ensures
            final(self).slots() == old(self).slots().update(
                index as int,
                if used { 1u8 } else { 0u8 },
            ),
    ;

    /// Whether slot `index` is used.
    fn is_used(&self, index: usize) -> (r: bool)
        requires
            index < self.slots().len(),
        ensures
            r == (self.slots()[index as int] != 0),
    ;

    /// Takes the first free slot below `max`, marking it used; `None` when
    /// every slot below `max` is used.
    fn allocate(&mut self, max: usize) -> (r: Option<usize>)
        requires
            max <= old(self).slots().len(),
        ensures
            allocates(old(self).slots(), max as int, r, final(self).slots()),
    ;

    /// Marks slot `index` free, whatever it was.
    fn free(&mut self, index: usize)
        requires
            index < old(self).slots().len(),
        ensures
            final(self).slots() == old(self).slots().update(index as int, 0u8),
    ;

    /// Marks every slot free.
    fn clear(&mut self)
        ensures
            final(self).slots() == free_slots(old(self).slots().len()),
    ;
}

impl Bitmap for Vec<u8> {
    open spec fn slots(&self) -> Seq<u8> {
        self@
    }

    fn set(&mut self, index: usize, used: bool) {
        let v: u8 = if used { 1 } else { 0 };
        self[index] = v;
    }

    fn is_used(&self, index: usize) -> (r: bool) {
        self[index] != 0
    }

    fn allocate(&mut self, max: usize) -> (r: Option<usize>) {
        let mut i: usize = 0;
        while i < max
            invariant
                i <= max,
                max <= self@.len(),
                self@ == old(self)@,
                forall|j: int| 0 <= j < i ==> self@[j] != 0,
            decreases max - i,
        {
            if self[i] == 0 {
                self[i] = 1u8;
                return Some(i);
            }
            i = i + 1;
        }
        None
    }

    fn free(&mut self, index: usize) {
        self[index] = 0u8;
    }

    fn clear(&mut self) {
        let n: usize = self.len();
        let mut i: usize = 0;
        while i < n
            invariant
                i <= n,
                n == old(self)@.len(),
                self@.len() == n,
                forall|j: int| 0 <= j < i ==> self@[j] == 0,
            decreases n - i,
        {
            self[i] = 0u8;
            i = i + 1;
        }
        assert(self@ =~= free_slots(n as nat));
    }
}

/// A block-presence array as stored on disk: one byte per block.
#[derive(Debug, PartialEq, Eq)]
pub struct BlockBitmap(Vec<u8>);

impl BlockBitmap {
    /// A bitmap over the given slot bytes.
    pub fn new(bytes: Vec<u8>) -> (r: BlockBitmap)
        ensures
            r.slots() == bytes@,
    {
        BlockBitmap(bytes)
    }

    /// The slot bytes, as they are written to disk.
    pub fn as_bytes(&self) -> (r: &[u8])
        ensures
            r@ == self.slots(),
    {
        self.0.as_slice()
    }
}

impl Bitmap for BlockBitmap {
    closed spec fn slots(&self) -> Seq<u8> {
        self.0@
    }

    fn set(&mut self, index: usize, used: bool) {
        Bitmap::set(&mut self.0, index, used);
    }

    fn is_used(&self, index: usize) -> (r: bool) {
        self.0.is_used(index)
    }

    fn allocate(&mut self, max: usize) -> (r: Option<usize>) {
        self.0.allocate(max)
    }

    fn free(&mut self, index: usize) {
        self.0.free(index);
    }

    fn clear(&mut self) {
        Bitmap::clear(&mut self.0);
    }
}

} // verus!
