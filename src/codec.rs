//! Little-endian integer fields inside byte records.

use vstd::prelude::*;

verus! {

/// The four bytes of `v`, least significant first.
pub open spec fn le_u32(v: u32) -> Seq<u8> {
    seq![
        (v & 0xff) as u8,
        ((v >> 8u32) & 0xff) as u8,
        ((v >> 16u32) & 0xff) as u8,
        ((v >> 24u32) & 0xff) as u8,
    ]
}

/// The eight bytes of `v`, least significant first.
pub open spec fn le_u64(v: u64) -> Seq<u8> {
    le_u32((v & 0xffff_ffff) as u32) + le_u32((v >> 32u64) as u32)
}

/// The `u32` held least significant byte first in `b[at..at + 4]`.
pub open spec fn u32_at(b: Seq<u8>, at: int) -> u32 {
    u32_of(b[at], b[at + 1], b[at + 2], b[at + 3])
}

/// The `u64` held least significant byte first in `b[at..at + 8]`.
pub open spec fn u64_at(b: Seq<u8>, at: int) -> u64 {
    (u32_at(b, at) as u64) | ((u32_at(b, at + 4) as u64) << 32u64)
}

/// Four bytes, least significant first, as one `u32`.
pub open spec fn u32_of(b0: u8, b1: u8, b2: u8, b3: u8) -> u32 {
    (b0 as u32) | ((b1 as u32) << 8u32) | ((b2 as u32) << 16u32) | ((b3 as u32) << 24u32)
}

/// `n` zero bytes.
pub open spec fn zeros(n: nat) -> Seq<u8> {
    Seq::new(n, |i: int| 0u8)
}

/// Reading back the bytes of a `u32` gives the `u32`.
pub proof fn lemma_u32_round_trip(v: u32)
    ensures
        u32_at(le_u32(v), 0) == v,
{
    let b = le_u32(v);
    let b0 = (v & 0xff) as u8;
    let b1 = ((v >> 8u32) & 0xff) as u8;
    let b2 = ((v >> 16u32) & 0xff) as u8;
    let b3 = ((v >> 24u32) & 0xff) as u8;
    assert(b[0] == b0 && b[1] == b1 && b[2] == b2 && b[3] == b3);
    assert((b0 as u32) | ((b1 as u32) << 8u32) | ((b2 as u32) << 16u32) | ((b3 as u32) << 24u32)
        == v) by (bit_vector)
        requires
            b0 == (v & 0xff) as u8,
            b1 == ((v >> 8u32) & 0xff) as u8,
            b2 == ((v >> 16u32) & 0xff) as u8,
            b3 == ((v >> 24u32) & 0xff) as u8,
    ;
}

/// Reading back the bytes of a `u64` gives the `u64`.
pub proof fn lemma_u64_round_trip(v: u64)
    ensures
        u64_at(le_u64(v), 0) == v,
{
    let lo = (v & 0xffff_ffff) as u32;
    let hi = (v >> 32u64) as u32;
    let b = le_u64(v);
    lemma_u32_round_trip(lo);
    lemma_u32_round_trip(hi);
    assert(b.subrange(0, 4) =~= le_u32(lo));
    assert(b.subrange(4, 8) =~= le_u32(hi));
    assert(u32_at(b, 0) == u32_at(le_u32(lo), 0));
    assert(u32_at(b, 4) == u32_at(le_u32(hi), 0));
    assert((lo as u64) | ((hi as u64) << 32u64) == v) by (bit_vector)
        requires
            lo == (v & 0xffff_ffff) as u32,
            hi == (v >> 32u64) as u32,
    ;
}

/// A `u32` written between other bytes reads back at its position.
pub proof fn lemma_u32_at_concat(p: Seq<u8>, v: u32, s: Seq<u8>)
    ensures
        u32_at(p + le_u32(v) + s, p.len() as int) == v,
{
    let b = p + le_u32(v) + s;
    let at = p.len() as int;
    lemma_u32_round_trip(v);
    assert(b[at] == le_u32(v)[0] && b[at + 1] == le_u32(v)[1] && b[at + 2] == le_u32(v)[2]
        && b[at + 3] == le_u32(v)[3]);
}

/// A `u64` written between other bytes reads back at its position.
pub proof fn lemma_u64_at_concat(p: Seq<u8>, v: u64, s: Seq<u8>)
    ensures
        u64_at(p + le_u64(v) + s, p.len() as int) == v,
{
    let b = p + le_u64(v) + s;
    let e = le_u64(v);
    let at = p.len() as int;
    lemma_u64_round_trip(v);
    assert forall|k: int| 0 <= k < 8 implies b[at + k] == e[k] by {}
    assert(u32_at(b, at) == u32_at(e, 0));
    assert(u32_at(b, at + 4) == u32_at(e, 4));
}

/// Appends the bytes of `v`, least significant first.
pub fn push_u32(out: &mut Vec<u8>, v: u32)
    ensures
        final(out)@ == old(out)@ + le_u32(v),
{
    out.push((v & 0xff) as u8);
    out.push(((v >> 8u32) & 0xff) as u8);
    out.push(((v >> 16u32) & 0xff) as u8);
    out.push(((v >> 24u32) & 0xff) as u8);
    assert(out@ =~= old(out)@ + le_u32(v));
}

/// Appends the bytes of `v`, least significant first.
pub fn push_u64(out: &mut Vec<u8>, v: u64)
    ensures
        final(out)@ == old(out)@ + le_u64(v),
{
    push_u32(out, (v & 0xffff_ffff) as u32);
    push_u32(out, (v >> 32u64) as u32);
    assert(out@ =~= old(out)@ + le_u64(v));
}

/// Appends `n` zero bytes.
pub fn push_zeros(out: &mut Vec<u8>, n: usize)
    ensures
        final(out)@ == old(out)@ + zeros(n as nat),
{
    let mut i: usize = 0;
    while i < n
        invariant
            i <= n,
            out@ == old(out)@ + zeros(i as nat),
        decreases n - i,
    {
        out.push(0u8);
        i = i + 1;
        assert(out@ =~= old(out)@ + zeros(i as nat));
    }
}

/// The `u32` at byte `at` of `b`.
pub fn read_u32(b: &[u8], at: usize) -> (r: u32)
    requires
        at + 4 <= b@.len(),
    ensures
        r == u32_at(b@, at as int),
{
    (b[at] as u32) | ((b[at + 1] as u32) << 8u32) | ((b[at + 2] as u32) << 16u32) | ((b[at
        + 3] as u32) << 24u32)
}

/// The `u64` at byte `at` of `b`.
pub fn read_u64(b: &[u8], at: usize) -> (r: u64)
    requires
        at + 8 <= b@.len(),
    ensures
        r == u64_at(b@, at as int),
{
    proof {
        assert(at + 8 <= b@.len() <= usize::MAX) by {
            let _ = b.len();
        }
    }
    let lo: u32 = read_u32(b, at);
    let hi: u32 = read_u32(b, at + 4);
    (lo as u64) | ((hi as u64) << 32u64)
}

} // verus!
