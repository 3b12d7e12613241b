//! Big-endian byte layout: spec-level readers and writers for the
//! multi-byte integers of the wire format, with round-trip lemmas.

use vstd::prelude::*;

verus! {

/// The u16 held big-endian at positions `i`, `i + 1` of `s`.
pub open spec fn be16_at(s: Seq<u8>, i: int) -> u16
    recommends
        0 <= i,
        i + 2 <= s.len(),
{
    (s[i] * 0x100 + s[i + 1]) as u16
}

/// The u32 held big-endian at positions `i` .. `i + 4` of `s`.
pub open spec fn be32_at(s: Seq<u8>, i: int) -> u32
    recommends
        0 <= i,
        i + 4 <= s.len(),
{
    (s[i] * 0x1000000 + s[i + 1] * 0x10000 + s[i + 2] * 0x100 + s[i + 3]) as u32
}

/// The two big-endian bytes of a u16, most significant first.
pub open spec fn u16_be(x: u16) -> Seq<u8> {
    seq![(x / 0x100) as u8, (x % 0x100) as u8]
}

/// The four big-endian bytes of a u32, most significant first.
pub open spec fn u32_be(x: u32) -> Seq<u8> {
    seq![
        (x / 0x1000000) as u8,
        ((x / 0x10000) % 0x100) as u8,
        ((x / 0x100) % 0x100) as u8,
        (x % 0x100) as u8,
    ]
}

/// Reading a u16 and writing it back yields the bytes.
pub proof fn lemma_be16_write(s: Seq<u8>, i: int)
    requires
        0 <= i,
        i + 2 <= s.len(),
    ensures
        u16_be(be16_at(s, i)) =~= s.subrange(i, i + 2),
{
    let x = be16_at(s, i);
    assert(x == s[i] * 0x100 + s[i + 1]);
    assert(x / 0x100 == s[i]) by (nonlinear_arith)
        requires
            x == s[i] * 0x100 + s[i + 1],
            s[i + 1] < 0x100,
    ;
    assert(x % 0x100 == s[i + 1]) by (nonlinear_arith)
        requires
            x == s[i] * 0x100 + s[i + 1],
            s[i + 1] < 0x100,
    ;
}

/// Reading a u32 and writing it back yields the bytes.
pub proof fn lemma_be32_write(s: Seq<u8>, i: int)
    requires
        0 <= i,
        i + 4 <= s.len(),
    ensures
        u32_be(be32_at(s, i)) =~= s.subrange(i, i + 4),
{
    let x = be32_at(s, i);
    assert(x / 0x1000000 == s[i] && (x / 0x10000) % 0x100 == s[i + 1] && (x / 0x100) % 0x100
        == s[i + 2] && x % 0x100 == s[i + 3]) by (nonlinear_arith)
        requires
            x == s[i] * 0x1000000 + s[i + 1] * 0x10000 + s[i + 2] * 0x100 + s[i + 3],
            s[i] < 0x100,
            s[i + 1] < 0x100,
            s[i + 2] < 0x100,
            s[i + 3] < 0x100,
    ;
}

/// Reads the big-endian u16 at `i`.
pub fn read_u16(s: &[u8], i: usize) -> (x: u16)
    requires
        i + 2 <= s@.len(),
    ensures
        x == be16_at(s@, i as int),
{
    (s[i] as u16) * 0x100 + (s[i + 1] as u16)
}

/// Reads the big-endian u32 at `i`.
pub fn read_u32(s: &[u8], i: usize) -> (x: u32)
    requires
        i + 4 <= s@.len(),
    ensures
        x == be32_at(s@, i as int),
{
    (s[i] as u32) * 0x1000000 + (s[i + 1] as u32) * 0x10000 + (s[i + 2] as u32) * 0x100 + (s[i
        + 3] as u32)
}

/// Appends the two big-endian bytes of `x` to `out`.
pub fn push_u16_be(out: &mut Vec<u8>, x: u16)
    ensures
        final(out)@ =~= old(out)@ + u16_be(x),
{
    out.push((x / 0x100) as u8);
    out.push((x % 0x100) as u8);
}

/// Appends the four big-endian bytes of `x` to `out`.
pub fn push_u32_be(out: &mut Vec<u8>, x: u32)
    ensures
        final(out)@ =~= old(out)@ + u32_be(x),
{
    out.push((x / 0x1000000) as u8);
    out.push(((x / 0x10000) % 0x100) as u8);
    out.push(((x / 0x100) % 0x100) as u8);
    out.push((x % 0x100) as u8);
}

/// Copies `s[start .. start + len]` into a fresh vector.
pub fn copy_range(s: &[u8], start: usize, len: usize) -> (r: Vec<u8>)
    requires
        start + len <= s@.len(),
    ensures
        r@ =~= s@.subrange(start as int, start + len),
{
    let n = s.len();
    let mut r: Vec<u8> = Vec::new();
    let mut i: usize = 0;
    while i < len
        invariant
            i <= len,
            n == s@.len(),
            start + len <= n,
            r@ =~= s@.subrange(start as int, start + i),
        decreases len - i,
    {
        r.push(s[start + i]);
        proof {
            assert(r@ =~= s@.subrange(start as int, start + i + 1));
        }
        i = i + 1;
    }
    r
}

} // verus!
