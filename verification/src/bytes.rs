//! Byte-level helpers: wrapping sums, rotations and big-endian packing.
use vstd::prelude::*;

verus! {

/// Wrapping 8-bit sum of a byte sequence (the J1850 / KWP frame checksum).
pub open spec fn sum8(s: Seq<u8>) -> u8
    decreases s.len(),
{
    if s.len() == 0 {
        0
    } else {
        ((sum8(s.drop_last()) as int + s.last() as int) % 256) as u8
    }
}

/// Wrapping 8-bit sum of `data`.
pub fn checksum8(data: &[u8]) -> (r: u8)
    ensures
        r == sum8(data@),
{
    let mut acc: u8 = 0;
    let mut i: usize = 0;
    while i < data.len()
        invariant
            i <= data.len(),
            acc == sum8(data@.take(i as int)),
        decreases data.len() - i,
    {
        proof {
            assert(data@.take(i + 1).drop_last() == data@.take(i as int));
        }
        acc = acc.wrapping_add(data[i]);
        i += 1;
    }
    assert(data@.take(data.len() as int) == data@);
    acc
}

/// Rotate a byte left by `n` bits (`n < 8`).
pub open spec fn rotl8(x: u8, n: u32) -> u8 {
    if n == 0 {
        x
    } else {
        ((x << n) | (x >> ((8 - n) as u32))) as u8
    }
}

/// Rotate a byte right by `n` bits (`n < 8`).
pub open spec fn rotr8(x: u8, n: u32) -> u8 {
    if n == 0 {
        x
    } else {
        ((x >> n) | (x << ((8 - n) as u32))) as u8
    }
}

pub fn rotate_left8(x: u8, n: u32) -> (r: u8)
    requires
        n < 8,
    ensures
        r == rotl8(x, n),
{
    if n == 0 {
        x
    } else {
        (x << n) | (x >> (8 - n))
    }
}

pub fn rotate_right8(x: u8, n: u32) -> (r: u8)
    requires
        n < 8,
    ensures
        r == rotr8(x, n),
{
    if n == 0 {
        x
    } else {
        (x >> n) | (x << (8 - n))
    }
}

/// Rotate a 16-bit word left by `n` bits (`n < 16`).
pub open spec fn rotl16(x: u16, n: u32) -> u16 {
    if n == 0 {
        x
    } else {
        ((x << n) | (x >> ((16 - n) as u32))) as u16
    }
}

/// Rotate a 16-bit word right by `n` bits (`n < 16`).
pub open spec fn rotr16(x: u16, n: u32) -> u16 {
    if n == 0 {
        x
    } else {
        ((x >> n) | (x << ((16 - n) as u32))) as u16
    }
}

pub fn rotate_left16(x: u16, n: u32) -> (r: u16)
    requires
        n < 16,
    ensures
        r == rotl16(x, n),
{
    if n == 0 {
        x
    } else {
        (x << n) | (x >> (16 - n))
    }
}

pub fn rotate_right16(x: u16, n: u32) -> (r: u16)
    requires
        n < 16,
    ensures
        r == rotr16(x, n),
{
    if n == 0 {
        x
    } else {
        (x >> n) | (x << (16 - n))
    }
}

/// Big-endian 16-bit value of two bytes.
pub open spec fn be16(hi: u8, lo: u8) -> u16 {
    (hi as int * 256 + lo as int) as u16
}

pub fn from_be16(hi: u8, lo: u8) -> (r: u16)
    ensures
        r == be16(hi, lo),
{
    let r = ((hi as u16) << 8) | (lo as u16);
    assert(r == (hi as int * 256 + lo as int) as u16) by (bit_vector)
        requires
            r == ((hi as u16) << 8) | (lo as u16),
    ;
    r
}

pub open spec fn hi8(v: u16) -> u8 {
    (v / 256) as u8
}

pub open spec fn lo8(v: u16) -> u8 {
    (v % 256) as u8
}

/// High and low bytes of a 16-bit word.
pub fn to_be16(v: u16) -> (r: (u8, u8))
    ensures
        r == (hi8(v), lo8(v)),
        be16(r.0, r.1) == v,
{
    let hi = (v >> 8) as u8;
    let lo = (v & 0xFF) as u8;
    assert(hi == (v / 256) as u8 && lo == (v % 256) as u8) by (bit_vector)
        requires
            hi == (v >> 8) as u8,
            lo == (v & 0xFF) as u8,
    ;
    (hi, lo)
}

/// Big-endian bytes of a 32-bit word.
pub open spec fn be32_bytes(v: u32) -> Seq<u8> {
    seq![(v / 0x100_0000) as u8, ((v / 0x1_0000) % 256) as u8, ((v / 256) % 256) as u8, (v % 256) as u8]
}

pub open spec fn be32(b: Seq<u8>) -> u32 {
    (b[0] as int * 0x100_0000 + b[1] as int * 0x1_0000 + b[2] as int * 0x100 + b[3] as int) as u32
}

pub fn to_be32(v: u32) -> (r: [u8; 4])
    ensures
        r@ == be32_bytes(v),
        be32(r@) == v,
{
    let b0 = (v >> 24) as u8;
    let b1 = ((v >> 16) & 0xFF) as u8;
    let b2 = ((v >> 8) & 0xFF) as u8;
    let b3 = (v & 0xFF) as u8;
    assert(b0 == (v / 0x100_0000) as u8 && b1 == ((v / 0x1_0000) % 256) as u8 && b2 == ((v / 256)
        % 256) as u8 && b3 == (v % 256) as u8) by (bit_vector)
        requires
            b0 == (v >> 24) as u8,
            b1 == ((v >> 16) & 0xFF) as u8,
            b2 == ((v >> 8) & 0xFF) as u8,
            b3 == (v & 0xFF) as u8,
    ;
    assert((b0 as int * 0x100_0000 + b1 as int * 0x1_0000 + b2 as int * 0x100 + b3 as int) as u32
        == v) by (bit_vector)
        requires
            b0 == (v >> 24) as u8,
            b1 == ((v >> 16) & 0xFF) as u8,
            b2 == ((v >> 8) & 0xFF) as u8,
            b3 == (v & 0xFF) as u8,
    ;
    let r = [b0, b1, b2, b3];
    assert(r@ =~= seq![b0, b1, b2, b3]);
    r
}

pub fn from_be32(b0: u8, b1: u8, b2: u8, b3: u8) -> (r: u32)
    ensures
        r == be32(seq![b0, b1, b2, b3]),
{
    let r = ((b0 as u32) << 24) | ((b1 as u32) << 16) | ((b2 as u32) << 8) | (b3 as u32);
    assert(r == (b0 as int * 0x100_0000 + b1 as int * 0x1_0000 + b2 as int * 0x100 + b3 as int)
        as u32) by (bit_vector)
        requires
            r == ((b0 as u32) << 24) | ((b1 as u32) << 16) | ((b2 as u32) << 8) | (b3 as u32),
    ;
    r
}

/// Appends the bytes of `s` to `v` (`Vec::extend_from_slice`).
pub fn extend_bytes(v: &mut Vec<u8>, s: &[u8])
    ensures
        final(v)@ == old(v)@ + s@,
{
    let ghost v0 = v@;
    let mut i: usize = 0;
    while i < s.len()
        invariant
            i <= s.len(),
            v@ == v0 + s@.take(i as int),
        decreases s.len() - i,
    {
        v.push(s[i]);
        i += 1;
        assert(s@.take(i as int) == s@.take(i - 1).push(s@[i - 1]));
    }
    assert(s@.take(s.len() as int) == s@);
}

/// The trailing `n` bytes (`n <= 4`) of the big-endian form of `v`.
pub open spec fn be32_tail(v: u32, n: nat) -> Seq<u8> {
    be32_bytes(v).subrange(4 - n, 4)
}

/// Appends the last `n` bytes of the big-endian form of `v`.
pub fn push_be32_tail(p: &mut Vec<u8>, v: u32, n: usize)
    requires
        n <= 4,
    ensures
        final(p)@ == old(p)@ + be32_tail(v, n as nat),
{
    let b = to_be32(v);
    let tail = vstd::slice::slice_subrange(b.as_slice(), 4 - n, 4);
    extend_bytes(p, tail);
}

} // verus!
