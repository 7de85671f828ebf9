//! Little-endian integer fields at fixed byte offsets.
use vstd::arithmetic::div_mod::lemma_fundamental_div_mod_converse;
use vstd::prelude::*;

verus! {

/// Unsigned value of the four little-endian bytes at `off`.
pub open spec fn le_u32(b: Seq<u8>, off: int) -> int {
    b[off] as int + 256 * b[off + 1] as int + 65536 * b[off + 2] as int + 16777216 * b[off
        + 3] as int
}

/// Unsigned value of the two little-endian bytes at `off`.
pub open spec fn le_u16(b: Seq<u8>, off: int) -> int {
    b[off] as int + 256 * b[off + 1] as int
}

/// Two's-complement reading of a 32-bit unsigned value.
pub open spec fn signed32(u: int) -> int {
    if u >= 0x8000_0000 {
        u - 0x1_0000_0000
    } else {
        u
    }
}

/// Two's-complement reading of a 16-bit unsigned value.
pub open spec fn signed16(u: int) -> int {
    if u >= 0x8000 {
        u - 0x1_0000
    } else {
        u
    }
}

pub open spec fn le_i32(b: Seq<u8>, off: int) -> int {
    signed32(le_u32(b, off))
}

pub open spec fn le_i16(b: Seq<u8>, off: int) -> int {
    signed16(le_u16(b, off))
}

/// `after` equals `before` except possibly on the `width` bytes at `off`.
pub open spec fn same_outside(before: Seq<u8>, after: Seq<u8>, off: int, width: int) -> bool {
    &&& after.len() == before.len()
    &&& forall|i: int|
        0 <= i < before.len() && !(off <= i < off + width) ==> #[trigger] after[i] == before[i]
}

pub fn read_u32(b: &Vec<u8>, off: usize) -> (r: u32)
    requires
        off + 4 <= b@.len(),
    ensures
        r as int == le_u32(b@, off as int),
{
    let n = b.len();
    assert(off + 4 <= n);
    b[off] as u32 + 256 * (b[off + 1] as u32) + 65536 * (b[off + 2] as u32) + 16777216 * (b[off
        + 3] as u32)
}

pub fn read_u16(b: &Vec<u8>, off: usize) -> (r: u16)
    requires
        off + 2 <= b@.len(),
    ensures
        r as int == le_u16(b@, off as int),
{
    let n = b.len();
    assert(off + 2 <= n);
    b[off] as u16 + 256 * (b[off + 1] as u16)
}

pub fn read_i32(b: &Vec<u8>, off: usize) -> (r: i32)
    requires
        off + 4 <= b@.len(),
    ensures
        r as int == le_i32(b@, off as int),
{
    let u = read_u32(b, off);
    if u >= 0x8000_0000 {
        ((u - 0x8000_0000) as i32) - 0x4000_0000 - 0x4000_0000
    } else {
        u as i32
    }
}

pub fn read_i16(b: &Vec<u8>, off: usize) -> (r: i16)
    requires
        off + 2 <= b@.len(),
    ensures
        r as int == le_i16(b@, off as int),
{
    let u = read_u16(b, off);
    if u >= 0x8000 {
        ((u - 0x8000) as i16) - 0x4000 - 0x4000
    } else {
        u as i16
    }
}

pub fn write_u32(b: &mut Vec<u8>, off: usize, v: u32)
    requires
        off + 4 <= old(b)@.len(),
    ensures
        same_outside(old(b)@, final(b)@, off as int, 4),
        le_u32(final(b)@, off as int) == v as int,
{
    let n = b.len();
    assert(off + 4 <= n);
    let q1 = v / 256;
    let q2 = q1 / 256;
    b[off] = (v % 256) as u8;
    b[off + 1] = (q1 % 256) as u8;
    b[off + 2] = (q2 % 256) as u8;
    b[off + 3] = (q2 / 256) as u8;
}

pub fn write_u16(b: &mut Vec<u8>, off: usize, v: u16)
    requires
        off + 2 <= old(b)@.len(),
    ensures
        same_outside(old(b)@, final(b)@, off as int, 2),
        le_u16(final(b)@, off as int) == v as int,
{
    let n = b.len();
    assert(off + 2 <= n);
    b[off] = (v % 256) as u8;
    b[off + 1] = (v / 256) as u8;
}

pub fn write_i32(b: &mut Vec<u8>, off: usize, v: i32)
    requires
        off + 4 <= old(b)@.len(),
    ensures
        same_outside(old(b)@, final(b)@, off as int, 4),
        le_i32(final(b)@, off as int) == v as int,
{
    let u: u32 = if v < 0 {
        (v as i64 + 0x1_0000_0000) as u32
    } else {
        v as u32
    };
    write_u32(b, off, u);
}

pub fn write_i16(b: &mut Vec<u8>, off: usize, v: i16)
    requires
        off + 2 <= old(b)@.len(),
    ensures
        same_outside(old(b)@, final(b)@, off as int, 2),
        le_i16(final(b)@, off as int) == v as int,
{
    let u: u16 = if v < 0 {
        (v as i32 + 0x1_0000) as u16
    } else {
        v as u16
    };
    write_u16(b, off, u);
}

/// Two buffers with equal four-byte readings at `off` agree on those bytes.
pub proof fn lemma_le_u32_determines_bytes(a: Seq<u8>, c: Seq<u8>, off: int)
    requires
        0 <= off,
        off + 4 <= a.len(),
        off + 4 <= c.len(),
        le_u32(a, off) == le_u32(c, off),
    ensures
        forall|i: int| off <= i < off + 4 ==> a[i] == c[i],
{
    let x = le_u32(a, off);
    let ha = a[off + 1] as int + 256 * a[off + 2] as int + 65536 * a[off + 3] as int;
    let hc = c[off + 1] as int + 256 * c[off + 2] as int + 65536 * c[off + 3] as int;
    lemma_split_low_byte(x, a[off] as int, ha, c[off] as int, hc);
    let ha2 = a[off + 2] as int + 256 * a[off + 3] as int;
    let hc2 = c[off + 2] as int + 256 * c[off + 3] as int;
    lemma_split_low_byte(ha, a[off + 1] as int, ha2, c[off + 1] as int, hc2);
    lemma_split_low_byte(ha2, a[off + 2] as int, a[off + 3] as int, c[off + 2] as int, c[off + 3] as int);
}

/// Two buffers with equal two-byte readings at `off` agree on those bytes.
pub proof fn lemma_le_u16_determines_bytes(a: Seq<u8>, c: Seq<u8>, off: int)
    requires
        0 <= off,
        off + 2 <= a.len(),
        off + 2 <= c.len(),
        le_u16(a, off) == le_u16(c, off),
    ensures
        forall|i: int| off <= i < off + 2 ==> a[i] == c[i],
{
    lemma_split_low_byte(le_u16(a, off), a[off] as int, a[off + 1] as int, c[off] as int, c[off + 1] as int);
}

/// A number has one low byte and one quotient by 256.
proof fn lemma_split_low_byte(x: int, lo1: int, hi1: int, lo2: int, hi2: int)
    requires
        0 <= lo1 < 256,
        0 <= lo2 < 256,
        x == hi1 * 256 + lo1,
        x == hi2 * 256 + lo2,
    ensures
        lo1 == lo2,
        hi1 == hi2,
{
    lemma_fundamental_div_mod_converse(x, 256, hi1, lo1);
    lemma_fundamental_div_mod_converse(x, 256, hi2, lo2);
}

} // verus!
