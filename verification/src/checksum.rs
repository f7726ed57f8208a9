//! Image checksums: P01 16-bit additive regions and EDC16C41 CRC-32 regions.
use vstd::prelude::*;
use vstd::slice::slice_subrange;
use crate::sizes::{BLOCK_SIZE, EDC16_FLASH_SIZE, is_p01_size, spec_is_p01_size};
use crate::cs_guard::{honda_blocks_p01_corrector, spec_honda_blocks_p01};
use crate::text::{push_dec, push_str, str_to_string, dec};

verus! {

// ── CRC-32 (reflected, polynomial 0xEDB88320, init and final xor 0xFFFFFFFF) ──

pub open spec fn crc_step(c: u32) -> u32 {
    if c & 1u32 != 0u32 {
        0xEDB8_8320u32 ^ (c >> 1u32)
    } else {
        c >> 1u32
    }
}

/// Eight shift rounds of the reflected CRC-32 register.
pub open spec fn crc_step8(c: u32) -> u32 {
    crc_step(crc_step(crc_step(crc_step(crc_step(crc_step(crc_step(crc_step(c))))))))
}

/// CRC-32 register after feeding `s` (before the final inversion).
pub open spec fn crc_reg(s: Seq<u8>) -> u32
    decreases s.len(),
{
    if s.len() == 0 {
        0xFFFF_FFFFu32
    } else {
        crc_step8(crc_reg(s.drop_last()) ^ (s.last() as u32))
    }
}

/// Standard CRC-32 (IEEE 802.3) of a byte sequence.
pub open spec fn spec_crc32(s: Seq<u8>) -> u32 {
    crc_reg(s) ^ 0xFFFF_FFFFu32
}

proof fn lemma_table_update(crc: u32, b: u8)
    ensures
        crc_step8(crc ^ (b as u32)) == crc_step8((crc ^ (b as u32)) & 0xFFu32) ^ (crc >> 8u32),
{
    let x = crc ^ (b as u32);
    assert(crc_step8(x) == crc_step8(x & 0xFFu32) ^ (x >> 8u32)) by (bit_vector);
    assert((b as u32) < 256u32);
    assert(x >> 8u32 == crc >> 8u32) by (bit_vector)
        requires
            x == crc ^ (b as u32),
            (b as u32) < 256u32,
    ;
}

/// The 256-entry lookup table of the byte-wise CRC-32 update.
fn make_crc32_table() -> (t: Vec<u32>)
    ensures
        t.len() == 256,
        forall|i: int| 0 <= i < 256 ==> #[trigger] t@[i] == crc_step8(i as u32),
{
    let mut table: Vec<u32> = Vec::new();
    let mut i: u32 = 0;
    while i < 256
        invariant
            i <= 256,
            table.len() == i,
            forall|j: int| 0 <= j < i ==> #[trigger] table@[j] == crc_step8(j as u32),
        decreases 256 - i,
    {
        let c0 = i;
        let c1 = if c0 & 1 != 0 { 0xEDB8_8320u32 ^ (c0 >> 1) } else { c0 >> 1 };
        let c2 = if c1 & 1 != 0 { 0xEDB8_8320u32 ^ (c1 >> 1) } else { c1 >> 1 };
        let c3 = if c2 & 1 != 0 { 0xEDB8_8320u32 ^ (c2 >> 1) } else { c2 >> 1 };
        let c4 = if c3 & 1 != 0 { 0xEDB8_8320u32 ^ (c3 >> 1) } else { c3 >> 1 };
        let c5 = if c4 & 1 != 0 { 0xEDB8_8320u32 ^ (c4 >> 1) } else { c4 >> 1 };
        let c6 = if c5 & 1 != 0 { 0xEDB8_8320u32 ^ (c5 >> 1) } else { c5 >> 1 };
        let c7 = if c6 & 1 != 0 { 0xEDB8_8320u32 ^ (c6 >> 1) } else { c6 >> 1 };
        let c8 = if c7 & 1 != 0 { 0xEDB8_8320u32 ^ (c7 >> 1) } else { c7 >> 1 };
        assert(c8 == crc_step8(i));
        table.push(c8);
        i += 1;
    }
    table
}

/// CRC-32 of `data` (table-driven).
pub fn crc32(data: &[u8]) -> (r: u32)
    ensures
        r == spec_crc32(data@),
{
    let table = make_crc32_table();
    let mut crc: u32 = 0xFFFF_FFFF;
    let mut i: usize = 0;
    while i < data.len()
        invariant
            i <= data.len(),
            table.len() == 256,
            forall|j: int| 0 <= j < 256 ==> #[trigger] table@[j] == crc_step8(j as u32),
            crc == crc_reg(data@.take(i as int)),
        decreases data.len() - i,
    {
        let b = data[i];
        let idx = ((crc ^ b as u32) & 0xFF) as usize;
        proof {
            lemma_table_update(crc, b);
            assert(((crc ^ b as u32) & 0xFFu32) < 256u32) by (bit_vector);
            assert(data@.take(i + 1).drop_last() == data@.take(i as int));
        }
        crc = table[idx] ^ (crc >> 8);
        i += 1;
    }
    assert(data@.take(data.len() as int) == data@);
    crc ^ 0xFFFF_FFFF
}

/// `n` shift rounds of the CRC-32 register.
pub open spec fn crc_steps(c: u32, n: nat) -> u32
    decreases n,
{
    if n == 0 {
        c
    } else {
        crc_steps(crc_step(c), (n - 1) as nat)
    }
}

/// CRC-32 of `data`, computed bit by bit.
pub fn crc32_ieee(data: &[u8]) -> (r: u32)
    ensures
        r == spec_crc32(data@),
{
    let mut crc: u32 = 0xFFFF_FFFF;
    let mut i: usize = 0;
    while i < data.len()
        invariant
            i <= data.len(),
            crc == crc_reg(data@.take(i as int)),
        decreases data.len() - i,
    {
        proof {
            assert(data@.take(i + 1).drop_last() == data@.take(i as int));
        }
        let ghost start = crc ^ (data@[i as int] as u32);
        crc = crc ^ (data[i] as u32);
        proof {
            reveal_with_fuel(crc_steps, 9);
        }
        let mut k: u32 = 0;
        while k < 8
            invariant
                k <= 8,
                crc_step8(start) == crc_steps(crc, (8 - k) as nat),
            decreases 8 - k,
        {
            if crc & 1 != 0 {
                crc = 0xEDB8_8320 ^ (crc >> 1);
            } else {
                crc = crc >> 1;
            }
            k += 1;
        }
        i += 1;
    }
    assert(data@.take(data.len() as int) == data@);
    let r = !crc;
    assert(r == crc ^ 0xFFFF_FFFFu32) by (bit_vector)
        requires
            r == !crc,
    ;
    r
}

// ── Big/little-endian words ─────────────────────────────────────────────────

pub open spec fn word_be(d: Seq<u8>, i: int) -> u16 {
    (d[i] as int * 256 + d[i + 1] as int) as u16
}

pub open spec fn dword_le(d: Seq<u8>, i: int) -> u32 {
    (d[i] as int + d[i + 1] as int * 0x100 + d[i + 2] as int * 0x1_0000 + d[i + 3] as int
        * 0x100_0000) as u32
}

/// Little-endian 32-bit word at `off`, or 0 when it does not fit.
pub open spec fn spec_read_u32_le(d: Seq<u8>, off: int) -> u32 {
    if off + 3 >= d.len() {
        0
    } else {
        dword_le(d, off)
    }
}

/// Big-endian 16-bit word at `off`, or 0 when it does not fit.
pub open spec fn spec_read_u16_be(d: Seq<u8>, off: int) -> u16 {
    if off + 1 >= d.len() {
        0
    } else {
        word_be(d, off)
    }
}

/// `d` with the little-endian bytes of `v` at `off` (unchanged when it does not fit).
pub open spec fn put_u32_le(d: Seq<u8>, off: int, v: u32) -> Seq<u8> {
    if off + 3 >= d.len() {
        d
    } else {
        d.update(off, (v & 0xFF) as u8).update(off + 1, ((v >> 8) & 0xFF) as u8).update(
            off + 2,
            ((v >> 16) & 0xFF) as u8,
        ).update(off + 3, ((v >> 24) & 0xFF) as u8)
    }
}

/// `d` with the big-endian bytes of `v` at `off` (unchanged when it does not fit).
pub open spec fn put_u16_be(d: Seq<u8>, off: int, v: u16) -> Seq<u8> {
    if off + 1 >= d.len() {
        d
    } else {
        d.update(off, (v >> 8) as u8).update(off + 1, (v & 0xFF) as u8)
    }
}

fn read_u32_le(data: &[u8], off: usize) -> (r: u32)
    ensures
        r == spec_read_u32_le(data@, off as int),
{
    if off >= data.len() || data.len() - off <= 3 {
        return 0;
    }
    let r = (data[off] as u32) | ((data[off + 1] as u32) << 8) | ((data[off + 2] as u32) << 16)
        | ((data[off + 3] as u32) << 24);
    let (b0, b1, b2, b3) = (data[off], data[off + 1], data[off + 2], data[off + 3]);
    assert(r == (b0 as int + b1 as int * 0x100 + b2 as int * 0x1_0000 + b3 as int * 0x100_0000)
        as u32) by (bit_vector)
        requires
            r == (b0 as u32) | ((b1 as u32) << 8) | ((b2 as u32) << 16) | ((b3 as u32) << 24),
    ;
    r
}

fn write_u32_le(data: &mut Vec<u8>, off: usize, val: u32)
    ensures
        final(data)@ == put_u32_le(old(data)@, off as int, val),
{
    if off >= data.len() || data.len() - off <= 3 {
        return;
    }
    data.set(off, (val & 0xFF) as u8);
    data.set(off + 1, ((val >> 8) & 0xFF) as u8);
    data.set(off + 2, ((val >> 16) & 0xFF) as u8);
    data.set(off + 3, ((val >> 24) & 0xFF) as u8);
}

fn read_u16_be(data: &[u8], off: usize) -> (r: u16)
    ensures
        r == spec_read_u16_be(data@, off as int),
{
    if off >= data.len() || data.len() - off <= 1 {
        return 0;
    }
    let (b0, b1) = (data[off], data[off + 1]);
    let r = ((b0 as u16) << 8) | (b1 as u16);
    assert(r == (b0 as int * 256 + b1 as int) as u16) by (bit_vector)
        requires
            r == ((b0 as u16) << 8) | (b1 as u16),
    ;
    r
}

fn write_u16_be(data: &mut Vec<u8>, off: usize, val: u16)
    ensures
        final(data)@ == put_u16_be(old(data)@, off as int, val),
{
    if off >= data.len() || data.len() - off <= 1 {
        return;
    }
    data.set(off, (val >> 8) as u8);
    data.set(off + 1, (val & 0xFF) as u8);
}

// ── 16-bit additive sums ────────────────────────────────────────────────────

/// Wrapping sum of the big-endian words at `i, i+2, ...` while the index is at
/// most `end` and the word fits in `d`.
pub open spec fn sum16_from(d: Seq<u8>, i: int, end: int) -> int
    decreases d.len() - i,
{
    if 0 <= i && i <= end && i + 1 < d.len() {
        (word_be(d, i) as int + sum16_from(d, i + 2, end)) % 0x10000
    } else {
        0
    }
}

proof fn lemma_sum16_bound(d: Seq<u8>, i: int, end: int)
    ensures
        0 <= sum16_from(d, i, end) < 0x10000,
    decreases d.len() - i,
{
    if 0 <= i && i <= end && i + 1 < d.len() {
        lemma_sum16_bound(d, i + 2, end);
    }
}

fn region_sum16(block: &[u8], start: usize, end: usize) -> (r: u16)
    ensures
        r as int == sum16_from(block@, start as int, end as int),
{
    let mut sum: u16 = 0;
    let mut i = start;
    proof {
        lemma_sum16_bound(block@, start as int, end as int);
    }
    while i <= end && block.len() > 0 && i < block.len() - 1
        invariant
            start <= i,
            (sum as int + sum16_from(block@, i as int, end as int)) % 0x10000 == sum16_from(
                block@,
                start as int,
                end as int,
            ),
        decreases block.len() - i,
    {
        let w = read_u16_be(block, i);
        proof {
            let rest = sum16_from(block@, i + 2, end as int);
            lemma_sum16_bound(block@, i + 2, end as int);
            assert(sum16_from(block@, i as int, end as int) == (w as int + rest) % 0x10000);
            assert((sum as int + (w as int + rest) % 0x10000) % 0x10000 == ((sum as int + w as int)
                % 0x10000 + rest) % 0x10000) by (nonlinear_arith)
                requires
                    0 <= rest < 0x10000,
            ;
        }
        sum = sum.wrapping_add(w);
        i += 2;
    }
    proof {
        assert(sum16_from(block@, i as int, end as int) == 0);
    }
    sum
}


// ── Region tables ────────────────────────────────────────────────────────────

/// One checksummed region: bytes `start..=end`, checksum word at `cs_offset`.
#[derive(Clone, Copy, Debug)]
pub struct RegionDescriptor {
    pub name: &'static str,
    pub start: usize,
    pub end: usize,
    pub cs_offset: usize,
}

/// Per-region outcome in a checksum report.
#[derive(Clone, Debug)]
pub struct RegionResult {
    pub name: String,
    pub block: u8,
    pub cs_offset: usize,
    pub original_cs: u32,
    pub corrected_cs: u32,
    pub was_valid: bool,
    pub is_valid: bool,
    pub method: String,
}

/// Whole-image checksum report.
#[derive(Clone, Debug)]
pub struct ChecksumReport {
    pub regions: Vec<RegionResult>,
    pub valid_count: usize,
    pub fixed_count: usize,
    pub failed_count: usize,
    pub all_valid: bool,
    pub ecu_family: String,
    pub method_used: String,
}

/// A corrected image and the report of the correction.
#[derive(Clone, Debug)]
pub struct CorrectedCal {
    pub data: Vec<u8>,
    pub report: ChecksumReport,
}

/// The eight P01 additive regions of each 64 KiB block (block-relative).
pub open spec fn p01_region_spec(k: int) -> RegionDescriptor {
    if k == 0 {
        RegionDescriptor { name: "Main cal", start: 0x0000, end: 0x3FFF, cs_offset: 0x3FFE }
    } else if k == 1 {
        RegionDescriptor { name: "Fuel tables", start: 0x4000, end: 0x7FFF, cs_offset: 0x7FFE }
    } else if k == 2 {
        RegionDescriptor { name: "Spark tables", start: 0x8000, end: 0xBFFF, cs_offset: 0xBFFE }
    } else if k == 3 {
        RegionDescriptor { name: "Idle/misc", start: 0xC000, end: 0xEFFF, cs_offset: 0xEFFE }
    } else if k == 4 {
        RegionDescriptor { name: "Sensor scaling", start: 0xF000, end: 0xF3FF, cs_offset: 0xF3FE }
    } else if k == 5 {
        RegionDescriptor { name: "Transmission", start: 0xF400, end: 0xF7FF, cs_offset: 0xF7FE }
    } else if k == 6 {
        RegionDescriptor { name: "Security patch", start: 0xF800, end: 0xFBFF, cs_offset: 0xFBFE }
    } else {
        RegionDescriptor { name: "Header/ID", start: 0xFC00, end: 0xFFFF, cs_offset: 0xFFFE }
    }
}

pub fn p01_region(k: usize) -> (r: RegionDescriptor)
    requires
        k < 8,
    ensures
        r == p01_region_spec(k as int),
{
    if k == 0 {
        RegionDescriptor { name: "Main cal", start: 0x0000, end: 0x3FFF, cs_offset: 0x3FFE }
    } else if k == 1 {
        RegionDescriptor { name: "Fuel tables", start: 0x4000, end: 0x7FFF, cs_offset: 0x7FFE }
    } else if k == 2 {
        RegionDescriptor { name: "Spark tables", start: 0x8000, end: 0xBFFF, cs_offset: 0xBFFE }
    } else if k == 3 {
        RegionDescriptor { name: "Idle/misc", start: 0xC000, end: 0xEFFF, cs_offset: 0xEFFE }
    } else if k == 4 {
        RegionDescriptor { name: "Sensor scaling", start: 0xF000, end: 0xF3FF, cs_offset: 0xF3FE }
    } else if k == 5 {
        RegionDescriptor { name: "Transmission", start: 0xF400, end: 0xF7FF, cs_offset: 0xF7FE }
    } else if k == 6 {
        RegionDescriptor { name: "Security patch", start: 0xF800, end: 0xFBFF, cs_offset: 0xFBFE }
    } else {
        RegionDescriptor { name: "Header/ID", start: 0xFC00, end: 0xFFFF, cs_offset: 0xFFFE }
    }
}

/// The seven EDC16C41 CRC-32 regions (absolute offsets in the 2 MiB image).
pub open spec fn edc16_region_spec(k: int) -> RegionDescriptor {
    if k == 0 {
        RegionDescriptor { name: "Bootloader / Low OS", start: 0x00000, end: 0x1FFFF, cs_offset: 0x1FFFC }
    } else if k == 1 {
        RegionDescriptor { name: "Main Program Code", start: 0x20000, end: 0x7FFFF, cs_offset: 0x7FFFC }
    } else if k == 2 {
        RegionDescriptor {
            name: "Primary Cal - Driver Wish / IQ / Timing / Rail",
            start: 0x80000,
            end: 0xBFFFF,
            cs_offset: 0xBFFFC,
        }
    } else if k == 3 {
        RegionDescriptor {
            name: "Secondary Cal - Boost / VGT / EGR / Smoke",
            start: 0xC0000,
            end: 0xFFFFF,
            cs_offset: 0xFFFFC,
        }
    } else if k == 4 {
        RegionDescriptor { name: "Extended Maps & Limiters", start: 0x100000, end: 0x13FFFF, cs_offset: 0x13FFFC }
    } else if k == 5 {
        RegionDescriptor { name: "Adaptations / Coding / Misc", start: 0x140000, end: 0x17FFFF, cs_offset: 0x17FFFC }
    } else {
        RegionDescriptor {
            name: "End / Security / Global CS Area",
            start: 0x180000,
            end: 0x1FFFFF,
            cs_offset: 0x1FFFFC,
        }
    }
}

pub fn edc16_region(k: usize) -> (r: RegionDescriptor)
    requires
        k < 7,
    ensures
        r == edc16_region_spec(k as int),
{
    if k == 0 {
        RegionDescriptor { name: "Bootloader / Low OS", start: 0x00000, end: 0x1FFFF, cs_offset: 0x1FFFC }
    } else if k == 1 {
        RegionDescriptor { name: "Main Program Code", start: 0x20000, end: 0x7FFFF, cs_offset: 0x7FFFC }
    } else if k == 2 {
        RegionDescriptor {
            name: "Primary Cal - Driver Wish / IQ / Timing / Rail",
            start: 0x80000,
            end: 0xBFFFF,
            cs_offset: 0xBFFFC,
        }
    } else if k == 3 {
        RegionDescriptor {
            name: "Secondary Cal - Boost / VGT / EGR / Smoke",
            start: 0xC0000,
            end: 0xFFFFF,
            cs_offset: 0xFFFFC,
        }
    } else if k == 4 {
        RegionDescriptor { name: "Extended Maps & Limiters", start: 0x100000, end: 0x13FFFF, cs_offset: 0x13FFFC }
    } else if k == 5 {
        RegionDescriptor { name: "Adaptations / Coding / Misc", start: 0x140000, end: 0x17FFFF, cs_offset: 0x17FFFC }
    } else {
        RegionDescriptor {
            name: "End / Security / Global CS Area",
            start: 0x180000,
            end: 0x1FFFFF,
            cs_offset: 0x1FFFFC,
        }
    }
}

/// Law: the seven EDC16C41 CRC regions tile the 2 MiB image in order, from 0
/// to 0x1FFFFF, each keeping its CRC word in its last four bytes.
pub proof fn law_edc16_regions_tile_image()
    ensures
        edc16_region_spec(0).start == 0,
        edc16_region_spec(6).end == EDC16_FLASH_SIZE - 1,
        forall|k: int| 0 <= k < 6 ==> #[trigger] edc16_region_spec(k + 1).start == edc16_region_spec(k).end + 1,
        forall|k: int|
            0 <= k < 7 ==> (#[trigger] edc16_region_spec(k)).start < edc16_region_spec(k).cs_offset
                && edc16_region_spec(k).cs_offset + 3 == edc16_region_spec(k).end,
{
}

/// Offset `o` of a block lies in P01 region `k`.
pub open spec fn in_p01_region(o: int, k: int) -> bool {
    p01_region_spec(k).start <= o <= p01_region_spec(k).end
}

/// Offset `o` of a block lies in some P01 region.
pub open spec fn p01_covered(o: int) -> bool {
    exists|k: int| 0 <= k < 8 && #[trigger] in_p01_region(o, k)
}

/// Law: the eight P01 additive regions tile a 64 KiB block in order: the
/// first starts at 0, each next one starts right after the previous ends,
/// the last ends at 0xFFFF, so every byte of a block lies in exactly one
/// region. Each region spans whole big-endian words and keeps its checksum
/// word in its last two bytes. The first three regions are 16 KiB each, the
/// fourth 12 KiB, the last four 1 KiB each.
pub proof fn law_p01_regions_tile_block()
    ensures
        p01_region_spec(0).start == 0,
        forall|k: int|
            0 <= k < 8 ==> #[trigger] p01_region_spec(k).end - p01_region_spec(k).start + 1 == if k < 3 {
                0x4000int
            } else if k == 3 {
                0x3000int
            } else {
                0x400int
            },
        p01_region_spec(7).end == 0xFFFF,
        forall|k: int| 0 <= k < 7 ==> #[trigger] p01_region_spec(k + 1).start == p01_region_spec(k).end + 1,
        forall|k: int|
            0 <= k < 8 ==> {
                &&& (#[trigger] p01_region_spec(k)).start < p01_region_spec(k).end
                &&& p01_region_spec(k).cs_offset + 1 == p01_region_spec(k).end
                &&& (p01_region_spec(k).end - p01_region_spec(k).start) % 2 == 1
            },
        forall|o: int| 0 <= o < 0x10000 ==> #[trigger] p01_covered(o),
        forall|o: int, k1: int, k2: int|
            0 <= k1 < 8 && 0 <= k2 < 8 && #[trigger] in_p01_region(o, k1) && #[trigger] in_p01_region(o, k2)
                ==> k1 == k2,
{
    assert forall|o: int| 0 <= o < 0x10000 implies #[trigger] p01_covered(o) by {
        let k: int = if o < 0x4000 {
            0
        } else if o < 0x8000 {
            1
        } else if o < 0xC000 {
            2
        } else if o < 0xF000 {
            3
        } else if o < 0xF400 {
            4
        } else if o < 0xF800 {
            5
        } else if o < 0xFC00 {
            6
        } else {
            7
        };
        assert(in_p01_region(o, k));
    }
}

proof fn lemma_mod_step(w: int, x: int, y: int, delta: int)
    requires
        (x - y - delta) % 0x10000 == 0,
    ensures
        ((w + x) % 0x10000 - (w + y) % 0x10000 - delta) % 0x10000 == 0,
{
    let m: int = 0x10000;
    vstd::arithmetic::div_mod::lemma_fundamental_div_mod(w + x, m);
    vstd::arithmetic::div_mod::lemma_fundamental_div_mod(w + y, m);
    vstd::arithmetic::div_mod::lemma_fundamental_div_mod(x - y - delta, m);
    let q1 = (w + x) / m;
    let q2 = (w + y) / m;
    let q3 = (x - y - delta) / m;
    assert((w + x) % m - (w + y) % m - delta == m * (q3 - q1 + q2)) by (nonlinear_arith)
        requires
            w + x == m * q1 + (w + x) % m,
            w + y == m * q2 + (w + y) % m,
            x - y - delta == m * q3,
    ;
    vstd::arithmetic::div_mod::lemma_mod_multiples_basic(q3 - q1 + q2, m);
    assert((m * (q3 - q1 + q2)) % m == 0) by (nonlinear_arith)
        requires
            ((q3 - q1 + q2) * m) % m == 0,
    ;
}

/// Changing byte `j` of the words summed from `i` moves the 16-bit sum by the
/// change of that byte, times 256 when it is the high byte of its word.
proof fn lemma_sum16_update(d: Seq<u8>, i: int, e: int, j: int, v: u8)
    requires
        0 <= i <= j <= e,
        e < d.len(),
        (e - i) % 2 == 1,
    ensures
        (sum16_from(d.update(j, v), i, e) - sum16_from(d, i, e) - (v - d[j]) * (if (j - i) % 2 == 0 {
            256int
        } else {
            1int
        })) % 0x10000 == 0,
    decreases j - i,
{
    let d2 = d.update(j, v);
    let delta = (v - d[j]) * (if (j - i) % 2 == 0 { 256int } else { 1int });
    let w = word_be(d, i) as int;
    let w2 = word_be(d2, i) as int;
    assert(w == d[i] as int * 256 + d[i + 1] as int);
    assert(w2 == d2[i] as int * 256 + d2[i + 1] as int);
    if j <= i + 1 {
        lemma_sum16_frame(d, d2, i + 2, e);
        assert(w2 - w - delta == 0);
        lemma_mod_step(sum16_from(d, i + 2, e), w2, w, delta);
        assert(sum16_from(d2, i, e) == (w2 + sum16_from(d2, i + 2, e)) % 0x10000);
        assert(sum16_from(d, i, e) == (w + sum16_from(d, i + 2, e)) % 0x10000);
    } else {
        lemma_sum16_update(d, i + 2, e, j, v);
        assert(w2 == w);
        assert((j - (i + 2)) % 2 == (j - i) % 2);
        lemma_mod_step(w, sum16_from(d2, i + 2, e), sum16_from(d, i + 2, e), delta);
        assert(sum16_from(d2, i, e) == (w2 + sum16_from(d2, i + 2, e)) % 0x10000);
        assert(sum16_from(d, i, e) == (w + sum16_from(d, i + 2, e)) % 0x10000);
    }
}

/// Law: the additive checksums catch every single-byte edit: changing any one
/// byte of a P01 image to another value makes the region of its block that
/// holds the byte invalid, whatever that region is.
pub proof fn law_p01_single_byte_edit_detected(d: Seq<u8>, i: int, v: u8)
    requires
        spec_is_p01_size(d.len() as int),
        0 <= i < d.len(),
        v != d[i],
    ensures
        forall|k: int|
            0 <= k < 8 && #[trigger] in_p01_region(i % BLOCK_SIZE as int, k) && p01_region_valid(d, i / BLOCK_SIZE as int, k)
                ==> !p01_region_valid(d.update(i, v), i / BLOCK_SIZE as int, k),
        (forall|k: int| 0 <= k < 8 ==> #[trigger] p01_region_valid(d, i / BLOCK_SIZE as int, k)) ==> exists|k: int|
            0 <= k < 8 && !#[trigger] p01_region_valid(d.update(i, v), i / BLOCK_SIZE as int, k),
{
    let bs = BLOCK_SIZE as int;
    let b = i / bs;
    let o = i % bs;
    assert(b * bs + o == i);
    assert(d.len() == 0x20000 || d.len() == 0x80000);
    let n = d.len() as int;
    assert((b + 1) * bs <= n) by (nonlinear_arith)
        requires
            b == i / bs,
            bs == 0x10000,
            i < n,
            n == 0x20000 || n == 0x80000,
            0 <= i,
    ;
    assert(block_of(d.update(i, v), b) =~= block_of(d, b).update(o, v));
    assert forall|k: int|
        0 <= k < 8 && #[trigger] in_p01_region(o, k) && p01_region_valid(d, b, k) implies !p01_region_valid(
        d.update(i, v),
        b,
        k,
    ) by {
        let r = p01_region_spec(k);
        let blk = block_of(d, b);
        assert(blk.len() == bs);
        assert(blk[o] == d[i]);
        lemma_sum16_update(blk, r.start as int, r.end as int, o, v);
        lemma_sum16_bound(blk.update(o, v), r.start as int, r.end as int);
        let delta = (v - blk[o]) * (if (o - r.start) % 2 == 0 { 256int } else { 1int });
        assert(delta != 0 && -0x10000 < delta < 0x10000);
        if sum16_from(blk.update(o, v), r.start as int, r.end as int) == 0 {
            assert((0 - 0 - delta) % 0x10000 == 0);
            assert(false);
        }
    }
    law_p01_regions_tile_block();
    assert(p01_covered(o));
    let k = choose|k: int| 0 <= k < 8 && #[trigger] in_p01_region(o, k);
    if forall|k: int| 0 <= k < 8 ==> #[trigger] p01_region_valid(d, b, k) {
        assert(p01_region_valid(d, b, k));
        assert(!p01_region_valid(d.update(i, v), b, k));
    }
}

// ── Region validation ─────────────────────────────────────────────────────────

/// 64 KiB block `b` of an image.
pub open spec fn block_of(d: Seq<u8>, b: int) -> Seq<u8> {
    d.subrange(b * BLOCK_SIZE, b * BLOCK_SIZE + BLOCK_SIZE)
}

/// The additive region `k` of block `b` sums to zero.
pub open spec fn p01_region_valid(d: Seq<u8>, b: int, k: int) -> bool {
    let r = p01_region_spec(k);
    sum16_from(block_of(d, b), r.start as int, r.end as int) == 0
}

/// Bytes of CRC region `r`: `start..=min(end, len-1)`.
pub open spec fn crc_region_bytes(d: Seq<u8>, r: RegionDescriptor) -> Seq<u8> {
    let last = if r.end < d.len() { r.end as int } else { d.len() - 1 };
    d.subrange(r.start as int, last + 1)
}

/// CRC region `r` is valid: the CRC-32 over its bytes (checksum included) is zero.
pub open spec fn crc_region_valid(d: Seq<u8>, r: RegionDescriptor) -> bool {
    spec_crc32(crc_region_bytes(d, r)) == 0
}

fn validate_additive_region(block: &[u8], region: &RegionDescriptor) -> (r: bool)
    ensures
        r == (sum16_from(block@, region.start as int, region.end as int) == 0),
{
    region_sum16(block, region.start, region.end) == 0
}

fn validate_crc32_region(data: &[u8], region: &RegionDescriptor) -> (r: bool)
    requires
        0 < data.len(),
        region.start < data.len(),
        region.start <= region.end,
    ensures
        r == crc_region_valid(data@, *region),
{
    let last = if region.end < data.len() - 1 { region.end } else { data.len() - 1 };
    let full = slice_subrange(data, region.start, last + 1);
    crc32(full) == 0
}

// ── Report bookkeeping ────────────────────────────────────────────────────────

pub open spec fn count_valid(s: Seq<RegionResult>) -> nat
    decreases s.len(),
{
    if s.len() == 0 {
        0
    } else {
        count_valid(s.drop_last()) + if s.last().was_valid { 1nat } else { 0nat }
    }
}

pub open spec fn count_invalid(s: Seq<RegionResult>) -> nat
    decreases s.len(),
{
    if s.len() == 0 {
        0
    } else {
        count_invalid(s.drop_last()) + if s.last().was_valid { 0nat } else { 1nat }
    }
}

proof fn lemma_counts_bound(s: Seq<RegionResult>)
    ensures
        count_valid(s) + count_invalid(s) == s.len(),
    decreases s.len(),
{
    if s.len() > 0 {
        lemma_counts_bound(s.drop_last());
    }
}

/// Entry `idx` of a P01 validation report, read from image `d`.
pub open spec fn p01_validate_entry(r: RegionResult, d: Seq<u8>, idx: int) -> bool {
    let b = idx / 8;
    let reg = p01_region_spec(idx % 8);
    let cs_abs = b * BLOCK_SIZE + reg.cs_offset;
    &&& r.name@ == reg.name@
    &&& r.block as int == b
    &&& r.cs_offset as int == cs_abs
    &&& r.original_cs == spec_read_u16_be(d, cs_abs) as u32
    &&& r.corrected_cs == r.original_cs
    &&& r.was_valid == p01_region_valid(d, b, idx % 8)
    &&& r.is_valid == r.was_valid
    &&& r.method@ == "Additive16"@
}

/// Entry `k` of an EDC16 CRC-32 validation report, read from image `d`.
pub open spec fn edc16_validate_entry(r: RegionResult, d: Seq<u8>, k: int) -> bool {
    let reg = edc16_region_spec(k);
    &&& r.name@ == reg.name@
    &&& r.block == 0
    &&& r.cs_offset == reg.cs_offset
    &&& r.original_cs == spec_read_u32_le(d, reg.cs_offset as int)
    &&& r.corrected_cs == r.original_cs
    &&& r.was_valid == crc_region_valid(d, reg)
    &&& r.is_valid == r.was_valid
    &&& r.method@ == "CRC32"@
}

fn validate_p01_checksums(data: &[u8]) -> (res: ChecksumReport)
    requires
        spec_is_p01_size(data@.len() as int),
    ensures
        res.regions.len() == 8 * (data@.len() as int / BLOCK_SIZE as int),
        forall|i: int|
            0 <= i < res.regions.len() ==> p01_validate_entry(#[trigger] res.regions@[i], data@, i),
        res.valid_count == count_valid(res.regions@),
        res.failed_count == count_invalid(res.regions@),
        res.fixed_count == 0,
        res.all_valid == (res.failed_count == 0),
        res.ecu_family@ == "P01_0411"@,
        res.method_used@ == "Additive16"@,
{
    let blocks = data.len() / BLOCK_SIZE;
    let mut regions: Vec<RegionResult> = Vec::new();
    let mut valid_count: usize = 0;
    let mut failed_count: usize = 0;
    let mut block_idx: usize = 0;
    while block_idx < blocks
        invariant
            blocks == data@.len() as int / BLOCK_SIZE as int,
            blocks <= 8,
            spec_is_p01_size(data@.len() as int),
            block_idx <= blocks,
            regions.len() == 8 * block_idx,
            forall|i: int|
                0 <= i < regions.len() ==> p01_validate_entry(#[trigger] regions@[i], data@, i),
            valid_count == count_valid(regions@),
            failed_count == count_invalid(regions@),
        decreases blocks - block_idx,
    {
        let block_offset = block_idx * BLOCK_SIZE;
        let block = slice_subrange(data, block_offset, block_offset + BLOCK_SIZE);
        let mut k: usize = 0;
        while k < 8
            invariant
                blocks == data@.len() as int / BLOCK_SIZE as int,
                blocks <= 8,
                block_idx < blocks,
                block_offset == block_idx * BLOCK_SIZE,
                block@ == block_of(data@, block_idx as int),
                k <= 8,
                regions.len() == 8 * block_idx + k,
                forall|i: int|
                    0 <= i < regions.len() ==> p01_validate_entry(#[trigger] regions@[i], data@, i),
                valid_count == count_valid(regions@),
                failed_count == count_invalid(regions@),
            decreases 8 - k,
        {
            let region = p01_region(k);
            let cs_abs = block_offset + region.cs_offset;
            let original_cs = read_u16_be(data, cs_abs) as u32;
            let was_valid = validate_additive_region(block, &region);
            proof {
                lemma_counts_bound(regions@);
            }
            if was_valid {
                valid_count += 1;
            } else {
                failed_count += 1;
            }
            let entry = RegionResult {
                name: str_to_string(region.name),
                block: block_idx as u8,
                cs_offset: cs_abs,
                original_cs,
                corrected_cs: original_cs,
                was_valid,
                is_valid: was_valid,
                method: str_to_string("Additive16"),
            };
            let ghost old_regions = regions@;
            regions.push(entry);
            proof {
                let idx = 8 * block_idx + k;
                assert(idx / 8 == block_idx as int);
                assert(idx % 8 == k as int);
                assert(regions@.drop_last() == old_regions);
                assert(p01_validate_entry(regions@[idx], data@, idx));
            }
            k += 1;
        }
        block_idx += 1;
    }
    ChecksumReport {
        regions,
        valid_count,
        fixed_count: 0,
        failed_count,
        all_valid: failed_count == 0,
        ecu_family: str_to_string("P01_0411"),
        method_used: str_to_string("Additive16"),
    }
}

fn validate_edc16_crc32(data: &[u8]) -> (res: ChecksumReport)
    requires
        data@.len() == EDC16_FLASH_SIZE,
    ensures
        res.regions.len() == 7,
        forall|i: int|
            0 <= i < res.regions.len() ==> edc16_validate_entry(#[trigger] res.regions@[i], data@, i),
        res.valid_count == count_valid(res.regions@),
        res.failed_count == count_invalid(res.regions@),
        res.fixed_count == 0,
        res.all_valid == (res.failed_count == 0),
        res.ecu_family@ == "EDC16C41"@,
        res.method_used@ == "CRC32 multipoint"@,
{
    let mut regions: Vec<RegionResult> = Vec::new();
    let mut valid_count: usize = 0;
    let mut failed_count: usize = 0;
    let mut k: usize = 0;
    while k < 7
        invariant
            data@.len() == EDC16_FLASH_SIZE,
            k <= 7,
            regions.len() == k,
            forall|i: int|
                0 <= i < regions.len() ==> edc16_validate_entry(#[trigger] regions@[i], data@, i),
            valid_count == count_valid(regions@),
            failed_count == count_invalid(regions@),
        decreases 7 - k,
    {
        let region = edc16_region(k);
        let was_valid = validate_crc32_region(data, &region);
        let original_cs = read_u32_le(data, region.cs_offset);
        proof {
            lemma_counts_bound(regions@);
        }
        if was_valid {
            valid_count += 1;
        } else {
            failed_count += 1;
        }
        let entry = RegionResult {
            name: str_to_string(region.name),
            block: 0,
            cs_offset: region.cs_offset,
            original_cs,
            corrected_cs: original_cs,
            was_valid,
            is_valid: was_valid,
            method: str_to_string("CRC32"),
        };
        let ghost old_regions = regions@;
        regions.push(entry);
        proof {
            assert(regions@.drop_last() == old_regions);
        }
        k += 1;
    }
    ChecksumReport {
        regions,
        valid_count,
        fixed_count: 0,
        failed_count,
        all_valid: failed_count == 0,
        ecu_family: str_to_string("EDC16C41"),
        method_used: str_to_string("CRC32 multipoint"),
    }
}


// ── Additive correction ───────────────────────────────────────────────────────

proof fn lemma_sum16_frame(d1: Seq<u8>, d2: Seq<u8>, i: int, e: int)
    requires
        d1.len() == d2.len(),
        forall|j: int| i <= j <= e + 1 && 0 <= j < d1.len() ==> d1[j] == d2[j],
    ensures
        sum16_from(d1, i, e) == sum16_from(d2, i, e),
    decreases d1.len() - i,
{
    if 0 <= i && i <= e && i + 1 < d1.len() {
        lemma_sum16_frame(d1, d2, i + 2, e);
    }
}

proof fn lemma_sum16_parity(d: Seq<u8>, i: int, e: int)
    requires
        0 <= i,
        i <= e,
        (e - i) % 2 == 1,
    ensures
        sum16_from(d, i, e) == sum16_from(d, i, e - 1),
    decreases d.len() - i,
{
    if i + 1 < d.len() {
        if i + 2 <= e {
            lemma_sum16_parity(d, i + 2, e);
            assert(sum16_from(d, i, e) == (word_be(d, i) as int + sum16_from(d, i + 2, e)) % 0x10000);
            assert(sum16_from(d, i, e - 1) == (word_be(d, i) as int + sum16_from(d, i + 2, e - 1)) % 0x10000);
        } else {
            assert(e == i + 1);
            assert(sum16_from(d, i + 2, e) == 0);
            assert(sum16_from(d, i + 2, e - 1) == 0);
        }
    }
}

proof fn lemma_sum16_last(d: Seq<u8>, i: int, cs: int)
    requires
        0 <= i <= cs,
        (cs - i) % 2 == 0,
        cs + 1 < d.len(),
    ensures
        sum16_from(d, i, cs + 1) == (sum16_from(d, i, cs - 1) + word_be(d, cs) as int) % 0x10000,
    decreases cs - i,
{
    if i < cs {
        lemma_sum16_last(d, i + 2, cs);
        lemma_sum16_bound(d, i + 2, cs - 1);
        let w = word_be(d, i) as int;
        let a = sum16_from(d, i + 2, cs - 1);
        let c = word_be(d, cs) as int;
        assert((w + (a + c) % 0x10000) % 0x10000 == ((w + a) % 0x10000 + c) % 0x10000)
            by (nonlinear_arith);
    } else {
        assert(sum16_from(d, cs + 2, cs + 1) == 0);
        assert(sum16_from(d, cs, cs - 1) == 0);
    }
}

proof fn lemma_put_word(d: Seq<u8>, off: int, v: u16)
    requires
        0 <= off,
        off + 1 < d.len(),
    ensures
        word_be(put_u16_be(d, off, v), off) == v,
        put_u16_be(d, off, v).len() == d.len(),
        forall|j: int| 0 <= j < d.len() && j != off && j != off + 1 ==> put_u16_be(d, off, v)[j] == d[j],
{
    let hi = (v >> 8) as u8;
    let lo = (v & 0xFF) as u8;
    assert((hi as int * 256 + lo as int) as u16 == v) by (bit_vector)
        requires
            hi == (v >> 8) as u8,
            lo == (v & 0xFF) as u8,
    ;
}

/// The checksum word that zeroes additive region `k` of a block.
pub open spec fn p01_fix_word(blk: Seq<u8>, k: int) -> u16 {
    let r = p01_region_spec(k);
    ((0x10000 - sum16_from(blk, r.start as int, r.end as int - 2)) % 0x10000) as u16
}

/// Rewrites the checksum word of additive region `k` of the block at `base` so
/// that the region sums to zero.
fn correct_additive_region(buf: &mut Vec<u8>, base: usize, k: usize) -> (r: Result<u16, String>)
    requires
        k < 8,
        base as int % BLOCK_SIZE as int == 0,
        base + BLOCK_SIZE <= old(buf)@.len(),
    ensures
        r matches Ok(v) && v == p01_fix_word(block_of(old(buf)@, base as int / BLOCK_SIZE as int), k as int),
        final(buf)@ == put_u16_be(
            old(buf)@,
            base + p01_region_spec(k as int).cs_offset,
            p01_fix_word(block_of(old(buf)@, base as int / BLOCK_SIZE as int), k as int),
        ),
        p01_region_valid(final(buf)@, base as int / BLOCK_SIZE as int, k as int),
{
    let region = p01_region(k);
    let ghost b = base as int / BLOCK_SIZE as int;
    let ghost d0 = buf@;
    assert(b * BLOCK_SIZE == base);
    assert(base + BLOCK_SIZE <= buf.len());
    let block_end = base + BLOCK_SIZE;
    let block = slice_subrange(buf.as_slice(), base, block_end);
    assert(block@ == block_of(d0, b));
    if region.end - region.start < 2 {
        return Err(str_to_string("region too small"));
    }
    let sum_excl = region_sum16(block, region.start, region.end - 2);
    let new_cs = 0u16.wrapping_sub(sum_excl);
    proof {
        lemma_sum16_bound(block@, region.start as int, region.end as int - 2);
        assert(new_cs == p01_fix_word(block_of(d0, b), k as int));
    }
    let cs_abs = base + region.cs_offset;
    write_u16_be(buf, cs_abs, new_cs);
    let block2 = slice_subrange(buf.as_slice(), base, block_end);
    proof {
        let d1 = buf@;
        lemma_put_word(d0, cs_abs as int, new_cs);
        let blk0 = block_of(d0, b);
        let blk1 = block_of(d1, b);
        assert(blk1 == put_u16_be(blk0, region.cs_offset as int, new_cs));
        lemma_put_word(blk0, region.cs_offset as int, new_cs);
        lemma_sum16_parity(blk0, region.start as int, region.end as int - 2);
        lemma_sum16_parity(blk1, region.start as int, region.end as int - 2);
        lemma_sum16_frame(blk0, blk1, region.start as int, region.end as int - 3);
        lemma_sum16_last(blk1, region.start as int, region.cs_offset as int);
        lemma_sum16_bound(blk1, region.start as int, region.end as int - 2);
        assert(region.end as int - 2 == region.cs_offset as int - 1);
        assert(sum16_from(blk1, region.start as int, region.end as int) == 0);
    }
    if region_sum16(block2, region.start, region.end) != 0 {
        return Err(str_to_string("Post-correction verify failed"));
    }
    Ok(new_cs)
}


/// Offset inside a 64 KiB block that holds a byte of one of the eight P01
/// checksum words.
pub open spec fn p01_cs_byte(o: int) -> bool {
    o == 0x3FFE || o == 0x3FFF || o == 0x7FFE || o == 0x7FFF || o == 0xBFFE || o == 0xBFFF || o
        == 0xEFFE || o == 0xEFFF || o == 0xF3FE || o == 0xF3FF || o == 0xF7FE || o == 0xF7FF || o
        == 0xFBFE || o == 0xFBFF || o == 0xFFFE || o == 0xFFFF
}

/// Absolute position of the checksum word of region `k` of block `b`.
pub open spec fn p01_cs_abs(b: int, k: int) -> int {
    b * BLOCK_SIZE + p01_region_spec(k).cs_offset
}

/// Entry `idx` of a P01 correction report: `d` before, `out` after correction.
pub open spec fn p01_correct_entry(r: RegionResult, d: Seq<u8>, out: Seq<u8>, idx: int) -> bool {
    let b = idx / 8;
    let reg = p01_region_spec(idx % 8);
    let cs_abs = p01_cs_abs(b, idx % 8);
    &&& r.name@ == reg.name@
    &&& r.block as int == b
    &&& r.cs_offset as int == cs_abs
    &&& r.original_cs == spec_read_u16_be(d, cs_abs) as u32
    &&& r.corrected_cs == spec_read_u16_be(out, cs_abs) as u32
    &&& r.was_valid == p01_region_valid(d, b, idx % 8)
    &&& r.is_valid
    &&& r.method@ == "Additive16"@
}

/// Bytes of region `k` of block `b` agree in `d1` and `d2`, checksum word included.
pub open spec fn p01_region_same(d1: Seq<u8>, d2: Seq<u8>, b: int, k: int) -> bool {
    let r = p01_region_spec(k);
    forall|j: int|
        r.start <= j <= r.end ==> #[trigger] d1[b * BLOCK_SIZE + j] == d2[b * BLOCK_SIZE + j]
}

proof fn lemma_region_same_valid(d1: Seq<u8>, d2: Seq<u8>, b: int, k: int)
    requires
        0 <= k < 8,
        0 <= b,
        d1.len() == d2.len(),
        (b + 1) * BLOCK_SIZE <= d1.len(),
        p01_region_same(d1, d2, b, k),
    ensures
        p01_region_valid(d1, b, k) == p01_region_valid(d2, b, k),
        sum16_from(block_of(d1, b), p01_region_spec(k).start as int, p01_region_spec(k).end as int - 2)
            == sum16_from(block_of(d2, b), p01_region_spec(k).start as int, p01_region_spec(k).end as int - 2),
{
    let r = p01_region_spec(k);
    let b1 = block_of(d1, b);
    let b2 = block_of(d2, b);
    assert forall|j: int| r.start <= j <= r.end as int && 0 <= j < b1.len() implies b1[j] == b2[j] by {
        assert(d1[b * BLOCK_SIZE + j] == d2[b * BLOCK_SIZE + j]);
    }
    lemma_sum16_parity(b1, r.start as int, r.end as int);
    lemma_sum16_parity(b2, r.start as int, r.end as int);
    lemma_sum16_frame(b1, b2, r.start as int, r.end as int - 1);
    lemma_sum16_parity(b1, r.start as int, r.end as int - 2);
    lemma_sum16_parity(b2, r.start as int, r.end as int - 2);
    lemma_sum16_frame(b1, b2, r.start as int, r.end as int - 3);
}

proof fn lemma_write_other_region(d: Seq<u8>, b: int, k: int, v: u16, b2: int, k2: int)
    requires
        0 <= b,
        0 <= b2,
        0 <= k < 8,
        0 <= k2 < 8,
        (b, k) != (b2, k2),
        (b + 1) * BLOCK_SIZE <= d.len(),
        (b2 + 1) * BLOCK_SIZE <= d.len(),
    ensures
        p01_region_same(put_u16_be(d, p01_cs_abs(b, k), v), d, b2, k2),
{
    let c = p01_cs_abs(b, k);
    lemma_put_word(d, c, v);
    let r2 = p01_region_spec(k2);
    assert forall|j: int| r2.start <= j <= r2.end implies #[trigger] put_u16_be(d, c, v)[b2 * BLOCK_SIZE + j]
        == d[b2 * BLOCK_SIZE + j] by {
        let p = b2 * BLOCK_SIZE + j;
        if b2 != b {
            if b2 < b {
                assert(p < b2 * BLOCK_SIZE + BLOCK_SIZE);
                assert(b2 * BLOCK_SIZE + BLOCK_SIZE <= b * BLOCK_SIZE) by (nonlinear_arith)
                    requires
                        b2 < b,
                ;
            } else {
                assert(b * BLOCK_SIZE + BLOCK_SIZE <= b2 * BLOCK_SIZE) by (nonlinear_arith)
                    requires
                        b < b2,
                ;
            }
            assert(p != c && p != c + 1);
        } else {
            assert(k != k2);
            assert(p != c && p != c + 1);
        }
    }
}

/// Invariant of the P01 correction loop after `p` regions (in block-major order).
#[verifier::opaque]
pub open spec fn p01_fix_progress(buf: Seq<u8>, data: Seq<u8>, blocks: int, p: int) -> bool {
    &&& buf.len() == data.len()
    &&& forall|i: int|
        0 <= i < data.len() && !p01_cs_byte(i % BLOCK_SIZE as int) ==> buf[i] == data[i]
    &&& forall|b: int, kk: int|
        0 <= b < blocks && 0 <= kk < 8 && 8 * b + kk < p ==> p01_region_valid(buf, b, kk)
    &&& forall|b: int, kk: int|
        0 <= b < blocks && 0 <= kk < 8 && 8 * b + kk >= p ==> p01_region_same(buf, data, b, kk)
    &&& forall|b: int, kk: int|
        0 <= b < blocks && 0 <= kk < 8 && 8 * b + kk < p && p01_region_valid(data, b, kk)
            ==> p01_region_same(buf, data, b, kk)
}

/// The report entries of the first `results.len()` regions.
#[verifier::opaque]
pub open spec fn p01_entries(results: Seq<RegionResult>, data: Seq<u8>, buf: Seq<u8>) -> bool {
    forall|i: int| 0 <= i < results.len() ==> p01_correct_entry(#[trigger] results[i], data, buf, i)
}

proof fn lemma_region_same_trans(d1: Seq<u8>, d2: Seq<u8>, d3: Seq<u8>, b: int, k: int)
    requires
        p01_region_same(d1, d2, b, k),
        p01_region_same(d2, d3, b, k),
    ensures
        p01_region_same(d1, d3, b, k),
{
    let r = p01_region_spec(k);
    assert forall|j: int| r.start <= j <= r.end implies #[trigger] d1[b * BLOCK_SIZE + j] == d3[b
        * BLOCK_SIZE + j] by {
        assert(d1[b * BLOCK_SIZE + j] == d2[b * BLOCK_SIZE + j]);
    }
}

/// One step of the correction loop keeps its invariant.
proof fn lemma_fix_step(
    old_buf: Seq<u8>,
    buf: Seq<u8>,
    data: Seq<u8>,
    blocks: int,
    b: int,
    k: int,
    was_valid: bool,
)
    requires
        0 <= k < 8,
        0 <= b < blocks,
        blocks * BLOCK_SIZE == data.len(),
        p01_fix_progress(old_buf, data, blocks, 8 * b + k),
        was_valid == p01_region_valid(old_buf, b, k),
        was_valid ==> buf == old_buf,
        !was_valid ==> buf == put_u16_be(
            old_buf,
            p01_cs_abs(b, k),
            p01_fix_word(block_of(old_buf, b), k),
        ) && p01_region_valid(buf, b, k),
    ensures
        p01_fix_progress(buf, data, blocks, 8 * b + k + 1),
        was_valid == p01_region_valid(data, b, k),
        forall|b2: int, kk: int|
            0 <= b2 < blocks && 0 <= kk < 8 && (b2, kk) != (b, k) ==> p01_region_same(buf, old_buf, b2, kk),
        p01_region_same(old_buf, data, b, k),
{
    reveal(p01_fix_progress);
    assert(p01_region_same(old_buf, data, b, k));
    assert((b + 1) * BLOCK_SIZE <= data.len()) by (nonlinear_arith)
        requires
            b < blocks,
            blocks * BLOCK_SIZE == data.len(),
    ;
    lemma_region_same_valid(old_buf, data, b, k);
    if was_valid {
        assert forall|b2: int, kk: int|
            0 <= b2 < blocks && 0 <= kk < 8 && (b2, kk) != (b, k) implies p01_region_same(buf, old_buf, b2, kk) by {
        }
    } else {
        let v = p01_fix_word(block_of(old_buf, b), k);
        let c = p01_cs_abs(b, k);
        lemma_put_word(old_buf, c, v);
        assert forall|b2: int, kk: int|
            0 <= b2 < blocks && 0 <= kk < 8 && (b2, kk) != (b, k) implies p01_region_same(buf, old_buf, b2, kk) by {
            assert((b2 + 1) * BLOCK_SIZE <= data.len()) by (nonlinear_arith)
                requires
                    b2 < blocks,
                    blocks * BLOCK_SIZE == data.len(),
            ;
            lemma_write_other_region(old_buf, b, k, v, b2, kk);
        }
        assert forall|i: int|
            0 <= i < data.len() && !p01_cs_byte(i % BLOCK_SIZE as int) implies buf[i] == data[i] by {
            if i == c || i == c + 1 {
                assert(c % BLOCK_SIZE as int == p01_region_spec(k).cs_offset);
                assert((c + 1) % BLOCK_SIZE as int == p01_region_spec(k).cs_offset + 1);
            }
        }
        assert forall|b2: int, kk: int|
            0 <= b2 < blocks && 0 <= kk < 8 && 8 * b2 + kk < 8 * b + k + 1 implies p01_region_valid(buf, b2, kk) by {
            if (b2, kk) != (b, k) {
                assert((b2 + 1) * BLOCK_SIZE <= data.len()) by (nonlinear_arith)
                    requires
                        b2 < blocks,
                        blocks * BLOCK_SIZE == data.len(),
                ;
                lemma_region_same_valid(buf, old_buf, b2, kk);
            }
        }
        assert forall|b2: int, kk: int|
            0 <= b2 < blocks && 0 <= kk < 8 && 8 * b2 + kk >= 8 * b + k + 1 implies p01_region_same(buf, data, b2, kk) by {
            lemma_region_same_trans(buf, old_buf, data, b2, kk);
        }
        assert forall|b2: int, kk: int|
            0 <= b2 < blocks && 0 <= kk < 8 && 8 * b2 + kk < 8 * b + k + 1 && p01_region_valid(data, b2, kk)
                implies p01_region_same(buf, data, b2, kk) by {
            if (b2, kk) != (b, k) {
                lemma_region_same_trans(buf, old_buf, data, b2, kk);
            }
        }
    }
}

proof fn lemma_entries_step(
    old_results: Seq<RegionResult>,
    results: Seq<RegionResult>,
    old_buf: Seq<u8>,
    buf: Seq<u8>,
    data: Seq<u8>,
    blocks: int,
    b: int,
    k: int,
)
    requires
        0 <= k < 8,
        0 <= b < blocks,
        blocks * BLOCK_SIZE == data.len(),
        old_buf.len() == data.len(),
        buf.len() == data.len(),
        old_results.len() == 8 * b + k,
        results.len() == old_results.len() + 1,
        results.drop_last() == old_results,
        p01_entries(old_results, data, old_buf),
        p01_correct_entry(results.last(), data, buf, 8 * b + k),
        forall|b2: int, kk: int|
            0 <= b2 < blocks && 0 <= kk < 8 && (b2, kk) != (b, k) ==> p01_region_same(buf, old_buf, b2, kk),
    ensures
        p01_entries(results, data, buf),
{
    reveal(p01_entries);
    assert forall|i: int| 0 <= i < results.len() implies p01_correct_entry(#[trigger] results[i], data, buf, i) by {
        if i < old_results.len() {
            assert(results[i] == old_results[i]);
            assert(p01_correct_entry(old_results[i], data, old_buf, i));
            let bi = i / 8;
            let ki = i % 8;
            assert(p01_region_same(buf, old_buf, bi, ki));
            let r = p01_region_spec(ki);
            assert(buf[bi * BLOCK_SIZE + r.cs_offset as int] == old_buf[bi * BLOCK_SIZE + r.cs_offset as int]);
            assert(buf[bi * BLOCK_SIZE + r.end as int] == old_buf[bi * BLOCK_SIZE + r.end as int]);
            assert((bi + 1) * BLOCK_SIZE <= data.len()) by (nonlinear_arith)
                requires
                    bi < blocks,
                    blocks * BLOCK_SIZE == data.len(),
            ;
        }
    }
}

#[verifier::rlimit(30)]
fn correct_p01_checksums(data: &[u8]) -> (res: Result<CorrectedCal, String>)
    requires
        spec_is_p01_size(data@.len() as int),
    ensures
        res is Ok,
        res matches Ok(c) ==> {
            &&& p01_fix_progress(c.data@, data@, data@.len() as int / BLOCK_SIZE as int, 8 * (data@.len() as int / BLOCK_SIZE as int))
            &&& c.report.regions.len() == 8 * (data@.len() as int / BLOCK_SIZE as int)
            &&& p01_entries(c.report.regions@, data@, c.data@)
            &&& c.report.valid_count == count_valid(c.report.regions@)
            &&& c.report.fixed_count == count_invalid(c.report.regions@)
            &&& c.report.failed_count == 0
            &&& c.report.all_valid
            &&& c.report.ecu_family@ == "P01_0411"@
            &&& c.report.method_used@ == "Additive16"@
        },
{
    let blocks = data.len() / BLOCK_SIZE;
    let mut buf = vstd::slice::slice_to_vec(data);
    let mut results: Vec<RegionResult> = Vec::new();
    let mut valid_count: usize = 0;
    let mut fixed_count: usize = 0;
    let mut block_idx: usize = 0;
    proof {
        reveal(p01_fix_progress);
        reveal(p01_entries);
    }
    while block_idx < blocks
        invariant
            blocks == data@.len() as int / BLOCK_SIZE as int,
            blocks * BLOCK_SIZE == data@.len(),
            blocks <= 8,
            block_idx <= blocks,
            p01_fix_progress(buf@, data@, blocks as int, 8 * block_idx),
            results.len() == 8 * block_idx,
            p01_entries(results@, data@, buf@),
            valid_count == count_valid(results@),
            fixed_count == count_invalid(results@),
        decreases blocks - block_idx,
    {
        let block_offset = block_idx * BLOCK_SIZE;
        let mut k: usize = 0;
        while k < 8
            invariant
                blocks == data@.len() as int / BLOCK_SIZE as int,
                blocks * BLOCK_SIZE == data@.len(),
                blocks <= 8,
                block_idx < blocks,
                block_offset == block_idx * BLOCK_SIZE,
                k <= 8,
                p01_fix_progress(buf@, data@, blocks as int, 8 * block_idx + k),
                results.len() == 8 * block_idx + k,
                p01_entries(results@, data@, buf@),
                valid_count == count_valid(results@),
                fixed_count == count_invalid(results@),
            decreases 8 - k,
        {
            let region = p01_region(k);
            let cs_abs = block_offset + region.cs_offset;
            let ghost b = block_idx as int;
            let ghost old_buf = buf@;
            let ghost old_results = results@;
            proof {
                reveal(p01_fix_progress);
            }
            assert(block_offset + BLOCK_SIZE <= buf.len()) by (nonlinear_arith)
                requires
                    block_offset == block_idx * BLOCK_SIZE,
                    block_idx < blocks,
                    blocks * BLOCK_SIZE == buf@.len(),
            ;
            let original_cs = read_u16_be(buf.as_slice(), cs_abs) as u32;
            let block_slice = slice_subrange(buf.as_slice(), block_offset, block_offset + BLOCK_SIZE);
            let was_valid = validate_additive_region(block_slice, &region);
            proof {
                lemma_counts_bound(results@);
                assert(block_slice@ == block_of(buf@, b));
            }
            let corrected_cs: u32;
            if was_valid {
                valid_count += 1;
                corrected_cs = original_cs;
            } else {
                match correct_additive_region(&mut buf, block_offset, k) {
                    Ok(v) => {
                        fixed_count += 1;
                        corrected_cs = v as u32;
                    },
                    Err(e) => {
                        return Err(e);
                    },
                }
            }
            proof {
                lemma_fix_step(old_buf, buf@, data@, blocks as int, b, k as int, was_valid);
                let reg = p01_region_spec(k as int);
                assert(old_buf[b * BLOCK_SIZE + reg.cs_offset as int] == data@[b * BLOCK_SIZE + reg.cs_offset as int]);
                assert(old_buf[b * BLOCK_SIZE + reg.end as int] == data@[b * BLOCK_SIZE + reg.end as int]);
                if !was_valid {
                    lemma_put_word(old_buf, cs_abs as int, corrected_cs as u16);
                }
            }
            let entry = RegionResult {
                name: str_to_string(region.name),
                block: block_idx as u8,
                cs_offset: cs_abs,
                original_cs,
                corrected_cs,
                was_valid,
                is_valid: true,
                method: str_to_string("Additive16"),
            };
            results.push(entry);
            proof {
                let idx = 8 * block_idx + k;
                assert(idx / 8 == b);
                assert(idx % 8 == k as int);
                assert(results@.drop_last() == old_results);
                assert(p01_correct_entry(results@.last(), data@, buf@, idx));
                lemma_entries_step(old_results, results@, old_buf, buf@, data@, blocks as int, b, k as int);
            }
            k += 1;
        }
        block_idx += 1;
    }
    Ok(CorrectedCal {
        data: buf,
        report: ChecksumReport {
            regions: results,
            valid_count,
            fixed_count,
            failed_count: 0,
            all_valid: true,
            ecu_family: str_to_string("P01_0411"),
            method_used: str_to_string("Additive16"),
        },
    })
}


// ── CRC-32 correction ─────────────────────────────────────────────────────────

/// The checksum word that, stored little-endian right after bytes leaving the
/// CRC register at `reg`, brings the CRC-32 of the whole run to zero.
pub open spec fn crc_zero_word(reg: u32) -> u32 {
    reg ^ 0x9226_F562u32
}

/// The word written into the checksum slot of CRC region `r` of image `d`:
/// it depends only on the region's bytes before the slot.
pub open spec fn crc_fix_word(d: Seq<u8>, r: RegionDescriptor) -> u32 {
    crc_zero_word(crc_reg(d.subrange(r.start as int, r.cs_offset as int)))
}

/// Image `d` with the checksum slot of CRC region `r` rewritten.
pub open spec fn crc_fix(d: Seq<u8>, r: RegionDescriptor) -> Seq<u8> {
    put_u32_le(d, r.cs_offset as int, crc_fix_word(d, r))
}

/// A region whose checksum slot is its last four bytes, inside the image.
pub open spec fn crc_slot_at_end(d: Seq<u8>, r: RegionDescriptor) -> bool {
    &&& r.start <= r.cs_offset
    &&& r.cs_offset + 3 == r.end
    &&& r.end < d.len()
}

/// One byte fed into a register whose low byte already cancels it.
proof fn lemma_crc_byte(k: u32, v: u32)
    ensures
        crc_step8(k ^ v ^ (v & 0xFFu32)) == crc_step8(k) ^ (v >> 8u32),
{
    assert(crc_step8(k ^ v ^ (v & 0xFFu32)) == crc_step8(k) ^ (v >> 8u32)) by (bit_vector);
}

/// Feeding the four little-endian bytes of `crc_zero_word(c)` to register `c`
/// leaves the all-ones register.
proof fn lemma_crc_zero_word(c: u32)
    ensures
        ({
            let w = crc_zero_word(c);
            let c1 = crc_step8(c ^ (((w & 0xFFu32) as u8) as u32));
            let c2 = crc_step8(c1 ^ ((((w >> 8u32) & 0xFFu32) as u8) as u32));
            let c3 = crc_step8(c2 ^ ((((w >> 16u32) & 0xFFu32) as u8) as u32));
            crc_step8(c3 ^ ((((w >> 24u32) & 0xFFu32) as u8) as u32)) == 0xFFFF_FFFFu32
        }),
{
    let k: u32 = 0x9226_F562u32;
    let w = crc_zero_word(c);
    let s1 = crc_step8(k);
    let s2 = crc_step8(s1);
    let s3 = crc_step8(s2);
    assert(crc_step8(s3) == 0xFFFF_FFFFu32) by (bit_vector)
        requires
            s1 == crc_step8(k),
            s2 == crc_step8(s1),
            s3 == crc_step8(s2),
            k == 0x9226_F562u32,
    ;
    let w1 = w >> 8u32;
    let w2 = w >> 16u32;
    let w3 = w >> 24u32;
    assert(c ^ (((w & 0xFFu32) as u8) as u32) == k ^ w ^ (w & 0xFFu32)) by (bit_vector)
        requires
            w == c ^ k,
    ;
    lemma_crc_byte(k, w);
    let c1 = crc_step8(c ^ (((w & 0xFFu32) as u8) as u32));
    assert(c1 == s1 ^ w1);
    assert(c1 ^ ((((w >> 8u32) & 0xFFu32) as u8) as u32) == s1 ^ w1 ^ (w1 & 0xFFu32)) by (bit_vector)
        requires
            c1 == s1 ^ w1,
            w1 == w >> 8u32,
    ;
    lemma_crc_byte(s1, w1);
    let c2 = crc_step8(c1 ^ ((((w >> 8u32) & 0xFFu32) as u8) as u32));
    assert(w1 >> 8u32 == w2) by (bit_vector)
        requires
            w1 == w >> 8u32,
            w2 == w >> 16u32,
    ;
    assert(c2 == s2 ^ w2);
    assert(c2 ^ ((((w >> 16u32) & 0xFFu32) as u8) as u32) == s2 ^ w2 ^ (w2 & 0xFFu32)) by (bit_vector)
        requires
            c2 == s2 ^ w2,
            w2 == w >> 16u32,
    ;
    lemma_crc_byte(s2, w2);
    let c3 = crc_step8(c2 ^ ((((w >> 16u32) & 0xFFu32) as u8) as u32));
    assert(w2 >> 8u32 == w3) by (bit_vector)
        requires
            w2 == w >> 16u32,
            w3 == w >> 24u32,
    ;
    assert(c3 == s3 ^ w3);
    assert(c3 ^ ((((w >> 24u32) & 0xFFu32) as u8) as u32) == s3) by (bit_vector)
        requires
            c3 == s3 ^ w3,
            w3 == w >> 24u32,
    ;
}

/// Rewriting the slot of a region whose slot ends it makes the region valid.
proof fn lemma_crc_fix_valid(d: Seq<u8>, r: RegionDescriptor)
    requires
        crc_slot_at_end(d, r),
    ensures
        crc_region_valid(crc_fix(d, r), r),
        crc_fix(d, r).len() == d.len(),
{
    let cs = r.cs_offset as int;
    let w = crc_fix_word(d, r);
    let d1 = crc_fix(d, r);
    let p = d.subrange(r.start as int, cs);
    let q = crc_region_bytes(d1, r);
    assert(q == d1.subrange(r.start as int, cs + 4));
    let q3 = q.drop_last();
    let q2 = q3.drop_last();
    let q1 = q2.drop_last();
    assert(q1.drop_last() =~= p);
    assert(d1[cs] == (w & 0xFFu32) as u8);
    assert(d1[cs + 1] == ((w >> 8u32) & 0xFFu32) as u8);
    assert(d1[cs + 2] == ((w >> 16u32) & 0xFFu32) as u8);
    assert(d1[cs + 3] == ((w >> 24u32) & 0xFFu32) as u8);
    assert(q1.last() == d1[cs]);
    assert(q2.last() == d1[cs + 1]);
    assert(q3.last() == d1[cs + 2]);
    assert(q.last() == d1[cs + 3]);
    lemma_crc_zero_word(crc_reg(p));
    assert(crc_reg(q1) == crc_step8(crc_reg(p) ^ (q1.last() as u32)));
    assert(crc_reg(q2) == crc_step8(crc_reg(q1) ^ (q2.last() as u32)));
    assert(crc_reg(q3) == crc_step8(crc_reg(q2) ^ (q3.last() as u32)));
    assert(crc_reg(q) == crc_step8(crc_reg(q3) ^ (q.last() as u32)));
    assert(crc_reg(q) == 0xFFFF_FFFFu32);
    assert(0xFFFF_FFFFu32 ^ 0xFFFF_FFFFu32 == 0u32) by (bit_vector);
    assert(crc_reg(q) == 0xFFFF_FFFFu32);
}

/// Writing a checksum slot outside region `r` leaves the region's bytes alone.
proof fn lemma_crc_bytes_frame(d: Seq<u8>, r: RegionDescriptor, off: int, v: u32)
    requires
        r.start <= r.end < d.len(),
        0 <= off,
        off + 3 < r.start || off > r.end,
    ensures
        crc_region_bytes(put_u32_le(d, off, v), r) == crc_region_bytes(d, r),
{
    assert(crc_region_bytes(put_u32_le(d, off, v), r) =~= crc_region_bytes(d, r));
}

fn correct_crc32_region(data: &mut Vec<u8>, region: &RegionDescriptor) -> (r: u32)
    requires
        crc_slot_at_end(old(data)@, *region),
    ensures
        final(data)@ == crc_fix(old(data)@, *region),
        r == crc_fix_word(old(data)@, *region),
{
    let reg = crc32(slice_subrange(data.as_slice(), region.start, region.cs_offset)) ^ 0xFFFF_FFFF;
    let ghost c = crc_reg(data@.subrange(region.start as int, region.cs_offset as int));
    assert(reg == c) by (bit_vector)
        requires
            reg == (c ^ 0xFFFF_FFFFu32) ^ 0xFFFF_FFFFu32,
    ;
    let word = reg ^ 0x9226_F562;
    write_u32_le(data, region.cs_offset, word);
    word
}

/// The EDC16 image after the correction pass has handled regions `0..n`.
pub open spec fn edc16_fix_upto(d: Seq<u8>, n: nat) -> Seq<u8>
    decreases n,
{
    if n == 0 {
        d
    } else {
        let d1 = edc16_fix_upto(d, (n - 1) as nat);
        let r = edc16_region_spec(n - 1);
        if crc_region_valid(d1, r) {
            d1
        } else {
            crc_fix(d1, r)
        }
    }
}

/// The EDC16 regions lie in order, each inside the image with its slot last.
proof fn lemma_edc16_regions(j: int, k: int)
    requires
        0 <= j < 7,
        0 <= k < 7,
    ensures
        edc16_region_spec(k).start <= edc16_region_spec(k).cs_offset,
        edc16_region_spec(k).cs_offset + 3 == edc16_region_spec(k).end,
        edc16_region_spec(k).end < EDC16_FLASH_SIZE,
        j < k ==> edc16_region_spec(j).end < edc16_region_spec(k).start,
{
}

/// The bytes of the EDC16 checksum slots.
pub open spec fn edc16_cs_byte(i: int) -> bool {
    exists|k: int| 0 <= k < 7 && #[trigger] edc16_region_spec(k).cs_offset <= i < edc16_region_spec(k).cs_offset + 4
}

/// After regions `0..n` are handled the image keeps its length and every byte
/// outside the slots, and each handled region validates.
proof fn lemma_fix_upto(d: Seq<u8>, n: nat)
    requires
        n <= 7,
        d.len() == EDC16_FLASH_SIZE,
    ensures
        edc16_fix_upto(d, n).len() == d.len(),
        forall|i: int| 0 <= i < d.len() && !edc16_cs_byte(i) ==> edc16_fix_upto(d, n)[i] == d[i],
        forall|j: int| 0 <= j < n ==> #[trigger] crc_region_valid(edc16_fix_upto(d, n), edc16_region_spec(j)),
    decreases n,
{
    if n > 0 {
        lemma_fix_upto(d, (n - 1) as nat);
        let d1 = edc16_fix_upto(d, (n - 1) as nat);
        let k = n - 1;
        let r = edc16_region_spec(k);
        lemma_edc16_regions(0, k);
        if !crc_region_valid(d1, r) {
            lemma_crc_fix_valid(d1, r);
            let w = crc_fix_word(d1, r);
            assert forall|j: int| 0 <= j < k implies #[trigger] crc_region_valid(
                edc16_fix_upto(d, n),
                edc16_region_spec(j),
            ) by {
                lemma_edc16_regions(j, k);
                assert(crc_region_valid(d1, edc16_region_spec(j)));
                lemma_crc_bytes_frame(d1, edc16_region_spec(j), r.cs_offset as int, w);
            }
            assert forall|i: int| 0 <= i < d.len() && !edc16_cs_byte(i) implies edc16_fix_upto(d, n)[i] == d[i] by {
                if r.cs_offset <= i < r.cs_offset + 4 {
                    assert(edc16_cs_byte(i));
                }
            }
        }
    }
}

/// Entry `k` of an EDC16 correction report for image `d`.
pub open spec fn edc16_correct_entry(r: RegionResult, d: Seq<u8>, k: int) -> bool {
    let reg = edc16_region_spec(k);
    let before = edc16_fix_upto(d, k as nat);
    &&& r.name@ == reg.name@
    &&& r.block == 0
    &&& r.cs_offset == reg.cs_offset
    &&& r.original_cs == spec_read_u32_le(before, reg.cs_offset as int)
    &&& r.was_valid == crc_region_valid(before, reg)
    &&& r.corrected_cs == if r.was_valid {
        r.original_cs
    } else {
        crc_fix_word(before, reg)
    }
    &&& r.is_valid
    &&& r.method@ == "CRC32"@
}

fn correct_edc16_crc32(data: &[u8]) -> (c: CorrectedCal)
    requires
        data@.len() == EDC16_FLASH_SIZE,
    ensures
        c.data@ == edc16_fix_upto(data@, 7),
        c.report.regions.len() == 7,
        forall|i: int| 0 <= i < 7 ==> edc16_correct_entry(#[trigger] c.report.regions@[i], data@, i),
        c.report.valid_count == count_valid(c.report.regions@),
        c.report.fixed_count == count_invalid(c.report.regions@),
        c.report.failed_count == 0,
        c.report.all_valid,
        c.report.ecu_family@ == "EDC16C41"@,
        c.report.method_used@ == "CRC32 multipoint"@,
{
    let mut buf = vstd::slice::slice_to_vec(data);
    let mut results: Vec<RegionResult> = Vec::new();
    let mut valid_count: usize = 0;
    let mut fixed_count: usize = 0;
    let mut k: usize = 0;
    while k < 7
        invariant
            data@.len() == EDC16_FLASH_SIZE,
            k <= 7,
            edc16_fix_upto(data@, k as nat) == buf@,
            buf@.len() == EDC16_FLASH_SIZE,
            results.len() == k,
            forall|i: int| 0 <= i < k ==> edc16_correct_entry(#[trigger] results@[i], data@, i),
            valid_count == count_valid(results@),
            fixed_count == count_invalid(results@),
        decreases 7 - k,
    {
        let region = edc16_region(k);
        let original_cs = read_u32_le(buf.as_slice(), region.cs_offset);
        let was_valid = validate_crc32_region(buf.as_slice(), &region);
        proof {
            lemma_counts_bound(results@);
        }
        let corrected_cs: u32;
        if was_valid {
            valid_count += 1;
            corrected_cs = original_cs;
        } else {
            corrected_cs = correct_crc32_region(&mut buf, &region);
            fixed_count += 1;
        }
        let entry = RegionResult {
            name: str_to_string(region.name),
            block: 0,
            cs_offset: region.cs_offset,
            original_cs,
            corrected_cs,
            was_valid,
            is_valid: true,
            method: str_to_string("CRC32"),
        };
        let ghost old_results = results@;
        results.push(entry);
        proof {
            assert(results@.drop_last() == old_results);
            lemma_fix_upto(data@, (k + 1) as nat);
        }
        k += 1;
    }
    CorrectedCal {
        data: buf,
        report: ChecksumReport {
            regions: results,
            valid_count,
            fixed_count,
            failed_count: 0,
            all_valid: true,
            ecu_family: str_to_string("EDC16C41"),
            method_used: str_to_string("CRC32 multipoint"),
        },
    }
}


// ── Public API ────────────────────────────────────────────────────────────────

pub open spec fn honda_report_method() -> Seq<char> {
    "report-only: Honda OS on P01-sized image \u{2014} P01 additive blocked"@
}

pub open spec fn unknown_report_method(len: nat) -> Seq<char> {
    "report-only: no verified corrector for "@ + dec(len) + " bytes"@
}

/// A report with no regions: nothing was checked and nothing is claimed valid.
pub open spec fn empty_report(res: ChecksumReport, family: Seq<char>, method: Seq<char>) -> bool {
    &&& res.regions.len() == 0
    &&& res.valid_count == 0
    &&& res.fixed_count == 0
    &&& res.failed_count == 0
    &&& !res.all_valid
    &&& res.ecu_family@ == family
    &&& res.method_used@ == method
}

/// What `validate_checksums` reports for image `d`.
pub open spec fn validate_spec(d: Seq<u8>, res: ChecksumReport) -> bool {
    if spec_honda_blocks_p01(d) {
        empty_report(res, "HONDA_KEIHIN"@, honda_report_method())
    } else if spec_is_p01_size(d.len() as int) {
        &&& res.regions.len() == 8 * (d.len() as int / BLOCK_SIZE as int)
        &&& forall|i: int| 0 <= i < res.regions.len() ==> p01_validate_entry(#[trigger] res.regions@[i], d, i)
        &&& res.valid_count == count_valid(res.regions@)
        &&& res.failed_count == count_invalid(res.regions@)
        &&& res.fixed_count == 0
        &&& res.all_valid == (res.failed_count == 0)
        &&& res.ecu_family@ == "P01_0411"@
        &&& res.method_used@ == "Additive16"@
    } else if d.len() == EDC16_FLASH_SIZE {
        &&& res.regions.len() == 7
        &&& forall|i: int| 0 <= i < res.regions.len() ==> edc16_validate_entry(#[trigger] res.regions@[i], d, i)
        &&& res.valid_count == count_valid(res.regions@)
        &&& res.failed_count == count_invalid(res.regions@)
        &&& res.fixed_count == 0
        &&& res.all_valid == (res.failed_count == 0)
        &&& res.ecu_family@ == "EDC16C41"@
        &&& res.method_used@ == "CRC32 multipoint"@
    } else {
        empty_report(res, "UNKNOWN"@, unknown_report_method(d.len()))
    }
}

/// Every checksummed region of image `d` is valid (and the image is of a
/// supported, non-Honda kind).
pub open spec fn spec_all_valid(d: Seq<u8>) -> bool {
    &&& !spec_honda_blocks_p01(d)
    &&& if spec_is_p01_size(d.len() as int) {
        forall|b: int, k: int|
            0 <= b < d.len() as int / BLOCK_SIZE as int && 0 <= k < 8 ==> #[trigger] p01_region_valid(d, b, k)
    } else if d.len() == EDC16_FLASH_SIZE {
        forall|k: int| 0 <= k < 7 ==> #[trigger] crc_region_valid(d, edc16_region_spec(k))
    } else {
        false
    }
}

/// What a successful `correct_checksums` returns for image `d`.
pub open spec fn correct_ok_spec(d: Seq<u8>, c: CorrectedCal) -> bool {
    if spec_is_p01_size(d.len() as int) {
        let blocks = d.len() as int / BLOCK_SIZE as int;
        &&& p01_fix_progress(c.data@, d, blocks, 8 * blocks)
        &&& c.report.regions.len() == 8 * blocks
        &&& p01_entries(c.report.regions@, d, c.data@)
        &&& c.report.valid_count == count_valid(c.report.regions@)
        &&& c.report.fixed_count == count_invalid(c.report.regions@)
        &&& c.report.failed_count == 0
        &&& c.report.all_valid
        &&& c.report.ecu_family@ == "P01_0411"@
        &&& c.report.method_used@ == "Additive16"@
    } else {
        &&& c.data@ == edc16_fix_upto(d, 7)
        &&& c.report.regions.len() == 7
        &&& forall|i: int| 0 <= i < 7 ==> edc16_correct_entry(#[trigger] c.report.regions@[i], d, i)
        &&& c.report.valid_count == count_valid(c.report.regions@)
        &&& c.report.fixed_count == count_invalid(c.report.regions@)
        &&& c.report.failed_count == 0
        &&& c.report.all_valid
        &&& c.report.ecu_family@ == "EDC16C41"@
        &&& c.report.method_used@ == "CRC32 multipoint"@
    }
}

/// When `correct_checksums` succeeds on image `d`, and with which error it fails.
pub open spec fn correct_spec(d: Seq<u8>, res: Result<CorrectedCal, String>) -> bool {
    if spec_honda_blocks_p01(d) {
        res matches Err(m) && m@ == "Honda OS string on this image. P01 additive correction is blocked."@
    } else if spec_is_p01_size(d.len() as int) {
        res matches Ok(c) && correct_ok_spec(d, c)
    } else if d.len() == EDC16_FLASH_SIZE {
        res matches Ok(c) && correct_ok_spec(d, c)
    } else {
        res matches Err(m) && m@ == "Unsupported size for correction: "@ + dec(d.len())
    }
}

proof fn lemma_count_invalid_zero(s: Seq<RegionResult>)
    ensures
        (count_invalid(s) == 0) == (forall|i: int| 0 <= i < s.len() ==> (#[trigger] s[i]).was_valid),
    decreases s.len(),
{
    if s.len() > 0 {
        lemma_count_invalid_zero(s.drop_last());
        if count_invalid(s) == 0 {
            assert forall|i: int| 0 <= i < s.len() implies (#[trigger] s[i]).was_valid by {
                if i < s.len() - 1 {
                    assert(s[i] == s.drop_last()[i]);
                }
            }
        } else if count_invalid(s.drop_last()) != 0 {
            let j = choose|j: int| 0 <= j < s.drop_last().len() && !s.drop_last()[j].was_valid;
            assert(s[j] == s.drop_last()[j]);
        }
    }
}

/// A validation report says `all_valid` exactly when every region is valid.
proof fn lemma_validate_all_valid(d: Seq<u8>, res: ChecksumReport)
    requires
        validate_spec(d, res),
    ensures
        res.all_valid == spec_all_valid(d),
{
    lemma_count_invalid_zero(res.regions@);
    if !spec_honda_blocks_p01(d) && spec_is_p01_size(d.len() as int) {
        let blocks = d.len() as int / BLOCK_SIZE as int;
        if res.all_valid {
            assert forall|b: int, k: int| 0 <= b < blocks && 0 <= k < 8 implies #[trigger] p01_region_valid(d, b, k) by {
                let i = 8 * b + k;
                assert(i / 8 == b && i % 8 == k);
                assert(p01_validate_entry(res.regions@[i], d, i));
            }
        } else {
            let i = choose|i: int| 0 <= i < res.regions.len() && !(#[trigger] res.regions@[i]).was_valid;
            assert(p01_validate_entry(res.regions@[i], d, i));
            assert(!p01_region_valid(d, i / 8, i % 8));
        }
    } else if !spec_honda_blocks_p01(d) && d.len() == EDC16_FLASH_SIZE {
        if res.all_valid {
            assert forall|k: int| 0 <= k < 7 implies #[trigger] crc_region_valid(d, edc16_region_spec(k)) by {
                assert(edc16_validate_entry(res.regions@[k], d, k));
            }
        } else {
            let i = choose|i: int| 0 <= i < res.regions.len() && !(#[trigger] res.regions@[i]).was_valid;
            assert(edc16_validate_entry(res.regions@[i], d, i));
        }
    }
}

/// Validates the checksums of a P01 (128/512 KiB) or EDC16C41 (2 MiB) image.
/// Other sizes, and Honda images of P01 size, get a report-only answer.
pub fn validate_checksums(data: &[u8]) -> (res: Result<ChecksumReport, String>)
    ensures
        res matches Ok(r) && validate_spec(data@, r),
        res matches Ok(r) && r.all_valid == spec_all_valid(data@),
{
    if honda_blocks_p01_corrector(data) {
        return Ok(
            ChecksumReport {
                regions: Vec::new(),
                valid_count: 0,
                fixed_count: 0,
                failed_count: 0,
                all_valid: false,
                ecu_family: str_to_string("HONDA_KEIHIN"),
                method_used: str_to_string(
                    "report-only: Honda OS on P01-sized image \u{2014} P01 additive blocked",
                ),
            },
        );
    }
    let r = if is_p01_size(data.len()) {
        validate_p01_checksums(data)
    } else if data.len() == EDC16_FLASH_SIZE {
        validate_edc16_crc32(data)
    } else {
        let mut method = str_to_string("report-only: no verified corrector for ");
        push_dec(&mut method, data.len() as u64);
        push_str(&mut method, " bytes");
        ChecksumReport {
            regions: Vec::new(),
            valid_count: 0,
            fixed_count: 0,
            failed_count: 0,
            all_valid: false,
            ecu_family: str_to_string("UNKNOWN"),
            method_used: method,
        }
    };
    proof {
        lemma_validate_all_valid(data@, r);
    }
    Ok(r)
}

/// Rewrites the checksum words of a P01 or EDC16C41 image so that every region
/// validates; fails for Honda images of P01 size and for other sizes.
pub fn correct_checksums(data: &[u8]) -> (res: Result<CorrectedCal, String>)
    ensures
        correct_spec(data@, res),
{
    if honda_blocks_p01_corrector(data) {
        return Err(str_to_string("Honda OS string on this image. P01 additive correction is blocked."));
    }
    if is_p01_size(data.len()) {
        correct_p01_checksums(data)
    } else if data.len() == EDC16_FLASH_SIZE {
        Ok(correct_edc16_crc32(data))
    } else {
        let mut msg = str_to_string("Unsupported size for correction: ");
        push_dec(&mut msg, data.len() as u64);
        Err(msg)
    }
}

/// What `correct_and_validate_checksums` returns for image `d`.
pub open spec fn correct_and_validate_spec(d: Seq<u8>, res: Result<CorrectedCal, String>) -> bool {
    &&& spec_all_valid(d) ==> (res matches Ok(c) && c.data@ == d && validate_spec(d, c.report)
        && c.report.all_valid)
    &&& !spec_all_valid(d) ==> correct_spec(d, res)
}

/// Returns the image unchanged with its validation report when every region
/// already validates; otherwise behaves as `correct_checksums`.
pub fn correct_and_validate_checksums(data: &[u8]) -> (res: Result<CorrectedCal, String>)
    ensures
        correct_and_validate_spec(data@, res),
{
    let pre = match validate_checksums(data) {
        Ok(p) => p,
        Err(e) => return Err(e),
    };
    if pre.all_valid {
        return Ok(
            CorrectedCal {
                data: vstd::slice::slice_to_vec(data),
                report: ChecksumReport {
                    regions: pre.regions,
                    valid_count: pre.valid_count,
                    fixed_count: 0,
                    failed_count: 0,
                    all_valid: true,
                    ecu_family: pre.ecu_family,
                    method_used: pre.method_used,
                },
            },
        );
    }
    correct_checksums(data)
}


// ── Laws ──────────────────────────────────────────────────────────────────────

/// Validating first and correcting only when needed: on an image whose
/// validation report is all valid the image comes back unchanged with that
/// report's counts and nothing rewritten; on any other image the answer is the
/// corrector's own.
pub proof fn law_correct_and_validate_is_correction(
    d: Seq<u8>,
    v: ChecksumReport,
    res: Result<CorrectedCal, String>,
)
    requires
        validate_spec(d, v),
        correct_and_validate_spec(d, res),
    ensures
        v.all_valid ==> (res matches Ok(c) && {
            &&& c.data@ == d
            &&& c.report.all_valid
            &&& c.report.fixed_count == 0
            &&& c.report.failed_count == 0
            &&& c.report.valid_count == v.valid_count
            &&& c.report.regions.len() == v.regions.len()
            &&& forall|i: int|
                0 <= i < c.report.regions.len() ==> (#[trigger] c.report.regions@[i]).corrected_cs
                    == c.report.regions@[i].original_cs
        }),
        !v.all_valid ==> correct_spec(d, res),
{
    lemma_validate_all_valid(d, v);
    if v.all_valid {
        let c = res->Ok_0;
        lemma_validate_all_valid(d, c.report);
        lemma_counts_bound(v.regions@);
        lemma_counts_bound(c.report.regions@);
        if spec_is_p01_size(d.len() as int) {
            assert forall|i: int| 0 <= i < c.report.regions.len() implies (
            #[trigger] c.report.regions@[i]).corrected_cs == c.report.regions@[i].original_cs by {
                assert(p01_validate_entry(c.report.regions@[i], d, i));
            }
        } else {
            assert forall|i: int| 0 <= i < c.report.regions.len() implies (
            #[trigger] c.report.regions@[i]).corrected_cs == c.report.regions@[i].original_cs by {
                assert(edc16_validate_entry(c.report.regions@[i], d, i));
            }
        }
    }
}

/// EDC16C41 correction always succeeds: it rewrites only the seven checksum
/// slots, keeps the length, and validating the corrected image reports every
/// region valid.
pub proof fn law_edc16_correction_validates(d: Seq<u8>, c: CorrectedCal, rep: ChecksumReport)
    requires
        d.len() == EDC16_FLASH_SIZE,
        correct_ok_spec(d, c),
        validate_spec(c.data@, rep),
    ensures
        c.data@.len() == d.len(),
        forall|i: int| 0 <= i < d.len() && !edc16_cs_byte(i) ==> c.data@[i] == d[i],
        spec_all_valid(c.data@),
        rep.all_valid,
        rep.failed_count == 0,
{
    lemma_fix_upto(d, 7);
    lemma_validate_all_valid(c.data@, rep);
    assert forall|k: int| 0 <= k < 7 implies #[trigger] crc_region_valid(c.data@, edc16_region_spec(k)) by {
    }
}

/// Correction of a 2 MiB image never fails.
pub proof fn law_edc16_correction_succeeds(d: Seq<u8>, res: Result<CorrectedCal, String>)
    requires
        d.len() == EDC16_FLASH_SIZE,
        correct_spec(d, res),
    ensures
        res is Ok,
{
}

/// P01 correction only rewrites checksum words: every byte outside the eight
/// checksum words of each block is left as it was, and the length is kept.
pub proof fn law_p01_correction_touches_only_checksum_words(d: Seq<u8>, c: CorrectedCal)
    requires
        spec_is_p01_size(d.len() as int),
        correct_ok_spec(d, c),
    ensures
        c.data@.len() == d.len(),
        forall|i: int| 0 <= i < d.len() && !p01_cs_byte(i % BLOCK_SIZE as int) ==> c.data@[i] == d[i],
{
    reveal(p01_fix_progress);
}

/// After P01 correction every additive region of every block sums to zero, so
/// validating the corrected image reports all regions valid (unless the new
/// checksum bytes themselves turn the image into a Honda-looking one).
pub proof fn law_p01_correction_validates(d: Seq<u8>, c: CorrectedCal, rep: ChecksumReport)
    requires
        spec_is_p01_size(d.len() as int),
        !spec_honda_blocks_p01(d),
        correct_ok_spec(d, c),
        !spec_honda_blocks_p01(c.data@),
        validate_spec(c.data@, rep),
    ensures
        spec_all_valid(c.data@),
        rep.all_valid,
        rep.failed_count == 0,
{
    reveal(p01_fix_progress);
    let blocks = d.len() as int / BLOCK_SIZE as int;
    assert(c.data@.len() == d.len());
    assert forall|b: int, k: int| 0 <= b < blocks && 0 <= k < 8 implies #[trigger] p01_region_valid(c.data@, b, k) by {
        assert(8 * b + k < 8 * blocks);
    }
    lemma_validate_all_valid(c.data@, rep);
}

/// A P01 image whose regions all validate is returned unchanged by correction,
/// with nothing reported as fixed.
pub proof fn law_p01_valid_image_is_fixed_point(d: Seq<u8>, c: CorrectedCal)
    requires
        spec_is_p01_size(d.len() as int),
        spec_all_valid(d),
        correct_ok_spec(d, c),
    ensures
        c.data@ == d,
        c.report.fixed_count == 0,
{
    reveal(p01_fix_progress);
    reveal(p01_entries);
    let blocks = d.len() as int / BLOCK_SIZE as int;
    assert(blocks * BLOCK_SIZE == d.len());
    assert forall|i: int| 0 <= i < d.len() implies c.data@[i] == d[i] by {
        let o = i % BLOCK_SIZE as int;
        let b = i / BLOCK_SIZE as int;
        assert(i == b * BLOCK_SIZE + o);
        assert(0 <= b < blocks);
        if p01_cs_byte(o) {
            let k: int = if o == 0x3FFE || o == 0x3FFF {
                0
            } else if o == 0x7FFE || o == 0x7FFF {
                1
            } else if o == 0xBFFE || o == 0xBFFF {
                2
            } else if o == 0xEFFE || o == 0xEFFF {
                3
            } else if o == 0xF3FE || o == 0xF3FF {
                4
            } else if o == 0xF7FE || o == 0xF7FF {
                5
            } else if o == 0xFBFE || o == 0xFBFF {
                6
            } else {
                7
            };
            assert(p01_region_valid(d, b, k));
            assert(p01_region_same(c.data@, d, b, k));
            assert(c.data@[b * BLOCK_SIZE + o] == d[b * BLOCK_SIZE + o]);
        }
    }
    assert(c.data@ =~= d);
    assert forall|i: int| 0 <= i < c.report.regions.len() implies (#[trigger] c.report.regions@[i]).was_valid by {
        assert(p01_correct_entry(c.report.regions@[i], d, c.data@, i));
        assert(p01_region_valid(d, i / 8, i % 8));
    }
    lemma_count_invalid_zero(c.report.regions@);
}

/// Correcting a corrected P01 image changes nothing.
pub proof fn law_p01_correction_idempotent(d: Seq<u8>, c1: CorrectedCal, c2: CorrectedCal)
    requires
        spec_is_p01_size(d.len() as int),
        !spec_honda_blocks_p01(d),
        correct_ok_spec(d, c1),
        !spec_honda_blocks_p01(c1.data@),
        correct_ok_spec(c1.data@, c2),
    ensures
        c2.data@ == c1.data@,
        c2.report.fixed_count == 0,
{
    reveal(p01_fix_progress);
    let blocks = d.len() as int / BLOCK_SIZE as int;
    assert(c1.data@.len() == d.len());
    assert forall|b: int, k: int| 0 <= b < blocks && 0 <= k < 8 implies #[trigger] p01_region_valid(c1.data@, b, k) by {
        assert(8 * b + k < 8 * blocks);
    }
    assert(spec_all_valid(c1.data@));
    law_p01_valid_image_is_fixed_point(c1.data@, c2);
}


// ── Text summary ──────────────────────────────────────────────────────────────

pub open spec fn bool_text(b: bool) -> Seq<char> {
    if b {
        "true"@
    } else {
        "false"@
    }
}

/// One region line of the summary.
pub open spec fn summary_line(r: RegionResult) -> Seq<char> {
    "  "@ + (if r.is_valid {
        "OK"@
    } else {
        "BAD"@
    }) + " @0x"@ + crate::text::hex_pad(r.cs_offset as nat, 6) + ": orig=0x"@ + crate::text::hex_pad(
        r.original_cs as nat,
        8,
    ) + " corr=0x"@ + crate::text::hex_pad(r.corrected_cs as nat, 8) + " ["@ + r.method@
        + "] (was valid: "@ + bool_text(r.was_valid) + ")\n"@
}

pub open spec fn summary_lines(s: Seq<RegionResult>) -> Seq<char>
    decreases s.len(),
{
    if s.len() == 0 {
        Seq::empty()
    } else {
        summary_lines(s.drop_last()) + summary_line(s.last())
    }
}

/// The text summary of a validation report for an image of `len` bytes.
pub open spec fn summary_text(rep: ChecksumReport, len: nat) -> Seq<char> {
    "Checksum validation for "@ + rep.ecu_family@ + " ("@ + dec(len) + " bytes) using "@
        + rep.method_used@ + "\n"@ + "Regions checked: "@ + dec(rep.regions@.len()) + "\n"@
        + "Valid: "@ + dec(rep.valid_count as nat) + " | Fixed needed: "@ + dec(rep.fixed_count as nat)
        + " | Failed: "@ + dec(rep.failed_count as nat) + "\n"@ + (if rep.all_valid {
        "OK All checksums VALID\n"@
    } else {
        "WARN Some checksums INVALID - use correct_checksums() only when a verified routine exists\n"@
    }) + summary_lines(rep.regions@)
}

fn push_bool(s: &mut String, b: bool)
    ensures
        final(s)@ == old(s)@ + bool_text(b),
{
    if b {
        push_str(s, "true");
    } else {
        push_str(s, "false");
    }
}

fn push_summary_line(summary: &mut String, r: &RegionResult)
    ensures
        final(summary)@ == old(summary)@ + summary_line(*r),
{
    let ghost s0 = summary@;
    push_str(summary, "  ");
    if r.is_valid {
        push_str(summary, "OK");
    } else {
        push_str(summary, "BAD");
    }
    push_str(summary, " @0x");
    crate::text::push_hex_pad(summary, r.cs_offset as u64, 6);
    push_str(summary, ": orig=0x");
    crate::text::push_hex_pad(summary, r.original_cs as u64, 8);
    push_str(summary, " corr=0x");
    crate::text::push_hex_pad(summary, r.corrected_cs as u64, 8);
    push_str(summary, " [");
    push_str(summary, r.method.as_str());
    push_str(summary, "] (was valid: ");
    push_bool(summary, r.was_valid);
    push_str(summary, ")\n");
    assert(summary@ =~= s0 + summary_line(*r));
}

/// Human-readable checksum validation summary, one line per region.
pub fn validate_bin_checksums_summary(data: &[u8]) -> (res: Result<String, String>)
    ensures
        res matches Ok(m) && exists|rep: ChecksumReport| validate_spec(data@, rep) && m@ == summary_text(rep, data@.len()),
{
    let report = match validate_checksums(data) {
        Ok(r) => r,
        Err(e) => return Err(e),
    };
    let mut summary = str_to_string("Checksum validation for ");
    push_str(&mut summary, report.ecu_family.as_str());
    push_str(&mut summary, " (");
    push_dec(&mut summary, data.len() as u64);
    push_str(&mut summary, " bytes) using ");
    push_str(&mut summary, report.method_used.as_str());
    push_str(&mut summary, "\n");
    push_str(&mut summary, "Regions checked: ");
    push_dec(&mut summary, report.regions.len() as u64);
    push_str(&mut summary, "\n");
    push_str(&mut summary, "Valid: ");
    push_dec(&mut summary, report.valid_count as u64);
    push_str(&mut summary, " | Fixed needed: ");
    push_dec(&mut summary, report.fixed_count as u64);
    push_str(&mut summary, " | Failed: ");
    push_dec(&mut summary, report.failed_count as u64);
    push_str(&mut summary, "\n");
    if report.all_valid {
        push_str(&mut summary, "OK All checksums VALID\n");
    } else {
        push_str(
            &mut summary,
            "WARN Some checksums INVALID - use correct_checksums() only when a verified routine exists\n",
        );
    }
    let ghost head = summary@;
    let mut i: usize = 0;
    while i < report.regions.len()
        invariant
            i <= report.regions.len(),
            summary@ == head + summary_lines(report.regions@.take(i as int)),
        decreases report.regions.len() - i,
    {
        push_summary_line(&mut summary, &report.regions[i]);
        proof {
            assert(report.regions@.take(i + 1).drop_last() == report.regions@.take(i as int));
            assert(report.regions@.take(i + 1).last() == report.regions@[i as int]);
            assert(summary@ =~= head + summary_lines(report.regions@.take(i + 1)));
        }
        i += 1;
    }
    proof {
        assert(report.regions@.take(report.regions.len() as int) == report.regions@);
        assert(summary@ =~= summary_text(report, data@.len()));
    }
    Ok(summary)
}

} // verus!
