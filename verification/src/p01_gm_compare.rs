//! Compares the P01 LFSR keys of a seed with the GM public 2-byte table
//! algorithms: one algorithm, or a scan of all 1024.
use vstd::prelude::*;
use crate::bytes::{be16, from_be16, hi8, lo8};
use crate::gm_keys::{gm_2byte_key, spec_gm_key, table_count};
use crate::security::{p01_key_l1, p01_key_l2, spec_p01_key, SecurityLevel};
use crate::text::{
    dec, hex_digit_chars, hex_digits, hex_pad, hex_val, is_hex_char, push_dec, push_hex_pad,
    push_str, str_to_string, hex_value, lemma_hex_digits_all_hex,
};

verus! {

pub const ALGO_MAX: u16 = 0x3FF;
pub const LIST_CAP: usize = 32;

/// The comparison report.
#[derive(Clone, Debug)]
pub struct P01GmCompare {
    pub seed: u16,
    pub seed_hex: String,
    pub lfsr_l1: u16,
    pub lfsr_l1_hex: String,
    pub lfsr_l2: u16,
    pub lfsr_l2_hex: String,
    pub gm_algo: Option<u16>,
    pub gm_key: Option<u16>,
    pub gm_key_hex: Option<String>,
    pub match_l1: bool,
    pub match_l2: bool,
    pub scanned: bool,
    pub scan_l1_algos: Vec<u16>,
    pub scan_l2_algos: Vec<u16>,
    pub scan_l1_count: usize,
    pub scan_l2_count: usize,
    pub scan_truncated: bool,
    pub gm_table_count: usize,
    pub note: String,
}

/// `{:04X}`.
pub fn hex4(v: u16) -> (s: String)
    ensures
        s@ == hex_pad(v as nat, 4),
{
    let mut s = String::new();
    push_hex_pad(&mut s, v as u64, 4);
    s
}

/// The 16-bit value of the first four hex digits.
pub open spec fn first4_value(h: Seq<char>) -> u16 {
    (hex_val(h[0]) * 4096 + hex_val(h[1]) * 256 + hex_val(h[2]) * 16 + hex_val(h[3])) as u16
}

pub open spec fn spec_parse_seed_hex(s: Seq<char>) -> Result<u16, Seq<char>> {
    let h = hex_digits(s);
    if h.len() < 4 {
        Err("seed_hex must be at least 4 hex digits (2 bytes)"@)
    } else {
        Ok(first4_value(h))
    }
}

/// The seed: the first four hex digits of the text (other characters ignored).
pub fn parse_seed_hex(seed_hex: &str) -> (r: Result<u16, String>)
    ensures
        spec_parse_seed_hex(seed_hex@) matches Ok(v) ==> r == Ok::<u16, String>(v),
        spec_parse_seed_hex(seed_hex@) matches Err(m) ==> (r matches Err(e) && e@ == m),
{
    let h = hex_digit_chars(seed_hex);
    if h.len() < 4 {
        return Err(str_to_string("seed_hex must be at least 4 hex digits (2 bytes)"));
    }
    let a = hex_value(h[0]) as u16;
    let b = hex_value(h[1]) as u16;
    let c = hex_value(h[2]) as u16;
    let d = hex_value(h[3]) as u16;
    Ok(a * 4096 + b * 256 + c * 16 + d)
}

/// The P01 key word of a seed at a level.
pub open spec fn p01_word(seed: u16, level: SecurityLevel) -> u16 {
    let k = spec_p01_key(hi8(seed), lo8(seed), level);
    be16(k.0, k.1)
}

/// Algorithms below `n` whose key for `seed` is `target`, in order.
pub open spec fn match_list(tables: Seq<[u8; 13]>, seed: u16, target: u16, n: nat) -> Seq<u16>
    decreases n,
{
    if n == 0 {
        Seq::empty()
    } else {
        let prev = match_list(tables, seed, target, (n - 1) as nat);
        if spec_gm_key(tables, (n - 1) as u16, seed) == target {
            prev.push((n - 1) as u16)
        } else {
            prev
        }
    }
}

pub open spec fn capped(s: Seq<u16>) -> Seq<u16> {
    if s.len() <= 32 {
        s
    } else {
        s.take(32)
    }
}

pub open spec fn scan_note(l1_hex: Seq<char>, c1: nat, l2_hex: Seq<char>, c2: nat) -> Seq<char> {
    "Scanned algos 0.."@ + dec(1023) + ". L1 LFSR 0x"@ + l1_hex + " matches "@ + dec(c1)
        + " index(es). L2 LFSR 0x"@ + l2_hex + " matches "@ + dec(c2)
        + " index(es). Empty match list means this PCM is not using a public 2-byte table for that level."@
}

pub open spec fn single_note(a: u16, seed_hex: Seq<char>, gm: u16, l1: u16, l2: u16) -> Seq<char> {
    if gm == l1 && gm == l2 {
        "Algo "@ + dec(a as nat) + " matches both P01 L1 and L2 LFSR for seed 0x"@ + seed_hex + "."@
    } else if gm == l1 {
        "Algo "@ + dec(a as nat) + " matches P01 L1 LFSR only (read/DTC). L2 flash key differs."@
    } else if gm == l2 {
        "Algo "@ + dec(a as nat) + " matches P01 L2 LFSR only (flash). L1 read key differs."@
    } else {
        "Algo "@ + dec(a as nat) + " key 0x"@ + hex_pad(gm as nat, 4) + " matches neither L1 0x"@
            + hex_pad(l1 as nat, 4) + " nor L2 0x"@ + hex_pad(l2 as nat, 4)
            + ". Pass scan=true to search 0.."@ + dec(1023) + "."@
    }
}

/// The fields every report carries.
pub open spec fn report_base_ok(r: P01GmCompare, tables: Seq<[u8; 13]>, seed: u16) -> bool {
    &&& r.seed == seed
    &&& r.seed_hex@ == hex_pad(seed as nat, 4)
    &&& r.lfsr_l1 == p01_word(seed, SecurityLevel::Level1)
    &&& r.lfsr_l1_hex@ == hex_pad(r.lfsr_l1 as nat, 4)
    &&& r.lfsr_l2 == p01_word(seed, SecurityLevel::Level2)
    &&& r.lfsr_l2_hex@ == hex_pad(r.lfsr_l2 as nat, 4)
    &&& r.gm_table_count == tables.len()
}

/// A scan report.
pub open spec fn scan_report_ok(r: P01GmCompare, tables: Seq<[u8; 13]>, seed: u16) -> bool {
    let m1 = match_list(tables, seed, r.lfsr_l1, 1024);
    let m2 = match_list(tables, seed, r.lfsr_l2, 1024);
    &&& report_base_ok(r, tables, seed)
    &&& r.scanned
    &&& r.gm_algo is None && r.gm_key is None && r.gm_key_hex is None
    &&& !r.match_l1 && !r.match_l2
    &&& r.scan_l1_count == m1.len() && r.scan_l2_count == m2.len()
    &&& r.scan_l1_algos@ == capped(m1) && r.scan_l2_algos@ == capped(m2)
    &&& r.scan_truncated == (m1.len() > 32 || m2.len() > 32)
    &&& r.note@ == scan_note(r.lfsr_l1_hex@, m1.len(), r.lfsr_l2_hex@, m2.len())
}

/// A single-algorithm report.
pub open spec fn single_report_ok(r: P01GmCompare, tables: Seq<[u8; 13]>, seed: u16, a: u16) -> bool {
    let gm = spec_gm_key(tables, a, seed);
    &&& report_base_ok(r, tables, seed)
    &&& !r.scanned
    &&& r.gm_algo == Some(a) && r.gm_key == Some(gm)
    &&& (r.gm_key_hex matches Some(h) && h@ == hex_pad(gm as nat, 4))
    &&& r.match_l1 == (gm == r.lfsr_l1) && r.match_l2 == (gm == r.lfsr_l2)
    &&& r.scan_l1_algos@.len() == 0 && r.scan_l2_algos@.len() == 0
    &&& r.scan_l1_count == 0 && r.scan_l2_count == 0 && !r.scan_truncated
    &&& r.note@ == single_note(a, r.seed_hex@, gm, r.lfsr_l1, r.lfsr_l2)
}

fn p01_words(seed: u16) -> (r: (u16, u16))
    ensures
        r.0 == p01_word(seed, SecurityLevel::Level1),
        r.1 == p01_word(seed, SecurityLevel::Level2),
{
    let hi = (seed >> 8) as u8;
    let lo = (seed & 0xFF) as u8;
    assert(hi == hi8(seed) && lo == lo8(seed)) by (bit_vector)
        requires
            hi == (seed >> 8) as u8,
            lo == (seed & 0xFF) as u8,
    ;
    let (a, b) = p01_key_l1(hi, lo);
    let (c, d) = p01_key_l2(hi, lo);
    (from_be16(a, b), from_be16(c, d))
}

/// Compares the P01 keys of the seed in `seed_hex` with GM algorithm `algo`
/// (0 when absent), or with all algorithms when `scan` is set.
pub fn compare(tables: &[[u8; 13]], seed_hex: &str, algo: Option<u16>, scan: bool) -> (r: Result<
    P01GmCompare,
    String,
>)
    ensures
        spec_parse_seed_hex(seed_hex@) matches Err(m) ==> (r matches Err(e) && e@ == m),
        spec_parse_seed_hex(seed_hex@) matches Ok(seed) ==> {
            if scan {
                r matches Ok(c) && scan_report_ok(c, tables@, seed)
            } else {
                let a: u16 = match algo {
                    Some(x) => x,
                    None => 0,
                };
                &&& a > 0x3FF ==> (r matches Err(e) && e@ == "GM 2-byte algo must be 0.."@ + dec(1023))
                &&& a <= 0x3FF ==> (r matches Ok(c) && single_report_ok(c, tables@, seed, a))
            }
        },
{
    let seed = match parse_seed_hex(seed_hex) {
        Ok(s) => s,
        Err(e) => return Err(e),
    };
    let (lfsr_l1, lfsr_l2) = p01_words(seed);
    let mut out = P01GmCompare {
        seed,
        seed_hex: hex4(seed),
        lfsr_l1,
        lfsr_l1_hex: hex4(lfsr_l1),
        lfsr_l2,
        lfsr_l2_hex: hex4(lfsr_l2),
        gm_algo: None,
        gm_key: None,
        gm_key_hex: None,
        match_l1: false,
        match_l2: false,
        scanned: false,
        scan_l1_algos: Vec::new(),
        scan_l2_algos: Vec::new(),
        scan_l1_count: 0,
        scan_l2_count: 0,
        scan_truncated: false,
        gm_table_count: table_count(tables),
        note: String::new(),
    };
    if scan {
        out.scanned = true;
        let mut more = false;
        let mut a: u16 = 0;
        while a <= ALGO_MAX
            invariant
                a <= 1024,
                report_base_ok(out, tables@, seed),
                out.scanned,
                out.gm_algo is None && out.gm_key is None && out.gm_key_hex is None,
                !out.match_l1 && !out.match_l2,
                out.lfsr_l1 == lfsr_l1 && out.lfsr_l2 == lfsr_l2,
                out.scan_l1_count == match_list(tables@, seed, lfsr_l1, a as nat).len(),
                out.scan_l2_count == match_list(tables@, seed, lfsr_l2, a as nat).len(),
                out.scan_l1_algos@ == capped(match_list(tables@, seed, lfsr_l1, a as nat)),
                out.scan_l2_algos@ == capped(match_list(tables@, seed, lfsr_l2, a as nat)),
                more == (match_list(tables@, seed, lfsr_l1, a as nat).len() > 32 || match_list(
                    tables@,
                    seed,
                    lfsr_l2,
                    a as nat,
                ).len() > 32),
                out.scan_l1_count <= a && out.scan_l2_count <= a,
            decreases 1024 - a,
        {
            let k = gm_2byte_key(tables, a, seed);
            proof {
                assert(((a + 1) as nat - 1) as u16 == a);
            }
            if k == lfsr_l1 {
                let ghost m = match_list(tables@, seed, lfsr_l1, a as nat);
                out.scan_l1_count += 1;
                if out.scan_l1_algos.len() < LIST_CAP {
                    out.scan_l1_algos.push(a);
                } else {
                    more = true;
                }
                assert(capped(m.push(a)) == if m.len() < 32 { capped(m).push(a) } else { capped(m) });
            }
            if k == lfsr_l2 {
                let ghost m = match_list(tables@, seed, lfsr_l2, a as nat);
                out.scan_l2_count += 1;
                if out.scan_l2_algos.len() < LIST_CAP {
                    out.scan_l2_algos.push(a);
                } else {
                    more = true;
                }
                assert(capped(m.push(a)) == if m.len() < 32 { capped(m).push(a) } else { capped(m) });
            }
            a += 1;
        }
        out.scan_truncated = more;
        let mut note = str_to_string("Scanned algos 0..");
        push_dec(&mut note, ALGO_MAX as u64);
        push_str(&mut note, ". L1 LFSR 0x");
        push_str(&mut note, out.lfsr_l1_hex.as_str());
        push_str(&mut note, " matches ");
        push_dec(&mut note, out.scan_l1_count as u64);
        push_str(&mut note, " index(es). L2 LFSR 0x");
        push_str(&mut note, out.lfsr_l2_hex.as_str());
        push_str(&mut note, " matches ");
        push_dec(&mut note, out.scan_l2_count as u64);
        push_str(
            &mut note,
            " index(es). Empty match list means this PCM is not using a public 2-byte table for that level.",
        );
        out.note = note;
        return Ok(out);
    }
    let a = match algo {
        Some(x) => x,
        None => 0,
    };
    if a > ALGO_MAX {
        let mut e = str_to_string("GM 2-byte algo must be 0..");
        push_dec(&mut e, ALGO_MAX as u64);
        return Err(e);
    }
    let gm = gm_2byte_key(tables, a, seed);
    out.gm_algo = Some(a);
    out.gm_key = Some(gm);
    out.gm_key_hex = Some(hex4(gm));
    out.match_l1 = gm == lfsr_l1;
    out.match_l2 = gm == lfsr_l2;
    let mut note = str_to_string("Algo ");
    push_dec(&mut note, a as u64);
    if out.match_l1 && out.match_l2 {
        push_str(&mut note, " matches both P01 L1 and L2 LFSR for seed 0x");
        push_str(&mut note, out.seed_hex.as_str());
        push_str(&mut note, ".");
    } else if out.match_l1 {
        push_str(&mut note, " matches P01 L1 LFSR only (read/DTC). L2 flash key differs.");
    } else if out.match_l2 {
        push_str(&mut note, " matches P01 L2 LFSR only (flash). L1 read key differs.");
    } else {
        push_str(&mut note, " key 0x");
        push_hex_pad(&mut note, gm as u64, 4);
        push_str(&mut note, " matches neither L1 0x");
        push_str(&mut note, out.lfsr_l1_hex.as_str());
        push_str(&mut note, " nor L2 0x");
        push_str(&mut note, out.lfsr_l2_hex.as_str());
        push_str(&mut note, ". Pass scan=true to search 0..");
        push_dec(&mut note, ALGO_MAX as u64);
        push_str(&mut note, ".");
    }
    out.note = note;
    Ok(out)
}

} // verus!
