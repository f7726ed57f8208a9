//! GM P01 seed/key (Mode 27 over J1850 VPW) and Bosch UDS SecurityAccess (0x27)
//! helpers, including the EDC16C41 4-byte algorithm.
use vstd::prelude::*;
use crate::bytes::{
    be16, be32, be32_bytes, from_be16, from_be32, hi8, lo8, rotate_left8, rotate_right8, rotl8, rotr8,
    sum8, to_be16, to_be32,
};
use crate::frames::{frame_checksum_ok, push_checksum, validate_checksum};
use crate::text::{
    contains, contains_chars, dec, eq_chars, hex_pad, lower_seq, lower_vec, push_dec, push_hex_pad,
    push_str, str_chars, str_to_string, upper_seq, upper_vec,
};

verus! {

// ── Types ────────────────────────────────────────────────────────────────────

#[derive(Clone, Copy, Debug, PartialEq, Eq, Structural)]
pub enum SecurityLevel {
    /// Sub-functions 01/02: data read, DTC clear.
    Level1,
    /// Sub-functions 03/04: erase and flash programming.
    Level2,
}

#[derive(Clone, Copy, Debug)]
pub struct SecurityState {
    pub level: Option<SecurityLevel>,
    pub locked: bool,
    pub seed_hi: u8,
    pub seed_lo: u8,
}

impl Default for SecurityState {
    fn default() -> (s: Self)
        ensures
            s.level is None,
            s.locked,
            s.seed_hi == 0,
            s.seed_lo == 0,
    {
        SecurityState { level: None, locked: true, seed_hi: 0, seed_lo: 0 }
    }
}

// ── P01 LFSR seed/key ─────────────────────────────────────────────────────────

/// One shift of the P01 16-bit LFSR (polynomial 0x8005).
pub open spec fn lfsr_step(x: u16) -> u16 {
    if x & 0x8000u16 != 0 {
        ((x << 1u16) ^ 0x8005u16) as u16
    } else {
        (x << 1u16) as u16
    }
}

pub open spec fn lfsr_iter(x: u16, n: nat) -> u16
    decreases n,
{
    if n == 0 {
        x
    } else {
        lfsr_step(lfsr_iter(x, (n - 1) as nat))
    }
}

/// The P01 key word for `seed` at `level`: the seed shifted `(seed & 0xF) + 3`
/// times (level 1) or `+ 5` times and xored with 0x36A9 (level 2).
pub open spec fn spec_lfsr16_p01(seed: u16, level: SecurityLevel) -> u16 {
    let base: nat = match level {
        SecurityLevel::Level1 => 3,
        SecurityLevel::Level2 => 5,
    };
    let l = lfsr_iter(seed, (seed % 16) as nat + base);
    match level {
        SecurityLevel::Level1 => l,
        SecurityLevel::Level2 => l ^ 0x36A9u16,
    }
}

/// P01 key bytes for a seed; the zero seed gives the zero key at both
/// levels, and the all-ones seed gives the zero key at level 1.
pub open spec fn spec_p01_key(seed_hi: u8, seed_lo: u8, level: SecurityLevel) -> (u8, u8) {
    let seed = be16(seed_hi, seed_lo);
    if seed == 0 || (seed == 0xFFFF && level == SecurityLevel::Level1) {
        (0, 0)
    } else {
        let k = spec_lfsr16_p01(seed, level);
        (hi8(k), lo8(k))
    }
}

fn lfsr16_p01(seed: u16, level: SecurityLevel) -> (r: u16)
    ensures
        r == spec_lfsr16_p01(seed, level),
{
    let lo_nibble = (seed & 0x000F) as u32;
    assert(lo_nibble == seed % 16) by (bit_vector)
        requires
            lo_nibble == (seed & 0x000F) as u32,
    ;
    let base_iters: u32 = match level {
        SecurityLevel::Level1 => 3,
        SecurityLevel::Level2 => 5,
    };
    let iters = lo_nibble + base_iters;
    let mut lfsr = seed;
    let mut i: u32 = 0;
    while i < iters
        invariant
            i <= iters,
            lfsr == lfsr_iter(seed, i as nat),
        decreases iters - i,
    {
        if lfsr & 0x8000 != 0 {
            lfsr = (lfsr << 1) ^ 0x8005;
        } else {
            lfsr = lfsr << 1;
        }
        i += 1;
    }
    match level {
        SecurityLevel::Level2 => lfsr ^ 0x36A9,
        SecurityLevel::Level1 => lfsr,
    }
}

/// Level 1 key (read / diagnostic services).
pub fn p01_key_l1(seed_hi: u8, seed_lo: u8) -> (r: (u8, u8))
    ensures
        r == spec_p01_key(seed_hi, seed_lo, SecurityLevel::Level1),
{
    let seed = from_be16(seed_hi, seed_lo);
    if seed == 0 || seed == 0xFFFF {
        return (0, 0);
    }
    let key = lfsr16_p01(seed, SecurityLevel::Level1);
    to_be16(key)
}

/// Level 2 key (erase / flash programming).
pub fn p01_key_l2(seed_hi: u8, seed_lo: u8) -> (r: (u8, u8))
    ensures
        r == spec_p01_key(seed_hi, seed_lo, SecurityLevel::Level2),
{
    let seed = from_be16(seed_hi, seed_lo);
    if seed == 0 {
        return (0, 0);
    }
    let key = lfsr16_p01(seed, SecurityLevel::Level2);
    to_be16(key)
}

// ── What the P01 key is ─────────────────────────────────────────────────────

/// Multiplying a 16-bit register by `x` modulo the CRC-16 polynomial
/// x^16 + x^15 + x^2 + 1 (0x8005), in plain arithmetic: the register doubles,
/// and when its top bit falls out the low polynomial bits 0, 2 and 15 flip.
pub open spec fn crc16_times_x(x: nat) -> nat {
    if x < 0x8000 {
        2 * x
    } else {
        let y = 2 * x - 0x10000;
        (y + 1 + (if (y / 4) % 2 == 0 { 4int } else { -4int }) + (if y < 0x8000 { 0x8000int } else {
            -0x8000int
        })) as nat
    }
}

/// `x` multiplied by `x^n` modulo the CRC-16 polynomial.
pub open spec fn crc16_times_xn(x: nat, n: nat) -> nat
    decreases n,
{
    if n == 0 {
        x
    } else {
        crc16_times_x(crc16_times_xn(x, (n - 1) as nat))
    }
}

proof fn lemma_lfsr_step_is_times_x(x: u16)
    ensures
        lfsr_step(x) as nat == crc16_times_x(x as nat),
{
    if x < 0x8000 {
        assert(lfsr_step(x) as int == 2 * x) by (bit_vector)
            requires
                x < 0x8000,
        ;
    } else {
        let y: u16 = (2 * x - 0x10000) as u16;
        assert(lfsr_step(x) as int == y + 1 + (if (y / 4) % 2 == 0 { 4int } else { -4int }) + (if y < 0x8000 {
            0x8000int
        } else {
            -0x8000int
        })) by (bit_vector)
            requires
                x >= 0x8000,
                y == (2 * x - 0x10000) as u16,
        ;
    }
}

proof fn lemma_lfsr_iter_is_times_xn(x: u16, n: nat)
    ensures
        lfsr_iter(x, n) as nat == crc16_times_xn(x as nat, n),
    decreases n,
{
    if n > 0 {
        lemma_lfsr_iter_is_times_xn(x, (n - 1) as nat);
        lemma_lfsr_step_is_times_x(lfsr_iter(x, (n - 1) as nat));
    }
}

/// The P01 key word a seed gets: 0 for the zero seed (and at level 1 for the
/// all-ones seed); otherwise the seed multiplied by `x^n` modulo the CRC-16
/// polynomial 0x8005, with `n` its low nibble plus 3 (level 1) or plus 5
/// (level 2, then xored with 0x36A9).
pub open spec fn p01_key_word(seed: nat, level: SecurityLevel) -> nat {
    if seed == 0 || (seed == 0xFFFF && level == SecurityLevel::Level1) {
        0
    } else {
        match level {
            SecurityLevel::Level1 => crc16_times_xn(seed, seed % 16 + 3),
            SecurityLevel::Level2 => ((crc16_times_xn(seed, seed % 16 + 5) as u16) ^ 0x36A9u16) as nat,
        }
    }
}

/// Law: for every seed the P01 key bytes, read big-endian, are the seed run
/// through `(seed & 0xF) + 3` shifts (level 1) or `+ 5` shifts then xor
/// 0x36A9 (level 2) of the 16-bit LFSR with feedback polynomial 0x8005; the
/// zero seed (and at level 1 the all-ones seed) gives the zero key.
pub proof fn law_p01_key_is_crc16_lfsr(seed_hi: u8, seed_lo: u8, level: SecurityLevel)
    ensures
        spec_p01_key(seed_hi, seed_lo, level).0 as nat * 256 + spec_p01_key(seed_hi, seed_lo, level).1 as nat
            == p01_key_word(seed_hi as nat * 256 + seed_lo as nat, level),
{
    let seed = be16(seed_hi, seed_lo);
    assert(seed as nat == seed_hi as nat * 256 + seed_lo as nat);
    if !(seed == 0 || (seed == 0xFFFF && level == SecurityLevel::Level1)) {
        let base: nat = match level {
            SecurityLevel::Level1 => 3,
            SecurityLevel::Level2 => 5,
        };
        lemma_lfsr_iter_is_times_xn(seed, (seed % 16) as nat + base);
        let k = spec_lfsr16_p01(seed, level);
        assert(hi8(k) as nat * 256 + lo8(k) as nat == k as nat);
        if level == SecurityLevel::Level2 {
            let l = lfsr_iter(seed, (seed % 16) as nat + base);
            assert(crc16_times_xn(seed as nat, seed as nat % 16 + 5) as u16 == l);
        }
    }
}

/// Law, on a vector whose shifts carry out of bit 15: seed 0x1234 gives the
/// level 1 key 1A 36 and the level 2 key 5E 71.
pub proof fn law_p01_key_vector_1234()
    ensures
        spec_p01_key(0x12, 0x34, SecurityLevel::Level1) == (0x1Au8, 0x36u8),
        spec_p01_key(0x12, 0x34, SecurityLevel::Level2) == (0x5Eu8, 0x71u8),
{
    law_p01_key_is_crc16_lfsr(0x12, 0x34, SecurityLevel::Level1);
    law_p01_key_is_crc16_lfsr(0x12, 0x34, SecurityLevel::Level2);
    assert(crc16_times_xn(0x1234, 7) == 0x1A36) by {
        reveal_with_fuel(crc16_times_xn, 8);
    }
    assert(crc16_times_xn(0x1234, 9) == 0x68D8) by {
        reveal_with_fuel(crc16_times_xn, 10);
    }
    assert((0x68D8u16 ^ 0x36A9u16) == 0x5E71u16) by (bit_vector);
}

// ── Mode 27 frames (GM VPW) ───────────────────────────────────────────────────

/// `68 6A F1 27 <sub> [key_hi key_lo] <checksum>`.
pub open spec fn m27_frame(sub_fn: u8, key: Option<(u8, u8)>) -> Seq<u8> {
    let body = match key {
        Some(k) => seq![0x68u8, 0x6A, 0xF1, 0x27, sub_fn, k.0, k.1],
        None => seq![0x68u8, 0x6A, 0xF1, 0x27, sub_fn],
    };
    body.push(sum8(body))
}

fn make_m27_frame(sub_fn: u8, key: Option<(u8, u8)>) -> (f: Vec<u8>)
    ensures
        f@ == m27_frame(sub_fn, key),
        frame_checksum_ok(f@),
{
    let mut frame = vec![0x68u8, 0x6A, 0xF1, 0x27, sub_fn];
    match key {
        Some((hi, lo)) => {
            frame.push(hi);
            frame.push(lo);
            assert(frame@ == seq![0x68u8, 0x6A, 0xF1, 0x27, sub_fn, hi, lo]);
        },
        None => {
            assert(frame@ == seq![0x68u8, 0x6A, 0xF1, 0x27, sub_fn]);
        },
    }
    push_checksum(&mut frame);
    frame
}

pub fn build_seed_request_l1() -> (f: Vec<u8>)
    ensures
        f@ == m27_frame(0x01, None),
        frame_checksum_ok(f@),
{
    make_m27_frame(0x01, None)
}

pub fn build_seed_request_l2() -> (f: Vec<u8>)
    ensures
        f@ == m27_frame(0x03, None),
        frame_checksum_ok(f@),
{
    make_m27_frame(0x03, None)
}

pub fn build_key_send_l1(key_hi: u8, key_lo: u8) -> (f: Vec<u8>)
    ensures
        f@ == m27_frame(0x02, Some((key_hi, key_lo))),
        frame_checksum_ok(f@),
{
    make_m27_frame(0x02, Some((key_hi, key_lo)))
}

pub fn build_key_send_l2(key_hi: u8, key_lo: u8) -> (f: Vec<u8>)
    ensures
        f@ == m27_frame(0x04, Some((key_hi, key_lo))),
        frame_checksum_ok(f@),
{
    make_m27_frame(0x04, Some((key_hi, key_lo)))
}

// ── Mode 27 response parsers ──────────────────────────────────────────────────

pub open spec fn spec_nrc_description(nrc: u8) -> Seq<char> {
    if nrc == 0x22 {
        "conditions not correct (engine may be running)"@
    } else if nrc == 0x24 {
        "request sequence error (request seed first)"@
    } else if nrc == 0x35 {
        "invalid key (wrong algorithm or seed mismatch)"@
    } else if nrc == 0x36 {
        "exceeded attempt limit \u{2014} ECM locked for this ignition cycle"@
    } else if nrc == 0x37 {
        "required time delay not expired \u{2014} wait and retry"@
    } else {
        "unknown NRC"@
    }
}

fn nrc_description(nrc: u8) -> (r: &'static str)
    ensures
        r@ == spec_nrc_description(nrc),
{
    if nrc == 0x22 {
        "conditions not correct (engine may be running)"
    } else if nrc == 0x24 {
        "request sequence error (request seed first)"
    } else if nrc == 0x35 {
        "invalid key (wrong algorithm or seed mismatch)"
    } else if nrc == 0x36 {
        "exceeded attempt limit \u{2014} ECM locked for this ignition cycle"
    } else if nrc == 0x37 {
        "required time delay not expired \u{2014} wait and retry"
    } else {
        "unknown NRC"
    }
}

/// The outcome of `parse_seed_response`: the seed bytes, or the error text.
pub open spec fn seed_response_spec(f: Seq<u8>, expected_subfn: u8) -> Result<(u8, u8), Seq<char>> {
    if f.len() < 8 {
        Err("Seed response too short: "@ + dec(f.len()) + " bytes (need \u{2265} 8)"@)
    } else if !frame_checksum_ok(f) {
        Err("Seed response checksum mismatch"@)
    } else if f[3] != 0x67 {
        if f[3] == 0x7F {
            Err("Negative response 0x7F NRC=0x"@ + hex_pad(f[5] as nat, 2) + " \u{2014} "@
                + spec_nrc_description(f[5]))
        } else {
            Err("Unexpected service ID 0x"@ + hex_pad(f[3] as nat, 2))
        }
    } else if f[4] != expected_subfn {
        Err("Sub-fn mismatch: got 0x"@ + hex_pad(f[4] as nat, 2) + " expected 0x"@ + hex_pad(
            expected_subfn as nat,
            2,
        ))
    } else {
        Ok((f[5], f[6]))
    }
}

/// Parses `48 6B 10 67 <sub> SH SL <cs>` into the seed bytes.
pub fn parse_seed_response(frame: &[u8], expected_subfn: u8) -> (r: Result<(u8, u8), String>)
    ensures
        seed_response_spec(frame@, expected_subfn) matches Ok(v) ==> r == Ok::<(u8, u8), String>(v),
        seed_response_spec(frame@, expected_subfn) matches Err(m) ==> r matches Err(e) && e@ == m,
{
    if frame.len() < 8 {
        let mut e = str_to_string("Seed response too short: ");
        push_dec(&mut e, frame.len() as u64);
        push_str(&mut e, " bytes (need \u{2265} 8)");
        return Err(e);
    }
    if !validate_checksum(frame) {
        return Err(str_to_string("Seed response checksum mismatch"));
    }
    if frame[3] != 0x67 {
        if frame[3] == 0x7F {
            let nrc = frame[5];
            let mut e = str_to_string("Negative response 0x7F NRC=0x");
            push_hex_pad(&mut e, nrc as u64, 2);
            push_str(&mut e, " \u{2014} ");
            push_str(&mut e, nrc_description(nrc));
            return Err(e);
        }
        let mut e = str_to_string("Unexpected service ID 0x");
        push_hex_pad(&mut e, frame[3] as u64, 2);
        return Err(e);
    }
    if frame[4] != expected_subfn {
        let mut e = str_to_string("Sub-fn mismatch: got 0x");
        push_hex_pad(&mut e, frame[4] as u64, 2);
        push_str(&mut e, " expected 0x");
        push_hex_pad(&mut e, expected_subfn as u64, 2);
        return Err(e);
    }
    Ok((frame[5], frame[6]))
}

/// The outcome of `parse_key_response`: success, or the error text.
pub open spec fn key_response_spec(f: Seq<u8>, expected_subfn: u8) -> Result<(), Seq<char>> {
    if f.len() < 6 {
        Err("Key response too short: "@ + dec(f.len()) + " bytes"@)
    } else if !frame_checksum_ok(f) {
        Err("Key response checksum mismatch"@)
    } else if f[3] == 0x7F {
        Err("Key rejected \u{2014} NRC 0x"@ + hex_pad(f[5] as nat, 2) + ": "@ + spec_nrc_description(f[5]))
    } else if f[3] != 0x67 {
        Err("Unexpected SID 0x"@ + hex_pad(f[3] as nat, 2) + " in key response"@)
    } else if f[4] != expected_subfn {
        Err("Key response sub-fn mismatch: got 0x"@ + hex_pad(f[4] as nat, 2))
    } else {
        Ok(())
    }
}

/// Checks a `67 <sub>` key acknowledgement.
pub fn parse_key_response(frame: &[u8], expected_subfn: u8) -> (r: Result<(), String>)
    ensures
        key_response_spec(frame@, expected_subfn) is Ok ==> r is Ok,
        key_response_spec(frame@, expected_subfn) matches Err(m) ==> r matches Err(e) && e@ == m,
{
    if frame.len() < 6 {
        let mut e = str_to_string("Key response too short: ");
        push_dec(&mut e, frame.len() as u64);
        push_str(&mut e, " bytes");
        return Err(e);
    }
    if !validate_checksum(frame) {
        return Err(str_to_string("Key response checksum mismatch"));
    }
    if frame[3] == 0x7F {
        let nrc = frame[5];
        let mut e = str_to_string("Key rejected \u{2014} NRC 0x");
        push_hex_pad(&mut e, nrc as u64, 2);
        push_str(&mut e, ": ");
        push_str(&mut e, nrc_description(nrc));
        return Err(e);
    }
    if frame[3] != 0x67 {
        let mut e = str_to_string("Unexpected SID 0x");
        push_hex_pad(&mut e, frame[3] as u64, 2);
        push_str(&mut e, " in key response");
        return Err(e);
    }
    if frame[4] != expected_subfn {
        let mut e = str_to_string("Key response sub-fn mismatch: got 0x");
        push_hex_pad(&mut e, frame[4] as u64, 2);
        return Err(e);
    }
    Ok(())
}

// ── Bosch UDS SecurityAccess (0x27) ──────────────────────────────────────────

/// Bosch security levels; the seed sub-function is 01, 03 or 05.
#[derive(Clone, Copy, Debug, PartialEq, Eq, Structural)]
pub enum BoschSecurityLevel {
    Diagnostic,
    Programming,
    Extended,
}

/// The level a (case-insensitive) name selects; anything unknown is `Diagnostic`.
pub open spec fn spec_bosch_level(name: Seq<char>) -> BoschSecurityLevel {
    let l = lower_seq(name);
    if l == "programming"@ || l == "prog"@ || l == "flash"@ || l == "0x03"@ || l == "3"@ {
        BoschSecurityLevel::Programming
    } else if l == "extended"@ || l == "0x05"@ || l == "5"@ {
        BoschSecurityLevel::Extended
    } else {
        BoschSecurityLevel::Diagnostic
    }
}

pub open spec fn spec_seed_subfn(level: BoschSecurityLevel) -> u8 {
    match level {
        BoschSecurityLevel::Diagnostic => 0x01,
        BoschSecurityLevel::Programming => 0x03,
        BoschSecurityLevel::Extended => 0x05,
    }
}

fn str_is(l: &[char], lit: &str) -> (r: bool)
    ensures
        r == (l@ == lit@),
{
    let v = str_chars(lit);
    eq_chars(l, v.as_slice())
}

impl BoschSecurityLevel {
    pub fn from_str(s: &str) -> (r: Self)
        ensures
            r == spec_bosch_level(s@),
    {
        let chars = str_chars(s);
        let l = lower_vec(chars.as_slice());
        let ls = l.as_slice();
        if str_is(ls, "programming") || str_is(ls, "prog") || str_is(ls, "flash") || str_is(
            ls,
            "0x03",
        ) || str_is(ls, "3") {
            BoschSecurityLevel::Programming
        } else if str_is(ls, "extended") || str_is(ls, "0x05") || str_is(ls, "5") {
            BoschSecurityLevel::Extended
        } else {
            BoschSecurityLevel::Diagnostic
        }
    }

    /// Sub-function used when requesting a seed.
    pub fn seed_subfn(self) -> (r: u8)
        ensures
            r == spec_seed_subfn(self),
    {
        match self {
            BoschSecurityLevel::Diagnostic => 0x01,
            BoschSecurityLevel::Programming => 0x03,
            BoschSecurityLevel::Extended => 0x05,
        }
    }

    /// Sub-function used when sending the computed key (seed sub-function + 1).
    pub fn key_subfn(self) -> (r: u8)
        ensures
            r == spec_seed_subfn(self) + 1,
    {
        self.seed_subfn() + 1
    }
}

/// UDS SecurityAccess RequestSeed payload: `27 <seed sub-fn>`.
pub fn bosch_uds_request_seed(level: BoschSecurityLevel) -> (p: Vec<u8>)
    ensures
        p@ == seq![0x27u8, spec_seed_subfn(level)],
{
    vec![0x27, level.seed_subfn()]
}

/// UDS SecurityAccess SendKey payload: `27 <key sub-fn> <key…>`.
pub fn bosch_uds_send_key(level: BoschSecurityLevel, key: &[u8]) -> (p: Vec<u8>)
    ensures
        p@ == seq![0x27u8, (spec_seed_subfn(level) + 1) as u8] + key@,
{
    let mut p: Vec<u8> = Vec::new();
    p.push(0x27);
    p.push(level.key_subfn());
    let mut i: usize = 0;
    while i < key.len()
        invariant
            i <= key.len(),
            p@ == seq![0x27u8, (spec_seed_subfn(level) + 1) as u8] + key@.take(i as int),
        decreases key.len() - i,
    {
        p.push(key[i]);
        i += 1;
        assert(key@.take(i as int) == key@.take(i - 1).push(key@[i - 1]));
    }
    assert(key@.take(key.len() as int) == key@);
    p
}

// ── EDC16C41 4-byte seed/key ─────────────────────────────────────────────────

/// 32-bit rotate left by 5.
pub open spec fn rotl32_5(x: u32) -> u32 {
    ((x << 5u32) | (x >> 27u32)) as u32
}

/// Byte order reversal of a 32-bit word.
pub open spec fn bswap32(x: u32) -> u32 {
    (((x & 0xFFu32) << 24u32) | (((x >> 8u32) & 0xFFu32) << 16u32) | (((x >> 16u32) & 0xFFu32)
        << 8u32) | (x >> 24u32)) as u32
}

/// EDC16C41 key: xor 0xA5C3B7D9, rotate left 5, add 0x12345678 (wrapping),
/// xor 0x87654321, byte swap.
pub open spec fn spec_edc16c41_key(seed: u32) -> u32 {
    let k1 = seed ^ 0xA5C3B7D9u32;
    let k2 = rotl32_5(k1);
    let k3 = k2.wrapping_add(0x12345678u32);
    let k4 = k3 ^ 0x87654321u32;
    bswap32(k4)
}

/// EDC16C41 seed → key on 32-bit big-endian values.
pub fn edc16c41_calculate_key(seed: u32) -> (key: u32)
    ensures
        key == spec_edc16c41_key(seed),
{
    let k1 = seed ^ 0xA5C3B7D9u32;
    let k2 = (k1 << 5u32) | (k1 >> 27u32);
    let k3 = k2.wrapping_add(0x12345678u32);
    let k4 = k3 ^ 0x87654321u32;
    ((k4 & 0xFF) << 24u32) | (((k4 >> 8u32) & 0xFF) << 16u32) | (((k4 >> 16u32) & 0xFF) << 8u32)
        | (k4 >> 24u32)
}

/// The key bytes for a seed of at least four bytes (the first four, big-endian).
pub open spec fn spec_edc16c41_key_bytes(seed: Seq<u8>) -> Seq<u8> {
    be32_bytes(spec_edc16c41_key(be32(seed.take(4))))
}

/// 4-byte big-endian seed → 4-byte big-endian key; `None` for fewer than 4 bytes.
pub fn edc16c41_key_from_seed_bytes(seed: &[u8]) -> (r: Option<[u8; 4]>)
    ensures
        seed@.len() < 4 ==> r is None,
        seed@.len() >= 4 ==> (r matches Some(k) && k@ == spec_edc16c41_key_bytes(seed@)),
{
    if seed.len() < 4 {
        return None;
    }
    let s = from_be32(seed[0], seed[1], seed[2], seed[3]);
    assert(seed@.take(4) == seq![seed@[0], seed@[1], seed@[2], seed@[3]]);
    Some(to_be32(edc16c41_calculate_key(s)))
}

/// As `edc16c41_key_from_seed_bytes`, for a seed known to hold four bytes.
pub fn edc16c41_key_from_seed_bytes_unchecked(seed: &[u8]) -> (k: [u8; 4])
    requires
        seed@.len() >= 4,
    ensures
        k@ == spec_edc16c41_key_bytes(seed@),
{
    match edc16c41_key_from_seed_bytes(seed) {
        Some(k) => k,
        None => {
            assert(false);
            [0u8; 4]
        },
    }
}

// ── Family dispatcher ─────────────────────────────────────────────────────────

/// A derived key and whether it comes from a measured algorithm.
#[derive(Clone, Debug)]
pub struct BoschKeyResult {
    pub key: Vec<u8>,
    pub verified: bool,
    pub algo: String,
    pub note: String,
}

/// What `bosch_key_result` derives: (key, verified, algo, note).
pub open spec fn spec_bosch_key(seed: Seq<u8>, family: Seq<char>) -> (
    Seq<u8>,
    bool,
    Seq<char>,
    Seq<char>,
) {
    let fam = upper_seq(family);
    let is_edc16 = contains(fam, "EDC16"@);
    if seed.len() == 0 {
        (Seq::empty(), false, "empty"@, "Empty seed \u{2014} no key."@)
    } else if is_edc16 && seed.len() >= 4 {
        (
            spec_edc16c41_key_bytes(seed),
            true,
            "edc16c41_4byte"@,
            "Measured EDC16C41 4-byte algorithm."@,
        )
    } else if seed.len() >= 2 {
        let s0 = seed[0];
        let s1 = seed[1];
        if is_edc16 {
            (
                seq![
                    rotl8(s0.wrapping_add(0x5A), 3) ^ 0xA5u8,
                    rotr8(s1.wrapping_add(0x3C), 2) ^ 0x5Au8,
                ],
                false,
                "edc16_2byte_starter"@,
                "Unverified 2-byte starter. Not a measured key. Unlock/flash refused."@,
            )
        } else if contains(fam, "EDC17"@) {
            (
                seq![
                    s0.wrapping_mul(0x11).wrapping_add(0x7B) ^ s1,
                    rotl8(s1, 4).wrapping_add(s0) ^ 0xC3u8,
                ],
                false,
                "edc17_starter"@,
                "EDC17 starter algebra is not a measured key. Provide a personal dump table before unlock."@,
            )
        } else if contains(fam, "MED17"@) {
            (
                seq![s0 ^ 0xC3u8, s1.wrapping_add(s0).wrapping_mul(0x11)],
                false,
                "med17_starter"@,
                "MED17 starter algebra is not a measured key. Unlock/flash refused."@,
            )
        } else {
            (
                seq![s0 ^ 0xFFu8, s1.wrapping_add(1) ^ 0xAAu8],
                false,
                "generic_starter"@,
                "No measured algorithm for this family. Unlock/flash refused."@,
            )
        }
    } else {
        (seed, false, "passthrough"@, "Seed too short and family unverified."@)
    }
}

pub open spec fn key_result_matches(r: BoschKeyResult, k: (Seq<u8>, bool, Seq<char>, Seq<char>)) -> bool {
    &&& r.key@ == k.0
    &&& r.verified == k.1
    &&& r.algo@ == k.2
    &&& r.note@ == k.3
}

fn key_result(key: Vec<u8>, verified: bool, algo: &str, note: &str) -> (r: BoschKeyResult)
    ensures
        r.key@ == key@,
        r.verified == verified,
        r.algo@ == algo@,
        r.note@ == note@,
{
    BoschKeyResult { key, verified, algo: str_to_string(algo), note: str_to_string(note) }
}

/// Key derivation for Bosch EDC / MED families. Only the EDC16 4-byte path is a
/// measured algorithm; the other paths are marked unverified.
pub fn bosch_key_result(seed: &[u8], family_hint: &str) -> (r: BoschKeyResult)
    ensures
        key_result_matches(r, spec_bosch_key(seed@, family_hint@)),
{
    if seed.len() == 0 {
        return key_result(Vec::new(), false, "empty", "Empty seed \u{2014} no key.");
    }
    let fam_chars = str_chars(family_hint);
    let fam = upper_vec(fam_chars.as_slice());
    let edc16 = str_chars("EDC16");
    let is_edc16 = contains_chars(fam.as_slice(), edc16.as_slice());
    if is_edc16 && seed.len() >= 4 {
        let k = edc16c41_key_from_seed_bytes_unchecked(seed);
        let kv = vec![k[0], k[1], k[2], k[3]];
        assert(kv@ == k@);
        return key_result(kv, true, "edc16c41_4byte", "Measured EDC16C41 4-byte algorithm.");
    }
    if seed.len() >= 2 {
        let s0 = seed[0];
        let s1 = seed[1];
        if is_edc16 {
            let k0 = rotate_left8(s0.wrapping_add(0x5A), 3) ^ 0xA5;
            let k1 = rotate_right8(s1.wrapping_add(0x3C), 2) ^ 0x5A;
            return key_result(
                vec![k0, k1],
                false,
                "edc16_2byte_starter",
                "Unverified 2-byte starter. Not a measured key. Unlock/flash refused.",
            );
        }
        let edc17 = str_chars("EDC17");
        if contains_chars(fam.as_slice(), edc17.as_slice()) {
            let k0 = s0.wrapping_mul(0x11).wrapping_add(0x7B) ^ s1;
            let k1 = rotate_left8(s1, 4).wrapping_add(s0) ^ 0xC3;
            return key_result(
                vec![k0, k1],
                false,
                "edc17_starter",
                "EDC17 starter algebra is not a measured key. Provide a personal dump table before unlock.",
            );
        }
        let med17 = str_chars("MED17");
        if contains_chars(fam.as_slice(), med17.as_slice()) {
            let k0 = s0 ^ 0xC3;
            let k1 = s1.wrapping_add(s0).wrapping_mul(0x11);
            return key_result(
                vec![k0, k1],
                false,
                "med17_starter",
                "MED17 starter algebra is not a measured key. Unlock/flash refused.",
            );
        }
        return key_result(
            vec![s0 ^ 0xFF, s1.wrapping_add(1) ^ 0xAA],
            false,
            "generic_starter",
            "No measured algorithm for this family. Unlock/flash refused.",
        );
    }
    key_result(vstd::slice::slice_to_vec(seed), false, "passthrough", "Seed too short and family unverified.")
}

/// The measured key bytes, or nothing for families without a measured algorithm.
pub open spec fn spec_bosch_verified_key(seed: Seq<u8>, family: Seq<char>) -> Seq<u8> {
    let k = spec_bosch_key(seed, family);
    if k.1 {
        k.0
    } else {
        Seq::empty()
    }
}

/// Verified key bytes only; unverified families give an empty key.
pub fn bosch_key_from_seed(seed: &[u8], family_hint: &str) -> (k: Vec<u8>)
    ensures
        k@ == spec_bosch_verified_key(seed@, family_hint@),
{
    let r = bosch_key_result(seed, family_hint);
    if r.verified {
        r.key
    } else {
        Vec::new()
    }
}

/// The key to send after receiving `seed` (payload level only).
pub fn bosch_compute_key_for_seed(seed: &[u8], family: &str) -> (k: Vec<u8>)
    ensures
        k@ == spec_bosch_verified_key(seed@, family@),
{
    bosch_key_from_seed(seed, family)
}

/// The outcome of `bosch_parse_seed_from_response`.
pub open spec fn spec_bosch_seed(resp: Seq<u8>) -> Result<Seq<u8>, Seq<char>> {
    if resp.len() < 3 || resp[0] != 0x67 {
        if resp.len() > 0 && resp[0] == 0x7F {
            let nrc: u8 = if resp.len() > 2 {
                resp[2]
            } else {
                0
            };
            Err("Negative response NRC 0x"@ + hex_pad(nrc as nat, 2))
        } else {
            Err("Not a positive SecurityAccess seed response"@)
        }
    } else {
        Ok(resp.subrange(2, resp.len() as int))
    }
}

/// Seed bytes of a positive SecurityAccess response `67 XX <seed…>`.
pub fn bosch_parse_seed_from_response(resp: &[u8]) -> (r: Result<Vec<u8>, String>)
    ensures
        spec_bosch_seed(resp@) matches Ok(v) ==> (r matches Ok(s) && s@ == v),
        spec_bosch_seed(resp@) matches Err(m) ==> (r matches Err(e) && e@ == m),
{
    if resp.len() < 3 || resp[0] != 0x67 {
        if resp.len() > 0 && resp[0] == 0x7F {
            let nrc: u8 = if resp.len() > 2 {
                resp[2]
            } else {
                0
            };
            let mut e = str_to_string("Negative response NRC 0x");
            push_hex_pad(&mut e, nrc as u64, 2);
            return Err(e);
        }
        return Err(str_to_string("Not a positive SecurityAccess seed response"));
    }
    let v = vstd::slice::slice_to_vec(vstd::slice::slice_subrange(resp, 2, resp.len()));
    Ok(v)
}

// ── Bosch unlock steps ──────────────────────────────────────────────────────

/// The level's name as `{:?}` writes it.
pub open spec fn level_name(level: BoschSecurityLevel) -> Seq<char> {
    match level {
        BoschSecurityLevel::Diagnostic => "Diagnostic"@,
        BoschSecurityLevel::Programming => "Programming"@,
        BoschSecurityLevel::Extended => "Extended"@,
    }
}

fn level_name_exec(level: BoschSecurityLevel) -> (r: &'static str)
    ensures
        r@ == level_name(level),
{
    match level {
        BoschSecurityLevel::Diagnostic => "Diagnostic",
        BoschSecurityLevel::Programming => "Programming",
        BoschSecurityLevel::Extended => "Extended",
    }
}

/// A byte list of at most one byte as `{:02X?}` writes it.
pub open spec fn short_hex_list(b: Seq<u8>) -> Seq<char> {
    if b.len() == 0 {
        "[]"@
    } else {
        "["@ + hex_pad(b[0] as nat, 2) + "]"@
    }
}

/// The seed out of what a seed request returned: a full positive response is
/// parsed, two or more other bytes are the seed itself, anything shorter is
/// refused.
pub open spec fn spec_bosch_seed_bytes(resp: Seq<u8>) -> Result<Seq<u8>, Seq<char>> {
    if resp.len() > 0 && resp[0] == 0x67 {
        spec_bosch_seed(resp)
    } else if resp.len() >= 2 {
        Ok(resp)
    } else {
        Err("Unexpected seed response: "@ + short_hex_list(resp))
    }
}

/// What follows a seed: nothing when it is all zero (already unlocked), the
/// key to send when a measured algorithm derives one, else a refusal.
pub enum BoschUnlockStep {
    Unlocked(String),
    SendKey(Vec<u8>),
    Refused(String),
}

pub open spec fn all_zero(s: Seq<u8>) -> bool {
    forall|i: int| 0 <= i < s.len() ==> #[trigger] s[i] == 0
}

pub open spec fn zero_seed_message(level: BoschSecurityLevel, family: Seq<char>) -> Seq<char> {
    "{\"success\":true,\"level\":\""@ + level_name(level)
        + "\",\"message\":\"Already unlocked or zero-seed (no key required)\",\"family\":\""@ + family + "\"}"@
}

pub open spec fn refusal_message(family: Seq<char>, note: Seq<char>, algo: Seq<char>) -> Seq<char> {
    "Refusing Bosch UDS unlock for "@ + family + ": "@ + note + " (algo="@ + algo + ")"@
}

pub open spec fn unlock_step_ok(seed: Seq<u8>, family: Seq<char>, level: BoschSecurityLevel, r: BoschUnlockStep) -> bool {
    let k = spec_bosch_key(seed, family);
    if all_zero(seed) {
        r matches BoschUnlockStep::Unlocked(m) && m@ == zero_seed_message(level, family)
    } else if !k.1 {
        r matches BoschUnlockStep::Refused(m) && m@ == refusal_message(family, k.3, k.2)
    } else {
        r matches BoschUnlockStep::SendKey(key) && key@ == k.0
    }
}

/// The seed bytes of a seed request's answer.
pub fn bosch_seed_bytes(resp: &[u8]) -> (r: Result<Vec<u8>, String>)
    ensures
        spec_bosch_seed_bytes(resp@) matches Ok(v) ==> (r matches Ok(s) && s@ == v),
        spec_bosch_seed_bytes(resp@) matches Err(m) ==> (r matches Err(e) && e@ == m),
{
    if resp.len() > 0 && resp[0] == 0x67 {
        bosch_parse_seed_from_response(resp)
    } else if resp.len() >= 2 {
        Ok(vstd::slice::slice_to_vec(resp))
    } else {
        let mut e = str_to_string("Unexpected seed response: [");
        if resp.len() > 0 {
            push_hex_pad(&mut e, resp[0] as u64, 2);
        }
        push_str(&mut e, "]");
        proof {
            reveal_strlit("[]");
            reveal_strlit("[");
            reveal_strlit("]");
            reveal_strlit("Unexpected seed response: [");
            reveal_strlit("Unexpected seed response: ");
        }
        Err(e)
    }
}

/// The step after a seed arrived.
pub fn bosch_unlock_after_seed(seed: &[u8], family: &str, level: BoschSecurityLevel) -> (r: BoschUnlockStep)
    ensures
        unlock_step_ok(seed@, family@, level, r),
{
    let mut i: usize = 0;
    let mut zero = true;
    while i < seed.len()
        invariant
            i <= seed@.len(),
            zero == (forall|k: int| 0 <= k < i ==> #[trigger] seed@[k] == 0),
        decreases seed.len() - i,
    {
        if seed[i] != 0 {
            zero = false;
        }
        i += 1;
    }
    if zero {
        let mut m = str_to_string("{\"success\":true,\"level\":\"");
        push_str(&mut m, level_name_exec(level));
        push_str(&mut m, "\",\"message\":\"Already unlocked or zero-seed (no key required)\",\"family\":\"");
        push_str(&mut m, family);
        push_str(&mut m, "\"}");
        return BoschUnlockStep::Unlocked(m);
    }
    let derived = bosch_key_result(seed, family);
    if !derived.verified {
        let mut m = str_to_string("Refusing Bosch UDS unlock for ");
        push_str(&mut m, family);
        push_str(&mut m, ": ");
        push_str(&mut m, derived.note.as_str());
        push_str(&mut m, " (algo=");
        push_str(&mut m, derived.algo.as_str());
        push_str(&mut m, ")");
        return BoschUnlockStep::Refused(m);
    }
    BoschUnlockStep::SendKey(derived.key)
}

/// The answer to a sent key: refused only when it is a negative response
/// with no positive byte in it.
pub open spec fn spec_bosch_key_answer(resp: Seq<u8>) -> Result<(), Seq<char>> {
    let ok = (resp.len() > 0 && resp[0] == 0x67) || resp.len() == 0 || (exists|i: int|
        0 <= i < resp.len() && #[trigger] resp[i] == 0x67);
    if !ok && resp.len() > 0 && resp[0] == 0x7F {
        Err("Key rejected NRC 0x"@ + hex_pad((if resp.len() > 2 { resp[2] } else { 0u8 }) as nat, 2)
            + " \u{2014} check family hint or seed length"@)
    } else {
        Ok(())
    }
}

pub open spec fn unlocked_message(level: BoschSecurityLevel, family: Seq<char>, seed_len: nat, key_len: nat) -> Seq<char> {
    "{\"success\":true,\"level\":\""@ + level_name(level)
        + "\",\"message\":\"Bosch UDS SecurityAccess unlocked successfully\",\"family\":\""@ + family
        + "\",\"seed_len\":"@ + dec(seed_len) + ",\"key_len\":"@ + dec(key_len) + "}"@
}

/// The outcome after the key was sent.
pub fn bosch_unlock_after_key(resp: &[u8], family: &str, level: BoschSecurityLevel, seed_len: usize, key_len: usize) -> (r:
    Result<String, String>)
    ensures
        spec_bosch_key_answer(resp@) matches Err(m) ==> (r matches Err(e) && e@ == m),
        spec_bosch_key_answer(resp@) is Ok ==> (r matches Ok(s) && s@ == unlocked_message(
            level,
            family@,
            seed_len as nat,
            key_len as nat,
        )),
{
    let mut any67 = false;
    let mut i: usize = 0;
    while i < resp.len()
        invariant
            i <= resp@.len(),
            any67 == (exists|k: int| 0 <= k < i && #[trigger] resp@[k] == 0x67),
        decreases resp.len() - i,
    {
        if resp[i] == 0x67 {
            any67 = true;
        }
        i += 1;
    }
    let ok = (resp.len() > 0 && resp[0] == 0x67) || resp.len() == 0 || any67;
    if !ok && resp.len() > 0 && resp[0] == 0x7F {
        let nrc: u8 = if resp.len() > 2 {
            resp[2]
        } else {
            0
        };
        let mut e = str_to_string("Key rejected NRC 0x");
        push_hex_pad(&mut e, nrc as u64, 2);
        push_str(&mut e, " \u{2014} check family hint or seed length");
        return Err(e);
    }
    let mut m = str_to_string("{\"success\":true,\"level\":\"");
    push_str(&mut m, level_name_exec(level));
    push_str(&mut m, "\",\"message\":\"Bosch UDS SecurityAccess unlocked successfully\",\"family\":\"");
    push_str(&mut m, family);
    push_str(&mut m, "\",\"seed_len\":");
    push_dec(&mut m, seed_len as u64);
    push_str(&mut m, ",\"key_len\":");
    push_dec(&mut m, key_len as u64);
    push_str(&mut m, "}");
    Ok(m)
}

} // verus!
