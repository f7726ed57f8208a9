//! The offline seed→key calculators: seed text parsing and the choice between
//! measured pairs, GM 2-byte tables, the P01 LFSR and the Bosch dispatcher.
use vstd::prelude::*;
use crate::bytes::{be16, from_be16, hi8, lo8};
use crate::gm_keys::{gm_2byte_key, spec_gm_key};
use crate::security::{
    bosch_key_from_seed, bosch_key_result, p01_key_l1, p01_key_l2, spec_bosch_key, spec_bosch_verified_key,
    spec_p01_key, SecurityLevel,
};
use crate::seed_tables::{lookup, spec_lookup, SeedTableFile};
use crate::text::{
    chars_to_string, contains, contains_chars, digit_pairs, hex_digit_chars, hex_digits, hex_pad, hex_str,
    hex_text_to_bytes, hex_upper, lower_seq, lower_vec, push_hex_pad, push_str, spec_hex_bytes, str_chars,
    str_to_string, upper_seq, upper_vec, eq_chars, lemma_hex_digits_all_hex, lemma_hex_digits_id, lemma_hex_str_pairs,
    lemma_digit_char_hex, is_hex_char, hex_val, digit_char,
};

verus! {

// ── Seed text ───────────────────────────────────────────────────────────────

/// The seed bytes of a hex text: its hex digits, with a `0` in front when
/// their number is odd.
pub open spec fn spec_seed_bytes(s: Seq<char>) -> Result<Seq<u8>, Seq<char>> {
    let h = hex_digits(s);
    if h.len() == 0 {
        Err("Seed hex is empty"@)
    } else if h.len() % 2 == 1 {
        Ok(digit_pairs(seq!['0'] + h))
    } else {
        Ok(digit_pairs(h))
    }
}

/// Seed bytes from hex text (spaces and separators ignored).
pub fn parse_seed_hex(seed_hex: &str) -> (r: Result<Vec<u8>, String>)
    ensures
        spec_seed_bytes(seed_hex@) matches Ok(v) ==> (r matches Ok(b) && b@ == v),
        spec_seed_bytes(seed_hex@) matches Err(m) ==> (r matches Err(e) && e@ == m),
{
    let h = hex_digit_chars(seed_hex);
    if h.len() == 0 {
        return Err(str_to_string("Seed hex is empty"));
    }
    let mut padded: Vec<char> = Vec::new();
    if h.len() % 2 == 1 {
        padded.push('0');
    }
    let mut i: usize = 0;
    while i < h.len()
        invariant
            i <= h@.len(),
            padded@ == (if h@.len() % 2 == 1 { seq!['0'] } else { Seq::<char>::empty() }) + h@.take(i as int),
        decreases h.len() - i,
    {
        padded.push(h[i]);
        i += 1;
        assert(h@.take(i as int) == h@.take(i - 1).push(h@[i - 1]));
    }
    assert(h@.take(h@.len() as int) == h@);
    let text = chars_to_string(padded.as_slice());
    let r = hex_text_to_bytes(text.as_str());
    proof {
        assert forall|j: int| 0 <= j < padded@.len() implies crate::text::is_hex_char(#[trigger] padded@[j]) by {
            if h@.len() % 2 == 1 && j == 0 {
            } else if h@.len() % 2 == 1 {
                assert(padded@[j] == h@[j - 1]);
            } else {
                assert(padded@[j] == h@[j]);
            }
        }
        lemma_hex_digits_id(padded@);
    }
    Ok(r)
}

pub open spec fn nibble_of(b: u8) -> Option<u8> {
    if 0x30 <= b <= 0x39 {
        Some((b - 0x30) as u8)
    } else if 0x61 <= b <= 0x66 {
        Some((b - 0x61 + 10) as u8)
    } else if 0x41 <= b <= 0x46 {
        Some((b - 0x41 + 10) as u8)
    } else {
        None
    }
}

/// Value of one ASCII hex digit.
pub fn hex_nibble(b: u8) -> (r: Result<u8, String>)
    ensures
        nibble_of(b) matches Some(v) ==> r == Ok::<u8, String>(v),
        nibble_of(b) is None ==> (r matches Err(e) && e@ == "Invalid hex digit "@ + seq![b as char]),
{
    if 0x30 <= b && b <= 0x39 {
        Ok(b - 0x30)
    } else if 0x61 <= b && b <= 0x66 {
        Ok(b - 0x61 + 10)
    } else if 0x41 <= b && b <= 0x46 {
        Ok(b - 0x41 + 10)
    } else {
        let mut e = str_to_string("Invalid hex digit ");
        crate::text::string_push(&mut e, b as char);
        Err(e)
    }
}

/// `{:02X}` of every byte.
pub fn hex_encode(bytes: &[u8]) -> (s: String)
    ensures
        s@ == hex_str(bytes@),
{
    hex_upper(bytes)
}

// ── Offline calculator ──────────────────────────────────────────────────────

/// The family names a GM P01 / P59 controller.
pub open spec fn is_gm_family(fam_upper: Seq<char>) -> bool {
    contains(fam_upper, "P01"@) || contains(fam_upper, "P59"@) || contains(fam_upper, "GM"@)
}

fn has(h: &[char], lit: &str) -> (r: bool)
    ensures
        r == contains(h@, lit@),
{
    let n = str_chars(lit);
    contains_chars(h, n.as_slice())
}

/// Algorithm name and key bytes of the offline calculator.
#[derive(Clone, Debug)]
pub struct OfflineKey {
    pub algo: String,
    pub seed: Vec<u8>,
    pub key: Vec<u8>,
}

/// What the offline calculator derives from a family, a seed and a level text.
pub open spec fn spec_offline_key(family: Seq<char>, seed: Seq<u8>, level: Seq<char>) -> Result<(Seq<char>, Seq<u8>), Seq<char>> {
    let fam = upper_seq(family);
    let lvl = lower_seq(level);
    if is_gm_family(fam) {
        if seed.len() < 2 {
            Err("GM P01/P59 seed must be at least 2 bytes"@)
        } else {
            let k = if contains(lvl, "2"@) || contains(lvl, "flash"@) || contains(lvl, "prog"@) {
                spec_p01_key(seed[0], seed[1], SecurityLevel::Level2)
            } else {
                spec_p01_key(seed[0], seed[1], SecurityLevel::Level1)
            };
            Ok(("gm_p01_lfsr16"@, seq![k.0, k.1]))
        }
    } else {
        Ok(("bosch_family_dispatcher"@, spec_bosch_verified_key(seed, family)))
    }
}

/// Derives a key offline: GM families use the P01 LFSR (level 2 when the level
/// names 2, flash or prog), everything else the Bosch dispatcher.
pub fn offline_seed_key(family: &str, seed_hex: &str, level: Option<&str>) -> (r: Result<OfflineKey, String>)
    ensures
        spec_seed_bytes(seed_hex@) matches Err(m) ==> (r matches Err(e) && e@ == m),
        spec_seed_bytes(seed_hex@) matches Ok(seed) ==> {
            let lv = match level {
                Some(l) => l@,
                None => Seq::<char>::empty(),
            };
            match spec_offline_key(family@, seed, lv) {
                Ok(p) => r matches Ok(k) && k.algo@ == p.0 && k.seed@ == seed && k.key@ == p.1,
                Err(m) => r matches Err(e) && e@ == m,
            }
        },
{
    let seed = match parse_seed_hex(seed_hex) {
        Ok(s) => s,
        Err(e) => return Err(e),
    };
    let fc = str_chars(family);
    let fam = upper_vec(fc.as_slice());
    let lc = match level {
        Some(l) => str_chars(l),
        None => Vec::new(),
    };
    let lvl = lower_vec(lc.as_slice());
    if has(fam.as_slice(), "P01") || has(fam.as_slice(), "P59") || has(fam.as_slice(), "GM") {
        if seed.len() < 2 {
            return Err(str_to_string("GM P01/P59 seed must be at least 2 bytes"));
        }
        let (kh, kl) = if has(lvl.as_slice(), "2") || has(lvl.as_slice(), "flash") || has(
            lvl.as_slice(),
            "prog",
        ) {
            p01_key_l2(seed[0], seed[1])
        } else {
            p01_key_l1(seed[0], seed[1])
        };
        return Ok(OfflineKey { algo: str_to_string("gm_p01_lfsr16"), seed, key: vec![kh, kl] });
    }
    let key = bosch_key_from_seed(seed.as_slice(), family);
    Ok(OfflineKey { algo: str_to_string("bosch_family_dispatcher"), seed, key })
}

// ── Calculator with measured tables and GM algorithms ───────────────────────

/// The calculator's answer; the application renders it as JSON.
#[derive(Clone, Debug)]
pub struct SeedKeyAnswer {
    pub family: String,
    pub level: String,
    pub algo: String,
    pub verified: bool,
    pub note: String,
    pub seed_hex: String,
    pub key: Vec<u8>,
    pub gm_algo: Option<u32>,
}

/// The seed of the calculator: an even, non-zero number of hex digits.
pub open spec fn spec_even_seed(s: Seq<char>) -> Result<Seq<u8>, Seq<char>> {
    let h = hex_digits(s);
    if h.len() == 0 || h.len() % 2 != 0 {
        Err("seed_hex must be an even-length hex string"@)
    } else {
        Ok(digit_pairs(h))
    }
}

pub open spec fn default_family() -> Seq<char> {
    "P01_0411"@
}

/// (algo, verified, note, key, gm algorithm) of the calculator.
pub open spec fn spec_seed_key(
    tables: SeedTableFile,
    gm: Seq<[u8; 13]>,
    seed: Seq<u8>,
    fam: Seq<char>,
    lvl: Seq<char>,
    algo: Option<u32>,
) -> Result<(Seq<char>, bool, Seq<char>, Seq<u8>, Option<u32>), Seq<char>> {
    match spec_lookup(tables, fam, seed, Some(lvl)) {
        Some(k) => Ok(("measured_table"@, true, "Measured pair from seed_tables.json."@, k, None)),
        None => match algo {
            Some(a) => if seed.len() < 2 {
                Err("GM 2-byte seed must be at least 2 bytes"@)
            } else {
                let key = spec_gm_key(gm, a as u16, be16(seed[0], seed[1]));
                Ok(
                    (
                        "gm_2byte_"@ + hex_pad(a as nat, 3),
                        true,
                        "Public 2-byte table algorithm (2byte-keys.txt). Not the licensed 5-byte GM library."@,
                        seq![hi8(key), lo8(key)],
                        Some(a),
                    ),
                )
            },
            None => if is_gm_family(upper_seq(fam)) {
                if seed.len() < 2 {
                    Err("P01/P59 seed must be at least 2 bytes"@)
                } else {
                    let k = if lvl == "2"@ {
                        spec_p01_key(seed[0], seed[1], SecurityLevel::Level2)
                    } else {
                        spec_p01_key(seed[0], seed[1], SecurityLevel::Level1)
                    };
                    Ok(
                        (
                            "p01_lfsr16"@,
                            true,
                            "GM P01/P59 LFSR. Pass algo (0-1023) to use the 2-byte table set instead."@,
                            seq![k.0, k.1],
                            None,
                        ),
                    )
                }
            } else {
                let b = spec_bosch_key(seed, fam);
                Ok((b.2, b.1, b.3, b.0, None))
            },
        },
    }
}

pub open spec fn answer_ok(
    r: SeedKeyAnswer,
    fam: Seq<char>,
    lvl: Seq<char>,
    seed: Seq<u8>,
    p: (Seq<char>, bool, Seq<char>, Seq<u8>, Option<u32>),
) -> bool {
    &&& r.family@ == fam
    &&& r.level@ == lvl
    &&& r.algo@ == p.0
    &&& r.verified == p.1
    &&& r.note@ == p.2
    &&& r.key@ == p.3
    &&& r.gm_algo == p.4
    &&& r.seed_hex@ == hex_str(seed)
}

fn even_seed(seed_hex: &str) -> (r: Result<Vec<u8>, String>)
    ensures
        spec_even_seed(seed_hex@) matches Ok(v) ==> (r matches Ok(b) && b@ == v),
        spec_even_seed(seed_hex@) matches Err(m) ==> (r matches Err(e) && e@ == m),
{
    let h = hex_digit_chars(seed_hex);
    if h.len() == 0 || h.len() % 2 != 0 {
        return Err(str_to_string("seed_hex must be an even-length hex string"));
    }
    Ok(hex_text_to_bytes(seed_hex))
}

/// The seed/key calculator: a measured pair when one answers, else the GM
/// table algorithm when one is named, else the P01 LFSR for GM families, else
/// the Bosch dispatcher. The family defaults to `P01_0411`, the level to `1`.
pub fn compute_seed_key(
    seed_tables: &SeedTableFile,
    gm_tables: &[[u8; 13]],
    seed_hex: &str,
    family: Option<&str>,
    level: Option<&str>,
    algo: Option<u32>,
) -> (r: Result<SeedKeyAnswer, String>)
    ensures
        spec_even_seed(seed_hex@) matches Err(m) ==> (r matches Err(e) && e@ == m),
        spec_even_seed(seed_hex@) matches Ok(seed) ==> {
            let fam = match family {
                Some(f) => f@,
                None => default_family(),
            };
            let lvl = match level {
                Some(l) => l@,
                None => "1"@,
            };
            match spec_seed_key(*seed_tables, gm_tables@, seed, fam, lvl, algo) {
                Ok(p) => r matches Ok(a) && answer_ok(a, fam, lvl, seed, p),
                Err(m) => r matches Err(e) && e@ == m,
            }
        },
{
    let seed = match even_seed(seed_hex) {
        Ok(s) => s,
        Err(e) => return Err(e),
    };
    let fam: String = match family {
        Some(f) => str_to_string(f),
        None => str_to_string("P01_0411"),
    };
    let lvl: String = match level {
        Some(l) => str_to_string(l),
        None => str_to_string("1"),
    };
    let seed_text = hex_upper(seed.as_slice());
    if let Some(key) = lookup(seed_tables, fam.as_str(), seed.as_slice(), Some(lvl.as_str())) {
        return Ok(SeedKeyAnswer {
            family: fam,
            level: lvl,
            algo: str_to_string("measured_table"),
            verified: true,
            note: str_to_string("Measured pair from seed_tables.json."),
            seed_hex: seed_text,
            key,
            gm_algo: None,
        });
    }
    if let Some(a) = algo {
        if seed.len() < 2 {
            return Err(str_to_string("GM 2-byte seed must be at least 2 bytes"));
        }
        let seed_u = from_be16(seed[0], seed[1]);
        let key_u = gm_2byte_key(gm_tables, a as u16, seed_u);
        let (kh, kl) = crate::bytes::to_be16(key_u);
        let mut name = str_to_string("gm_2byte_");
        push_hex_pad(&mut name, a as u64, 3);
        return Ok(SeedKeyAnswer {
            family: fam,
            level: lvl,
            algo: name,
            verified: true,
            note: str_to_string(
                "Public 2-byte table algorithm (2byte-keys.txt). Not the licensed 5-byte GM library.",
            ),
            seed_hex: seed_text,
            key: vec![kh, kl],
            gm_algo: Some(a),
        });
    }
    let fc = str_chars(fam.as_str());
    let fu = upper_vec(fc.as_slice());
    if has(fu.as_slice(), "P01") || has(fu.as_slice(), "P59") || has(fu.as_slice(), "GM") {
        if seed.len() < 2 {
            return Err(str_to_string("P01/P59 seed must be at least 2 bytes"));
        }
        let lc = str_chars(lvl.as_str());
        let two = str_chars("2");
        let (kh, kl) = if eq_chars(lc.as_slice(), two.as_slice()) {
            p01_key_l2(seed[0], seed[1])
        } else {
            p01_key_l1(seed[0], seed[1])
        };
        return Ok(SeedKeyAnswer {
            family: fam,
            level: lvl,
            algo: str_to_string("p01_lfsr16"),
            verified: true,
            note: str_to_string("GM P01/P59 LFSR. Pass algo (0-1023) to use the 2-byte table set instead."),
            seed_hex: seed_text,
            key: vec![kh, kl],
            gm_algo: None,
        });
    }
    let b = bosch_key_result(seed.as_slice(), fam.as_str());
    Ok(SeedKeyAnswer {
        family: fam,
        level: lvl,
        algo: b.algo,
        verified: b.verified,
        note: b.note,
        seed_hex: seed_text,
        key: b.key,
        gm_algo: None,
    })
}

/// Law: a measured pair for the family, seed and level wins over every
/// algorithm, whatever GM table or algorithm index is given, and is reported
/// as verified.
pub proof fn law_measured_pairs_win(
    tables: SeedTableFile,
    gm: Seq<[u8; 13]>,
    seed: Seq<u8>,
    fam: Seq<char>,
    lvl: Seq<char>,
    algo: Option<u32>,
)
    requires
        spec_lookup(tables, fam, seed, Some(lvl)) is Some,
    ensures
        spec_seed_key(tables, gm, seed, fam, lvl, algo) == Ok::<(Seq<char>, bool, Seq<char>, Seq<u8>, Option<u32>), Seq<char>>(
            (
                "measured_table"@,
                true,
                "Measured pair from seed_tables.json."@,
                spec_lookup(tables, fam, seed, Some(lvl)).unwrap(),
                None,
            ),
        ),
{
}

/// Law: the hex text of a non-empty seed (as the calculators echo it) reads
/// back as the same seed.
pub proof fn law_seed_hex_reads_back(b: Seq<u8>)
    requires
        b.len() > 0,
    ensures
        spec_seed_bytes(hex_str(b)) == Ok::<Seq<u8>, Seq<char>>(b),
{
    lemma_hex_str_pairs(b);
    let h = hex_str(b);
    assert forall|i: int| 0 <= i < h.len() implies is_hex_char(#[trigger] h[i]) by {
        let k = i / 2;
        assert(0 <= k < b.len());
        lemma_digit_char_hex(b[k] as nat / 16);
        lemma_digit_char_hex(b[k] as nat % 16);
        if i % 2 == 0 {
            assert(i == 2 * k);
        } else {
            assert(i == 2 * k + 1);
        }
    }
    lemma_hex_digits_id(h);
    assert(h.len() % 2 == 0);
    assert forall|k: int| 0 <= k < b.len() implies digit_pairs(h)[k] == b[k] by {
        lemma_digit_char_hex(b[k] as nat / 16);
        lemma_digit_char_hex(b[k] as nat % 16);
        assert(hex_val(h[2 * k]) * 16 + hex_val(h[2 * k + 1]) == b[k] as nat);
    }
    assert(digit_pairs(h) =~= b);
}

} // verus!
