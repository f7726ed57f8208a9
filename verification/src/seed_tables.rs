//! Measured seed→key pairs supplied by the user, and their lookup.
use vstd::prelude::*;
use crate::text::{
    contains, contains_chars, digit_pairs, eq_chars, hex_str, hex_upper, norm_hex, norm_hex_spec,
    str_chars, upper_seq, upper_vec, hex_text_to_bytes, spec_hex_bytes, chars_to_string,
};

verus! {

/// One captured pair.
#[derive(Clone, Debug)]
pub struct SeedPair {
    pub family: String,
    pub seed_hex: String,
    pub key_hex: String,
    pub level: Option<String>,
    pub notes: Option<String>,
}

/// The pairs file.
#[derive(Clone, Debug)]
pub struct SeedTableFile {
    pub version: Option<String>,
    pub pairs: Vec<SeedPair>,
}

impl Default for SeedTableFile {
    fn default() -> (r: Self)
        ensures
            r.version is None,
            r.pairs@.len() == 0,
    {
        SeedTableFile { version: None, pairs: Vec::new() }
    }
}

/// A pair answers a request when its family names the requested one
/// (case-insensitive equal, or contained in it), its seed is the seed, its level
/// agrees when both are given, and its key holds an even number (at least two)
/// of hex digits.
pub open spec fn pair_answers(p: SeedPair, fam: Seq<char>, seed: Seq<u8>, level: Option<Seq<char>>) -> bool {
    let pf = upper_seq(p.family@);
    &&& (pf == fam || contains(fam, pf))
    &&& norm_hex_spec(p.seed_hex@) == hex_str(seed)
    &&& match (level, p.level) {
        (Some(w), Some(h)) => upper_seq(h@) == w,
        _ => true,
    }
    &&& norm_hex_spec(p.key_hex@).len() >= 2
    &&& norm_hex_spec(p.key_hex@).len() % 2 == 0
}

/// The key of the first pair from `i` on that answers the request.
pub open spec fn lookup_from(
    pairs: Seq<SeedPair>,
    i: int,
    fam: Seq<char>,
    seed: Seq<u8>,
    level: Option<Seq<char>>,
) -> Option<Seq<u8>>
    decreases pairs.len() - i,
{
    if i >= pairs.len() || i < 0 {
        None
    } else if pair_answers(pairs[i], fam, seed, level) {
        Some(digit_pairs(norm_hex_spec(pairs[i].key_hex@)))
    } else {
        lookup_from(pairs, i + 1, fam, seed, level)
    }
}

pub open spec fn spec_lookup(t: SeedTableFile, family: Seq<char>, seed: Seq<u8>, level: Option<Seq<char>>) -> Option<Seq<u8>> {
    lookup_from(
        t.pairs@,
        0,
        upper_seq(family),
        seed,
        match level {
            Some(l) => Some(upper_seq(l)),
            None => None,
        },
    )
}

fn upper_of(s: &str) -> (r: Vec<char>)
    ensures
        r@ == upper_seq(s@),
{
    let c = str_chars(s);
    upper_vec(c.as_slice())
}

fn pair_key(p: &SeedPair) -> (r: Vec<u8>)
    ensures
        r@ == digit_pairs(norm_hex_spec(p.key_hex@)),
{
    let k = norm_hex(p.key_hex.as_str());
    let t = chars_to_string(k.as_slice());
    let r = hex_text_to_bytes(t.as_str());
    proof {
        let h = crate::text::hex_digits(p.key_hex@);
        crate::text::lemma_hex_digits_all_hex(p.key_hex@);
        let u = upper_seq(h);
        assert forall|i: int| 0 <= i < u.len() implies crate::text::is_hex_char(#[trigger] u[i]) by {
            assert(crate::text::is_hex_char(h[i]));
        }
        crate::text::lemma_hex_digits_id(u);
    }
    r
}

/// The measured key for `seed` in `family`, from the first pair that answers.
pub fn lookup(table: &SeedTableFile, family: &str, seed: &[u8], level: Option<&str>) -> (r: Option<Vec<u8>>)
    ensures
        spec_lookup(*table, family@, seed@, match level {
            Some(l) => Some(l@),
            None => None,
        }) matches Some(k) ==> (r matches Some(v) && v@ == k),
        spec_lookup(*table, family@, seed@, match level {
            Some(l) => Some(l@),
            None => None,
        }) is None ==> r is None,
{
    let fam = upper_of(family);
    let seed_text = hex_upper(seed);
    let seed_hex = str_chars(seed_text.as_str());
    let want: Option<Vec<char>> = match level {
        Some(l) => Some(upper_of(l)),
        None => None,
    };
    let ghost lv: Option<Seq<char>> = match level {
        Some(l) => Some(upper_seq(l@)),
        None => None,
    };
    let mut i: usize = 0;
    while i < table.pairs.len()
        invariant
            i <= table.pairs@.len(),
            fam@ == upper_seq(family@),
            seed_hex@ == hex_str(seed@),
            want matches Some(w) ==> lv == Some(w@),
            want is None ==> lv is None,
            lv == match level {
                Some(l) => Some(upper_seq(l@)),
                None => None::<Seq<char>>,
            },
            lookup_from(table.pairs@, 0, fam@, seed@, lv) == lookup_from(table.pairs@, i as int, fam@, seed@, lv),
        decreases table.pairs.len() - i,
    {
        let p = &table.pairs[i];
        let pf = upper_of(p.family.as_str());
        let fam_ok = eq_chars(pf.as_slice(), fam.as_slice()) || contains_chars(fam.as_slice(), pf.as_slice());
        let ps = norm_hex(p.seed_hex.as_str());
        let seed_ok = eq_chars(ps.as_slice(), seed_hex.as_slice());
        let level_ok = match (&want, &p.level) {
            (Some(w), Some(h)) => {
                let hu = upper_of(h.as_str());
                eq_chars(hu.as_slice(), w.as_slice())
            },
            _ => true,
        };
        let kn = norm_hex(p.key_hex.as_str());
        let key_ok = kn.len() >= 2 && kn.len() % 2 == 0;
        if fam_ok && seed_ok && level_ok && key_ok {
            assert(pair_answers(table.pairs@[i as int], fam@, seed@, lv));
            return Some(pair_key(p));
        }
        assert(!pair_answers(table.pairs@[i as int], fam@, seed@, lv));
        i += 1;
    }
    None
}

} // verus!
