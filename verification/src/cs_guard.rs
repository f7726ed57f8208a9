//! Honda / P01 size-collision guards.
//!
//! A P01-sized image that carries a Honda OS string and no GM OS string must not
//! be fed to the P01 additive corrector.
use vstd::prelude::*;
use crate::sizes::{is_p01_size, spec_is_p01_size};
use crate::text::{hex_pad, push_hex_pad, str_to_string};

verus! {

/// ASCII upper-case of one byte.
pub open spec fn upper_byte(b: u8) -> u8 {
    if 0x61 <= b && b <= 0x7A {
        (b - 32) as u8
    } else {
        b
    }
}

/// `needle` occurs in `hay` at `i`, comparing ASCII case-insensitively.
pub open spec fn ci_occurs_at(hay: Seq<u8>, needle: Seq<u8>, i: int) -> bool {
    &&& 0 <= i
    &&& i + needle.len() <= hay.len()
    &&& forall|j: int| 0 <= j < needle.len() ==> upper_byte(#[trigger] hay[i + j]) == needle[j]
}

pub open spec fn ci_contains(hay: Seq<u8>, needle: Seq<u8>) -> bool {
    exists|i: int| ci_occurs_at(hay, needle, i)
}

fn to_upper_byte(b: u8) -> (r: u8)
    ensures
        r == upper_byte(b),
{
    if 0x61 <= b && b <= 0x7A {
        b - 32
    } else {
        b
    }
}

fn ci_match_at(hay: &[u8], needle: &[u8], i: usize) -> (r: bool)
    requires
        i + needle.len() <= hay.len(),
    ensures
        r == ci_occurs_at(hay@, needle@, i as int),
{
    let mut k: usize = 0;
    while k < needle.len()
        invariant
            k <= needle.len(),
            i + needle.len() <= hay.len(),
            forall|j: int| 0 <= j < k ==> upper_byte(#[trigger] hay@[i + j]) == needle@[j],
        decreases needle.len() - k,
    {
        if to_upper_byte(hay[i + k]) != needle[k] {
            return false;
        }
        k += 1;
    }
    true
}

/// Case-insensitive (ASCII) search of an upper-case needle in a byte image.
pub fn contains_ci(hay: &[u8], needle: &[u8]) -> (r: bool)
    ensures
        r == ci_contains(hay@, needle@),
{
    if needle.len() > hay.len() {
        return false;
    }
    let last = hay.len() - needle.len();
    let mut i: usize = 0;
    while i <= last
        invariant
            last + needle.len() == hay.len(),
            forall|j: int| 0 <= j < i ==> !ci_occurs_at(hay@, needle@, j),
        decreases last + 1 - i,
    {
        if ci_match_at(hay, needle, i) {
            return true;
        }
        if i == last {
            return false;
        }
        i += 1;
    }
    false
}

pub open spec fn honda_needle(k: int) -> Seq<u8> {
    if k == 0 {
        seq![0x33u8, 0x37, 0x38, 0x32, 0x30]  // "37820"

    } else if k == 1 {
        seq![0x4Bu8, 0x45, 0x49, 0x48, 0x49, 0x4E]  // "KEIHIN"

    } else if k == 2 {
        seq![0x4Bu8, 0x32, 0x30, 0x41]  // "K20A"

    } else {
        seq![0x4Bu8, 0x32, 0x34, 0x41]  // "K24A"

    }
}

pub open spec fn gm_p01_needle(k: int) -> Seq<u8> {
    if k == 0 {
        seq![0x31u8, 0x32, 0x32, 0x32, 0x35, 0x30, 0x37, 0x34]  // "12225074"

    } else if k == 1 {
        seq![0x31u8, 0x32, 0x32, 0x30, 0x30, 0x34, 0x31, 0x31]  // "12200411"

    } else {
        seq![0x50u8, 0x30, 0x31]  // "P01"

    }
}

/// The image holds a Honda / Keihin OS string ("37820", "KEIHIN", "K20A" or
/// "K24A", ASCII case-insensitive).
pub open spec fn spec_looks_like_honda(d: Seq<u8>) -> bool {
    exists|k: int| 0 <= k < 4 && ci_contains(d, #[trigger] honda_needle(k))
}

/// The image holds a GM P01 OS string ("12225074", "12200411" or "P01",
/// ASCII case-insensitive).
pub open spec fn spec_looks_like_gm_p01(d: Seq<u8>) -> bool {
    exists|k: int| 0 <= k < 3 && ci_contains(d, #[trigger] gm_p01_needle(k))
}

pub open spec fn spec_honda_blocks_p01(d: Seq<u8>) -> bool {
    spec_is_p01_size(d.len() as int) && spec_looks_like_honda(d) && !spec_looks_like_gm_p01(d)
}

pub fn looks_like_honda(data: &[u8]) -> (r: bool)
    ensures
        r == spec_looks_like_honda(data@),
{
    let n0 = vec![0x33u8, 0x37, 0x38, 0x32, 0x30];
    let n1 = vec![0x4Bu8, 0x45, 0x49, 0x48, 0x49, 0x4E];
    let n2 = vec![0x4Bu8, 0x32, 0x30, 0x41];
    let n3 = vec![0x4Bu8, 0x32, 0x34, 0x41];
    assert(n0@ == honda_needle(0));
    assert(n1@ == honda_needle(1));
    assert(n2@ == honda_needle(2));
    assert(n3@ == honda_needle(3));
    let r = contains_ci(data, n0.as_slice()) || contains_ci(data, n1.as_slice()) || contains_ci(
        data,
        n2.as_slice(),
    ) || contains_ci(data, n3.as_slice());
    proof {
        if !r {
            assert forall|k: int| 0 <= k < 4 implies !ci_contains(data@, #[trigger] honda_needle(k)) by {
                if k == 0 {
                } else if k == 1 {
                } else if k == 2 {
                } else {
                }
            }
        }
    }
    r
}

pub fn looks_like_gm_p01(data: &[u8]) -> (r: bool)
    ensures
        r == spec_looks_like_gm_p01(data@),
{
    let n0 = vec![0x31u8, 0x32, 0x32, 0x32, 0x35, 0x30, 0x37, 0x34];
    let n1 = vec![0x31u8, 0x32, 0x32, 0x30, 0x30, 0x34, 0x31, 0x31];
    let n2 = vec![0x50u8, 0x30, 0x31];
    assert(n0@ == gm_p01_needle(0));
    assert(n1@ == gm_p01_needle(1));
    assert(n2@ == gm_p01_needle(2));
    let r = contains_ci(data, n0.as_slice()) || contains_ci(data, n1.as_slice()) || contains_ci(
        data,
        n2.as_slice(),
    );
    proof {
        if !r {
            assert forall|k: int| 0 <= k < 3 implies !ci_contains(data@, #[trigger] gm_p01_needle(k)) by {
                if k == 0 {
                } else if k == 1 {
                } else {
                }
            }
        }
    }
    r
}

/// A P01-sized image with a Honda OS string and no GM P01 OS string.
pub fn honda_blocks_p01_corrector(data: &[u8]) -> (r: bool)
    ensures
        r == spec_honda_blocks_p01(data@),
{
    is_p01_size(data.len()) && looks_like_honda(data) && !looks_like_gm_p01(data)
}

// ── Zero-sum window scan ────────────────────────────────────────────────────

/// The 16-bit sum (wrapping) of the big-endian words at `i`, `i + 2`, ...
/// while the word's second byte is at or before `end`.
pub open spec fn pair_sum(data: Seq<u8>, i: int, end: int) -> nat
    decreases end + 1 - i,
{
    if i + 1 > end || i < 0 || end >= data.len() {
        0
    } else {
        ((data[i] as nat) * 256 + data[i + 1] as nat + pair_sum(data, i + 2, end)) % 0x10000
    }
}

pub open spec fn win_end(len: nat, off: nat, step: nat) -> nat {
    ((if off + step < len { off + step } else { len }) - 1) as nat
}

/// Windows of `step` bytes from `off` on: those whose word sum is zero, as
/// (start, end) pairs; the scan stops after 32 of them or at the last window.
pub open spec fn zero_windows(data: Seq<u8>, off: nat, step: nat, found: nat) -> Seq<(nat, nat)>
    decreases data.len() - off,
{
    if off + 4 > data.len() || step == 0 {
        Seq::empty()
    } else {
        let end = win_end(data.len(), off, step);
        let hit = pair_sum(data, off as int, end as int) == 0;
        let f2 = if hit { found + 1 } else { found };
        let cur: Seq<(nat, nat)> = if hit { seq![(off, end)] } else { Seq::empty() };
        if f2 >= 32 || off + step >= data.len() {
            cur
        } else {
            cur + zero_windows(data, off + step, step, f2)
        }
    }
}

pub open spec fn scan_window(len: nat) -> nat {
    if len < 0x10000 {
        len
    } else {
        0x10000
    }
}

/// A window whose additive word sum is already zero.
#[derive(Debug)]
pub struct ChecksumCandidate {
    pub start: String,
    pub end: String,
    pub sum16: String,
    pub hint: String,
}

/// A report-only scan for zero-sum windows, with the OS-string guards.
#[derive(Debug)]
pub struct CandidateScan {
    pub bytes: usize,
    pub window: usize,
    pub candidates: Vec<ChecksumCandidate>,
    pub honda_os: bool,
    pub gm_p01_os: bool,
    pub honda_blocks_p01: bool,
    pub note: String,
}

pub open spec fn candidate_is(c: ChecksumCandidate, w: (nat, nat)) -> bool {
    &&& c.start@ == "0x"@ + hex_pad(w.0, 6)
    &&& c.end@ == "0x"@ + hex_pad(w.1, 6)
    &&& c.sum16@ == "0x0000"@
    &&& c.hint@ == "already-zero additive window"@
}

fn window_sum(data: &[u8], off: usize, end: usize) -> (r: u16)
    requires
        off <= end < data@.len(),
    ensures
        r as nat == pair_sum(data@, off as int, end as int),
{
    let mut sum: u16 = 0;
    let mut i = off;
    while i < end
        invariant
            off <= i,
            end < data@.len(),
            i <= end + 2,
            (sum as nat + pair_sum(data@, i as int, end as int)) % 0x10000 == pair_sum(data@, off as int, end as int),
        decreases end + 2 - i,
    {
        let hi = data[i];
        let lo = data[i + 1];
        let w: u16 = ((hi as u16) << 8) | lo as u16;
        assert(w as nat == (hi as nat) * 256 + lo as nat) by (bit_vector)
            requires w == (((hi as u16) << 8) | lo as u16);
        let ghost rest = pair_sum(data@, i + 2, end as int);
        let ghost old_sum = sum;
        sum = sum.wrapping_add(w);
        proof {
            assert(sum as nat == (old_sum as nat + w as nat) % 0x10000);
            assert(pair_sum(data@, i as int, end as int) == (w as nat + rest) % 0x10000);
            assert((old_sum as nat + (w as nat + rest) % 0x10000) % 0x10000 == ((old_sum as nat + w as nat) % 0x10000 + rest) % 0x10000) by (nonlinear_arith);
        }
        i += 2;
    }
    proof {
        assert(pair_sum(data@, i as int, end as int) == 0);
        assert((sum as nat) % 0x10000 == sum as nat);
    }
    sum
}

/// Scans the image for windows of 64 KiB (or the whole image if smaller)
/// whose big-endian word sum is already zero, at most 32 of them. Report only:
/// such a window is no checksum corrector.
pub fn scan_checksum_candidates(data: &[u8]) -> (r: CandidateScan)
    ensures
        data@.len() < 4 ==> r.candidates@.len() == 0 && r.note@ == "image too small"@,
        data@.len() >= 4 ==> ({
            let ws = zero_windows(data@, 0, scan_window(data@.len()), 0);
            &&& r.bytes == data@.len()
            &&& r.window == scan_window(data@.len())
            &&& r.candidates@.len() == ws.len()
            &&& (forall|i: int| 0 <= i < ws.len() ==> candidate_is(#[trigger] r.candidates@[i], ws[i]))
            &&& r.honda_os == spec_looks_like_honda(data@)
            &&& r.gm_p01_os == spec_looks_like_gm_p01(data@)
            &&& r.honda_blocks_p01 == spec_honda_blocks_p01(data@)
            &&& r.note@ == "Report-only. A zero-sum window is not a corrector. Do not invent CS bytes."@
        }),
{
    let n = data.len();
    if n < 4 {
        return CandidateScan {
            bytes: n,
            window: 0,
            candidates: Vec::new(),
            honda_os: false,
            gm_p01_os: false,
            honda_blocks_p01: false,
            note: str_to_string("image too small"),
        };
    }
    let step: usize = if n < 0x10000 {
        n
    } else {
        0x10000
    };
    let ghost goal = zero_windows(data@, 0, step as nat, 0);
    let mut hits: Vec<ChecksumCandidate> = Vec::new();
    let ghost mut got: Seq<(nat, nat)> = Seq::empty();
    let mut off: usize = 0;
    let mut more = true;
    while more && off <= n && n - off >= 4
        invariant
            n == data@.len(),
            n >= 4,
            1 <= step <= n,
            more ==> goal == got + zero_windows(data@, off as nat, step as nat, hits@.len() as nat),
            !more ==> goal == got,
            hits@.len() == got.len(),
            forall|i: int| 0 <= i < got.len() ==> candidate_is(#[trigger] hits@[i], got[i]),
            off <= n,
        decreases n - off + (if more { 1int } else { 0int }),
    {
        let end: usize = (if step < n - off {
            off + step
        } else {
            n
        }) - 1;
        let sum = window_sum(data, off, end);
        let ghost f0 = hits@.len() as nat;
        let ghost hit = sum == 0;
        let ghost cur: Seq<(nat, nat)> = if hit { seq![(off as nat, end as nat)] } else { Seq::empty() };
        if sum == 0 {
            let mut start_s = str_to_string("0x");
            push_hex_pad(&mut start_s, off as u64, 6);
            let mut end_s = str_to_string("0x");
            push_hex_pad(&mut end_s, end as u64, 6);
            hits.push(ChecksumCandidate {
                start: start_s,
                end: end_s,
                sum16: str_to_string("0x0000"),
                hint: str_to_string("already-zero additive window"),
            });
        }
        proof {
            assert(got + zero_windows(data@, off as nat, step as nat, f0) == got + (if hits@.len() >= 32 || off + step >= n { cur } else { cur + zero_windows(data@, (off + step) as nat, step as nat, hits@.len() as nat) }));
            got = got + cur;
        }
        if hits.len() >= 32 || step >= n - off {
            more = false;
        } else {
            proof {
                assert(goal == got + zero_windows(data@, (off + step) as nat, step as nat, hits@.len() as nat));
            }
            off += step;
        }
    }
    proof {
        if more {
            assert(zero_windows(data@, off as nat, step as nat, hits@.len() as nat) == Seq::<(nat, nat)>::empty());
            assert(got + Seq::<(nat, nat)>::empty() =~= got);
        }
    }
    CandidateScan {
        bytes: n,
        window: step,
        candidates: hits,
        honda_os: looks_like_honda(data),
        gm_p01_os: looks_like_gm_p01(data),
        honda_blocks_p01: honda_blocks_p01_corrector(data),
        note: str_to_string("Report-only. A zero-sum window is not a corrector. Do not invent CS bytes."),
    }
}

} // verus!
