//! Windowed live read-back after a write: comparing the windows read from
//! the controller with the written image, and summarizing them as a backup.
use vstd::prelude::*;
use crate::checksum::{crc32_ieee, spec_crc32};
use crate::bytes::extend_bytes;
use crate::text::{dec, hex_pad, push_dec, push_hex_pad, push_str, str_to_string, contains, contains_chars, str_chars, upper_seq, upper_vec};

verus! {

/// One window read from the controller at an offset of the image.
#[derive(Clone, Debug)]
pub struct LiveWindow {
    pub label: String,
    pub offset: usize,
    pub data: Vec<u8>,
    pub method: String,
}

/// What a live backup gathered.
#[derive(Clone, Debug)]
pub struct WindowBackup {
    pub failed: bool,
    pub path: String,
    pub bytes: u32,
    pub crc32: Option<u32>,
    pub notes: String,
}

/// The bytes of a window compared with the image (0 when it does not overlap).
pub open spec fn overlap_len(wlen: nat, w: LiveWindow) -> nat {
    let end = if w.offset + w.data@.len() < wlen { w.offset + w.data@.len() } else { wlen as int };
    if w.offset >= wlen || end <= w.offset {
        0
    } else {
        (end - w.offset) as nat
    }
}

/// Matching bytes of a window within its overlap.
pub open spec fn window_matches(img: Seq<u8>, w: LiveWindow, n: nat) -> nat
    decreases n,
{
    if n == 0 {
        0
    } else {
        window_matches(img, w, (n - 1) as nat) + if img[w.offset + n - 1] == w.data@[n - 1] {
            1nat
        } else {
            0nat
        }
    }
}

pub open spec fn total_compared(img: Seq<u8>, ws: Seq<LiveWindow>) -> nat
    decreases ws.len(),
{
    if ws.len() == 0 {
        0
    } else {
        total_compared(img, ws.drop_last()) + overlap_len(img.len(), ws.last())
    }
}

pub open spec fn total_matched(img: Seq<u8>, ws: Seq<LiveWindow>) -> nat
    decreases ws.len(),
{
    if ws.len() == 0 {
        0
    } else {
        total_matched(img, ws.drop_last()) + window_matches(img, ws.last(), overlap_len(img.len(), ws.last()))
    }
}

/// The log lines of the windows that overlap the image.
pub open spec fn window_logs(img_len: nat, ws: Seq<LiveWindow>) -> Seq<Seq<char>>
    decreases ws.len(),
{
    if ws.len() == 0 {
        Seq::empty()
    } else {
        let prev = window_logs(img_len, ws.drop_last());
        let w = ws.last();
        if overlap_len(img_len, w) == 0 {
            prev
        } else {
            prev.push(
                "Live window "@ + w.label@ + " @0x"@ + hex_pad(w.offset as nat, 6) + " "@ + dec(w.data@.len())
                    + " bytes via "@ + w.method@,
            )
        }
    }
}

pub open spec fn bool_text(b: bool) -> Seq<char> {
    if b {
        "true"@
    } else {
        "false"@
    }
}

/// The outcome of `compare_windows`: the image CRC and whether every compared
/// byte matched (at least 16 compared), with the lines it logs.
pub open spec fn spec_compare(img: Seq<u8>, ws: Seq<LiveWindow>) -> Result<(u32, bool), Seq<char>> {
    let c = total_compared(img, ws);
    let m = total_matched(img, ws);
    if ws.len() == 0 {
        Err("No Mode 23 / Mode 3C / KWP 0x23 windows. Kernel or UDS session required."@)
    } else if c == 0 {
        Err("Windows returned but none overlapped the written image."@)
    } else {
        Ok((spec_crc32(img), m == c && c >= 16))
    }
}

pub open spec fn compare_log(img: Seq<u8>, ws: Seq<LiveWindow>) -> Seq<char> {
    let c = total_compared(img, ws);
    let m = total_matched(img, ws);
    "Live compare "@ + dec(m) + " / "@ + dec(c) + " bytes (verified_live="@ + bool_text(m == c && c >= 16)
        + ") expected_crc=0x"@ + hex_pad(spec_crc32(img) as nat, 8)
}

pub open spec fn logs_view(l: Seq<String>) -> Seq<Seq<char>> {
    Seq::new(l.len(), |i: int| l[i]@)
}

proof fn lemma_matches_bound(img: Seq<u8>, w: LiveWindow, n: nat)
    ensures
        window_matches(img, w, n) <= n,
    decreases n,
{
    if n > 0 {
        lemma_matches_bound(img, w, (n - 1) as nat);
    }
}

proof fn lemma_totals_bound(img: Seq<u8>, ws: Seq<LiveWindow>)
    ensures
        total_matched(img, ws) <= total_compared(img, ws),
    decreases ws.len(),
{
    if ws.len() > 0 {
        lemma_totals_bound(img, ws.drop_last());
        lemma_matches_bound(img, ws.last(), overlap_len(img.len(), ws.last()));
    }
}

/// Compares live windows with the written image. The byte counts must fit
/// the machine word, as must every window's end offset.
pub fn compare_windows(written: &[u8], windows: &[LiveWindow], logs: &mut Vec<String>) -> (r: Result<
    (u32, bool),
    String,
>)
    requires
        total_compared(written@, windows@) <= usize::MAX,
        forall|i: int| 0 <= i < windows@.len() ==> #[trigger] windows@[i].offset + windows@[i].data@.len() <= usize::MAX,
    ensures
        spec_compare(written@, windows@) matches Ok(v) ==> r == Ok::<(u32, bool), String>(v),
        spec_compare(written@, windows@) matches Err(m) ==> (r matches Err(e) && e@ == m),
        windows@.len() == 0 ==> final(logs)@ == old(logs)@,
        windows@.len() > 0 ==> logs_view(final(logs)@) == logs_view(old(logs)@) + window_logs(written@.len(), windows@)
            + if total_compared(written@, windows@) == 0 { Seq::empty() } else { seq![compare_log(written@, windows@)] },
{
    let expected = crc32_ieee(written);
    if windows.len() == 0 {
        return Err(str_to_string("No Mode 23 / Mode 3C / KWP 0x23 windows. Kernel or UDS session required."));
    }
    let ghost l0 = logs_view(logs@);
    let mut matched: usize = 0;
    let mut compared: usize = 0;
    let mut k: usize = 0;
    while k < windows.len()
        invariant
            k <= windows@.len(),
            total_compared(written@, windows@) <= usize::MAX,
            forall|i: int| 0 <= i < windows@.len() ==> #[trigger] windows@[i].offset + windows@[i].data@.len() <= usize::MAX,
            compared == total_compared(written@, windows@.take(k as int)),
            matched == total_matched(written@, windows@.take(k as int)),
            logs_view(logs@) == l0 + window_logs(written@.len(), windows@.take(k as int)),
        decreases windows.len() - k,
    {
        let w = &windows[k];
        proof {
            assert(windows@.take(k + 1).drop_last() == windows@.take(k as int));
            assert(windows@.take(k + 1).last() == windows@[k as int]);
            lemma_compared_prefix(written@, windows@, k as int + 1);
            lemma_totals_bound(written@, windows@.take(k + 1));
        }
        let stop = w.offset + w.data.len();
        let end = if stop < written.len() {
            stop
        } else {
            written.len()
        };
        if !(w.offset >= written.len() || end <= w.offset) {
            let off = w.offset;
            let wl = written.len();
            let n = end - off;
            let mut j: usize = 0;
            let mut wm: usize = 0;
            while j < n
                invariant
                    j <= n,
                    off == w.offset,
                    wl == written@.len(),
                    off + n <= wl,
                    n == overlap_len(written@.len(), *w),
                    w.offset + n <= written@.len(),
                    n <= w.data@.len(),
                    wm == window_matches(written@, *w, j as nat),
                    wm <= j,
                decreases n - j,
            {
                proof {
                    lemma_matches_bound(written@, *w, (j + 1) as nat);
                }
                if written[off + j] == w.data[j] {
                    wm += 1;
                }
                j += 1;
            }
            compared += n;
            matched += wm;
            let mut line = str_to_string("Live window ");
            push_str(&mut line, w.label.as_str());
            push_str(&mut line, " @0x");
            push_hex_pad(&mut line, w.offset as u64, 6);
            push_str(&mut line, " ");
            push_dec(&mut line, w.data.len() as u64);
            push_str(&mut line, " bytes via ");
            push_str(&mut line, w.method.as_str());
            let ghost before = logs@;
            logs.push(line);
            assert(logs_view(logs@) == logs_view(before).push(line@));
        }
        k += 1;
    }
    assert(windows@.take(windows@.len() as int) == windows@);
    if compared == 0 {
        return Err(str_to_string("Windows returned but none overlapped the written image."));
    }
    let ok = matched == compared && compared >= 16;
    let mut line = str_to_string("Live compare ");
    push_dec(&mut line, matched as u64);
    push_str(&mut line, " / ");
    push_dec(&mut line, compared as u64);
    push_str(&mut line, " bytes (verified_live=");
    if ok {
        push_str(&mut line, "true");
    } else {
        push_str(&mut line, "false");
    }
    push_str(&mut line, ") expected_crc=0x");
    push_hex_pad(&mut line, expected as u64, 8);
    let ghost before = logs@;
    logs.push(line);
    assert(logs_view(logs@) == logs_view(before).push(line@));
    Ok((expected, ok))
}

proof fn lemma_compared_prefix(img: Seq<u8>, ws: Seq<LiveWindow>, k: int)
    requires
        0 <= k <= ws.len(),
    ensures
        total_compared(img, ws.take(k)) <= total_compared(img, ws),
    decreases ws.len() - k,
{
    if k < ws.len() {
        lemma_compared_prefix(img, ws, k + 1);
        assert(ws.take(k + 1).drop_last() == ws.take(k));
    } else {
        assert(ws.take(k) == ws);
    }
}

/// Concatenated window data.
pub open spec fn windows_data(ws: Seq<LiveWindow>) -> Seq<u8>
    decreases ws.len(),
{
    if ws.len() == 0 {
        Seq::empty()
    } else {
        windows_data(ws.drop_last()) + ws.last().data@
    }
}

/// The backup record of the windows of a live read: a failure when none came
/// back, else their concatenated bytes, size and CRC-32. The byte count must
/// fit in 32 bits.
pub fn backup_from_windows(windows: &[LiveWindow]) -> (r: WindowBackup)
    requires
        windows_data(windows@).len() <= u32::MAX,
    ensures
        windows@.len() == 0 ==> r.failed && r.path@.len() == 0 && r.bytes == 0 && r.crc32 is None
            && r.notes@ == "No Mode 23 / 3C windows. Not a full-image backup."@,
        windows@.len() > 0 ==> !r.failed && r.path@ == "live-windows:"@ + dec(windows@.len())
            && r.bytes == windows_data(windows@).len() && r.crc32 == Some(spec_crc32(windows_data(windows@)))
            && r.notes@ == "Collected "@ + dec(windows_data(windows@).len()) + " bytes across "@ + dec(
            windows@.len(),
        ) + " live windows. PartialDidOnly \u{2014} not a full flash dump."@,
{
    if windows.len() == 0 {
        return WindowBackup {
            failed: true,
            path: String::new(),
            bytes: 0,
            crc32: None,
            notes: str_to_string("No Mode 23 / 3C windows. Not a full-image backup."),
        };
    }
    let mut src: Vec<u8> = Vec::new();
    let mut k: usize = 0;
    while k < windows.len()
        invariant
            k <= windows@.len(),
            src@ == windows_data(windows@.take(k as int)),
        decreases windows.len() - k,
    {
        assert(windows@.take(k + 1).drop_last() == windows@.take(k as int));
        extend_bytes(&mut src, windows[k].data.as_slice());
        k += 1;
    }
    assert(windows@.take(windows@.len() as int) == windows@);
    let mut path = str_to_string("live-windows:");
    push_dec(&mut path, windows.len() as u64);
    let mut notes = str_to_string("Collected ");
    push_dec(&mut notes, src.len() as u64);
    push_str(&mut notes, " bytes across ");
    push_dec(&mut notes, windows.len() as u64);
    push_str(&mut notes, " live windows. PartialDidOnly \u{2014} not a full flash dump.");
    WindowBackup { failed: false, path, bytes: src.len() as u32, crc32: Some(crc32_ieee(src.as_slice())), notes }
}

/// Where a controller family keeps the calibration read back after a write,
/// and which read paths apply: kernel Mode 3C for GM, UDS/KWP 0x23 for Bosch.
#[derive(Clone, Copy, Debug, PartialEq, Eq, Structural)]
pub struct ProbePlan {
    pub cal_addr: u32,
    pub gm_vpw: bool,
    pub bosch: bool,
}

pub open spec fn fam_has(family: Seq<char>, word: Seq<char>) -> bool {
    contains(upper_seq(family), word)
}

pub open spec fn spec_probe_plan(family: Seq<char>) -> ProbePlan {
    ProbePlan {
        cal_addr: if fam_has(family, "EDC"@) || fam_has(family, "MED"@) { 0x0008_0000 } else { 0x0002_0000 },
        gm_vpw: fam_has(family, "P01"@) || fam_has(family, "P59"@) || fam_has(family, "GM"@),
        bosch: fam_has(family, "EDC"@) || fam_has(family, "MED"@) || fam_has(family, "BOSCH"@),
    }
}

fn fam_word(up: &Vec<char>, w: &str) -> (r: bool)
    ensures
        r == contains(up@, w@),
{
    let wv = str_chars(w);
    contains_chars(up.as_slice(), wv.as_slice())
}

/// Where a read-back probes for a family, and which read paths it tries:
/// kernel Mode 3C for GM, UDS and KWP 0x23 for Bosch (and for any family
/// when Mode 3C gave nothing).
pub fn probe_plan(family: &str) -> (r: ProbePlan)
    ensures
        r == spec_probe_plan(family@),
{
    let up = upper_vec(str_chars(family).as_slice());
    let edc_med = fam_word(&up, "EDC") || fam_word(&up, "MED");
    ProbePlan {
        cal_addr: if edc_med { 0x0008_0000 } else { 0x0002_0000 },
        gm_vpw: fam_word(&up, "P01") || fam_word(&up, "P59") || fam_word(&up, "GM"),
        bosch: edc_med || fam_word(&up, "BOSCH"),
    }
}

/// The two probe addresses: the calibration start and 4 KiB after it
/// (saturating), with their labels.
pub fn probe_starts(plan: ProbePlan) -> (r: [(u32, &'static str); 2])
    ensures
        r[0].0 == plan.cal_addr && r[0].1@ == "cal_start"@,
        r[1].0 == (if plan.cal_addr + 0x1000 > u32::MAX { u32::MAX as int } else { plan.cal_addr + 0x1000 }),
        r[1].1@ == "cal_plus_4k"@,
{
    [(plan.cal_addr, "cal_start"), (plan.cal_addr.saturating_add(0x1000), "cal_plus_4k")]
}

/// The image offset a window read at `addr` is compared at: the address when
/// it lies inside the written image, else 0.
pub fn window_offset(addr: u32, written_len: usize) -> (r: usize)
    ensures
        r == (if (addr as nat) < written_len { addr as nat } else { 0 }),
{
    if (addr as u64) < (written_len as u64) {
        addr as usize
    } else {
        0
    }
}

} // verus!
