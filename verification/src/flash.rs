//! Guided flash: the decisions of the write pipeline (which write path a
//! family takes, progress, block counts, the verification verdict), the
//! adaptive polling delay, and the order of the pipeline's safety gates as a
//! step function. The pipeline that talks to the ECU performs each step.
use vstd::prelude::*;
use crate::text::{contains, contains_chars, str_chars, str_to_string, upper_seq, upper_vec, push_str};
use crate::checksum::{crc32_ieee, spec_crc32};
use crate::ecu_database::{eq_ignore_ascii_case, eq_ignore_case};

verus! {

/// What was written.
#[derive(Clone, Copy, Debug)]
pub struct FlashWriteResult {
    pub bytes_written: u32,
    pub blocks_written: u32,
    pub crc32_written: u32,
}

/// Progress of a download.
#[derive(Clone, Copy, Debug)]
pub struct FlashProgress {
    pub bytes_done: u32,
    pub bytes_total: u32,
    pub percent: u8,
}

/// How complete a backup is.
#[derive(Clone, Copy, Debug, PartialEq, Eq, Structural)]
pub enum BackupQuality {
    FullImage,
    PartialDidOnly,
    Failed,
}

/// A backup taken before writing.
#[derive(Debug)]
pub struct BackupResult {
    pub path: String,
    pub quality: BackupQuality,
    pub bytes: u32,
    pub crc32: Option<u32>,
    pub notes: String,
}

/// Steps shown when an ECU needs recovery.
#[derive(Debug)]
pub struct RecoveryPrompt {
    pub prompt_type: String,
    pub message: String,
    pub steps: Vec<String>,
    pub kernel_to_upload: Option<String>,
    pub grounding_required: bool,
    pub reference_notes: String,
}

// ── Adaptive polling delay ──────────────────────────────────────────────────

/// A polling delay that doubles with each empty read (up to 16 times the
/// base), capped at `max_ms`.
#[derive(Clone, Copy, Debug)]
pub struct AdaptiveTiming {
    pub base_ms: u64,
    pub max_ms: u64,
    pub consecutive_empty: u32,
}

impl Default for AdaptiveTiming {
    fn default() -> (r: Self)
        ensures
            r.base_ms == 5 && r.max_ms == 80 && r.consecutive_empty == 0,
    {
        AdaptiveTiming { base_ms: 5, max_ms: 80, consecutive_empty: 0 }
    }
}

/// `1 << min(empty, 4)`.
pub open spec fn backoff_factor(empty: u32) -> nat {
    if empty == 0 {
        1
    } else if empty == 1 {
        2
    } else if empty == 2 {
        4
    } else if empty == 3 {
        8
    } else {
        16
    }
}

pub open spec fn spec_delay_ms(t: AdaptiveTiming) -> nat {
    let d = t.base_ms * backoff_factor(t.consecutive_empty);
    if d < t.max_ms {
        d as nat
    } else {
        t.max_ms as nat
    }
}

/// The timing after an answered read.
pub open spec fn timing_on_success(t: AdaptiveTiming) -> AdaptiveTiming {
    AdaptiveTiming { consecutive_empty: 0, ..t }
}

/// The timing after an empty read.
pub open spec fn timing_on_empty(t: AdaptiveTiming) -> AdaptiveTiming {
    AdaptiveTiming {
        consecutive_empty: if t.consecutive_empty == u32::MAX {
            u32::MAX
        } else {
            (t.consecutive_empty + 1) as u32
        },
        ..t
    }
}

/// The timing after a run of reads, `true` for an answered one.
pub open spec fn timing_after(t: AdaptiveTiming, answered: Seq<bool>) -> AdaptiveTiming
    decreases answered.len(),
{
    if answered.len() == 0 {
        t
    } else if answered.last() {
        timing_on_success(timing_after(t, answered.drop_last()))
    } else {
        timing_on_empty(timing_after(t, answered.drop_last()))
    }
}

/// The empty reads since the last answered one.
pub open spec fn trailing_empties(answered: Seq<bool>) -> nat
    decreases answered.len(),
{
    if answered.len() == 0 || answered.last() {
        0
    } else {
        trailing_empties(answered.drop_last()) + 1
    }
}

impl AdaptiveTiming {
    /// Timing for VPW: 8 ms base, 120 ms cap.
    pub fn for_vpw() -> (r: Self)
        ensures
            r.base_ms == 8 && r.max_ms == 120 && r.consecutive_empty == 0,
    {
        AdaptiveTiming { base_ms: 8, max_ms: 120, consecutive_empty: 0 }
    }

    /// Timing for CAN: 3 ms base, 60 ms cap.
    pub fn for_can() -> (r: Self)
        ensures
            r.base_ms == 3 && r.max_ms == 60 && r.consecutive_empty == 0,
    {
        AdaptiveTiming { base_ms: 3, max_ms: 60, consecutive_empty: 0 }
    }

    /// A read answered: the back-off starts over.
    pub fn on_success(&mut self)
        ensures
            *final(self) == timing_on_success(*old(self)),
    {
        self.consecutive_empty = 0;
    }

    /// A read came back empty: one more step of back-off (saturating).
    pub fn on_empty(&mut self)
        ensures
            final(self).base_ms == old(self).base_ms,
            final(self).max_ms == old(self).max_ms,
            final(self).consecutive_empty == (if old(self).consecutive_empty == u32::MAX {
                u32::MAX as int
            } else {
                old(self).consecutive_empty + 1
            }),
            *final(self) == timing_on_empty(*old(self)),
    {
        self.consecutive_empty = self.consecutive_empty.saturating_add(1);
    }

    /// The delay before the next poll, in milliseconds.
    pub fn delay(&self) -> (r: u64)
        requires
            self.base_ms * backoff_factor(self.consecutive_empty) <= u64::MAX,
        ensures
            r == spec_delay_ms(*self),
    {
        let shift: u32 = if self.consecutive_empty < 4 {
            self.consecutive_empty
        } else {
            4
        };
        let factor: u64 = if shift == 0 {
            1
        } else if shift == 1 {
            2
        } else if shift == 2 {
            4
        } else if shift == 3 {
            8
        } else {
            16
        };
        let d = self.base_ms * factor;
        if d < self.max_ms {
            d
        } else {
            self.max_ms
        }
    }
}

/// Law: the polling delay never exceeds the cap.
pub proof fn law_delay_capped(t: AdaptiveTiming)
    ensures
        spec_delay_ms(t) <= t.max_ms,
{
}

/// Law: an empty read never shortens the delay, and an answered read brings
/// it back to the base delay (or the cap, when that is smaller).
pub proof fn law_delay_backoff(t: AdaptiveTiming)
    ensures
        spec_delay_ms(t) <= spec_delay_ms(AdaptiveTiming {
            consecutive_empty: if t.consecutive_empty == u32::MAX { u32::MAX } else { (t.consecutive_empty + 1) as u32 },
            ..t
        }),
        spec_delay_ms(AdaptiveTiming { consecutive_empty: 0, ..t }) == (if t.base_ms < t.max_ms {
            t.base_ms as nat
        } else {
            t.max_ms as nat
        }),
{
    let e = t.consecutive_empty;
    let e2: u32 = if e == u32::MAX { u32::MAX } else { (e + 1) as u32 };
    assert(backoff_factor(e) <= backoff_factor(e2));
    assert(t.base_ms * backoff_factor(e) <= t.base_ms * backoff_factor(e2)) by (nonlinear_arith)
        requires backoff_factor(e) <= backoff_factor(e2);
}

proof fn lemma_timing_after(t: AdaptiveTiming, answered: Seq<bool>)
    requires
        t.consecutive_empty == 0,
    ensures
        timing_after(t, answered).base_ms == t.base_ms,
        timing_after(t, answered).max_ms == t.max_ms,
        timing_after(t, answered).consecutive_empty == (if trailing_empties(answered) < u32::MAX {
            trailing_empties(answered)
        } else {
            u32::MAX as nat
        }),
    decreases answered.len(),
{
    if answered.len() > 0 {
        lemma_timing_after(t, answered.drop_last());
    }
}

/// The delay after `k` empty reads since the last answered one:
/// `min(base * 2^min(k, 4), max)`.
pub open spec fn delay_after_empties(base_ms: nat, max_ms: nat, k: nat) -> nat {
    let f: nat = if k == 0 {
        1
    } else if k == 1 {
        2
    } else if k == 2 {
        4
    } else if k == 3 {
        8
    } else {
        16
    };
    if base_ms * f < max_ms {
        base_ms * f
    } else {
        max_ms
    }
}

/// Law: from a fresh timing, after any run of answered and empty reads the
/// delay depends only on the empty reads since the last answered one, as
/// `min(base * 2^min(k, 4), max)`; for VPW (8 ms base, 120 ms cap) that is 8,
/// 16, 32 and 64 ms, then 120 ms from the fourth empty read on.
pub proof fn law_delay_closed_form(t: AdaptiveTiming, answered: Seq<bool>)
    requires
        t.consecutive_empty == 0,
    ensures
        spec_delay_ms(timing_after(t, answered)) == delay_after_empties(
            t.base_ms as nat,
            t.max_ms as nat,
            trailing_empties(answered),
        ),
        t.base_ms == 8 && t.max_ms == 120 ==> spec_delay_ms(timing_after(t, answered)) == (if trailing_empties(answered)
            == 0 {
            8nat
        } else if trailing_empties(answered) == 1 {
            16nat
        } else if trailing_empties(answered) == 2 {
            32nat
        } else if trailing_empties(answered) == 3 {
            64nat
        } else {
            120nat
        }),
{
    lemma_timing_after(t, answered);
    let k = trailing_empties(answered);
    let b = t.base_ms as nat;
    if k == 0 {
        assert(b * 1 == b);
    } else if k == 1 {
        assert(b * 2 == b + b);
    } else if k == 2 {
        assert(b * 4 == b + b + b + b);
    } else if k == 3 {
        assert(b * 8 == 8 * b);
    } else {
        assert(b * 16 == 16 * b);
    }
}

// ── Pipeline decisions ──────────────────────────────────────────────────────

/// Why a guided flash does not start: risks not confirmed, or no image.
pub fn guided_flash_precheck(user_confirmed_risks: bool, tuned_len: usize) -> (r: Option<String>)
    ensures
        !user_confirmed_risks ==> (r matches Some(e) && e@ == "Risks not confirmed"@),
        user_confirmed_risks && tuned_len == 0 ==> (r matches Some(e) && e@ == "Empty tuned_bin"@),
        user_confirmed_risks && tuned_len > 0 ==> r is None,
{
    if !user_confirmed_risks {
        Some(str_to_string("Risks not confirmed"))
    } else if tuned_len == 0 {
        Some(str_to_string("Empty tuned_bin"))
    } else {
        None
    }
}

/// The log line when the family chosen in the UI differs from the one the
/// image identifies as (an empty or `auto` choice is no difference).
pub fn family_override_note(ui_family: &str, family: &str) -> (r: Option<String>)
    ensures
        (ui_family@.len() > 0 && !eq_ignore_case(ui_family@, family@) && !eq_ignore_case(ui_family@, "auto"@)) ==> (r matches Some(
            m,
        ) && m@ == "UI family '"@ + ui_family@ + "' overridden by identify '"@ + family@ + "'"@),
        !(ui_family@.len() > 0 && !eq_ignore_case(ui_family@, family@) && !eq_ignore_case(ui_family@, "auto"@)) ==> r is None,
{
    let n = str_chars(ui_family).len();
    if n > 0 && !eq_ignore_ascii_case(ui_family, family) && !eq_ignore_ascii_case(ui_family, "auto") {
        let mut m = str_to_string("UI family '");
        push_str(&mut m, ui_family);
        push_str(&mut m, "' overridden by identify '");
        push_str(&mut m, family);
        push_str(&mut m, "'");
        Some(m)
    } else {
        None
    }
}

/// The write path of a family.
#[derive(Clone, Copy, Debug, PartialEq, Eq, Structural)]
pub enum WritePath {
    /// Honda/Keihin: refused, no verified kernel or corrector.
    HondaRefused,
    /// Bosch-style UDS download (0x34/0x36/0x37) at `cal_addr`.
    BoschUds { cal_addr: u32 },
    /// GM VPW mode 34/36/37 download at `cal_addr`.
    GmVpw { cal_addr: u32 },
    /// No verified write path.
    NoPath,
}

pub open spec fn fam_has(family: Seq<char>, word: Seq<char>) -> bool {
    contains(upper_seq(family), word)
}

pub open spec fn spec_is_bosch(family: Seq<char>) -> bool {
    fam_has(family, "EDC"@) || fam_has(family, "MED"@) || fam_has(family, "BOSCH"@) || fam_has(family, "DELPHI"@)
        || fam_has(family, "DCM"@) || fam_has(family, "SID"@)
}

pub open spec fn spec_is_gm(family: Seq<char>) -> bool {
    fam_has(family, "P01"@) || fam_has(family, "GM"@) || fam_has(family, "P59"@)
}

pub open spec fn spec_write_path(family: Seq<char>) -> WritePath {
    if fam_has(family, "HONDA"@) || fam_has(family, "KEIHIN"@) {
        WritePath::HondaRefused
    } else if spec_is_bosch(family) {
        WritePath::BoschUds { cal_addr: if fam_has(family, "ME7"@) { 0x0001_8000 } else { 0x0008_0000 } }
    } else if spec_is_gm(family) {
        WritePath::GmVpw { cal_addr: 0x0002_0000 }
    } else {
        WritePath::NoPath
    }
}

fn has_word(up: &Vec<char>, w: &str) -> (r: bool)
    ensures
        r == contains(up@, w@),
{
    let wv = str_chars(w);
    contains_chars(up.as_slice(), wv.as_slice())
}

/// Which write path a family takes.
pub fn write_path(family: &str) -> (r: WritePath)
    ensures
        r == spec_write_path(family@),
{
    let up = upper_vec(str_chars(family).as_slice());
    if has_word(&up, "HONDA") || has_word(&up, "KEIHIN") {
        return WritePath::HondaRefused;
    }
    let bosch = has_word(&up, "EDC") || has_word(&up, "MED") || has_word(&up, "BOSCH") || has_word(&up, "DELPHI")
        || has_word(&up, "DCM") || has_word(&up, "SID");
    let gm = has_word(&up, "P01") || has_word(&up, "GM") || has_word(&up, "P59");
    if bosch {
        WritePath::BoschUds { cal_addr: if has_word(&up, "ME7") { 0x0001_8000 } else { 0x0008_0000 } }
    } else if gm {
        WritePath::GmVpw { cal_addr: 0x0002_0000 }
    } else {
        WritePath::NoPath
    }
}

/// Law: a family takes a Bosch UDS download exactly when its upper-cased name
/// names a Bosch-style controller (EDC, MED, BOSCH, DELPHI, DCM or SID) and
/// neither Honda nor Keihin; the download goes to 0x18000 when the name
/// contains `ME7` and to 0x80000 otherwise. A GM family (P01, GM or P59)
/// that is none of those downloads over VPW at 0x20000.
pub proof fn law_write_path_address(family: Seq<char>)
    ensures
        ({
            let up = upper_seq(family);
            let honda = contains(up, "HONDA"@) || contains(up, "KEIHIN"@);
            let bosch = contains(up, "EDC"@) || contains(up, "MED"@) || contains(up, "BOSCH"@) || contains(
                up,
                "DELPHI"@,
            ) || contains(up, "DCM"@) || contains(up, "SID"@);
            let gm = contains(up, "P01"@) || contains(up, "GM"@) || contains(up, "P59"@);
            &&& honda ==> spec_write_path(family) == WritePath::HondaRefused
            &&& (!honda && bosch) ==> spec_write_path(family) == (WritePath::BoschUds {
                cal_addr: if contains(up, "ME7"@) { 0x18000u32 } else { 0x80000u32 },
            })
            &&& (!honda && !bosch && gm) ==> spec_write_path(family) == (WritePath::GmVpw { cal_addr: 0x20000u32 })
            &&& (!honda && !bosch && !gm) ==> spec_write_path(family) == WritePath::NoPath
        }),
{
}

/// The refusal a write path gives, if it refuses.
pub fn write_path_error(path: WritePath, family: &str) -> (r: Option<String>)
    ensures
        path == WritePath::HondaRefused ==> (r matches Some(e) && e@
            == "Honda write path is not enabled. No verified kernel or corrector."@),
        path == WritePath::NoPath ==> (r matches Some(e) && e@ == "No verified write path for family "@ + family@),
        (path is BoschUds || path is GmVpw) ==> r is None,
{
    match path {
        WritePath::HondaRefused => Some(str_to_string("Honda write path is not enabled. No verified kernel or corrector.")),
        WritePath::NoPath => {
            let mut e = str_to_string("No verified write path for family ");
            push_str(&mut e, family);
            Some(e)
        },
        _ => None,
    }
}

/// `(done * 100) / max(total, 1)`, kept to its low byte as the pipeline does.
pub open spec fn spec_percent(done: nat, total: nat) -> u8 {
    ((done * 100) / (if total == 0 { 1 } else { total })) as u8
}

/// Law: progress never passes 100 % while the bytes done do not pass the
/// total, and reads 100 % exactly when all bytes are done.
pub proof fn law_progress_percent(done: nat, total: nat)
    requires
        done <= total,
    ensures
        spec_percent(done, total) <= 100,
        total > 0 ==> (spec_percent(done, total) == 100 <==> done == total),
{
    let t: nat = if total == 0 { 1 } else { total };
    assert(done * 100 <= t * 100) by (nonlinear_arith)
        requires done <= t;
    assert((done * 100) / t <= 100) by (nonlinear_arith)
        requires done * 100 <= t * 100, t >= 1;
    if total > 0 {
        if done == total {
            assert((total * 100) / total == 100) by (nonlinear_arith)
                requires total >= 1;
        } else {
            assert((done * 100) / total < 100) by (nonlinear_arith)
                requires done < total, total >= 1;
        }
    }
}

/// Progress of a UDS download.
pub fn download_progress(done: u32, total: u32) -> (r: FlashProgress)
    ensures
        r.bytes_done == done && r.bytes_total == total,
        r.percent == spec_percent(done as nat, total as nat),
{
    let t: u64 = if total == 0 {
        1
    } else {
        total as u64
    };
    let p: u64 = (done as u64 * 100) / t;
    FlashProgress { bytes_done: done, bytes_total: total, percent: p as u8 }
}

/// Progress after VPW chunk `i` of `chunk_size` bytes of a `total`-byte image.
pub fn vpw_chunk_progress(i: usize, chunk_size: usize, total: usize) -> (r: FlashProgress)
    requires
        i * chunk_size < total,
    ensures
        ({
            let done = if (i + 1) * chunk_size < total { (i + 1) * chunk_size } else { total as int };
            &&& r.bytes_done == done as u32
            &&& r.bytes_total == total as u32
            &&& r.percent == spec_percent(done as nat, total as nat)
        }),
{
    assert((i + 1) * chunk_size == i * chunk_size + chunk_size) by (nonlinear_arith);
    let end: u128 = (i as u128 + 1) * chunk_size as u128;
    let done: usize = if end < total as u128 {
        end as usize
    } else {
        total
    };
    let t: u128 = if total == 0 {
        1
    } else {
        total as u128
    };
    let p: u128 = (done as u128 * 100) / t;
    FlashProgress { bytes_done: done as u32, bytes_total: total as u32, percent: p as u8 }
}

/// A voltage check comes before every fifth VPW chunk after the first.
pub fn vpw_voltage_check_due(i: usize) -> (r: bool)
    ensures
        r == (i > 0 && i % 5 == 0),
{
    i > 0 && i % 5 == 0
}

/// During a UDS download the battery voltage is read before every fourth
/// block after the first.
pub fn uds_voltage_check_due(block: usize) -> (r: bool)
    ensures
        r == (block > 0 && block % 4 == 0),
{
    block > 0 && block % 4 == 0
}

/// What a UDS download of the image wrote: 0x400-byte blocks counted as the
/// pipeline reports them, `(len + 0x401) / 0x400`.
pub fn uds_write_result(image: &[u8]) -> (r: FlashWriteResult)
    ensures
        r.bytes_written == image@.len() as u32,
        r.blocks_written == ((image@.len() + 0x401) / 0x400) as u32,
        r.crc32_written == spec_crc32(image@),
{
    let n = image.len();
    let blocks: u128 = (n as u128 + 0x401) / 0x400;
    FlashWriteResult { bytes_written: n as u32, blocks_written: blocks as u32, crc32_written: crc32_ieee(image) }
}

/// What a VPW download of the image wrote, in chunks of `chunk_size`.
pub fn vpw_write_result(image: &[u8], chunk_size: usize) -> (r: FlashWriteResult)
    requires
        chunk_size > 0,
    ensures
        r.bytes_written == image@.len() as u32,
        r.blocks_written == ((image@.len() + chunk_size - 1) / (chunk_size as int)) as u32,
        r.crc32_written == spec_crc32(image@),
{
    let n = image.len();
    let blocks: u128 = (n as u128 + chunk_size as u128 - 1) / chunk_size as u128;
    FlashWriteResult { bytes_written: n as u32, blocks_written: blocks as u32, crc32_written: crc32_ieee(image) }
}

/// A backup counts as partial unless it failed.
pub fn backup_quality(failed: bool) -> (r: BackupQuality)
    ensures
        r == (if failed { BackupQuality::Failed } else { BackupQuality::PartialDidOnly }),
{
    if failed {
        BackupQuality::Failed
    } else {
        BackupQuality::PartialDidOnly
    }
}

/// The end of a guided flash after the read-back compare.
#[derive(Debug)]
pub struct VerifyOutcome {
    pub success: bool,
    pub verified_live: bool,
    pub verification_crc: Option<u32>,
    pub error: Option<String>,
}

/// A compare that ran decides success by whether the windows matched; one
/// that failed leaves success to `accept_unverified_write` and keeps its error.
pub fn verify_outcome(compare: Result<(u32, bool), String>, accept_unverified_write: bool) -> (r: VerifyOutcome)
    ensures
        match compare {
            Ok((crc, matched)) => r.success == matched && r.verified_live == matched && r.verification_crc == Some(crc)
                && r.error is None,
            Err(e) => r.success == accept_unverified_write && !r.verified_live && r.verification_crc is None && (r.error matches Some(x)
                && x@ == e@),
        },
{
    match compare {
        Ok((crc, matched)) => VerifyOutcome { success: matched, verified_live: matched, verification_crc: Some(crc), error: None },
        Err(e) => VerifyOutcome { success: accept_unverified_write, verified_live: false, verification_crc: None, error: Some(e) },
    }
}


// ── The guided flash as a state machine ───────────────────────────────────────
//
// The pipeline alternates work on the ECU (identify, read the battery voltage,
// back up, unlock, write, verify) with decisions. The decisions are here: the
// caller performs each action and hands back what came of it as an event.

/// Where a guided flash stands.
#[derive(Clone, Copy, Debug, PartialEq, Eq, Structural)]
pub enum FlashStage {
    Identifying,
    StartVoltage,
    CheckingImage,
    BackingUp,
    Unlocking,
    PreWriteVoltage,
    Writing,
    Finished,
    Stopped,
}

/// Why a guided flash stopped.
#[derive(Clone, Copy, Debug, PartialEq, Eq, Structural)]
pub enum FlashStop {
    RisksNotConfirmed,
    EmptyImage,
    IdentifyRefused,
    VoltageLow,
    HondaImage,
    BackupFailed,
    NoWritePath,
    UnlockFailed,
    WriteFailed,
    OutOfOrder,
}

/// What came of the last action.
#[derive(Clone, Copy, Debug, PartialEq, Eq, Structural)]
pub enum FlashEvent {
    /// The image identified as a family with this write path.
    Identified { path: WritePath },
    /// Identification refused the image.
    IdentifyFailed,
    /// The battery voltage gate: `ok` when at or above the minimum.
    Voltage { ok: bool },
    /// The image guard ran: `honda` when the image carries a Honda OS.
    ImageChecked { honda: bool },
    /// The backup attempt ended.
    BackupDone { ok: bool },
    /// The security unlock ended.
    UnlockDone { ok: bool },
    /// The download ended.
    WriteDone { ok: bool },
}

/// What the caller does next.
#[derive(Clone, Copy, Debug, PartialEq, Eq, Structural)]
pub enum FlashAction {
    Identify,
    ReadVoltage,
    CheckImage,
    Backup,
    Unlock,
    Write,
    /// A voltage check during the download passed: go on writing.
    KeepWriting,
    Verify,
    Stop { reason: FlashStop },
}

/// The state of a guided flash: the stage and what each gate found.
#[derive(Clone, Copy, Debug, PartialEq, Eq, Structural)]
pub struct GuidedFlashState {
    pub stage: FlashStage,
    pub risks_confirmed: bool,
    pub image_ok: bool,
    pub backup_requested: bool,
    pub identified: bool,
    pub path: WritePath,
    pub voltage_ok: bool,
    pub image_checked: bool,
    pub honda_blocked: bool,
    pub backup_ok: bool,
    pub unlock_attempted: bool,
    pub unlocked: bool,
}

/// An event that reports a failure.
pub open spec fn is_error_event(e: FlashEvent) -> bool {
    ||| e is IdentifyFailed
    ||| e == FlashEvent::Voltage { ok: false }
    ||| e == FlashEvent::ImageChecked { honda: true }
    ||| e == FlashEvent::BackupDone { ok: false }
    ||| e == FlashEvent::WriteDone { ok: false }
}

/// A path that can be written.
pub open spec fn writable(p: WritePath) -> bool {
    p is BoschUds || p is GmVpw
}

/// Every gate before the write has passed.
pub open spec fn gates_passed(s: GuidedFlashState) -> bool {
    &&& s.risks_confirmed
    &&& s.image_ok
    &&& s.identified
    &&& s.voltage_ok
    &&& s.image_checked
    &&& !s.honda_blocked
    &&& (s.backup_requested ==> s.backup_ok)
    &&& s.unlock_attempted
    &&& (s.path is BoschUds ==> s.unlocked)
    &&& writable(s.path)
}

pub open spec fn stop_with(s: GuidedFlashState, reason: FlashStop) -> (GuidedFlashState, FlashAction) {
    (GuidedFlashState { stage: FlashStage::Stopped, ..s }, FlashAction::Stop { reason })
}

/// The start: risks must be confirmed and the image non-empty.
pub open spec fn spec_flash_start(risks_confirmed: bool, image_len: nat, backup_requested: bool) -> (
    GuidedFlashState,
    FlashAction,
) {
    let s = GuidedFlashState {
        stage: FlashStage::Identifying,
        risks_confirmed,
        image_ok: image_len > 0,
        backup_requested,
        identified: false,
        path: WritePath::NoPath,
        voltage_ok: false,
        image_checked: false,
        honda_blocked: false,
        backup_ok: false,
        unlock_attempted: false,
        unlocked: false,
    };
    if !risks_confirmed {
        stop_with(s, FlashStop::RisksNotConfirmed)
    } else if image_len == 0 {
        stop_with(s, FlashStop::EmptyImage)
    } else {
        (s, FlashAction::Identify)
    }
}

/// After the image guard (and the backup, when one was asked for): unlock when
/// the family has a write path, else stop.
pub open spec fn after_backup(s: GuidedFlashState) -> (GuidedFlashState, FlashAction) {
    if writable(s.path) {
        (GuidedFlashState { stage: FlashStage::Unlocking, ..s }, FlashAction::Unlock)
    } else {
        stop_with(s, FlashStop::NoWritePath)
    }
}

/// One decision of the pipeline: identify → voltage gate → image guard →
/// backup → unlock → voltage gate again → write (with voltage checks during
/// the download) → verify. Every failure, and every event that does not
/// belong to the stage, stops it; only a GM VPW unlock that is refused lets
/// the pipeline go on, as the ECU then refuses the download itself.
pub open spec fn spec_flash_step(s: GuidedFlashState, e: FlashEvent) -> (GuidedFlashState, FlashAction) {
    match (s.stage, e) {
        (FlashStage::Identifying, FlashEvent::Identified { path }) => (
            GuidedFlashState { stage: FlashStage::StartVoltage, identified: true, path, ..s },
            FlashAction::ReadVoltage,
        ),
        (FlashStage::Identifying, FlashEvent::IdentifyFailed) => stop_with(s, FlashStop::IdentifyRefused),
        (FlashStage::StartVoltage, FlashEvent::Voltage { ok }) => if ok {
            (GuidedFlashState { stage: FlashStage::CheckingImage, voltage_ok: true, ..s }, FlashAction::CheckImage)
        } else {
            stop_with(GuidedFlashState { voltage_ok: false, ..s }, FlashStop::VoltageLow)
        },
        (FlashStage::CheckingImage, FlashEvent::ImageChecked { honda }) => if honda {
            stop_with(GuidedFlashState { image_checked: true, honda_blocked: true, ..s }, FlashStop::HondaImage)
        } else if s.backup_requested {
            (GuidedFlashState { stage: FlashStage::BackingUp, image_checked: true, ..s }, FlashAction::Backup)
        } else {
            after_backup(GuidedFlashState { image_checked: true, ..s })
        },
        (FlashStage::BackingUp, FlashEvent::BackupDone { ok }) => if ok {
            after_backup(GuidedFlashState { backup_ok: true, ..s })
        } else {
            stop_with(s, FlashStop::BackupFailed)
        },
        (FlashStage::Unlocking, FlashEvent::UnlockDone { ok }) => if ok || s.path is GmVpw {
            (
                GuidedFlashState { stage: FlashStage::PreWriteVoltage, unlock_attempted: true, unlocked: ok, ..s },
                FlashAction::ReadVoltage,
            )
        } else {
            stop_with(s, FlashStop::UnlockFailed)
        },
        (FlashStage::PreWriteVoltage, FlashEvent::Voltage { ok }) => if !ok {
            stop_with(GuidedFlashState { voltage_ok: false, ..s }, FlashStop::VoltageLow)
        } else if gates_passed(s) {
            (GuidedFlashState { stage: FlashStage::Writing, voltage_ok: true, ..s }, FlashAction::Write)
        } else {
            stop_with(s, FlashStop::OutOfOrder)
        },
        (FlashStage::Writing, FlashEvent::Voltage { ok }) => if ok {
            (s, FlashAction::KeepWriting)
        } else {
            stop_with(GuidedFlashState { voltage_ok: false, ..s }, FlashStop::VoltageLow)
        },
        (FlashStage::Writing, FlashEvent::WriteDone { ok }) => if ok {
            (GuidedFlashState { stage: FlashStage::Finished, ..s }, FlashAction::Verify)
        } else {
            stop_with(s, FlashStop::WriteFailed)
        },
        _ => stop_with(s, FlashStop::OutOfOrder),
    }
}

fn stop(s: &GuidedFlashState, reason: FlashStop) -> (r: (GuidedFlashState, FlashAction))
    ensures
        r == stop_with(*s, reason),
{
    (GuidedFlashState { stage: FlashStage::Stopped, ..*s }, FlashAction::Stop { reason })
}

/// The first state and action of a guided flash.
pub fn guided_flash_start(risks_confirmed: bool, image_len: usize, backup_requested: bool) -> (r: (
    GuidedFlashState,
    FlashAction,
))
    ensures
        r == spec_flash_start(risks_confirmed, image_len as nat, backup_requested),
{
    let s = GuidedFlashState {
        stage: FlashStage::Identifying,
        risks_confirmed,
        image_ok: image_len > 0,
        backup_requested,
        identified: false,
        path: WritePath::NoPath,
        voltage_ok: false,
        image_checked: false,
        honda_blocked: false,
        backup_ok: false,
        unlock_attempted: false,
        unlocked: false,
    };
    if !risks_confirmed {
        stop(&s, FlashStop::RisksNotConfirmed)
    } else if image_len == 0 {
        stop(&s, FlashStop::EmptyImage)
    } else {
        (s, FlashAction::Identify)
    }
}

fn next_after_backup(s: GuidedFlashState) -> (r: (GuidedFlashState, FlashAction))
    ensures
        r == after_backup(s),
{
    match s.path {
        WritePath::BoschUds { .. } | WritePath::GmVpw { .. } => (
            GuidedFlashState { stage: FlashStage::Unlocking, ..s },
            FlashAction::Unlock,
        ),
        _ => stop(&s, FlashStop::NoWritePath),
    }
}

fn all_gates_passed(s: &GuidedFlashState) -> (r: bool)
    ensures
        r == gates_passed(*s),
{
    let path_ok = match s.path {
        WritePath::BoschUds { .. } | WritePath::GmVpw { .. } => true,
        _ => false,
    };
    let bosch = match s.path {
        WritePath::BoschUds { .. } => true,
        _ => false,
    };
    s.risks_confirmed && s.image_ok && s.identified && s.voltage_ok && s.image_checked && !s.honda_blocked && (
    !s.backup_requested || s.backup_ok) && s.unlock_attempted && (!bosch || s.unlocked) && path_ok
}

/// One decision of the guided flash. A write is only ever asked for right after
/// a passing voltage gate, with every earlier gate passed; every failure stops.
pub fn guided_flash_step(s: &GuidedFlashState, e: FlashEvent) -> (r: (GuidedFlashState, FlashAction))
    ensures
        r.0 == spec_flash_step(*s, e).0,
        r.1 == spec_flash_step(*s, e).1,
        r.1 is Write ==> (gates_passed(r.0) && s.stage == FlashStage::PreWriteVoltage && e
            == (FlashEvent::Voltage { ok: true })),
        is_error_event(e) ==> (r.1 is Stop && r.0.stage == FlashStage::Stopped),
        s.stage == FlashStage::Writing && e == (FlashEvent::Voltage { ok: false }) ==> (r.1 is Stop
            && r.0.stage == FlashStage::Stopped),
        s.stage == FlashStage::Unlocking && s.path is BoschUds && e == (FlashEvent::UnlockDone { ok: false })
            ==> (r.1 is Stop && r.0.stage == FlashStage::Stopped),
{
    match (s.stage, e) {
        (FlashStage::Identifying, FlashEvent::Identified { path }) => (
            GuidedFlashState { stage: FlashStage::StartVoltage, identified: true, path, ..*s },
            FlashAction::ReadVoltage,
        ),
        (FlashStage::Identifying, FlashEvent::IdentifyFailed) => stop(s, FlashStop::IdentifyRefused),
        (FlashStage::StartVoltage, FlashEvent::Voltage { ok }) => if ok {
            (GuidedFlashState { stage: FlashStage::CheckingImage, voltage_ok: true, ..*s }, FlashAction::CheckImage)
        } else {
            stop(&GuidedFlashState { voltage_ok: false, ..*s }, FlashStop::VoltageLow)
        },
        (FlashStage::CheckingImage, FlashEvent::ImageChecked { honda }) => if honda {
            stop(&GuidedFlashState { image_checked: true, honda_blocked: true, ..*s }, FlashStop::HondaImage)
        } else if s.backup_requested {
            (GuidedFlashState { stage: FlashStage::BackingUp, image_checked: true, ..*s }, FlashAction::Backup)
        } else {
            next_after_backup(GuidedFlashState { image_checked: true, ..*s })
        },
        (FlashStage::BackingUp, FlashEvent::BackupDone { ok }) => if ok {
            next_after_backup(GuidedFlashState { backup_ok: true, ..*s })
        } else {
            stop(s, FlashStop::BackupFailed)
        },
        (FlashStage::Unlocking, FlashEvent::UnlockDone { ok }) => {
            let gm = match s.path {
                WritePath::GmVpw { .. } => true,
                _ => false,
            };
            if ok || gm {
                (
                    GuidedFlashState { stage: FlashStage::PreWriteVoltage, unlock_attempted: true, unlocked: ok, ..*s },
                    FlashAction::ReadVoltage,
                )
            } else {
                stop(s, FlashStop::UnlockFailed)
            }
        },
        (FlashStage::PreWriteVoltage, FlashEvent::Voltage { ok }) => if !ok {
            stop(&GuidedFlashState { voltage_ok: false, ..*s }, FlashStop::VoltageLow)
        } else if all_gates_passed(s) {
            (GuidedFlashState { stage: FlashStage::Writing, voltage_ok: true, ..*s }, FlashAction::Write)
        } else {
            stop(s, FlashStop::OutOfOrder)
        },
        (FlashStage::Writing, FlashEvent::Voltage { ok }) => if ok {
            (*s, FlashAction::KeepWriting)
        } else {
            stop(&GuidedFlashState { voltage_ok: false, ..*s }, FlashStop::VoltageLow)
        },
        (FlashStage::Writing, FlashEvent::WriteDone { ok }) => if ok {
            (GuidedFlashState { stage: FlashStage::Finished, ..*s }, FlashAction::Verify)
        } else {
            stop(s, FlashStop::WriteFailed)
        },
        _ => stop(s, FlashStop::OutOfOrder),
    }
}

/// The state after a run of events.
pub open spec fn flash_run(s: GuidedFlashState, ev: Seq<FlashEvent>) -> GuidedFlashState
    decreases ev.len(),
{
    if ev.len() == 0 {
        s
    } else {
        spec_flash_step(flash_run(s, ev.drop_last()), ev.last()).0
    }
}

/// What each gate flag of a state rests on: an event of the run that passed it.
pub open spec fn flags_backed(s: GuidedFlashState, ev: Seq<FlashEvent>) -> bool {
    &&& s.identified ==> ev.contains(FlashEvent::Identified { path: s.path })
    &&& s.voltage_ok ==> ev.contains(FlashEvent::Voltage { ok: true })
    &&& (s.image_checked && !s.honda_blocked) ==> ev.contains(FlashEvent::ImageChecked { honda: false })
    &&& s.backup_ok ==> ev.contains(FlashEvent::BackupDone { ok: true })
    &&& s.unlocked ==> ev.contains(FlashEvent::UnlockDone { ok: true })
    &&& s.unlock_attempted ==> (ev.contains(FlashEvent::UnlockDone { ok: true }) || ev.contains(
        FlashEvent::UnlockDone { ok: false },
    ))
}

proof fn lemma_contains_push(p: Seq<FlashEvent>, x: FlashEvent, e: FlashEvent)
    ensures
        (p.contains(e) || x == e) ==> p.push(x).contains(e),
{
    if p.contains(e) {
        let i = choose|i: int| 0 <= i < p.len() && p[i] == e;
        assert(p.push(x)[i] == e);
    } else if x == e {
        assert(p.push(x)[p.len() as int] == e);
    }
}

/// Along any run from a fresh state the set-up choices stay as they were and
/// every gate flag rests on an event of the run.
proof fn lemma_flash_run_backed(s0: GuidedFlashState, ev: Seq<FlashEvent>)
    requires
        !s0.identified && !s0.voltage_ok && !s0.image_checked && !s0.backup_ok && !s0.unlocked
            && !s0.unlock_attempted,
    ensures
        flags_backed(flash_run(s0, ev), ev),
        flash_run(s0, ev).risks_confirmed == s0.risks_confirmed,
        flash_run(s0, ev).image_ok == s0.image_ok,
        flash_run(s0, ev).backup_requested == s0.backup_requested,
    decreases ev.len(),
{
    if ev.len() > 0 {
        let p = ev.drop_last();
        let x = ev.last();
        lemma_flash_run_backed(s0, p);
        assert(ev == p.push(x));
        let s = flash_run(s0, p);
        lemma_contains_push(p, x, FlashEvent::Identified { path: spec_flash_step(s, x).0.path });
        lemma_contains_push(p, x, FlashEvent::Voltage { ok: true });
        lemma_contains_push(p, x, FlashEvent::ImageChecked { honda: false });
        lemma_contains_push(p, x, FlashEvent::BackupDone { ok: true });
        lemma_contains_push(p, x, FlashEvent::UnlockDone { ok: true });
        lemma_contains_push(p, x, FlashEvent::UnlockDone { ok: false });
    }
}

/// Law: from a fresh start, whatever events come back, a write is asked for
/// only when risks were confirmed, the image is not empty, the image
/// identified with a writable path, the voltage gate passed at the start and
/// again just before the write, the Honda guard passed, the backup (when asked
/// for) succeeded and the unlock was tried; on a Bosch UDS path the unlock
/// must have succeeded (a GM VPW write goes on after a refused unlock, as the
/// ECU itself then refuses the download).
pub proof fn law_flash_write_needs_every_gate(
    risks_confirmed: bool,
    image_len: nat,
    backup_requested: bool,
    ev: Seq<FlashEvent>,
    e: FlashEvent,
)
    requires
        spec_flash_step(flash_run(spec_flash_start(risks_confirmed, image_len, backup_requested).0, ev), e).1 is Write,
    ensures
        risks_confirmed,
        image_len > 0,
        e == (FlashEvent::Voltage { ok: true }),
        exists|p: WritePath|
            writable(p) && ev.contains((FlashEvent::Identified { path: p })) && (p is BoschUds ==> ev.contains(
                (FlashEvent::UnlockDone { ok: true }),
            )),
        ev.contains((FlashEvent::Voltage { ok: true })),
        ev.contains((FlashEvent::ImageChecked { honda: false })),
        backup_requested ==> ev.contains((FlashEvent::BackupDone { ok: true })),
        ev.contains((FlashEvent::UnlockDone { ok: true })) || ev.contains((FlashEvent::UnlockDone { ok: false })),
{
    let s0 = spec_flash_start(risks_confirmed, image_len, backup_requested).0;
    lemma_flash_run_backed(s0, ev);
    let s = flash_run(s0, ev);
    assert(writable(s.path) && ev.contains(FlashEvent::Identified { path: s.path }) && (s.path is BoschUds
        ==> ev.contains(FlashEvent::UnlockDone { ok: true })));
}

/// Law: a stopped or finished flash stays put; no event leads anywhere but to
/// another stop.
pub proof fn law_flash_stop_is_final(s: GuidedFlashState, e: FlashEvent)
    requires
        s.stage == FlashStage::Stopped || s.stage == FlashStage::Finished,
    ensures
        spec_flash_step(s, e).1 is Stop,
        spec_flash_step(s, e).0.stage == FlashStage::Stopped,
{
}

/// Law: when every gate passes, in order, the pipeline asks for the write.
pub proof fn law_flash_gates_passing_write(image_len: nat, backup_requested: bool, path: WritePath)
    requires
        image_len > 0,
        writable(path),
    ensures
        ({
            let s0 = spec_flash_start(true, image_len, backup_requested).0;
            let head = seq![
                FlashEvent::Identified { path },
                FlashEvent::Voltage { ok: true },
                FlashEvent::ImageChecked { honda: false },
            ];
            let ev = if backup_requested {
                head.push(FlashEvent::BackupDone { ok: true }).push(FlashEvent::UnlockDone { ok: true })
            } else {
                head.push(FlashEvent::UnlockDone { ok: true })
            };
            spec_flash_step(flash_run(s0, ev), FlashEvent::Voltage { ok: true }).1 == FlashAction::Write
        }),
{
    let s0 = spec_flash_start(true, image_len, backup_requested).0;
    let e1 = seq![FlashEvent::Identified { path }];
    let e2 = e1.push(FlashEvent::Voltage { ok: true });
    let head = e2.push(FlashEvent::ImageChecked { honda: false });
    assert(head == seq![
        FlashEvent::Identified { path },
        FlashEvent::Voltage { ok: true },
        FlashEvent::ImageChecked { honda: false },
    ]);
    assert(e1.drop_last() =~= Seq::<FlashEvent>::empty());
    assert(e2.drop_last() =~= e1);
    assert(head.drop_last() =~= e2);
    assert(flash_run(s0, e1.drop_last()) == s0);
    assert(e1.last() == (FlashEvent::Identified { path }));
    let s1 = flash_run(s0, e1);
    assert(s1 == spec_flash_step(s0, FlashEvent::Identified { path }).0);
    let s2 = flash_run(s0, e2);
    let s3 = flash_run(s0, head);
    assert(s3.stage == FlashStage::BackingUp || s3.stage == FlashStage::Unlocking);
    if backup_requested {
        let e4 = head.push(FlashEvent::BackupDone { ok: true });
        let e5 = e4.push(FlashEvent::UnlockDone { ok: true });
        assert(e4.drop_last() =~= head);
        assert(e5.drop_last() =~= e4);
        let s4 = flash_run(s0, e4);
        assert(s4.stage == FlashStage::Unlocking);
        let s5 = flash_run(s0, e5);
        assert(s5.stage == FlashStage::PreWriteVoltage && gates_passed(s5));
    } else {
        let e4 = head.push(FlashEvent::UnlockDone { ok: true });
        assert(e4.drop_last() =~= head);
        let s4 = flash_run(s0, e4);
        assert(s4.stage == FlashStage::PreWriteVoltage && gates_passed(s4));
    }
}

/// Law: a voltage sag read during the download ends the write for good; a
/// passing check lets it go on unchanged.
pub proof fn law_flash_sag_during_write_stops(s: GuidedFlashState, e: FlashEvent)
    requires
        s.stage == FlashStage::Writing,
    ensures
        spec_flash_step(s, FlashEvent::Voltage { ok: false }).1 == (FlashAction::Stop { reason: FlashStop::VoltageLow }),
        spec_flash_step(s, FlashEvent::Voltage { ok: false }).0.stage == FlashStage::Stopped,
        spec_flash_step(spec_flash_step(s, FlashEvent::Voltage { ok: false }).0, e).1 is Stop,
        spec_flash_step(s, FlashEvent::Voltage { ok: true }) == (s, FlashAction::KeepWriting),
{
}

} // verus!
