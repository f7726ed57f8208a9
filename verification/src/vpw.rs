//! J1850 VPW frame layer for the LS1 PCM (P01/P59): request builders, the
//! additive frame checksum, and response parsers for modes 01, 22, 03, 3C and
//! the high-speed kernel modes.
use vstd::prelude::*;
use crate::bytes::{be32_bytes, be32_tail, checksum8, extend_bytes, hi8, lo8, push_be32_tail, sum8, to_be16};
use crate::frames::{frame_checksum_ok, push_checksum, validate_checksum};
use crate::text::{dec, hex_pad, push_dec, push_hex_pad, push_str, str_to_string};

verus! {

pub const PCM_ADDR: u8 = 0x10;
pub const TOOL_ADDR: u8 = 0xF0;
pub const BROADCAST_ADDR: u8 = 0xFE;

pub const PRIO_HIGH_PHYS: u8 = 0x8C;
pub const PRIO_PHYS: u8 = 0x6C;
pub const PRIO_FUNC_OBD: u8 = 0x68;
pub const FUNC_TARGET: u8 = 0x6A;

pub const MODE_EXIT_KERNEL: u8 = 0x20;
pub const MODE_READ_BLOCK: u8 = 0x3C;
pub const MODE_TEST_DEVICE: u8 = 0x3F;
pub const MODE_HS_PREPARE: u8 = 0xA0;
pub const MODE_HS_ENTER: u8 = 0xA1;

/// Positive responses are the mode with 0x40 set.
pub const RESP_HS_PREPARE: u8 = 0xE0;
pub const RESP_HS_ENTER: u8 = 0xE1;

/// A frame body followed by its additive checksum.
pub open spec fn vpw_frame(body: Seq<u8>) -> Seq<u8> {
    body.push(sum8(body))
}

/// Header of a physically addressed request to the PCM.
pub open spec fn phys_header() -> Seq<u8> {
    seq![PRIO_HIGH_PHYS, PCM_ADDR, TOOL_ADDR]
}

/// Header of a functional OBD request.
pub open spec fn func_header() -> Seq<u8> {
    seq![PRIO_FUNC_OBD, FUNC_TARGET, TOOL_ADDR]
}

fn finish_frame(frame: &mut Vec<u8>)
    requires
        old(frame)@.len() >= 1,
    ensures
        final(frame)@ == vpw_frame(old(frame)@),
        frame_checksum_ok(final(frame)@),
{
    push_checksum(frame);
}

// ── Frame builders ──────────────────────────────────────────────────────

pub fn build_obd_request(pid: u8) -> (f: Vec<u8>)
    ensures
        f@ == vpw_frame(func_header() + seq![0x01u8, pid]),
{
    let mut frame = vec![PRIO_FUNC_OBD, FUNC_TARGET, TOOL_ADDR, 0x01, pid];
    assert(frame@ == func_header() + seq![0x01u8, pid]);
    finish_frame(&mut frame);
    frame
}

pub fn build_physical_request(pid: u8) -> (f: Vec<u8>)
    ensures
        f@ == vpw_frame(phys_header() + seq![0x01u8, pid]),
{
    let mut frame = vec![PRIO_HIGH_PHYS, PCM_ADDR, TOOL_ADDR, 0x01, pid];
    assert(frame@ == phys_header() + seq![0x01u8, pid]);
    finish_frame(&mut frame);
    frame
}

pub fn build_mode22_request(did_high: u8, did_low: u8) -> (f: Vec<u8>)
    ensures
        f@ == vpw_frame(phys_header() + seq![0x22u8, did_high, did_low]),
{
    let mut frame = vec![PRIO_HIGH_PHYS, PCM_ADDR, TOOL_ADDR, 0x22, did_high, did_low];
    assert(frame@ == phys_header() + seq![0x22u8, did_high, did_low]);
    finish_frame(&mut frame);
    frame
}

pub fn build_dtc_request() -> (f: Vec<u8>)
    ensures
        f@ == vpw_frame(func_header().push(0x03)),
{
    let mut frame = vec![PRIO_FUNC_OBD, FUNC_TARGET, TOOL_ADDR, 0x03];
    assert(frame@ == func_header().push(0x03));
    finish_frame(&mut frame);
    frame
}

pub fn build_clear_dtc_request() -> (f: Vec<u8>)
    ensures
        f@ == vpw_frame(func_header().push(0x04)),
{
    let mut frame = vec![PRIO_FUNC_OBD, FUNC_TARGET, TOOL_ADDR, 0x04];
    assert(frame@ == func_header().push(0x04));
    finish_frame(&mut frame);
    frame
}

/// Mode 0x3C ReadBlock: 24-bit address and 16-bit size, big-endian.
pub fn build_mode3c_read_block(address: u32, size: u16) -> (f: Vec<u8>)
    ensures
        f@ == vpw_frame(
            phys_header().push(MODE_READ_BLOCK) + be32_tail(address, 3) + seq![hi8(size), lo8(size)],
        ),
{
    let mut frame = vec![PRIO_HIGH_PHYS, PCM_ADDR, TOOL_ADDR, MODE_READ_BLOCK];
    assert(frame@ == phys_header().push(MODE_READ_BLOCK));
    push_be32_tail(&mut frame, address, 3);
    let (h, l) = to_be16(size);
    frame.push(h);
    frame.push(l);
    assert(frame@ == phys_header().push(MODE_READ_BLOCK) + be32_tail(address, 3) + seq![h, l]);
    finish_frame(&mut frame);
    frame
}

fn header_mode_frame(mode: u8) -> (f: Vec<u8>)
    ensures
        f@ == vpw_frame(phys_header().push(mode)),
{
    let mut frame = vec![PRIO_HIGH_PHYS, PCM_ADDR, TOOL_ADDR, mode];
    assert(frame@ == phys_header().push(mode));
    finish_frame(&mut frame);
    frame
}

pub fn build_mode3f_test_device() -> (f: Vec<u8>)
    ensures
        f@ == vpw_frame(phys_header().push(MODE_TEST_DEVICE)),
{
    header_mode_frame(MODE_TEST_DEVICE)
}

pub fn build_mode20_exit_kernel() -> (f: Vec<u8>)
    ensures
        f@ == vpw_frame(phys_header().push(MODE_EXIT_KERNEL)),
{
    header_mode_frame(MODE_EXIT_KERNEL)
}

/// Mode 0xA0 HighSpeedPrepare.
pub fn build_mode_a0_hs_prepare() -> (f: Vec<u8>)
    ensures
        f@ == vpw_frame(phys_header().push(MODE_HS_PREPARE)),
{
    header_mode_frame(MODE_HS_PREPARE)
}

/// Mode 0xA1 HighSpeed (the adapter must switch its bit rate after E1).
pub fn build_mode_a1_hs_enter() -> (f: Vec<u8>)
    ensures
        f@ == vpw_frame(phys_header().push(MODE_HS_ENTER)),
{
    header_mode_frame(MODE_HS_ENTER)
}

// ── Checksum ────────────────────────────────────────────────────────────

/// Wrapping sum of the bytes.
pub fn vpw_checksum(data: &[u8]) -> (r: u8)
    ensures
        r == sum8(data@),
{
    checksum8(data)
}

/// At least two bytes, the last being the checksum of the others.
pub fn validate_frame(frame: &[u8]) -> (r: bool)
    ensures
        r == frame_checksum_ok(frame@),
{
    validate_checksum(frame)
}

// ── Response parsers ────────────────────────────────────────────────────

/// Bytes between the 5-byte Mode 01 header and the checksum.
pub open spec fn spec_mode01(f: Seq<u8>, pid: u8) -> Option<Seq<u8>> {
    if f.len() >= 6 && f[3] == 0x41 && f[4] == pid && frame_checksum_ok(f) {
        Some(f.subrange(5, f.len() - 1))
    } else {
        None
    }
}

pub fn parse_mode01_response(frame: &[u8], expected_pid: u8) -> (r: Option<Vec<u8>>)
    ensures
        spec_mode01(frame@, expected_pid) matches Some(d) ==> (r matches Some(v) && v@ == d),
        spec_mode01(frame@, expected_pid) is None ==> r is None,
{
    if frame.len() < 6 {
        return None;
    }
    if frame[3] == 0x41 && frame[4] == expected_pid && validate_frame(frame) {
        return Some(
            vstd::slice::slice_to_vec(vstd::slice::slice_subrange(frame, 5, frame.len() - 1)),
        );
    }
    None
}

pub open spec fn spec_mode22(f: Seq<u8>, did_high: u8, did_low: u8) -> Option<Seq<u8>> {
    if f.len() >= 7 && f[3] == 0x62 && f[4] == did_high && f[5] == did_low && frame_checksum_ok(f) {
        Some(f.subrange(6, f.len() - 1))
    } else {
        None
    }
}

pub fn parse_mode22_response(frame: &[u8], did_high: u8, did_low: u8) -> (r: Option<Vec<u8>>)
    ensures
        spec_mode22(frame@, did_high, did_low) matches Some(d) ==> (r matches Some(v) && v@ == d),
        spec_mode22(frame@, did_high, did_low) is None ==> r is None,
{
    if frame.len() < 7 {
        return None;
    }
    if frame[3] == 0x62 && frame[4] == did_high && frame[5] == did_low && validate_frame(frame) {
        return Some(
            vstd::slice::slice_to_vec(vstd::slice::slice_subrange(frame, 6, frame.len() - 1)),
        );
    }
    None
}

/// A Mode 03 response: `hdr hdr hdr 43 <count> (dtc_hi dtc_lo)* <cs>`.
pub open spec fn is_dtc_response(f: Seq<u8>) -> bool {
    f.len() >= 5 && f[3] == 0x43 && frame_checksum_ok(f)
}

/// The two-byte codes of a Mode 03 response (a trailing odd byte is dropped).
pub open spec fn dtc_pairs_ok(f: Seq<u8>, r: Seq<[u8; 2]>) -> bool {
    let data = f.subrange(5, f.len() - 1);
    &&& r.len() == data.len() / 2
    &&& forall|i: int| 0 <= i < r.len() ==> #[trigger] r[i]@ == data.subrange(2 * i, 2 * i + 2)
}

/// Decodes the codes of a Mode 03 response. A checksum-valid `43` frame of
/// exactly five bytes has no data field and is outside the domain.
pub fn parse_dtc_response(frame: &[u8]) -> (r: Option<Vec<[u8; 2]>>)
    requires
        !(is_dtc_response(frame@) && frame@.len() == 5),
    ensures
        !is_dtc_response(frame@) ==> r is None,
        is_dtc_response(frame@) ==> (r matches Some(v) && dtc_pairs_ok(frame@, v@)),
{
    if frame.len() < 5 || frame[3] != 0x43 || !validate_frame(frame) {
        return None;
    }
    let end = frame.len() - 1;
    let ghost data = frame@.subrange(5, end as int);
    let mut out: Vec<[u8; 2]> = Vec::new();
    let mut i: usize = 5;
    while end - i >= 2
        invariant
            5 <= i <= end,
            end == frame.len() - 1,
            data == frame@.subrange(5, end as int),
            (i - 5) % 2 == 0,
            out@.len() == (i - 5) / 2,
            forall|k: int| 0 <= k < out@.len() ==> #[trigger] out@[k]@ == data.subrange(2 * k, 2 * k + 2),
        decreases end - i,
    {
        let pair = [frame[i], frame[i + 1]];
        let ghost k = out@.len() as int;
        assert(pair@ == data.subrange(2 * k, 2 * k + 2));
        out.push(pair);
        i += 2;
    }
    Some(out)
}

/// What `parse_mode3c_response` gives: the bytes after the response SID (at
/// offset 3, or 0 when the header is absent), without the checksum when the
/// whole frame carries a valid one.
pub open spec fn spec_mode3c(f: Seq<u8>) -> Result<Seq<u8>, Seq<char>> {
    if f.len() < 5 {
        Err("Mode 3C response too short: "@ + dec(f.len()) + " bytes"@)
    } else {
        let idx: int = if f[3] == 0x7C || f[3] == 0x7F {
            3
        } else if f[0] == 0x7C || f[0] == 0x7F {
            0
        } else {
            -1
        };
        if idx < 0 {
            Err("Not a Mode 3C response (SID=0x"@ + hex_pad(f[3] as nat, 2) + ")"@)
        } else if f[idx] == 0x7F {
            let nrc: u8 = if idx + 2 < f.len() {
                f[idx + 2]
            } else {
                0
            };
            Err("Mode 3C negative response NRC 0x"@ + hex_pad(nrc as nat, 2))
        } else {
            let data = f.subrange(idx + 1, f.len() as int);
            if data.len() > 1 && frame_checksum_ok(f) {
                Ok(data.drop_last())
            } else {
                Ok(data)
            }
        }
    }
}

/// Parses a kernel Mode 3C ReadBlock response.
pub fn parse_mode3c_response(frame: &[u8]) -> (r: Result<Vec<u8>, String>)
    ensures
        spec_mode3c(frame@) matches Ok(d) ==> (r matches Ok(v) && v@ == d),
        spec_mode3c(frame@) matches Err(m) ==> (r matches Err(e) && e@ == m),
{
    if frame.len() < 5 {
        let mut e = str_to_string("Mode 3C response too short: ");
        push_dec(&mut e, frame.len() as u64);
        push_str(&mut e, " bytes");
        return Err(e);
    }
    let sid_idx: usize = if frame[3] == 0x7C || frame[3] == 0x7F {
        3
    } else if frame[0] == 0x7C || frame[0] == 0x7F {
        0
    } else {
        let mut e = str_to_string("Not a Mode 3C response (SID=0x");
        push_hex_pad(&mut e, frame[3] as u64, 2);
        push_str(&mut e, ")");
        return Err(e);
    };
    if frame[sid_idx] == 0x7F {
        let nrc: u8 = if sid_idx + 2 < frame.len() {
            frame[sid_idx + 2]
        } else {
            0
        };
        let mut e = str_to_string("Mode 3C negative response NRC 0x");
        push_hex_pad(&mut e, nrc as u64, 2);
        return Err(e);
    }
    let data = vstd::slice::slice_to_vec(vstd::slice::slice_subrange(frame, sid_idx + 1, frame.len()));
    if data.len() > 1 && validate_frame(frame) {
        let mut d = data;
        d.pop();
        return Ok(d);
    }
    Ok(data)
}

/// `frame` holds the expected high-speed response byte.
pub fn is_positive_hs_response(frame: &[u8], expected_resp: u8) -> (r: bool)
    ensures
        r == frame@.contains(expected_resp),
{
    let mut i: usize = 0;
    while i < frame.len()
        invariant
            i <= frame.len(),
            forall|k: int| 0 <= k < i ==> frame@[k] != expected_resp,
        decreases frame.len() - i,
    {
        if frame[i] == expected_resp {
            return true;
        }
        i += 1;
    }
    false
}

/// Classification of a high-speed control response.
#[derive(Clone, Copy, Debug, PartialEq, Eq, Structural)]
pub enum HsResponse {
    PrepareOk,
    EnterOk,
    Negative,
    Unknown,
}

pub open spec fn spec_hs_response(f: Seq<u8>) -> HsResponse {
    if f.contains(RESP_HS_PREPARE) {
        HsResponse::PrepareOk
    } else if f.contains(RESP_HS_ENTER) {
        HsResponse::EnterOk
    } else if f.contains(0x7Fu8) {
        HsResponse::Negative
    } else {
        HsResponse::Unknown
    }
}

pub fn parse_hs_response(frame: &[u8]) -> (r: HsResponse)
    ensures
        r == spec_hs_response(frame@),
{
    if frame.len() == 0 {
        return HsResponse::Unknown;
    }
    if is_positive_hs_response(frame, RESP_HS_PREPARE) {
        return HsResponse::PrepareOk;
    }
    if is_positive_hs_response(frame, RESP_HS_ENTER) {
        return HsResponse::EnterOk;
    }
    if is_positive_hs_response(frame, 0x7F) {
        return HsResponse::Negative;
    }
    HsResponse::Unknown
}

// ── Flash / kernel builders ─────────────────────────────────────────────

/// Mode 34 RequestDownload: `00`, 32-bit address, 32-bit size.
pub fn build_mode34_request(address: u32, size: u32) -> (f: Vec<u8>)
    ensures
        f@ == vpw_frame(phys_header() + seq![0x34u8, 0x00u8] + be32_bytes(address) + be32_bytes(size)),
{
    let mut frame = vec![PRIO_HIGH_PHYS, PCM_ADDR, TOOL_ADDR, 0x34, 0x00];
    assert(frame@ == phys_header() + seq![0x34u8, 0x00u8]);
    push_be32_tail(&mut frame, address, 4);
    push_be32_tail(&mut frame, size, 4);
    assert(be32_tail(address, 4) == be32_bytes(address));
    assert(be32_tail(size, 4) == be32_bytes(size));
    finish_frame(&mut frame);
    frame
}

/// Mode 36 TransferData chunk.
pub fn build_mode36_chunk(data: &[u8]) -> (f: Vec<u8>)
    ensures
        f@ == vpw_frame(phys_header().push(0x36) + data@),
{
    let mut frame = vec![PRIO_HIGH_PHYS, PCM_ADDR, TOOL_ADDR, 0x36];
    assert(frame@ == phys_header().push(0x36));
    extend_bytes(&mut frame, data);
    finish_frame(&mut frame);
    frame
}

/// Mode 37 RequestTransferExit.
pub fn build_mode37_request() -> (f: Vec<u8>)
    ensures
        f@ == vpw_frame(phys_header().push(0x37)),
{
    header_mode_frame(0x37)
}

/// Physical header, payload, checksum.
pub fn build_physical_frame(payload: &[u8]) -> (f: Vec<u8>)
    ensures
        f@ == vpw_frame(phys_header() + payload@),
{
    let mut frame = vec![PRIO_HIGH_PHYS, PCM_ADDR, TOOL_ADDR];
    assert(frame@ == phys_header());
    extend_bytes(&mut frame, payload);
    finish_frame(&mut frame);
    frame
}

// ── Laws ────────────────────────────────────────────────────────────────

/// Every frame the builders produce passes `validate_frame`: a non-empty body
/// followed by its checksum is checksum-valid.
pub proof fn law_built_frames_validate(body: Seq<u8>)
    requires
        body.len() >= 1,
    ensures
        frame_checksum_ok(vpw_frame(body)),
{
    assert(vpw_frame(body).drop_last() == body);
}

/// A checksummed Mode 01 response for `pid` carrying `data` parses back to `data`.
pub proof fn law_mode01_response_roundtrip(h0: u8, h1: u8, h2: u8, pid: u8, data: Seq<u8>)
    ensures
        spec_mode01(vpw_frame(seq![h0, h1, h2, 0x41u8, pid] + data), pid) == Some(data),
{
    let body = seq![h0, h1, h2, 0x41u8, pid] + data;
    let f = vpw_frame(body);
    assert(f.drop_last() == body);
    assert(f.subrange(5, f.len() - 1) == data);
}

/// A checksummed Mode 22 response for a DID carrying `data` parses back to `data`.
pub proof fn law_mode22_response_roundtrip(h0: u8, h1: u8, h2: u8, did_high: u8, did_low: u8, data: Seq<u8>)
    ensures
        spec_mode22(vpw_frame(seq![h0, h1, h2, 0x62u8, did_high, did_low] + data), did_high, did_low)
            == Some(data),
{
    let body = seq![h0, h1, h2, 0x62u8, did_high, did_low] + data;
    let f = vpw_frame(body);
    assert(f.drop_last() == body);
    assert(f.subrange(6, f.len() - 1) == data);
}

} // verus!
