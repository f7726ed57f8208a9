//! ISO 14229 Unified Diagnostic Services: service payload builders, the
//! response parser with negative-response mapping, and the decisions of the
//! download sequence (block length, chunking, block counter).
use vstd::prelude::*;
use crate::bytes::{be32_tail, extend_bytes, hi8, lo8, push_be32_tail, to_be16};
use crate::text::{hex_pad, push_hex_pad, push_str, str_to_string};

verus! {

// ── Service IDs ─────────────────────────────────────────────────────────────

pub const SID_DSC: u8 = 0x10;
pub const SID_ECU_RESET: u8 = 0x11;
pub const SID_CLEAR_DTC: u8 = 0x14;
pub const SID_READ_DTC: u8 = 0x19;
pub const SID_RDBI: u8 = 0x22;
pub const SID_RMBA: u8 = 0x23;
pub const SID_SA: u8 = 0x27;
pub const SID_CC: u8 = 0x28;
pub const SID_WDBI: u8 = 0x2E;
pub const SID_IOCBI: u8 = 0x2F;
pub const SID_RC: u8 = 0x31;
pub const SID_RD: u8 = 0x34;
pub const SID_RU: u8 = 0x35;
pub const SID_TD: u8 = 0x36;
pub const SID_RTE: u8 = 0x37;
pub const SID_TP: u8 = 0x3E;
pub const SID_CDTCS: u8 = 0x85;

// ── Sessions ────────────────────────────────────────────────────────────────

#[derive(Clone, Copy, Debug, PartialEq, Eq, Structural)]
pub enum DiagnosticSession {
    Default,
    Programming,
    Extended,
    SafetySystem,
}

/// The session's sub-function byte.
pub open spec fn session_code(s: DiagnosticSession) -> u8 {
    match s {
        DiagnosticSession::Default => 0x01,
        DiagnosticSession::Programming => 0x02,
        DiagnosticSession::Extended => 0x03,
        DiagnosticSession::SafetySystem => 0x04,
    }
}

impl DiagnosticSession {
    /// The session selected by a sub-function byte, if any.
    pub fn from_u8(v: u8) -> (r: Option<Self>)
        ensures
            r matches Some(s) ==> session_code(s) == v,
            r is None <==> !(1 <= v <= 4),
    {
        match v {
            0x01 => Some(DiagnosticSession::Default),
            0x02 => Some(DiagnosticSession::Programming),
            0x03 => Some(DiagnosticSession::Extended),
            0x04 => Some(DiagnosticSession::SafetySystem),
            _ => None,
        }
    }

    /// The session's sub-function byte.
    pub fn as_u8(self) -> (r: u8)
        ensures
            r == session_code(self),
    {
        match self {
            DiagnosticSession::Default => 0x01,
            DiagnosticSession::Programming => 0x02,
            DiagnosticSession::Extended => 0x03,
            DiagnosticSession::SafetySystem => 0x04,
        }
    }
}

// ── AddressAndLengthFormatIdentifier ────────────────────────────────────────

/// High nibble: size of memorySize; low nibble: size of memoryAddress.
#[derive(Clone, Copy, Debug, PartialEq, Eq, Structural)]
pub struct Alfi(pub u8);

impl Alfi {
    pub fn address_bytes(self) -> (r: usize)
        ensures
            r == self.0 % 16,
    {
        let a = self.0;
        let r = a & 0x0F;
        assert(r == a % 16) by (bit_vector)
            requires
                r == a & 0x0F,
        ;
        r as usize
    }

    pub fn size_bytes(self) -> (r: usize)
        ensures
            r == self.0 / 16,
    {
        let a = self.0;
        let r = (a >> 4) & 0x0F;
        assert(r == a / 16) by (bit_vector)
            requires
                r == (a >> 4) & 0x0F,
        ;
        r as usize
    }
}

/// Both lengths of the identifier lie in 1..=4.
pub open spec fn alfi_ok(a: Alfi) -> bool {
    1 <= a.0 % 16 <= 4 && 1 <= a.0 / 16 <= 4
}

// ── Negative response ───────────────────────────────────────────────────────

#[derive(Clone, Copy, Debug, PartialEq, Eq, Structural)]
pub struct NegativeResponse {
    pub sid: u8,
    pub nrc: u8,
}

pub open spec fn spec_nrc_text(nrc: u8) -> Seq<char> {
    if nrc == 0x10 {
        "generalReject"@
    } else if nrc == 0x11 {
        "serviceNotSupported"@
    } else if nrc == 0x12 {
        "subFunctionNotSupported"@
    } else if nrc == 0x13 {
        "incorrectMessageLengthOrInvalidFormat"@
    } else if nrc == 0x14 {
        "responseTooLong"@
    } else if nrc == 0x21 {
        "busyRepeatRequest"@
    } else if nrc == 0x22 {
        "conditionsNotCorrect"@
    } else if nrc == 0x24 {
        "requestSequenceError"@
    } else if nrc == 0x25 {
        "noResponseFromSubnetComponent"@
    } else if nrc == 0x26 {
        "failurePreventsExecutionOfRequestedAction"@
    } else if nrc == 0x31 {
        "requestOutOfRange"@
    } else if nrc == 0x33 {
        "securityAccessDenied"@
    } else if nrc == 0x35 {
        "invalidKey"@
    } else if nrc == 0x36 {
        "exceedNumberOfAttempts"@
    } else if nrc == 0x37 {
        "requiredTimeDelayNotExpired"@
    } else if nrc == 0x70 {
        "uploadDownloadNotAccepted"@
    } else if nrc == 0x71 {
        "transferDataSuspended"@
    } else if nrc == 0x72 {
        "generalProgrammingFailure"@
    } else if nrc == 0x73 {
        "wrongBlockSequenceCounter"@
    } else if nrc == 0x78 {
        "requestCorrectlyReceivedResponsePending"@
    } else if nrc == 0x7E {
        "subFunctionNotSupportedInActiveSession"@
    } else if nrc == 0x7F {
        "serviceNotSupportedInActiveSession"@
    } else {
        "unknownNRC"@
    }
}

/// ISO 14229 name of a negative response code.
pub fn nrc_text(nrc: u8) -> (r: &'static str)
    ensures
        r@ == spec_nrc_text(nrc),
{
    if nrc == 0x10 {
        "generalReject"
    } else if nrc == 0x11 {
        "serviceNotSupported"
    } else if nrc == 0x12 {
        "subFunctionNotSupported"
    } else if nrc == 0x13 {
        "incorrectMessageLengthOrInvalidFormat"
    } else if nrc == 0x14 {
        "responseTooLong"
    } else if nrc == 0x21 {
        "busyRepeatRequest"
    } else if nrc == 0x22 {
        "conditionsNotCorrect"
    } else if nrc == 0x24 {
        "requestSequenceError"
    } else if nrc == 0x25 {
        "noResponseFromSubnetComponent"
    } else if nrc == 0x26 {
        "failurePreventsExecutionOfRequestedAction"
    } else if nrc == 0x31 {
        "requestOutOfRange"
    } else if nrc == 0x33 {
        "securityAccessDenied"
    } else if nrc == 0x35 {
        "invalidKey"
    } else if nrc == 0x36 {
        "exceedNumberOfAttempts"
    } else if nrc == 0x37 {
        "requiredTimeDelayNotExpired"
    } else if nrc == 0x70 {
        "uploadDownloadNotAccepted"
    } else if nrc == 0x71 {
        "transferDataSuspended"
    } else if nrc == 0x72 {
        "generalProgrammingFailure"
    } else if nrc == 0x73 {
        "wrongBlockSequenceCounter"
    } else if nrc == 0x78 {
        "requestCorrectlyReceivedResponsePending"
    } else if nrc == 0x7E {
        "subFunctionNotSupportedInActiveSession"
    } else if nrc == 0x7F {
        "serviceNotSupportedInActiveSession"
    } else {
        "unknownNRC"
    }
}

impl NegativeResponse {
    pub fn description(&self) -> (r: &'static str)
        ensures
            r@ == spec_nrc_text(self.nrc),
    {
        nrc_text(self.nrc)
    }
}

/// What `parse_response` gives: the payload after the positive SID (or the whole
/// response when the SID is not echoed), or the negative response.
pub open spec fn spec_parse_response(pos_sid: u8, resp: Seq<u8>) -> Result<Seq<u8>, NegativeResponse> {
    if resp.len() == 0 {
        Err(NegativeResponse { sid: pos_sid.wrapping_sub(0x40), nrc: 0x10 })
    } else if resp[0] == 0x7F {
        Err(
            NegativeResponse {
                sid: if resp.len() > 1 {
                    resp[1]
                } else {
                    0
                },
                nrc: if resp.len() > 2 {
                    resp[2]
                } else {
                    0x10
                },
            },
        )
    } else if resp[0] == pos_sid {
        Ok(resp.subrange(1, resp.len() as int))
    } else {
        Ok(resp)
    }
}

/// Parses a UDS response into its payload or its negative response.
pub fn parse_response(expected_pos_sid: u8, resp: &[u8]) -> (r: Result<Vec<u8>, NegativeResponse>)
    ensures
        spec_parse_response(expected_pos_sid, resp@) matches Ok(p) ==> (r matches Ok(v) && v@ == p),
        spec_parse_response(expected_pos_sid, resp@) matches Err(n) ==> r == Err::<Vec<u8>, NegativeResponse>(n),
{
    if resp.len() == 0 {
        return Err(NegativeResponse { sid: expected_pos_sid.wrapping_sub(0x40), nrc: 0x10 });
    }
    if resp[0] == 0x7F {
        let sid = if resp.len() > 1 {
            resp[1]
        } else {
            0
        };
        let nrc = if resp.len() > 2 {
            resp[2]
        } else {
            0x10
        };
        return Err(NegativeResponse { sid, nrc });
    }
    if resp[0] == expected_pos_sid {
        return Ok(vstd::slice::slice_to_vec(vstd::slice::slice_subrange(resp, 1, resp.len())));
    }
    Ok(vstd::slice::slice_to_vec(resp))
}

/// The message for a negative response to `sid`.
pub open spec fn nrc_message(n: NegativeResponse) -> Seq<char> {
    "UDS NRC 0x"@ + hex_pad(n.nrc as nat, 2) + " on SID 0x"@ + hex_pad(n.sid as nat, 2) + ": "@
        + spec_nrc_text(n.nrc)
}

/// `parse_response` against the positive SID of `sid`, with the negative
/// response turned into a message.
pub open spec fn spec_expect_positive(sid: u8, resp: Seq<u8>) -> Result<Seq<u8>, Seq<char>> {
    match spec_parse_response(sid.wrapping_add(0x40), resp) {
        Ok(p) => Ok(p),
        Err(n) => Err(nrc_message(n)),
    }
}

/// The payload of a positive response to `sid`, or the negative-response message.
pub fn expect_positive(sid: u8, resp: &[u8]) -> (r: Result<Vec<u8>, String>)
    ensures
        spec_expect_positive(sid, resp@) matches Ok(p) ==> (r matches Ok(v) && v@ == p),
        spec_expect_positive(sid, resp@) matches Err(m) ==> (r matches Err(e) && e@ == m),
{
    let pos = sid.wrapping_add(0x40);
    match parse_response(pos, resp) {
        Ok(p) => Ok(p),
        Err(n) => {
            let mut e = str_to_string("UDS NRC 0x");
            push_hex_pad(&mut e, n.nrc as u64, 2);
            push_str(&mut e, " on SID 0x");
            push_hex_pad(&mut e, n.sid as u64, 2);
            push_str(&mut e, ": ");
            push_str(&mut e, n.description());
            Err(e)
        },
    }
}

// ── Payload builders (without the SID) ──────────────────────────────────────

pub fn build_session_control(session: DiagnosticSession) -> (p: Vec<u8>)
    ensures
        p@ == seq![session_code(session)],
{
    vec![session.as_u8()]
}

/// Sub-function 0x00, with bit 7 (suppress positive response) when asked.
pub fn build_tester_present(suppress_response: bool) -> (p: Vec<u8>)
    ensures
        p@ == seq![if suppress_response { 0x80u8 } else { 0x00u8 }],
{
    let sub: u8 = if suppress_response {
        0x80
    } else {
        0x00
    };
    vec![sub]
}

pub fn build_ecu_reset(reset_type: u8) -> (p: Vec<u8>)
    ensures
        p@ == seq![reset_type],
{
    vec![reset_type]
}

pub fn build_communication_control(control_type: u8, communication_type: u8) -> (p: Vec<u8>)
    ensures
        p@ == seq![control_type, communication_type],
{
    vec![control_type, communication_type]
}

pub fn build_control_dtc_setting(setting: u8) -> (p: Vec<u8>)
    ensures
        p@ == seq![setting],
{
    vec![setting]
}

pub fn build_read_did(did: u16) -> (p: Vec<u8>)
    ensures
        p@ == seq![hi8(did), lo8(did)],
{
    let (h, l) = to_be16(did);
    vec![h, l]
}

pub fn build_write_did(did: u16, data: &[u8]) -> (p: Vec<u8>)
    ensures
        p@ == seq![hi8(did), lo8(did)] + data@,
{
    let mut p = build_read_did(did);
    extend_bytes(&mut p, data);
    p
}

pub open spec fn invalid_alfi_message(a: Alfi) -> Seq<char> {
    "Invalid ALFI 0x"@ + hex_pad(a.0 as nat, 2)
}

fn invalid_alfi(a: Alfi) -> (e: String)
    ensures
        e@ == invalid_alfi_message(a),
{
    let mut e = str_to_string("Invalid ALFI 0x");
    push_hex_pad(&mut e, a.0 as u64, 2);
    e
}

/// ALFI, then the address and the size big-endian in the widths it names.
pub open spec fn alfi_fields(alfi: Alfi, address: u32, size: u32) -> Seq<u8> {
    seq![alfi.0] + be32_tail(address, (alfi.0 % 16) as nat) + be32_tail(size, (alfi.0 / 16) as nat)
}

/// ReadMemoryByAddress payload: ALFI + address + size.
pub fn build_read_memory(alfi: Alfi, address: u32, size: u32) -> (r: Result<Vec<u8>, String>)
    ensures
        alfi_ok(alfi) ==> (r matches Ok(p) && p@ == alfi_fields(alfi, address, size)),
        !alfi_ok(alfi) ==> (r matches Err(e) && e@ == invalid_alfi_message(alfi)),
{
    let addr_len = alfi.address_bytes();
    let size_len = alfi.size_bytes();
    if addr_len == 0 || addr_len > 4 || size_len == 0 || size_len > 4 {
        return Err(invalid_alfi(alfi));
    }
    let mut p: Vec<u8> = Vec::new();
    p.push(alfi.0);
    push_be32_tail(&mut p, address, addr_len);
    push_be32_tail(&mut p, size, size_len);
    Ok(p)
}

/// The fixed packing of the flash path: 0x42, 4-byte address, 2-byte size.
pub fn build_read_memory_legacy42(address: u32, size: u16) -> (p: Vec<u8>)
    ensures
        p@ == seq![0x42u8] + be32_tail(address, 4) + seq![hi8(size), lo8(size)],
{
    let mut p = vec![0x42u8];
    push_be32_tail(&mut p, address, 4);
    let (h, l) = to_be16(size);
    p.push(h);
    p.push(l);
    p
}

pub fn build_security_request_seed(level: u8) -> (p: Vec<u8>)
    ensures
        p@ == seq![level],
{
    vec![level]
}

pub fn build_security_send_key(level: u8, key: &[u8]) -> (p: Vec<u8>)
    ensures
        p@ == seq![level.wrapping_add(1)] + key@,
{
    let mut p = vec![level.wrapping_add(1)];
    extend_bytes(&mut p, key);
    p
}

/// RoutineControl: sub-function, routine id (big-endian), option record.
pub fn build_routine_control(sub: u8, routine_id: u16, option: &[u8]) -> (p: Vec<u8>)
    ensures
        p@ == seq![sub, hi8(routine_id), lo8(routine_id)] + option@,
{
    let (h, l) = to_be16(routine_id);
    let mut p = vec![sub, h, l];
    extend_bytes(&mut p, option);
    p
}

/// RequestDownload: dataFormatIdentifier + ALFI + address + size.
pub fn build_request_download(data_format: u8, alfi: Alfi, address: u32, size: u32) -> (r: Result<
    Vec<u8>,
    String,
>)
    ensures
        alfi_ok(alfi) ==> (r matches Ok(p) && p@ == seq![data_format] + alfi_fields(
            alfi,
            address,
            size,
        )),
        !alfi_ok(alfi) ==> (r matches Err(e) && e@ == invalid_alfi_message(alfi)),
{
    match build_read_memory(alfi, address, size) {
        Ok(fields) => {
            let mut p = vec![data_format];
            extend_bytes(&mut p, fields.as_slice());
            Ok(p)
        },
        Err(e) => Err(e),
    }
}

pub fn build_transfer_data(block_sequence: u8, data: &[u8]) -> (p: Vec<u8>)
    ensures
        p@ == seq![block_sequence] + data@,
{
    let mut p = vec![block_sequence];
    extend_bytes(&mut p, data);
    p
}

pub fn build_transfer_exit(params: &[u8]) -> (p: Vec<u8>)
    ensures
        p@ == params@,
{
    vstd::slice::slice_to_vec(params)
}

/// ClearDiagnosticInformation: the low three bytes of the group, big-endian.
pub fn build_clear_dtc(group: u32) -> (p: Vec<u8>)
    ensures
        p@ == be32_tail(group, 3),
{
    let mut p: Vec<u8> = Vec::new();
    push_be32_tail(&mut p, group, 3);
    p
}

/// ReadDTCInformation, reportDTCByStatusMask.
pub fn build_read_dtc_by_status_mask(status_mask: u8) -> (p: Vec<u8>)
    ensures
        p@ == seq![0x02u8, status_mask],
{
    vec![0x02, status_mask]
}

/// ReadDTCInformation, reportNumberOfDTCByStatusMask.
pub fn build_read_dtc_number_by_status_mask(status_mask: u8) -> (p: Vec<u8>)
    ensures
        p@ == seq![0x01u8, status_mask],
{
    vec![0x01, status_mask]
}

// ── Download sequence decisions ─────────────────────────────────────────────

/// Big-endian value of `s`, kept to 32 bits as it is shifted in.
pub open spec fn be_wrapping32(s: Seq<u8>) -> u32
    decreases s.len(),
{
    if s.len() == 0 {
        0
    } else {
        ((be_wrapping32(s.drop_last()) as int * 256 + s.last() as int) % 0x1_0000_0000) as u32
    }
}

/// The block length to use after a RequestDownload positive payload
/// (`lengthFormatIdentifier` + maxNumberOfBlockLength): at least 2, and 0x402
/// when the payload does not carry it.
pub open spec fn spec_max_block_length(payload: Seq<u8>) -> nat {
    if payload.len() == 0 {
        0x402
    } else {
        let n = (payload[0] / 16) as int;
        if n == 0 || payload.len() < 1 + n {
            0x402
        } else {
            let v = be_wrapping32(payload.subrange(1, 1 + n));
            if v < 2 {
                2
            } else {
                v as nat
            }
        }
    }
}

pub fn max_block_length(payload: &[u8]) -> (r: usize)
    ensures
        r == spec_max_block_length(payload@),
{
    if payload.len() == 0 {
        return 0x402;
    }
    let b0 = payload[0];
    let n = (b0 >> 4) as usize;
    assert(n == b0 / 16) by (bit_vector)
        requires
            n == (b0 >> 4) as usize,
    ;
    if n == 0 || payload.len() < 1 + n {
        return 0x402;
    }
    let mut v: u32 = 0;
    let mut i: usize = 1;
    while i < 1 + n
        invariant
            1 <= i <= 1 + n <= payload.len(),
            v == be_wrapping32(payload@.subrange(1, i as int)),
        decreases 1 + n - i,
    {
        let b = payload[i];
        let nv = (v << 8u32) | (b as u32);
        assert(nv == ((v as int * 256 + b as int) % 0x1_0000_0000) as u32) by (bit_vector)
            requires
                nv == (v << 8u32) | (b as u32),
        ;
        assert(payload@.subrange(1, i + 1).drop_last() == payload@.subrange(1, i as int));
        v = nv;
        i += 1;
    }
    if v < 2 {
        2
    } else {
        v as usize
    }
}

/// Data bytes per TransferData: one less than the block length (the counter
/// byte), at least 1 and at most 0x800.
pub open spec fn spec_chunk_len(max_block: nat) -> nat {
    let d = if max_block >= 1 {
        (max_block - 1) as nat
    } else {
        0
    };
    if d < 1 {
        1
    } else if d > 0x800 {
        0x800
    } else {
        d
    }
}

pub fn transfer_chunk_len(max_block: usize) -> (r: usize)
    ensures
        r == spec_chunk_len(max_block as nat),
        1 <= r <= 0x800,
{
    let d = max_block.saturating_sub(1);
    if d < 1 {
        1
    } else if d > 0x800 {
        0x800
    } else {
        d
    }
}

/// The block counter after `seq`: it wraps from 0xFF to 0x01, skipping 0.
pub fn next_block_sequence(seq: u8) -> (r: u8)
    ensures
        r == if seq == 0xFF { 1u8 } else { (seq + 1) as u8 },
        r != 0,
{
    let n = seq.wrapping_add(1);
    if n == 0 {
        1
    } else {
        n
    }
}

/// ReadDataByIdentifier data: the payload without its two-byte DID echo.
pub fn strip_did_echo(payload: &[u8]) -> (r: Vec<u8>)
    ensures
        r@ == if payload@.len() >= 2 {
            payload@.subrange(2, payload@.len() as int)
        } else {
            payload@
        },
{
    if payload.len() >= 2 {
        vstd::slice::slice_to_vec(vstd::slice::slice_subrange(payload, 2, payload.len()))
    } else {
        vstd::slice::slice_to_vec(payload)
    }
}

// ── Download plan ───────────────────────────────────────────────────────────

/// One TransferData block: image bytes `start..end`, sent with `sequence`.
#[derive(Clone, Copy, Debug, PartialEq, Eq, Structural)]
pub struct TransferBlock {
    pub start: usize,
    pub end: usize,
    pub sequence: u8,
}

/// The counter of block `i` (from 0): 1, 2, …, 0xFF, then 1 again.
pub open spec fn block_sequence(i: nat) -> u8 {
    ((i % 255) + 1) as u8
}

/// Blocks of `chunk` bytes from the start of an image of `len` bytes, the
/// last one shorter when `len` is not a multiple of `chunk`.
pub open spec fn plan_ok(len: nat, chunk: nat, p: Seq<TransferBlock>) -> bool {
    &&& len == 0 ==> p.len() == 0
    &&& len > 0 ==> p.len() >= 1 && (p.len() - 1) * chunk < len && len <= p.len() * chunk
    &&& forall|i: int|
        0 <= i < p.len() ==> {
            &&& (#[trigger] p[i]).start == i * chunk
            &&& p[i].end == (if (i + 1) * chunk < len { (i + 1) * chunk } else { len as int })
            &&& p[i].sequence == block_sequence(i as nat)
        }
}

/// The blocks that carry an image of `len` bytes in chunks of `chunk` bytes.
pub fn transfer_plan(len: usize, chunk: usize) -> (r: Vec<TransferBlock>)
    requires
        chunk >= 1,
    ensures
        plan_ok(len as nat, chunk as nat, r@),
{
    let mut out: Vec<TransferBlock> = Vec::new();
    let mut offset: usize = 0;
    let mut seq: u8 = 1;
    assert(out@.len() * chunk == 0) by (nonlinear_arith)
        requires out@.len() == 0;
    while offset < len
        invariant
            chunk >= 1,
            offset <= len,
            offset == out@.len() * chunk || (offset == len && out@.len() >= 1 && (out@.len() - 1) * chunk < len
                && len <= out@.len() * chunk),
            offset < len ==> offset == out@.len() * chunk,
            seq == block_sequence(out@.len() as nat),
            out@.len() >= 1 ==> (out@.len() - 1) * chunk < len,
            forall|i: int|
                0 <= i < out@.len() ==> {
                    &&& (#[trigger] out@[i]).start == i * chunk
                    &&& out@[i].end == (if (i + 1) * chunk < len { (i + 1) * chunk } else { len as int })
                    &&& out@[i].sequence == block_sequence(i as nat)
                },
        decreases len - offset,
    {
        let k = out.len();
        let end: usize = if len - offset > chunk {
            offset + chunk
        } else {
            len
        };
        assert((k + 1) * chunk == k * chunk + chunk) by (nonlinear_arith);
        out.push(TransferBlock { start: offset, end, sequence: seq });
        proof {
            assert(block_sequence((k + 1) as nat) == (if seq == 0xFF { 1u8 } else { (seq + 1) as u8 })) by {
                assert(seq == ((k % 255) + 1) as u8);
                if k % 255 == 254 {
                    assert((k + 1) % 255 == 0) by (nonlinear_arith)
                        requires k % 255 == 254;
                } else {
                    assert((k + 1) % 255 == k % 255 + 1) by (nonlinear_arith)
                        requires k % 255 != 254;
                }
            }
        }
        seq = next_block_sequence(seq);
        offset = end;
    }
    proof {
        if len > 0 {
            assert(out@.len() >= 1);
        }
    }
    out
}

/// Law: a download plan sends every byte of the image exactly once, in
/// order, in non-empty blocks whose counter is never 0.
pub proof fn law_transfer_plan_covers(len: nat, chunk: nat, p: Seq<TransferBlock>)
    requires
        chunk >= 1,
        plan_ok(len, chunk, p),
    ensures
        len > 0 ==> p[0].start == 0 && p[p.len() - 1].end == len,
        forall|i: int| 0 <= i < p.len() ==> (#[trigger] p[i]).start < p[i].end && p[i].sequence != 0,
        forall|i: int| 0 <= i < p.len() - 1 ==> (#[trigger] p[i]).end == p[i + 1].start,
{
    assert forall|i: int| 0 <= i < p.len() implies (#[trigger] p[i]).start < p[i].end && p[i].sequence != 0 by {
        assert(i * chunk <= (p.len() - 1) * chunk) by (nonlinear_arith)
            requires 0 <= i < p.len(), chunk >= 1;
        assert((i + 1) * chunk == i * chunk + chunk) by (nonlinear_arith);
        assert(i % 255 < 255) by (nonlinear_arith)
            requires i >= 0;
    }
    assert forall|i: int| 0 <= i < p.len() - 1 implies (#[trigger] p[i]).end == p[i + 1].start by {
        assert((i + 1) * chunk <= (p.len() - 1) * chunk) by (nonlinear_arith)
            requires 0 <= i < p.len() - 1, chunk >= 1;
    }
    if len > 0 {
        assert(0 * chunk == 0);
        assert((p.len() - 1 + 1) * chunk == p.len() * chunk);
    }
}

} // verus!
