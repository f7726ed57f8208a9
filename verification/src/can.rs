//! ISO-TP (ISO 15765-2) over CAN: flow control, segment parsing and encoding,
//! multi-frame reassembly, transmit segmentation, Lawicel text frames, and the
//! retry decision between fast and gentle flow control.
use vstd::prelude::*;
use crate::text::{
    dec, hex_pad, hex_text_to_bytes, push_dec, push_hex_pad, push_str, spec_hex_bytes, str_to_string,
    contains, str_chars, contains_chars, hex_str, push_hex_bytes, hex, digit_char,
};
use crate::bytes::extend_bytes;

verus! {

pub const ECM_REQUEST_ID: u32 = 0x7E0;
pub const ECM_RESPONSE_ID: u32 = 0x7E8;
pub const BROADCAST_ID: u32 = 0x7DF;

const PCI_SF: u8 = 0x00;
const PCI_FF: u8 = 0x10;
const PCI_CF: u8 = 0x20;
const PCI_FC: u8 = 0x30;

// ── Flow control ────────────────────────────────────────────────────────────

/// Flow Control flag (low nibble of the PCI byte).
#[derive(Clone, Copy, Debug, PartialEq, Eq, Structural)]
pub enum FcFlag {
    /// Continue to send.
    Cts,
    /// Wait for another flow control frame.
    Wait,
    /// Receiver overflow: abort.
    Overflow,
}

pub open spec fn fc_code(f: FcFlag) -> u8 {
    match f {
        FcFlag::Cts => 0,
        FcFlag::Wait => 1,
        FcFlag::Overflow => 2,
    }
}

impl FcFlag {
    /// The flag named by the low nibble of `n`, if any.
    pub fn from_nibble(n: u8) -> (r: Option<Self>)
        ensures
            r matches Some(f) ==> fc_code(f) == n % 16,
            r is None <==> n % 16 > 2,
    {
        let v = n & 0x0F;
        assert(v == n % 16) by (bit_vector)
            requires
                v == n & 0x0F,
        ;
        match v {
            0 => Some(FcFlag::Cts),
            1 => Some(FcFlag::Wait),
            2 => Some(FcFlag::Overflow),
            _ => None,
        }
    }

    pub fn as_u8(self) -> (r: u8)
        ensures
            r == fc_code(self),
    {
        match self {
            FcFlag::Cts => 0,
            FcFlag::Wait => 1,
            FcFlag::Overflow => 2,
        }
    }
}

/// Parameters advertised in a CTS flow control frame.
#[derive(Clone, Copy, Debug, PartialEq, Eq, Structural)]
pub struct FlowControlParams {
    /// 0: all remaining CFs without further FC; otherwise CFs per grant.
    pub block_size: u8,
    /// Separation time in milliseconds.
    pub st_min_ms: u8,
}

impl FlowControlParams {
    /// Maximum throughput (BS = 0, STmin = 0).
    pub fn fast() -> (r: Self)
        ensures
            r == (FlowControlParams { block_size: 0, st_min_ms: 0 }),
    {
        FlowControlParams { block_size: 0, st_min_ms: 0 }
    }

    /// Slower pacing for weak adapters (BS = 16, STmin = 2 ms).
    pub fn gentle() -> (r: Self)
        ensures
            r == (FlowControlParams { block_size: 16, st_min_ms: 2 }),
    {
        FlowControlParams { block_size: 16, st_min_ms: 2 }
    }
}

impl Default for FlowControlParams {
    fn default() -> (r: Self)
        ensures
            r == (FlowControlParams { block_size: 0, st_min_ms: 0 }),
    {
        FlowControlParams::fast()
    }
}

/// A decoded flow control frame.
#[derive(Clone, Copy, Debug, PartialEq, Eq, Structural)]
pub struct FlowControlFrame {
    pub flag: FcFlag,
    pub block_size: u8,
    pub st_min: u8,
}

/// The 8-byte encoding of a flow control frame.
pub open spec fn fc_bytes(f: FlowControlFrame) -> Seq<u8> {
    seq![(0x30 + fc_code(f.flag)) as u8, f.block_size, f.st_min, 0u8, 0u8, 0u8, 0u8, 0u8]
}

/// The flow control frame `data` encodes, if it is one.
pub open spec fn spec_fc_parse(data: Seq<u8>) -> Option<FlowControlFrame> {
    if data.len() == 0 || data[0] / 16 != 3 || data[0] % 16 > 2 {
        None
    } else {
        Some(
            FlowControlFrame {
                flag: if data[0] % 16 == 0 {
                    FcFlag::Cts
                } else if data[0] % 16 == 1 {
                    FcFlag::Wait
                } else {
                    FcFlag::Overflow
                },
                block_size: if data.len() > 1 {
                    data[1]
                } else {
                    0
                },
                st_min: if data.len() > 2 {
                    data[2]
                } else {
                    0
                },
            },
        )
    }
}

pub open spec fn fc_interpret(f: FlowControlFrame) -> Result<FlowControlParams, Seq<char>> {
    match f.flag {
        FcFlag::Cts => Ok(FlowControlParams { block_size: f.block_size, st_min_ms: f.st_min }),
        FcFlag::Wait => Err("FC WAIT \u{2014} peer not ready"@),
        FcFlag::Overflow => Err("FC OVFLW \u{2014} peer buffer overflow, abort"@),
    }
}

fn pci_fc(flag: FcFlag) -> (b: u8)
    ensures
        b == 0x30 + fc_code(flag),
{
    let c = flag.as_u8();
    let b = PCI_FC | c;
    assert(b == 0x30 + c) by (bit_vector)
        requires
            b == 0x30u8 | c,
            c <= 2,
    ;
    b
}

impl FlowControlFrame {
    /// A CTS frame advertising `params`.
    pub fn cts(params: FlowControlParams) -> (r: Self)
        ensures
            r == (FlowControlFrame { flag: FcFlag::Cts, block_size: params.block_size, st_min: params.st_min_ms }),
    {
        FlowControlFrame { flag: FcFlag::Cts, block_size: params.block_size, st_min: params.st_min_ms }
    }

    pub fn encode(self) -> (r: [u8; 8])
        ensures
            r@ == fc_bytes(self),
    {
        let r = [pci_fc(self.flag), self.block_size, self.st_min, 0u8, 0u8, 0u8, 0u8, 0u8];
        assert(r@ == fc_bytes(self));
        r
    }

    /// The three meaningful bytes.
    pub fn encode_short(self) -> (r: [u8; 3])
        ensures
            r@ == fc_bytes(self).take(3),
    {
        let r = [pci_fc(self.flag), self.block_size, self.st_min];
        assert(r@ == fc_bytes(self).take(3));
        r
    }

    pub fn try_parse(data: &[u8]) -> (r: Option<Self>)
        ensures
            r == spec_fc_parse(data@),
    {
        if data.len() == 0 {
            return None;
        }
        let b0 = data[0];
        let hi = b0 & 0xF0;
        assert(hi == (b0 / 16) * 16 && (b0 / 16 == 3 <==> hi == 0x30)) by (bit_vector)
            requires
                hi == b0 & 0xF0,
        ;
        if hi != PCI_FC {
            return None;
        }
        let flag = match FcFlag::from_nibble(b0) {
            Some(f) => f,
            None => return None,
        };
        let block_size = if data.len() > 1 {
            data[1]
        } else {
            0
        };
        let st_min = if data.len() > 2 {
            data[2]
        } else {
            0
        };
        Some(FlowControlFrame { flag, block_size, st_min })
    }

    /// How a sender reacts to this peer frame: CTS gives its parameters, WAIT
    /// and OVERFLOW are errors.
    pub fn interpret_for_sender(self) -> (r: Result<FlowControlParams, String>)
        ensures
            fc_interpret(self) matches Ok(p) ==> r == Ok::<FlowControlParams, String>(p),
            fc_interpret(self) matches Err(m) ==> (r matches Err(e) && e@ == m),
    {
        match self.flag {
            FcFlag::Cts => Ok(FlowControlParams { block_size: self.block_size, st_min_ms: self.st_min }),
            FcFlag::Wait => Err(str_to_string("FC WAIT \u{2014} peer not ready")),
            FcFlag::Overflow => Err(str_to_string("FC OVFLW \u{2014} peer buffer overflow, abort")),
        }
    }
}

pub const FC_CTS: u8 = 0x00;
pub const FC_WAIT: u8 = 0x01;
pub const FC_OVFLW: u8 = 0x02;
pub const DEFAULT_FC_BLOCK_SIZE: u8 = 0;
pub const DEFAULT_FC_STMIN_MS: u8 = 0;
pub const RETRY_FC_BLOCK_SIZE: u8 = 16;
pub const RETRY_FC_STMIN_MS: u8 = 2;

/// Flow control frame from raw fields (the flag keeps its low nibble).
pub fn build_flow_control(flag: u8, block_size: u8, st_min_ms: u8) -> (r: [u8; 8])
    ensures
        r@ == seq![(0x30 + flag % 16) as u8, block_size, st_min_ms, 0u8, 0u8, 0u8, 0u8, 0u8],
{
    let b0 = PCI_FC | (flag & 0x0F);
    assert(b0 == (0x30 + flag % 16) as u8) by (bit_vector)
        requires
            b0 == 0x30u8 | (flag & 0x0F),
    ;
    let r = [b0, block_size, st_min_ms, 0u8, 0u8, 0u8, 0u8, 0u8];
    assert(r@ == seq![(0x30 + flag % 16) as u8, block_size, st_min_ms, 0u8, 0u8, 0u8, 0u8, 0u8]);
    r
}

/// CTS frame advertising `fc`.
pub fn build_flow_control_params(fc: FlowControlParams) -> (r: [u8; 8])
    ensures
        r@ == fc_bytes(FlowControlFrame { flag: FcFlag::Cts, block_size: fc.block_size, st_min: fc.st_min_ms }),
{
    FlowControlFrame::cts(fc).encode()
}

// ── Frames and segments ─────────────────────────────────────────────────────

#[derive(Clone, Debug)]
pub struct CanFrame {
    pub id: u32,
    pub data: Vec<u8>,
    pub is_extended: bool,
}

#[derive(Clone, Debug)]
pub enum IsoTpSegment {
    Single(Vec<u8>),
    First { total_len: usize, data: Vec<u8> },
    Consecutive { seq: u8, data: Vec<u8> },
    FlowControl(FlowControlFrame),
    Unknown(Vec<u8>),
}

/// A segment with its byte vectors seen as sequences.
pub enum SegmentView {
    Single(Seq<u8>),
    First { total_len: nat, data: Seq<u8> },
    Consecutive { seq: u8, data: Seq<u8> },
    FlowControl(FlowControlFrame),
    Unknown(Seq<u8>),
}

impl View for IsoTpSegment {
    type V = SegmentView;

    open spec fn view(&self) -> SegmentView {
        match self {
            IsoTpSegment::Single(d) => SegmentView::Single(d@),
            IsoTpSegment::First { total_len, data } => SegmentView::First {
                total_len: *total_len as nat,
                data: data@,
            },
            IsoTpSegment::Consecutive { seq, data } => SegmentView::Consecutive { seq: *seq, data: data@ },
            IsoTpSegment::FlowControl(f) => SegmentView::FlowControl(*f),
            IsoTpSegment::Unknown(d) => SegmentView::Unknown(d@),
        }
    }
}

/// How one CAN payload is read as an ISO-TP segment.
pub open spec fn spec_segment(d: Seq<u8>) -> SegmentView {
    if d.len() == 0 {
        SegmentView::Unknown(d)
    } else {
        let kind = d[0] / 16;
        let low = d[0] % 16;
        if kind == 0 {
            SegmentView::Single(
                if 1 + low <= d.len() {
                    d.subrange(1, 1 + low)
                } else {
                    Seq::empty()
                },
            )
        } else if kind == 1 {
            if d.len() < 2 {
                SegmentView::Unknown(d)
            } else {
                SegmentView::First { total_len: (low * 256 + d[1]) as nat, data: d.subrange(2, d.len() as int) }
            }
        } else if kind == 2 {
            SegmentView::Consecutive { seq: low, data: d.subrange(1, d.len() as int) }
        } else if kind == 3 {
            match spec_fc_parse(d) {
                Some(f) => SegmentView::FlowControl(f),
                None => SegmentView::Unknown(d),
            }
        } else {
            SegmentView::Unknown(d)
        }
    }
}

fn to_vec(s: &[u8]) -> (v: Vec<u8>)
    ensures
        v@ == s@,
{
    vstd::slice::slice_to_vec(s)
}

/// Classifies one CAN payload by its PCI nibble.
pub fn parse_isotp_segment(data: &[u8]) -> (r: IsoTpSegment)
    ensures
        r@ == spec_segment(data@),
{
    if data.len() == 0 {
        return IsoTpSegment::Unknown(to_vec(data));
    }
    let b0 = data[0];
    let kind = b0 >> 4;
    let low = b0 & 0x0F;
    assert(kind == b0 / 16 && low == b0 % 16) by (bit_vector)
        requires
            kind == b0 >> 4,
            low == b0 & 0x0F,
    ;
    if kind == 0 {
        let len = low as usize;
        if 1 + len <= data.len() {
            IsoTpSegment::Single(to_vec(vstd::slice::slice_subrange(data, 1, 1 + len)))
        } else {
            IsoTpSegment::Single(Vec::new())
        }
    } else if kind == 1 {
        if data.len() < 2 {
            return IsoTpSegment::Unknown(to_vec(data));
        }
        let total_len = (low as usize) * 256 + (data[1] as usize);
        IsoTpSegment::First {
            total_len,
            data: to_vec(vstd::slice::slice_subrange(data, 2, data.len())),
        }
    } else if kind == 2 {
        IsoTpSegment::Consecutive {
            seq: low,
            data: to_vec(vstd::slice::slice_subrange(data, 1, data.len())),
        }
    } else if kind == 3 {
        match FlowControlFrame::try_parse(data) {
            Some(fc) => IsoTpSegment::FlowControl(fc),
            None => IsoTpSegment::Unknown(to_vec(data)),
        }
    } else {
        IsoTpSegment::Unknown(to_vec(data))
    }
}

/// A single frame: length nibble, payload, zero padding to 8 bytes.
pub open spec fn single_frame_bytes(p: Seq<u8>) -> Seq<u8> {
    seq![p.len() as u8] + p + Seq::new((7 - p.len()) as nat, |i: int| 0u8)
}

fn byte_or_zero(p: &[u8], i: usize) -> (b: u8)
    ensures
        b == if i < p@.len() { p@[i as int] } else { 0u8 },
{
    if i < p.len() {
        p[i]
    } else {
        0
    }
}

/// Encodes a payload of at most 7 bytes as a single frame.
pub fn build_single_frame(payload: &[u8]) -> (r: Result<[u8; 8], String>)
    ensures
        payload@.len() <= 7 ==> (r matches Ok(f) && f@ == single_frame_bytes(payload@)),
        payload@.len() > 7 ==> (r matches Err(e) && e@ == "SF payload max 7 bytes"@),
{
    if payload.len() > 7 {
        return Err(str_to_string("SF payload max 7 bytes"));
    }
    let f = [
        payload.len() as u8,
        byte_or_zero(payload, 0),
        byte_or_zero(payload, 1),
        byte_or_zero(payload, 2),
        byte_or_zero(payload, 3),
        byte_or_zero(payload, 4),
        byte_or_zero(payload, 5),
        byte_or_zero(payload, 6),
    ];
    assert(f@ =~= single_frame_bytes(payload@));
    Ok(f)
}

// ── Reassembly ──────────────────────────────────────────────────────────────

/// The state of a reassembly: announced length, bytes so far, the next
/// expected sequence counter, and whether counters are checked.
pub struct AsmState {
    pub total_len: nat,
    pub buf: Seq<u8>,
    pub expected_seq: u8,
    pub strict: bool,
}

pub open spec fn asm_complete(s: AsmState) -> bool {
    s.buf.len() >= s.total_len
}

pub open spec fn seq_error_message(got: u8, expected: u8) -> Seq<char> {
    "CF sequence error: got "@ + dec(got as nat) + ", expected "@ + dec(expected as nat)
}

/// Feeding one consecutive frame.
pub open spec fn asm_push_cf(s: AsmState, seq: u8, data: Seq<u8>) -> Result<AsmState, Seq<char>> {
    if s.strict && seq != s.expected_seq % 16 {
        Err(seq_error_message(seq, s.expected_seq % 16))
    } else {
        Ok(AsmState { buf: s.buf + data, expected_seq: s.expected_seq.wrapping_add(1), ..s })
    }
}

/// Feeding any segment: only consecutive frames change the state.
pub open spec fn asm_push_segment(s: AsmState, seg: SegmentView) -> Result<AsmState, Seq<char>> {
    match seg {
        SegmentView::Consecutive { seq, data } => asm_push_cf(s, seq, data),
        _ => Ok(s),
    }
}

pub open spec fn incomplete_message(got: nat, total: nat) -> Seq<char> {
    "ISO-TP incomplete: got "@ + dec(got) + "/"@ + dec(total) + " bytes"@
}

pub open spec fn asm_finish(s: AsmState) -> Result<Seq<u8>, Seq<char>> {
    if s.buf.len() < s.total_len {
        Err(incomplete_message(s.buf.len(), s.total_len))
    } else {
        Ok(s.buf.take(s.total_len as int))
    }
}

/// Collects a first frame and its consecutive frames into one payload.
#[derive(Clone, Debug)]
pub struct MultiframeAssembler {
    total_len: usize,
    buf: Vec<u8>,
    expected_seq: u8,
    strict_seq: bool,
}

impl View for MultiframeAssembler {
    type V = AsmState;

    closed spec fn view(&self) -> AsmState {
        AsmState {
            total_len: self.total_len as nat,
            buf: self.buf@,
            expected_seq: self.expected_seq,
            strict: self.strict_seq,
        }
    }
}

impl MultiframeAssembler {
    /// Starts from a first frame; sequence checking is off.
    pub fn from_first(total_len: usize, first_data: Vec<u8>) -> (r: Self)
        ensures
            r@ == (AsmState { total_len: total_len as nat, buf: first_data@, expected_seq: 1, strict: false }),
    {
        MultiframeAssembler { total_len, buf: first_data, expected_seq: 1, strict_seq: false }
    }

    pub fn with_strict_seq(self, strict: bool) -> (r: Self)
        ensures
            r@ == (AsmState { strict, ..self@ }),
    {
        let mut s = self;
        s.strict_seq = strict;
        s
    }

    pub fn is_complete(&self) -> (r: bool)
        ensures
            r == asm_complete(self@),
    {
        self.buf.len() >= self.total_len
    }

    pub fn total_len(&self) -> (r: usize)
        ensures
            r == self@.total_len,
    {
        self.total_len
    }

    /// Bytes received, capped at the announced length.
    pub fn received(&self) -> (r: usize)
        ensures
            r == if self@.buf.len() < self@.total_len { self@.buf.len() } else { self@.total_len },
    {
        if self.buf.len() < self.total_len {
            self.buf.len()
        } else {
            self.total_len
        }
    }

    /// Feeds one consecutive frame; `Ok(true)` once the payload is complete.
    /// On a sequence error the state is unchanged.
    pub fn push_cf(&mut self, seq: u8, data: &[u8]) -> (r: Result<bool, String>)
        ensures
            asm_push_cf(old(self)@, seq, data@) matches Ok(s) ==> (final(self)@ == s && r == Ok::<
                bool,
                String,
            >(asm_complete(s))),
            asm_push_cf(old(self)@, seq, data@) matches Err(m) ==> (final(self)@ == old(self)@ && (
            r matches Err(e) && e@ == m)),
    {
        let expected = self.expected_seq & 0x0F;
        let es = self.expected_seq;
        assert(expected == es % 16) by (bit_vector)
            requires
                expected == es & 0x0F,
        ;
        if self.strict_seq && seq != expected {
            let mut e = str_to_string("CF sequence error: got ");
            push_dec(&mut e, seq as u64);
            push_str(&mut e, ", expected ");
            push_dec(&mut e, expected as u64);
            return Err(e);
        }
        extend_bytes(&mut self.buf, data);
        self.expected_seq = self.expected_seq.wrapping_add(1);
        Ok(self.is_complete())
    }

    /// Feeds any segment; other than consecutive frames they leave it as is.
    pub fn push_segment(&mut self, seg: &IsoTpSegment) -> (r: Result<bool, String>)
        ensures
            asm_push_segment(old(self)@, seg@) matches Ok(s) ==> (final(self)@ == s && r == Ok::<
                bool,
                String,
            >(asm_complete(s))),
            asm_push_segment(old(self)@, seg@) matches Err(m) ==> (final(self)@ == old(self)@ && (
            r matches Err(e) && e@ == m)),
    {
        match seg {
            IsoTpSegment::Consecutive { seq, data } => self.push_cf(*seq, data.as_slice()),
            _ => Ok(self.is_complete()),
        }
    }

    /// The payload cut to the announced length, or an error when short.
    pub fn finish(self) -> (r: Result<Vec<u8>, String>)
        ensures
            asm_finish(self@) matches Ok(p) ==> (r matches Ok(v) && v@ == p),
            asm_finish(self@) matches Err(m) ==> (r matches Err(e) && e@ == m),
    {
        if self.buf.len() < self.total_len {
            let mut e = str_to_string("ISO-TP incomplete: got ");
            push_dec(&mut e, self.buf.len() as u64);
            push_str(&mut e, "/");
            push_dec(&mut e, self.total_len as u64);
            push_str(&mut e, " bytes");
            return Err(e);
        }
        let mut b = self.buf;
        b.truncate(self.total_len);
        Ok(b)
    }
}

/// Feeding segments in order until the payload is complete.
pub open spec fn asm_run(s: AsmState, segs: Seq<SegmentView>) -> Result<AsmState, Seq<char>>
    decreases segs.len(),
{
    if segs.len() == 0 {
        Ok(s)
    } else {
        match asm_push_segment(s, segs[0]) {
            Err(e) => Err(e),
            Ok(s2) => if asm_complete(s2) {
                Ok(s2)
            } else {
                asm_run(s2, segs.drop_first())
            },
        }
    }
}

pub open spec fn seg_views(segs: Seq<IsoTpSegment>) -> Seq<SegmentView> {
    Seq::new(segs.len(), |i: int| segs[i]@)
}

/// What `assemble_multiframe` gives for a list of segments.
pub open spec fn spec_assemble(segs: Seq<SegmentView>) -> Result<Seq<u8>, Seq<char>> {
    if segs.len() == 0 {
        Err("No segments"@)
    } else {
        match segs[0] {
            SegmentView::Single(d) => Ok(d),
            SegmentView::First { total_len, data } => match asm_run(
                AsmState { total_len, buf: data, expected_seq: 1, strict: true },
                segs.drop_first(),
            ) {
                Err(e) => Err(e),
                Ok(s) => asm_finish(s),
            },
            _ => Err("First segment must be First or Single frame"@),
        }
    }
}

proof fn lemma_run_step(s: AsmState, segs: Seq<SegmentView>, i: int, s2: AsmState)
    requires
        0 <= i < segs.len(),
        asm_push_segment(s, segs[i]) == Ok::<AsmState, Seq<char>>(s2),
        !asm_complete(s2),
    ensures
        asm_run(s, segs.subrange(i, segs.len() as int)) == asm_run(s2, segs.subrange(i + 1, segs.len() as int)),
{
    let rest = segs.subrange(i, segs.len() as int);
    assert(rest[0] == segs[i]);
    assert(rest.drop_first() == segs.subrange(i + 1, segs.len() as int));
}

/// Reassembles a list of segments: a single frame, or a first frame followed
/// by consecutive frames checked in sequence.
pub fn assemble_multiframe(segments: &[IsoTpSegment]) -> (r: Result<Vec<u8>, String>)
    ensures
        spec_assemble(seg_views(segments@)) matches Ok(p) ==> (r matches Ok(v) && v@ == p),
        spec_assemble(seg_views(segments@)) matches Err(m) ==> (r matches Err(e) && e@ == m),
{
    let ghost views = seg_views(segments@);
    if segments.len() == 0 {
        return Err(str_to_string("No segments"));
    }
    assert(views[0] == segments@[0]@);
    match &segments[0] {
        IsoTpSegment::Single(data) => Ok(to_vec(data.as_slice())),
        IsoTpSegment::First { total_len, data } => {
            let mut assembler = MultiframeAssembler::from_first(*total_len, to_vec(data.as_slice()))
                .with_strict_seq(true);
            let ghost s0 = assembler@;
            let mut i: usize = 1;
            assert(views.drop_first() == views.subrange(1, views.len() as int));
            assert(spec_assemble(views) == match asm_run(s0, views.subrange(1, views.len() as int)) {
                Err(e) => Err(e),
                Ok(s) => asm_finish(s),
            });
            while i < segments.len()
                invariant
                    1 <= i <= segments.len(),
                    views == seg_views(segments@),
                    spec_assemble(views) == match asm_run(s0, views.subrange(1, views.len() as int)) {
                        Err(e) => Err(e),
                        Ok(s) => asm_finish(s),
                    },
                    asm_run(s0, views.subrange(1, views.len() as int)) == asm_run(
                        assembler@,
                        views.subrange(i as int, views.len() as int),
                    ),
                decreases segments.len() - i,
            {
                let ghost before = assembler@;
                assert(views[i as int] == segments@[i as int]@);
                let r = assembler.push_segment(&segments[i]);
                match r {
                    Err(e) => {
                        proof {
                            let rest = views.subrange(i as int, views.len() as int);
                            assert(rest[0] == views[i as int]);
                        }
                        return Err(e);
                    },
                    Ok(done) => {
                        if done {
                            proof {
                                let rest = views.subrange(i as int, views.len() as int);
                                assert(rest[0] == views[i as int]);
                            }
                            return assembler.finish();
                        }
                        proof {
                            lemma_run_step(before, views, i as int, assembler@);
                        }
                    },
                }
                i += 1;
            }
            proof {
                assert(views.subrange(i as int, views.len() as int).len() == 0);
            }
            assembler.finish()
        },
        _ => Err(str_to_string("First segment must be First or Single frame")),
    }
}

// ── Flow control retry ──────────────────────────────────────────────────────

/// A failed transfer is retried once with gentle flow control when its error
/// says the payload arrived incomplete.
pub fn fc_retry_needed(err: &str) -> (r: bool)
    ensures
        r == contains(err@, "incomplete"@),
{
    let e = str_chars(err);
    let needle = str_chars("incomplete");
    contains_chars(e.as_slice(), needle.as_slice())
}

/// The error of a transfer that also failed on its gentle retry.
pub fn fc_retry_error(first: &str, second: &str) -> (r: String)
    ensures
        r@ == first@ + " (gentle retry: "@ + second@ + ")"@,
{
    let mut s = str_to_string(first);
    push_str(&mut s, " (gentle retry: ");
    push_str(&mut s, second);
    push_str(&mut s, ")");
    s
}

// ── Transmit segmentation ───────────────────────────────────────────────────

/// The frames that carry one outgoing payload: a first frame and the
/// consecutive frames after it.
#[derive(Clone, Debug)]
pub struct IsoTpTxFrames {
    pub first: [u8; 8],
    pub consecutive: Vec<Vec<u8>>,
}

pub open spec fn min_nat(a: nat, b: nat) -> nat {
    if a < b {
        a
    } else {
        b
    }
}

/// First frame: PCI 1 with the 12-bit length, up to six data bytes, zero padding.
pub open spec fn ff_bytes(d: Seq<u8>) -> Seq<u8> {
    let m = min_nat(d.len(), 6);
    seq![(0x10 + (d.len() / 256) % 16) as u8, (d.len() % 256) as u8] + d.take(m as int) + Seq::new(
        (6 - m) as nat,
        |i: int| 0u8,
    )
}

/// Number of consecutive frames after the first six bytes, seven bytes each.
pub open spec fn cf_count(len: nat) -> nat {
    if len <= 6 {
        0
    } else {
        ((len - 6 + 6) / 7) as nat
    }
}

/// Consecutive frame `k` (0-based): PCI 2 with counter `(k + 1) mod 16`, then
/// its slice of the payload (not padded).
pub open spec fn cf_bytes(d: Seq<u8>, k: int) -> Seq<u8> {
    let start = 6 + 7 * k;
    let end = min_nat((start + 7) as nat, d.len());
    seq![(0x20 + (k + 1) % 16) as u8] + d.subrange(start, end as int)
}

pub open spec fn tx_frames_ok(d: Seq<u8>, t: IsoTpTxFrames) -> bool {
    &&& t.first@ == ff_bytes(d)
    &&& t.consecutive@.len() == cf_count(d.len())
    &&& forall|k: int| 0 <= k < t.consecutive@.len() ==> #[trigger] t.consecutive@[k]@ == cf_bytes(d, k)
}

/// Splits a payload of at most 4095 bytes into ISO-TP transmit frames.
pub fn plan_multiframe_tx(data: &[u8]) -> (r: Result<IsoTpTxFrames, String>)
    ensures
        data@.len() > 4095 ==> (r matches Err(e) && e@ == "ISO-TP max length 4095"@),
        data@.len() <= 4095 ==> (r matches Ok(t) && tx_frames_ok(data@, t)),
{
    let total = data.len();
    if total > 4095 {
        return Err(str_to_string("ISO-TP max length 4095"));
    }
    let hi = ((total / 256) % 16) as u8;
    let lo = (total % 256) as u8;
    let first = [
        0x10 + hi,
        lo,
        byte_or_zero(data, 0),
        byte_or_zero(data, 1),
        byte_or_zero(data, 2),
        byte_or_zero(data, 3),
        byte_or_zero(data, 4),
        byte_or_zero(data, 5),
    ];
    assert(first@ =~= ff_bytes(data@));
    let mut cfs: Vec<Vec<u8>> = Vec::new();
    let mut offset: usize = if total < 6 {
        total
    } else {
        6
    };
    let mut k: usize = 0;
    while offset < total
        invariant
            total == data@.len() <= 4095,
            total < 6 ==> offset == total && k == 0,
            total >= 6 ==> offset == min_nat((6 + 7 * k) as nat, total as nat),
            k > 0 ==> 6 + 7 * (k - 1) < total,
            offset <= total,
            cfs@.len() == k,
            forall|j: int| 0 <= j < k ==> #[trigger] cfs@[j]@ == cf_bytes(data@, j),
        decreases total - offset,
    {
        let end = if offset + 7 < total {
            offset + 7
        } else {
            total
        };
        let seqn = ((k + 1) % 16) as u8;
        let mut cf: Vec<u8> = vec![0x20 + seqn];
        extend_bytes(&mut cf, vstd::slice::slice_subrange(data, offset, end));
        assert(cf@ == cf_bytes(data@, k as int));
        cfs.push(cf);
        offset = end;
        k += 1;
    }
    proof {
        if total > 6 {
            assert(k >= 1);
            assert(k == cf_count(total as nat)) by (nonlinear_arith)
                requires
                    6 + 7 * k >= total,
                    6 + 7 * (k - 1) < total,
                    k >= 1,
                    total > 6,
            ;
        } else {
            assert(k == 0);
        }
    }
    Ok(IsoTpTxFrames { first, consecutive: cfs })
}

proof fn lemma_ff_segment(d: Seq<u8>)
    requires
        d.len() <= 4095,
    ensures
        spec_segment(ff_bytes(d)) == (SegmentView::First {
            total_len: d.len(),
            data: ff_bytes(d).subrange(2, 8),
        }),
{
    let f = ff_bytes(d);
    let len = d.len();
    assert(f[0] == (0x10 + (len / 256) % 16) as u8);
    assert(f[0] / 16 == 1);
    assert(f[0] % 16 == (len / 256) % 16);
    assert(((len / 256) % 16) * 256 + len % 256 == len) by (nonlinear_arith)
        requires
            len <= 4095,
    ;
}

/// Runs the consecutive frames from `k` onwards against a strict assembler
/// that holds the first `6 + 7k` bytes.
proof fn lemma_run_cfs(d: Seq<u8>, k: int)
    requires
        6 < d.len() <= 4095,
        0 <= k < cf_count(d.len()),
    ensures
        ({
            let n = cf_count(d.len()) as int;
            let segs = Seq::new((n - k) as nat, |j: int| spec_segment(cf_bytes(d, k + j)));
            let s = AsmState {
                total_len: d.len(),
                buf: d.take(6 + 7 * k),
                expected_seq: ((k + 1) % 256) as u8,
                strict: true,
            };
            asm_run(s, segs) matches Ok(e) && e.buf == d && e.total_len == d.len()
        }),
    decreases cf_count(d.len()) - k,
{
    let n = cf_count(d.len()) as int;
    let len = d.len() as int;
    let segs = Seq::new((n - k) as nat, |j: int| spec_segment(cf_bytes(d, k + j)));
    let s = AsmState { total_len: d.len(), buf: d.take(6 + 7 * k), expected_seq: ((k + 1) % 256) as u8, strict: true };
    let c = cf_bytes(d, k);
    let start = 6 + 7 * k;
    let end = min_nat((start + 7) as nat, d.len()) as int;
    assert(6 + 7 * k < len) by (nonlinear_arith)
        requires
            k < n,
            n == (len - 6 + 6) / 7,
            len > 6,
    ;
    assert(c[0] / 16 == 2 && c[0] % 16 == (k + 1) % 16);
    assert(c.subrange(1, c.len() as int) == d.subrange(start, end));
    assert(segs[0] == spec_segment(c));
    assert(((k + 1) % 256) % 16 == (k + 1) % 16) by (nonlinear_arith)
        requires
            k >= 0,
    ;
    let s2 = AsmState { buf: s.buf + d.subrange(start, end), expected_seq: s.expected_seq.wrapping_add(1), ..s };
    assert(asm_push_segment(s, segs[0]) == Ok::<AsmState, Seq<char>>(s2));
    assert(s2.buf == d.take(end));
    if end == len {
        assert(d.take(len) == d);
        assert(asm_complete(s2));
    } else {
        assert(!asm_complete(s2));
        assert(k + 1 < n) by (nonlinear_arith)
            requires
                end == start + 7,
                end < len,
                start == 6 + 7 * k,
                n == (len - 6 + 6) / 7,
        ;
        lemma_run_cfs(d, k + 1);
        let segs2 = Seq::new((n - k - 1) as nat, |j: int| spec_segment(cf_bytes(d, k + 1 + j)));
        assert(segs.drop_first() == segs2);
        assert(s2.expected_seq == ((k + 2) % 256) as u8);
        assert(s2.buf == d.take(6 + 7 * (k + 1)));
    }
}

/// Segmenting a payload for transmission and reassembling the segments, as the
/// receiving side reads them, gives the payload back.
pub proof fn law_tx_frames_reassemble(d: Seq<u8>, t: IsoTpTxFrames)
    requires
        d.len() <= 4095,
        tx_frames_ok(d, t),
    ensures
        spec_assemble(
            seq![spec_segment(t.first@)] + Seq::new(
                t.consecutive@.len(),
                |k: int| spec_segment(t.consecutive@[k]@),
            ),
        ) == Ok::<Seq<u8>, Seq<char>>(d),
{
    let cfs = Seq::new(t.consecutive@.len(), |k: int| spec_segment(t.consecutive@[k]@));
    let segs = seq![spec_segment(t.first@)] + cfs;
    lemma_ff_segment(d);
    let m = min_nat(d.len(), 6);
    let ffd = ff_bytes(d).subrange(2, 8);
    assert(segs[0] == spec_segment(ff_bytes(d)));
    assert(segs.drop_first() == cfs);
    let s0 = AsmState { total_len: d.len(), buf: ffd, expected_seq: 1, strict: true };
    assert(spec_segment(t.first@) == (SegmentView::First { total_len: d.len(), data: ffd }));
    if d.len() <= 6 {
        assert(cfs.len() == 0);
        assert(ffd.take(d.len() as int) == d);
        assert(asm_run(s0, cfs) == Ok::<AsmState, Seq<char>>(s0));
        assert(asm_finish(s0) == Ok::<Seq<u8>, Seq<char>>(d));
    } else {
        assert(ffd == d.take(6));
        lemma_run_cfs(d, 0);
        let n = cf_count(d.len()) as int;
        assert(cfs == Seq::new((n - 0) as nat, |j: int| spec_segment(cf_bytes(d, 0 + j))));
        assert(d.take(6 + 7 * 0int) == d.take(6));
        assert(((0int + 1) % 256) as u8 == 1u8);
        let e = asm_run(s0, cfs)->Ok_0;
        assert(e.buf == d && e.total_len == d.len());
        assert(d.take(d.len() as int) == d);
        assert(asm_finish(e) == Ok::<Seq<u8>, Seq<char>>(d));
    }
}

/// Feeding consecutive frames `(seq, data)` in order, stopping at the first
/// refused one.
pub open spec fn asm_cfs(s: AsmState, frames: Seq<(u8, Seq<u8>)>) -> Result<AsmState, Seq<char>>
    decreases frames.len(),
{
    if frames.len() == 0 {
        Ok(s)
    } else {
        match asm_cfs(s, frames.drop_last()) {
            Err(m) => Err(m),
            Ok(p) => asm_push_cf(p, frames.last().0, frames.last().1),
        }
    }
}

/// The data of a run of frames, in order.
pub open spec fn cf_data(frames: Seq<(u8, Seq<u8>)>) -> Seq<u8>
    decreases frames.len(),
{
    if frames.len() == 0 {
        Seq::empty()
    } else {
        cf_data(frames.drop_last()) + frames.last().1
    }
}

/// A reassembly started from a first frame carrying `first`.
pub open spec fn asm_start(total: nat, first: Seq<u8>, strict: bool) -> AsmState {
    AsmState { total_len: total, buf: first, expected_seq: 1, strict }
}

proof fn lemma_asm_cfs(total: nat, first: Seq<u8>, strict: bool, frames: Seq<(u8, Seq<u8>)>)
    requires
        asm_cfs(asm_start(total, first, strict), frames) is Ok,
    ensures
        asm_cfs(asm_start(total, first, strict), frames)->Ok_0.buf == first + cf_data(frames),
        asm_cfs(asm_start(total, first, strict), frames)->Ok_0.total_len == total,
        asm_cfs(asm_start(total, first, strict), frames)->Ok_0.strict == strict,
        asm_cfs(asm_start(total, first, strict), frames)->Ok_0.expected_seq as int == (frames.len() + 1) % 256,
        strict ==> forall|i: int| 0 <= i < frames.len() ==> (#[trigger] frames[i]).0 as int == (i + 1) % 16,
    decreases frames.len(),
{
    if frames.len() > 0 {
        let p = frames.drop_last();
        let n = p.len();
        assert(asm_cfs(asm_start(total, first, strict), p) is Ok);
        lemma_asm_cfs(total, first, strict, p);
        let st = asm_cfs(asm_start(total, first, strict), p)->Ok_0;
        assert((first + cf_data(p)) + frames.last().1 =~= first + cf_data(frames));
        vstd::arithmetic::div_mod::lemma_mod_mod(n + 1 as int, 16, 16);
        if strict {
            assert forall|i: int| 0 <= i < frames.len() implies (#[trigger] frames[i]).0 as int == (i + 1) % 16 by {
                if i < n {
                    assert(frames[i] == p[i]);
                }
            }
        }
        assert(st.expected_seq.wrapping_add(1) as int == (n + 2) % 256);
    }
}

/// Law: after a run of accepted consecutive frames the buffer holds the first
/// frame's data followed by each frame's data in order (with sequence checks
/// on, the frames carried 1, 2, … modulo 16); the next frame is refused, and
/// the state kept, exactly when checks are on and its counter is not the next
/// one; otherwise it is appended, and finishing gives the bytes so far cut to
/// the announced length, or the short-payload error.
pub proof fn law_push_cf_run(
    total: nat,
    first: Seq<u8>,
    strict: bool,
    frames: Seq<(u8, Seq<u8>)>,
    seq: u8,
    data: Seq<u8>,
)
    requires
        asm_cfs(asm_start(total, first, strict), frames) is Ok,
    ensures
        asm_cfs(asm_start(total, first, strict), frames)->Ok_0.buf == first + cf_data(frames),
        strict ==> forall|i: int| 0 <= i < frames.len() ==> (#[trigger] frames[i]).0 as int == (i + 1) % 16,
        (strict && seq as int != (frames.len() + 1) % 16) ==> asm_push_cf(
            asm_cfs(asm_start(total, first, strict), frames)->Ok_0,
            seq,
            data,
        ) == Err::<AsmState, Seq<char>>(seq_error_message(seq, ((frames.len() + 1) % 16) as u8)),
        !(strict && seq as int != (frames.len() + 1) % 16) ==> (asm_push_cf(
            asm_cfs(asm_start(total, first, strict), frames)->Ok_0,
            seq,
            data,
        ) matches Ok(s2) && s2.buf == first + cf_data(frames) + data && asm_complete(s2) == ((first
            + cf_data(frames) + data).len() >= total) && asm_finish(s2) == (if (first + cf_data(frames)
            + data).len() < total {
            Err::<Seq<u8>, Seq<char>>(incomplete_message((first + cf_data(frames) + data).len(), total))
        } else {
            Ok::<Seq<u8>, Seq<char>>((first + cf_data(frames) + data).take(total as int))
        })),
{
    lemma_asm_cfs(total, first, strict, frames);
    let st = asm_cfs(asm_start(total, first, strict), frames)->Ok_0;
    vstd::arithmetic::div_mod::lemma_mod_mod(frames.len() + 1 as int, 16, 16);
    assert(st.expected_seq % 16 == (frames.len() + 1) % 16);
}

// ── Transmit flow control ───────────────────────────────────────────────────

/// What the sender of a segmented message does with the reply to its first
/// frame.
#[derive(Clone, Copy, Debug, PartialEq, Eq, Structural)]
pub enum TxFcDecision {
    /// Send the consecutive frames paced by these parameters.
    Send(FlowControlParams),
    /// The peer asked to wait: read its flow control again.
    Wait,
}

/// The sender's decision after reading `seg` on attempt `attempt` (from 0): a
/// clear-to-send grant gives its parameters; a wait is honoured on the first
/// three attempts and is an error on the fourth; an overflow is an error; any
/// other reply means the adapter handles flow control, and the frames go out
/// at full speed.
pub open spec fn spec_tx_fc_decision(attempt: nat, seg: SegmentView) -> Result<TxFcDecision, Seq<char>> {
    match seg {
        SegmentView::FlowControl(f) => match fc_interpret(f) {
            Ok(p) => Ok(TxFcDecision::Send(p)),
            Err(m) => if f.flag == FcFlag::Wait && attempt < 3 {
                Ok(TxFcDecision::Wait)
            } else {
                Err(m)
            },
        },
        _ => Ok(TxFcDecision::Send(FlowControlParams { block_size: 0, st_min_ms: 0 })),
    }
}

/// Decides what to do with the reply to a first frame.
pub fn tx_fc_decision(attempt: u32, seg: &IsoTpSegment) -> (r: Result<TxFcDecision, String>)
    ensures
        spec_tx_fc_decision(attempt as nat, seg@) matches Ok(d) ==> r == Ok::<TxFcDecision, String>(d),
        spec_tx_fc_decision(attempt as nat, seg@) matches Err(m) ==> (r matches Err(e) && e@ == m),
        r == Ok::<TxFcDecision, String>(TxFcDecision::Wait) ==> attempt < 3,
{
    match seg {
        IsoTpSegment::FlowControl(f) => match f.interpret_for_sender() {
            Ok(p) => Ok(TxFcDecision::Send(p)),
            Err(e) => {
                if f.flag == FcFlag::Wait && attempt < 3 {
                    Ok(TxFcDecision::Wait)
                } else {
                    Err(e)
                }
            },
        },
        _ => Ok(TxFcDecision::Send(FlowControlParams::fast())),
    }
}

/// Whether consecutive frame number `sent` (from 0) may go out under the
/// peer's grant: a block size of 0 allows all, otherwise that many.
pub fn tx_cf_allowed(sent: usize, peer: FlowControlParams) -> (r: Result<(), String>)
    ensures
        (peer.block_size == 0 || sent < peer.block_size) <==> r is Ok,
        r matches Err(e) ==> e@ == "TX block size exhausted without further FC"@,
{
    if peer.block_size != 0 && sent >= peer.block_size as usize {
        Err(str_to_string("TX block size exhausted without further FC"))
    } else {
        Ok(())
    }
}

/// The gap between consecutive frames: the peer's separation time, at least
/// 2 ms.
pub fn tx_gap_ms(peer: FlowControlParams) -> (r: u64)
    ensures
        r == if peer.st_min_ms < 2 { 2 } else { peer.st_min_ms as int },
{
    if peer.st_min_ms < 2 {
        2
    } else {
        peer.st_min_ms as u64
    }
}

/// Law: the wait for flow control reads at most four replies; a wait on the
/// fourth is an error, and every reply that is not a flow control frame lets
/// the frames go at full speed.
pub proof fn law_tx_fc_wait_bounded(attempt: nat, seg: SegmentView)
    ensures
        spec_tx_fc_decision(attempt, seg) == Ok::<TxFcDecision, Seq<char>>(TxFcDecision::Wait) ==> attempt < 3,
        !(seg is FlowControl) ==> spec_tx_fc_decision(attempt, seg) == Ok::<TxFcDecision, Seq<char>>(
            TxFcDecision::Send(FlowControlParams { block_size: 0, st_min_ms: 0 }),
        ),
{
}

// ── Lawicel text frames ─────────────────────────────────────────────────────

/// `t<id:3 hex><len:1 hex><bytes as hex>\r`.
pub open spec fn lawicel_text(f: CanFrame) -> Seq<char> {
    "t"@ + hex_pad(f.id as nat, 3) + hex_pad(f.data@.len(), 1) + hex_str(f.data@) + "\r"@
}

/// The Lawicel line that transmits a standard frame of at most 8 bytes.
pub fn lawicel_frame_text(frame: &CanFrame) -> (r: Result<String, String>)
    ensures
        (frame.is_extended || frame.data@.len() > 8) ==> (r matches Err(e) && e@
            == "Extended or long frames need framed ISO-TP"@),
        !(frame.is_extended || frame.data@.len() > 8) ==> (r matches Ok(s) && s@ == lawicel_text(
            *frame,
        )),
{
    if frame.is_extended || frame.data.len() > 8 {
        return Err(str_to_string("Extended or long frames need framed ISO-TP"));
    }
    let mut s = str_to_string("t");
    push_hex_pad(&mut s, frame.id as u64, 3);
    push_hex_pad(&mut s, frame.data.len() as u64, 1);
    push_hex_bytes(&mut s, frame.data.as_slice());
    push_str(&mut s, "\r");
    Ok(s)
}

/// Value of an ASCII hex digit.
pub open spec fn hex_byte_val(b: u8) -> Option<nat> {
    if 0x30 <= b <= 0x39 {
        Some((b - 0x30) as nat)
    } else if 0x61 <= b <= 0x66 {
        Some((b - 0x57) as nat)
    } else if 0x41 <= b <= 0x46 {
        Some((b - 0x37) as nat)
    } else {
        None
    }
}

pub open spec fn hex_digits_val(d: Seq<u8>) -> Option<nat>
    decreases d.len(),
{
    if d.len() == 0 {
        Some(0)
    } else {
        match (hex_digits_val(d.drop_last()), hex_byte_val(d.last())) {
            (Some(a), Some(b)) => Some(a * 16 + b),
            _ => None,
        }
    }
}

/// A hex field read as `from_str_radix(_, 16)` reads it: an optional `+`,
/// then at least one hex digit.
pub open spec fn hex_field(s: Seq<u8>) -> Option<nat> {
    let d = if s.len() > 0 && s[0] == 0x2B { s.drop_first() } else { s };
    if d.len() == 0 {
        None
    } else {
        hex_digits_val(d)
    }
}

/// Index of the first `t` at or after `i`.
pub open spec fn first_t(raw: Seq<u8>, i: nat) -> Option<nat>
    decreases raw.len() - i,
{
    if i >= raw.len() {
        None
    } else if raw[i as int] == 0x74 {
        Some(i)
    } else {
        first_t(raw, i + 1)
    }
}

/// The data bytes of a Lawicel frame text `f` (starting at its `t`): for each
/// of the first `n` byte fields, the byte when the field is present and hex.
pub open spec fn lawicel_data(f: Seq<u8>, n: nat) -> Seq<u8>
    decreases n,
{
    if n == 0 {
        Seq::empty()
    } else {
        let prev = lawicel_data(f, (n - 1) as nat);
        let off = 5 + 2 * (n - 1);
        if off + 2 <= f.len() {
            match hex_field(f.subrange(off, off + 2)) {
                Some(b) => prev.push(b as u8),
                None => prev,
            }
        } else {
            prev
        }
    }
}

/// A received Lawicel frame `t<id:3><len:1><bytes>`: the identifier (0 when
/// not hex), the length (0 when not hex, at most 8) and the data bytes that
/// are there.
pub open spec fn spec_parse_lawicel(raw: Seq<u8>) -> Result<(u32, Seq<u8>), Seq<char>> {
    match first_t(raw, 0) {
        None => Err("No parseable CAN frame"@),
        Some(p) => {
            let f = raw.skip(p as int);
            if f.len() <= 5 {
                Err("No parseable CAN frame"@)
            } else {
                let id: nat = match hex_field(f.subrange(1, 4)) {
                    Some(v) => v,
                    None => 0,
                };
                let n: nat = match hex_field(f.subrange(4, 5)) {
                    Some(v) => if v < 8 { v } else { 8 },
                    None => 0,
                };
                Ok((id as u32, lawicel_data(f, n)))
            }
        },
    }
}

fn hex_byte_exec(b: u8) -> (r: Option<u32>)
    ensures
        r matches Some(v) ==> hex_byte_val(b) == Some(v as nat) && v < 16,
        r is None ==> hex_byte_val(b) is None,
{
    if 0x30 <= b && b <= 0x39 {
        Some((b - 0x30) as u32)
    } else if 0x61 <= b && b <= 0x66 {
        Some((b - 0x57) as u32)
    } else if 0x41 <= b && b <= 0x46 {
        Some((b - 0x37) as u32)
    } else {
        None
    }
}

proof fn lemma_hex_digits_bound(d: Seq<u8>)
    ensures
        hex_digits_val(d) matches Some(v) ==> v < pow16(d.len()),
    decreases d.len(),
{
    if d.len() > 0 {
        lemma_hex_digits_bound(d.drop_last());
        if let Some(v) = hex_digits_val(d) {
            let a = hex_digits_val(d.drop_last()).unwrap();
            let b = hex_byte_val(d.last()).unwrap();
            assert(a < pow16(d.drop_last().len()));
            assert(b < 16);
            assert(a * 16 + b < pow16(d.drop_last().len()) * 16) by (nonlinear_arith)
                requires a < pow16(d.drop_last().len()), b < 16;
        }
    }
}

pub open spec fn pow16(n: nat) -> nat
    decreases n,
{
    if n == 0 {
        1
    } else {
        pow16((n - 1) as nat) * 16
    }
}

/// A hex field of at most three characters.
fn hex_field_exec(s: &[u8]) -> (r: Option<u32>)
    requires
        s@.len() <= 3,
    ensures
        r matches Some(v) ==> hex_field(s@) == Some(v as nat),
        r is None ==> hex_field(s@) is None,
{
    let start: usize = if s.len() > 0 && s[0] == 0x2B {
        1
    } else {
        0
    };
    let ghost d = if s@.len() > 0 && s@[0] == 0x2B { s@.drop_first() } else { s@ };
    assert(d == s@.skip(start as int));
    if s.len() == start {
        return None;
    }
    let mut acc: u32 = 0;
    let mut i: usize = start;
    while i < s.len()
        invariant
            start <= i <= s@.len(),
            s@.len() <= 3,
            d == s@.skip(start as int),
            d == (if s@.len() > 0 && s@[0] == 0x2B { s@.drop_first() } else { s@ }),
            hex_digits_val(d.take(i - start)) == Some(acc as nat),
            acc < pow16((i - start) as nat),
        decreases s.len() - i,
    {
        let k: usize = i - start;
        assert(d.take(k + 1).drop_last() == d.take(k as int));
        assert(d.take(k + 1).last() == s@[i as int]);
        match hex_byte_exec(s[i]) {
            None => {
                proof {
                    assert(hex_byte_val(d.take(k + 1).last()) is None);
                    assert(hex_digits_val(d.take(k + 1)) is None);
                    lemma_digits_none_prefix(d, k + 1);
                    assert(d.len() > 0);
                }
                return None;
            },
            Some(v) => {
                assert(pow16((k + 1) as nat) == pow16(k as nat) * 16);
                assert(pow16(k as nat) <= pow16(2)) by {
                    lemma_pow16_mono(k as nat, 2);
                }
                assert(pow16(0) == 1);
                assert(pow16(1) == 16);
                assert(pow16(2) == 256);
                acc = acc * 16 + v;
                i += 1;
            },
        }
    }
    assert(d.take(d.len() as int) == d);
    Some(acc)
}

proof fn lemma_pow16_mono(a: nat, b: nat)
    requires
        a <= b,
    ensures
        pow16(a) <= pow16(b),
    decreases b,
{
    if a < b {
        lemma_pow16_mono(a, (b - 1) as nat);
    }
}

proof fn lemma_digits_none_prefix(d: Seq<u8>, k: int)
    requires
        0 < k <= d.len(),
        hex_digits_val(d.take(k)) is None,
    ensures
        hex_digits_val(d) is None,
    decreases d.len() - k,
{
    if k < d.len() {
        assert(d.take(k + 1).drop_last() == d.take(k));
        lemma_digits_none_prefix(d, k + 1);
    } else {
        assert(d.take(k) == d);
    }
}

/// Parses a received Lawicel frame out of the bytes read from the adapter
/// (read as ASCII).
pub fn parse_lawicel_frame(raw: &[u8]) -> (r: Result<CanFrame, String>)
    ensures
        match spec_parse_lawicel(raw@) {
            Ok((id, data)) => r matches Ok(f) && f.id == id && f.data@ == data && !f.is_extended,
            Err(m) => r matches Err(e) && e@ == m,
        },
{
    let mut p: usize = 0;
    while p < raw.len() && raw[p] != 0x74
        invariant
            p <= raw@.len(),
            first_t(raw@, 0) == first_t(raw@, p as nat),
        decreases raw.len() - p,
    {
        p += 1;
    }
    if p >= raw.len() {
        return Err(str_to_string("No parseable CAN frame"));
    }
    let f = vstd::slice::slice_subrange(raw, p, raw.len());
    assert(f@ == raw@.skip(p as int));
    if f.len() <= 5 {
        return Err(str_to_string("No parseable CAN frame"));
    }
    let id: u32 = match hex_field_exec(vstd::slice::slice_subrange(f, 1, 4)) {
        Some(v) => v,
        None => 0,
    };
    let n: usize = match hex_field_exec(vstd::slice::slice_subrange(f, 4, 5)) {
        Some(v) => if v < 8 { v as usize } else { 8 },
        None => 0,
    };
    let mut data: Vec<u8> = Vec::new();
    let mut i: usize = 0;
    while i < n
        invariant
            i <= n <= 8,
            f@ == raw@.skip(p as int),
            data@ == lawicel_data(f@, i as nat),
        decreases n - i,
    {
        let off: usize = 5 + 2 * i;
        if off + 2 <= f.len() {
            match hex_field_exec(vstd::slice::slice_subrange(f, off, off + 2)) {
                Some(b) => {
                    proof {
                        lemma_hex_digits_bound(f@.subrange(off as int, off + 2));
                        lemma_hex_digits_bound(f@.subrange(off as int, off + 2).drop_first());
                        assert(pow16(0) == 1);
                        assert(pow16(1) == 16);
                        assert(pow16(2) == 256);
                    }
                    data.push(b as u8);
                },
                None => {},
            }
        }
        i += 1;
    }
    Ok(CanFrame { id, data, is_extended: false })
}

// ── Lawicel round trip ──────────────────────────────────────────────────────

/// The bytes of an ASCII text.
pub open spec fn ascii_bytes(s: Seq<char>) -> Seq<u8> {
    Seq::new(s.len(), |i: int| s[i] as u8)
}

proof fn lemma_digit_char_val(d: nat)
    requires
        d < 16,
    ensures
        hex_byte_val(digit_char(d) as u8) == Some(d),
        digit_char(d) as u8 != 0x2B,
{
    if d < 10 {
        assert((((d + 48) as u8) as char) as u8 == (d + 48) as u8);
    } else {
        assert((((d - 10 + 65) as u8) as char) as u8 == (d - 10 + 65) as u8);
    }
}

proof fn lemma_ascii_push(s: Seq<char>, c: char)
    ensures
        ascii_bytes(s.push(c)) == ascii_bytes(s).push(c as u8),
{
    assert(ascii_bytes(s.push(c)) =~= ascii_bytes(s).push(c as u8));
}

proof fn lemma_hex_value(n: nat)
    ensures
        hex_digits_val(ascii_bytes(hex(n))) == Some(n),
        hex(n).len() >= 1,
        hex(n)[0] as u8 != 0x2B,
    decreases n,
{
    if n < 16 {
        lemma_digit_char_val(n);
        assert(hex(n) == seq![digit_char(n)]);
        let a = ascii_bytes(hex(n));
        assert(a =~= seq![digit_char(n) as u8]);
        assert(a.drop_last() =~= Seq::<u8>::empty());
        assert(hex_digits_val(a.drop_last()) == Some(0nat));
        assert(a.last() == digit_char(n) as u8);
        assert(hex_byte_val(a.last()) == Some(n));
    } else {
        lemma_hex_value(n / 16);
        lemma_digit_char_val(n % 16);
        let h = hex(n / 16);
        assert(hex(n) == h.push(digit_char(n % 16)));
        lemma_ascii_push(h, digit_char(n % 16));
        let a = ascii_bytes(hex(n));
        assert(a.drop_last() == ascii_bytes(h));
        assert(a.last() == digit_char(n % 16) as u8);
        assert(hex_digits_val(a.drop_last()) == Some(n / 16));
        assert(hex_byte_val(a.last()) == Some(n % 16));
        assert(n / 16 * 16 + n % 16 == n) by (nonlinear_arith);
        assert(hex(n)[0] == h[0]);
    }
}

proof fn lemma_hex_len(n: nat, w: nat)
    requires
        w >= 1,
        n < pow16(w),
    ensures
        hex(n).len() <= w,
    decreases n,
{
    if n >= 16 {
        assert(pow16(w) == pow16((w - 1) as nat) * 16);
        if w == 1 {
            assert(pow16(0) == 1);
            assert(false);
        }
        assert(n / 16 < pow16((w - 1) as nat)) by (nonlinear_arith)
            requires n < pow16((w - 1) as nat) * 16;
        lemma_hex_len(n / 16, (w - 1) as nat);
    }
}

proof fn lemma_zeros_val(z: Seq<u8>, s: Seq<u8>)
    requires
        forall|i: int| 0 <= i < z.len() ==> z[i] == 0x30,
    ensures
        hex_digits_val(z + s) == (if s.len() == 0 { Some(0nat) } else { hex_digits_val(s) }),
    decreases z.len() + s.len(),
{
    if s.len() == 0 {
        assert(z + s == z);
        if z.len() > 0 {
            lemma_zeros_val(z.drop_last(), s);
            assert(z.drop_last() + s == z.drop_last());
            assert(z.last() == 0x30);
        }
    } else {
        lemma_zeros_val(z, s.drop_last());
        assert((z + s).drop_last() == z + s.drop_last());
        assert((z + s).last() == s.last());
        if s.drop_last().len() == 0 {
            assert(hex_digits_val(s.drop_last()) == Some(0nat));
        }
    }
}

/// `hex_pad(n, w)` for `n` below `16^w` is `w` characters that read back as `n`.
proof fn lemma_hex_pad_value(n: nat, w: nat)
    requires
        w >= 1,
        n < pow16(w),
    ensures
        hex_pad(n, w).len() == w,
        hex_field(ascii_bytes(hex_pad(n, w))) == Some(n),
{
    lemma_hex_len(n, w);
    lemma_hex_value(n);
    let h = hex(n);
    let k = (w - h.len()) as nat;
    let zc = Seq::new(k, |i: int| '0');
    assert(hex_pad(n, w) == zc + h);
    let z = ascii_bytes(zc);
    assert(forall|i: int| 0 <= i < z.len() ==> z[i] == 0x30);
    assert(ascii_bytes(zc + h) =~= z + ascii_bytes(h));
    lemma_zeros_val(z, ascii_bytes(h));
    let b = ascii_bytes(hex_pad(n, w));
    if k > 0 {
        assert(b[0] == 0x30);
    } else {
        assert(b[0] == h[0] as u8);
    }
}

proof fn lemma_hex_str_fields(b: Seq<u8>)
    ensures
        hex_str(b).len() == 2 * b.len(),
        forall|k: int| 0 <= k < b.len() ==> #[trigger] hex_str(b).subrange(2 * k, 2 * k + 2) == hex_pad(b[k] as nat, 2),
    decreases b.len(),
{
    if b.len() > 0 {
        let p = b.drop_last();
        lemma_hex_str_fields(p);
        assert(pow16(0) == 1 && pow16(1) == 16 && pow16(2) == 256) by {
            reveal_with_fuel(pow16, 3);
        }
        lemma_hex_pad_value(b.last() as nat, 2);
        let s = hex_str(b);
        assert(s == hex_str(p) + hex_pad(b.last() as nat, 2));
        assert forall|k: int| 0 <= k < b.len() implies #[trigger] hex_str(b).subrange(2 * k, 2 * k + 2) == hex_pad(
            b[k] as nat,
            2,
        ) by {
            if k < p.len() {
                assert(hex_str(b).subrange(2 * k, 2 * k + 2) =~= hex_str(p).subrange(2 * k, 2 * k + 2));
                assert(p[k] == b[k]);
            } else {
                assert(hex_str(b).subrange(2 * k, 2 * k + 2) =~= hex_pad(b.last() as nat, 2));
            }
        }
    }
}

/// Law: a standard frame of at most eight bytes with an 11-bit-range
/// identifier, sent as a Lawicel line, is read back as the same identifier
/// and data.
pub proof fn law_lawicel_roundtrip(f: CanFrame)
    requires
        !f.is_extended,
        f.data@.len() <= 8,
        f.id < 0x1000,
    ensures
        spec_parse_lawicel(ascii_bytes(lawicel_text(f))) == Ok::<(u32, Seq<u8>), Seq<char>>((f.id, f.data@)),
{
    let d = f.data@;
    let n = d.len();
    assert(pow16(0) == 1 && pow16(1) == 16 && pow16(2) == 256 && pow16(3) == 4096) by {
        reveal_with_fuel(pow16, 4);
    }
    lemma_hex_pad_value(f.id as nat, 3);
    lemma_hex_pad_value(n, 1);
    lemma_hex_str_fields(d);
    let ids = hex_pad(f.id as nat, 3);
    let lens = hex_pad(n, 1);
    let data_s = hex_str(d);
    let t = lawicel_text(f);
    assert(t == "t"@ + ids + lens + data_s + "\r"@);
    reveal_strlit("t");
    reveal_strlit("\r");
    let bt = ascii_bytes(t);
    assert(bt.len() == 6 + 2 * n);
    assert(bt[0] == 0x74);
    assert(first_t(bt, 0) == Some(0nat));
    assert(bt.skip(0) == bt);
    assert(bt.subrange(1, 4) =~= ascii_bytes(ids));
    assert(bt.subrange(4, 5) =~= ascii_bytes(lens));
    assert forall|k: int| 0 <= k < n implies #[trigger] bt.subrange(5 + 2 * k, 5 + 2 * k + 2) == ascii_bytes(
        hex_pad(d[k] as nat, 2),
    ) by {
        assert(bt.subrange(5 + 2 * k, 5 + 2 * k + 2) =~= ascii_bytes(data_s.subrange(2 * k, 2 * k + 2)));
    }
    lemma_data_fields(bt, d, n);
    assert(d.take(n as int) == d);
}

proof fn lemma_data_fields(bt: Seq<u8>, d: Seq<u8>, m: nat)
    requires
        m <= d.len() <= 8,
        bt.len() == 6 + 2 * d.len(),
        forall|k: int| 0 <= k < d.len() ==> #[trigger] bt.subrange(5 + 2 * k, 5 + 2 * k + 2) == ascii_bytes(
            hex_pad(d[k] as nat, 2),
        ),
    ensures
        lawicel_data(bt, m) == d.take(m as int),
    decreases m,
{
    if m > 0 {
        lemma_data_fields(bt, d, (m - 1) as nat);
        let k = m - 1;
        assert(pow16(0) == 1 && pow16(1) == 16 && pow16(2) == 256) by {
            reveal_with_fuel(pow16, 3);
        }
        lemma_hex_pad_value(d[k] as nat, 2);
        assert(bt.subrange(5 + 2 * k, 5 + 2 * k + 2) == ascii_bytes(hex_pad(d[k] as nat, 2)));
        assert(d.take(m as int) == d.take(k as int).push(d[k]));
    } else {
        assert(d.take(0) =~= Seq::<u8>::empty());
    }
}

// ── ELM hex replies and adapter listing ─────────────────────────────────────

/// Bytes of an ELM327 hex reply.
pub fn elm_hex_to_bytes(raw: &str) -> (r: Vec<u8>)
    ensures
        r@ == spec_hex_bytes(raw@),
{
    hex_text_to_bytes(raw)
}

/// J2534 pass-through is available on Windows only.
pub fn j2534_available(is_windows: bool) -> (r: bool)
    ensures
        r == is_windows,
{
    is_windows
}

/// The J2534 adapters offered on this platform.
pub fn j2534_list_devices(is_windows: bool) -> (r: Vec<String>)
    ensures
        is_windows ==> r@.len() == 2 && r@[0]@ == "OpenPort 2.0 (if installed)"@ && r@[1]@
            == "DrewTech / VSI"@,
        !is_windows ==> r@.len() == 1 && r@[0]@ == "J2534 only supported on Windows"@,
{
    let mut v: Vec<String> = Vec::new();
    if is_windows {
        v.push(str_to_string("OpenPort 2.0 (if installed)"));
        v.push(str_to_string("DrewTech / VSI"));
    } else {
        v.push(str_to_string("J2534 only supported on Windows"));
    }
    v
}

} // verus!
