//! In-memory ELM327-style adapter used by the integration tests: AT commands
//! are answered with `OK`, single-frame UDS requests with a synthesized
//! positive response, and scripted replies take precedence over both.
use vstd::prelude::*;
use std::collections::VecDeque;
use crate::bytes::extend_bytes;
use crate::uds::{spec_expect_positive, spec_parse_response, NegativeResponse};
use crate::text::{
    digit_pairs, hex_digits, hex_text_to_bytes, spec_hex_bytes, starts_with, starts_with_chars,
    str_chars, str_to_string, trim_chars, trim_ws, utf8_lossy, utf8_lossy_text, chars_to_string,
    hex_digit_chars,
};

verus! {

/// Observable state of the mock port.
pub struct MockView {
    pub written: Seq<u8>,
    pub read_queue: Seq<u8>,
    pub scripted: Seq<Seq<u8>>,
    pub auto_elm: bool,
    pub baud_rate: u32,
    pub timeout_ms: u64,
}

/// Scripted in-memory serial port.
pub struct MockSerialPort {
    name: String,
    baud_rate: u32,
    timeout_ms: u64,
    /// Bytes the device under test has written.
    pub written: Vec<u8>,
    read_queue: VecDeque<u8>,
    scripted: VecDeque<Vec<u8>>,
    auto_elm: bool,
}

impl View for MockSerialPort {
    type V = MockView;

    closed spec fn view(&self) -> MockView {
        MockView {
            written: self.written@,
            read_queue: self.read_queue@,
            scripted: self.scripted@.map_values(|v: Vec<u8>| v@),
            auto_elm: self.auto_elm,
            baud_rate: self.baud_rate,
            timeout_ms: self.timeout_ms,
        }
    }
}

// ── Response synthesis ──────────────────────────────────────────────────────

/// `request[i]`, or `d` past its end.
pub open spec fn at_or(r: Seq<u8>, i: int, d: u8) -> u8 {
    if i < r.len() {
        r[i]
    } else {
        d
    }
}

/// The positive response the mock ECU gives to a UDS request.
pub open spec fn spec_uds_positive(r: Seq<u8>) -> Seq<u8> {
    if r.len() == 0 {
        seq![0x7Fu8, 0x00, 0x10]
    } else {
        let sid = r[0];
        if sid == 0x10 {
            seq![0x50u8, at_or(r, 1, 0x01)]
        } else if sid == 0x3E {
            let sub = at_or(r, 1, 0x00);
            if sub >= 0x80 {
                seq![0x7Eu8, 0x00]
            } else {
                seq![0x7Eu8, sub]
            }
        } else if sid == 0x22 {
            seq![0x62u8, at_or(r, 1, 0), at_or(r, 2, 0), 0xDE, 0xAD]
        } else if sid == 0x23 {
            seq![0x63u8, 0x11, 0x22, 0x33, 0x44]
        } else if sid == 0x27 {
            let level = at_or(r, 1, 0x01);
            if level % 2 == 1 {
                seq![0x67u8, level, 0x12, 0x34, 0x56, 0x78]
            } else {
                seq![0x67u8, level]
            }
        } else if sid == 0x28 {
            seq![0x68u8, at_or(r, 1, 0)]
        } else if sid == 0x31 {
            seq![0x71u8, at_or(r, 1, 0x01), at_or(r, 2, 0), at_or(r, 3, 0)]
        } else if sid == 0x34 {
            seq![0x74u8, 0x20, 0x04, 0x02]
        } else if sid == 0x36 {
            seq![0x76u8, at_or(r, 1, 1)]
        } else if sid == 0x37 {
            seq![0x77u8]
        } else if sid == 0x11 {
            seq![0x51u8, at_or(r, 1, 0x01)]
        } else if sid == 0x14 {
            seq![0x54u8]
        } else if sid == 0x19 {
            seq![0x59u8, at_or(r, 1, 0x02), 0xFF]
        } else if sid == 0x85 {
            seq![0xC5u8, at_or(r, 1, 0x01)]
        } else {
            seq![0x7Fu8, sid, 0x11]
        }
    }
}

/// The services the mock ECU answers positively.
pub open spec fn mock_service(sid: u8) -> bool {
    sid == 0x10 || sid == 0x11 || sid == 0x14 || sid == 0x19 || sid == 0x22 || sid == 0x23 || sid == 0x27 || sid
        == 0x28 || sid == 0x31 || sid == 0x34 || sid == 0x36 || sid == 0x37 || sid == 0x3E || sid == 0x85
}

/// Law: every request for one of the mock's services gets an answer that the
/// UDS parser accepts as positive for that service; any other service gets a
/// negative response naming it.
pub proof fn law_mock_answers_positively(r: Seq<u8>)
    requires
        r.len() > 0,
    ensures
        mock_service(r[0]) ==> spec_expect_positive(r[0], spec_uds_positive(r)) is Ok,
        !mock_service(r[0]) ==> spec_parse_response(r[0].wrapping_add(0x40), spec_uds_positive(r)) == Err::<
            Seq<u8>,
            NegativeResponse,
        >(NegativeResponse { sid: r[0], nrc: 0x11 }),
{
    let sid = r[0];
    assert(sid.wrapping_add(0x40) == (if sid < 0xC0 { sid + 0x40 } else { sid + 0x40 - 0x100 }) as u8);
}

fn get_or(r: &[u8], i: usize, d: u8) -> (b: u8)
    ensures
        b == at_or(r@, i as int, d),
{
    if i < r.len() {
        r[i]
    } else {
        d
    }
}

/// The mock ECU's positive response for common services.
pub fn synthesize_uds_positive(request: &[u8]) -> (r: Vec<u8>)
    ensures
        r@ == spec_uds_positive(request@),
{
    if request.len() == 0 {
        return vec![0x7F, 0x00, 0x10];
    }
    let sid = request[0];
    if sid == 0x10 {
        vec![0x50, get_or(request, 1, 0x01)]
    } else if sid == 0x3E {
        let sub = get_or(request, 1, 0x00);
        if sub & 0x80 != 0 {
            assert(sub >= 0x80) by (bit_vector)
                requires
                    sub & 0x80 != 0,
            ;
            vec![0x7E, 0x00]
        } else {
            assert(sub < 0x80 && sub & 0x7F == sub) by (bit_vector)
                requires
                    sub & 0x80 == 0,
            ;
            vec![0x7E, sub & 0x7F]
        }
    } else if sid == 0x22 {
        vec![0x62, get_or(request, 1, 0), get_or(request, 2, 0), 0xDE, 0xAD]
    } else if sid == 0x23 {
        vec![0x63, 0x11, 0x22, 0x33, 0x44]
    } else if sid == 0x27 {
        let level = get_or(request, 1, 0x01);
        if level % 2 == 1 {
            vec![0x67, level, 0x12, 0x34, 0x56, 0x78]
        } else {
            vec![0x67, level]
        }
    } else if sid == 0x28 {
        vec![0x68, get_or(request, 1, 0)]
    } else if sid == 0x31 {
        vec![0x71, get_or(request, 1, 0x01), get_or(request, 2, 0), get_or(request, 3, 0)]
    } else if sid == 0x34 {
        vec![0x74, 0x20, 0x04, 0x02]
    } else if sid == 0x36 {
        vec![0x76, get_or(request, 1, 1)]
    } else if sid == 0x37 {
        vec![0x77]
    } else if sid == 0x11 {
        vec![0x51, get_or(request, 1, 0x01)]
    } else if sid == 0x14 {
        vec![0x54]
    } else if sid == 0x19 {
        vec![0x59, get_or(request, 1, 0x02), 0xFF]
    } else if sid == 0x85 {
        vec![0xC5, get_or(request, 1, 0x01)]
    } else {
        vec![0x7F, sid, 0x11]
    }
}

// ── ASCII replies ───────────────────────────────────────────────────────────

/// ASCII code of an upper-case hex digit.
pub open spec fn hex_digit_byte(d: nat) -> u8 {
    if d < 10 {
        (48 + d) as u8
    } else {
        (55 + d) as u8
    }
}

/// Upper-case two-digit hex of each byte, as ASCII bytes.
pub open spec fn hex_ascii(b: Seq<u8>) -> Seq<u8> {
    Seq::new(
        2 * b.len(),
        |i: int|
            if i % 2 == 0 {
                hex_digit_byte((b[i / 2] / 16) as nat)
            } else {
                hex_digit_byte((b[i / 2] % 16) as nat)
            },
    )
}

/// `"\r>"`, the ELM prompt.
pub open spec fn prompt() -> Seq<u8> {
    seq![0x0Du8, 0x3E]
}

/// `"OK\r>"`.
pub open spec fn ok_reply() -> Seq<u8> {
    seq![0x4Fu8, 0x4B, 0x0D, 0x3E]
}

/// `"?\r>"`.
pub open spec fn unknown_reply() -> Seq<u8> {
    seq![0x3Fu8, 0x0D, 0x3E]
}

/// `"300000\r>"`: flow control, continue to send.
pub open spec fn cts_reply() -> Seq<u8> {
    seq![0x33u8, 0x30, 0x30, 0x30, 0x30, 0x30, 0x0D, 0x3E]
}

fn hex_digit_ascii(d: u8) -> (b: u8)
    requires
        d < 16,
    ensures
        b == hex_digit_byte(d as nat),
{
    if d < 10 {
        48 + d
    } else {
        55 + d
    }
}

/// Appends the hex text of `b` and the prompt.
fn push_hex_reply(out: &mut Vec<u8>, b: &[u8])
    ensures
        final(out)@ == old(out)@ + hex_ascii(b@) + prompt(),
{
    let ghost o0 = out@;
    let mut i: usize = 0;
    while i < b.len()
        invariant
            i <= b.len(),
            out@ == o0 + hex_ascii(b@.take(i as int)),
        decreases b.len() - i,
    {
        out.push(hex_digit_ascii(b[i] / 16));
        out.push(hex_digit_ascii(b[i] % 16));
        i += 1;
        assert(hex_ascii(b@.take(i as int)) =~= hex_ascii(b@.take(i - 1)).push(
            hex_digit_byte((b@[i - 1] / 16) as nat),
        ).push(hex_digit_byte((b@[i - 1] % 16) as nat)));
    }
    assert(b@.take(b.len() as int) == b@);
    out.push(0x0D);
    out.push(0x3E);
    assert(out@ == o0 + hex_ascii(b@) + prompt());
}

/// What the adapter answers to one trimmed, non-empty command line when no
/// scripted reply is pending (`None`: nothing is answered).
pub open spec fn spec_auto_reply(cmd: Seq<char>) -> Option<Seq<u8>> {
    if starts_with(cmd, "AT"@) || starts_with(cmd, "at"@) {
        Some(ok_reply())
    } else {
        let h = hex_digits(cmd);
        if h.len() < 2 {
            Some(unknown_reply())
        } else {
            let f = digit_pairs(h);
            let kind = f[0] / 16;
            let len = (f[0] % 16) as int;
            if kind == 3 {
                None
            } else if kind == 0 && f.len() >= 1 + len && len >= 1 {
                let resp = spec_uds_positive(f.subrange(1, 1 + len));
                Some(hex_ascii(seq![resp.len() as u8] + resp) + prompt())
            } else if kind == 1 {
                Some(cts_reply())
            } else if kind == 2 {
                None
            } else {
                Some(unknown_reply())
            }
        }
    }
}

/// The port after it has seen one written line.
pub open spec fn spec_respond(m: MockView, line: Seq<char>) -> MockView {
    let cmd = trim_ws(line);
    if cmd.len() == 0 {
        m
    } else if m.scripted.len() > 0 {
        MockView { read_queue: m.read_queue + m.scripted[0], scripted: m.scripted.drop_first(), ..m }
    } else if !m.auto_elm {
        m
    } else {
        match spec_auto_reply(cmd) {
            Some(b) => MockView { read_queue: m.read_queue + b, ..m },
            None => m,
        }
    }
}

/// The port after it has seen a written text: every line that ends with a
/// carriage return is answered in order; `pending` is the unterminated start.
pub open spec fn spec_process(m: MockView, pending: Seq<char>, rest: Seq<char>) -> MockView
    decreases rest.len(),
{
    if rest.len() == 0 {
        m
    } else {
        let line = pending.push(rest[0]);
        if rest[0] == '\r' {
            spec_process(spec_respond(m, line), Seq::empty(), rest.drop_first())
        } else {
            spec_process(m, line, rest.drop_first())
        }
    }
}

/// Law: answering written lines never changes the record of written bytes,
/// the line speed, the timeout or the auto-answer switch, so a write adds
/// exactly its own bytes to the record.
pub proof fn law_answers_keep_written(m: MockView, pending: Seq<char>, rest: Seq<char>)
    ensures
        spec_process(m, pending, rest).written == m.written,
        spec_process(m, pending, rest).baud_rate == m.baud_rate,
        spec_process(m, pending, rest).timeout_ms == m.timeout_ms,
        spec_process(m, pending, rest).auto_elm == m.auto_elm,
    decreases rest.len(),
{
    if rest.len() > 0 {
        let line = pending.push(rest[0]);
        if rest[0] == '\r' {
            law_answers_keep_written(spec_respond(m, line), Seq::empty(), rest.drop_first());
        } else {
            law_answers_keep_written(m, line, rest.drop_first());
        }
    }
}

fn vec_u8(b: &[u8]) -> (v: Vec<u8>)
    ensures
        v@ == b@,
{
    vstd::slice::slice_to_vec(b)
}

impl MockSerialPort {
    /// A port named "MOCK" at 500 kbit/s, 500 ms timeout, auto answers on.
    pub fn new() -> (r: Self)
        ensures
            r@.written.len() == 0,
            r@.read_queue.len() == 0,
            r@.scripted.len() == 0,
            r@.auto_elm,
            r@.baud_rate == 500_000,
            r@.timeout_ms == 500,
    {
        let r = MockSerialPort {
            name: str_to_string("MOCK"),
            baud_rate: 500_000,
            timeout_ms: 500,
            written: Vec::new(),
            read_queue: VecDeque::new(),
            scripted: VecDeque::new(),
            auto_elm: true,
        };
        assert(r@.scripted =~= Seq::<Seq<u8>>::empty());
        r
    }

    pub fn with_auto_elm(self, enabled: bool) -> (r: Self)
        ensures
            r@ == (MockView { auto_elm: enabled, ..self@ }),
    {
        let mut s = self;
        s.auto_elm = enabled;
        assert(s@.scripted =~= self@.scripted);
        s
    }

    /// Queues a reply for the next answered line.
    pub fn push_response(&mut self, data: &[u8])
        ensures
            final(self)@ == (MockView { scripted: old(self)@.scripted.push(data@), ..old(self)@ }),
    {
        self.scripted.push_back(vec_u8(data));
        assert(self@.scripted =~= old(self)@.scripted.push(data@));
    }

    /// Queues the ELM hex text of `payload` followed by the prompt.
    pub fn push_elm_hex(&mut self, payload: &[u8])
        ensures
            final(self)@ == (MockView {
                scripted: old(self)@.scripted.push(hex_ascii(payload@) + prompt()),
                ..old(self)@
            }),
    {
        let mut s: Vec<u8> = Vec::new();
        push_hex_reply(&mut s, payload);
        assert(s@ == hex_ascii(payload@) + prompt());
        self.push_response(s.as_slice());
    }

    /// Queues a plain `OK` prompt.
    pub fn push_ok(&mut self)
        ensures
            final(self)@ == (MockView { scripted: old(self)@.scripted.push(ok_reply()), ..old(self)@ }),
    {
        let ok = [0x4Fu8, 0x4B, 0x0D, 0x3E];
        assert(ok@ == ok_reply());
        self.push_response(ok.as_slice());
    }

    /// The written bytes as text.
    pub fn written_as_str(&self) -> (r: String)
        ensures
            r@ == utf8_lossy_text(self@.written),
    {
        utf8_lossy(self.written.as_slice())
    }

    pub fn clear_written(&mut self)
        ensures
            final(self)@ == (MockView { written: Seq::empty(), ..old(self)@ }),
    {
        self.written.clear();
        assert(self@.scripted =~= old(self)@.scripted);
    }

    fn enqueue_bytes(&mut self, data: &[u8])
        ensures
            final(self)@ == (MockView { read_queue: old(self)@.read_queue + data@, ..old(self)@ }),
    {
        let mut i: usize = 0;
        while i < data.len()
            invariant
                i <= data@.len(),
                self@ == (MockView { read_queue: old(self)@.read_queue + data@.take(i as int), ..old(self)@ }),
            decreases data.len() - i,
        {
            let ghost before = self@;
            self.read_queue.push_back(data[i]);
            assert(data@.take(i + 1) =~= data@.take(i as int).push(data@[i as int]));
            assert(self@.scripted =~= before.scripted);
            assert(self@.read_queue =~= old(self)@.read_queue + data@.take(i + 1));
            i += 1;
        }
        assert(data@.take(data.len() as int) =~= data@);
    }

    /// Answers one written line (it ends with a carriage return).
    fn auto_respond_to_line(&mut self, line: &str)
        ensures
            final(self)@ == spec_respond(old(self)@, line@),
    {
        let chars = str_chars(line);
        let cmd = trim_chars(chars.as_slice());
        if cmd.len() == 0 {
            return;
        }
        if let Some(resp) = self.scripted.pop_front() {
            proof {
                assert(self.scripted@.map_values(|v: Vec<u8>| v@) =~= old(self)@.scripted.drop_first());
                assert(resp@ == old(self)@.scripted[0]);
            }
            self.enqueue_bytes(resp.as_slice());
            return;
        }
        proof {
            assert(old(self)@.scripted.len() == 0);
        }
        if !self.auto_elm {
            return;
        }
        let at_up = str_chars("AT");
        let at_lo = str_chars("at");
        if starts_with_chars(cmd.as_slice(), at_up.as_slice()) || starts_with_chars(
            cmd.as_slice(),
            at_lo.as_slice(),
        ) {
            let ok = [0x4Fu8, 0x4B, 0x0D, 0x3E];
            assert(ok@ == ok_reply());
            self.enqueue_bytes(ok.as_slice());
            return;
        }
        let cmd_text = chars_to_string(cmd.as_slice());
        let cleaned = hex_digit_chars(cmd_text.as_str());
        if cleaned.len() < 2 {
            let q = [0x3Fu8, 0x0D, 0x3E];
            assert(q@ == unknown_reply());
            self.enqueue_bytes(q.as_slice());
            return;
        }
        let frame = hex_text_to_bytes(cmd_text.as_str());
        assert(frame@ == digit_pairs(hex_digits(cmd@)));
        assert(frame@.len() >= 1);
        let b0 = frame[0];
        let kind = b0 / 16;
        if kind == 3 {
            return;
        }
        if kind == 0 {
            let len = (b0 % 16) as usize;
            if frame.len() >= 1 + len && len >= 1 {
                let uds = vstd::slice::slice_subrange(frame.as_slice(), 1, 1 + len);
                let resp = synthesize_uds_positive(uds);
                let mut out: Vec<u8> = vec![resp.len() as u8];
                extend_bytes(&mut out, resp.as_slice());
                let mut text: Vec<u8> = Vec::new();
                push_hex_reply(&mut text, out.as_slice());
                assert(text@ == hex_ascii(seq![resp@.len() as u8] + resp@) + prompt());
                self.enqueue_bytes(text.as_slice());
                return;
            }
        }
        if kind == 1 {
            let c = [0x33u8, 0x30, 0x30, 0x30, 0x30, 0x30, 0x0D, 0x3E];
            assert(c@ == cts_reply());
            self.enqueue_bytes(c.as_slice());
            return;
        }
        if kind == 2 {
            return;
        }
        let q = [0x3Fu8, 0x0D, 0x3E];
        assert(q@ == unknown_reply());
        self.enqueue_bytes(q.as_slice());
    }

    /// Takes up to `max` queued bytes; `None` when nothing is queued (a read
    /// that times out).
    pub fn read_bytes(&mut self, max: usize) -> (r: Option<Vec<u8>>)
        ensures
            old(self)@.read_queue.len() == 0 ==> r is None && final(self)@ == old(self)@,
            old(self)@.read_queue.len() > 0 ==> ({
                let n = if max < old(self)@.read_queue.len() {
                    max as int
                } else {
                    old(self)@.read_queue.len() as int
                };
                &&& r matches Some(v) && v@ == old(self)@.read_queue.take(n)
                &&& final(self)@ == (MockView {
                    read_queue: old(self)@.read_queue.skip(n),
                    ..old(self)@
                })
            }),
    {
        if self.read_queue.len() == 0 {
            return None;
        }
        let n = if max < self.read_queue.len() {
            max
        } else {
            self.read_queue.len()
        };
        let mut taken: Vec<u8> = Vec::new();
        let mut k: usize = 0;
        assert(old(self)@.read_queue.skip(0) =~= old(self)@.read_queue);
        assert(old(self)@.read_queue.take(0) =~= taken@);
        while k < n
            invariant
                k <= n,
                n <= old(self)@.read_queue.len(),
                taken@ == old(self)@.read_queue.take(k as int),
                self@ == (MockView { read_queue: old(self)@.read_queue.skip(k as int), ..old(self)@ }),
            decreases n - k,
        {
            let ghost before = self@;
            match self.read_queue.pop_front() {
                Some(b) => {
                    assert(b == old(self)@.read_queue[k as int]);
                    taken.push(b);
                },
                None => {
                    assert(false);
                },
            }
            assert(self@.scripted =~= before.scripted);
            assert(taken@ =~= old(self)@.read_queue.take(k + 1));
            assert(self@.read_queue =~= old(self)@.read_queue.skip(k + 1));
            k += 1;
        }
        Some(taken)
    }

    /// Records written bytes and answers every completed line in them.
    pub fn write_bytes(&mut self, buf: &[u8])
        ensures
            final(self)@ == spec_process(
                MockView { written: old(self)@.written + buf@, ..old(self)@ },
                Seq::empty(),
                utf8_lossy_text(buf@),
            ),
    {
        extend_bytes(&mut self.written, buf);
        assert(self@.scripted =~= old(self)@.scripted);
        let ghost m0 = self@;
        let text = utf8_lossy(buf);
        let chars = str_chars(text.as_str());
        let mut line: Vec<char> = Vec::new();
        let mut i: usize = 0;
        assert(chars@.skip(0) == chars@);
        assert(line@ == Seq::<char>::empty());
        while i < chars.len()
            invariant
                i <= chars@.len(),
                chars@ == utf8_lossy_text(buf@),
                spec_process(m0, Seq::empty(), chars@) == spec_process(
                    self@,
                    line@,
                    chars@.skip(i as int),
                ),
            decreases chars.len() - i,
        {
            let c = chars[i];
            assert(chars@.skip(i as int)[0] == c);
            assert(chars@.skip(i as int).drop_first() == chars@.skip(i + 1));
            line.push(c);
            if c == '\r' {
                let l = chars_to_string(line.as_slice());
                self.auto_respond_to_line(l.as_str());
                line = Vec::new();
                assert(line@ == Seq::<char>::empty());
            }
            i += 1;
        }
        assert(chars@.skip(chars.len() as int).len() == 0);
        assert(chars@.skip(0) == chars@);
    }

    pub fn baud_rate(&self) -> (r: u32)
        ensures
            r == self@.baud_rate,
    {
        self.baud_rate
    }

    pub fn set_baud_rate(&mut self, baud_rate: u32)
        ensures
            final(self)@ == (MockView { baud_rate, ..old(self)@ }),
    {
        self.baud_rate = baud_rate;
        assert(self@.scripted =~= old(self)@.scripted);
    }

    pub fn timeout_ms(&self) -> (r: u64)
        ensures
            r == self@.timeout_ms,
    {
        self.timeout_ms
    }

    pub fn set_timeout_ms(&mut self, ms: u64)
        ensures
            final(self)@ == (MockView { timeout_ms: ms, ..old(self)@ }),
    {
        self.timeout_ms = ms;
        assert(self@.scripted =~= old(self)@.scripted);
    }

    /// Number of bytes waiting to be read.
    pub fn bytes_to_read(&self) -> (r: usize)
        ensures
            r == self@.read_queue.len(),
    {
        self.read_queue.len()
    }

    /// The port's name.
    pub fn name(&self) -> (r: String)
        ensures
            r@ == "MOCK"@,
    {
        str_to_string("MOCK")
    }
}

impl Default for MockSerialPort {
    fn default() -> (r: Self)
        ensures
            r@.written.len() == 0,
            r@.read_queue.len() == 0,
            r@.scripted.len() == 0,
            r@.auto_elm,
            r@.baud_rate == 500_000,
            r@.timeout_ms == 500,
    {
        MockSerialPort::new()
    }
}

} // verus!
