//! Adapter detection and session set-up decisions: the ELM327 warm-up
//! commands for a protocol, how an adapter's answers are read, and the
//! connection messages.
use vstd::prelude::*;
use crate::text::{contains, contains_chars, lower_seq, lower_vec, str_chars, str_to_string, push_str, push_dec, dec};

verus! {

fn has(h: &Vec<char>, w: &str) -> (r: bool)
    ensures
        r == contains(h@, w@),
{
    let v = str_chars(w);
    contains_chars(h.as_slice(), v.as_slice())
}

/// The protocol's ELM327 set-up line (`ATSP6` for CAN/UDS, `ATSP5` for KWP,
/// `ATSP2` for VPW), if it has one.
pub open spec fn spec_warmup_protocol(protocol: Seq<char>) -> Option<Seq<char>> {
    let p = lower_seq(protocol);
    if contains(p, "uds"@) || contains(p, "can"@) {
        Some("ATSP6\r"@)
    } else if contains(p, "kwp"@) {
        Some("ATSP5\r"@)
    } else if contains(p, "vpw"@) {
        Some("ATSP2\r"@)
    } else {
        None
    }
}

/// The ELM327 warm-up: reset, echo, line feeds and spaces off, headers on,
/// then the protocol's own line.
pub fn elm_warmup_sequence(protocol: &str) -> (r: Vec<&'static str>)
    ensures
        r@.len() == (if spec_warmup_protocol(protocol@) is Some { 6nat } else { 5nat }),
        r@[0]@ == "ATZ\r"@ && r@[1]@ == "ATE0\r"@ && r@[2]@ == "ATL0\r"@ && r@[3]@ == "ATS0\r"@ && r@[4]@ == "ATH1\r"@,
        spec_warmup_protocol(protocol@) matches Some(l) ==> r@[5]@ == l,
{
    let p = lower_vec(str_chars(protocol).as_slice());
    let mut v: Vec<&'static str> = vec!["ATZ\r", "ATE0\r", "ATL0\r", "ATS0\r", "ATH1\r"];
    if has(&p, "uds") || has(&p, "can") {
        v.push("ATSP6\r");
    } else if has(&p, "kwp") {
        v.push("ATSP5\r");
    } else if has(&p, "vpw") {
        v.push("ATSP2\r");
    }
    v
}

/// An answer to `ATZ` that looks like an ELM327-style adapter (read upper-cased).
pub open spec fn spec_elm_like(ident: Seq<char>) -> bool {
    contains(ident, "ELM"@) || contains(ident, "OBD"@) || contains(ident, "STN"@) || contains(ident, "OK"@)
}

pub fn is_elm_like(ident: &str) -> (r: bool)
    ensures
        r == spec_elm_like(ident@),
{
    let v = str_chars(ident);
    has(&v, "ELM") || has(&v, "OBD") || has(&v, "STN") || has(&v, "OK")
}

/// The protocol an adapter's answer to `0100` shows: a Mode 01 answer, or
/// `UNABLE` (adapter up, no PID yet); anything else detects nothing.
pub open spec fn spec_pid_protocol(pid: Seq<char>) -> Option<Seq<char>> {
    if contains(pid, "41 00"@) || contains(pid, "4100"@) || contains(pid, "UNABLE"@) {
        if contains(pid, "41"@) {
            Some("elm-auto (Mode 01 seen)"@)
        } else {
            Some("elm (adapter answered, no PID yet)"@)
        }
    } else {
        None
    }
}

pub fn elm_pid_protocol(pid: &str) -> (r: Option<&'static str>)
    ensures
        match spec_pid_protocol(pid@) {
            Some(p) => r matches Some(x) && x@ == p,
            None => r is None,
        },
{
    let v = str_chars(pid);
    if has(&v, "41 00") || has(&v, "4100") || has(&v, "UNABLE") {
        if has(&v, "41") {
            Some("elm-auto (Mode 01 seen)")
        } else {
            Some("elm (adapter answered, no PID yet)")
        }
    } else {
        None
    }
}

/// A raw J1850 reply to a Mode 01 probe: five bytes or more, starting with
/// a 0x48 or 0x41 header byte.
pub fn vpw_probe_answered(reply: &[u8]) -> (r: bool)
    ensures
        r == (reply@.len() >= 5 && (reply@[0] == 0x48 || reply@[0] == 0x41)),
{
    reply.len() >= 5 && (reply[0] == 0x48 || reply[0] == 0x41)
}

/// The message of an opened session.
pub fn connect_message(port_name: &str, baud: u32, protocol: &str) -> (r: String)
    ensures
        r@ == "Connected to "@ + port_name@ + " @ "@ + dec(baud as nat) + " baud ("@ + protocol@ + ")"@,
{
    let mut m = str_to_string("Connected to ");
    push_str(&mut m, port_name);
    push_str(&mut m, " @ ");
    push_dec(&mut m, baud as u64);
    push_str(&mut m, " baud (");
    push_str(&mut m, protocol);
    push_str(&mut m, ")");
    m
}

/// The connection health line.
pub fn connection_health(j2534_open: bool, port_open: bool, protocol: &str) -> (r: String)
    ensures
        j2534_open ==> r@ == "Connected (j2534)"@,
        !j2534_open && port_open ==> r@ == "Connected ("@ + protocol@ + ")"@,
        !j2534_open && !port_open ==> r@ == "Disconnected"@,
{
    if j2534_open {
        str_to_string("Connected (j2534)")
    } else if port_open {
        let mut m = str_to_string("Connected (");
        push_str(&mut m, protocol);
        push_str(&mut m, ")");
        m
    } else {
        str_to_string("Disconnected")
    }
}

} // verus!
