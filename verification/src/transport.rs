//! Protocol classification for the OBD transport and the reading of Mode 01
//! answers out of ELM327 hex text.
use vstd::prelude::*;
use crate::text::{contains, contains_chars, hex_text_to_bytes, lower_seq, lower_vec, spec_hex_bytes, str_chars};
use crate::vpw::{parse_mode01_response, spec_mode01};

verus! {

fn has(h: &[char], lit: &str) -> (r: bool)
    ensures
        r == contains(h@, lit@),
{
    let n = str_chars(lit);
    contains_chars(h, n.as_slice())
}

/// The session speaks ELM327 ASCII: the protocol names ELM, auto, CAN, UDS,
/// KWP or Consult, or is empty.
pub open spec fn spec_is_elm_ascii(protocol: Seq<char>) -> bool {
    let p = lower_seq(protocol);
    contains(p, "elm"@) || contains(p, "auto"@) || contains(p, "can"@) || contains(p, "uds"@)
        || contains(p, "kwp"@) || contains(p, "consult"@) || p.len() == 0
}

pub fn is_elm_ascii(protocol: &str) -> (r: bool)
    ensures
        r == spec_is_elm_ascii(protocol@),
{
    let c = str_chars(protocol);
    let p = lower_vec(c.as_slice());
    let ps = p.as_slice();
    has(ps, "elm") || has(ps, "auto") || has(ps, "can") || has(ps, "uds") || has(ps, "kwp") || has(
        ps,
        "consult",
    ) || p.len() == 0
}

/// The session is a raw J1850 VPW adapter.
pub open spec fn spec_is_raw_vpw(protocol: Seq<char>) -> bool {
    let p = lower_seq(protocol);
    contains(p, "vpw"@) || contains(p, "j1850"@)
}

pub fn is_raw_vpw(protocol: &str) -> (r: bool)
    ensures
        r == spec_is_raw_vpw(protocol@),
{
    let c = str_chars(protocol);
    let p = lower_vec(c.as_slice());
    has(p.as_slice(), "vpw") || has(p.as_slice(), "j1850")
}

/// Bytes of an ELM327 hex reply (spaces, CR and prompt ignored).
pub fn parse_elm_hex(raw: &str) -> (r: Vec<u8>)
    ensures
        r@ == spec_hex_bytes(raw@),
{
    hex_text_to_bytes(raw)
}

/// The payload after the first `41 <pid>` pair in `b`, if any.
pub open spec fn first_41_pid(b: Seq<u8>, pid: u8, i: int) -> Option<Seq<u8>>
    decreases b.len() - i,
{
    if i < 0 || i + 1 >= b.len() {
        None
    } else if b[i] == 0x41 && b[i + 1] == pid {
        Some(b.subrange(i + 2, b.len() as int))
    } else {
        first_41_pid(b, pid, i + 1)
    }
}

/// Mode 01 data of an ELM reply: a checksummed VPW frame when it is one,
/// else the bytes after the first `41 <pid>`.
pub open spec fn spec_mode01_payload(b: Seq<u8>, pid: u8) -> Option<Seq<u8>> {
    match spec_mode01(b, pid) {
        Some(d) => Some(d),
        None => first_41_pid(b, pid, 0),
    }
}

/// The Mode 01 data for `pid` in the bytes of an ELM reply.
pub fn mode01_payload(bytes: &[u8], pid: u8) -> (r: Option<Vec<u8>>)
    ensures
        spec_mode01_payload(bytes@, pid) matches Some(d) ==> (r matches Some(v) && v@ == d),
        spec_mode01_payload(bytes@, pid) is None ==> r is None,
{
    if let Some(d) = parse_mode01_response(bytes, pid) {
        return Some(d);
    }
    let mut i: usize = 0;
    while bytes.len() >= 2 && i < bytes.len() - 1
        invariant
            i <= bytes.len(),
            spec_mode01(bytes@, pid) is None,
            first_41_pid(bytes@, pid, 0) == first_41_pid(bytes@, pid, i as int),
        decreases bytes.len() - i,
    {
        if bytes[i] == 0x41 && bytes[i + 1] == pid {
            return Some(vstd::slice::slice_to_vec(vstd::slice::slice_subrange(bytes, i + 2, bytes.len())));
        }
        i += 1;
    }
    None
}

} // verus!
