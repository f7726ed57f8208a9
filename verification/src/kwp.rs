//! KWP2000 framing: request frames with length byte and additive checksum,
//! and the classification of received bytes (incomplete, response pending,
//! complete).
use vstd::prelude::*;
use crate::bytes::{extend_bytes, sum8};
use crate::frames::push_checksum;
use crate::text::str_to_string;

verus! {

/// `80 <tgt> <src> <len> <data…> <checksum>`.
pub open spec fn kwp_frame(tgt: u8, src: u8, data: Seq<u8>) -> Seq<u8> {
    let body = seq![0x80u8, tgt, src, data.len() as u8] + data;
    body.push(sum8(body))
}

/// A KWP request frame; the data field holds at most 255 bytes.
pub fn build_kwp_request(tgt: u8, src: u8, data: &[u8]) -> (r: Result<Vec<u8>, String>)
    ensures
        data@.len() > 255 ==> (r matches Err(e) && e@ == "KWP data too long (max 255 bytes)"@),
        data@.len() <= 255 ==> (r matches Ok(f) && f@ == kwp_frame(tgt, src, data@)),
{
    if data.len() > 255 {
        return Err(str_to_string("KWP data too long (max 255 bytes)"));
    }
    let mut frame = vec![0x80u8, tgt, src, data.len() as u8];
    extend_bytes(&mut frame, data);
    push_checksum(&mut frame);
    Ok(frame)
}

/// What a read returned, as the request/response loop sees it.
#[derive(Clone, Copy, Debug, PartialEq, Eq, Structural)]
pub enum KwpRx {
    /// Shorter than its length byte announces: read again.
    Incomplete,
    /// Negative response 0x78 (response pending): wait and read again.
    Pending,
    /// A response to hand back.
    Complete,
}

pub open spec fn spec_kwp_rx(r: Seq<u8>) -> KwpRx {
    if r.len() > 3 && r.len() < 4 + r[3] + 1 {
        KwpRx::Incomplete
    } else if r.len() > 5 && r[4] == 0x7F && r[5] == 0x78 {
        KwpRx::Pending
    } else {
        KwpRx::Complete
    }
}

pub fn classify_kwp_response(resp: &[u8]) -> (r: KwpRx)
    ensures
        r == spec_kwp_rx(resp@),
{
    if resp.len() > 3 {
        let declared = resp[3] as usize;
        if resp.len() < 4 + declared + 1 {
            return KwpRx::Incomplete;
        }
    }
    if resp.len() > 5 && resp[4] == 0x7F && resp[5] == 0x78 {
        return KwpRx::Pending;
    }
    KwpRx::Complete
}

/// Data of a SecurityAccess send-key request: `27 <level + 1> <key…>`. The
/// level byte must leave room for the increment.
pub fn kwp_send_key_data(level: u8, key: &[u8]) -> (r: Vec<u8>)
    requires
        level < 255,
    ensures
        r@ == seq![0x27u8, (level + 1) as u8] + key@,
{
    let mut d = vec![0x27u8, level + 1];
    extend_bytes(&mut d, key);
    d
}

} // verus!
