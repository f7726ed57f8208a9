//! Serial frame checksum shared by the VPW, KWP and security layers.
use vstd::prelude::*;
use crate::bytes::{sum8, checksum8};

verus! {

/// The last byte of `f` is the wrapping sum of the bytes before it.
pub open spec fn frame_checksum_ok(f: Seq<u8>) -> bool {
    f.len() >= 2 && sum8(f.drop_last()) == f.last()
}

/// Checks the trailing additive checksum of a frame.
pub fn validate_checksum(frame: &[u8]) -> (r: bool)
    ensures
        r == frame_checksum_ok(frame@),
{
    if frame.len() < 2 {
        return false;
    }
    let body = vstd::slice::slice_subrange(frame, 0, frame.len() - 1);
    assert(body@ == frame@.drop_last());
    checksum8(body) == frame[frame.len() - 1]
}

/// Appends the wrapping-sum checksum to a frame body.
pub fn push_checksum(frame: &mut Vec<u8>)
    ensures
        final(frame)@ == old(frame)@.push(sum8(old(frame)@)),
        old(frame)@.len() >= 1 ==> frame_checksum_ok(final(frame)@),
{
    let cs = checksum8(frame.as_slice());
    let ghost f0 = frame@;
    frame.push(cs);
    assert(frame@.drop_last() == f0);
    assert(frame@.last() == cs);
}

} // verus!
