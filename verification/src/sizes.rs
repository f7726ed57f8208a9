//! Image sizes shared by checksum, identification and flashing.
use vstd::prelude::*;
use crate::text::{dec, push_dec, str_to_string};

verus! {

/// One 64 KiB calibration block.
pub const BLOCK_SIZE: usize = 0x10000;
/// Two-block P01 calibration image.
pub const CAL_IMAGE_SIZE: usize = 0x20000;
/// Full 512 KiB P01 flash image.
pub const P01_FULL_IMAGE_SIZE: usize = 0x80000;
/// Bosch ME7 flash size.
pub const ME7_FLASH_SIZE: usize = 0x100000;
/// Bosch EDC16 flash size.
pub const EDC16_FLASH_SIZE: usize = 0x200000;

/// The sizes accepted as a P01 image.
pub open spec fn spec_is_p01_size(len: int) -> bool {
    len == CAL_IMAGE_SIZE || len == P01_FULL_IMAGE_SIZE
}

pub fn is_p01_size(len: usize) -> (r: bool)
    ensures
        r == spec_is_p01_size(len as int),
{
    len == CAL_IMAGE_SIZE || len == P01_FULL_IMAGE_SIZE
}

pub fn is_me7_size(len: usize) -> (r: bool)
    ensures
        r == (len == ME7_FLASH_SIZE),
{
    len == ME7_FLASH_SIZE
}

/// The message for an image size that is not a P01 size.
pub open spec fn spec_p01_size_error(len: nat) -> Seq<char> {
    "Expected 131072 or 524288 bytes for P01, got "@ + dec(len)
}

/// Number of 64 KiB blocks in a P01 image; an error naming the length for
/// any other size.
pub fn p01_block_count(len: usize) -> (r: Result<usize, String>)
    ensures
        spec_is_p01_size(len as int) <==> r is Ok,
        r matches Ok(n) ==> n == len / BLOCK_SIZE && (n == 2 || n == 8),
        r matches Err(e) ==> e@ == spec_p01_size_error(len as nat),
{
    if !is_p01_size(len) {
        let mut e = str_to_string("Expected 131072 or 524288 bytes for P01, got ");
        push_dec(&mut e, len as u64);
        return Err(e);
    }
    Ok(len / BLOCK_SIZE)
}

} // verus!
