//! Nissan Consult framing: a command byte followed by its data, register
//! reads with the `0x5A` command, and the value a register reply carries.
use vstd::prelude::*;
use crate::bytes::extend_bytes;

verus! {

/// Line speed of most Consult ECUs.
pub const CONSULT_BAUD: u32 = 9600;

/// Common diesel registers.
pub const REG_RPM: u8 = 0x00;
pub const REG_BOOST: u8 = 0x0B;
pub const REG_MAF: u8 = 0x0C;
pub const REG_INJ_PULSE: u8 = 0x1C;
pub const REG_RAIL_PRESS: u8 = 0x23;

/// The register-read command.
pub const CONSULT_READ_REGISTER: u8 = 0x5A;

/// The wake byte sent when a Consult port is opened.
pub const CONSULT_WAKE: u8 = 0xFF;

/// The harmless command sent after the wake byte.
pub const CONSULT_PROBE: u8 = 0xD0;

/// A command frame: the command byte, then its data.
pub fn consult_frame(cmd: u8, data: &[u8]) -> (r: Vec<u8>)
    ensures
        r@ == seq![cmd] + data@,
{
    let mut f = vec![cmd];
    extend_bytes(&mut f, data);
    f
}

/// The data of a register read: one register, then its number.
pub fn consult_register_data(reg: u8) -> (r: Vec<u8>)
    ensures
        r@ == seq![0x01u8, reg],
{
    vec![0x01u8, reg]
}

/// The value of a register reply: its first two bytes big-endian, its only
/// byte, or 0 for an empty reply.
pub open spec fn spec_register_value(resp: Seq<u8>) -> u16 {
    if resp.len() >= 2 {
        (resp[0] as int * 256 + resp[1] as int) as u16
    } else if resp.len() == 1 {
        resp[0] as u16
    } else {
        0
    }
}

pub fn consult_register_value(resp: &[u8]) -> (r: u16)
    ensures
        r == spec_register_value(resp@),
{
    if resp.len() >= 2 {
        (resp[0] as u16) * 256 + resp[1] as u16
    } else if resp.len() == 1 {
        resp[0] as u16
    } else {
        0
    }
}

} // verus!
