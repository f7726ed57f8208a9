//! SAE J2534-1 identifiers used by the pass-through binding: protocols, flags,
//! ioctls, configuration parameters and VPW bit rates, and the configuration
//! requests the binding sends for them, and the session decisions of a device
//! (kept id, channel without bound symbols, ioctl handle, read batch size).
use vstd::prelude::*;
use crate::text::{dec, push_dec, push_str, str_to_string};

verus! {

pub const J2534_PROTOCOL_J1850PWM: u32 = 0x01;
pub const J2534_PROTOCOL_J1850VPW: u32 = 0x02;
pub const J2534_PROTOCOL_ISO9141: u32 = 0x03;
pub const J2534_PROTOCOL_ISO14230: u32 = 0x04;
pub const J2534_PROTOCOL_CAN: u32 = 0x05;
pub const J2534_PROTOCOL_ISO15765: u32 = 0x06;

pub const J2534_FLAG_CAN_29BIT_ID: u32 = 0x0000_0100;
pub const J2534_FLAG_ISO15765_FRAME_PAD: u32 = 0x0000_0040;
pub const J2534_FLAG_CAN_ID_BOTH: u32 = 0x0000_0800;
pub const J2534_FLAG_TX_NORMAL: u32 = 0x0000_0000;

pub const IOCTL_GET_CONFIG: u32 = 0x01;
pub const IOCTL_SET_CONFIG: u32 = 0x02;
pub const IOCTL_READ_VBATT: u32 = 0x03;
pub const IOCTL_FIVE_BAUD_INIT: u32 = 0x04;
pub const IOCTL_FAST_INIT: u32 = 0x05;
pub const IOCTL_CLEAR_TX_BUFFER: u32 = 0x07;
pub const IOCTL_CLEAR_RX_BUFFER: u32 = 0x08;
pub const IOCTL_CLEAR_PERIODIC_MSGS: u32 = 0x09;
pub const IOCTL_CLEAR_MSG_FILTERS: u32 = 0x0A;
pub const IOCTL_CLEAR_FUNCT_MSG_LOOKUP_TABLE: u32 = 0x0B;
pub const IOCTL_ADD_TO_FUNCT_MSG_LOOKUP_TABLE: u32 = 0x0C;
pub const IOCTL_DELETE_FROM_FUNCT_MSG_LOOKUP_TABLE: u32 = 0x0D;
pub const IOCTL_READ_PROG_VOLTAGE: u32 = 0x0E;

pub const CONFIG_DATA_RATE: u32 = 0x01;
pub const CONFIG_LOOPBACK: u32 = 0x03;
pub const CONFIG_NODE_ADDRESS: u32 = 0x04;
pub const CONFIG_NETWORK_LINE: u32 = 0x05;
pub const CONFIG_P1_MIN: u32 = 0x06;
pub const CONFIG_P1_MAX: u32 = 0x07;
pub const CONFIG_P2_MIN: u32 = 0x08;
pub const CONFIG_P2_MAX: u32 = 0x09;
pub const CONFIG_P3_MIN: u32 = 0x0A;
pub const CONFIG_P3_MAX: u32 = 0x0B;
pub const CONFIG_P4_MIN: u32 = 0x0C;
pub const CONFIG_P4_MAX: u32 = 0x0D;
pub const CONFIG_W0: u32 = 0x19;
pub const CONFIG_W1: u32 = 0x1A;
pub const CONFIG_W2: u32 = 0x1B;
pub const CONFIG_W3: u32 = 0x1C;
pub const CONFIG_W4: u32 = 0x1D;
pub const CONFIG_ISO15765_BS: u32 = 0x1E;
pub const CONFIG_ISO15765_STMIN: u32 = 0x1F;
pub const CONFIG_BS_TX: u32 = 0x22;
pub const CONFIG_STMIN_TX: u32 = 0x23;

/// Normal J1850 VPW bit rate.
pub const VPW_BAUD_NORMAL: u32 = 10_400;
/// High-speed (4x) J1850 VPW bit rate, used after kernel modes A0/A1.
pub const VPW_BAUD_HIGH: u32 = 41_600;

/// One SET_CONFIG / GET_CONFIG parameter.
#[derive(Clone, Copy, Debug, PartialEq, Eq, Structural)]
pub struct ConfigParam {
    pub parameter: u32,
    pub value: u32,
}

/// The DATA_RATE parameter for a bit rate.
pub fn data_rate_param(baud: u32) -> (r: ConfigParam)
    ensures
        r == (ConfigParam { parameter: CONFIG_DATA_RATE, value: baud }),
{
    ConfigParam { parameter: CONFIG_DATA_RATE, value: baud }
}

/// The parameters that switch VPW to 4x or back to normal speed.
pub fn vpw_speed_param(high: bool) -> (r: ConfigParam)
    ensures
        r == (ConfigParam {
            parameter: CONFIG_DATA_RATE,
            value: if high { VPW_BAUD_HIGH } else { VPW_BAUD_NORMAL },
        }),
{
    if high {
        data_rate_param(VPW_BAUD_HIGH)
    } else {
        data_rate_param(VPW_BAUD_NORMAL)
    }
}

/// The ISO 15765 separation time and block size parameters.
pub fn iso15765_timing_params(st_min: u32, block_size: u32) -> (r: [ConfigParam; 2])
    ensures
        r[0] == (ConfigParam { parameter: CONFIG_ISO15765_STMIN, value: st_min }),
        r[1] == (ConfigParam { parameter: CONFIG_ISO15765_BS, value: block_size }),
{
    [
        ConfigParam { parameter: CONFIG_ISO15765_STMIN, value: st_min },
        ConfigParam { parameter: CONFIG_ISO15765_BS, value: block_size },
    ]
}

// ── Device session decisions ────────────────────────────────────────────────

/// The device id kept after PassThruOpen: a driver that reports 0 still gets
/// a usable id.
pub fn opened_device_id(reported: u32) -> (r: u32)
    ensures
        r == if reported != 0 { reported } else { 1 },
{
    if reported != 0 {
        reported
    } else {
        1
    }
}

/// The channel of a connect made without bound driver symbols: CAN, ISO
/// 15765 and J1850 VPW get channel 1, other protocols are refused.
pub fn unbound_connect_channel(protocol: u32) -> (r: Result<u32, String>)
    ensures
        (protocol == J2534_PROTOCOL_CAN || protocol == J2534_PROTOCOL_ISO15765 || protocol == J2534_PROTOCOL_J1850VPW)
            ==> r == Ok::<u32, String>(1),
        !(protocol == J2534_PROTOCOL_CAN || protocol == J2534_PROTOCOL_ISO15765 || protocol
            == J2534_PROTOCOL_J1850VPW) ==> (r matches Err(e) && e@ == "Protocol "@ + dec(protocol as nat)
            + " not supported without full binding"@),
{
    if protocol == J2534_PROTOCOL_CAN || protocol == J2534_PROTOCOL_ISO15765 || protocol == J2534_PROTOCOL_J1850VPW {
        Ok(1)
    } else {
        let mut e = str_to_string("Protocol ");
        push_dec(&mut e, protocol as u64);
        push_str(&mut e, " not supported without full binding");
        Err(e)
    }
}

/// The handle an ioctl goes to: the channel when connected, else the device;
/// none before the device is opened.
pub fn ioctl_handle(device_id: u32, channel_id: u32) -> (r: Option<u32>)
    ensures
        (device_id == 0 && channel_id == 0) ==> r is None,
        channel_id != 0 ==> r == Some(channel_id),
        (channel_id == 0 && device_id != 0) ==> r == Some(device_id),
{
    if channel_id != 0 {
        Some(channel_id)
    } else if device_id != 0 {
        Some(device_id)
    } else {
        None
    }
}

/// How many messages one read asks the driver for (at most 32).
pub fn read_batch_len(max_msgs: usize) -> (r: usize)
    ensures
        r == if max_msgs < 32 { max_msgs } else { 32 },
{
    if max_msgs < 32 {
        max_msgs
    } else {
        32
    }
}

} // verus!
