//! Verified core of an ECU tuning and diagnostics toolkit: image checksums,
//! seed/key algorithms, diagnostic frame builders and parsers.

pub mod sizes;
pub mod text;
pub mod checksum;
pub mod cs_guard;
pub mod bytes;
pub mod frames;
pub mod security;
pub mod uds;
pub mod vpw;
pub mod can;
pub mod mock_serial;
pub mod gm_keys;
pub mod seed_tables;
pub mod p01_gm_compare;
pub mod seed_key;
pub mod transport;
pub mod kwp;
pub mod consult;
pub mod dtc;
pub mod j2534_list;
pub mod j2534;
pub mod live_verify;
pub mod pid_decode;
pub mod xdf;
pub mod table_tools;
pub mod tableseek;
pub mod a2l;
pub mod ecu_database;
pub mod v29_tools;
pub mod flash;
pub mod logging;
pub mod file_dialog;
pub mod commands;
pub mod scripting;
pub mod detect;
