//! PID metadata (display name and unit) and the bit-mapped status registers
//! of the GM P01/P59 Mode 22 parameters.
use vstd::prelude::*;

verus! {

/// Name and unit of a PID; unknown PIDs read "Unknown PID" in "raw".
pub open spec fn spec_pid_meta(pid: u16) -> (Seq<char>, Seq<char>) {
    if pid == 0x0003 {
        ("Fuel System Status"@, "raw"@)
    } else if pid == 0x0004 {
        ("Engine Load"@, "%"@)
    } else if pid == 0x0005 {
        ("ECT"@, "\u{b0}C"@)
    } else if pid == 0x0006 {
        ("STFT Bank 1"@, "%"@)
    } else if pid == 0x0007 {
        ("LTFT Bank 1"@, "%"@)
    } else if pid == 0x0008 {
        ("STFT Bank 2"@, "%"@)
    } else if pid == 0x0009 {
        ("LTFT Bank 2"@, "%"@)
    } else if pid == 0x000A {
        ("Fuel Pressure"@, "kPa"@)
    } else if pid == 0x000B {
        ("MAP"@, "kPa"@)
    } else if pid == 0x000C {
        ("Engine RPM"@, "RPM"@)
    } else if pid == 0x000D {
        ("Vehicle Speed"@, "kph"@)
    } else if pid == 0x000E {
        ("Ignition Timing Advance"@, "\u{b0}"@)
    } else if pid == 0x000F {
        ("IAT"@, "\u{b0}C"@)
    } else if pid == 0x0010 {
        ("MAF"@, "g/s"@)
    } else if pid == 0x0011 {
        ("Throttle Position"@, "%"@)
    } else if pid == 0x0014 {
        ("O2 B1S1 (OBD)"@, "V"@)
    } else if pid == 0x0015 {
        ("O2 B1S2 (OBD)"@, "V"@)
    } else if pid == 0x0018 {
        ("O2 B2S1 (OBD)"@, "V"@)
    } else if pid == 0x0019 {
        ("O2 B2S2 (OBD)"@, "V"@)
    } else if pid == 0x001C {
        ("OBD Standards"@, "raw"@)
    } else if pid == 0x001F {
        ("Engine Run Time (OBD)"@, "s"@)
    } else if pid == 0x1140 {
        ("MAF (Hi-Precision)"@, "g/s"@)
    } else if pid == 0x1141 {
        ("Ignition Voltage"@, "V"@)
    } else if pid == 0x1142 {
        ("MAP Sensor Voltage"@, "V"@)
    } else if pid == 0x1143 {
        ("TPS Voltage"@, "V"@)
    } else if pid == 0x1144 {
        ("A/C Pressure Sensor Voltage"@, "V"@)
    } else if pid == 0x1145 {
        ("O2 B1S1 (GM)"@, "mV"@)
    } else if pid == 0x1146 {
        ("O2 B1S2 (GM)"@, "mV"@)
    } else if pid == 0x1148 {
        ("O2 B2S1 (GM)"@, "mV"@)
    } else if pid == 0x1149 {
        ("O2 B2S2 (GM)"@, "mV"@)
    } else if pid == 0x114B {
        ("EGR Sensor Voltage"@, "V"@)
    } else if pid == 0x114D {
        ("GEN F-Terminal Signal"@, "%"@)
    } else if pid == 0x114E {
        ("Fuel Tank Pressure Sensor"@, "V"@)
    } else if pid == 0x1151 {
        ("APP Position"@, "%"@)
    } else if pid == 0x1155 {
        ("Fuel Level Sensor (Left)"@, "V"@)
    } else if pid == 0x115C {
        ("Engine Oil Pressure"@, "V"@)
    } else if pid == 0x115E {
        ("CMP Sensor Raw"@, "raw"@)
    } else if pid == 0x116F {
        ("Startup ECT"@, "\u{b0}C"@)
    } else if pid == 0x1170 {
        ("EVAP Purge Solenoid DC"@, "%"@)
    } else if pid == 0x1171 {
        ("EGR Duty Cycle"@, "%"@)
    } else if pid == 0x1176 {
        ("IAC Learned Position"@, "steps"@)
    } else if pid == 0x1179 {
        ("IAC Current Position"@, "steps"@)
    } else if pid == 0x1190 {
        ("Fuel Trim Cell"@, "cell"@)
    } else if pid == 0x1192 {
        ("Desired Idle Speed"@, "RPM"@)
    } else if pid == 0x119D {
        ("Barometric Pressure"@, "kPa"@)
    } else if pid == 0x119E {
        ("Target A/F Ratio"@, ":1"@)
    } else if pid == 0x119F {
        ("Engine Oil Life"@, "%"@)
    } else if pid == 0x11A1 {
        ("Engine Run Time"@, "min"@)
    } else if pid == 0x11A3 {
        ("Calculated Cat Temp"@, "\u{b0}C"@)
    } else if pid == 0x11A6 {
        ("Knock Retard"@, "\u{b0}"@)
    } else if pid == 0x11BD {
        ("EGR Test Count"@, "raw"@)
    } else if pid == 0x11EA {
        ("Misfire Current Cyl 5"@, "cnt"@)
    } else if pid == 0x11EB {
        ("Misfire Current Cyl 6"@, "cnt"@)
    } else if pid == 0x11EC {
        ("Misfire Current Cyl 7"@, "cnt"@)
    } else if pid == 0x11ED {
        ("Misfire Current Cyl 8"@, "cnt"@)
    } else if pid == 0x11F8 {
        ("Misfire History Cyl 5"@, "cnt"@)
    } else if pid == 0x11F9 {
        ("Misfire History Cyl 6"@, "cnt"@)
    } else if pid == 0x11FA {
        ("Misfire History Cyl 7"@, "cnt"@)
    } else if pid == 0x11FB {
        ("Misfire History Cyl 8"@, "cnt"@)
    } else if pid == 0x1201 {
        ("Misfire Current Cyl 1"@, "cnt"@)
    } else if pid == 0x1202 {
        ("Misfire Current Cyl 2"@, "cnt"@)
    } else if pid == 0x1203 {
        ("Misfire Current Cyl 3"@, "cnt"@)
    } else if pid == 0x1204 {
        ("Misfire Current Cyl 4"@, "cnt"@)
    } else if pid == 0x1205 {
        ("Misfire History Cyl 1"@, "cnt"@)
    } else if pid == 0x1206 {
        ("Misfire History Cyl 2"@, "cnt"@)
    } else if pid == 0x1207 {
        ("Misfire History Cyl 3"@, "cnt"@)
    } else if pid == 0x1208 {
        ("Misfire History Cyl 4"@, "cnt"@)
    } else if pid == 0x1227 {
        ("Total Misfire Fail"@, "cnt"@)
    } else if pid == 0x1228 {
        ("Total Misfire Pass"@, "cnt"@)
    } else if pid == 0x122A {
        ("Cycles of Misfire Data"@, "cnt"@)
    } else if pid == 0x120A {
        ("STFT Average"@, "%"@)
    } else if pid == 0x120B {
        ("LTFT Average"@, "%"@)
    } else if pid == 0x120C {
        ("STFT Average (cell)"@, "%"@)
    } else if pid == 0x123A {
        ("LTFT Average (cell)"@, "%"@)
    } else if pid == 0x1232 {
        ("Warm-ups w/o Emission Faults"@, "cnt"@)
    } else if pid == 0x1233 {
        ("Warm-ups w/o Non-Emission Faults"@, "cnt"@)
    } else if pid == 0x1234 {
        ("Mileage Since DTC Clear"@, "km"@)
    } else if pid == 0x1250 {
        ("MAF Sensor Frequency"@, "Hz"@)
    } else if pid == 0x125A {
        ("Injector PW Bank 1"@, "ms"@)
    } else if pid == 0x125B {
        ("Injector PW Bank 2"@, "ms"@)
    } else if pid == 0x125D {
        ("Knock Retard Raw"@, "raw"@)
    } else if pid == 0x125E {
        ("Knock Count"@, "cnt"@)
    } else if pid == 0x125F {
        ("Delta Bearing"@, "raw"@)
    } else if pid == 0x12B0 {
        ("APP Normalized"@, "%"@)
    } else if pid == 0x12B1 {
        ("TP Indicated Angle"@, "%"@)
    } else if pid == 0x12B4 {
        ("APP Sensor 1 (%)"@, "%"@)
    } else if pid == 0x12B5 {
        ("APP Sensor 2 (%)"@, "%"@)
    } else if pid == 0x12B6 {
        ("APP Sensor 3 (%)"@, "%"@)
    } else if pid == 0x12B7 {
        ("TP Sensor 1 (%)"@, "%"@)
    } else if pid == 0x12B8 {
        ("TP Sensor 2 (%)"@, "%"@)
    } else if pid == 0x12B9 {
        ("TP Sensor 2 (V)"@, "V"@)
    } else if pid == 0x12BA {
        ("TP Sensor 1 (V)"@, "V"@)
    } else if pid == 0x12BB {
        ("APP Sensor 3 (V)"@, "V"@)
    } else if pid == 0x12BC {
        ("APP Sensor 2 (V)"@, "V"@)
    } else if pid == 0x12BD {
        ("APP Sensor 1 (V)"@, "V"@)
    } else if pid == 0x12C5 {
        ("Fuel Level"@, "%"@)
    } else if pid == 0x12E3 {
        ("Fuel Tank Pressure (EVAP)"@, "mmHg"@)
    } else if pid == 0x12F3 {
        ("Ethanol Content"@, "%"@)
    } else if pid == 0x12F7 {
        ("Desired IAC Position"@, "counts"@)
    } else if pid == 0x131D {
        ("Fuel Tank Capacity"@, "L"@)
    } else if pid == 0x131E {
        ("TP Desired Angle"@, "%"@)
    } else if pid == 0x131F {
        ("APP Indicated Angle"@, "%"@)
    } else if pid == 0x132A {
        ("Fuel Remaining"@, "L"@)
    } else if pid == 0x132B {
        ("CMP High-to-Low"@, "cnt"@)
    } else if pid == 0x132C {
        ("CMP Low-to-High"@, "cnt"@)
    } else if pid == 0x1336 {
        ("Torque Request"@, "N\u{b7}m"@)
    } else if pid == 0x1337 {
        ("Torque Delivered"@, "N\u{b7}m"@)
    } else if pid == 0x1338 {
        ("Fuel Level Sensor Right"@, "V"@)
    } else if pid == 0x139C {
        ("Ethanol Sensor Frequency"@, "Hz"@)
    } else if pid == 0x1482 {
        ("HO2S Heater B1S1"@, "A"@)
    } else if pid == 0x1484 {
        ("HO2S Heater B2S1"@, "A"@)
    } else if pid == 0x1485 {
        ("HO2S Heater B1S2"@, "A"@)
    } else if pid == 0x1617 {
        ("Desired IAC Airflow"@, "g/s"@)
    } else if pid == 0x1926 {
        ("TCC Mode"@, "raw"@)
    } else if pid == 0x192C {
        ("Trans Range"@, "raw"@)
    } else if pid == 0x1940 {
        ("Trans Fluid Temp"@, "\u{b0}C"@)
    } else if pid == 0x1941 {
        ("Input Shaft Speed"@, "raw"@)
    } else if pid == 0x199A {
        ("Current Gear"@, "gear"@)
    } else if pid == 0x19F4 {
        ("Trans Ratio"@, "raw"@)
    } else if pid == 0x19F5 {
        ("Trans Gear (P59)"@, "gear"@)
    } else if pid == 0xFC05 {
        ("EGR PWM Duty Cycle"@, "%"@)
    } else {
        ("Unknown PID"@, "raw"@)
    }
}

fn pid_meta_entry(pid: u16) -> (r: (&'static str, &'static str))
    ensures
        r.0@ == spec_pid_meta(pid).0,
        r.1@ == spec_pid_meta(pid).1,
{
    if pid == 0x0003 {
        ("Fuel System Status", "raw")
    } else if pid == 0x0004 {
        ("Engine Load", "%")
    } else if pid == 0x0005 {
        ("ECT", "\u{b0}C")
    } else if pid == 0x0006 {
        ("STFT Bank 1", "%")
    } else if pid == 0x0007 {
        ("LTFT Bank 1", "%")
    } else if pid == 0x0008 {
        ("STFT Bank 2", "%")
    } else if pid == 0x0009 {
        ("LTFT Bank 2", "%")
    } else if pid == 0x000A {
        ("Fuel Pressure", "kPa")
    } else if pid == 0x000B {
        ("MAP", "kPa")
    } else if pid == 0x000C {
        ("Engine RPM", "RPM")
    } else if pid == 0x000D {
        ("Vehicle Speed", "kph")
    } else if pid == 0x000E {
        ("Ignition Timing Advance", "\u{b0}")
    } else if pid == 0x000F {
        ("IAT", "\u{b0}C")
    } else if pid == 0x0010 {
        ("MAF", "g/s")
    } else if pid == 0x0011 {
        ("Throttle Position", "%")
    } else if pid == 0x0014 {
        ("O2 B1S1 (OBD)", "V")
    } else if pid == 0x0015 {
        ("O2 B1S2 (OBD)", "V")
    } else if pid == 0x0018 {
        ("O2 B2S1 (OBD)", "V")
    } else if pid == 0x0019 {
        ("O2 B2S2 (OBD)", "V")
    } else if pid == 0x001C {
        ("OBD Standards", "raw")
    } else if pid == 0x001F {
        ("Engine Run Time (OBD)", "s")
    } else if pid == 0x1140 {
        ("MAF (Hi-Precision)", "g/s")
    } else if pid == 0x1141 {
        ("Ignition Voltage", "V")
    } else if pid == 0x1142 {
        ("MAP Sensor Voltage", "V")
    } else if pid == 0x1143 {
        ("TPS Voltage", "V")
    } else if pid == 0x1144 {
        ("A/C Pressure Sensor Voltage", "V")
    } else if pid == 0x1145 {
        ("O2 B1S1 (GM)", "mV")
    } else if pid == 0x1146 {
        ("O2 B1S2 (GM)", "mV")
    } else if pid == 0x1148 {
        ("O2 B2S1 (GM)", "mV")
    } else if pid == 0x1149 {
        ("O2 B2S2 (GM)", "mV")
    } else if pid == 0x114B {
        ("EGR Sensor Voltage", "V")
    } else if pid == 0x114D {
        ("GEN F-Terminal Signal", "%")
    } else if pid == 0x114E {
        ("Fuel Tank Pressure Sensor", "V")
    } else if pid == 0x1151 {
        ("APP Position", "%")
    } else if pid == 0x1155 {
        ("Fuel Level Sensor (Left)", "V")
    } else if pid == 0x115C {
        ("Engine Oil Pressure", "V")
    } else if pid == 0x115E {
        ("CMP Sensor Raw", "raw")
    } else if pid == 0x116F {
        ("Startup ECT", "\u{b0}C")
    } else if pid == 0x1170 {
        ("EVAP Purge Solenoid DC", "%")
    } else if pid == 0x1171 {
        ("EGR Duty Cycle", "%")
    } else if pid == 0x1176 {
        ("IAC Learned Position", "steps")
    } else if pid == 0x1179 {
        ("IAC Current Position", "steps")
    } else if pid == 0x1190 {
        ("Fuel Trim Cell", "cell")
    } else if pid == 0x1192 {
        ("Desired Idle Speed", "RPM")
    } else if pid == 0x119D {
        ("Barometric Pressure", "kPa")
    } else if pid == 0x119E {
        ("Target A/F Ratio", ":1")
    } else if pid == 0x119F {
        ("Engine Oil Life", "%")
    } else if pid == 0x11A1 {
        ("Engine Run Time", "min")
    } else if pid == 0x11A3 {
        ("Calculated Cat Temp", "\u{b0}C")
    } else if pid == 0x11A6 {
        ("Knock Retard", "\u{b0}")
    } else if pid == 0x11BD {
        ("EGR Test Count", "raw")
    } else if pid == 0x11EA {
        ("Misfire Current Cyl 5", "cnt")
    } else if pid == 0x11EB {
        ("Misfire Current Cyl 6", "cnt")
    } else if pid == 0x11EC {
        ("Misfire Current Cyl 7", "cnt")
    } else if pid == 0x11ED {
        ("Misfire Current Cyl 8", "cnt")
    } else if pid == 0x11F8 {
        ("Misfire History Cyl 5", "cnt")
    } else if pid == 0x11F9 {
        ("Misfire History Cyl 6", "cnt")
    } else if pid == 0x11FA {
        ("Misfire History Cyl 7", "cnt")
    } else if pid == 0x11FB {
        ("Misfire History Cyl 8", "cnt")
    } else if pid == 0x1201 {
        ("Misfire Current Cyl 1", "cnt")
    } else if pid == 0x1202 {
        ("Misfire Current Cyl 2", "cnt")
    } else if pid == 0x1203 {
        ("Misfire Current Cyl 3", "cnt")
    } else if pid == 0x1204 {
        ("Misfire Current Cyl 4", "cnt")
    } else if pid == 0x1205 {
        ("Misfire History Cyl 1", "cnt")
    } else if pid == 0x1206 {
        ("Misfire History Cyl 2", "cnt")
    } else if pid == 0x1207 {
        ("Misfire History Cyl 3", "cnt")
    } else if pid == 0x1208 {
        ("Misfire History Cyl 4", "cnt")
    } else if pid == 0x1227 {
        ("Total Misfire Fail", "cnt")
    } else if pid == 0x1228 {
        ("Total Misfire Pass", "cnt")
    } else if pid == 0x122A {
        ("Cycles of Misfire Data", "cnt")
    } else if pid == 0x120A {
        ("STFT Average", "%")
    } else if pid == 0x120B {
        ("LTFT Average", "%")
    } else if pid == 0x120C {
        ("STFT Average (cell)", "%")
    } else if pid == 0x123A {
        ("LTFT Average (cell)", "%")
    } else if pid == 0x1232 {
        ("Warm-ups w/o Emission Faults", "cnt")
    } else if pid == 0x1233 {
        ("Warm-ups w/o Non-Emission Faults", "cnt")
    } else if pid == 0x1234 {
        ("Mileage Since DTC Clear", "km")
    } else if pid == 0x1250 {
        ("MAF Sensor Frequency", "Hz")
    } else if pid == 0x125A {
        ("Injector PW Bank 1", "ms")
    } else if pid == 0x125B {
        ("Injector PW Bank 2", "ms")
    } else if pid == 0x125D {
        ("Knock Retard Raw", "raw")
    } else if pid == 0x125E {
        ("Knock Count", "cnt")
    } else if pid == 0x125F {
        ("Delta Bearing", "raw")
    } else if pid == 0x12B0 {
        ("APP Normalized", "%")
    } else if pid == 0x12B1 {
        ("TP Indicated Angle", "%")
    } else if pid == 0x12B4 {
        ("APP Sensor 1 (%)", "%")
    } else if pid == 0x12B5 {
        ("APP Sensor 2 (%)", "%")
    } else if pid == 0x12B6 {
        ("APP Sensor 3 (%)", "%")
    } else if pid == 0x12B7 {
        ("TP Sensor 1 (%)", "%")
    } else if pid == 0x12B8 {
        ("TP Sensor 2 (%)", "%")
    } else if pid == 0x12B9 {
        ("TP Sensor 2 (V)", "V")
    } else if pid == 0x12BA {
        ("TP Sensor 1 (V)", "V")
    } else if pid == 0x12BB {
        ("APP Sensor 3 (V)", "V")
    } else if pid == 0x12BC {
        ("APP Sensor 2 (V)", "V")
    } else if pid == 0x12BD {
        ("APP Sensor 1 (V)", "V")
    } else if pid == 0x12C5 {
        ("Fuel Level", "%")
    } else if pid == 0x12E3 {
        ("Fuel Tank Pressure (EVAP)", "mmHg")
    } else if pid == 0x12F3 {
        ("Ethanol Content", "%")
    } else if pid == 0x12F7 {
        ("Desired IAC Position", "counts")
    } else if pid == 0x131D {
        ("Fuel Tank Capacity", "L")
    } else if pid == 0x131E {
        ("TP Desired Angle", "%")
    } else if pid == 0x131F {
        ("APP Indicated Angle", "%")
    } else if pid == 0x132A {
        ("Fuel Remaining", "L")
    } else if pid == 0x132B {
        ("CMP High-to-Low", "cnt")
    } else if pid == 0x132C {
        ("CMP Low-to-High", "cnt")
    } else if pid == 0x1336 {
        ("Torque Request", "N\u{b7}m")
    } else if pid == 0x1337 {
        ("Torque Delivered", "N\u{b7}m")
    } else if pid == 0x1338 {
        ("Fuel Level Sensor Right", "V")
    } else if pid == 0x139C {
        ("Ethanol Sensor Frequency", "Hz")
    } else if pid == 0x1482 {
        ("HO2S Heater B1S1", "A")
    } else if pid == 0x1484 {
        ("HO2S Heater B2S1", "A")
    } else if pid == 0x1485 {
        ("HO2S Heater B1S2", "A")
    } else if pid == 0x1617 {
        ("Desired IAC Airflow", "g/s")
    } else if pid == 0x1926 {
        ("TCC Mode", "raw")
    } else if pid == 0x192C {
        ("Trans Range", "raw")
    } else if pid == 0x1940 {
        ("Trans Fluid Temp", "\u{b0}C")
    } else if pid == 0x1941 {
        ("Input Shaft Speed", "raw")
    } else if pid == 0x199A {
        ("Current Gear", "gear")
    } else if pid == 0x19F4 {
        ("Trans Ratio", "raw")
    } else if pid == 0x19F5 {
        ("Trans Gear (P59)", "gear")
    } else if pid == 0xFC05 {
        ("EGR PWM Duty Cycle", "%")
    } else {
        ("Unknown PID", "raw")
    }
}

/// Display unit of a PID.
pub fn pid_unit(pid: u16) -> (r: &'static str)
    ensures
        r@ == spec_pid_meta(pid).1,
{
    pid_meta_entry(pid).1
}

/// Display name of a PID.
pub fn pid_name(pid: u16) -> (r: &'static str)
    ensures
        r@ == spec_pid_meta(pid).0,
{
    pid_meta_entry(pid).0
}

/// Metadata for a PID entry: display name, unit and byte width.
#[derive(Clone, Copy, Debug)]
pub struct PidMeta {
    pub pid: u16,
    pub name: &'static str,
    pub unit: &'static str,
    pub bytes: u8,
}

/// The metadata of a PID with the given byte width.
pub fn pid_meta(pid: u16, bytes: u8) -> (r: PidMeta)
    ensures
        r.pid == pid,
        r.name@ == spec_pid_meta(pid).0,
        r.unit@ == spec_pid_meta(pid).1,
        r.bytes == bytes,
{
    let (name, unit) = pid_meta_entry(pid);
    PidMeta { pid, name, unit, bytes }
}

pub open spec fn spec_fuel_status(raw: Seq<u8>) -> Seq<char> {
    if raw.len() == 0 {
        "Unknown"@
    } else if raw[0] == 1 {
        "Open Loop"@
    } else if raw[0] == 2 {
        "Closed Loop"@
    } else if raw[0] == 4 {
        "Open Loop - Fault"@
    } else if raw[0] == 8 {
        "Open Loop - Low Temp"@
    } else {
        "Unknown"@
    }
}

/// PID 0x03 fuel system status of bank 1 as text.
pub fn decode_fuel_system_status_str(raw: &[u8]) -> (r: &'static str)
    ensures
        r@ == spec_fuel_status(raw@),
{
    if raw.len() == 0 {
        "Unknown"
    } else if raw[0] == 1 {
        "Open Loop"
    } else if raw[0] == 2 {
        "Closed Loop"
    } else if raw[0] == 4 {
        "Open Loop - Fault"
    } else if raw[0] == 8 {
        "Open Loop - Low Temp"
    } else {
        "Unknown"
    }
}

/// Bit `k` of `b` is set.
pub open spec fn bit_set(b: u8, k: u8) -> bool {
    ((b as nat) / pow2_u8(k)) % 2 == 1
}

pub open spec fn pow2_u8(k: u8) -> nat {
    if k == 0 {
        1
    } else if k == 1 {
        2
    } else if k == 2 {
        4
    } else if k == 3 {
        8
    } else if k == 4 {
        16
    } else if k == 5 {
        32
    } else if k == 6 {
        64
    } else {
        128
    }
}

fn bit(b: u8, k: u8) -> (r: bool)
    requires
        k < 8,
    ensures
        r == bit_set(b, k),
{
    let m: u8 = if k == 0 {
        1
    } else if k == 1 {
        2
    } else if k == 2 {
        4
    } else if k == 3 {
        8
    } else if k == 4 {
        16
    } else if k == 5 {
        32
    } else if k == 6 {
        64
    } else {
        128
    };
    (b / m) % 2 == 1
}

/// Flag register of PID 0x1100 (A/C and PCM status byte).
#[derive(Clone, Copy, Debug, PartialEq, Eq, Structural)]
pub struct Pid1100Flags {
    pub ac_request: bool,
    pub ac_clutch_feedback: bool,
    pub pcm_reset: bool,
    pub ac_relay_command: bool,
    pub gen_l_terminal: bool,
}

pub fn decode_pid1100(raw: &[u8]) -> (r: Option<Pid1100Flags>)
    ensures
        raw@.len() == 0 ==> r is None,
        raw@.len() > 0 ==> (r matches Some(f) && f.ac_request == bit_set(raw@[0], 0)),
        raw@.len() > 0 ==> (r matches Some(f) && f.ac_clutch_feedback == bit_set(raw@[0], 1)),
        raw@.len() > 0 ==> (r matches Some(f) && f.pcm_reset == bit_set(raw@[0], 2)),
        raw@.len() > 0 ==> (r matches Some(f) && f.ac_relay_command == bit_set(raw@[0], 3)),
        raw@.len() > 0 ==> (r matches Some(f) && f.gen_l_terminal == bit_set(raw@[0], 7)),
{
    if raw.len() == 0 {
        return None;
    }
    let b = raw[0];
    Some(Pid1100Flags {
        ac_request: bit(b, 0),
        ac_clutch_feedback: bit(b, 1),
        pcm_reset: bit(b, 2),
        ac_relay_command: bit(b, 3),
        gen_l_terminal: bit(b, 7),
    })
}

/// Flag register of PID 0x1102 (TCC, traction and brake status byte).
#[derive(Clone, Copy, Debug, PartialEq, Eq, Structural)]
pub struct Pid1102Flags {
    pub traction_control_active: bool,
    pub vtd_fuel_disable: bool,
    pub tcc_enable_solenoid: bool,
    pub tcc_cruise_brake: bool,
    pub powertrain_chassis_pitch: bool,
    pub extended_travel_brake: bool,
}

pub fn decode_pid1102(raw: &[u8]) -> (r: Option<Pid1102Flags>)
    ensures
        raw@.len() == 0 ==> r is None,
        raw@.len() > 0 ==> (r matches Some(f) && f.traction_control_active == bit_set(raw@[0], 0)),
        raw@.len() > 0 ==> (r matches Some(f) && f.vtd_fuel_disable == bit_set(raw@[0], 1)),
        raw@.len() > 0 ==> (r matches Some(f) && f.tcc_enable_solenoid == bit_set(raw@[0], 2)),
        raw@.len() > 0 ==> (r matches Some(f) && f.tcc_cruise_brake == bit_set(raw@[0], 3)),
        raw@.len() > 0 ==> (r matches Some(f) && f.powertrain_chassis_pitch == bit_set(raw@[0], 5)),
        raw@.len() > 0 ==> (r matches Some(f) && f.extended_travel_brake == bit_set(raw@[0], 6)),
{
    if raw.len() == 0 {
        return None;
    }
    let b = raw[0];
    Some(Pid1102Flags {
        traction_control_active: bit(b, 0),
        vtd_fuel_disable: bit(b, 1),
        tcc_enable_solenoid: bit(b, 2),
        tcc_cruise_brake: bit(b, 3),
        powertrain_chassis_pitch: bit(b, 5),
        extended_travel_brake: bit(b, 6),
    })
}

/// Flag register of PID 0x1103 (MIL, oil level, reduced power).
#[derive(Clone, Copy, Debug, PartialEq, Eq, Structural)]
pub struct Pid1103Flags {
    pub mil_command: bool,
    pub oil_level_low: bool,
    pub reduced_engine_power: bool,
}

pub fn decode_pid1103(raw: &[u8]) -> (r: Option<Pid1103Flags>)
    ensures
        raw@.len() == 0 ==> r is None,
        raw@.len() > 0 ==> (r matches Some(f) && f.mil_command == bit_set(raw@[0], 1)),
        raw@.len() > 0 ==> (r matches Some(f) && f.oil_level_low == bit_set(raw@[0], 5)),
        raw@.len() > 0 ==> (r matches Some(f) && f.reduced_engine_power == bit_set(raw@[0], 7)),
{
    if raw.len() == 0 {
        return None;
    }
    let b = raw[0];
    Some(Pid1103Flags {
        mil_command: bit(b, 1),
        oil_level_low: bit(b, 5),
        reduced_engine_power: bit(b, 7),
    })
}

/// Flag register of PID 0x1105 (loop status, fuel trim learn, cold start, decel).
#[derive(Clone, Copy, Debug, PartialEq, Eq, Structural)]
pub struct Pid1105Flags {
    pub closed_loop: bool,
    pub fuel_trim_learn: bool,
    pub cold_startup: bool,
    pub decel: bool,
}

pub fn decode_pid1105(raw: &[u8]) -> (r: Option<Pid1105Flags>)
    ensures
        raw@.len() == 0 ==> r is None,
        raw@.len() > 0 ==> (r matches Some(f) && f.closed_loop == bit_set(raw@[0], 0)),
        raw@.len() > 0 ==> (r matches Some(f) && f.fuel_trim_learn == bit_set(raw@[0], 5)),
        raw@.len() > 0 ==> (r matches Some(f) && f.cold_startup == bit_set(raw@[0], 6)),
        raw@.len() > 0 ==> (r matches Some(f) && f.decel == bit_set(raw@[0], 7)),
{
    if raw.len() == 0 {
        return None;
    }
    let b = raw[0];
    Some(Pid1105Flags {
        closed_loop: bit(b, 0),
        fuel_trim_learn: bit(b, 5),
        cold_startup: bit(b, 6),
        decel: bit(b, 7),
    })
}

/// Flag register of PID 0x1116 (cruise and throttle switch inputs).
#[derive(Clone, Copy, Debug, PartialEq, Eq, Structural)]
pub struct Pid1116Flags {
    pub cruise_on_off: bool,
    pub stoplamp_pedal: bool,
    pub cruise_set_coast: bool,
    pub cruise_resume_accel: bool,
    pub tp_sensors_agree: bool,
    pub app_sensors_agree: bool,
}

pub fn decode_pid1116(raw: &[u8]) -> (r: Option<Pid1116Flags>)
    ensures
        raw@.len() == 0 ==> r is None,
        raw@.len() > 0 ==> (r matches Some(f) && f.cruise_on_off == bit_set(raw@[0], 0)),
        raw@.len() > 0 ==> (r matches Some(f) && f.stoplamp_pedal == bit_set(raw@[0], 1)),
        raw@.len() > 0 ==> (r matches Some(f) && f.cruise_set_coast == bit_set(raw@[0], 4)),
        raw@.len() > 0 ==> (r matches Some(f) && f.cruise_resume_accel == bit_set(raw@[0], 6)),
        raw@.len() > 0 ==> (r matches Some(f) && f.tp_sensors_agree == bit_set(raw@[0], 5)),
        raw@.len() > 0 ==> (r matches Some(f) && f.app_sensors_agree == bit_set(raw@[0], 3)),
{
    if raw.len() == 0 {
        return None;
    }
    let b = raw[0];
    Some(Pid1116Flags {
        cruise_on_off: bit(b, 0),
        stoplamp_pedal: bit(b, 1),
        cruise_set_coast: bit(b, 4),
        cruise_resume_accel: bit(b, 6),
        tp_sensors_agree: bit(b, 5),
        app_sensors_agree: bit(b, 3),
    })
}

} // verus!
