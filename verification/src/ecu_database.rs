//! The database of known ECU families: lookup by family, OS id or image size,
//! and the start tables an image size suggests. The entries come from the
//! caller (they are read from the family JSON files outside the library).
use vstd::prelude::*;
use crate::text::{contains, contains_chars, str_chars, str_to_string, upper_seq, upper_vec, eq_chars, push_str, push_chars};
use crate::xdf::TableDef;

verus! {

/// How the image checksum of a family is corrected.
#[derive(Debug)]
pub struct ChecksumInfo {
    pub kind: String,
    pub description: String,
    pub reference_files: Vec<String>,
    pub routine: Option<String>,
    pub notes: Option<String>,
}

/// How the security access of a family works.
#[derive(Debug)]
pub struct SecurityInfo {
    pub kind: String,
    pub reference: String,
    pub levels: Vec<String>,
}

/// Definition files and refined map addresses of a family. The refined map
/// addresses are the string-valued entries of the JSON object, in order.
#[derive(Debug)]
pub struct MapsXdfInfo {
    pub has_xdf: bool,
    pub xdf_file: Option<String>,
    pub description: String,
    pub kernel_for_flash: Option<String>,
    pub additional_defs: Option<Vec<String>>,
    pub eeprom: Option<String>,
    pub refined_map_addrs: Option<Vec<(String, String)>>,
}

/// One ECU family. The flash memory map is kept as JSON text.
#[derive(Debug)]
pub struct EcuDbEntry {
    pub ecu_family: String,
    pub display_name: String,
    pub part_numbers_or_os_ids: Vec<String>,
    pub vehicles: Vec<String>,
    pub hardware: String,
    pub protocol: String,
    pub bin_size_bytes: u32,
    pub flash_memory_map: Option<String>,
    pub checksum: ChecksumInfo,
    pub security_access: SecurityInfo,
    pub maps_and_xdf: MapsXdfInfo,
    pub communication_kernels: Option<Vec<String>>,
    pub notes: String,
}

// ── Views and copies ────────────────────────────────────────────────────────

pub open spec fn strs(v: Seq<String>) -> Seq<Seq<char>> {
    Seq::new(v.len(), |i: int| v[i]@)
}

pub open spec fn opt_str(o: Option<String>) -> Option<Seq<char>> {
    match o {
        Some(s) => Some(s@),
        None => None,
    }
}

pub open spec fn opt_strs(o: Option<Vec<String>>) -> Option<Seq<Seq<char>>> {
    match o {
        Some(v) => Some(strs(v@)),
        None => None,
    }
}

pub open spec fn pairs(v: Seq<(String, String)>) -> Seq<(Seq<char>, Seq<char>)> {
    Seq::new(v.len(), |i: int| (v[i].0@, v[i].1@))
}

pub open spec fn opt_pairs(o: Option<Vec<(String, String)>>) -> Option<Seq<(Seq<char>, Seq<char>)>> {
    match o {
        Some(v) => Some(pairs(v@)),
        None => None,
    }
}

/// Two entries hold the same text and values.
pub open spec fn same_entry(a: EcuDbEntry, b: EcuDbEntry) -> bool {
    &&& a.ecu_family@ == b.ecu_family@ && a.display_name@ == b.display_name@
    &&& strs(a.part_numbers_or_os_ids@) == strs(b.part_numbers_or_os_ids@)
    &&& strs(a.vehicles@) == strs(b.vehicles@)
    &&& a.hardware@ == b.hardware@ && a.protocol@ == b.protocol@
    &&& a.bin_size_bytes == b.bin_size_bytes
    &&& opt_str(a.flash_memory_map) == opt_str(b.flash_memory_map)
    &&& a.checksum.kind@ == b.checksum.kind@ && a.checksum.description@ == b.checksum.description@
    &&& strs(a.checksum.reference_files@) == strs(b.checksum.reference_files@)
    &&& opt_str(a.checksum.routine) == opt_str(b.checksum.routine)
    &&& opt_str(a.checksum.notes) == opt_str(b.checksum.notes)
    &&& a.security_access.kind@ == b.security_access.kind@
    &&& a.security_access.reference@ == b.security_access.reference@
    &&& strs(a.security_access.levels@) == strs(b.security_access.levels@)
    &&& a.maps_and_xdf.has_xdf == b.maps_and_xdf.has_xdf
    &&& opt_str(a.maps_and_xdf.xdf_file) == opt_str(b.maps_and_xdf.xdf_file)
    &&& a.maps_and_xdf.description@ == b.maps_and_xdf.description@
    &&& opt_str(a.maps_and_xdf.kernel_for_flash) == opt_str(b.maps_and_xdf.kernel_for_flash)
    &&& opt_strs(a.maps_and_xdf.additional_defs) == opt_strs(b.maps_and_xdf.additional_defs)
    &&& opt_str(a.maps_and_xdf.eeprom) == opt_str(b.maps_and_xdf.eeprom)
    &&& opt_pairs(a.maps_and_xdf.refined_map_addrs) == opt_pairs(b.maps_and_xdf.refined_map_addrs)
    &&& opt_strs(a.communication_kernels) == opt_strs(b.communication_kernels)
    &&& a.notes@ == b.notes@
}

fn copy_str(s: &String) -> (r: String)
    ensures
        r@ == s@,
{
    str_to_string(s.as_str())
}

fn copy_strs(v: &Vec<String>) -> (r: Vec<String>)
    ensures
        strs(r@) == strs(v@),
{
    let mut out: Vec<String> = Vec::new();
    let mut i: usize = 0;
    while i < v.len()
        invariant
            i <= v@.len(),
            out@.len() == i,
            forall|k: int| 0 <= k < i ==> (#[trigger] out@[k])@ == v@[k]@,
        decreases v.len() - i,
    {
        out.push(copy_str(&v[i]));
        i += 1;
    }
    assert(strs(out@) =~= strs(v@));
    out
}

fn copy_opt_str(o: &Option<String>) -> (r: Option<String>)
    ensures
        opt_str(r) == opt_str(*o),
{
    match o {
        Some(s) => Some(copy_str(s)),
        None => None,
    }
}

fn copy_opt_strs(o: &Option<Vec<String>>) -> (r: Option<Vec<String>>)
    ensures
        opt_strs(r) == opt_strs(*o),
{
    match o {
        Some(v) => Some(copy_strs(v)),
        None => None,
    }
}

fn copy_opt_pairs(o: &Option<Vec<(String, String)>>) -> (r: Option<Vec<(String, String)>>)
    ensures
        opt_pairs(r) == opt_pairs(*o),
{
    match o {
        Some(v) => {
            let mut out: Vec<(String, String)> = Vec::new();
            let mut i: usize = 0;
            while i < v.len()
                invariant
                    i <= v@.len(),
                    out@.len() == i,
                    forall|k: int| 0 <= k < i ==> (#[trigger] out@[k]).0@ == v@[k].0@ && out@[k].1@ == v@[k].1@,
                decreases v.len() - i,
            {
                out.push((copy_str(&v[i].0), copy_str(&v[i].1)));
                i += 1;
            }
            assert(pairs(out@) =~= pairs(v@));
            Some(out)
        },
        None => None,
    }
}

/// A copy of an entry.
pub fn copy_entry(e: &EcuDbEntry) -> (r: EcuDbEntry)
    ensures
        same_entry(r, *e),
{
    EcuDbEntry {
        ecu_family: copy_str(&e.ecu_family),
        display_name: copy_str(&e.display_name),
        part_numbers_or_os_ids: copy_strs(&e.part_numbers_or_os_ids),
        vehicles: copy_strs(&e.vehicles),
        hardware: copy_str(&e.hardware),
        protocol: copy_str(&e.protocol),
        bin_size_bytes: e.bin_size_bytes,
        flash_memory_map: copy_opt_str(&e.flash_memory_map),
        checksum: ChecksumInfo {
            kind: copy_str(&e.checksum.kind),
            description: copy_str(&e.checksum.description),
            reference_files: copy_strs(&e.checksum.reference_files),
            routine: copy_opt_str(&e.checksum.routine),
            notes: copy_opt_str(&e.checksum.notes),
        },
        security_access: SecurityInfo {
            kind: copy_str(&e.security_access.kind),
            reference: copy_str(&e.security_access.reference),
            levels: copy_strs(&e.security_access.levels),
        },
        maps_and_xdf: MapsXdfInfo {
            has_xdf: e.maps_and_xdf.has_xdf,
            xdf_file: copy_opt_str(&e.maps_and_xdf.xdf_file),
            description: copy_str(&e.maps_and_xdf.description),
            kernel_for_flash: copy_opt_str(&e.maps_and_xdf.kernel_for_flash),
            additional_defs: copy_opt_strs(&e.maps_and_xdf.additional_defs),
            eeprom: copy_opt_str(&e.maps_and_xdf.eeprom),
            refined_map_addrs: copy_opt_pairs(&e.maps_and_xdf.refined_map_addrs),
        },
        communication_kernels: copy_opt_strs(&e.communication_kernels),
        notes: copy_str(&e.notes),
    }
}

// ── Lookup ──────────────────────────────────────────────────────────────────

/// The family names, in database order.
pub fn list_supported_ecu_families(db: &[EcuDbEntry]) -> (r: Vec<String>)
    ensures
        r@.len() == db@.len(),
        forall|i: int| 0 <= i < db@.len() ==> (#[trigger] r@[i])@ == db@[i].ecu_family@,
{
    let mut out: Vec<String> = Vec::new();
    let mut i: usize = 0;
    while i < db.len()
        invariant
            i <= db@.len(),
            out@.len() == i,
            forall|k: int| 0 <= k < i ==> (#[trigger] out@[k])@ == db@[k].ecu_family@,
        decreases db.len() - i,
    {
        out.push(copy_str(&db[i].ecu_family));
        i += 1;
    }
    out
}

/// The families with a live write path.
pub open spec fn spec_write_path_live(family: Seq<char>) -> bool {
    family == "P01_0411"@ || family == "EDC16C41"@
}

/// Whether a family has a live write path (P01_0411 and EDC16C41 only).
pub fn write_path_live(family: &str) -> (r: bool)
    ensures
        r == spec_write_path_live(family@),
{
    let f = str_chars(family);
    let a = str_chars("P01_0411");
    let b = str_chars("EDC16C41");
    eq_chars(f.as_slice(), a.as_slice()) || eq_chars(f.as_slice(), b.as_slice())
}

/// The families with a live write path.
pub fn write_families() -> (r: Vec<String>)
    ensures
        r@.len() == 2,
        r@[0]@ == "P01_0411"@,
        r@[1]@ == "EDC16C41"@,
{
    vec![str_to_string("P01_0411"), str_to_string("EDC16C41")]
}

/// The catalog status of a family.
pub fn catalog_status(family: &str) -> (r: &'static str)
    ensures
        spec_write_path_live(family@) ==> r@ == "write path live"@,
        !spec_write_path_live(family@) ==> r@ == "identify/report \u{2014} write blocked until measured corrector"@,
{
    if write_path_live(family) {
        "write path live"
    } else {
        "identify/report \u{2014} write blocked until measured corrector"
    }
}

/// The first entry of `db` (from index `i`) that `p` accepts.
pub open spec fn first_where(db: Seq<EcuDbEntry>, p: spec_fn(EcuDbEntry) -> bool, i: nat) -> Option<nat>
    decreases db.len() - i,
{
    if i >= db.len() {
        None
    } else if p(db[i as int]) {
        Some(i)
    } else {
        first_where(db, p, i + 1)
    }
}

/// The entry at the index that `first_where` gives, copied.
pub open spec fn found_as(db: Seq<EcuDbEntry>, p: spec_fn(EcuDbEntry) -> bool, r: Option<EcuDbEntry>) -> bool {
    match first_where(db, p, 0) {
        Some(i) => r matches Some(e) && same_entry(e, db[i as int]),
        None => r is None,
    }
}

/// `eq_ignore_ascii_case`.
pub open spec fn eq_ignore_case(a: Seq<char>, b: Seq<char>) -> bool {
    upper_seq(a) == upper_seq(b)
}

pub open spec fn family_is(family: Seq<char>) -> spec_fn(EcuDbEntry) -> bool {
    |e: EcuDbEntry| eq_ignore_case(e.ecu_family@, family)
}

pub fn eq_ignore_ascii_case(a: &str, b: &str) -> (r: bool)
    ensures
        r == eq_ignore_case(a@, b@),
{
    let ua = upper_vec(str_chars(a).as_slice());
    let ub = upper_vec(str_chars(b).as_slice());
    eq_chars(ua.as_slice(), ub.as_slice())
}

/// The entry whose family name equals `family`, ignoring ASCII case.
pub fn get_ecu_by_family(db: &[EcuDbEntry], family: &str) -> (r: Option<EcuDbEntry>)
    ensures
        found_as(db@, family_is(family@), r),
{
    let ghost p = family_is(family@);
    let mut i: usize = 0;
    while i < db.len()
        invariant
            i <= db@.len(),
            p == family_is(family@),
            first_where(db@, p, 0) == first_where(db@, p, i as nat),
        decreases db.len() - i,
    {
        if eq_ignore_ascii_case(db[i].ecu_family.as_str(), family) {
            return Some(copy_entry(&db[i]));
        }
        i += 1;
    }
    None
}

/// An entry matches an OS id when one of its part numbers or OS ids, or its
/// display name, contains the id, all upper-cased.
pub open spec fn os_id_matches(e: EcuDbEntry, os: Seq<char>) -> bool {
    ||| exists|k: int| 0 <= k < e.part_numbers_or_os_ids@.len()
        && contains(upper_seq(#[trigger] e.part_numbers_or_os_ids@[k]@), upper_seq(os))
    ||| contains(upper_seq(e.display_name@), upper_seq(os))
}

pub open spec fn os_id_is(os: Seq<char>) -> spec_fn(EcuDbEntry) -> bool {
    |e: EcuDbEntry| os_id_matches(e, os)
}

fn matches_os_id(e: &EcuDbEntry, os_up: &Vec<char>, Ghost(os): Ghost<Seq<char>>) -> (r: bool)
    requires
        os_up@ == upper_seq(os),
    ensures
        r == os_id_matches(*e, os),
{
    let mut k: usize = 0;
    while k < e.part_numbers_or_os_ids.len()
        invariant
            k <= e.part_numbers_or_os_ids@.len(),
            os_up@ == upper_seq(os),
            forall|q: int| 0 <= q < k ==> !contains(upper_seq(#[trigger] e.part_numbers_or_os_ids@[q]@), upper_seq(os)),
        decreases e.part_numbers_or_os_ids.len() - k,
    {
        let id_up = upper_vec(str_chars(e.part_numbers_or_os_ids[k].as_str()).as_slice());
        if contains_chars(id_up.as_slice(), os_up.as_slice()) {
            return true;
        }
        k += 1;
    }
    let name_up = upper_vec(str_chars(e.display_name.as_str()).as_slice());
    contains_chars(name_up.as_slice(), os_up.as_slice())
}

/// The first entry that an OS id (or part number) matches.
pub fn get_ecu_by_os_id(db: &[EcuDbEntry], os_id: &str) -> (r: Option<EcuDbEntry>)
    ensures
        found_as(db@, os_id_is(os_id@), r),
{
    let ghost p = os_id_is(os_id@);
    let os_up = upper_vec(str_chars(os_id).as_slice());
    let mut i: usize = 0;
    while i < db.len()
        invariant
            i <= db@.len(),
            os_up@ == upper_seq(os_id@),
            p == os_id_is(os_id@),
            first_where(db@, p, 0) == first_where(db@, p, i as nat),
        decreases db.len() - i,
    {
        if matches_os_id(&db[i], &os_up, Ghost(os_id@)) {
            return Some(copy_entry(&db[i]));
        }
        i += 1;
    }
    None
}

pub open spec fn size_is(size: nat) -> spec_fn(EcuDbEntry) -> bool {
    |e: EcuDbEntry| e.bin_size_bytes as nat == size
}

/// The first entry whose image size is `size` bytes.
pub fn get_ecu_by_bin_size(db: &[EcuDbEntry], size: usize) -> (r: Option<EcuDbEntry>)
    ensures
        found_as(db@, size_is(size as nat), r),
{
    let ghost p = size_is(size as nat);
    let mut i: usize = 0;
    while i < db.len()
        invariant
            i <= db@.len(),
            p == size_is(size as nat),
            first_where(db@, p, 0) == first_where(db@, p, i as nat),
        decreases db.len() - i,
    {
        if db[i].bin_size_bytes as usize == size {
            return Some(copy_entry(&db[i]));
        }
        i += 1;
    }
    None
}

// ── Start tables for an image size ──────────────────────────────────────────

/// What a table definition holds, as text.
pub struct TableSpec {
    pub id: Seq<char>,
    pub name: Seq<char>,
    pub description: Seq<char>,
    pub rows: nat,
    pub cols: nat,
    pub addr: Seq<char>,
    pub data_type: Seq<char>,
    pub math: Seq<char>,
    pub units: Seq<char>,
    pub category: Seq<char>,
}

/// `d` is the row-major, MSB-first definition that `t` describes.
pub open spec fn def_is(d: TableDef, t: TableSpec) -> bool {
    &&& d.id@ == t.id && d.name@ == t.name && d.description@ == t.description
    &&& d.rows == t.rows && d.cols == t.cols && d.addr@ == t.addr
    &&& d.data_type@ == t.data_type && d.math@ == t.math && d.units@ == t.units
    &&& d.category matches Some(c) && c@ == t.category
    &&& d.row_major && d.msb
    &&& d.row_headers is None && d.col_headers is None && d.decimals == 0 && !d.file_offset
}

fn mk(
    id: &str,
    name: &str,
    description: &str,
    rows: usize,
    cols: usize,
    addr: &str,
    data_type: &str,
    math: &str,
    units: &str,
    category: &str,
) -> (r: TableDef)
    ensures
        def_is(
            r,
            TableSpec {
                id: id@,
                name: name@,
                description: description@,
                rows: rows as nat,
                cols: cols as nat,
                addr: addr@,
                data_type: data_type@,
                math: math@,
                units: units@,
                category: category@,
            },
        ),
{
    TableDef {
        id: str_to_string(id),
        name: str_to_string(name),
        category: Some(str_to_string(category)),
        description: str_to_string(description),
        rows,
        cols,
        addr: str_to_string(addr),
        data_type: str_to_string(data_type),
        math: str_to_string(math),
        units: str_to_string(units),
        row_major: true,
        msb: true,
        row_headers: None,
        col_headers: None,
        decimals: 0,
        file_offset: false,
    }
}

/// One refined map a family entry can name: the JSON key, then the table id,
/// name, size, data type, math, units and category. The ids are distinct.
pub struct RefinedRow {
    pub key: Seq<char>,
    pub id: Seq<char>,
    pub name: Seq<char>,
    pub rows: nat,
    pub cols: nat,
    pub data_type: Seq<char>,
    pub math: Seq<char>,
    pub units: Seq<char>,
    pub category: Seq<char>,
}

pub open spec fn rr(
    key: Seq<char>,
    id: Seq<char>,
    name: Seq<char>,
    n: nat,
    math: Seq<char>,
    units: Seq<char>,
    category: Seq<char>,
) -> RefinedRow {
    RefinedRow { key, id, name, rows: n, cols: n, data_type: "UWORD"@, math, units, category }
}

pub open spec fn refined(k: int) -> RefinedRow {
    if k == 0 {
        rr("driver_wish"@, "driver-wish"@, "Driver Wish (Torque)"@, 16, "x*0.1"@, "Nm"@, "Torque"@)
    } else if k == 1 {
        rr("injection_quantity"@, "inj-quantity"@, "Injection Quantity"@, 16, "x*0.01"@, "mm3"@, "Fuel"@)
    } else if k == 2 {
        rr("boost_setpoint"@, "boost-setpoint"@, "Boost Setpoint"@, 12, "x*0.1"@, "mbar"@, "Boost"@)
    } else if k == 3 {
        rr("boost_target"@, "boost-target"@, "Boost Target"@, 12, "x*0.1"@, "mbar"@, "Boost"@)
    } else if k == 4 {
        rr("rail_pressure"@, "rail-pressure"@, "Rail Pressure"@, 12, "x"@, "bar"@, "Fuel"@)
    } else if k == 5 {
        rr("vgt_duty"@, "vgt-duty"@, "VGT Duty"@, 12, "x*0.1"@, "%"@, "Boost"@)
    } else if k == 6 {
        rr("smoke_limiter"@, "smoke-limiter"@, "Smoke Limiter"@, 10, "x*0.1"@, "%"@, "Limiters"@)
    } else if k == 7 {
        rr("egr_map"@, "egr-map"@, "EGR Map"@, 12, "x*0.1"@, "%"@, "EGR"@)
    } else if k == 8 {
        rr("torque_limiter"@, "torque-limiter"@, "Torque Limiter"@, 12, "x*0.1"@, "Nm"@, "Limiters"@)
    } else if k == 9 {
        rr("start_of_injection"@, "soi"@, "Start of Injection"@, 12, "x*0.1"@, "deg"@, "Timing"@)
    } else if k == 10 {
        rr("ignition_timing"@, "ignition-timing"@, "Ignition Timing"@, 16, "x*0.1"@, "deg"@, "Ignition"@)
    } else {
        rr("fuel_ve"@, "fuel-ve"@, "Fuel / VE"@, 16, "x*0.01"@, "%"@, "Fuel"@)
    }
}

struct RowText {
    key: &'static str,
    id: &'static str,
    name: &'static str,
    n: usize,
    math: &'static str,
    units: &'static str,
    category: &'static str,
}

fn refined_row(k: usize) -> (r: RowText)
    requires
        k < 12,
    ensures
        refined(k as int) == rr(r.key@, r.id@, r.name@, r.n as nat, r.math@, r.units@, r.category@),
{
    let (key, id, name, n, math, units, category) = if k == 0 {
        ("driver_wish", "driver-wish", "Driver Wish (Torque)", 16, "x*0.1", "Nm", "Torque")
    } else if k == 1 {
        ("injection_quantity", "inj-quantity", "Injection Quantity", 16, "x*0.01", "mm3", "Fuel")
    } else if k == 2 {
        ("boost_setpoint", "boost-setpoint", "Boost Setpoint", 12, "x*0.1", "mbar", "Boost")
    } else if k == 3 {
        ("boost_target", "boost-target", "Boost Target", 12, "x*0.1", "mbar", "Boost")
    } else if k == 4 {
        ("rail_pressure", "rail-pressure", "Rail Pressure", 12, "x", "bar", "Fuel")
    } else if k == 5 {
        ("vgt_duty", "vgt-duty", "VGT Duty", 12, "x*0.1", "%", "Boost")
    } else if k == 6 {
        ("smoke_limiter", "smoke-limiter", "Smoke Limiter", 10, "x*0.1", "%", "Limiters")
    } else if k == 7 {
        ("egr_map", "egr-map", "EGR Map", 12, "x*0.1", "%", "EGR")
    } else if k == 8 {
        ("torque_limiter", "torque-limiter", "Torque Limiter", 12, "x*0.1", "Nm", "Limiters")
    } else if k == 9 {
        ("start_of_injection", "soi", "Start of Injection", 12, "x*0.1", "deg", "Timing")
    } else if k == 10 {
        ("ignition_timing", "ignition-timing", "Ignition Timing", 16, "x*0.1", "deg", "Ignition")
    } else {
        ("fuel_ve", "fuel-ve", "Fuel / VE", 16, "x*0.01", "%", "Fuel")
    };
    RowText { key, id, name, n, math, units, category }
}

/// The value of the first pair whose key is `key`.
pub open spec fn lookup(ps: Seq<(Seq<char>, Seq<char>)>, key: Seq<char>) -> Option<Seq<char>>
    decreases ps.len(),
{
    if ps.len() == 0 {
        None
    } else if ps[0].0 == key {
        Some(ps[0].1)
    } else {
        lookup(ps.drop_first(), key)
    }
}

fn lookup_exec<'a>(ps: &'a Vec<(String, String)>, key: &str) -> (r: Option<&'a String>)
    ensures
        r matches Some(v) ==> lookup(pairs(ps@), key@) == Some(v@),
        r is None ==> lookup(pairs(ps@), key@) is None,
{
    let ghost all = pairs(ps@);
    let k = str_chars(key);
    let mut i: usize = 0;
    proof {
        assert(all.skip(0) =~= all);
    }
    while i < ps.len()
        invariant
            i <= ps@.len(),
            all == pairs(ps@),
            k@ == key@,
            lookup(all, key@) == lookup(all.skip(i as int), key@),
        decreases ps.len() - i,
    {
        proof {
            assert(all.skip(i as int).drop_first() =~= all.skip(i + 1));
            assert(all.skip(i as int)[0] == (ps@[i as int].0@, ps@[i as int].1@));
        }
        let name = str_chars(ps[i].0.as_str());
        if eq_chars(name.as_slice(), k.as_slice()) {
            return Some(&ps[i].1);
        }
        i += 1;
    }
    None
}

/// A table an entry names: the row, the family and the address text.
pub type Cand = (int, Seq<char>, Seq<char>);

pub open spec fn row_cands(fam: Seq<char>, ps: Seq<(Seq<char>, Seq<char>)>, n: nat) -> Seq<Cand>
    decreases n,
{
    if n == 0 {
        Seq::empty()
    } else {
        let prev = row_cands(fam, ps, (n - 1) as nat);
        match lookup(ps, refined(n - 1).key) {
            Some(a) => prev.push((n - 1, fam, a)),
            None => prev,
        }
    }
}

pub open spec fn entry_cands(e: EcuDbEntry, size: nat) -> Seq<Cand> {
    if e.bin_size_bytes as nat == size {
        match e.maps_and_xdf.refined_map_addrs {
            Some(v) => row_cands(e.ecu_family@, pairs(v@), 12),
            None => Seq::empty(),
        }
    } else {
        Seq::empty()
    }
}

/// Every refined map that the entries of this image size name, in order.
pub open spec fn cands(db: Seq<EcuDbEntry>, size: nat) -> Seq<Cand>
    decreases db.len(),
{
    if db.len() == 0 {
        Seq::empty()
    } else {
        cands(db.drop_last(), size) + entry_cands(db.last(), size)
    }
}

/// The first of each table id (each row), in order.
pub open spec fn dedup(c: Seq<Cand>) -> Seq<Cand>
    decreases c.len(),
{
    if c.len() == 0 {
        Seq::empty()
    } else {
        let p = dedup(c.drop_last());
        if exists|j: int| 0 <= j < c.len() - 1 && (#[trigger] c[j]).0 == c.last().0 {
            p
        } else {
            p.push(c.last())
        }
    }
}

pub open spec fn cand_spec(c: Cand) -> TableSpec {
    let row = refined(c.0);
    TableSpec {
        id: row.id,
        name: row.name,
        description: row.name + " — "@ + c.1,
        rows: row.rows,
        cols: row.cols,
        addr: c.2,
        data_type: row.data_type,
        math: row.math,
        units: row.units,
        category: row.category,
    }
}

pub open spec fn ts(
    id: Seq<char>,
    name: Seq<char>,
    description: Seq<char>,
    rows: nat,
    cols: nat,
    addr: Seq<char>,
    data_type: Seq<char>,
    math: Seq<char>,
    units: Seq<char>,
    category: Seq<char>,
) -> TableSpec {
    TableSpec { id, name, description, rows, cols, addr, data_type, math, units, category }
}

/// The built-in start tables for images with no refined maps in the database.
pub open spec fn fallback_tables(size: nat) -> Seq<TableSpec> {
    if size == 524288 || size == 131072 {
        seq![
            ts("ve-main"@, "Main VE"@, "Volumetric efficiency main map - LS1 P01"@, 16, 16, "0x4000"@, "UBYTE"@, "x*0.5"@, "%"@, "Fuel"@),
            ts("spark-advance"@, "Spark Advance"@, "Base spark timing map"@, 12, 14, "0x2000"@, "UBYTE"@, "(x-40)/2"@, "deg"@, "Ignition"@),
            ts("idle-rpm"@, "Idle Target RPM"@, "Target idle speed vs temp"@, 1, 8, "0x1A00"@, "UWORD"@, "x"@, "RPM"@, "Idle"@),
        ]
    } else if size == 1048576 {
        seq![
            ts("ignition-timing"@, "Ignition Timing"@, "ME7 community start hint — confirm on your dump"@, 16, 16, "0x1C000"@, "UWORD"@, "x*0.1"@, "deg"@, "Ignition"@),
            ts("fuel-ve"@, "Fuel / VE"@, "ME7 community start hint — confirm on your dump"@, 16, 16, "0x1A000"@, "UWORD"@, "x*0.01"@, "%"@, "Fuel"@),
        ]
    } else if size == 2097152 {
        seq![
            ts("driver-wish"@, "Driver Wish (Torque)"@, "Driver requested torque"@, 16, 16, "0x80000"@, "UWORD"@, "x*0.1"@, "Nm"@, "Torque"@),
            ts("inj-quantity"@, "Injection Quantity"@, "IQ main map"@, 16, 16, "0x82000"@, "UWORD"@, "x*0.01"@, "mm3"@, "Fuel"@),
        ]
    } else {
        Seq::empty()
    }
}

/// The start tables for an image of `size` bytes: the refined maps that the
/// database entries of that size name (first of each id), else the built-in
/// hints for the size.
pub open spec fn tables_for_size(db: Seq<EcuDbEntry>, size: nat) -> Seq<TableSpec> {
    let d = dedup(cands(db, size));
    if d.len() > 0 {
        Seq::new(d.len(), |i: int| cand_spec(d[i]))
    } else {
        fallback_tables(size)
    }
}

fn fallback_exec(size: usize) -> (r: Vec<TableDef>)
    ensures
        r@.len() == fallback_tables(size as nat).len(),
        forall|i: int| 0 <= i < r@.len() ==> def_is(#[trigger] r@[i], fallback_tables(size as nat)[i]),
{
    if size == 524288 || size == 131072 {
        vec![
            mk("ve-main", "Main VE", "Volumetric efficiency main map - LS1 P01", 16, 16, "0x4000", "UBYTE", "x*0.5", "%", "Fuel"),
            mk("spark-advance", "Spark Advance", "Base spark timing map", 12, 14, "0x2000", "UBYTE", "(x-40)/2", "deg", "Ignition"),
            mk("idle-rpm", "Idle Target RPM", "Target idle speed vs temp", 1, 8, "0x1A00", "UWORD", "x", "RPM", "Idle"),
        ]
    } else if size == 1048576 {
        vec![
            mk("ignition-timing", "Ignition Timing", "ME7 community start hint — confirm on your dump", 16, 16, "0x1C000", "UWORD", "x*0.1", "deg", "Ignition"),
            mk("fuel-ve", "Fuel / VE", "ME7 community start hint — confirm on your dump", 16, 16, "0x1A000", "UWORD", "x*0.01", "%", "Fuel"),
        ]
    } else if size == 2097152 {
        vec![
            mk("driver-wish", "Driver Wish (Torque)", "Driver requested torque", 16, 16, "0x80000", "UWORD", "x*0.1", "Nm", "Torque"),
            mk("inj-quantity", "Injection Quantity", "IQ main map", 16, 16, "0x82000", "UWORD", "x*0.01", "mm3", "Fuel"),
        ]
    } else {
        Vec::new()
    }
}

fn mk_refined(k: usize, row: &RowText, fam: &String, addr: &String) -> (r: TableDef)
    requires
        refined(k as int) == rr(row.key@, row.id@, row.name@, row.n as nat, row.math@, row.units@, row.category@),
    ensures
        def_is(r, cand_spec((k as int, fam@, addr@))),
{
    let mut description = str_to_string(row.name);
    push_str(&mut description, " — ");
    push_str(&mut description, fam.as_str());
    TableDef {
        id: str_to_string(row.id),
        name: str_to_string(row.name),
        category: Some(str_to_string(row.category)),
        description,
        rows: row.n,
        cols: row.n,
        addr: copy_str(addr),
        data_type: str_to_string("UWORD"),
        math: str_to_string(row.math),
        units: str_to_string(row.units),
        row_major: true,
        msb: true,
        row_headers: None,
        col_headers: None,
        decimals: 0,
        file_offset: false,
    }
}

/// The start tables for an image of `size` bytes: the refined maps named by
/// the database entries of that size, each table id once, else the built-in
/// hints for the size.
pub fn get_tables_for_bin_size(db: &[EcuDbEntry], size: usize) -> (r: Vec<TableDef>)
    ensures
        r@.len() == tables_for_size(db@, size as nat).len(),
        forall|i: int| 0 <= i < r@.len() ==> def_is(#[trigger] r@[i], tables_for_size(db@, size as nat)[i]),
{
    let mut tables: Vec<TableDef> = Vec::new();
    let mut seen: Vec<bool> = Vec::new();
    while seen.len() < 12
        invariant
            seen@.len() <= 12,
            forall|q: int| 0 <= q < seen@.len() ==> !#[trigger] seen@[q],
        decreases 12 - seen.len(),
    {
        seen.push(false);
    }
    let ghost mut cs: Seq<Cand> = Seq::empty();
    let mut i: usize = 0;
    proof {
        assert(db@.take(0) =~= Seq::<EcuDbEntry>::empty());
    }
    while i < db.len()
        invariant
            i <= db@.len(),
            cs == cands(db@.take(i as int), size as nat),
            seen@.len() == 12,
            forall|q: int| 0 <= q < 12 ==> (#[trigger] seen@[q] <==> exists|j: int| 0 <= j < cs.len() && (#[trigger] cs[j]).0 == q),
            tables@.len() == dedup(cs).len(),
            forall|m: int| 0 <= m < tables@.len() ==> def_is(#[trigger] tables@[m], cand_spec(dedup(cs)[m])),
        decreases db.len() - i,
    {
        let e = &db[i];
        proof {
            assert(db@.take(i + 1).drop_last() =~= db@.take(i as int));
        }
        let ghost base = cs;
        if e.bin_size_bytes as usize == size {
            match &e.maps_and_xdf.refined_map_addrs {
                Some(addrs) => {
                    let mut k: usize = 0;
                    proof {
                        assert(base + row_cands(e.ecu_family@, pairs(addrs@), 0) =~= base);
                    }
                    while k < 12
                        invariant
                            k <= 12,
                            cs == base + row_cands(e.ecu_family@, pairs(addrs@), k as nat),
                            seen@.len() == 12,
                            forall|q: int| 0 <= q < 12 ==> (#[trigger] seen@[q] <==> exists|j: int| 0 <= j < cs.len() && (#[trigger] cs[j]).0 == q),
                            tables@.len() == dedup(cs).len(),
                            forall|m: int| 0 <= m < tables@.len() ==> def_is(#[trigger] tables@[m], cand_spec(dedup(cs)[m])),
                        decreases 12 - k,
                    {
                        let row = refined_row(k);
                        match lookup_exec(addrs, row.key) {
                            Some(a) => {
                                let ghost x: Cand = (k as int, e.ecu_family@, a@);
                                let ghost c2 = cs.push(x);
                                proof {
                                    assert(c2.drop_last() =~= cs);
                                    assert(base + row_cands(e.ecu_family@, pairs(addrs@), (k + 1) as nat) =~= c2);
                                }
                                if !seen[k] {
                                    let d = mk_refined(k, &row, &e.ecu_family, a);
                                    tables.push(d);
                                    seen.set(k, true);
                                    proof {
                                        assert(!exists|j: int| 0 <= j < c2.len() - 1 && (#[trigger] c2[j]).0 == c2.last().0);
                                        assert(dedup(c2) == dedup(cs).push(x));
                                    }
                                } else {
                                    proof {
                                        let j = choose|j: int| 0 <= j < cs.len() && (#[trigger] cs[j]).0 == k;
                                        assert(c2[j].0 == c2.last().0);
                                        assert(dedup(c2) == dedup(cs));
                                    }
                                }
                                proof {
                                    assert forall|q: int| 0 <= q < 12 implies (#[trigger] seen@[q] <==> exists|j: int| 0 <= j < c2.len() && (#[trigger] c2[j]).0 == q) by {
                                        if q == k {
                                            assert(c2[cs.len() as int].0 == q);
                                        } else {
                                            if exists|j: int| 0 <= j < c2.len() && (#[trigger] c2[j]).0 == q {
                                                let j = choose|j: int| 0 <= j < c2.len() && (#[trigger] c2[j]).0 == q;
                                                assert(cs[j].0 == q);
                                            }
                                        }
                                    }
                                    cs = c2;
                                }
                            },
                            None => {
                                proof {
                                    assert(base + row_cands(e.ecu_family@, pairs(addrs@), (k + 1) as nat) =~= cs);
                                }
                            },
                        }
                        k += 1;
                    }
                },
                None => {},
            }
        }
        proof {
            assert(cands(db@.take(i + 1), size as nat) =~= base + entry_cands(db@[i as int], size as nat));
        }
        i += 1;
    }
    proof {
        assert(db@.take(db@.len() as int) =~= db@);
    }
    if tables.len() > 0 {
        tables
    } else {
        fallback_exec(size)
    }
}

} // verus!
