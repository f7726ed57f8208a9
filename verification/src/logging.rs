//! Data logging: the channel set, templates that pick channels, and the CSV
//! text of a log. Sample values are real numbers kept outside the library;
//! here a sample's values arrive as their `{:.3}` text.
use vstd::prelude::*;
use crate::text::{dec, push_dec, push_str, str_chars, str_to_string, string_push, eq_chars, trim_ws, trim_chars, chars_to_string,
    lower_seq, lower_vec, is_ws, trim_end_ws, trim_start_ws, digit_char};
use crate::a2l::{split_nl, split_lines, lines_view, lemma_split_nl_len};
use crate::ecu_database::{eq_ignore_ascii_case, eq_ignore_case};

verus! {

/// A loggable channel.
#[derive(Debug)]
pub struct LogChannel {
    pub id: String,
    pub name: String,
    pub unit: String,
    pub pid: u16,
    pub enabled: bool,
}

pub open spec fn ch(id: Seq<char>, name: Seq<char>, unit: Seq<char>, pid: u16, enabled: bool) -> (Seq<char>, Seq<char>, Seq<char>, u16, bool) {
    (id, name, unit, pid, enabled)
}

/// The built-in channels: id, name, unit, PID, enabled.
pub open spec fn spec_default_channels() -> Seq<(Seq<char>, Seq<char>, Seq<char>, u16, bool)> {
    seq![
        ch("rpm"@, "Engine RPM"@, "RPM"@, 0x000C, true),
        ch("map"@, "MAP"@, "kPa"@, 0x000B, true),
        ch("ect"@, "ECT"@, "C"@, 0x0005, true),
        ch("tps"@, "TPS"@, "%"@, 0x0011, true),
        ch("iat"@, "IAT"@, "C"@, 0x000F, true),
        ch("spark"@, "Spark Advance"@, "deg"@, 0x000E, true),
        ch("stft"@, "STFT Bank1"@, "%"@, 0x0006, false),
        ch("ltft"@, "LTFT Bank1"@, "%"@, 0x0007, false),
        ch("batt"@, "Battery"@, "V"@, 0x1141, true),
        ch("inj_ms"@, "Injector PW"@, "ms"@, 0x125A, false),
        ch("egr"@, "EGR Duty"@, "%"@, 0x1171, false),
        ch("maf"@, "MAF"@, "g/s"@, 0x0010, false),
        ch("vss"@, "Vehicle Speed"@, "km/h"@, 0x000D, false),
        ch("load"@, "Engine Load"@, "%"@, 0x0004, false),
        ch("o2b1s1"@, "O2 B1S1"@, "V"@, 0x0014, false),
    ]
}

pub open spec fn chan_view(c: LogChannel) -> (Seq<char>, Seq<char>, Seq<char>, u16, bool) {
    (c.id@, c.name@, c.unit@, c.pid, c.enabled)
}

pub open spec fn chans_view(v: Seq<LogChannel>) -> Seq<(Seq<char>, Seq<char>, Seq<char>, u16, bool)> {
    Seq::new(v.len(), |i: int| chan_view(v[i]))
}

fn mkch(id: &str, name: &str, unit: &str, pid: u16, enabled: bool) -> (r: LogChannel)
    ensures
        chan_view(r) == (id@, name@, unit@, pid, enabled),
{
    LogChannel { id: str_to_string(id), name: str_to_string(name), unit: str_to_string(unit), pid, enabled }
}

/// The built-in channels.
pub fn default_channels() -> (r: Vec<LogChannel>)
    ensures
        chans_view(r@) == spec_default_channels(),
{
    let r = vec![
        mkch("rpm", "Engine RPM", "RPM", 0x000C, true),
        mkch("map", "MAP", "kPa", 0x000B, true),
        mkch("ect", "ECT", "C", 0x0005, true),
        mkch("tps", "TPS", "%", 0x0011, true),
        mkch("iat", "IAT", "C", 0x000F, true),
        mkch("spark", "Spark Advance", "deg", 0x000E, true),
        mkch("stft", "STFT Bank1", "%", 0x0006, false),
        mkch("ltft", "LTFT Bank1", "%", 0x0007, false),
        mkch("batt", "Battery", "V", 0x1141, true),
        mkch("inj_ms", "Injector PW", "ms", 0x125A, false),
        mkch("egr", "EGR Duty", "%", 0x1171, false),
        mkch("maf", "MAF", "g/s", 0x0010, false),
        mkch("vss", "Vehicle Speed", "km/h", 0x000D, false),
        mkch("load", "Engine Load", "%", 0x0004, false),
        mkch("o2b1s1", "O2 B1S1", "V", 0x0014, false),
    ];
    assert(chans_view(r@) =~= spec_default_channels());
    r
}

/// A fresh channel list gets the built-in channels and the session name
/// `log_<now_ms>`; a list that has channels is left as it is.
pub fn ensure_initialized(channels: &mut Vec<LogChannel>, session_name: &mut String, now_ms: u64)
    ensures
        old(channels)@.len() == 0 ==> chans_view(final(channels)@) == spec_default_channels() && final(session_name)@
            == "log_"@ + dec(now_ms as nat),
        old(channels)@.len() > 0 ==> final(channels)@ == old(channels)@ && final(session_name)@ == old(session_name)@,
{
    if channels.len() == 0 {
        *channels = default_channels();
        let mut s = str_to_string("log_");
        push_dec(&mut s, now_ms);
        *session_name = s;
    }
}

/// A channel set: each channel enabled exactly when `ids` names it (ASCII
/// case ignored).
pub open spec fn named(ids: Seq<Seq<char>>, id: Seq<char>) -> bool {
    exists|k: int| 0 <= k < ids.len() && eq_ignore_case(#[trigger] ids[k], id)
}

pub open spec fn strs(v: Seq<String>) -> Seq<Seq<char>> {
    Seq::new(v.len(), |i: int| v[i]@)
}

fn named_exec(ids: &[String], id: &String) -> (r: bool)
    ensures
        r == named(strs(ids@), id@),
{
    let mut k: usize = 0;
    while k < ids.len()
        invariant
            k <= ids@.len(),
            forall|q: int| 0 <= q < k ==> !eq_ignore_case(#[trigger] strs(ids@)[q], id@),
        decreases ids.len() - k,
    {
        if eq_ignore_ascii_case(ids[k].as_str(), id.as_str()) {
            assert(eq_ignore_case(strs(ids@)[k as int], id@));
            return true;
        }
        k += 1;
    }
    false
}

pub open spec fn select_ok(before: Seq<LogChannel>, after: Seq<LogChannel>, ids: Seq<Seq<char>>) -> bool {
    &&& after.len() == before.len()
    &&& forall|i: int|
        0 <= i < after.len() ==> (#[trigger] after[i]).id@ == before[i].id@ && after[i].name@ == before[i].name@
            && after[i].unit@ == before[i].unit@ && after[i].pid == before[i].pid && after[i].enabled == named(
            ids,
            before[i].id@,
        )
}

fn select_channels(channels: &mut Vec<LogChannel>, ids: &[String])
    ensures
        select_ok(old(channels)@, final(channels)@, strs(ids@)),
{
    let ghost before = channels@;
    let mut i: usize = 0;
    while i < channels.len()
        invariant
            i <= channels@.len() == before.len(),
            forall|k: int|
                0 <= k < channels@.len() ==> (#[trigger] channels@[k]).id@ == before[k].id@ && channels@[k].name@
                    == before[k].name@ && channels@[k].unit@ == before[k].unit@ && channels@[k].pid == before[k].pid,
            forall|k: int| 0 <= k < i ==> (#[trigger] channels@[k]).enabled == named(strs(ids@), before[k].id@),
        decreases channels.len() - i,
    {
        let on = named_exec(ids, &channels[i].id);
        let mut c = channels.remove(i);
        c.enabled = on;
        channels.insert(i, c);
        i += 1;
    }
}

/// Enables the channels that `enabled_ids` names (ASCII case ignored) and
/// disables the rest; when none is left enabled, the `rpm` channel is.
pub fn set_channels(channels: &mut Vec<LogChannel>, enabled_ids: &[String])
    ensures
        final(channels)@.len() == old(channels)@.len(),
        forall|i: int|
            0 <= i < final(channels)@.len() ==> (#[trigger] final(channels)@[i]).id@ == old(channels)@[i].id@
                && final(channels)@[i].name@ == old(channels)@[i].name@ && final(channels)@[i].unit@
                == old(channels)@[i].unit@ && final(channels)@[i].pid == old(channels)@[i].pid,
        (exists|i: int| 0 <= i < old(channels)@.len() && named(strs(enabled_ids@), (#[trigger] old(channels)@[i]).id@))
            ==> forall|i: int| 0 <= i < final(channels)@.len() ==> (#[trigger] final(channels)@[i]).enabled == named(
            strs(enabled_ids@),
            old(channels)@[i].id@,
        ),
        !(exists|i: int| 0 <= i < old(channels)@.len() && named(strs(enabled_ids@), (#[trigger] old(channels)@[i]).id@))
            ==> forall|i: int|
            0 <= i < final(channels)@.len() ==> (#[trigger] final(channels)@[i]).enabled == (old(channels)@[i].id@
                == "rpm"@ && forall|k: int| 0 <= k < i ==> old(channels)@[k].id@ != "rpm"@),
{
    select_channels(channels, enabled_ids);
    let ghost mid = channels@;
    let mut any = false;
    let mut i: usize = 0;
    while i < channels.len()
        invariant
            i <= channels@.len(),
            channels@ == mid,
            select_ok(old(channels)@, mid, strs(enabled_ids@)),
            any == exists|k: int| 0 <= k < i && (#[trigger] channels@[k]).enabled,
        decreases channels.len() - i,
    {
        if channels[i].enabled {
            any = true;
        }
        i += 1;
    }
    proof {
        if !any {
            assert forall|i: int| 0 <= i < old(channels)@.len() implies !named(
                strs(enabled_ids@),
                (#[trigger] old(channels)@[i]).id@,
            ) by {
                assert(!mid[i].enabled);
            }
        }
    }
    if !any {
        let mut j: usize = 0;
        while j < channels.len()
            invariant
                j <= channels@.len(),
                channels@ == mid,
                select_ok(old(channels)@, mid, strs(enabled_ids@)),
                forall|k: int| 0 <= k < mid.len() ==> !(#[trigger] mid[k]).enabled,
                forall|k: int| 0 <= k < j ==> (#[trigger] channels@[k]).id@ != "rpm"@,
            decreases channels.len() - j,
        {
            let is_rpm = eq_chars(str_chars(channels[j].id.as_str()).as_slice(), str_chars("rpm").as_slice());
            if is_rpm {
                let mut c = channels.remove(j);
                c.enabled = true;
                channels.insert(j, c);
                proof {
                    assert(channels@ =~= mid.update(j as int, channels@[j as int]));
                    assert forall|i: int| 0 <= i < old(channels)@.len() implies !named(
                        strs(enabled_ids@),
                        (#[trigger] old(channels)@[i]).id@,
                    ) by {
                        assert(!mid[i].enabled);
                    }
                    assert forall|i: int| 0 <= i < channels@.len() implies (#[trigger] channels@[i]).enabled == (
                    old(channels)@[i].id@ == "rpm"@ && forall|k: int| 0 <= k < i ==> old(channels)@[k].id@ != "rpm"@) by {
                        assert(old(channels)@[i].id@ == mid[i].id@);
                        if i < j {
                            assert(mid[i].id@ != "rpm"@);
                            assert(channels@[i] == mid[i]);
                        } else if i > j {
                            assert(channels@[i] == mid[i]);
                            assert(old(channels)@[j as int].id@ == "rpm"@);
                            assert(!(forall|k: int| 0 <= k < i ==> old(channels)@[k].id@ != "rpm"@));
                        } else {
                            assert(channels@[i].enabled);
                            assert(mid[i].id@ == "rpm"@);
                            assert forall|k: int| 0 <= k < i implies old(channels)@[k].id@ != "rpm"@ by {
                                assert(old(channels)@[k].id@ == mid[k].id@);
                                assert(mid[k].id@ != "rpm"@);
                            }
                        }
                    }
                }
                return;
            }
            j += 1;
        }
    }
}

// ── Templates ───────────────────────────────────────────────────────────────

/// A channel template. The sample rate is in whole hertz.
#[derive(Debug)]
pub struct LogTemplate {
    pub id: String,
    pub name: String,
    pub description: String,
    pub pids: Vec<String>,
    pub rate_hz: u32,
}

pub open spec fn tmpl_pids(k: int) -> Seq<Seq<char>> {
    if k == 0 {
        seq!["rpm"@, "map"@, "ect"@, "tps"@, "batt"@]
    } else if k == 1 {
        seq!["rpm"@, "map"@, "tps"@, "load"@]
    } else if k == 2 {
        seq!["rpm"@, "map"@, "tps"@, "ect"@, "maf"@, "load"@]
    } else if k == 3 {
        seq!["rpm"@, "map"@, "tps"@, "spark"@, "stft"@, "ltft"@]
    } else {
        Seq::new(spec_default_channels().len(), |i: int| spec_default_channels()[i].0)
    }
}

/// The templates: id, name, description, rate; their channel ids are `tmpl_pids`.
pub open spec fn tmpl(k: int) -> (Seq<char>, Seq<char>, Seq<char>, u32) {
    if k == 0 {
        ("base"@, "Base Street"@, "RPM MAP ECT TPS"@, 10)
    } else if k == 1 {
        ("boost"@, "Boost / Turbo"@, "MAP-focused street set (Mode 01 only)"@, 20)
    } else if k == 2 {
        ("diesel"@, "Diesel OBD"@, "Mode 01 PIDs only — no invented rail/IQ/VGT"@, 10)
    } else if k == 3 {
        ("ls1"@, "LS1 / P01"@, "LS1 set"@, 20)
    } else {
        ("full"@, "Full"@, "All channels"@, 5)
    }
}

pub open spec fn tmpl_ok(t: LogTemplate, k: int) -> bool {
    &&& (t.id@, t.name@, t.description@, t.rate_hz) == tmpl(k)
    &&& strs(t.pids@) == tmpl_pids(k)
}

fn mkstrs(v: Vec<&str>) -> (r: Vec<String>)
    ensures
        r@.len() == v@.len(),
        forall|i: int| 0 <= i < v@.len() ==> (#[trigger] r@[i])@ == v@[i]@,
{
    let mut out: Vec<String> = Vec::new();
    let mut i: usize = 0;
    while i < v.len()
        invariant
            i <= v@.len(),
            out@.len() == i,
            forall|k: int| 0 <= k < i ==> (#[trigger] out@[k])@ == v@[k]@,
        decreases v.len() - i,
    {
        out.push(str_to_string(v[i]));
        i += 1;
    }
    out
}

fn template(k: usize) -> (r: LogTemplate)
    requires
        k < 5,
    ensures
        tmpl_ok(r, k as int),
{
    let (id, name, description, rate_hz) = if k == 0 {
        ("base", "Base Street", "RPM MAP ECT TPS", 10)
    } else if k == 1 {
        ("boost", "Boost / Turbo", "MAP-focused street set (Mode 01 only)", 20)
    } else if k == 2 {
        ("diesel", "Diesel OBD", "Mode 01 PIDs only — no invented rail/IQ/VGT", 10)
    } else if k == 3 {
        ("ls1", "LS1 / P01", "LS1 set", 20)
    } else {
        ("full", "Full", "All channels", 5)
    };
    let pids: Vec<String> = if k == 0 {
        mkstrs(vec!["rpm", "map", "ect", "tps", "batt"])
    } else if k == 1 {
        mkstrs(vec!["rpm", "map", "tps", "load"])
    } else if k == 2 {
        mkstrs(vec!["rpm", "map", "tps", "ect", "maf", "load"])
    } else if k == 3 {
        mkstrs(vec!["rpm", "map", "tps", "spark", "stft", "ltft"])
    } else {
        let chans = default_channels();
        let mut ids: Vec<String> = Vec::new();
        let mut i: usize = 0;
        while i < chans.len()
            invariant
                i <= chans@.len(),
                chans_view(chans@) == spec_default_channels(),
                ids@.len() == i,
                forall|q: int| 0 <= q < i ==> (#[trigger] ids@[q])@ == spec_default_channels()[q].0,
            decreases chans.len() - i,
        {
            assert(chan_view(chans@[i as int]) == spec_default_channels()[i as int]);
            ids.push(str_to_string(chans[i].id.as_str()));
            i += 1;
        }
        ids
    };
    let t = LogTemplate {
        id: str_to_string(id),
        name: str_to_string(name),
        description: str_to_string(description),
        pids,
        rate_hz,
    };
    assert(strs(t.pids@) =~= tmpl_pids(k as int));
    t
}

/// The channel templates, in order.
pub fn list_templates() -> (r: Vec<LogTemplate>)
    ensures
        r@.len() == 5,
        forall|k: int| 0 <= k < 5 ==> tmpl_ok(#[trigger] r@[k], k),
{
    let mut out: Vec<LogTemplate> = Vec::new();
    let mut k: usize = 0;
    while k < 5
        invariant
            k <= 5,
            out@.len() == k,
            forall|q: int| 0 <= q < k ==> tmpl_ok(#[trigger] out@[q], q),
        decreases 5 - k,
    {
        out.push(template(k));
        k += 1;
    }
    out
}

pub open spec fn first_tmpl(id: Seq<char>, k: nat) -> Option<nat>
    decreases 5 - k,
{
    if k >= 5 {
        None
    } else if eq_ignore_case(tmpl(k as int).0, id) {
        Some(k)
    } else {
        first_tmpl(id, k + 1)
    }
}

/// Applies the template whose id is `template_id` (ASCII case ignored): a
/// channel is enabled exactly when the template names it. Gives the
/// template's rate in hertz, or an error for an unknown id.
pub fn apply_template(channels: &mut Vec<LogChannel>, template_id: &str) -> (r: Result<u32, String>)
    ensures
        match first_tmpl(template_id@, 0) {
            None => (r matches Err(e) && e@ == "Unknown template: "@ + template_id@) && final(channels)@ == old(channels)@,
            Some(k) => r == Ok::<u32, String>(tmpl(k as int).3) && select_ok(old(channels)@, final(channels)@, tmpl_pids(k as int)),
        },
{
    let mut k: usize = 0;
    while k < 5
        invariant
            k <= 5,
            first_tmpl(template_id@, 0) == first_tmpl(template_id@, k as nat),
            channels@ == old(channels)@,
        decreases 5 - k,
    {
        let t = template(k);
        if eq_ignore_ascii_case(t.id.as_str(), template_id) {
            select_channels(channels, t.pids.as_slice());
            return Ok(t.rate_hz);
        }
        k += 1;
    }
    let mut e = str_to_string("Unknown template: ");
    push_str(&mut e, template_id);
    Err(e)
}

// ── CSV export ──────────────────────────────────────────────────────────────

/// One logged sample: its time and the `{:.3}` text of each channel value.
#[derive(Debug)]
pub struct LogRow {
    pub timestamp_ms: u64,
    pub values: Vec<(String, String)>,
}

pub open spec fn enabled_ids(chs: Seq<LogChannel>) -> Seq<Seq<char>>
    decreases chs.len(),
{
    if chs.len() == 0 {
        Seq::empty()
    } else if chs.last().enabled {
        enabled_ids(chs.drop_last()).push(chs.last().id@)
    } else {
        enabled_ids(chs.drop_last())
    }
}

pub open spec fn value_of(vals: Seq<(String, String)>, id: Seq<char>) -> Seq<char>
    decreases vals.len(),
{
    if vals.len() == 0 {
        Seq::empty()
    } else if vals[0].0@ == id {
        vals[0].1@
    } else {
        value_of(vals.drop_first(), id)
    }
}

pub open spec fn header_cells(ids: Seq<Seq<char>>) -> Seq<char>
    decreases ids.len(),
{
    if ids.len() == 0 {
        Seq::empty()
    } else {
        header_cells(ids.drop_last()) + ","@ + ids.last()
    }
}

pub open spec fn row_cells(vals: Seq<(String, String)>, ids: Seq<Seq<char>>) -> Seq<char>
    decreases ids.len(),
{
    if ids.len() == 0 {
        Seq::empty()
    } else {
        row_cells(vals, ids.drop_last()) + ","@ + value_of(vals, ids.last())
    }
}

pub open spec fn rows_text(rows: Seq<LogRow>, ids: Seq<Seq<char>>) -> Seq<char>
    decreases rows.len(),
{
    if rows.len() == 0 {
        Seq::empty()
    } else {
        rows_text(rows.drop_last(), ids) + dec(rows.last().timestamp_ms as nat) + row_cells(rows.last().values@, ids) + "\n"@
    }
}

/// The CSV text: a `timestamp_ms` column and one column per enabled channel,
/// an empty cell where a sample has no value for the channel.
pub open spec fn spec_csv(chs: Seq<LogChannel>, rows: Seq<LogRow>) -> Seq<char> {
    let ids = enabled_ids(chs);
    "timestamp_ms"@ + header_cells(ids) + "\n"@ + rows_text(rows, ids)
}

fn value_text(vals: &Vec<(String, String)>, id: &Vec<char>) -> (r: Vec<char>)
    ensures
        r@ == value_of(vals@, id@),
{
    let mut i: usize = 0;
    proof {
        assert(vals@.skip(0) =~= vals@);
    }
    while i < vals.len()
        invariant
            i <= vals@.len(),
            value_of(vals@, id@) == value_of(vals@.skip(i as int), id@),
        decreases vals.len() - i,
    {
        proof {
            assert(vals@.skip(i as int).drop_first() =~= vals@.skip(i + 1));
        }
        let k = str_chars(vals[i].0.as_str());
        if eq_chars(k.as_slice(), id.as_slice()) {
            return str_chars(vals[i].1.as_str());
        }
        i += 1;
    }
    Vec::new()
}

/// The log as CSV text, or an error when there is no sample.
pub fn export_csv(channels: &[LogChannel], rows: &[LogRow]) -> (r: Result<String, String>)
    ensures
        rows@.len() == 0 ==> (r matches Err(e) && e@ == "No samples to export"@),
        rows@.len() > 0 ==> (r matches Ok(t) && t@ == spec_csv(channels@, rows@)),
{
    if rows.len() == 0 {
        return Err(str_to_string("No samples to export"));
    }
    let mut ids: Vec<Vec<char>> = Vec::new();
    let mut i: usize = 0;
    proof {
        assert(channels@.take(0) =~= Seq::<LogChannel>::empty());
    }
    while i < channels.len()
        invariant
            i <= channels@.len(),
            ids@.len() == enabled_ids(channels@.take(i as int)).len(),
            forall|q: int| 0 <= q < ids@.len() ==> (#[trigger] ids@[q])@ == enabled_ids(channels@.take(i as int))[q],
        decreases channels.len() - i,
    {
        proof {
            assert(channels@.take(i + 1).drop_last() =~= channels@.take(i as int));
        }
        if channels[i].enabled {
            ids.push(str_chars(channels[i].id.as_str()));
        }
        i += 1;
    }
    proof {
        assert(channels@.take(channels@.len() as int) =~= channels@);
    }
    let ghost iv = enabled_ids(channels@);
    let mut csv = str_to_string("timestamp_ms");
    let mut k: usize = 0;
    while k < ids.len()
        invariant
            k <= ids@.len() == iv.len(),
            forall|q: int| 0 <= q < ids@.len() ==> (#[trigger] ids@[q])@ == iv[q],
            csv@ == "timestamp_ms"@ + header_cells(iv.take(k as int)),
        decreases ids.len() - k,
    {
        proof {
            assert(iv.take(k + 1).drop_last() =~= iv.take(k as int));
            reveal_strlit(",");
        }
        string_push(&mut csv, ',');
        crate::text::push_chars(&mut csv, ids[k].as_slice());
        k += 1;
        assert(csv@ =~= "timestamp_ms"@ + header_cells(iv.take(k as int)));
    }
    proof {
        assert(iv.take(iv.len() as int) =~= iv);
        reveal_strlit("\n");
    }
    string_push(&mut csv, '\n');
    let ghost head = csv@;
    assert(head =~= "timestamp_ms"@ + header_cells(iv) + "\n"@);
    let mut r: usize = 0;
    proof {
        assert(rows@.take(0) =~= Seq::<LogRow>::empty());
    }
    while r < rows.len()
        invariant
            r <= rows@.len(),
            ids@.len() == iv.len(),
            forall|q: int| 0 <= q < ids@.len() ==> (#[trigger] ids@[q])@ == iv[q],
            csv@ == head + rows_text(rows@.take(r as int), iv),
        decreases rows.len() - r,
    {
        proof {
            assert(rows@.take(r + 1).drop_last() =~= rows@.take(r as int));
        }
        let ghost before = csv@;
        push_dec(&mut csv, rows[r].timestamp_ms);
        let ghost after_ts = csv@;
        let mut c: usize = 0;
        while c < ids.len()
            invariant
                c <= ids@.len() == iv.len(),
                r < rows@.len(),
                forall|q: int| 0 <= q < ids@.len() ==> (#[trigger] ids@[q])@ == iv[q],
                csv@ == after_ts + row_cells(rows@[r as int].values@, iv.take(c as int)),
            decreases ids.len() - c,
        {
            proof {
                assert(iv.take(c + 1).drop_last() =~= iv.take(c as int));
                reveal_strlit(",");
            }
            string_push(&mut csv, ',');
            let v = value_text(&rows[r].values, &ids[c]);
            crate::text::push_chars(&mut csv, v.as_slice());
            c += 1;
            assert(csv@ =~= after_ts + row_cells(rows@[r as int].values@, iv.take(c as int)));
        }
        proof {
            assert(iv.take(iv.len() as int) =~= iv);
            reveal_strlit("\n");
        }
        string_push(&mut csv, '\n');
        r += 1;
        assert(csv@ =~= head + rows_text(rows@.take(r as int), iv));
    }
    proof {
        assert(rows@.take(rows@.len() as int) =~= rows@);
    }
    Ok(csv)
}

// ── CSV import ──────────────────────────────────────────────────────────────

pub open spec fn trim_start_q(s: Seq<char>) -> Seq<char>
    decreases s.len(),
{
    if s.len() > 0 && s[0] == '"' {
        trim_start_q(s.drop_first())
    } else {
        s
    }
}

pub open spec fn trim_end_q(s: Seq<char>) -> Seq<char>
    decreases s.len(),
{
    if s.len() > 0 && s.last() == '"' {
        trim_end_q(s.drop_last())
    } else {
        s
    }
}

/// A CSV cell: surrounding whitespace, then surrounding quotes removed.
pub open spec fn cell_text(s: Seq<char>) -> Seq<char> {
    trim_start_q(trim_end_q(trim_ws(s)))
}

/// The text cut at each comma.
pub open spec fn split_commas(s: Seq<char>) -> Seq<Seq<char>>
    decreases s.len(),
{
    if s.len() == 0 {
        seq![Seq::empty()]
    } else {
        let p = split_commas(s.drop_last());
        if s.last() == ',' {
            p.push(Seq::empty())
        } else {
            p.update(p.len() - 1, p.last().push(s.last()))
        }
    }
}

proof fn lemma_split_commas_len(s: Seq<char>)
    ensures
        split_commas(s).len() >= 1,
    decreases s.len(),
{
    if s.len() > 0 {
        lemma_split_commas_len(s.drop_last());
    }
}

/// The cells of a CSV line.
pub open spec fn csv_cells(line: Seq<char>) -> Seq<Seq<char>> {
    Seq::new(split_commas(line).len(), |i: int| cell_text(split_commas(line)[i]))
}

fn trim_quotes_exec(s: &[char]) -> (r: Vec<char>)
    ensures
        r@ == trim_start_q(trim_end_q(s@)),
{
    let mut hi: usize = s.len();
    assert(s@.take(hi as int) == s@);
    while hi > 0 && s[hi - 1] == '"'
        invariant
            hi <= s.len(),
            trim_end_q(s@) == trim_end_q(s@.take(hi as int)),
        decreases hi,
    {
        assert(s@.take(hi as int).drop_last() == s@.take(hi - 1));
        hi -= 1;
    }
    let mut lo: usize = 0;
    let ghost e = s@.take(hi as int);
    assert(e.skip(0) == e);
    while lo < hi && s[lo] == '"'
        invariant
            lo <= hi <= s.len(),
            e == s@.take(hi as int),
            trim_start_q(e) == trim_start_q(e.skip(lo as int)),
        decreases hi - lo,
    {
        assert(e.skip(lo as int).drop_first() == e.skip(lo + 1));
        lo += 1;
    }
    let r = vstd::slice::slice_to_vec(vstd::slice::slice_subrange(s, lo, hi));
    assert(r@ == e.skip(lo as int));
    r
}

fn cell_exec(s: &[char]) -> (r: String)
    ensures
        r@ == cell_text(s@),
{
    let t = trim_chars(s);
    let q = trim_quotes_exec(t.as_slice());
    chars_to_string(q.as_slice())
}

pub open spec fn cells_view(v: Seq<String>) -> Seq<Seq<char>> {
    Seq::new(v.len(), |i: int| v[i]@)
}

/// The cells of one CSV line.
pub fn split_cells(line: &[char]) -> (r: Vec<String>)
    ensures
        cells_view(r@) == csv_cells(line@),
{
    let mut out: Vec<String> = Vec::new();
    let mut cur: Vec<char> = Vec::new();
    let mut i: usize = 0;
    let ghost mut raw: Seq<Seq<char>> = Seq::empty();
    assert(line@.take(0) =~= Seq::<char>::empty());
    while i < line.len()
        invariant
            i <= line@.len(),
            raw.push(cur@) == split_commas(line@.take(i as int)),
            out@.len() == raw.len(),
            forall|k: int| 0 <= k < raw.len() ==> (#[trigger] out@[k])@ == cell_text(raw[k]),
        decreases line.len() - i,
    {
        let c = line[i];
        proof {
            assert(line@.take(i + 1).drop_last() == line@.take(i as int));
            assert(line@.take(i + 1).last() == c);
            lemma_split_commas_len(line@.take(i as int));
        }
        if c == ',' {
            let cell = cell_exec(cur.as_slice());
            out.push(cell);
            proof {
                raw = raw.push(cur@);
            }
            cur = Vec::new();
            assert(raw.push(cur@) =~= split_commas(line@.take(i as int)).push(Seq::empty()));
        } else {
            let ghost before = cur@;
            cur.push(c);
            assert(raw.push(cur@) =~= raw.push(before).update(raw.len() as int, before.push(c)));
        }
        i += 1;
    }
    let cell = cell_exec(cur.as_slice());
    out.push(cell);
    proof {
        assert(line@.take(line@.len() as int) == line@);
        raw = raw.push(cur@);
        assert(cells_view(out@) =~= csv_cells(line@));
    }
    out
}

/// The lines of a text that hold more than whitespace.
pub open spec fn nonblank(ls: Seq<Seq<char>>) -> Seq<Seq<char>>
    decreases ls.len(),
{
    if ls.len() == 0 {
        Seq::empty()
    } else {
        let p = nonblank(ls.drop_last());
        if trim_ws(ls.last()).len() > 0 {
            p.push(ls.last())
        } else {
            p
        }
    }
}

/// The column names that hold the sample time.
pub open spec fn is_time_column(c: Seq<char>) -> bool {
    c == "timestamp_ms"@ || c == "timestamp"@ || c == "time_ms"@
}

pub open spec fn first_time_column(cols: Seq<Seq<char>>, i: nat) -> Option<nat>
    decreases cols.len() - i,
{
    if i >= cols.len() {
        None
    } else if is_time_column(cols[i as int]) {
        Some(i)
    } else {
        first_time_column(cols, i + 1)
    }
}

/// A CSV text read into cells: the lower-cased column names of the first
/// non-blank line, the cells of the other non-blank lines, and the first
/// time column.
pub struct CsvTable {
    pub columns: Vec<String>,
    pub rows: Vec<Vec<String>>,
    pub time_column: Option<usize>,
}

pub open spec fn lower_cells(c: Seq<Seq<char>>) -> Seq<Seq<char>> {
    Seq::new(c.len(), |i: int| lower_seq(c[i]))
}

pub open spec fn csv_table_ok(csv: Seq<char>, t: CsvTable) -> bool {
    let ls = nonblank(split_nl(csv));
    &&& ls.len() > 0
    &&& cells_view(t.columns@) == lower_cells(csv_cells(ls[0]))
    &&& t.rows@.len() == ls.len() - 1
    &&& forall|r: int| 0 <= r < t.rows@.len() ==> cells_view((#[trigger] t.rows@[r])@) == csv_cells(ls[r + 1])
    &&& match first_time_column(cells_view(t.columns@), 0) {
        Some(k) => t.time_column == Some(k as usize),
        None => t.time_column is None,
    }
}

fn lower_string(s: &String) -> (r: String)
    ensures
        r@ == lower_seq(s@),
{
    let l = lower_vec(str_chars(s.as_str()).as_slice());
    chars_to_string(l.as_slice())
}

fn is_name(a: &String, b: &str) -> (r: bool)
    ensures
        r == (a@ == b@),
{
    eq_chars(str_chars(a.as_str()).as_slice(), str_chars(b).as_slice())
}

fn time_column_of(columns: &Vec<String>) -> (r: Option<usize>)
    ensures
        match first_time_column(cells_view(columns@), 0) {
            Some(k) => r == Some(k as usize),
            None => r is None,
        },
{
    let ghost cv = cells_view(columns@);
    let mut k: usize = 0;
    while k < columns.len()
        invariant
            k <= columns@.len(),
            cv == cells_view(columns@),
            first_time_column(cv, 0) == first_time_column(cv, k as nat),
        decreases columns.len() - k,
    {
        if is_name(&columns[k], "timestamp_ms") || is_name(&columns[k], "timestamp") || is_name(&columns[k], "time_ms") {
            assert(cv[k as int] == columns@[k as int]@);
            return Some(k);
        }
        assert(cv[k as int] == columns@[k as int]@);
        k += 1;
    }
    None
}

/// Reads a CSV text into cells; a text without a non-blank line is refused.
pub fn read_csv(csv: &str) -> (r: Result<CsvTable, String>)
    ensures
        nonblank(split_nl(csv@)).len() == 0 ==> (r matches Err(e) && e@ == "CSV is empty"@),
        nonblank(split_nl(csv@)).len() > 0 ==> (r matches Ok(t) && csv_table_ok(csv@, t)),
{
    let lines = split_lines(csv);
    let ghost ls = lines_view(lines@);
    assert(ls == split_nl(csv@));
    let mut kept: Vec<usize> = Vec::new();
    let mut i: usize = 0;
    assert(ls.take(0) =~= Seq::<Seq<char>>::empty());
    while i < lines.len()
        invariant
            i <= lines@.len(),
            ls == lines_view(lines@),
            kept@.len() == nonblank(ls.take(i as int)).len(),
            forall|k: int| 0 <= k < kept@.len() ==> (#[trigger] kept@[k]) < i && ls[kept@[k] as int] == nonblank(
                ls.take(i as int),
            )[k],
        decreases lines.len() - i,
    {
        assert(ls.take(i + 1).drop_last() == ls.take(i as int));
        assert(ls.take(i + 1).last() == ls[i as int]);
        let t = trim_chars(lines[i].as_slice());
        if t.len() > 0 {
            kept.push(i);
        }
        i += 1;
    }
    assert(ls.take(lines@.len() as int) == ls);
    let ghost nb = nonblank(ls);
    if kept.len() == 0 {
        return Err(str_to_string("CSV is empty"));
    }
    let header = split_cells(lines[kept[0]].as_slice());
    let mut columns: Vec<String> = Vec::new();
    let mut c: usize = 0;
    while c < header.len()
        invariant
            c <= header@.len(),
            columns@.len() == c,
            forall|k: int| 0 <= k < c ==> (#[trigger] columns@[k])@ == lower_seq(header@[k]@),
        decreases header.len() - c,
    {
        columns.push(lower_string(&header[c]));
        c += 1;
    }
    assert(cells_view(columns@) =~= lower_cells(cells_view(header@)));
    let mut rows: Vec<Vec<String>> = Vec::new();
    let mut r: usize = 1;
    while r < kept.len()
        invariant
            1 <= r <= kept@.len(),
            kept@.len() == nb.len(),
            ls == lines_view(lines@),
            forall|k: int| 0 <= k < kept@.len() ==> (#[trigger] kept@[k]) < lines@.len() && ls[kept@[k] as int] == nb[k],
            rows@.len() == r - 1,
            forall|q: int| 0 <= q < rows@.len() ==> cells_view((#[trigger] rows@[q])@) == csv_cells(nb[q + 1]),
        decreases kept.len() - r,
    {
        let cells = split_cells(lines[kept[r]].as_slice());
        rows.push(cells);
        r += 1;
    }
    let time_column = time_column_of(&columns);
    proof {
        assert(cells_view(header@) == csv_cells(nb[0]));
    }
    Ok(CsvTable { columns, rows, time_column })
}

pub open spec fn has_channel(chs: Seq<(Seq<char>, Seq<char>, Seq<char>, u16, bool)>, id: Seq<char>) -> bool {
    exists|k: int| 0 <= k < chs.len() && (#[trigger] chs[k]).0 == id
}

/// The channels with one enabled channel appended for each imported column
/// that has none yet (named after the column, no unit, no PID).
pub open spec fn add_missing(
    chs: Seq<(Seq<char>, Seq<char>, Seq<char>, u16, bool)>,
    used: Seq<Seq<char>>,
) -> Seq<(Seq<char>, Seq<char>, Seq<char>, u16, bool)>
    decreases used.len(),
{
    if used.len() == 0 {
        chs
    } else {
        let p = add_missing(chs, used.drop_last());
        let u = used.last();
        if has_channel(p, u) {
            p
        } else {
            p.push((u, u, Seq::empty(), 0u16, true))
        }
    }
}

/// The channels, each enabled exactly when an imported column names it.
pub open spec fn enable_used(
    chs: Seq<(Seq<char>, Seq<char>, Seq<char>, u16, bool)>,
    used: Seq<Seq<char>>,
) -> Seq<(Seq<char>, Seq<char>, Seq<char>, u16, bool)> {
    Seq::new(chs.len(), |i: int| (chs[i].0, chs[i].1, chs[i].2, chs[i].3, used.contains(chs[i].0)))
}

fn has_channel_exec(chs: &Vec<LogChannel>, id: &String) -> (r: bool)
    ensures
        r == has_channel(chans_view(chs@), id@),
{
    let idc = str_chars(id.as_str());
    let mut k: usize = 0;
    while k < chs.len()
        invariant
            k <= chs@.len(),
            idc@ == id@,
            forall|q: int| 0 <= q < k ==> chans_view(chs@)[q].0 != id@,
        decreases chs.len() - k,
    {
        if eq_chars(str_chars(chs[k].id.as_str()).as_slice(), idc.as_slice()) {
            assert(chans_view(chs@)[k as int].0 == id@);
            return true;
        }
        k += 1;
    }
    false
}

fn contains_id(used: &[String], id: &String) -> (r: bool)
    ensures
        r == strs(used@).contains(id@),
{
    let idc = str_chars(id.as_str());
    let mut k: usize = 0;
    while k < used.len()
        invariant
            k <= used@.len(),
            idc@ == id@,
            forall|q: int| 0 <= q < k ==> strs(used@)[q] != id@,
        decreases used.len() - k,
    {
        if eq_chars(str_chars(used[k].as_str()).as_slice(), idc.as_slice()) {
            assert(strs(used@)[k as int] == id@);
            return true;
        }
        k += 1;
    }
    false
}

/// The channel set after a CSV import whose numeric columns are `used`:
/// columns without a channel get one, and exactly the used channels are
/// enabled.
pub fn channels_after_import(channels: &mut Vec<LogChannel>, used: &[String])
    ensures
        chans_view(final(channels)@) == enable_used(add_missing(chans_view(old(channels)@), strs(used@)), strs(used@)),
{
    let ghost c0 = chans_view(channels@);
    let mut i: usize = 0;
    assert(strs(used@).take(0) =~= Seq::<Seq<char>>::empty());
    while i < used.len()
        invariant
            i <= used@.len(),
            chans_view(channels@) == add_missing(c0, strs(used@).take(i as int)),
        decreases used.len() - i,
    {
        assert(strs(used@).take(i + 1).drop_last() == strs(used@).take(i as int));
        assert(strs(used@).take(i + 1).last() == used@[i as int]@);
        if !has_channel_exec(channels, &used[i]) {
            let c = LogChannel {
                id: str_to_string(used[i].as_str()),
                name: str_to_string(used[i].as_str()),
                unit: String::new(),
                pid: 0,
                enabled: true,
            };
            let ghost before = chans_view(channels@);
            channels.push(c);
            assert(chans_view(channels@) =~= before.push((used@[i as int]@, used@[i as int]@, Seq::empty(), 0u16, true)));
        }
        i += 1;
    }
    assert(strs(used@).take(used@.len() as int) == strs(used@));
    let ghost added = chans_view(channels@);
    let mut out: Vec<LogChannel> = Vec::new();
    let mut j: usize = 0;
    while j < channels.len()
        invariant
            j <= channels@.len(),
            added == chans_view(channels@),
            out@.len() == j,
            forall|q: int| 0 <= q < j ==> chan_view(#[trigger] out@[q]) == enable_used(added, strs(used@))[q],
        decreases channels.len() - j,
    {
        let on = contains_id(used, &channels[j].id);
        let c = LogChannel {
            id: str_to_string(channels[j].id.as_str()),
            name: str_to_string(channels[j].name.as_str()),
            unit: str_to_string(channels[j].unit.as_str()),
            pid: channels[j].pid,
            enabled: on,
        };
        out.push(c);
        j += 1;
    }
    *channels = out;
    assert(chans_view(channels@) =~= enable_used(added, strs(used@)));
}

// ── CSV round trip ──────────────────────────────────────────────────────────

pub open spec fn no_char(s: Seq<char>, c: char) -> bool {
    forall|i: int| 0 <= i < s.len() ==> s[i] != c
}

/// Text that a CSV cell holds as it is: no comma or line break, and no
/// whitespace or quote at either end.
pub open spec fn plain_cell(s: Seq<char>) -> bool {
    &&& no_char(s, ',')
    &&& no_char(s, '\n')
    &&& s.len() > 0 ==> !is_ws(s[0]) && !is_ws(s.last()) && s[0] != '"' && s.last() != '"'
}

proof fn lemma_cell_plain(s: Seq<char>)
    requires
        plain_cell(s),
    ensures
        cell_text(s) == s,
{
    if s.len() > 0 {
        assert(trim_end_ws(s) == s);
        assert(trim_start_ws(s) == s);
        assert(trim_ws(s) == s);
        assert(trim_end_q(s) == s);
        assert(trim_start_q(s) == s);
    } else {
        assert(trim_end_ws(s) == s);
        assert(trim_start_ws(s) == s);
    }
}

proof fn lemma_dec_digits(n: nat)
    ensures
        dec(n).len() >= 1,
        forall|i: int| 0 <= i < dec(n).len() ==> '0' <= #[trigger] dec(n)[i] <= '9',
    decreases n,
{
    if n >= 10 {
        lemma_dec_digits(n / 10);
        assert(dec(n) == dec(n / 10).push(digit_char(n % 10)));
    } else {
        assert(dec(n) == seq![digit_char(n)]);
    }
}

proof fn lemma_dec_plain(n: nat)
    ensures
        plain_cell(dec(n)),
        dec(n).len() >= 1,
        !is_ws(dec(n)[0]),
{
    lemma_dec_digits(n);
    let d = dec(n);
    assert(d.last() == d[d.len() - 1]);
}

proof fn lemma_trim_end_keeps_first(s: Seq<char>)
    requires
        s.len() > 0,
        !is_ws(s[0]),
    ensures
        trim_end_ws(s).len() > 0,
        trim_end_ws(s)[0] == s[0],
    decreases s.len(),
{
    if is_ws(s.last()) {
        assert(s.len() > 1);
        lemma_trim_end_keeps_first(s.drop_last());
    }
}

proof fn lemma_nonblank_line(s: Seq<char>)
    requires
        s.len() > 0,
        !is_ws(s[0]),
    ensures
        trim_ws(s).len() > 0,
{
    lemma_trim_end_keeps_first(s);
    let t = trim_end_ws(s);
    assert(trim_start_ws(t) == t);
}

proof fn lemma_split_nl_append(x: Seq<char>, l: Seq<char>)
    requires
        no_char(l, '\n'),
    ensures
        split_nl(x + l) == split_nl(x).update(split_nl(x).len() - 1, split_nl(x).last() + l),
        split_nl(x + l).len() == split_nl(x).len(),
    decreases l.len(),
{
    lemma_split_nl_len(x);
    if l.len() == 0 {
        assert(x + l == x);
        assert(split_nl(x).last() + l == split_nl(x).last());
        assert(split_nl(x).update(split_nl(x).len() - 1, split_nl(x).last()) == split_nl(x));
    } else {
        let l0 = l.drop_last();
        lemma_split_nl_append(x, l0);
        assert((x + l).drop_last() == x + l0);
        assert((x + l).last() == l.last());
        assert(split_nl(x).last() + l == (split_nl(x).last() + l0).push(l.last()));
    }
}

proof fn lemma_split_nl_newline(x: Seq<char>)
    ensures
        split_nl(x + seq!['\n']) == split_nl(x).push(Seq::empty()),
{
    assert((x + seq!['\n']).drop_last() == x);
}

pub open spec fn csv_line(r: LogRow, ids: Seq<Seq<char>>) -> Seq<char> {
    dec(r.timestamp_ms as nat) + row_cells(r.values@, ids)
}

pub open spec fn csv_lines(rows: Seq<LogRow>, ids: Seq<Seq<char>>) -> Seq<Seq<char>> {
    Seq::new(rows.len(), |i: int| csv_line(rows[i], ids))
}

proof fn lemma_rows_split(h: Seq<char>, rows: Seq<LogRow>, ids: Seq<Seq<char>>)
    requires
        no_char(h, '\n'),
        forall|r: int| 0 <= r < rows.len() ==> no_char(#[trigger] csv_line(rows[r], ids), '\n'),
    ensures
        split_nl(h + "\n"@ + rows_text(rows, ids)) == seq![h] + csv_lines(rows, ids) + seq![Seq::<char>::empty()],
    decreases rows.len(),
{
    reveal_strlit("\n");
    assert("\n"@ == seq!['\n']);
    if rows.len() == 0 {
        assert(h + "\n"@ + rows_text(rows, ids) == (Seq::<char>::empty() + h) + seq!['\n']);
        lemma_split_nl_append(Seq::empty(), h);
        lemma_split_nl_newline(Seq::<char>::empty() + h);
        assert(csv_lines(rows, ids) =~= Seq::<Seq<char>>::empty());
        assert(split_nl(Seq::<char>::empty()) == seq![Seq::<char>::empty()]);
        assert(seq![Seq::<char>::empty()].update(0, Seq::<char>::empty() + h) =~= seq![h]);
        assert(seq![h] + csv_lines(rows, ids) + seq![Seq::<char>::empty()] =~= seq![h].push(Seq::<char>::empty()));
    } else {
        let p = rows.drop_last();
        assert forall|r: int| 0 <= r < p.len() implies no_char(#[trigger] csv_line(p[r], ids), '\n') by {
            assert(p[r] == rows[r]);
        }
        lemma_rows_split(h, p, ids);
        let x = h + "\n"@ + rows_text(p, ids);
        let l = csv_line(rows.last(), ids);
        assert(no_char(l, '\n')) by {
            assert(csv_line(rows[rows.len() - 1], ids) == l);
        }
        assert(h + "\n"@ + rows_text(rows, ids) == (x + l) + seq!['\n']);
        lemma_split_nl_append(x, l);
        lemma_split_nl_newline(x + l);
        let sx = seq![h] + csv_lines(p, ids) + seq![Seq::<char>::empty()];
        assert(sx.last() + l =~= l);
        assert(sx.update(sx.len() - 1, l).push(Seq::<char>::empty()) =~= seq![h] + csv_lines(rows, ids) + seq![
            Seq::<char>::empty(),
        ]);
    }
}

proof fn lemma_nonblank_keep(ls: Seq<Seq<char>>)
    requires
        forall|i: int| 0 <= i < ls.len() ==> trim_ws(#[trigger] ls[i]).len() > 0,
    ensures
        nonblank(ls) == ls,
        nonblank(ls.push(Seq::empty())) == ls,
    decreases ls.len(),
{
    if ls.len() > 0 {
        let p = ls.drop_last();
        assert forall|i: int| 0 <= i < p.len() implies trim_ws(#[trigger] p[i]).len() > 0 by {
            assert(p[i] == ls[i]);
        }
        lemma_nonblank_keep(p);
        assert(trim_ws(ls.last()).len() > 0);
        assert(p.push(ls.last()) == ls);
    }
    assert(ls.push(Seq::empty()).drop_last() == ls);
    assert(trim_end_ws(Seq::<char>::empty()) == Seq::<char>::empty());
    assert(trim_ws(Seq::<char>::empty()).len() == 0);
}

proof fn lemma_split_commas_append(x: Seq<char>, c: Seq<char>)
    requires
        no_char(c, ','),
    ensures
        split_commas(x + c) == split_commas(x).update(split_commas(x).len() - 1, split_commas(x).last() + c),
    decreases c.len(),
{
    lemma_split_commas_len(x);
    if c.len() == 0 {
        assert(x + c == x);
        assert(split_commas(x).last() + c == split_commas(x).last());
        assert(split_commas(x).update(split_commas(x).len() - 1, split_commas(x).last()) == split_commas(x));
    } else {
        let c0 = c.drop_last();
        lemma_split_commas_append(x, c0);
        assert((x + c).drop_last() == x + c0);
        assert((x + c).last() == c.last());
        assert(split_commas(x).last() + c == (split_commas(x).last() + c0).push(c.last()));
    }
}

proof fn lemma_split_commas_comma(x: Seq<char>)
    ensures
        split_commas(x + seq![',']) == split_commas(x).push(Seq::empty()),
{
    assert((x + seq![',']).drop_last() == x);
}

/// The cells of `first` followed by `,`-joined `cells`, split at commas.
proof fn lemma_joined_split(first: Seq<char>, cells: Seq<Seq<char>>, joined: Seq<char>)
    requires
        no_char(first, ','),
        forall|k: int| 0 <= k < cells.len() ==> no_char(#[trigger] cells[k], ','),
        joined == join_commas(cells),
    ensures
        split_commas(first + joined) == seq![first] + cells,
    decreases cells.len(),
{
    if cells.len() == 0 {
        assert(first + joined == Seq::<char>::empty() + first);
        lemma_split_commas_append(Seq::empty(), first);
        assert(split_commas(Seq::<char>::empty()) == seq![Seq::<char>::empty()]);
        assert(seq![Seq::<char>::empty()].update(0, Seq::<char>::empty() + first) =~= seq![first]);
        assert(seq![first] + cells =~= seq![first]);
    } else {
        let p = cells.drop_last();
        assert forall|k: int| 0 <= k < p.len() implies no_char(#[trigger] p[k], ',') by {
            assert(p[k] == cells[k]);
        }
        lemma_joined_split(first, p, join_commas(p));
        let x = first + join_commas(p);
        let c = cells.last();
        assert(no_char(c, ',')) by {
            assert(cells[cells.len() - 1] == c);
        }
        reveal_strlit(",");
        assert(","@ == seq![',']);
        assert(first + joined == (x + seq![',']) + c);
        lemma_split_commas_comma(x);
        lemma_split_commas_append(x + seq![','], c);
        let sx = (seq![first] + p).push(Seq::<char>::empty());
        assert(sx.last() + c =~= c);
        assert(sx.update(sx.len() - 1, c) =~= seq![first] + cells);
    }
}

/// `,c0,c1,…`: each cell after a comma.
pub open spec fn join_commas(cells: Seq<Seq<char>>) -> Seq<char>
    decreases cells.len(),
{
    if cells.len() == 0 {
        Seq::empty()
    } else {
        join_commas(cells.drop_last()) + ","@ + cells.last()
    }
}

proof fn lemma_header_joined(ids: Seq<Seq<char>>)
    ensures
        header_cells(ids) == join_commas(ids),
    decreases ids.len(),
{
    if ids.len() > 0 {
        lemma_header_joined(ids.drop_last());
    }
}

pub open spec fn row_values(vals: Seq<(String, String)>, ids: Seq<Seq<char>>) -> Seq<Seq<char>> {
    Seq::new(ids.len(), |k: int| value_of(vals, ids[k]))
}

proof fn lemma_row_joined(vals: Seq<(String, String)>, ids: Seq<Seq<char>>)
    ensures
        row_cells(vals, ids) == join_commas(row_values(vals, ids)),
    decreases ids.len(),
{
    if ids.len() > 0 {
        lemma_row_joined(vals, ids.drop_last());
        assert(row_values(vals, ids).drop_last() =~= row_values(vals, ids.drop_last()));
        assert(row_values(vals, ids).last() == value_of(vals, ids.last()));
    } else {
        assert(row_values(vals, ids) =~= Seq::<Seq<char>>::empty());
    }
}

proof fn lemma_join_no_char(cells: Seq<Seq<char>>, c: char)
    requires
        c != ',',
        forall|k: int| 0 <= k < cells.len() ==> no_char(#[trigger] cells[k], c),
    ensures
        no_char(join_commas(cells), c),
    decreases cells.len(),
{
    if cells.len() > 0 {
        let p = cells.drop_last();
        assert forall|k: int| 0 <= k < p.len() implies no_char(#[trigger] p[k], c) by {
            assert(p[k] == cells[k]);
        }
        lemma_join_no_char(p, c);
        reveal_strlit(",");
        assert(no_char(cells.last(), c)) by {
            assert(cells[cells.len() - 1] == cells.last());
        }
        let j = join_commas(cells);
        assert(j == join_commas(p) + ","@ + cells.last());
        assert forall|i: int| 0 <= i < j.len() implies j[i] != c by {
            if i < join_commas(p).len() {
                assert(j[i] == join_commas(p)[i]);
            } else if i == join_commas(p).len() {
                assert(j[i] == ',');
            } else {
                assert(j[i] == cells.last()[i - join_commas(p).len() - 1]);
            }
        }
    }
}

proof fn lemma_cells_plain(first: Seq<char>, cells: Seq<Seq<char>>)
    requires
        plain_cell(first),
        forall|k: int| 0 <= k < cells.len() ==> plain_cell(#[trigger] cells[k]),
    ensures
        csv_cells(first + join_commas(cells)) == seq![first] + cells,
{
    assert forall|k: int| 0 <= k < cells.len() implies no_char(#[trigger] cells[k], ',') by {
        assert(plain_cell(cells[k]));
    }
    lemma_joined_split(first, cells, join_commas(cells));
    let sp = split_commas(first + join_commas(cells));
    assert forall|i: int| 0 <= i < sp.len() implies cell_text(#[trigger] sp[i]) == sp[i] by {
        if i == 0 {
            lemma_cell_plain(first);
        } else {
            assert(sp[i] == cells[i - 1]);
            lemma_cell_plain(cells[i - 1]);
        }
    }
    assert(csv_cells(first + join_commas(cells)) =~= sp);
}

proof fn lemma_time_literal()
    ensures
        plain_cell("timestamp_ms"@),
        lower_seq("timestamp_ms"@) == "timestamp_ms"@,
        "timestamp_ms"@.len() == 12,
        !is_ws("timestamp_ms"@[0]),
{
    reveal_strlit("timestamp_ms");
    let t = "timestamp_ms"@;
    assert(t =~= seq!['t', 'i', 'm', 'e', 's', 't', 'a', 'm', 'p', '_', 'm', 's']);
    assert(lower_seq(t) =~= t);
}

/// Law: a log written as CSV reads back as the same columns (lower-cased),
/// the time column first, and row by row the same timestamps and value
/// cells, when channel ids and values are texts a CSV cell holds as they are.
pub proof fn law_csv_export_reads_back(chs: Seq<LogChannel>, rows: Seq<LogRow>)
    requires
        forall|k: int| 0 <= k < enabled_ids(chs).len() ==> plain_cell(#[trigger] enabled_ids(chs)[k]),
        forall|r: int, k: int|
            0 <= r < rows.len() && 0 <= k < enabled_ids(chs).len() ==> plain_cell(
                #[trigger] value_of(rows[r].values@, enabled_ids(chs)[k]),
            ),
    ensures
        ({
            let ids = enabled_ids(chs);
            let ls = nonblank(split_nl(spec_csv(chs, rows)));
            &&& ls.len() == rows.len() + 1
            &&& lower_cells(csv_cells(ls[0])) == seq!["timestamp_ms"@] + lower_cells(ids)
            &&& forall|r: int|
                0 <= r < rows.len() ==> csv_cells(#[trigger] ls[r + 1]) == seq![dec(rows[r].timestamp_ms as nat)]
                    + row_values(rows[r].values@, ids)
            &&& first_time_column(lower_cells(csv_cells(ls[0])), 0) == Some(0nat)
        }),
{
    let ids = enabled_ids(chs);
    lemma_time_literal();
    lemma_header_joined(ids);
    let h = "timestamp_ms"@ + header_cells(ids);
    assert(spec_csv(chs, rows) == h + "\n"@ + rows_text(rows, ids));
    assert forall|k: int| 0 <= k < ids.len() implies no_char(#[trigger] ids[k], '\n') by {
        assert(plain_cell(ids[k]));
    }
    lemma_join_no_char(ids, '\n');
    assert(no_char(h, '\n')) by {
        assert forall|i: int| 0 <= i < h.len() implies h[i] != '\n' by {
            if i < 12 {
                assert(h[i] == "timestamp_ms"@[i]);
            } else {
                assert(h[i] == join_commas(ids)[i - 12]);
            }
        }
    }
    assert forall|r: int| 0 <= r < rows.len() implies no_char(#[trigger] csv_line(rows[r], ids), '\n') && csv_cells(
        csv_line(rows[r], ids),
    ) == seq![dec(rows[r].timestamp_ms as nat)] + row_values(rows[r].values@, ids) && trim_ws(
        csv_line(rows[r], ids),
    ).len() > 0 by {
        let vals = rows[r].values@;
        let rv = row_values(vals, ids);
        let d = dec(rows[r].timestamp_ms as nat);
        lemma_row_joined(vals, ids);
        lemma_dec_plain(rows[r].timestamp_ms as nat);
        assert forall|k: int| 0 <= k < rv.len() implies plain_cell(#[trigger] rv[k]) by {
            assert(rv[k] == value_of(vals, ids[k]));
        }
        assert forall|k: int| 0 <= k < rv.len() implies no_char(#[trigger] rv[k], '\n') by {
            assert(plain_cell(rv[k]));
        }
        lemma_join_no_char(rv, '\n');
        let l = csv_line(rows[r], ids);
        assert(l == d + join_commas(rv));
        assert forall|i: int| 0 <= i < l.len() implies l[i] != '\n' by {
            if i < d.len() {
                assert(l[i] == d[i]);
            } else {
                assert(l[i] == join_commas(rv)[i - d.len()]);
            }
        }
        lemma_cells_plain(d, rv);
        assert(l[0] == d[0]);
        lemma_nonblank_line(l);
    }
    lemma_rows_split(h, rows, ids);
    let lines = seq![h] + csv_lines(rows, ids);
    assert(h[0] == "timestamp_ms"@[0]);
    lemma_nonblank_line(h);
    assert forall|i: int| 0 <= i < lines.len() implies trim_ws(#[trigger] lines[i]).len() > 0 by {
        if i > 0 {
            assert(lines[i] == csv_line(rows[i - 1], ids));
        }
    }
    lemma_nonblank_keep(lines);
    assert(seq![h] + csv_lines(rows, ids) + seq![Seq::<char>::empty()] == lines.push(Seq::<char>::empty()));
    let ls = nonblank(split_nl(spec_csv(chs, rows)));
    assert(ls == lines);
    assert forall|r: int| 0 <= r < rows.len() implies csv_cells(#[trigger] ls[r + 1]) == seq![
        dec(rows[r].timestamp_ms as nat),
    ] + row_values(rows[r].values@, ids) by {
        assert(ls[r + 1] == csv_line(rows[r], ids));
    }
    assert forall|k: int| 0 <= k < ids.len() implies plain_cell(#[trigger] ids[k]) by {}
    lemma_cells_plain("timestamp_ms"@, ids);
    assert(ls[0] == h);
    assert(lower_cells(seq!["timestamp_ms"@] + ids) =~= seq!["timestamp_ms"@] + lower_cells(ids));
    let cols = lower_cells(csv_cells(ls[0]));
    assert(cols[0] == "timestamp_ms"@);
    assert(is_time_column(cols[0]));
}

} // verus!
