//! The bench script language: one command per line (`identify`, `checksum`,
//! `correct`, `compare`, `seedkey FAMILY SEED LEVEL`, `poke OFFSET HEX`,
//! `tables`, `maplog`, `help`); `#` starts a comment. This module reads the
//! lines, parses offsets and hex, and applies `poke` to the working image.
use vstd::prelude::*;
use crate::text::{
    hex_digits, hex_digit_chars, hex_text_to_bytes, spec_hex_bytes, is_hex_char, hex_val, hex_value, is_ascii_hexdigit,
    str_chars, str_to_string, trim_chars, trim_ws, words, split_words, lower_seq, lower_vec, push_str, push_dec, dec,
    chars_to_string, eq_chars, starts_with, matches_at,
};

use crate::ecu_database::{get_tables_for_bin_size, tables_for_size, def_is, EcuDbEntry};
use crate::xdf::TableDef;
use crate::tableseek::{locate_p01_tables, compiled_pack_ok, tables_ok, CompiledSeek, TableSeekXml};

verus! {

// ── Integers ────────────────────────────────────────────────────────────────

/// Why an integer did not parse (as `std::num::IntErrorKind`).
#[derive(Clone, Copy, Debug, PartialEq, Eq, Structural)]
pub enum IntErr {
    Empty,
    InvalidDigit,
    PosOverflow,
}

pub open spec fn digit_val(c: char, radix: nat) -> Option<nat> {
    if radix == 16 {
        if is_hex_char(c) {
            Some(hex_val(c))
        } else {
            None
        }
    } else if '0' <= c && c <= '9' {
        Some((c as nat - 48) as nat)
    } else {
        None
    }
}

/// Digit by digit from `i`: the first invalid digit or overflow past `max`
/// stops the scan.
pub open spec fn scan_digits(d: Seq<char>, radix: nat, max: nat, acc: nat, i: nat) -> Result<nat, IntErr>
    decreases d.len() - i,
{
    if i >= d.len() {
        Ok(acc)
    } else {
        match digit_val(d[i as int], radix) {
            None => Err(IntErr::InvalidDigit),
            Some(v) => if acc * radix + v > max {
                Err(IntErr::PosOverflow)
            } else {
                scan_digits(d, radix, max, acc * radix + v, i + 1)
            },
        }
    }
}

/// `from_str_radix` for an unsigned type with maximum `max`.
pub open spec fn spec_parse_uint(s: Seq<char>, radix: nat, max: nat) -> Result<nat, IntErr> {
    if s.len() == 0 {
        Err(IntErr::Empty)
    } else if s.len() == 1 && (s[0] == '+' || s[0] == '-') {
        Err(IntErr::InvalidDigit)
    } else {
        scan_digits(if s[0] == '+' { s.drop_first() } else { s }, radix, max, 0, 0)
    }
}

fn parse_uint(s: &[char], radix: u32) -> (r: Result<usize, IntErr>)
    requires
        radix == 10 || radix == 16,
    ensures
        match r {
            Ok(v) => spec_parse_uint(s@, radix as nat, usize::MAX as nat) == Ok::<nat, IntErr>(v as nat),
            Err(e) => spec_parse_uint(s@, radix as nat, usize::MAX as nat) == Err::<nat, IntErr>(e),
        },
{
    if s.len() == 0 {
        return Err(IntErr::Empty);
    }
    if s.len() == 1 && (s[0] == '+' || s[0] == '-') {
        return Err(IntErr::InvalidDigit);
    }
    let d = if s[0] == '+' {
        vstd::slice::slice_subrange(s, 1, s.len())
    } else {
        vstd::slice::slice_subrange(s, 0, s.len())
    };
    assert(d@ == if s@[0] == '+' { s@.drop_first() } else { s@ });
    let ghost goal = spec_parse_uint(s@, radix as nat, usize::MAX as nat);
    let mut acc: usize = 0;
    let mut i: usize = 0;
    while i < d.len()
        invariant
            i <= d@.len(),
            radix == 10 || radix == 16,
            goal == spec_parse_uint(s@, radix as nat, usize::MAX as nat),
            d@ == (if s@[0] == '+' { s@.drop_first() } else { s@ }),
            s@.len() >= 1,
            !(s@.len() == 1 && (s@[0] == '+' || s@[0] == '-')),
            goal == scan_digits(d@, radix as nat, usize::MAX as nat, acc as nat, i as nat),
        decreases d.len() - i,
    {
        let c = d[i];
        let v: usize = if radix == 16 {
            if !is_ascii_hexdigit(c) {
                return Err(IntErr::InvalidDigit);
            }
            hex_value(c) as usize
        } else {
            if !('0' <= c && c <= '9') {
                return Err(IntErr::InvalidDigit);
            }
            (c as u32 - 48) as usize
        };
        let r = radix as usize;
        assert(v < 16);
        let lim = (usize::MAX - v) / r;
        let ghost m: int = usize::MAX - v;
        proof {
            vstd::arithmetic::div_mod::lemma_fundamental_div_mod(m, r as int);
            assert(m % (r as int) < r);
            assert(m % (r as int) >= 0);
        }
        if acc > lim {
            proof {
                assert(acc * r + v > usize::MAX) by (nonlinear_arith)
                    requires
                        acc >= lim + 1,
                        m == r * lim + m % (r as int),
                        m % (r as int) < r,
                        m == usize::MAX - v,
                        r >= 1,
                ;
            }
            return Err(IntErr::PosOverflow);
        }
        proof {
            assert(acc * r + v <= usize::MAX) by (nonlinear_arith)
                requires
                    acc <= lim,
                    m == r * lim + m % (r as int),
                    m % (r as int) >= 0,
                    m == usize::MAX - v,
                    r >= 1,
            ;
        }
        acc = acc * r + v;
        i += 1;
    }
    Ok(acc)
}

proof fn lemma_scan_bound(d: Seq<char>, radix: nat, max: nat, acc: nat, i: nat)
    requires
        acc <= max,
    ensures
        scan_digits(d, radix, max, acc, i) matches Ok(v) ==> v <= max,
    decreases d.len() - i,
{
    if i < d.len() {
        match digit_val(d[i as int], radix) {
            None => {},
            Some(v) => {
                if acc * radix + v <= max {
                    lemma_scan_bound(d, radix, max, acc * radix + v, i + 1);
                }
            },
        }
    }
}

pub proof fn lemma_parse_uint_bound(s: Seq<char>, radix: nat, max: nat)
    ensures
        spec_parse_uint(s, radix, max) matches Ok(v) ==> v <= max,
{
    if s.len() > 0 && !(s.len() == 1 && (s[0] == '+' || s[0] == '-')) {
        lemma_scan_bound(if s[0] == '+' { s.drop_first() } else { s }, radix, max, 0, 0);
    }
}

/// The `Display` text of an integer parse error.
pub open spec fn int_err_text(e: IntErr) -> Seq<char> {
    match e {
        IntErr::Empty => "cannot parse integer from empty string"@,
        IntErr::InvalidDigit => "invalid digit found in string"@,
        IntErr::PosOverflow => "number too large to fit in target type"@,
    }
}

fn int_err_str(e: IntErr) -> (r: &'static str)
    ensures
        r@ == int_err_text(e),
{
    match e {
        IntErr::Empty => "cannot parse integer from empty string",
        IntErr::InvalidDigit => "invalid digit found in string",
        IntErr::PosOverflow => "number too large to fit in target type",
    }
}

/// An offset: hex after a `0x`/`0X` prefix, decimal otherwise.
pub open spec fn spec_parse_offset(tok: Seq<char>) -> Result<nat, IntErr> {
    let t = trim_ws(tok);
    if starts_with(t, "0x"@) || starts_with(t, "0X"@) {
        spec_parse_uint(t.skip(2), 16, usize::MAX as nat)
    } else {
        spec_parse_uint(t, 10, usize::MAX as nat)
    }
}

pub fn parse_offset(tok: &str) -> (r: Result<usize, String>)
    ensures
        match spec_parse_offset(tok@) {
            Ok(v) => r == Ok::<usize, String>(v as usize) && v <= usize::MAX,
            Err(e) => r matches Err(m) && m@ == "bad offset: "@ + int_err_text(e),
        },
{
    let t = trim_chars(str_chars(tok).as_slice());
    let lx = str_chars("0x");
    let ux = str_chars("0X");
    let res = if matches_at(t.as_slice(), lx.as_slice(), 0) || matches_at(t.as_slice(), ux.as_slice(), 0) {
        proof {
            reveal_strlit("0x");
            reveal_strlit("0X");
        }
        let h = vstd::slice::slice_subrange(t.as_slice(), 2, t.len());
        assert(h@ =~= t@.skip(2));
        parse_uint(h, 16)
    } else {
        parse_uint(t.as_slice(), 10)
    };
    proof {
        lemma_parse_uint_bound(trim_ws(tok@).skip(2), 16, usize::MAX as nat);
        lemma_parse_uint_bound(trim_ws(tok@), 10, usize::MAX as nat);
    }
    match res {
        Ok(v) => Ok(v),
        Err(e) => {
            let mut m = str_to_string("bad offset: ");
            push_str(&mut m, int_err_str(e));
            Err(m)
        },
    }
}

// ── Hex bytes ───────────────────────────────────────────────────────────────

/// The bytes of the hex digits of a text (other characters dropped); there
/// must be an even, non-zero number of digits.
pub open spec fn spec_script_hex(s: Seq<char>) -> Option<Seq<u8>> {
    let h = hex_digits(s);
    if h.len() == 0 || h.len() % 2 != 0 {
        None
    } else {
        Some(spec_hex_bytes(s))
    }
}

pub fn hex_bytes(s: &str) -> (r: Result<Vec<u8>, String>)
    ensures
        match spec_script_hex(s@) {
            Some(b) => r matches Ok(v) && v@ == b,
            None => r matches Err(e) && e@ == "hex must be even-length"@,
        },
{
    let h = hex_digit_chars(s);
    if h.len() == 0 || h.len() % 2 != 0 {
        return Err(str_to_string("hex must be even-length"));
    }
    Ok(hex_text_to_bytes(s))
}

// ── Commands ────────────────────────────────────────────────────────────────

/// A script line.
#[derive(Debug)]
pub enum ScriptCmd {
    /// An empty line or a `#` comment.
    Skip,
    Help,
    Identify,
    Checksum,
    Correct,
    Compare,
    SeedKey { family: String, seed: String, level: String },
    /// `poke OFFSET HEX...`; the hex words are joined without spaces.
    Poke { offset: Option<String>, hex: String },
    Tables,
    MapLog,
    Unknown { cmd: String },
}

pub open spec fn concat(ws: Seq<Seq<char>>) -> Seq<char>
    decreases ws.len(),
{
    if ws.len() == 0 {
        Seq::empty()
    } else {
        concat(ws.drop_last()) + ws.last()
    }
}

pub open spec fn word_or(ws: Seq<Seq<char>>, k: int, d: Seq<char>) -> Seq<char> {
    if k < ws.len() {
        ws[k]
    } else {
        d
    }
}

/// What a line asks for: the first word, lower-cased, names the command.
pub open spec fn script_cmd_ok(line: Seq<char>, c: ScriptCmd) -> bool {
    let raw = trim_ws(line);
    let ws = words(raw);
    let cmd = if ws.len() > 0 { lower_seq(ws[0]) } else { Seq::empty() };
    if raw.len() == 0 || raw[0] == '#' {
        c is Skip
    } else if cmd == "help"@ || cmd == "?"@ {
        c is Help
    } else if cmd == "identify"@ {
        c is Identify
    } else if cmd == "checksum"@ || cmd == "validate"@ {
        c is Checksum
    } else if cmd == "correct"@ {
        c is Correct
    } else if cmd == "compare"@ || cmd == "diff"@ {
        c is Compare
    } else if cmd == "seedkey"@ {
        c matches ScriptCmd::SeedKey { family, seed, level } && family@ == word_or(ws, 1, "P01_0411"@) && seed@ == word_or(
            ws,
            2,
            Seq::empty(),
        ) && level@ == word_or(ws, 3, "1"@)
    } else if cmd == "poke"@ {
        c matches ScriptCmd::Poke { offset, hex } && (if ws.len() > 1 {
            offset matches Some(o) && o@ == ws[1] && hex@ == concat(ws.skip(2))
        } else {
            offset is None && hex@.len() == 0
        })
    } else if cmd == "tables"@ {
        c is Tables
    } else if cmd == "maplog"@ || cmd == "map_from_log"@ {
        c is MapLog
    } else {
        c matches ScriptCmd::Unknown { cmd: x } && x@ == cmd
    }
}

fn is_cmd(c: &Vec<char>, w: &str) -> (r: bool)
    ensures
        r == (c@ == w@),
{
    let v = str_chars(w);
    eq_chars(c.as_slice(), v.as_slice())
}

fn word_or_exec(ws: &Vec<Vec<char>>, k: usize, d: &str) -> (r: String)
    ensures
        r@ == word_or(crate::a2l::lines_view(ws@), k as int, d@),
{
    if k < ws.len() {
        chars_to_string(ws[k].as_slice())
    } else {
        str_to_string(d)
    }
}

/// Reads one script line.
pub fn script_command(line: &str) -> (r: ScriptCmd)
    ensures
        script_cmd_ok(line@, r),
{
    let raw = trim_chars(str_chars(line).as_slice());
    if raw.len() == 0 || raw[0] == '#' {
        return ScriptCmd::Skip;
    }
    let ws = split_words(raw.as_slice());
    let ghost wv = words(raw@);
    proof {
        assert(crate::a2l::lines_view(ws@) =~= wv);
    }
    let cmd: Vec<char> = if ws.len() > 0 {
        lower_vec(ws[0].as_slice())
    } else {
        Vec::new()
    };
    assert(cmd@ == (if wv.len() > 0 { lower_seq(wv[0]) } else { Seq::<char>::empty() }));
    assert(!(raw@.len() == 0 || raw@[0] == '#'));
    proof {
        assert forall|q: int| 0 <= q < ws@.len() implies (#[trigger] ws@[q])@ == wv[q] by {
            assert(crate::a2l::lines_view(ws@)[q] == ws@[q]@);
        }
    }
    if is_cmd(&cmd, "help") || is_cmd(&cmd, "?") {
        ScriptCmd::Help
    } else if is_cmd(&cmd, "identify") {
        ScriptCmd::Identify
    } else if is_cmd(&cmd, "checksum") || is_cmd(&cmd, "validate") {
        ScriptCmd::Checksum
    } else if is_cmd(&cmd, "correct") {
        ScriptCmd::Correct
    } else if is_cmd(&cmd, "compare") || is_cmd(&cmd, "diff") {
        ScriptCmd::Compare
    } else if is_cmd(&cmd, "seedkey") {
        proof {
            reveal_strlit("");
        }
        let r = ScriptCmd::SeedKey {
            family: word_or_exec(&ws, 1, "P01_0411"),
            seed: word_or_exec(&ws, 2, ""),
            level: word_or_exec(&ws, 3, "1"),
        };
        assert(cmd@ == "seedkey"@);
        assert(raw@ == trim_ws(line@));
        assert(r matches ScriptCmd::SeedKey { family, seed, level } && family@ == word_or(wv, 1, "P01_0411"@));
        assert(r matches ScriptCmd::SeedKey { family, seed, level } && seed@ == word_or(wv, 2, Seq::empty()));
        assert(r matches ScriptCmd::SeedKey { family, seed, level } && level@ == word_or(wv, 3, "1"@));
        assert(script_cmd_ok(line@, r));
        r
    } else if is_cmd(&cmd, "poke") {
        if ws.len() > 1 {
            let mut hex = String::new();
            let mut k: usize = 2;
            proof {
                assert(wv.skip(2).take(0) =~= Seq::<Seq<char>>::empty());
            }
            while k < ws.len()
                invariant
                    2 <= k <= ws@.len() == wv.len(),
                    forall|q: int| 0 <= q < ws@.len() ==> (#[trigger] ws@[q])@ == wv[q],
                    hex@ == concat(wv.skip(2).take(k - 2)),
                decreases ws.len() - k,
            {
                proof {
                    assert(wv.skip(2).take(k - 1).drop_last() =~= wv.skip(2).take(k - 2));
                }
                crate::text::push_chars(&mut hex, ws[k].as_slice());
                k += 1;
            }
            proof {
                assert(wv.skip(2).take(wv.len() - 2) =~= wv.skip(2));
            }
            let r = ScriptCmd::Poke { offset: Some(chars_to_string(ws[1].as_slice())), hex };
            assert(script_cmd_ok(line@, r));
            r
        } else {
            let r = ScriptCmd::Poke { offset: None, hex: String::new() };
            assert(script_cmd_ok(line@, r));
            r
        }
    } else if is_cmd(&cmd, "tables") {
        ScriptCmd::Tables
    } else if is_cmd(&cmd, "maplog") || is_cmd(&cmd, "map_from_log") {
        ScriptCmd::MapLog
    } else {
        let r = ScriptCmd::Unknown { cmd: chars_to_string(cmd.as_slice()) };
        assert(script_cmd_ok(line@, r));
        r
    }
}

/// The error of an unknown command.
pub fn unknown_command_error(cmd: &str) -> (r: String)
    ensures
        r@ == "unknown command '"@ + cmd@ + "'. Type help."@,
{
    let mut m = str_to_string("unknown command '");
    push_str(&mut m, cmd);
    push_str(&mut m, "'. Type help.");
    m
}

/// What a command needs before it runs: a working image (and, for
/// `compare`, a compare image). Help, seed/key and log commands need none.
pub open spec fn spec_precheck(c: ScriptCmd, bin_empty: bool, compare_empty: bool) -> Option<Seq<char>> {
    match c {
        ScriptCmd::Identify => if bin_empty {
            Some("No working BIN. Load a dump first."@)
        } else {
            None
        },
        ScriptCmd::Checksum | ScriptCmd::Correct | ScriptCmd::Poke { .. } | ScriptCmd::Tables => if bin_empty {
            Some("No working BIN."@)
        } else {
            None
        },
        ScriptCmd::Compare => if bin_empty || compare_empty {
            Some("Need a working BIN and a compare BIN."@)
        } else {
            None
        },
        _ => None,
    }
}

pub fn script_precheck(c: &ScriptCmd, bin_empty: bool, compare_empty: bool) -> (r: Option<String>)
    ensures
        match spec_precheck(*c, bin_empty, compare_empty) {
            Some(m) => r matches Some(x) && x@ == m,
            None => r is None,
        },
{
    match c {
        ScriptCmd::Identify => if bin_empty {
            Some(str_to_string("No working BIN. Load a dump first."))
        } else {
            None
        },
        ScriptCmd::Checksum | ScriptCmd::Correct | ScriptCmd::Poke { .. } | ScriptCmd::Tables => if bin_empty {
            Some(str_to_string("No working BIN."))
        } else {
            None
        },
        ScriptCmd::Compare => if bin_empty || compare_empty {
            Some(str_to_string("Need a working BIN and a compare BIN."))
        } else {
            None
        },
        _ => None,
    }
}

// ── Poke ────────────────────────────────────────────────────────────────────

/// `poke`: parse the offset and the bytes and write them over the working
/// image, refusing a write past its end. Gives the offset and the count.
pub open spec fn spec_poke(bin: Seq<u8>, offset: Option<Seq<char>>, hex: Seq<char>) -> Result<(nat, Seq<u8>), Seq<char>> {
    match offset {
        None => Err("poke OFFSET HEX"@),
        Some(o) => match spec_parse_offset(o) {
            Err(e) => Err("bad offset: "@ + int_err_text(e)),
            Ok(off) => match spec_script_hex(hex) {
                None => Err("hex must be even-length"@),
                Some(b) => if off + b.len() > bin.len() {
                    Err("poke past end: "@ + dec(off) + "+"@ + dec(b.len()) + " > "@ + dec(bin.len()))
                } else {
                    Ok((off, b))
                },
            },
        },
    }
}

pub fn poke(bin: &mut Vec<u8>, offset: Option<&str>, hex: &str) -> (r: Result<(usize, usize), String>)
    ensures
        match spec_poke(old(bin)@, match offset {
            Some(o) => Some(o@),
            None => None,
        }, hex@) {
            Err(m) => (r matches Err(x) && x@ == m) && final(bin)@ == old(bin)@,
            Ok((off, b)) => r == Ok::<(usize, usize), String>((off as usize, b.len() as usize)) && final(bin)@
                == old(bin)@.subrange(0, off as int) + b + old(bin)@.subrange(off + b.len() as int, old(bin)@.len() as int),
        },
{
    let o = match offset {
        None => {
            return Err(str_to_string("poke OFFSET HEX"));
        },
        Some(o) => o,
    };
    let off = match parse_offset(o) {
        Ok(v) => v,
        Err(e) => {
            return Err(e);
        },
    };
    let bytes = match hex_bytes(hex) {
        Ok(b) => b,
        Err(e) => {
            return Err(e);
        },
    };
    let n = bin.len();
    let bl = bytes.len();
    if off > n || bl > n - off {
        let mut m = str_to_string("poke past end: ");
        push_dec(&mut m, off as u64);
        push_str(&mut m, "+");
        push_dec(&mut m, bl as u64);
        push_str(&mut m, " > ");
        push_dec(&mut m, n as u64);
        return Err(m);
    }
    let ghost b0 = bin@;
    let mut k: usize = 0;
    while k < bytes.len()
        invariant
            k <= bytes@.len(),
            off + bytes@.len() <= n == bin@.len() == b0.len(),
            bin@ == b0.subrange(0, off as int) + bytes@.take(k as int) + b0.subrange(off + k, n as int),
        decreases bytes.len() - k,
    {
        bin.set(off + k, bytes[k]);
        k += 1;
        assert(bin@ =~= b0.subrange(0, off as int) + bytes@.take(k as int) + b0.subrange(off + k, n as int));
    }
    assert(bytes@.take(bytes@.len() as int) =~= bytes@);
    Ok((off, bytes.len()))
}

// ── `tables` ────────────────────────────────────────────────────────────────

/// The `tables` command: the TableSeek pack located in the image, with the
/// located and missing counts; when nothing is located, the start tables the
/// database gives for the image's size.
pub fn script_tables(db: &[EcuDbEntry], bin: &[u8], pack: Vec<TableSeekXml>) -> (r: (Vec<TableDef>, usize, usize))
    ensures
        exists|cp: Seq<CompiledSeek>|
            compiled_pack_ok(pack@, cp) && r.2 == cp.len() - r.1 && (r.1 > 0 ==> tables_ok(bin@, cp, r.0@)),
        r.1 == 0 ==> (r.0@.len() == tables_for_size(db@, bin@.len()).len() && forall|i: int|
            0 <= i < r.0@.len() ==> def_is(#[trigger] r.0@[i], tables_for_size(db@, bin@.len())[i])),
{
    let (located_tables, located, missing) = locate_p01_tables(bin, pack);
    if located_tables.len() == 0 {
        (get_tables_for_bin_size(db, bin.len()), located, missing)
    } else {
        (located_tables, located, missing)
    }
}

// ── Running a script ────────────────────────────────────────────────────────

/// What a line that ran came to: whether it changed the working image, and
/// whether it is left out of the report (blank lines and comments).
#[derive(Clone, Copy, Debug, PartialEq, Eq, Structural)]
pub struct LineDone {
    pub mutated: bool,
    pub skip: bool,
}

/// What a command that succeeds comes to: `correct` and `poke` change the
/// image, a blank line or comment is left out of the report.
pub fn line_done(cmd: &ScriptCmd) -> (r: LineDone)
    ensures
        r.mutated == (cmd is Correct || cmd is Poke),
        r.skip == (cmd is Skip),
{
    match cmd {
        ScriptCmd::Correct | ScriptCmd::Poke { .. } => LineDone { mutated: true, skip: false },
        ScriptCmd::Skip => LineDone { mutated: false, skip: true },
        _ => LineDone { mutated: false, skip: false },
    }
}

/// A script run so far: whether the image was changed, and the error that
/// stopped it, if one did.
#[derive(Debug)]
pub struct ScriptRun {
    pub mutated: bool,
    pub error: Option<String>,
}

/// A run that has not started.
pub fn script_run_start() -> (r: ScriptRun)
    ensures
        !r.mutated,
        r.error is None,
{
    ScriptRun { mutated: false, error: None }
}

/// Takes in what one line came to. The answer says whether the line goes
/// into the report: every failed line does, and every line that ran but was
/// not a blank line or comment. After an error the run is over
/// (`script_over`), the image counts as changed once any line changed it,
/// and the first error is the run's error.
pub fn script_step(run: ScriptRun, outcome: Result<LineDone, String>) -> (r: (ScriptRun, bool))
    requires
        run.error is None,
    ensures
        outcome matches Ok(d) ==> (r.0.mutated == (run.mutated || d.mutated) && r.0.error is None && r.1 == !d.skip),
        outcome matches Err(e) ==> (r.0.mutated == run.mutated && (r.0.error matches Some(x) && x@ == e@) && r.1),
{
    match outcome {
        Ok(d) => (ScriptRun { mutated: run.mutated || d.mutated, error: None }, !d.skip),
        Err(e) => (ScriptRun { mutated: run.mutated, error: Some(e) }, true),
    }
}

/// The run is over once a line has failed.
pub fn script_over(run: &ScriptRun) -> (r: bool)
    ensures
        r == run.error is Some,
{
    run.error.is_some()
}

/// The report carries the working image only when a line changed it.
pub fn script_returns_image(run: &ScriptRun) -> (r: bool)
    ensures
        r == run.mutated,
{
    run.mutated
}

} // verus!
