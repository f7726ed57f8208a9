//! Table definitions and the byte-level side of reading and patching them in
//! an image: calibration base, addresses, definition text scanning.
use vstd::prelude::*;
use crate::text::{
    str_to_string, str_chars, trim_chars, trim_ws, hex_val, is_hex_char, hex_value, is_ascii_hexdigit, hex_pad,
    push_hex_pad, push_str, push_chars, push_dec, dec, spec_parse_unsigned, parse_unsigned, chars_to_string, upper_seq,
    upper_vec, contains, contains_chars, starts_with,
};
use crate::a2l::{strip_rep, strip_prefix_rep, first_occ, find_from, split_nl, split_lines, lines_view};
use crate::checksum::ChecksumReport;
use crate::tableseek::{sanitize_id, spec_sanitize_id};

verus! {

/// A calibration table definition.
#[derive(Clone, Debug)]
pub struct TableDef {
    pub id: String,
    pub name: String,
    pub category: Option<String>,
    pub description: String,
    pub rows: usize,
    pub cols: usize,
    /// Calibration-relative address text (hex or decimal).
    pub addr: String,
    pub data_type: String,
    pub math: String,
    pub units: String,
    pub row_major: bool,
    pub msb: bool,
    pub row_headers: Option<String>,
    pub col_headers: Option<String>,
    pub decimals: u8,
    /// The address is a file offset, not calibration-relative.
    pub file_offset: bool,
}

impl Default for TableDef {
    fn default() -> (r: Self)
        ensures
            r.id@.len() == 0 && r.name@.len() == 0 && r.category is None && r.description@.len() == 0,
            r.rows == 0 && r.cols == 0 && r.addr@.len() == 0 && r.data_type@.len() == 0,
            r.math@.len() == 0 && r.units@.len() == 0 && !r.row_major && !r.msb,
            r.row_headers is None && r.col_headers is None && r.decimals == 0 && !r.file_offset,
    {
        TableDef {
            id: String::new(),
            name: String::new(),
            category: None,
            description: String::new(),
            rows: 0,
            cols: 0,
            addr: String::new(),
            data_type: String::new(),
            math: String::new(),
            units: String::new(),
            row_major: false,
            msb: false,
            row_headers: None,
            col_headers: None,
            decimals: 0,
            file_offset: false,
        }
    }
}

/// Calibration base of an image: 0x20000 for full images (0x28000 bytes or
/// more), 0 for calibration-only files.
pub fn cal_base_for_bytes(len: usize) -> (r: usize)
    ensures
        r == if len >= 0x28000 { 0x20000usize } else { 0usize },
{
    if len >= 0x28000 {
        0x20000
    } else {
        0
    }
}

// ── Addresses ───────────────────────────────────────────────────────────────

/// The address text without surrounding whitespace and leading `0x`/`0X` runs.
pub open spec fn addr_digits(a: Seq<char>) -> Seq<char> {
    strip_rep(strip_rep(trim_ws(a), "0x"@), "0X"@)
}

fn addr_digits_exec(a: &str) -> (r: Vec<char>)
    ensures
        r@ == addr_digits(a@),
{
    let t = trim_chars(str_chars(a).as_slice());
    let lx = str_chars("0x");
    let ux = str_chars("0X");
    let t1 = strip_prefix_rep(t.as_slice(), lx.as_slice());
    strip_prefix_rep(t1.as_slice(), ux.as_slice())
}

pub open spec fn hex_number(d: Seq<char>) -> nat
    decreases d.len(),
{
    if d.len() == 0 {
        0
    } else {
        hex_number(d.drop_last()) * 16 + hex_val(d.last())
    }
}

pub open spec fn all_hex(d: Seq<char>) -> bool {
    forall|k: int| 0 <= k < d.len() ==> is_hex_char(#[trigger] d[k])
}

/// `usize::from_str_radix(_, 16)`: an optional `+`, at least one hex digit,
/// in range.
pub open spec fn spec_parse_hex_usize(s: Seq<char>) -> Option<nat> {
    let d = if s.len() > 0 && s[0] == '+' {
        s.drop_first()
    } else {
        s
    };
    if d.len() == 0 || !all_hex(d) || hex_number(d) > usize::MAX {
        None
    } else {
        Some(hex_number(d))
    }
}

fn parse_hex_usize(s: &[char]) -> (r: Option<usize>)
    ensures
        r matches Some(v) ==> spec_parse_hex_usize(s@) == Some(v as nat),
        r is None ==> spec_parse_hex_usize(s@) is None,
{
    let plus = s.len() > 0 && s[0] == '+';
    let d = if plus {
        vstd::slice::slice_subrange(s, 1, s.len())
    } else {
        vstd::slice::slice_subrange(s, 0, s.len())
    };
    assert(d@ == if s@.len() > 0 && s@[0] == '+' { s@.drop_first() } else { s@ });
    if d.len() == 0 {
        return None;
    }
    let cap: u128 = usize::MAX as u128 + 1;
    let mut acc: u128 = 0;
    let mut i: usize = 0;
    while i < d.len()
        invariant
            i <= d@.len(),
            d@ == (if s@.len() > 0 && s@[0] == '+' { s@.drop_first() } else { s@ }),
            cap == usize::MAX + 1,
            all_hex(d@.take(i as int)),
            acc == if hex_number(d@.take(i as int)) < cap { hex_number(d@.take(i as int)) } else { cap as nat },
        decreases d.len() - i,
    {
        let c = d[i];
        assert(d@.take(i + 1).drop_last() == d@.take(i as int));
        if !is_ascii_hexdigit(c) {
            assert(!is_hex_char(d@[i as int]));
            return None;
        }
        let ghost old_v = hex_number(d@.take(i as int));
        let digit = hex_value(c) as u128;
        let next = acc * 16 + digit;
        if acc == cap {
            assert(old_v * 16 + digit >= cap) by (nonlinear_arith)
                requires
                    old_v >= cap,
            ;
        }
        acc = if next < cap {
            next
        } else {
            cap
        };
        assert(all_hex(d@.take(i + 1))) by {
            assert forall|j: int| 0 <= j < i + 1 implies is_hex_char(#[trigger] d@.take(i + 1)[j]) by {
                if j < i {
                    assert(d@.take(i + 1)[j] == d@.take(i as int)[j]);
                }
            }
        }
        i += 1;
    }
    assert(d@.take(d@.len() as int) == d@);
    if acc > usize::MAX as u128 {
        None
    } else {
        Some(acc as usize)
    }
}

/// A definition's address: hex, with or without `0x`; 0x8000 when it does
/// not parse.
pub open spec fn spec_parse_addr(a: Seq<char>) -> nat {
    match spec_parse_hex_usize(addr_digits(a)) {
        Some(v) => v,
        None => 0x8000,
    }
}

pub fn parse_addr(a: &str) -> (r: usize)
    ensures
        r == spec_parse_addr(a@),
{
    let t = addr_digits_exec(a);
    match parse_hex_usize(t.as_slice()) {
        Some(v) => v,
        None => 0x8000,
    }
}

/// UTF-8 length of a text, in bytes.
pub open spec fn utf8_len(s: Seq<char>) -> nat
    decreases s.len(),
{
    if s.len() == 0 {
        0
    } else {
        utf8_len(s.drop_last()) + (if (s.last() as u32) < 0x80 {
            1nat
        } else if (s.last() as u32) < 0x800 {
            2nat
        } else if (s.last() as u32) < 0x10000 {
            3nat
        } else {
            4nat
        })
    }
}

/// The UTF-8 length is at least 4 bytes.
fn utf8_at_least_4(s: &Vec<char>) -> (r: bool)
    ensures
        r == (utf8_len(s@) >= 4),
{
    let mut n: usize = 0;
    let mut i: usize = 0;
    proof {
        assert(s@.take(0) =~= Seq::<char>::empty());
    }
    while i < s.len() && n < 4
        invariant
            i <= s@.len(),
            n == utf8_len(s@.take(i as int)),
        decreases s.len() - i,
    {
        proof {
            assert(s@.take(i + 1).drop_last() =~= s@.take(i as int));
        }
        let c = s[i] as u32;
        n = n + if c < 0x80 {
            1
        } else if c < 0x800 {
            2
        } else if c < 0x10000 {
            3
        } else {
            4
        };
        i += 1;
    }
    if n >= 4 {
        proof {
            lemma_utf8_len_grows(s@, i as int);
        }
        true
    } else {
        proof {
            assert(s@.take(s@.len() as int) =~= s@);
        }
        false
    }
}

proof fn lemma_utf8_len_grows(s: Seq<char>, i: int)
    requires
        0 <= i <= s.len(),
    ensures
        utf8_len(s) >= utf8_len(s.take(i)),
    decreases s.len() - i,
{
    if i < s.len() {
        lemma_utf8_len_grows(s, i + 1);
        assert(s.take(i + 1).drop_last() =~= s.take(i));
    } else {
        assert(s.take(i) =~= s);
    }
}

/// An address normalised to `0x` text: four or more bytes of digits are kept
/// as they are, shorter text is read as a decimal `u32` (0x8000 when it does
/// not parse) and written as eight upper-case hex digits.
pub open spec fn spec_normalize_addr(a: Seq<char>) -> Seq<char> {
    let t = addr_digits(a);
    if utf8_len(t) >= 4 {
        "0x"@ + t
    } else {
        let v = match spec_parse_unsigned(t, u32::MAX as nat) {
            Some(v) => v,
            None => 0x8000,
        };
        "0x"@ + hex_pad(v, 8)
    }
}

pub fn normalize_addr(a: &str) -> (r: String)
    ensures
        r@ == spec_normalize_addr(a@),
{
    let t = addr_digits_exec(a);
    let mut out = str_to_string("0x");
    if utf8_at_least_4(&t) {
        push_chars(&mut out, t.as_slice());
    } else {
        let v: u64 = match parse_unsigned(t.as_slice(), 0xFFFF_FFFF) {
            Some(v) => v,
            None => 0x8000,
        };
        push_hex_pad(&mut out, v, 8);
    }
    out
}

// ── Tag text ────────────────────────────────────────────────────────────────

/// The trimmed text between the first `<tag>` and the first `</tag>` of a
/// line, when the closing tag comes after the opening one.
pub open spec fn spec_extract_tag(line: Seq<char>, tag: Seq<char>) -> Option<Seq<char>> {
    let open = "<"@ + tag + ">"@;
    let close = "</"@ + tag + ">"@;
    match first_occ(line, open, 0) {
        Some(s) => match first_occ(line, close, 0) {
            Some(e) => if e > s + open.len() {
                Some(trim_ws(line.subrange(s + open.len() as int, e as int)))
            } else {
                None
            },
            None => None,
        },
        None => None,
    }
}

pub fn extract_tag(line: &[char], tag: &str) -> (r: Option<Vec<char>>)
    ensures
        r matches Some(v) ==> spec_extract_tag(line@, tag@) == Some(v@),
        r is None ==> spec_extract_tag(line@, tag@) is None,
{
    let mut open = str_chars("<");
    let tv = str_chars(tag);
    let mut k: usize = 0;
    let ghost o0 = open@;
    while k < tv.len()
        invariant
            k <= tv@.len(),
            open@ == o0 + tv@.take(k as int),
        decreases tv.len() - k,
    {
        open.push(tv[k]);
        k += 1;
        assert(open@ =~= o0 + tv@.take(k as int));
    }
    open.push('>');
    let mut close = str_chars("</");
    let ghost c0 = close@;
    let mut k: usize = 0;
    while k < tv.len()
        invariant
            k <= tv@.len(),
            close@ == c0 + tv@.take(k as int),
        decreases tv.len() - k,
    {
        close.push(tv[k]);
        k += 1;
        assert(close@ =~= c0 + tv@.take(k as int));
    }
    close.push('>');
    proof {
        reveal_strlit("<");
        reveal_strlit(">");
        reveal_strlit("</");
        assert(tv@.take(tv@.len() as int) =~= tv@);
        assert(open@ =~= "<"@ + tag@ + ">"@);
        assert(close@ =~= "</"@ + tag@ + ">"@);
    }
    let ol = open.len();
    let ll = line.len();
    match find_from(line, open.as_slice(), 0) {
        Some(s) => match find_from(line, close.as_slice(), 0) {
            Some(e) => {
                if e > s + ol {
                    let v = trim_chars(vstd::slice::slice_subrange(line, s + ol, e));
                    Some(v)
                } else {
                    None
                }
            },
            None => None,
        },
        None => None,
    }
}

// ── Patching ────────────────────────────────────────────────────────────────

/// A patched image, its checksum report if one was made, and a message.
#[derive(Debug)]
pub struct PatchResult {
    pub patched_bytes: Vec<u8>,
    pub checksum_report: Option<ChecksumReport>,
    pub message: String,
}

pub open spec fn is_word_type(t: Seq<char>) -> bool {
    contains(upper_seq(t), "WORD"@)
}

fn is_word_type_exec(t: &String) -> (r: bool)
    ensures
        r == is_word_type(t@),
{
    let up = upper_vec(str_chars(t.as_str()).as_slice());
    let w = str_chars("WORD");
    contains_chars(up.as_slice(), w.as_slice())
}

/// The bytes a patch of `rows` x `cols` values needs: calibration base plus
/// table address plus the values.
pub open spec fn patch_need(bin_len: nat, def: TableDef, rows: nat, cols: nat) -> int {
    (if bin_len >= 0x28000 { 0x20000int } else { 0int }) + spec_parse_addr(def.addr@) + rows * cols * (if is_word_type(
        def.data_type@,
    ) { 2int } else { 1int })
}

/// The refusal of a patch that would run past the image.
pub open spec fn patch_refusal(bin_len: nat, def: TableDef, rows: nat, cols: nat) -> Seq<char> {
    let base: nat = if bin_len >= 0x28000 { 0x20000 } else { 0 };
    "Refuse patch: table '"@ + def.name@ + "' needs offset 0x"@ + crate::text::hex(base + spec_parse_addr(def.addr@))
        + "..0x"@ + crate::text::hex(patch_need(bin_len, def, rows, cols) as nat) + " but BIN is only "@ + dec(bin_len)
        + " bytes (addr "@ + def.addr@ + " + cal base 0x"@ + crate::text::hex(base) + "). Wrong definition or wrong image size."@
}

/// A patch of `rows` rows of `cols` values fits the image, or is refused.
pub fn patch_range_check(bin_len: usize, def: &TableDef, rows: usize, cols: usize) -> (r: Result<(), String>)
    requires
        patch_need(bin_len as nat, *def, rows as nat, cols as nat) <= usize::MAX,
    ensures
        patch_need(bin_len as nat, *def, rows as nat, cols as nat) <= bin_len ==> r is Ok,
        patch_need(bin_len as nat, *def, rows as nat, cols as nat) > bin_len ==> (r matches Err(e) && e@ == patch_refusal(
            bin_len as nat,
            *def,
            rows as nat,
            cols as nat,
        )),
{
    let base: usize = cal_base_for_bytes(bin_len);
    let addr = parse_addr(def.addr.as_str());
    let esz: u128 = if is_word_type_exec(&def.data_type) {
        2
    } else {
        1
    };
    assert(rows as int * cols as int <= usize::MAX * usize::MAX) by (nonlinear_arith)
        requires
            rows <= usize::MAX,
            cols <= usize::MAX,
    ;
    let cells: u128 = rows as u128 * cols as u128;
    let start: u128 = base as u128 + addr as u128;
    let need: u128 = start + cells * esz;
    if need <= bin_len as u128 {
        return Ok(());
    }
    let mut e = str_to_string("Refuse patch: table '");
    push_str(&mut e, def.name.as_str());
    push_str(&mut e, "' needs offset 0x");
    crate::text::push_hex(&mut e, start as u64);
    push_str(&mut e, "..0x");
    crate::text::push_hex(&mut e, need as u64);
    push_str(&mut e, " but BIN is only ");
    push_dec(&mut e, bin_len as u64);
    push_str(&mut e, " bytes (addr ");
    push_str(&mut e, def.addr.as_str());
    push_str(&mut e, " + cal base 0x");
    crate::text::push_hex(&mut e, base as u64);
    push_str(&mut e, "). Wrong definition or wrong image size.");
    Err(e)
}

/// The message of a patch that was applied.
pub fn patch_message(def: &TableDef, rows: usize, cols: usize) -> (r: String)
    ensures
        r@ == "Patched table "@ + def.name@ + " at "@ + def.addr@ + " ("@ + dec(rows as nat) + "x"@ + dec(cols as nat) + ")"@,
{
    let mut m = str_to_string("Patched table ");
    push_str(&mut m, def.name.as_str());
    push_str(&mut m, " at ");
    push_str(&mut m, def.addr.as_str());
    push_str(&mut m, " (");
    push_dec(&mut m, rows as u64);
    push_str(&mut m, "x");
    push_dec(&mut m, cols as u64);
    push_str(&mut m, ")");
    m
}

/// One raw value as written: a word is stored big-endian (a negative value
/// as its 16-bit two's complement), a byte is clamped to 0..=255.
pub open spec fn word_bytes(u: i64) -> (u8, u8) {
    let w: i64 = if u < 0 { (u + 0x10000) as i64 } else { u };
    (((w >> 8) & 0xff) as u8, (w & 0xff) as u8)
}

pub open spec fn clamp_byte(u: i64) -> u8 {
    if u < 0 {
        0
    } else if u > 255 {
        255
    } else {
        u as u8
    }
}

/// The image after writing the raw values, row after row, from `start`:
/// words take two bytes and are written when both fit, bytes one.
pub open spec fn spec_patch_raw(bin: Seq<u8>, start: int, word: bool, raws: Seq<i64>) -> Seq<u8>
    decreases raws.len(),
{
    if raws.len() == 0 {
        bin
    } else {
        let prev = spec_patch_raw(bin, start, word, raws.drop_last());
        let k = raws.len() - 1;
        if word {
            let off = start + 2 * k;
            if off + 1 < bin.len() {
                prev.update(off, word_bytes(raws.last()).0).update(off + 1, word_bytes(raws.last()).1)
            } else {
                prev
            }
        } else {
            let off = start + k;
            if off < bin.len() {
                prev.update(off, clamp_byte(raws.last()))
            } else {
                prev
            }
        }
    }
}

pub open spec fn flat(rows: Seq<Vec<i64>>) -> Seq<i64>
    decreases rows.len(),
{
    if rows.len() == 0 {
        Seq::empty()
    } else {
        flat(rows.drop_last()) + rows.last()@
    }
}

pub open spec fn patch_start(bin_len: nat, def: TableDef) -> int {
    (if bin_len >= 0x28000 { 0x20000int } else { 0int }) + spec_parse_addr(def.addr@)
}

pub open spec fn elem_size(def: TableDef) -> int {
    if is_word_type(def.data_type@) {
        2
    } else {
        1
    }
}

proof fn lemma_flat_prefix(s: Seq<Vec<i64>>, i: int)
    requires
        0 <= i <= s.len(),
    ensures
        flat(s.take(i)).len() <= flat(s).len(),
        i < s.len() ==> flat(s.take(i + 1)).len() == flat(s.take(i)).len() + s[i]@.len(),
    decreases s.len() - i,
{
    if i < s.len() {
        assert(s.take(i + 1).drop_last() =~= s.take(i));
        lemma_flat_prefix(s, i + 1);
    } else {
        assert(s.take(i) =~= s);
    }
}

/// Writes raw table values into the image at the definition's address
/// (calibration base added), row after row. Values that would fall past the
/// image are skipped.
pub fn patch_raw_values(bin: Vec<u8>, def: &TableDef, raws: &[Vec<i64>]) -> (r: Vec<u8>)
    requires
        patch_start(bin@.len(), *def) + elem_size(*def) * flat(raws@).len() <= usize::MAX,
    ensures
        r@ == spec_patch_raw(bin@, patch_start(bin@.len(), *def), is_word_type(def.data_type@), flat(raws@)),
{
    let mut bin = bin;
    let ghost b0 = bin@;
    let n = bin.len();
    let base = cal_base_for_bytes(n);
    let addr = parse_addr(def.addr.as_str());
    let ghost start: int = base + addr;
    let ghost total = flat(raws@).len();
    let word = is_word_type_exec(&def.data_type);
    let ghost esz: int = if word { 2 } else { 1 };
    assert(start + esz * total <= usize::MAX);
    assert(0 <= esz * total) by (nonlinear_arith)
        requires esz >= 1;
    let mut off: usize = base + addr;
    let ghost mut done: Seq<i64> = Seq::empty();
    let mut ri: usize = 0;
    proof {
        assert(raws@.take(0) =~= Seq::<Vec<i64>>::empty());
    }
    while ri < raws.len()
        invariant
            ri <= raws@.len(),
            n == b0.len() == bin@.len(),
            esz == (if word { 2int } else { 1int }),
            total == flat(raws@).len(),
            start + esz * total <= usize::MAX,
            done == flat(raws@.take(ri as int)),
            bin@ == spec_patch_raw(b0, start, word, done),
            off == start + esz * done.len(),
        decreases raws.len() - ri,
    {
        let row = &raws[ri];
        let ghost d0 = done;
        proof {
            lemma_flat_prefix(raws@, ri as int);
            lemma_flat_prefix(raws@, ri + 1);
        }
        let mut ci: usize = 0;
        proof {
            assert(row@.take(0) =~= Seq::<i64>::empty());
            assert(d0 + row@.take(0) =~= d0);
        }
        while ci < row.len()
            invariant
                ci <= row@.len(),
                n == b0.len() == bin@.len(),
                esz == (if word { 2int } else { 1int }),
                start + esz * total <= usize::MAX,
                d0.len() + row@.len() <= total,
                done == d0 + row@.take(ci as int),
                bin@ == spec_patch_raw(b0, start, word, done),
                off == start + esz * done.len(),
            decreases row.len() - ci,
        {
            let u = row[ci];
            proof {
                assert((d0 + row@.take(ci + 1)).drop_last() =~= d0 + row@.take(ci as int));
                assert(done.len() + 1 <= total);
                assert(esz * (done.len() + 1) <= esz * total) by (nonlinear_arith)
                    requires done.len() + 1 <= total, esz >= 1;
                assert(esz * (done.len() + 1) == esz * done.len() + esz) by (nonlinear_arith);
            }
            if word {
                let w: i64 = if u < 0 {
                    u + 0x10000
                } else {
                    u
                };
                if off < n && off + 1 < n {
                    bin.set(off, ((w >> 8) & 0xff) as u8);
                    bin.set(off + 1, (w & 0xff) as u8);
                }
                off = off + 2;
            } else {
                let b: u8 = if u < 0 {
                    0
                } else if u > 255 {
                    255
                } else {
                    u as u8
                };
                if off < n {
                    bin.set(off, b);
                }
                off = off + 1;
            }
            proof {
                assert(done.push(u).drop_last() =~= done);
                assert(done.push(u).last() == u);
                done = done.push(u);
            }
            ci += 1;
        }
        proof {
            assert(row@.take(row@.len() as int) =~= row@);
            assert(raws@.take(ri + 1).drop_last() =~= raws@.take(ri as int));
        }
        ri += 1;
    }
    proof {
        assert(raws@.take(raws@.len() as int) =~= raws@);
    }
    bin
}

// ── Reading raw values back ─────────────────────────────────────────────────

/// Data types whose name (upper-cased) starts with `S` are signed.
pub open spec fn is_signed_type(t: Seq<char>) -> bool {
    upper_seq(t).len() > 0 && upper_seq(t)[0] == 'S'
}

/// A big-endian word, two's complement when signed.
pub open spec fn raw_word(hi: u8, lo: u8, signed: bool) -> i64 {
    let v: int = hi as int * 256 + lo as int;
    (if signed && v > 0x7FFF { v - 0x10000 } else { v }) as i64
}

/// A byte, two's complement when signed.
pub open spec fn raw_byte(b: u8, signed: bool) -> i64 {
    (if signed && b > 0x7F { b as int - 0x100 } else { b as int }) as i64
}

pub open spec fn raw_at(bin: Seq<u8>, off: int, word: bool, signed: bool) -> i64 {
    if word {
        raw_word(bin[off], bin[off + 1], signed)
    } else {
        raw_byte(bin[off], signed)
    }
}

/// Rows and columns of a definition, at least one each.
pub open spec fn table_rows(def: TableDef) -> nat {
    if def.rows == 0 { 1 } else { def.rows as nat }
}

pub open spec fn table_cols(def: TableDef) -> nat {
    if def.cols == 0 { 1 } else { def.cols as nat }
}

/// The whole table lies inside the image.
pub open spec fn extract_fits(bin_len: nat, def: TableDef) -> bool {
    patch_start(bin_len, def) + table_rows(def) * table_cols(def) * elem_size(def) <= bin_len
}

/// The raw value of cell (`r`, `c`); cells are stored row after row.
pub open spec fn raw_cell(bin: Seq<u8>, def: TableDef, r: int, c: int) -> i64 {
    raw_at(
        bin,
        patch_start(bin.len(), def) + elem_size(def) * (r * table_cols(def) + c),
        is_word_type(def.data_type@),
        is_signed_type(def.data_type@),
    )
}

pub open spec fn raw_table_ok(bin: Seq<u8>, def: TableDef, v: Seq<Vec<i64>>) -> bool {
    &&& v.len() == table_rows(def)
    &&& forall|i: int| 0 <= i < v.len() ==> (#[trigger] v[i])@.len() == table_cols(def)
    &&& forall|i: int, j: int|
        0 <= i < v.len() && 0 <= j < table_cols(def) ==> (#[trigger] v[i]@[j]) == raw_cell(bin, def, i, j)
}

fn is_signed_type_exec(t: &String) -> (r: bool)
    ensures
        r == is_signed_type(t@),
{
    let up = upper_vec(str_chars(t.as_str()).as_slice());
    up.len() > 0 && up[0] == 'S'
}

/// Reads the raw values of a table from the image at the definition's
/// address (calibration base added): `None` when the table runs past the
/// image.
pub fn extract_raw_values(bin: &[u8], def: &TableDef) -> (r: Option<Vec<Vec<i64>>>)
    ensures
        r is None <==> !extract_fits(bin@.len(), *def),
        r matches Some(v) ==> raw_table_ok(bin@, *def, v@),
{
    let n = bin.len();
    let base = cal_base_for_bytes(n);
    let addr = parse_addr(def.addr.as_str());
    let word = is_word_type_exec(&def.data_type);
    let signed = is_signed_type_exec(&def.data_type);
    let rows: usize = if def.rows == 0 { 1 } else { def.rows };
    let cols: usize = if def.cols == 0 { 1 } else { def.cols };
    let esz: usize = if word { 2 } else { 1 };
    let ghost start: int = patch_start(n as nat, *def);
    let ghost total: int = table_rows(*def) * table_cols(*def) * elem_size(*def);
    assert(total >= 0) by (nonlinear_arith)
        requires total == table_rows(*def) * table_cols(*def) * elem_size(*def), elem_size(*def) >= 1;
    let need: usize = match base.checked_add(addr) {
        None => return None,
        Some(st) => match rows.checked_mul(cols) {
            None => {
                assert(rows * cols * esz >= rows * cols) by (nonlinear_arith)
                    requires esz >= 1, rows >= 1, cols >= 1;
                return None;
            },
            Some(rc) => match rc.checked_mul(esz) {
                None => return None,
                Some(len) => match st.checked_add(len) {
                    None => return None,
                    Some(need) => need,
                },
            },
        },
    };
    if need > n {
        return None;
    }
    let start_x: usize = base + addr;
    let mut out: Vec<Vec<i64>> = Vec::new();
    let mut r: usize = 0;
    while r < rows
        invariant
            n == bin@.len(),
            rows == table_rows(*def),
            cols == table_cols(*def),
            esz == elem_size(*def),
            word == is_word_type(def.data_type@),
            signed == is_signed_type(def.data_type@),
            start_x == start,
            start == patch_start(n as nat, *def),
            start + rows * cols * esz <= n,
            r <= rows,
            out@.len() == r,
            forall|i: int| 0 <= i < r ==> (#[trigger] out@[i])@.len() == cols,
            forall|i: int, j: int|
                0 <= i < r && 0 <= j < cols ==> (#[trigger] out@[i]@[j]) == raw_cell(bin@, *def, i, j),
        decreases rows - r,
    {
        let mut row: Vec<i64> = Vec::new();
        let mut c: usize = 0;
        while c < cols
            invariant
                n == bin@.len(),
                rows == table_rows(*def),
                cols == table_cols(*def),
                esz == elem_size(*def),
                word == is_word_type(def.data_type@),
                signed == is_signed_type(def.data_type@),
                start_x == start,
                start == patch_start(n as nat, *def),
                start + rows * cols * esz <= n,
                r < rows,
                c <= cols,
                row@.len() == c,
                forall|j: int| 0 <= j < c ==> (#[trigger] row@[j]) == raw_cell(bin@, *def, r as int, j),
            decreases cols - c,
        {
            assert(esz * (r * cols + c) + esz <= rows * cols * esz) by (nonlinear_arith)
                requires r < rows, c < cols, esz >= 1;
            let idx: usize = start_x + esz * (r * cols + c);
            let v: i64 = if word {
                let hi = bin[idx];
                let lo = bin[idx + 1];
                let w: i64 = hi as i64 * 256 + lo as i64;
                if signed && w > 0x7FFF {
                    w - 0x10000
                } else {
                    w
                }
            } else {
                let b = bin[idx];
                if signed && b > 0x7F {
                    b as i64 - 0x100
                } else {
                    b as i64
                }
            };
            row.push(v);
            c += 1;
        }
        out.push(row);
        r += 1;
    }
    Some(out)
}

/// Values that the table's type holds exactly.
pub open spec fn raw_fits(v: i64, word: bool, signed: bool) -> bool {
    if word {
        if signed { -0x8000 <= v <= 0x7FFF } else { 0 <= v <= 0xFFFF }
    } else {
        if signed { 0 <= v <= 0x7F } else { 0 <= v <= 0xFF }
    }
}

proof fn lemma_flat_index(raws: Seq<Vec<i64>>, cols: nat)
    requires
        forall|i: int| 0 <= i < raws.len() ==> (#[trigger] raws[i])@.len() == cols,
    ensures
        flat(raws).len() == raws.len() * cols,
        forall|i: int, j: int|
            0 <= i < raws.len() && 0 <= j < cols ==> flat(raws)[i * cols + j] == (#[trigger] raws[i]@[j]),
    decreases raws.len(),
{
    if raws.len() > 0 {
        let p = raws.drop_last();
        lemma_flat_index(p, cols);
        let k = raws.len() - 1;
        assert(raws.last() == raws[k]);
        assert(p.len() * cols + cols == raws.len() * cols) by (nonlinear_arith)
            requires p.len() == raws.len() - 1;
        assert forall|i: int, j: int| 0 <= i < raws.len() && 0 <= j < cols implies flat(raws)[i * cols + j]
            == (#[trigger] raws[i]@[j]) by {
            if i < k {
                assert(i * cols + j < p.len() * cols) by (nonlinear_arith)
                    requires i < p.len(), 0 <= j < cols, 0 <= i;
                assert(p[i] == raws[i]);
            } else {
                assert(i * cols == p.len() * cols) by (nonlinear_arith)
                    requires i == p.len();
            }
        }
    } else {
        assert(raws.len() * cols == 0) by (nonlinear_arith)
            requires raws.len() == 0;
    }
}

proof fn lemma_patch_raw_at(bin: Seq<u8>, start: int, word: bool, s: Seq<i64>)
    requires
        0 <= start,
        start + (if word { 2int } else { 1int }) * s.len() <= bin.len(),
    ensures
        spec_patch_raw(bin, start, word, s).len() == bin.len(),
        forall|k: int| 0 <= k < s.len() ==> (word ==> {
            &&& spec_patch_raw(bin, start, word, s)[start + 2 * k] == word_bytes(#[trigger] s[k]).0
            &&& spec_patch_raw(bin, start, word, s)[start + 2 * k + 1] == word_bytes(s[k]).1
        }) && (!word ==> spec_patch_raw(bin, start, word, s)[start + k] == clamp_byte(s[k])),
    decreases s.len(),
{
    if s.len() > 0 {
        let p = s.drop_last();
        lemma_patch_raw_at(bin, start, word, p);
        assert forall|k: int| 0 <= k < p.len() implies p[k] == #[trigger] s[k] by {}
    }
}

proof fn lemma_word_roundtrip(v: i64, signed: bool)
    requires
        raw_fits(v, true, signed),
    ensures
        raw_word(word_bytes(v).0, word_bytes(v).1, signed) == v,
{
    let w: i64 = if v < 0 { (v + 0x10000) as i64 } else { v };
    assert(0 <= w <= 0xFFFF);
    let hi: u8 = ((w >> 8) & 0xff) as u8;
    let lo: u8 = (w & 0xff) as u8;
    assert(hi == ((w >> 8) & 0xff) as u8);
    assert(lo == (w & 0xff) as u8);
    assert(hi as i64 * 256 + lo as i64 == w) by (bit_vector)
        requires
            0 <= w <= 0xFFFF,
            hi == ((w >> 8) & 0xff) as u8,
            lo == (w & 0xff) as u8,
    ;
    assert(word_bytes(v) == (hi, lo));
}

/// Law: raw values written into a table that lies inside the image, each one
/// that the table's type holds exactly, are read back unchanged.
pub proof fn law_patch_then_extract(bin: Seq<u8>, def: TableDef, raws: Seq<Vec<i64>>)
    requires
        extract_fits(bin.len(), def),
        raws.len() == table_rows(def),
        forall|i: int| 0 <= i < raws.len() ==> (#[trigger] raws[i])@.len() == table_cols(def),
        forall|i: int, j: int|
            0 <= i < raws.len() && 0 <= j < table_cols(def) ==> raw_fits(
                #[trigger] raws[i]@[j],
                is_word_type(def.data_type@),
                is_signed_type(def.data_type@),
            ),
    ensures
        ({
            let p = spec_patch_raw(bin, patch_start(bin.len(), def), is_word_type(def.data_type@), flat(raws));
            &&& p.len() == bin.len()
            &&& forall|i: int, j: int|
                0 <= i < raws.len() && 0 <= j < table_cols(def) ==> raw_cell(p, def, i, j) == #[trigger] raws[i]@[j]
        }),
{
    let word = is_word_type(def.data_type@);
    let signed = is_signed_type(def.data_type@);
    let start = patch_start(bin.len(), def);
    let cols = table_cols(def);
    let s = flat(raws);
    lemma_flat_index(raws, cols);
    let esz: int = if word { 2 } else { 1 };
    assert(esz == elem_size(def));
    assert(table_rows(def) * cols * esz == esz * s.len()) by (nonlinear_arith)
        requires s.len() == table_rows(def) * cols;
    lemma_patch_raw_at(bin, start, word, s);
    let p = spec_patch_raw(bin, start, word, s);
    assert forall|i: int, j: int| 0 <= i < raws.len() && 0 <= j < cols implies raw_cell(p, def, i, j)
        == #[trigger] raws[i]@[j] by {
        let k = i * cols + j;
        assert(0 <= k < s.len()) by (nonlinear_arith)
            requires k == i * cols + j, 0 <= i < raws.len(), 0 <= j < cols, s.len() == raws.len() * cols;
        assert(s[k] == raws[i]@[j]);
        assert(p.len() == bin.len());
        assert(patch_start(p.len(), def) == start);
        if word {
            assert(esz * k == 2 * k);
            lemma_word_roundtrip(s[k], signed);
        } else {
            assert(esz * k == k);
        }
    }
}

/// Writing raw values from `start` touches no byte before `start` or at or
/// past `start + elem * count`.
proof fn lemma_patch_raw_frame(bin: Seq<u8>, start: int, word: bool, s: Seq<i64>)
    requires
        0 <= start,
    ensures
        spec_patch_raw(bin, start, word, s).len() == bin.len(),
        forall|i: int|
            0 <= i < bin.len() && !(start <= i < start + (if word { 2int } else { 1int }) * s.len())
                ==> #[trigger] spec_patch_raw(bin, start, word, s)[i] == bin[i],
    decreases s.len(),
{
    if s.len() > 0 {
        lemma_patch_raw_frame(bin, start, word, s.drop_last());
    }
}

/// Law: the cell (`r`, `c`) of a table is read from the byte at the
/// calibration base of the image (0x20000 for images of 0x28000 bytes or
/// more, else 0) plus the table's address plus one element (two bytes for a
/// word type, one for a byte) per cell before it, row after row; a word is
/// big-endian.
pub proof fn law_table_cell_address(bin: Seq<u8>, def: TableDef, r: int, c: int)
    ensures
        ({
            let base: int = if bin.len() >= 0x28000 { 0x20000 } else { 0 };
            let esz: int = if is_word_type(def.data_type@) { 2 } else { 1 };
            let off = base + spec_parse_addr(def.addr@) + esz * (r * table_cols(def) + c);
            let signed = is_signed_type(def.data_type@);
            raw_cell(bin, def, r, c) as int == if is_word_type(def.data_type@) {
                let v: int = bin[off] as int * 256 + bin[off + 1] as int;
                if signed && v >= 0x8000 { v - 0x10000 } else { v }
            } else {
                let v: int = bin[off] as int;
                if signed && v >= 0x80 { v - 0x100 } else { v }
            }
        }),
{
}

/// Law: patching a table writes its values from the calibration base of the
/// image (0x20000 for images of 0x28000 bytes or more, else 0) plus the
/// table's address, one element per value, and leaves every other byte of
/// the image as it was; the length is kept.
pub proof fn law_patch_location(bin: Seq<u8>, def: TableDef, raws: Seq<Vec<i64>>)
    ensures
        ({
            let base: int = if bin.len() >= 0x28000 { 0x20000 } else { 0 };
            let esz: int = if is_word_type(def.data_type@) { 2 } else { 1 };
            let start = base + spec_parse_addr(def.addr@);
            let p = spec_patch_raw(bin, patch_start(bin.len(), def), is_word_type(def.data_type@), flat(raws));
            &&& p.len() == bin.len()
            &&& forall|i: int|
                0 <= i < bin.len() && !(start <= i < start + esz * flat(raws).len()) ==> #[trigger] p[i] == bin[i]
        }),
{
    lemma_patch_raw_frame(bin, patch_start(bin.len(), def), is_word_type(def.data_type@), flat(raws));
}

/// Law: a value written into a word table inside the image sits big-endian
/// at the calibration base plus the table's address plus two bytes per
/// value before it.
pub proof fn law_patch_word_bytes(bin: Seq<u8>, def: TableDef, raws: Seq<Vec<i64>>, k: int)
    requires
        is_word_type(def.data_type@),
        0 <= k < flat(raws).len(),
        (if bin.len() >= 0x28000 { 0x20000int } else { 0int }) + spec_parse_addr(def.addr@) + 2 * flat(raws).len()
            <= bin.len(),
    ensures
        ({
            let start: int = (if bin.len() >= 0x28000 { 0x20000int } else { 0int }) + spec_parse_addr(def.addr@);
            let p = spec_patch_raw(bin, patch_start(bin.len(), def), true, flat(raws));
            &&& p[start + 2 * k] == word_bytes(flat(raws)[k]).0 && p[start + 2 * k + 1] == word_bytes(
                flat(raws)[k],
            ).1
            &&& -0x10000 < flat(raws)[k] < 0x10000 ==> p[start + 2 * k] as int * 256 + p[start + 2 * k + 1] as int
                == (flat(raws)[k] + 0x10000) % 0x10000
        }),
{
    lemma_patch_raw_at(bin, patch_start(bin.len(), def), true, flat(raws));
    let u = flat(raws)[k];
    if -0x10000 < u < 0x10000 {
        let w: i64 = if u < 0 { (u + 0x10000) as i64 } else { u };
        let hi = ((w >> 8) & 0xff) as u8;
        let lo = (w & 0xff) as u8;
        assert(hi as int * 256 + lo as int == (u + 0x10000) % 0x10000) by (bit_vector)
            requires
                -0x10000 < u < 0x10000,
                w == if u < 0 { (u + 0x10000) as i64 } else { u },
                hi == ((w >> 8) & 0xff) as u8,
                lo == (w & 0xff) as u8,
        ;
    }
}

// ── Definition text ─────────────────────────────────────────────────────────

/// One `<TableData>` entry of a definition file, as text. A missing `Rows`
/// or `Columns` element reads as `"1"`.
#[derive(Debug)]
pub struct TableDataXml {
    pub name: String,
    pub address: String,
    pub rows: String,
    pub cols: String,
    pub math: String,
    pub units: String,
    pub description: String,
    pub data_type: String,
    pub category: String,
}

pub open spec fn usize_or_1(t: Seq<char>) -> nat {
    match spec_parse_unsigned(t, usize::MAX as nat) {
        Some(v) => v,
        None => 1,
    }
}

fn usize_or_1_exec(t: &[char]) -> (r: usize)
    ensures
        r == usize_or_1(t@),
{
    match parse_unsigned(t, usize::MAX as u64) {
        Some(v) => v as usize,
        None => 1,
    }
}

pub open spec fn text_or(t: Seq<char>, d: Seq<char>) -> Seq<char> {
    if t.len() == 0 {
        d
    } else {
        t
    }
}

/// The definition made of entry `i` of a `<TableData>` file.
pub open spec fn entry_def_ok(d: TableDef, t: TableDataXml, i: nat) -> bool {
    &&& d.id@ == spec_sanitize_id(t.name@, i)
    &&& d.name@ == text_or(t.name@, "Table_"@ + dec(i))
    &&& (if t.category@.len() == 0 { d.category is None } else { d.category matches Some(c) && c@ == t.category@ })
    &&& d.description@ == t.description@
    &&& d.rows == usize_or_1(t.rows@) && d.cols == usize_or_1(t.cols@)
    &&& d.addr@ == (if trim_ws(t.address@).len() == 0 { "0x"@ + hex_pad(0x8000 + i * 0x100, 8) } else { spec_normalize_addr(t.address@) })
    &&& d.data_type@ == text_or(t.data_type@, "UWORD"@)
    &&& d.math@ == text_or(t.math@, "X"@)
    &&& d.units@ == t.units@
    &&& d.row_major && d.msb
    &&& d.row_headers is None && d.col_headers is None && d.decimals == 0 && !d.file_offset
}

fn text_or_exec(t: &String, d: &str) -> (r: String)
    ensures
        r@ == text_or(t@, d@),
{
    if str_chars(t.as_str()).len() == 0 {
        str_to_string(d)
    } else {
        str_to_string(t.as_str())
    }
}

fn entry_def(t: &TableDataXml, i: usize) -> (r: TableDef)
    requires
        0x8000 + i * 0x100 <= u64::MAX,
    ensures
        entry_def_ok(r, *t, i as nat),
{
    let name = if str_chars(t.name.as_str()).len() == 0 {
        let mut n = str_to_string("Table_");
        push_dec(&mut n, i as u64);
        n
    } else {
        str_to_string(t.name.as_str())
    };
    let addr = if trim_chars(str_chars(t.address.as_str()).as_slice()).len() == 0 {
        let mut a = str_to_string("0x");
        push_hex_pad(&mut a, 0x8000 + (i as u64) * 0x100, 8);
        a
    } else {
        normalize_addr(t.address.as_str())
    };
    TableDef {
        id: sanitize_id(t.name.as_str(), i),
        name,
        category: if str_chars(t.category.as_str()).len() == 0 {
            None
        } else {
            Some(str_to_string(t.category.as_str()))
        },
        description: str_to_string(t.description.as_str()),
        rows: usize_or_1_exec(str_chars(t.rows.as_str()).as_slice()),
        cols: usize_or_1_exec(str_chars(t.cols.as_str()).as_slice()),
        addr,
        data_type: text_or_exec(&t.data_type, "UWORD"),
        math: text_or_exec(&t.math, "X"),
        units: str_to_string(t.units.as_str()),
        row_major: true,
        msb: true,
        row_headers: None,
        col_headers: None,
        decimals: 0,
        file_offset: false,
    }
}

/// The `<TableSeek>` block being read.
pub struct SeekScan {
    pub in_seek: bool,
    pub name: Seq<char>,
    pub addr: Seq<char>,
    pub rows: nat,
    pub cols: nat,
    pub math: Seq<char>,
    pub dtype: Seq<char>,
    pub desc: Seq<char>,
}

pub open spec fn seek_fresh() -> SeekScan {
    SeekScan {
        in_seek: true,
        name: Seq::empty(),
        addr: Seq::empty(),
        rows: 1,
        cols: 1,
        math: "X"@,
        dtype: "UWORD"@,
        desc: Seq::empty(),
    }
}

pub open spec fn tag_or(l: Seq<char>, tag: Seq<char>, cur: Seq<char>) -> Seq<char> {
    match spec_extract_tag(l, tag) {
        Some(v) => v,
        None => cur,
    }
}

pub open spec fn tag_count(l: Seq<char>, tag: Seq<char>, cur: nat) -> nat {
    match spec_extract_tag(l, tag) {
        Some(v) => usize_or_1(v),
        None => cur,
    }
}

/// One line of the `<TableSeek>` scan: a `<TableSeek` line opens a fresh
/// block; inside a block the tags set its fields, and a `</TableSeek` line
/// closes it, keeping it when it has a name.
pub open spec fn seek_step(st: SeekScan, out: Seq<SeekScan>, line: Seq<char>) -> (SeekScan, Seq<SeekScan>) {
    let l = trim_ws(line);
    let st1 = if contains(l, "<TableSeek"@) { seek_fresh() } else { st };
    if !st1.in_seek {
        (st1, out)
    } else {
        let st2 = SeekScan {
            in_seek: true,
            name: tag_or(l, "Name"@, st1.name),
            addr: tag_or(l, "RefAddress"@, st1.addr),
            rows: tag_count(l, "Rows"@, st1.rows),
            cols: tag_count(l, "Columns"@, st1.cols),
            math: tag_or(l, "Math"@, st1.math),
            dtype: tag_or(l, "DataType"@, st1.dtype),
            desc: tag_or(l, "Description"@, st1.desc),
        };
        if contains(l, "</TableSeek"@) {
            (SeekScan { in_seek: false, ..st2 }, if st2.name.len() > 0 { out.push(st2) } else { out })
        } else {
            (st2, out)
        }
    }
}

pub open spec fn seek_scan(ls: Seq<Seq<char>>) -> (SeekScan, Seq<SeekScan>)
    decreases ls.len(),
{
    if ls.len() == 0 {
        (SeekScan { in_seek: false, ..seek_fresh() }, Seq::empty())
    } else {
        let p = seek_scan(ls.drop_last());
        seek_step(p.0, p.1, ls.last())
    }
}

/// The definition made of the `k`-th named `<TableSeek>` block.
pub open spec fn seek_block_def_ok(d: TableDef, b: SeekScan, k: nat) -> bool {
    &&& d.id@ == spec_sanitize_id(b.name, k)
    &&& d.name@ == b.name
    &&& d.category is None
    &&& d.description@ == b.desc
    &&& d.rows == b.rows && d.cols == b.cols
    &&& d.addr@ == (if b.addr.len() == 0 { "0x00008000"@ } else { spec_normalize_addr(b.addr) })
    &&& d.data_type@ == b.dtype && d.math@ == b.math && d.units@.len() == 0
    &&& d.row_major && d.msb
    &&& d.row_headers is None && d.col_headers is None && d.decimals == 0 && !d.file_offset
}

struct SeekExec {
    in_seek: bool,
    name: Vec<char>,
    addr: Vec<char>,
    rows: usize,
    cols: usize,
    math: Vec<char>,
    dtype: Vec<char>,
    desc: Vec<char>,
}

impl View for SeekExec {
    type V = SeekScan;

    closed spec fn view(&self) -> SeekScan {
        SeekScan {
            in_seek: self.in_seek,
            name: self.name@,
            addr: self.addr@,
            rows: self.rows as nat,
            cols: self.cols as nat,
            math: self.math@,
            dtype: self.dtype@,
            desc: self.desc@,
        }
    }
}

fn fresh_exec() -> (r: SeekExec)
    ensures
        r@ == seek_fresh(),
{
    SeekExec {
        in_seek: true,
        name: Vec::new(),
        addr: Vec::new(),
        rows: 1,
        cols: 1,
        math: str_chars("X"),
        dtype: str_chars("UWORD"),
        desc: Vec::new(),
    }
}

fn tag_or_exec(l: &[char], tag: &str, cur: Vec<char>) -> (r: Vec<char>)
    ensures
        r@ == tag_or(l@, tag@, cur@),
{
    match extract_tag(l, tag) {
        Some(v) => v,
        None => cur,
    }
}

fn tag_count_exec(l: &[char], tag: &str, cur: usize) -> (r: usize)
    ensures
        r == tag_count(l@, tag@, cur as nat),
{
    match extract_tag(l, tag) {
        Some(v) => usize_or_1_exec(v.as_slice()),
        None => cur,
    }
}

fn seek_block_def(b: &SeekExec, k: usize) -> (r: TableDef)
    ensures
        seek_block_def_ok(r, b@, k as nat),
{
    let name = chars_to_string(b.name.as_slice());
    let addr = if b.addr.len() == 0 {
        str_to_string("0x00008000")
    } else {
        normalize_addr(chars_to_string(b.addr.as_slice()).as_str())
    };
    TableDef {
        id: sanitize_id(name.as_str(), k),
        name,
        category: None,
        description: chars_to_string(b.desc.as_slice()),
        rows: b.rows,
        cols: b.cols,
        addr,
        data_type: chars_to_string(b.dtype.as_slice()),
        math: chars_to_string(b.math.as_slice()),
        units: String::new(),
        row_major: true,
        msb: true,
        row_headers: None,
        col_headers: None,
        decimals: 0,
        file_offset: false,
    }
}

/// The table definitions of a definition file: those of its `<TableData>`
/// entries (read outside the library, `None` when the file is not such a
/// list), else those of its named `<TableSeek>` blocks, found line by line.
pub fn parse_table_definitions(xml: &str, entries: Option<Vec<TableDataXml>>) -> (r: Vec<TableDef>)
    requires
        entries matches Some(v) ==> 0x8000 + v@.len() * 0x100 <= u64::MAX,
    ensures
        entries matches Some(v) ==> (v@.len() > 0 ==> r@.len() == v@.len() && forall|i: int|
            0 <= i < v@.len() ==> entry_def_ok(#[trigger] r@[i], v@[i], i as nat)),
        !(entries matches Some(v) && v@.len() > 0) ==> r@.len() == seek_scan(split_nl(xml@)).1.len() && forall|i: int|
            0 <= i < r@.len() ==> seek_block_def_ok(#[trigger] r@[i], seek_scan(split_nl(xml@)).1[i], i as nat),
{
    match &entries {
        Some(v) => {
            if v.len() > 0 {
                let mut out: Vec<TableDef> = Vec::new();
                let mut i: usize = 0;
                while i < v.len()
                    invariant
                        i <= v@.len(),
                        0x8000 + v@.len() * 0x100 <= u64::MAX,
                        out@.len() == i,
                        forall|k: int| 0 <= k < i ==> entry_def_ok(#[trigger] out@[k], v@[k], k as nat),
                    decreases v.len() - i,
                {
                    out.push(entry_def(&v[i], i));
                    i += 1;
                }
                return out;
            }
        },
        None => {},
    }
    let ls = split_lines(xml);
    let ghost lv = split_nl(xml@);
    let mut st = SeekExec {
        in_seek: false,
        name: Vec::new(),
        addr: Vec::new(),
        rows: 1,
        cols: 1,
        math: str_chars("X"),
        dtype: str_chars("UWORD"),
        desc: Vec::new(),
    };
    let mut out: Vec<TableDef> = Vec::new();
    let ghost mut blocks: Seq<SeekScan> = Seq::empty();
    let mut i: usize = 0;
    proof {
        assert(lv.take(0) =~= Seq::<Seq<char>>::empty());
    }
    while i < ls.len()
        invariant
            i <= ls@.len() == lv.len(),
            lv == split_nl(xml@),
            forall|q: int| 0 <= q < ls@.len() ==> (#[trigger] ls@[q])@ == lv[q],
            seek_scan(lv.take(i as int)) == (st@, blocks),
            out@.len() == blocks.len(),
            forall|k: int| 0 <= k < out@.len() ==> seek_block_def_ok(#[trigger] out@[k], blocks[k], k as nat),
        decreases ls.len() - i,
    {
        proof {
            assert(lv.take(i + 1).drop_last() =~= lv.take(i as int));
        }
        let l = trim_chars(ls[i].as_slice());
        let open = str_chars("<TableSeek");
        if contains_chars(l.as_slice(), open.as_slice()) {
            st = fresh_exec();
        }
        if st.in_seek {
            let ls_ = l.as_slice();
            let name = tag_or_exec(ls_, "Name", st.name);
            let addr = tag_or_exec(ls_, "RefAddress", st.addr);
            let rows = tag_count_exec(ls_, "Rows", st.rows);
            let cols = tag_count_exec(ls_, "Columns", st.cols);
            let math = tag_or_exec(ls_, "Math", st.math);
            let dtype = tag_or_exec(ls_, "DataType", st.dtype);
            let desc = tag_or_exec(ls_, "Description", st.desc);
            st = SeekExec { in_seek: true, name, addr, rows, cols, math, dtype, desc };
            let close = str_chars("</TableSeek");
            if contains_chars(l.as_slice(), close.as_slice()) {
                if st.name.len() > 0 {
                    let d = seek_block_def(&st, out.len());
                    out.push(d);
                    proof {
                        blocks = blocks.push(st@);
                    }
                }
                st.in_seek = false;
            }
        }
        i += 1;
    }
    proof {
        assert(lv.take(lv.len() as int) =~= lv);
    }
    out
}

} // verus!
