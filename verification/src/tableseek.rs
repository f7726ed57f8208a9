//! TableSeek: locating calibration tables in a P01/P59 image by byte
//! pattern. A search string holds hex literals, wildcards (`*`, `?`, `??`),
//! address bytes (`@`, big-endian, 2 or 4 of them) and pointer follows
//! (`+D12` reads a 32-bit pointer at address + 12, `+W6` a 16-bit one).
//! No hit means no table: no address is invented.
use vstd::prelude::*;
use crate::text::{
    contains, contains_chars, dec, hex_digit_chars, hex_digits, hex_pad, hex_val, hex_value, is_hex_char,
    lemma_hex_digits_all_hex, lower_seq, lower_vec, parse_i32_chars, parse_unsigned, push_dec, push_hex_pad,
    push_str, spec_parse_i32, spec_parse_unsigned, split_words, str_chars, str_to_string, trim_chars, trim_ws,
    upper_seq, upper_vec, words, eq_chars, dec_value, all_dec, is_dec_digit, string_push,
    lowercase_text, to_lowercase, unicode_alnum, is_alphanumeric, chars_to_string,
};
use crate::xdf::TableDef;

verus! {

/// One `<TableSeek>` entry of a pack, as text fields.
#[derive(Clone, Debug)]
pub struct TableSeekXml {
    pub name: String,
    pub search_str: String,
    pub rows: String,
    pub cols: String,
    pub row_headers: String,
    pub col_headers: String,
    pub math: String,
    pub offset: String,
    pub data_type: String,
    pub use_hit: String,
    pub category: String,
    pub units: String,
    pub row_major: String,
    pub msb: String,
    pub description: String,
    pub decimals: String,
    pub signed_offset: String,
    pub conditional_offset: String,
}

impl Default for TableSeekXml {
    fn default() -> (r: Self)
        ensures
            r.name@.len() == 0 && r.search_str@.len() == 0 && r.rows@.len() == 0 && r.cols@.len() == 0,
            r.row_headers@.len() == 0 && r.col_headers@.len() == 0 && r.math@.len() == 0,
            r.offset@.len() == 0 && r.data_type@.len() == 0 && r.use_hit@.len() == 0,
            r.category@.len() == 0 && r.units@.len() == 0 && r.row_major@.len() == 0,
            r.msb@.len() == 0 && r.description@.len() == 0 && r.decimals@.len() == 0,
            r.signed_offset@.len() == 0 && r.conditional_offset@.len() == 0,
    {
        TableSeekXml {
            name: String::new(),
            search_str: String::new(),
            rows: String::new(),
            cols: String::new(),
            row_headers: String::new(),
            col_headers: String::new(),
            math: String::new(),
            offset: String::new(),
            data_type: String::new(),
            use_hit: String::new(),
            category: String::new(),
            units: String::new(),
            row_major: String::new(),
            msb: String::new(),
            description: String::new(),
            decimals: String::new(),
            signed_offset: String::new(),
            conditional_offset: String::new(),
        }
    }
}

/// A search pattern token.
#[derive(Clone, Copy, Debug, PartialEq, Eq, Structural)]
pub enum PatTok {
    Byte(u8),
    Wild,
    Addr,
}

/// A pointer follow after the hit.
#[derive(Clone, Copy, Debug, PartialEq, Eq, Structural)]
pub struct Jump {
    pub offset: i32,
    pub dword: bool,
}

// ── Text fields ─────────────────────────────────────────────────────────────

/// A count field: the trimmed text as `usize`, or `default` when it is empty
/// or does not parse.
pub open spec fn spec_parse_usize(s: Seq<char>, default: nat) -> nat {
    let t = trim_ws(s);
    if t.len() == 0 {
        default
    } else {
        match spec_parse_unsigned(t, usize::MAX as nat) {
            Some(v) => v,
            None => default,
        }
    }
}

pub fn parse_usize(s: &str, default: usize) -> (r: usize)
    ensures
        r == spec_parse_usize(s@, default as nat),
{
    let c = str_chars(s);
    let t = trim_chars(c.as_slice());
    if t.len() == 0 {
        return default;
    }
    match parse_unsigned(t.as_slice(), usize::MAX as u64) {
        Some(v) => v as usize,
        None => default,
    }
}

/// An offset field: the trimmed text as `i32`, or 0.
pub open spec fn spec_field_i32(s: Seq<char>) -> int {
    match spec_parse_i32(trim_ws(s)) {
        Some(v) => v,
        None => 0,
    }
}

pub fn parse_i32(s: &str) -> (r: i32)
    ensures
        r == spec_field_i32(s@),
{
    let c = str_chars(s);
    let t = trim_chars(c.as_slice());
    match parse_i32_chars(t.as_slice()) {
        Some(v) => v,
        None => 0,
    }
}

/// A flag field: `true`, `1` or `yes` in any ASCII case, spaces around allowed.
pub open spec fn spec_is_true(s: Seq<char>) -> bool {
    let l = lower_seq(trim_ws(s));
    l == "true"@ || l == "1"@ || l == "yes"@
}

fn lit_eq(s: &[char], lit: &str) -> (r: bool)
    ensures
        r == (s@ == lit@),
{
    let l = str_chars(lit);
    eq_chars(s, l.as_slice())
}

pub fn is_true(s: &str) -> (r: bool)
    ensures
        r == spec_is_true(s@),
{
    let c = str_chars(s);
    let t = trim_chars(c.as_slice());
    let l = lower_vec(t.as_slice());
    lit_eq(l.as_slice(), "true") || lit_eq(l.as_slice(), "1") || lit_eq(l.as_slice(), "yes")
}

// ── Search strings ──────────────────────────────────────────────────────────

/// The decimal digits of a text, in order.
pub open spec fn dec_digits(s: Seq<char>) -> Seq<char>
    decreases s.len(),
{
    if s.len() == 0 {
        Seq::empty()
    } else if is_dec_digit(s.last()) {
        dec_digits(s.drop_last()).push(s.last())
    } else {
        dec_digits(s.drop_last())
    }
}

proof fn lemma_dec_digits_all(s: Seq<char>)
    ensures
        all_dec(dec_digits(s)),
    decreases s.len(),
{
    if s.len() > 0 {
        lemma_dec_digits_all(s.drop_last());
        let p = dec_digits(s.drop_last());
        if is_dec_digit(s.last()) {
            assert forall|i: int| 0 <= i < dec_digits(s).len() implies is_dec_digit(#[trigger] dec_digits(s)[i]) by {
                if i < p.len() {
                    assert(dec_digits(s)[i] == p[i]);
                }
            }
        }
    }
}

/// The size of a jump: its decimal digits as a number, 0 when there are none
/// or they overflow `i32`.
pub open spec fn jump_size(rest: Seq<char>) -> int {
    let d = dec_digits(rest);
    if d.len() == 0 || dec_value(d) > 0x7FFF_FFFF {
        0
    } else {
        dec_value(d) as int
    }
}

pub open spec fn is_ascii_alpha(c: char) -> bool {
    ('a' <= c && c <= 'z') || ('A' <= c && c <= 'Z')
}

/// `+…` or `-<letter>…`: a pointer follow. The size is the token's digits,
/// negative after `-`; a `D` (any case) makes it a 32-bit pointer.
pub open spec fn spec_jump(tok: Seq<char>) -> Option<Jump> {
    let t = trim_ws(tok);
    if t.len() < 2 {
        None
    } else if t[0] == '+' || (t[0] == '-' && is_ascii_alpha(t[1])) {
        let rest = t.drop_first();
        let size = jump_size(rest);
        Some(
            Jump {
                offset: (if t[0] == '+' {
                    size
                } else {
                    -size
                }) as i32,
                dword: contains(upper_seq(rest), "D"@),
            },
        )
    } else {
        None
    }
}

fn digits_of(s: &[char]) -> (r: Vec<char>)
    ensures
        r@ == dec_digits(s@),
{
    let mut r: Vec<char> = Vec::new();
    let mut i: usize = 0;
    while i < s.len()
        invariant
            i <= s@.len(),
            r@ == dec_digits(s@.take(i as int)),
        decreases s.len() - i,
    {
        assert(s@.take(i + 1).drop_last() == s@.take(i as int));
        if '0' <= s[i] && s[i] <= '9' {
            r.push(s[i]);
        }
        i += 1;
    }
    assert(s@.take(s@.len() as int) == s@);
    r
}

pub fn parse_jump_token(tok: &str) -> (r: Option<Jump>)
    ensures
        r == spec_jump(tok@),
{
    let c = str_chars(tok);
    jump_of_chars(c.as_slice())
}

fn jump_of_chars(tok: &[char]) -> (r: Option<Jump>)
    ensures
        r == spec_jump(tok@),
{
    let t = trim_chars(tok);
    if t.len() < 2 {
        return None;
    }
    let first = t[0];
    let plus = first == '+';
    if !plus {
        if first != '-' {
            return None;
        }
        let c1 = t[1];
        if !(('a' <= c1 && c1 <= 'z') || ('A' <= c1 && c1 <= 'Z')) {
            return None;
        }
    }
    let rest = vstd::slice::slice_subrange(t.as_slice(), 1, t.len());
    assert(rest@ == t@.drop_first());
    let up = upper_vec(rest);
    let dee = str_chars("D");
    let dword = contains_chars(up.as_slice(), dee.as_slice());
    let d = digits_of(rest);
    proof {
        lemma_dec_digits_all(rest@);
    }
    let size: i32 = if d.len() == 0 {
        0
    } else {
        match parse_unsigned(d.as_slice(), 0x7FFF_FFFF) {
            Some(v) => v as i32,
            None => 0,
        }
    };
    assert(size == jump_size(rest@));
    let offset: i32 = if plus {
        size
    } else {
        0 - size
    };
    Some(Jump { offset, dword })
}

/// The literal of a token that is not `@`, a wildcard or a jump: one or two
/// hex digits (other characters dropped); anything else is skipped.
pub open spec fn literal_of(t: Seq<char>) -> Option<u8> {
    let h = hex_digits(t);
    if h.len() == 1 {
        Some(hex_val(h[0]) as u8)
    } else if h.len() == 2 {
        Some((hex_val(h[0]) * 16 + hex_val(h[1])) as u8)
    } else {
        None
    }
}

/// Pattern tokens and jumps of the search string's first `n` words.
pub open spec fn pattern_of(ws: Seq<Seq<char>>) -> (Seq<PatTok>, Seq<Jump>)
    decreases ws.len(),
{
    if ws.len() == 0 {
        (Seq::empty(), Seq::empty())
    } else {
        let prev = pattern_of(ws.drop_last());
        let t = ws.last();
        match spec_jump(t) {
            Some(j) => (prev.0, prev.1.push(j)),
            None => if t == "@"@ {
                (prev.0.push(PatTok::Addr), prev.1)
            } else if t == "*"@ || t == "?"@ || t == "??"@ {
                (prev.0.push(PatTok::Wild), prev.1)
            } else {
                match literal_of(t) {
                    Some(b) => (prev.0.push(PatTok::Byte(b)), prev.1),
                    None => prev,
                }
            },
        }
    }
}

pub open spec fn spec_search_pattern(s: Seq<char>) -> (Seq<PatTok>, Seq<Jump>) {
    pattern_of(words(s))
}

pub fn parse_search_pattern(s: &str) -> (r: (Vec<PatTok>, Vec<Jump>))
    ensures
        r.0@ == spec_search_pattern(s@).0,
        r.1@ == spec_search_pattern(s@).1,
{
    let c = str_chars(s);
    let ws = split_words(c.as_slice());
    let ghost wv = words(s@);
    let mut pat: Vec<PatTok> = Vec::new();
    let mut jumps: Vec<Jump> = Vec::new();
    let mut i: usize = 0;
    while i < ws.len()
        invariant
            i <= ws@.len(),
            wv == words(s@),
            ws@.len() == wv.len(),
            forall|k: int| 0 <= k < ws@.len() ==> #[trigger] ws@[k]@ == wv[k],
            pat@ == pattern_of(wv.take(i as int)).0,
            jumps@ == pattern_of(wv.take(i as int)).1,
        decreases ws.len() - i,
    {
        let t = ws[i].as_slice();
        assert(wv.take(i + 1).drop_last() == wv.take(i as int));
        assert(wv.take(i + 1).last() == t@);
        match jump_of_chars(t) {
            Some(j) => {
                jumps.push(j);
            },
            None => {
                if lit_eq(t, "@") {
                    pat.push(PatTok::Addr);
                } else if lit_eq(t, "*") || lit_eq(t, "?") || lit_eq(t, "??") {
                    pat.push(PatTok::Wild);
                } else {
                    let tt = chars_to_string(t);
                    let h = hex_digit_chars(tt.as_str());
                    if h.len() == 1 {
                        pat.push(PatTok::Byte(hex_value(h[0])));
                    } else if h.len() == 2 {
                        pat.push(PatTok::Byte(hex_value(h[0]) * 16 + hex_value(h[1])));
                    }
                }
            },
        }
        i += 1;
    }
    assert(wv.take(wv.len() as int) == wv);
    (pat, jumps)
}

/// Index and value of the first literal of a pattern.
pub open spec fn first_lit_from(pat: Seq<PatTok>, i: int) -> Option<(usize, u8)>
    decreases pat.len() - i,
{
    if i < 0 || i >= pat.len() {
        None
    } else {
        match pat[i] {
            PatTok::Byte(b) => Some((i as usize, b)),
            _ => first_lit_from(pat, i + 1),
        }
    }
}

proof fn lemma_first_lit(pat: Seq<PatTok>, i: int)
    requires
        0 <= i <= pat.len(),
        pat.len() <= usize::MAX,
    ensures
        first_lit_from(pat, i) matches Some(p) ==> i <= p.0 < pat.len() && pat[p.0 as int] == PatTok::Byte(p.1),
    decreases pat.len() - i,
{
    if i < pat.len() {
        lemma_first_lit(pat, i + 1);
    }
}

pub fn first_literal(pat: &[PatTok]) -> (r: Option<(usize, u8)>)
    ensures
        r == first_lit_from(pat@, 0),
        r matches Some(p) ==> p.0 < pat@.len() && pat@[p.0 as int] == PatTok::Byte(p.1),
{
    let n = pat.len();
    proof {
        lemma_first_lit(pat@, 0);
    }
    let mut i: usize = 0;
    while i < pat.len()
        invariant
            i <= pat@.len(),
            first_lit_from(pat@, 0) == first_lit_from(pat@, i as int),
        decreases pat.len() - i,
    {
        match pat[i] {
            PatTok::Byte(b) => {
                return Some((i, b));
            },
            _ => {},
        }
        i += 1;
    }
    None
}

pub open spec fn tok_ok(t: PatTok, b: u8) -> bool {
    match t {
        PatTok::Byte(x) => x == b,
        _ => true,
    }
}

/// `pat` matches `hay` from its start.
pub open spec fn spec_pattern_matches(hay: Seq<u8>, pat: Seq<PatTok>) -> bool {
    hay.len() >= pat.len() && forall|k: int| 0 <= k < pat.len() ==> #[trigger] tok_ok(pat[k], hay[k])
}

pub fn pattern_matches(hay: &[u8], pat: &[PatTok]) -> (r: bool)
    ensures
        r == spec_pattern_matches(hay@, pat@),
{
    if hay.len() < pat.len() {
        return false;
    }
    let mut k: usize = 0;
    while k < pat.len()
        invariant
            k <= pat@.len() <= hay@.len(),
            forall|j: int| 0 <= j < k ==> #[trigger] tok_ok(pat@[j], hay@[j]),
        decreases pat.len() - k,
    {
        let ok = match pat[k] {
            PatTok::Byte(x) => x == hay[k],
            _ => true,
        };
        if !ok {
            assert(!tok_ok(pat@[k as int], hay@[k as int]));
            return false;
        }
        k += 1;
    }
    true
}

// ── Reading addresses ───────────────────────────────────────────────────────

pub open spec fn be16_at(b: Seq<u8>, off: int) -> u32 {
    (b[off] as int * 256 + b[off + 1] as int) as u32
}

pub open spec fn be32_at(b: Seq<u8>, off: int) -> u32 {
    (b[off] as int * 0x100_0000 + b[off + 1] as int * 0x1_0000 + b[off + 2] as int * 0x100 + b[off + 3] as int) as u32
}

pub open spec fn spec_read_u16(b: Seq<u8>, off: int) -> Option<u32> {
    if off + 2 > b.len() {
        None
    } else {
        Some(be16_at(b, off))
    }
}

pub open spec fn spec_read_u32(b: Seq<u8>, off: int) -> Option<u32> {
    if off + 4 > b.len() {
        None
    } else {
        Some(be32_at(b, off))
    }
}

/// 16-bit big-endian value at `off`, if two bytes are there.
pub fn read_u16_be(bin: &[u8], off: usize) -> (r: Option<u32>)
    ensures
        r == spec_read_u16(bin@, off as int),
{
    if off > bin.len() || bin.len() - off < 2 {
        return None;
    }
    Some((bin[off] as u32) * 256 + (bin[off + 1] as u32))
}

/// 32-bit big-endian value at `off`, if four bytes are there.
pub fn read_u32_be(bin: &[u8], off: usize) -> (r: Option<u32>)
    ensures
        r == spec_read_u32(bin@, off as int),
{
    if off > bin.len() || bin.len() - off < 4 {
        return None;
    }
    let v = (bin[off] as u64) * 0x100_0000 + (bin[off + 1] as u64) * 0x1_0000 + (bin[off + 2] as u64) * 0x100
        + (bin[off + 3] as u64);
    Some(v as u32)
}

/// Four bytes big-endian, else two, else nothing.
pub open spec fn spec_be_from_bytes(b: Seq<u8>) -> Option<u32> {
    if b.len() >= 4 {
        Some(be32_at(b, 0))
    } else if b.len() >= 2 {
        Some(be16_at(b, 0))
    } else {
        None
    }
}

pub fn be_from_bytes(bytes: &[u8]) -> (r: Option<u32>)
    ensures
        r == spec_be_from_bytes(bytes@),
{
    if bytes.len() >= 4 {
        read_u32_be(bytes, 0)
    } else if bytes.len() >= 2 {
        read_u16_be(bytes, 0)
    } else {
        None
    }
}

// ── Compiled seeks ──────────────────────────────────────────────────────────

/// A pack entry ready to search.
#[derive(Clone, Debug)]
pub struct CompiledSeek {
    pub idx: usize,
    pub name: String,
    pub category: String,
    pub description: String,
    pub rows: usize,
    pub cols: usize,
    pub data_type: String,
    pub math: String,
    pub units: String,
    pub row_headers: String,
    pub col_headers: String,
    pub decimals: u8,
    pub row_major: bool,
    pub msb: bool,
    pub offset: i32,
    pub use_hit: usize,
    pub signed_offset: bool,
    pub conditional_offset: bool,
    pub pat: Vec<PatTok>,
    pub jumps: Vec<Jump>,
    pub first_lit: Option<(usize, u8)>,
}

pub open spec fn max1(n: nat) -> nat {
    if n < 1 {
        1
    } else {
        n
    }
}

/// `decimals` field: a `u8`, 2 when absent or unparsable.
pub open spec fn spec_decimals(s: Seq<char>) -> nat {
    match spec_parse_unsigned(trim_ws(s), 255) {
        Some(v) => v,
        None => 2,
    }
}

/// What `compile_seek` makes of an entry: nothing without a name or a
/// pattern; otherwise the fields with their defaults.
pub open spec fn compiled_ok(c: CompiledSeek, t: TableSeekXml, idx: usize) -> bool {
    let p = spec_search_pattern(t.search_str@);
    &&& c.idx == idx
    &&& c.name@ == t.name@
    &&& c.category@ == t.category@
    &&& c.description@ == t.description@
    &&& c.rows == max1(spec_parse_usize(t.rows@, 1))
    &&& c.cols == max1(spec_parse_usize(t.cols@, 1))
    &&& c.data_type@ == (if trim_ws(t.data_type@).len() == 0 { "UBYTE"@ } else { t.data_type@ })
    &&& c.math@ == (if trim_ws(t.math@).len() == 0 { "X"@ } else { t.math@ })
    &&& c.units@ == t.units@
    &&& c.row_headers@ == t.row_headers@
    &&& c.col_headers@ == t.col_headers@
    &&& c.decimals == spec_decimals(t.decimals@)
    &&& c.row_major == (trim_ws(t.row_major@).len() == 0 || spec_is_true(t.row_major@))
    &&& c.msb == (trim_ws(t.msb@).len() == 0 || spec_is_true(t.msb@))
    &&& c.offset == spec_field_i32(t.offset@)
    &&& c.use_hit == max1(spec_parse_usize(t.use_hit@, 1))
    &&& c.signed_offset == spec_is_true(t.signed_offset@)
    &&& c.conditional_offset == spec_is_true(t.conditional_offset@)
    &&& c.pat@ == p.0
    &&& c.jumps@ == p.1
    &&& c.first_lit == first_lit_from(p.0, 0)
}

fn trimmed_empty(s: &str) -> (r: bool)
    ensures
        r == (trim_ws(s@).len() == 0),
{
    let c = str_chars(s);
    let t = trim_chars(c.as_slice());
    t.len() == 0
}

fn copy_string(s: &String) -> (r: String)
    ensures
        r@ == s@,
{
    str_to_string(s.as_str())
}

/// Compiles one pack entry.
pub fn compile_seek(t: TableSeekXml, idx: usize) -> (r: Option<CompiledSeek>)
    ensures
        (trim_ws(t.name@).len() == 0 || spec_search_pattern(t.search_str@).0.len() == 0) ==> r is None,
        !(trim_ws(t.name@).len() == 0 || spec_search_pattern(t.search_str@).0.len() == 0) ==> (r matches Some(
            c,
        ) && compiled_ok(c, t, idx)),
{
    if trimmed_empty(t.name.as_str()) {
        return None;
    }
    let (pat, jumps) = parse_search_pattern(t.search_str.as_str());
    if pat.len() == 0 {
        return None;
    }
    let rows0 = parse_usize(t.rows.as_str(), 1);
    let cols0 = parse_usize(t.cols.as_str(), 1);
    let use0 = parse_usize(t.use_hit.as_str(), 1);
    let dc = str_chars(t.decimals.as_str());
    let dt = trim_chars(dc.as_slice());
    let decimals: u8 = match parse_unsigned(dt.as_slice(), 255) {
        Some(v) => v as u8,
        None => 2,
    };
    let data_type = if trimmed_empty(t.data_type.as_str()) {
        str_to_string("UBYTE")
    } else {
        copy_string(&t.data_type)
    };
    let math = if trimmed_empty(t.math.as_str()) {
        str_to_string("X")
    } else {
        copy_string(&t.math)
    };
    let row_major = trimmed_empty(t.row_major.as_str()) || is_true(t.row_major.as_str());
    let msb = trimmed_empty(t.msb.as_str()) || is_true(t.msb.as_str());
    let offset = parse_i32(t.offset.as_str());
    let signed_offset = is_true(t.signed_offset.as_str());
    let conditional_offset = is_true(t.conditional_offset.as_str());
    let first_lit = first_literal(pat.as_slice());
    Some(CompiledSeek {
        idx,
        name: copy_string(&t.name),
        category: copy_string(&t.category),
        description: copy_string(&t.description),
        rows: if rows0 < 1 {
            1
        } else {
            rows0
        },
        cols: if cols0 < 1 {
            1
        } else {
            cols0
        },
        data_type,
        math,
        units: copy_string(&t.units),
        row_headers: copy_string(&t.row_headers),
        col_headers: copy_string(&t.col_headers),
        decimals,
        row_major,
        msb,
        offset,
        use_hit: if use0 < 1 {
            1
        } else {
            use0
        },
        signed_offset,
        conditional_offset,
        pat,
        jumps,
        first_lit,
    })
}

/// The compiled entries of a pack, in order; entries without a name or a
/// pattern are dropped and the others keep their position as `idx`.
pub open spec fn compiled_pack_ok(entries: Seq<TableSeekXml>, pack: Seq<CompiledSeek>) -> bool {
    &&& pack.len() <= entries.len()
    &&& forall|k: int| 0 <= k < pack.len() ==> #[trigger] pack[k].idx < entries.len() && compiled_ok(
        pack[k],
        entries[pack[k].idx as int],
        pack[k].idx,
    )
    &&& forall|k1: int, k2: int| 0 <= k1 < k2 < pack.len() ==> #[trigger] pack[k1].idx < #[trigger] pack[k2].idx
    &&& forall|i: int| 0 <= i < entries.len() ==> (!(trim_ws(#[trigger] entries[i].name@).len() == 0
        || spec_search_pattern(entries[i].search_str@).0.len() == 0) <==> exists|k: int| 0 <= k < pack.len() && pack[k].idx == i)
}

pub open spec fn same_entry(a: TableSeekXml, b: TableSeekXml) -> bool {
    &&& a.name@ == b.name@ && a.search_str@ == b.search_str@ && a.rows@ == b.rows@ && a.cols@ == b.cols@
    &&& a.row_headers@ == b.row_headers@ && a.col_headers@ == b.col_headers@ && a.math@ == b.math@
    &&& a.offset@ == b.offset@ && a.data_type@ == b.data_type@ && a.use_hit@ == b.use_hit@
    &&& a.category@ == b.category@ && a.units@ == b.units@ && a.row_major@ == b.row_major@
    &&& a.msb@ == b.msb@ && a.description@ == b.description@ && a.decimals@ == b.decimals@
    &&& a.signed_offset@ == b.signed_offset@ && a.conditional_offset@ == b.conditional_offset@
}

fn copy_entry(t: &TableSeekXml) -> (r: TableSeekXml)
    ensures
        same_entry(r, *t),
{
    let r = TableSeekXml {
        name: copy_string(&t.name),
        search_str: copy_string(&t.search_str),
        rows: copy_string(&t.rows),
        cols: copy_string(&t.cols),
        row_headers: copy_string(&t.row_headers),
        col_headers: copy_string(&t.col_headers),
        math: copy_string(&t.math),
        offset: copy_string(&t.offset),
        data_type: copy_string(&t.data_type),
        use_hit: copy_string(&t.use_hit),
        category: copy_string(&t.category),
        units: copy_string(&t.units),
        row_major: copy_string(&t.row_major),
        msb: copy_string(&t.msb),
        description: copy_string(&t.description),
        decimals: copy_string(&t.decimals),
        signed_offset: copy_string(&t.signed_offset),
        conditional_offset: copy_string(&t.conditional_offset),
    };
    r
}

/// Compiles a pack of entries.
pub fn compile_pack(entries: Vec<TableSeekXml>) -> (r: Vec<CompiledSeek>)
    ensures
        compiled_pack_ok(entries@, r@),
{
    let ghost es = entries@;
    let mut out: Vec<CompiledSeek> = Vec::new();
    let mut i: usize = 0;
    let n = entries.len();
    while i < n
        invariant
            i <= n == es.len() == entries@.len(),
            es == entries@,
            out@.len() <= i,
            forall|k: int| 0 <= k < out@.len() ==> #[trigger] out@[k].idx < i && compiled_ok(out@[k], es[out@[k].idx as int], out@[k].idx),
            forall|k1: int, k2: int| 0 <= k1 < k2 < out@.len() ==> #[trigger] out@[k1].idx < #[trigger] out@[k2].idx,
            forall|j: int| 0 <= j < i ==> (!(trim_ws(#[trigger] es[j].name@).len() == 0 || spec_search_pattern(es[j].search_str@).0.len() == 0)
                <==> exists|k: int| 0 <= k < out@.len() && out@[k].idx == j),
        decreases n - i,
    {
        let t = copy_entry(&entries[i]);
        let ghost tv = t;
        match compile_seek(t, i) {
            Some(c) => {
                assert(compiled_ok(c, es[i as int], i));
                let ghost before = out@;
                out.push(c);
                proof {
                    assert forall|j: int| 0 <= j < i + 1 implies (!(trim_ws(#[trigger] es[j].name@).len() == 0
                        || spec_search_pattern(es[j].search_str@).0.len() == 0) <==> exists|k: int| 0 <= k < out@.len() && out@[k].idx == j) by {
                        if j < i {
                            if exists|k: int| 0 <= k < before.len() && before[k].idx == j {
                                let k = choose|k: int| 0 <= k < before.len() && before[k].idx == j;
                                assert(out@[k] == before[k]);
                            }
                            if exists|k: int| 0 <= k < out@.len() && out@[k].idx == j {
                                let k = choose|k: int| 0 <= k < out@.len() && out@[k].idx == j;
                                assert(k < before.len());
                                assert(before[k] == out@[k]);
                            }
                        } else {
                            assert(out@[before.len() as int].idx == j);
                        }
                    }
                }
            },
            None => {
                proof {
                    assert forall|k: int| 0 <= k < out@.len() implies out@[k].idx != i by {}
                }
            },
        }
        i += 1;
    }
    out
}

pub fn tableseek_pack_count(pack: &[CompiledSeek]) -> (r: usize)
    ensures
        r == pack@.len(),
{
    pack.len()
}

// ── Address of a hit ────────────────────────────────────────────────────────

pub open spec fn is_addr_tok(t: PatTok) -> bool {
    t == PatTok::Addr
}

pub open spec fn is_wild_tok(t: PatTok) -> bool {
    t == PatTok::Wild
}

/// The image bytes under the pattern's `@` (or wildcard) positions, in order.
pub open spec fn picked(bin: Seq<u8>, hit: int, pat: Seq<PatTok>, addr: bool, n: int) -> Seq<u8>
    decreases n,
{
    if n <= 0 {
        Seq::empty()
    } else {
        let prev = picked(bin, hit, pat, addr, n - 1);
        if (addr && is_addr_tok(pat[n - 1])) || (!addr && is_wild_tok(pat[n - 1])) {
            prev.push(bin[hit + n - 1])
        } else {
            prev
        }
    }
}

/// The address bytes of a hit: `@` bytes when there are two or four of
/// them, else the wildcard bytes when there is no `@`, else the 32-bit word
/// right after the pattern.
pub open spec fn base_address(bin: Seq<u8>, hit: int, pat: Seq<PatTok>) -> Option<u32> {
    let a = picked(bin, hit, pat, true, pat.len() as int);
    let w = picked(bin, hit, pat, false, pat.len() as int);
    match spec_be_from_bytes(a) {
        Some(v) => Some(v),
        None => if a.len() == 0 {
            match spec_be_from_bytes(w) {
                Some(v) => Some(v),
                None => spec_read_u32(bin, hit + pat.len()),
            }
        } else {
            None
        },
    }
}

/// The corrections of the seek: the conditional and signed 64 KiB steps,
/// then the signed offset (all modulo 2^32).
pub open spec fn adjusted(addr: u32, cond: bool, signed: bool, offset: i32) -> u32 {
    let low = addr % 0x1_0000;
    let a1 = if cond && low > 0x5000 {
        addr.wrapping_sub(0x1_0000)
    } else {
        addr
    };
    let a2 = if signed && low > 0x8000 {
        a1.wrapping_sub(0x1_0000)
    } else {
        a1
    };
    if offset < 0 {
        a2.wrapping_sub((-(offset as int)) as u32)
    } else {
        a2.wrapping_add(offset as u32)
    }
}

/// Following the pointer jumps in order; a pointer outside the image ends it.
pub open spec fn follow(bin: Seq<u8>, addr: u32, jumps: Seq<Jump>) -> Option<u32>
    decreases jumps.len(),
{
    if jumps.len() == 0 {
        Some(addr)
    } else {
        let j = jumps[0];
        let loc = if j.offset < 0 {
            addr.wrapping_sub((-(j.offset as int)) as u32)
        } else {
            addr.wrapping_add(j.offset as u32)
        };
        let next = if j.dword {
            spec_read_u32(bin, loc as int)
        } else {
            spec_read_u16(bin, loc as int)
        };
        match next {
            Some(a) => follow(bin, a, jumps.drop_first()),
            None => None,
        }
    }
}

pub open spec fn spec_address(bin: Seq<u8>, hit: int, seek: CompiledSeek) -> Option<nat> {
    let pat = seek.pat@;
    if hit + pat.len() > bin.len() {
        None
    } else {
        match base_address(bin, hit, pat) {
            None => None,
            Some(a) => match follow(
                bin,
                adjusted(a, seek.conditional_offset, seek.signed_offset, seek.offset),
                seek.jumps@,
            ) {
                Some(v) => Some(v as nat),
                None => None,
            },
        }
    }
}

fn pick(bin: &[u8], hit: usize, pat: &[PatTok], addr: bool) -> (r: Vec<u8>)
    requires
        hit + pat@.len() <= bin@.len(),
    ensures
        r@ == picked(bin@, hit as int, pat@, addr, pat@.len() as int),
{
    let bl = bin.len();
    let mut r: Vec<u8> = Vec::new();
    let mut k: usize = 0;
    while k < pat.len()
        invariant
            k <= pat@.len(),
            bl == bin@.len(),
            hit + pat@.len() <= bl,
            r@ == picked(bin@, hit as int, pat@, addr, k as int),
        decreases pat.len() - k,
    {
        let t = pat[k];
        let take = match t {
            PatTok::Addr => addr,
            PatTok::Wild => !addr,
            PatTok::Byte(_) => false,
        };
        if take {
            r.push(bin[hit + k]);
        }
        k += 1;
    }
    r
}

fn adjust(addr: u32, cond: bool, signed: bool, offset: i32) -> (r: u32)
    ensures
        r == adjusted(addr, cond, signed, offset),
{
    let low = addr & 0xFFFF;
    assert(low == addr % 0x1_0000) by (bit_vector)
        requires
            low == addr & 0xFFFF,
    ;
    let mut a = addr;
    if cond && low > 0x5000 {
        a = a.wrapping_sub(0x1_0000);
    }
    if signed && low > 0x8000 {
        a = a.wrapping_sub(0x1_0000);
    }
    if offset < 0 {
        let m = (0i64 - (offset as i64)) as u32;
        a.wrapping_sub(m)
    } else {
        a.wrapping_add(offset as u32)
    }
}

/// The table address of a pattern hit, if it can be read.
pub fn address_from_hit(bin: &[u8], hit: usize, seek: &CompiledSeek) -> (r: Option<usize>)
    ensures
        r matches Some(v) ==> spec_address(bin@, hit as int, *seek) == Some(v as nat),
        r is None ==> spec_address(bin@, hit as int, *seek) is None,
{
    let pat = seek.pat.as_slice();
    if hit > bin.len() || bin.len() - hit < pat.len() {
        return None;
    }
    let addr_bytes = pick(bin, hit, pat, true);
    let wild_bytes = pick(bin, hit, pat, false);
    let base: u32 = match be_from_bytes(addr_bytes.as_slice()) {
        Some(v) => v,
        None => {
            if addr_bytes.len() == 0 {
                match be_from_bytes(wild_bytes.as_slice()) {
                    Some(v) => v,
                    None => match read_u32_be(bin, hit + pat.len()) {
                        Some(v) => v,
                        None => return None,
                    },
                }
            } else {
                return None;
            }
        },
    };
    let mut addr = adjust(base, seek.conditional_offset, seek.signed_offset, seek.offset);
    let ghost a0 = addr;
    let mut i: usize = 0;
    assert(seek.jumps@.skip(0) == seek.jumps@);
    while i < seek.jumps.len()
        invariant
            i <= seek.jumps@.len(),
            spec_address(bin@, hit as int, *seek) == match follow(bin@, a0, seek.jumps@) {
                Some(v) => Some(v as nat),
                None => None::<nat>,
            },
            follow(bin@, a0, seek.jumps@) == follow(bin@, addr, seek.jumps@.skip(i as int)),
        decreases seek.jumps.len() - i,
    {
        let j = seek.jumps[i];
        assert(seek.jumps@.skip(i as int)[0] == j);
        assert(seek.jumps@.skip(i as int).drop_first() == seek.jumps@.skip(i + 1));
        let loc: u32 = if j.offset < 0 {
            let m = (0i64 - (j.offset as i64)) as u32;
            addr.wrapping_sub(m)
        } else {
            addr.wrapping_add(j.offset as u32)
        };
        let next = if j.dword {
            read_u32_be(bin, loc as usize)
        } else {
            read_u16_be(bin, loc as usize)
        };
        match next {
            Some(a) => {
                addr = a;
            },
            None => {
                return None;
            },
        }
        i += 1;
    }
    assert(seek.jumps@.skip(0) == seek.jumps@);
    assert(seek.jumps@.skip(seek.jumps@.len() as int).len() == 0);
    Some(addr as usize)
}

// ── Finding the n-th hit ────────────────────────────────────────────────────

/// The pattern matches the image at `i`.
pub open spec fn pat_at(bin: Seq<u8>, pat: Seq<PatTok>, i: int) -> bool {
    0 <= i && i + pat.len() <= bin.len() && spec_pattern_matches(bin.subrange(i, bin.len() as int), pat)
}

/// The `k`-th hit (counting from 1) at or after `i`.
pub open spec fn nth_from(bin: Seq<u8>, pat: Seq<PatTok>, k: nat, i: int) -> Option<int>
    decreases bin.len() - i,
{
    if i < 0 || i + pat.len() > bin.len() || i >= bin.len() {
        None
    } else if pat_at(bin, pat, i) {
        if k <= 1 {
            Some(i)
        } else {
            nth_from(bin, pat, (k - 1) as nat, i + 1)
        }
    } else {
        nth_from(bin, pat, k, i + 1)
    }
}

pub open spec fn spec_find_nth(bin: Seq<u8>, pat: Seq<PatTok>, n: nat) -> Option<int> {
    if pat.len() == 0 || bin.len() < pat.len() || n == 0 {
        None
    } else {
        nth_from(bin, pat, n, 0)
    }
}

/// `p` lists, in increasing order, every position of byte `b` in the image.
pub open spec fn index_ok(bin: Seq<u8>, p: Seq<usize>, b: u8) -> bool {
    &&& forall|j: int| 0 <= j < p.len() ==> (#[trigger] p[j]) < bin.len() && bin[p[j] as int] == b
    &&& forall|j1: int, j2: int| 0 <= j1 < j2 < p.len() ==> #[trigger] p[j1] < #[trigger] p[j2]
    &&& forall|x: int| 0 <= x < bin.len() && bin[x] == b ==> exists|j: int| 0 <= j < p.len() && #[trigger] p[j] == x
}

proof fn lemma_no_hits_range(bin: Seq<u8>, pat: Seq<PatTok>, k: nat, lo: int, hi: int)
    requires
        0 <= lo <= hi,
        forall|i: int| lo <= i < hi ==> !#[trigger] pat_at(bin, pat, i),
    ensures
        nth_from(bin, pat, k, lo) == nth_from(bin, pat, k, hi) || (hi + pat.len() > bin.len() && nth_from(
            bin,
            pat,
            k,
            lo,
        ) is None && nth_from(bin, pat, k, hi) is None),
    decreases hi - lo,
{
    if lo < hi {
        assert(!pat_at(bin, pat, lo));
        lemma_no_hits_range(bin, pat, k, lo + 1, hi);
    }
}

proof fn lemma_no_hits_tail(bin: Seq<u8>, pat: Seq<PatTok>, k: nat, lo: int)
    requires
        0 <= lo,
        forall|i: int| lo <= i ==> !#[trigger] pat_at(bin, pat, i),
    ensures
        nth_from(bin, pat, k, lo) is None,
    decreases bin.len() - lo,
{
    if lo + pat.len() <= bin.len() {
        assert(!pat_at(bin, pat, lo));
        lemma_no_hits_tail(bin, pat, k, lo + 1);
    }
}

proof fn lemma_hit_has_lit(bin: Seq<u8>, pat: Seq<PatTok>, i: int, lit_off: int, b: u8)
    requires
        0 <= lit_off < pat.len(),
        pat[lit_off] == PatTok::Byte(b),
        pat_at(bin, pat, i),
    ensures
        bin[i + lit_off] == b,
{
    let hay = bin.subrange(i, bin.len() as int);
    assert(tok_ok(pat[lit_off], hay[lit_off]));
}

/// The `n`-th hit of the pattern. With a literal in the pattern, only the
/// positions of that literal (from `index`) are tried.
pub fn find_nth_hit(
    bin: &[u8],
    pat: &[PatTok],
    first_lit: Option<(usize, u8)>,
    n: usize,
    index: &[Vec<usize>],
) -> (r: Option<usize>)
    requires
        index@.len() == 256,
        first_lit matches Some(fl) ==> fl.0 < pat@.len() && pat@[fl.0 as int] == PatTok::Byte(fl.1)
            && index_ok(bin@, index@[fl.1 as int]@, fl.1),
    ensures
        r matches Some(h) ==> spec_find_nth(bin@, pat@, n as nat) == Some(h as int),
        r is None ==> spec_find_nth(bin@, pat@, n as nat) is None,
{
    if pat.len() == 0 || bin.len() < pat.len() || n == 0 {
        return None;
    }
    let mut found: usize = 0;
    match first_lit {
        Some((lit_off, lit_b)) => {
            let p = &index[lit_b as usize];
            let ghost pv = p@;
            let mut j: usize = 0;
            let mut cur: usize = 0;
            while j < p.len()
                invariant
                    0 < pat@.len() <= bin@.len(),
                    0 < n,
                    found < n,
                    lit_off < pat@.len(),
                    pat@[lit_off as int] == PatTok::Byte(lit_b),
                    pv == p@,
                    index_ok(bin@, pv, lit_b),
                    j <= pv.len(),
                    cur <= bin@.len(),
                    forall|q: int| 0 <= q < j ==> #[trigger] pv[q] < cur + lit_off,
                    j < pv.len() ==> cur + lit_off <= (if pv[j as int] >= lit_off {
                        pv[j as int] as int
                    } else {
                        lit_off as int
                    }),
                    nth_from(bin@, pat@, n as nat, 0) == nth_from(bin@, pat@, (n - found) as nat, cur as int),
                decreases pv.len() - j,
            {
                let pos = p[j];
                proof {
                    // no literal strictly between the previous candidate and `pos`
                    assert forall|i: int| cur <= i < pos - lit_off implies !#[trigger] pat_at(bin@, pat@, i) by {
                        if pat_at(bin@, pat@, i) {
                            lemma_hit_has_lit(bin@, pat@, i, lit_off as int, lit_b);
                            let x = i + lit_off;
                            let q = choose|q: int| 0 <= q < pv.len() && #[trigger] pv[q] == x;
                            if q < j {
                            } else if q == j {
                            } else {
                                assert(pv[j as int] < pv[q]);
                            }
                        }
                    }
                }
                if pos < lit_off {
                    j += 1;
                    continue;
                }
                let hit = pos - lit_off;
                proof {
                    if cur <= hit {
                        lemma_no_hits_range(bin@, pat@, (n - found) as nat, cur as int, hit as int);
                    }
                }
                if hit > bin.len() || bin.len() - hit < pat.len() {
                    let next_cur = if hit < bin.len() {
                        hit + 1
                    } else {
                        bin.len()
                    };
                    proof {
                        assert forall|i: int| cur <= i implies !#[trigger] pat_at(bin@, pat@, i) by {
                            if i < hit {
                            }
                        }
                        lemma_no_hits_tail(bin@, pat@, (n - found) as nat, cur as int);
                        lemma_no_hits_tail(bin@, pat@, (n - found) as nat, next_cur as int);
                    }
                    cur = next_cur;
                    j += 1;
                    continue;
                }
                let sub = vstd::slice::slice_subrange(bin, hit, bin.len());
                if pattern_matches(sub, pat) {
                    assert(pat_at(bin@, pat@, hit as int));
                    found += 1;
                    if found == n {
                        return Some(hit);
                    }
                } else {
                    assert(!pat_at(bin@, pat@, hit as int));
                }
                cur = hit + 1;
                j += 1;
            }
            proof {
                assert forall|i: int| cur <= i implies !#[trigger] pat_at(bin@, pat@, i) by {
                    if pat_at(bin@, pat@, i) {
                        lemma_hit_has_lit(bin@, pat@, i, lit_off as int, lit_b);
                        let x = i + lit_off;
                        let q = choose|q: int| 0 <= q < pv.len() && #[trigger] pv[q] == x;
                    }
                }
                lemma_no_hits_tail(bin@, pat@, (n - found) as nat, cur as int);
            }
            None
        },
        None => {
            let last = bin.len() - pat.len();
            let mut i: usize = 0;
            while i <= last
                invariant
                    0 < pat@.len() <= bin@.len(),
                    last == bin@.len() - pat@.len(),
                    0 < n,
                    found < n,
                    i <= last + 1,
                    nth_from(bin@, pat@, n as nat, 0) == nth_from(bin@, pat@, (n - found) as nat, i as int),
                decreases last + 1 - i,
            {
                let sub = vstd::slice::slice_subrange(bin, i, bin.len());
                if pattern_matches(sub, pat) {
                    assert(pat_at(bin@, pat@, i as int));
                    found += 1;
                    if found == n {
                        return Some(i);
                    }
                } else {
                    assert(!pat_at(bin@, pat@, i as int));
                }
                i += 1;
            }
            None
        },
    }
}

// ── Byte index ──────────────────────────────────────────────────────────────

/// Some seek of the pack searches from literal `b`.
pub open spec fn wanted(seeks: Seq<CompiledSeek>, b: u8) -> bool {
    exists|k: int| 0 <= k < seeks.len() && ((#[trigger] seeks[k].first_lit) matches Some(fl) && fl.1 == b)
}

fn positions_of(bin: &[u8], b: u8) -> (r: Vec<usize>)
    ensures
        index_ok(bin@, r@, b),
{
    let mut out: Vec<usize> = Vec::new();
    let mut i: usize = 0;
    while i < bin.len()
        invariant
            i <= bin@.len(),
            forall|j: int| 0 <= j < out@.len() ==> (#[trigger] out@[j]) < i && bin@[out@[j] as int] == b,
            forall|j1: int, j2: int| 0 <= j1 < j2 < out@.len() ==> #[trigger] out@[j1] < #[trigger] out@[j2],
            forall|x: int| 0 <= x < i && bin@[x] == b ==> exists|j: int| 0 <= j < out@.len() && #[trigger] out@[j] == x,
        decreases bin.len() - i,
    {
        if bin[i] == b {
            let ghost before = out@;
            out.push(i);
            proof {
                assert forall|x: int| 0 <= x < i + 1 && bin@[x] == b implies exists|j: int| 0 <= j < out@.len() && #[trigger] out@[j] == x by {
                    if x < i {
                        let j = choose|j: int| 0 <= j < before.len() && #[trigger] before[j] == x;
                        assert(out@[j] == x);
                    } else {
                        assert(out@[before.len() as int] == x);
                    }
                }
            }
        }
        i += 1;
    }
    out
}

/// For every literal byte that some seek starts from, the positions of that
/// byte in the image; other bytes get an empty list.
pub fn build_byte_index(bin: &[u8], seeks: &[CompiledSeek]) -> (r: Vec<Vec<usize>>)
    ensures
        r@.len() == 256,
        forall|b: u8| wanted(seeks@, b) ==> index_ok(bin@, #[trigger] r@[b as int]@, b),
        forall|b: u8| !wanted(seeks@, b) ==> (#[trigger] r@[b as int])@.len() == 0,
{
    let mut want: Vec<bool> = Vec::new();
    let mut b: usize = 0;
    while b < 256
        invariant
            b <= 256,
            want@.len() == b,
            forall|x: int| 0 <= x < b ==> !#[trigger] want@[x],
        decreases 256 - b,
    {
        want.push(false);
        b += 1;
    }
    let mut k: usize = 0;
    while k < seeks.len()
        invariant
            k <= seeks@.len(),
            want@.len() == 256,
            forall|x: u8| #[trigger] want@[x as int] <==> exists|q: int| 0 <= q < k && ((#[trigger] seeks@[q].first_lit) matches Some(fl) && fl.1 == x),
        decreases seeks.len() - k,
    {
        match seeks[k].first_lit {
            Some((_, lb)) => {
                want.set(lb as usize, true);
            },
            None => {},
        }
        k += 1;
    }
    let mut index: Vec<Vec<usize>> = Vec::new();
    let mut c: usize = 0;
    while c < 256
        invariant
            c <= 256,
            want@.len() == 256,
            index@.len() == c,
            forall|x: u8| #[trigger] want@[x as int] <==> wanted(seeks@, x),
            forall|x: int| 0 <= x < c && want@[x] ==> index_ok(bin@, #[trigger] index@[x]@, x as u8),
            forall|x: int| 0 <= x < c && !want@[x] ==> (#[trigger] index@[x])@.len() == 0,
        decreases 256 - c,
    {
        if want[c] {
            index.push(positions_of(bin, c as u8));
        } else {
            index.push(Vec::new());
        }
        c += 1;
    }
    proof {
        assert forall|x: u8| wanted(seeks@, x) implies index_ok(bin@, #[trigger] index@[x as int]@, x) by {
            assert(want@[x as int]);
        }
        assert forall|x: u8| !wanted(seeks@, x) implies (#[trigger] index@[x as int])@.len() == 0 by {
            assert(!want@[x as int]);
        }
    }
    index
}

// ── Table definitions ───────────────────────────────────────────────────────

/// The id of a table: its name lower-cased with everything that is not a
/// letter or digit turned into `_`; `table_<i>` for an empty name.
pub open spec fn spec_sanitize_id(name: Seq<char>, i: nat) -> Seq<char> {
    let l = lowercase_text(name);
    if l.len() == 0 {
        "table_"@ + dec(i)
    } else {
        Seq::new(l.len(), |k: int| if unicode_alnum(l[k]) { l[k] } else { '_' })
    }
}

pub fn sanitize_id(name: &str, i: usize) -> (r: String)
    ensures
        r@ == spec_sanitize_id(name@, i as nat),
{
    let low = to_lowercase(name);
    let l = str_chars(low.as_str());
    if l.len() == 0 {
        let mut s = str_to_string("table_");
        push_dec(&mut s, i as u64);
        return s;
    }
    let mut out = String::new();
    let mut k: usize = 0;
    while k < l.len()
        invariant
            k <= l@.len(),
            l@ == lowercase_text(name@),
            out@ == Seq::new(k as nat, |q: int| if unicode_alnum(l@[q]) { l@[q] } else { '_' }),
        decreases l.len() - k,
    {
        let c = l[k];
        let m = if is_alphanumeric(c) {
            c
        } else {
            '_'
        };
        string_push(&mut out, m);
        k += 1;
        assert(out@ =~= Seq::new(k as nat, |q: int| if unicode_alnum(l@[q]) { l@[q] } else { '_' }));
    }
    out
}

pub open spec fn opt_text(s: Seq<char>, v: Option<String>) -> bool {
    if trim_ws(s).len() == 0 {
        v is None
    } else {
        v matches Some(x) && x@ == s
    }
}

/// The fields of the definition built for a seek found at `addr`, all but its id.
pub open spec fn seek_fields_ok(d: TableDef, t: CompiledSeek, addr: nat) -> bool {
    &&& d.name@ == t.name@
    &&& opt_text(t.category@, d.category)
    &&& d.description@ == t.description@
    &&& d.rows == t.rows && d.cols == t.cols
    &&& d.addr@ == "0x"@ + hex_pad(addr, 6)
    &&& d.data_type@ == t.data_type@ && d.math@ == t.math@ && d.units@ == t.units@
    &&& d.row_major == t.row_major && d.msb == t.msb
    &&& opt_text(t.row_headers@, d.row_headers)
    &&& opt_text(t.col_headers@, d.col_headers)
    &&& d.decimals == t.decimals
    &&& d.file_offset
}

/// The definition built for a seek found at `addr`, before its id is made unique.
pub open spec fn seek_def_ok(d: TableDef, t: CompiledSeek, addr: nat) -> bool {
    &&& d.id@ == spec_sanitize_id(t.name@, t.idx as nat)
    &&& seek_fields_ok(d, t, addr)
}

/// Where a seek finds its table: the address of its `use_hit`-th hit, when
/// that lies inside the image and is not 0.
pub open spec fn seek_addr(bin: Seq<u8>, t: CompiledSeek) -> Option<nat> {
    match spec_find_nth(bin, t.pat@, t.use_hit as nat) {
        None => None,
        Some(h) => match spec_address(bin, h, t) {
            None => None,
            Some(a) => if a == 0 || a >= bin.len() {
                None
            } else {
                Some(a)
            },
        },
    }
}

fn opt_string(s: &String) -> (r: Option<String>)
    ensures
        opt_text(s@, r),
{
    if trimmed_empty(s.as_str()) {
        None
    } else {
        Some(copy_string(s))
    }
}

/// The table definition a seek finds in the image, if any.
pub fn seek_to_def(bin: &[u8], t: &CompiledSeek, index: &[Vec<usize>]) -> (r: Option<TableDef>)
    requires
        index@.len() == 256,
        t.first_lit == first_lit_from(t.pat@, 0),
        t.first_lit matches Some(fl) ==> index_ok(bin@, index@[fl.1 as int]@, fl.1),
    ensures
        seek_addr(bin@, *t) is None ==> r is None,
        seek_addr(bin@, *t) matches Some(a) ==> (r matches Some(d) && seek_def_ok(d, *t, a)),
{
    let pl = t.pat.len();
    proof {
        lemma_first_lit(t.pat@, 0);
    }
    let hit = match find_nth_hit(bin, t.pat.as_slice(), t.first_lit, t.use_hit, index) {
        Some(h) => h,
        None => return None,
    };
    let addr = match address_from_hit(bin, hit, t) {
        Some(a) => a,
        None => return None,
    };
    if addr == 0 || addr >= bin.len() {
        return None;
    }
    let mut addr_text = str_to_string("0x");
    push_hex_pad(&mut addr_text, addr as u64, 6);
    Some(TableDef {
        id: sanitize_id(t.name.as_str(), t.idx),
        name: copy_string(&t.name),
        category: opt_string(&t.category),
        description: copy_string(&t.description),
        rows: t.rows,
        cols: t.cols,
        addr: addr_text,
        data_type: copy_string(&t.data_type),
        math: copy_string(&t.math),
        units: copy_string(&t.units),
        row_major: t.row_major,
        msb: t.msb,
        row_headers: opt_string(&t.row_headers),
        col_headers: opt_string(&t.col_headers),
        decimals: t.decimals,
        file_offset: true,
    })
}

/// The seeks (by position) that find a table, with its address, in order.
pub open spec fn located(bin: Seq<u8>, seeks: Seq<CompiledSeek>) -> Seq<(int, nat)>
    decreases seeks.len(),
{
    if seeks.len() == 0 {
        Seq::empty()
    } else {
        let prev = located(bin, seeks.drop_last());
        match seek_addr(bin, seeks.last()) {
            Some(a) => prev.push(((seeks.len() - 1) as int, a)),
            None => prev,
        }
    }
}

/// Ids are made unique: a base id already used by an earlier table gets the
/// seek's index appended.
pub open spec fn unique_id(base: Seq<char>, earlier: Seq<Seq<char>>, idx: usize) -> Seq<char> {
    if earlier.contains(base) {
        base + "_"@ + dec(idx as nat)
    } else {
        base
    }
}

/// A compiled pack: every seek's first literal is that of its pattern.
pub open spec fn pack_ok(seeks: Seq<CompiledSeek>) -> bool {
    forall|k: int| 0 <= k < seeks.len() ==> (#[trigger] seeks[k]).first_lit == first_lit_from(seeks[k].pat@, 0)
}

pub open spec fn base_ids(seeks: Seq<CompiledSeek>, loc: Seq<(int, nat)>) -> Seq<Seq<char>> {
    Seq::new(loc.len(), |i: int| spec_sanitize_id(seeks[loc[i].0].name@, seeks[loc[i].0].idx as nat))
}

/// The located tables: one per seek that finds an address, in pack order,
/// each with a unique id.
pub open spec fn tables_ok(bin: Seq<u8>, seeks: Seq<CompiledSeek>, defs: Seq<TableDef>) -> bool {
    let loc = located(bin, seeks);
    let ids = base_ids(seeks, loc);
    &&& defs.len() == loc.len()
    &&& forall|i: int|
        0 <= i < defs.len() ==> seek_fields_ok(#[trigger] defs[i], seeks[loc[i].0], loc[i].1)
            && defs[i].id@ == unique_id(ids[i], ids.take(i), seeks[loc[i].0].idx)
}

proof fn lemma_located_bounds(bin: Seq<u8>, seeks: Seq<CompiledSeek>)
    ensures
        located(bin, seeks).len() <= seeks.len(),
        forall|i: int| 0 <= i < located(bin, seeks).len() ==> 0 <= #[trigger] located(bin, seeks)[i].0 < seeks.len(),
    decreases seeks.len(),
{
    if seeks.len() > 0 {
        lemma_located_bounds(bin, seeks.drop_last());
    }
}

proof fn lemma_located_step(bin: Seq<u8>, seeks: Seq<CompiledSeek>, k: int)
    requires
        0 <= k < seeks.len(),
    ensures
        located(bin, seeks.take(k + 1)) == (match seek_addr(bin, seeks[k]) {
            Some(a) => located(bin, seeks.take(k)).push((k, a)),
            None => located(bin, seeks.take(k)),
        }),
{
    assert(seeks.take(k + 1).drop_last() =~= seeks.take(k));
}

proof fn lemma_located_empty_image(bin: Seq<u8>, seeks: Seq<CompiledSeek>)
    requires
        bin.len() == 0,
    ensures
        located(bin, seeks).len() == 0,
    decreases seeks.len(),
{
    if seeks.len() > 0 {
        lemma_located_empty_image(bin, seeks.drop_last());
    }
}

fn ids_contain(seen: &Vec<Vec<char>>, id: &[char]) -> (r: bool)
    ensures
        r <==> exists|q: int| 0 <= q < seen@.len() && (#[trigger] seen@[q])@ == id@,
{
    let mut j: usize = 0;
    while j < seen.len()
        invariant
            j <= seen@.len(),
            forall|q: int| 0 <= q < j ==> (#[trigger] seen@[q])@ != id@,
        decreases seen.len() - j,
    {
        if eq_chars(seen[j].as_slice(), id) {
            return true;
        }
        j += 1;
    }
    false
}

/// Runs every seek of a compiled pack over the image. Returns the tables
/// found, how many were found, and how many were not.
pub fn locate_in_pack(bin: &[u8], seeks: &[CompiledSeek]) -> (r: (Vec<TableDef>, usize, usize))
    requires
        pack_ok(seeks@),
    ensures
        tables_ok(bin@, seeks@, r.0@),
        r.1 == r.0@.len(),
        r.2 == seeks@.len() - r.1,
        bin@.len() == 0 ==> r.0@.len() == 0,
{
    let total = seeks.len();
    proof {
        lemma_located_bounds(bin@, seeks@);
    }
    if bin.len() == 0 {
        proof {
            lemma_located_empty_image(bin@, seeks@);
        }
        return (Vec::new(), 0, total);
    }
    let index = build_byte_index(bin, seeks);
    let mut tables: Vec<TableDef> = Vec::new();
    let mut seen: Vec<Vec<char>> = Vec::new();
    let mut k: usize = 0;
    while k < seeks.len()
        invariant
            k <= seeks@.len(),
            pack_ok(seeks@),
            index@.len() == 256,
            forall|b: u8| wanted(seeks@, b) ==> index_ok(bin@, #[trigger] index@[b as int]@, b),
            tables@.len() == located(bin@, seeks@.take(k as int)).len(),
            seen@.len() == tables@.len(),
            forall|i: int| 0 <= i < located(bin@, seeks@.take(k as int)).len() ==> 0 <= #[trigger] located(bin@, seeks@.take(k as int))[i].0 < k,
            forall|j: int| 0 <= j < seen@.len() ==> (#[trigger] seen@[j])@ == base_ids(seeks@, located(bin@, seeks@.take(k as int)))[j],
            forall|i: int|
                0 <= i < tables@.len() ==> seek_fields_ok(#[trigger] tables@[i], seeks@[located(bin@, seeks@.take(k as int))[i].0], located(bin@, seeks@.take(k as int))[i].1)
                    && tables@[i].id@ == unique_id(
                    base_ids(seeks@, located(bin@, seeks@.take(k as int)))[i],
                    base_ids(seeks@, located(bin@, seeks@.take(k as int))).take(i),
                    seeks@[located(bin@, seeks@.take(k as int))[i].0].idx,
                ),
        decreases seeks.len() - k,
    {
        let t = &seeks[k];
        let ghost loc0 = located(bin@, seeks@.take(k as int));
        let ghost ids0 = base_ids(seeks@, loc0);
        proof {
            lemma_located_step(bin@, seeks@, k as int);
            assert(t.first_lit == first_lit_from(t.pat@, 0));
            match t.first_lit {
                Some(fl) => {
                    assert(wanted(seeks@, fl.1));
                },
                None => {},
            }
        }
        match seek_to_def(bin, t, index.as_slice()) {
            Some(def) => {
                let mut def = def;
                let ghost a = seek_addr(bin@, *t)->0;
                let ghost loc1 = loc0.push((k as int, a));
                let ghost ids1 = base_ids(seeks@, loc1);
                let base = str_chars(def.id.as_str());
                let dup = ids_contain(&seen, base.as_slice());
                proof {
                    assert(ids1.take(loc0.len() as int) =~= ids0);
                    assert(ids1[loc0.len() as int] == base@);
                    if dup {
                        let q = choose|q: int| 0 <= q < seen@.len() && (#[trigger] seen@[q])@ == base@;
                        assert(ids0[q] == base@);
                        assert(ids0.contains(base@));
                    } else {
                        assert forall|q: int| 0 <= q < ids0.len() implies ids0[q] != base@ by {
                            assert(seen@[q]@ == ids0[q]);
                        }
                    }
                }
                if dup {
                    let mut id = copy_string(&def.id);
                    string_push(&mut id, '_');
                    push_dec(&mut id, t.idx as u64);
                    proof {
                        reveal_strlit("_");
                        assert(id@ =~= base@ + "_"@ + dec(t.idx as nat));
                    }
                    def.id = id;
                }
                assert(def.id@ == unique_id(base@, ids0, t.idx));
                tables.push(def);
                seen.push(base);
                proof {
                    assert forall|j: int| 0 <= j < seen@.len() implies (#[trigger] seen@[j])@ == ids1[j] by {
                        if j < loc0.len() {
                            assert(ids1[j] == ids0[j]);
                        }
                    }
                    assert forall|i: int|
                        0 <= i < tables@.len() implies seek_fields_ok(#[trigger] tables@[i], seeks@[loc1[i].0], loc1[i].1)
                            && tables@[i].id@ == unique_id(ids1[i], ids1.take(i), seeks@[loc1[i].0].idx) by {
                        if i < loc0.len() {
                            assert(ids1[i] == ids0[i]);
                            assert(ids1.take(i) =~= ids0.take(i));
                        } else {
                            assert(i == loc0.len());
                            assert(loc1[i] == (k as int, a));
                            assert(tables@[i] == def);
                            assert(seek_fields_ok(def, *t, a));
                            assert(def.id@ == unique_id(ids1[i], ids1.take(i), t.idx));
                        }
                    }
                }
            },
            None => {},
        }
        k += 1;
    }
    proof {
        assert(seeks@.take(seeks@.len() as int) =~= seeks@);
    }
    let located_n = tables.len();
    (tables, located_n, total - located_n)
}

/// Compiles the pack entries and runs every seek over the image. Returns the
/// tables found, how many were found, and how many seeks of the compiled pack
/// found none.
pub fn locate_p01_tables(bin: &[u8], entries: Vec<TableSeekXml>) -> (r: (Vec<TableDef>, usize, usize))
    ensures
        exists|pack: Seq<CompiledSeek>|
            compiled_pack_ok(entries@, pack) && tables_ok(bin@, pack, r.0@) && r.2 == pack.len() - r.1,
        r.1 == r.0@.len(),
        bin@.len() == 0 ==> r.0@.len() == 0,
{
    let pack = compile_pack(entries);
    proof {
        assert forall|k: int| 0 <= k < pack@.len() implies (#[trigger] pack@[k]).first_lit == first_lit_from(pack@[k].pat@, 0) by {
            assert(compiled_ok(pack@[k], entries@[pack@[k].idx as int], pack@[k].idx));
        }
    }
    let r = locate_in_pack(bin, pack.as_slice());
    proof {
        assert(compiled_pack_ok(entries@, pack@) && tables_ok(bin@, pack@, r.0@) && r.2 == pack@.len() - r.1);
    }
    r
}

proof fn lemma_located_addrs(bin: Seq<u8>, seeks: Seq<CompiledSeek>)
    ensures
        forall|i: int|
            0 <= i < located(bin, seeks).len() ==> 0 < (#[trigger] located(bin, seeks)[i]).1 < bin.len(),
    decreases seeks.len(),
{
    if seeks.len() > 0 {
        lemma_located_addrs(bin, seeks.drop_last());
        let prev = located(bin, seeks.drop_last());
        match seek_addr(bin, seeks.last()) {
            Some(a) => {
                assert(0 < a < bin.len());
                assert forall|i: int| 0 <= i < located(bin, seeks).len() implies 0 < (#[trigger] located(
                    bin,
                    seeks,
                )[i]).1 < bin.len() by {
                    if i < prev.len() {
                        assert(located(bin, seeks)[i] == prev[i]);
                    }
                }
            },
            None => {},
        }
    }
}

/// `0x` and six hex digits of an address inside an image of `len` bytes, not 0.
pub open spec fn is_image_addr_text(t: Seq<char>, len: nat) -> bool {
    exists|a: nat| 0 < a < len && t == "0x"@ + #[trigger] hex_pad(a, 6)
}

/// Law: every table located in an image has its address written as `0x` and
/// six upper-case hex digits, of an address inside the image and not 0; no
/// more tables are located than the pack has entries, so located and missing
/// add up to the pack's size; an empty image locates none.
pub proof fn law_located_tables(bin: Seq<u8>, pack: Seq<CompiledSeek>, defs: Seq<TableDef>)
    requires
        tables_ok(bin, pack, defs),
    ensures
        forall|i: int| 0 <= i < defs.len() ==> is_image_addr_text((#[trigger] defs[i]).addr@, bin.len()),
        defs.len() <= pack.len(),
        bin.len() == 0 ==> defs.len() == 0,
{
    lemma_located_bounds(bin, pack);
    lemma_located_addrs(bin, pack);
    let loc = located(bin, pack);
    assert forall|i: int| 0 <= i < defs.len() implies is_image_addr_text((#[trigger] defs[i]).addr@, bin.len()) by {
        assert(seek_fields_ok(defs[i], pack[loc[i].0], loc[i].1));
        let a = loc[i].1;
        assert(0 < a < bin.len());
        assert(defs[i].addr@ == "0x"@ + hex_pad(a, 6));
    }
    if bin.len() == 0 && defs.len() > 0 {
        assert(0 < loc[0].1 < bin.len());
    }
}

} // verus!
