//! GM public 2-byte seed/key algorithms (the Universal Patcher table set):
//! the table text parser and the 4-operation key interpreter. The table text
//! itself is supplied by the caller.
use vstd::prelude::*;
use crate::bytes::{be16, from_be16, rotate_left16, rotate_right16, rotl16, rotr16};
use crate::text::{is_ws, str_chars, trim_chars, trim_ws};

verus! {

// ── Number tokens ───────────────────────────────────────────────────────────

pub open spec fn digit_of(c: char, radix: nat) -> Option<nat> {
    if '0' <= c && c <= '9' && (c as nat) - 48 < radix {
        Some(((c as nat) - 48) as nat)
    } else if radix == 16 && 'a' <= c && c <= 'f' {
        Some(((c as nat) - 87) as nat)
    } else if radix == 16 && 'A' <= c && c <= 'F' {
        Some(((c as nat) - 55) as nat)
    } else {
        None
    }
}

pub open spec fn all_digits(d: Seq<char>, radix: nat) -> bool {
    forall|i: int| 0 <= i < d.len() ==> (#[trigger] digit_of(d[i], radix)) is Some
}

pub open spec fn digits_value(d: Seq<char>, radix: nat) -> nat
    decreases d.len(),
{
    if d.len() == 0 {
        0
    } else {
        digits_value(d.drop_last(), radix) * radix + digit_of(d.last(), radix).unwrap_or(0)
    }
}

/// `u8::from_str_radix`: an optional `+`, then at least one digit, value below 256.
pub open spec fn spec_parse_radix(s: Seq<char>, radix: nat) -> Option<u8> {
    let d = if s.len() > 0 && s[0] == '+' {
        s.drop_first()
    } else {
        s
    };
    if d.len() == 0 || !all_digits(d, radix) {
        None
    } else if digits_value(d, radix) < 256 {
        Some(digits_value(d, radix) as u8)
    } else {
        None
    }
}

/// A table token: `0x`/`0X` hex, else decimal, else bare hex.
pub open spec fn spec_token(p: Seq<char>) -> Option<u8> {
    if p.len() >= 2 && p[0] == '0' && (p[1] == 'x' || p[1] == 'X') {
        spec_parse_radix(p.skip(2), 16)
    } else {
        match spec_parse_radix(p, 10) {
            Some(v) => Some(v),
            None => spec_parse_radix(p, 16),
        }
    }
}

fn digit(c: char, radix: u32) -> (r: Option<u32>)
    requires
        radix == 10 || radix == 16,
    ensures
        r matches Some(v) ==> digit_of(c, radix as nat) == Some(v as nat) && v < 16,
        r is None ==> digit_of(c, radix as nat) is None,
{
    if '0' <= c && c <= '9' && (c as u32) - 48 < radix {
        Some((c as u32) - 48)
    } else if radix == 16 && 'a' <= c && c <= 'f' {
        Some((c as u32) - 87)
    } else if radix == 16 && 'A' <= c && c <= 'F' {
        Some((c as u32) - 55)
    } else {
        None
    }
}

proof fn lemma_value_grows(d: Seq<char>, k: int, radix: nat)
    requires
        0 <= k <= d.len(),
        radix >= 1,
    ensures
        digits_value(d.take(k), radix) <= digits_value(d, radix),
    decreases d.len() - k,
{
    if k < d.len() {
        lemma_value_grows(d, k + 1, radix);
        assert(d.take(k + 1).drop_last() == d.take(k));
        let v = digits_value(d.take(k), radix);
        assert(v <= v * radix) by (nonlinear_arith)
            requires
                radix >= 1,
        ;
    } else {
        assert(d.take(k) == d);
    }
}

/// `u8::from_str_radix(s, radix).ok()` for radix 10 or 16.
pub fn parse_radix(s: &[char], radix: u32) -> (r: Option<u8>)
    requires
        radix == 10 || radix == 16,
    ensures
        r == spec_parse_radix(s@, radix as nat),
{
    let start: usize = if s.len() > 0 && s[0] == '+' {
        1
    } else {
        0
    };
    let ghost d = if s@.len() > 0 && s@[0] == '+' {
        s@.drop_first()
    } else {
        s@
    };
    assert(d == s@.skip(start as int));
    if s.len() - start == 0 {
        return None;
    }
    let mut acc: u32 = 0;
    let mut i: usize = start;
    while i < s.len()
        invariant
            start <= i <= s.len(),
            d == s@.skip(start as int),
            d == if s@.len() > 0 && s@[0] == '+' {
                s@.drop_first()
            } else {
                s@
            },
            radix == 10 || radix == 16,
            all_digits(d.take(i - start), radix as nat),
            acc == if digits_value(d.take(i - start), radix as nat) < 256 {
                digits_value(d.take(i - start), radix as nat)
            } else {
                256
            },
        decreases s.len() - i,
    {
        let ghost k = i - start;
        assert(d.take(k + 1).drop_last() == d.take(k));
        assert(d[k] == s@[i as int]);
        match digit(s[i], radix) {
            None => {
                assert(0 <= k < d.len());
                assert(digit_of(d[k], radix as nat) is None);
                assert(!all_digits(d, radix as nat));
                assert(d.len() > 0);
                return None;
            },
            Some(v) => {
                let ghost old_val = digits_value(d.take(k), radix as nat);
                let next = acc * radix + v;
                assert(digits_value(d.take(k + 1), radix as nat) == old_val * radix + v);
                if acc == 256 {
                    assert(old_val * radix + v >= 256) by (nonlinear_arith)
                        requires
                            old_val >= 256,
                            radix >= 10,
                    ;
                }
                acc = if next < 256 {
                    next
                } else {
                    256
                };
                assert(all_digits(d.take(k + 1), radix as nat)) by {
                    assert forall|j: int| 0 <= j < k + 1 implies (#[trigger] digit_of(
                        d.take(k + 1)[j],
                        radix as nat,
                    )) is Some by {
                        if j < k {
                            assert(d.take(k + 1)[j] == d.take(k)[j]);
                        }
                    }
                }
            },
        }
        i += 1;
    }
    assert(d.take(s.len() - start) == d);
    if acc < 256 {
        Some(acc as u8)
    } else {
        None
    }
}

/// One comma-separated table token.
pub fn parse_token(p: &[char]) -> (r: Option<u8>)
    ensures
        r == spec_token(p@),
{
    if p.len() >= 2 && p[0] == '0' && (p[1] == 'x' || p[1] == 'X') {
        let rest = vstd::slice::slice_subrange(p, 2, p.len());
        assert(rest@ == p@.skip(2));
        parse_radix(rest, 16)
    } else {
        match parse_radix(p, 10) {
            Some(v) => Some(v),
            None => parse_radix(p, 16),
        }
    }
}

// ── Table text ──────────────────────────────────────────────────────────────

/// Values of one line: tokens between commas, trimmed; empty and unparsable
/// tokens are skipped. `cur` is the token being read.
pub open spec fn add_token(acc: Seq<u8>, tok: Seq<char>) -> Seq<u8> {
    let t = trim_ws(tok);
    if t.len() == 0 {
        acc
    } else {
        match spec_token(t) {
            Some(b) => acc.push(b),
            None => acc,
        }
    }
}

pub open spec fn line_values(acc: Seq<u8>, cur: Seq<char>, rest: Seq<char>) -> Seq<u8>
    decreases rest.len(),
{
    if rest.len() == 0 {
        add_token(acc, cur)
    } else if rest[0] == ',' {
        line_values(add_token(acc, cur), Seq::empty(), rest.drop_first())
    } else {
        line_values(acc, cur.push(rest[0]), rest.drop_first())
    }
}

/// Rows read so far plus one more line: blank lines and `/` comments are
/// skipped, and a line with at least 13 values gives a row of its first 13.
pub open spec fn add_line(acc: Seq<Seq<u8>>, line: Seq<char>) -> Seq<Seq<u8>> {
    let s = trim_ws(line);
    if s.len() == 0 || s[0] == '/' {
        acc
    } else {
        let vals = line_values(Seq::empty(), Seq::empty(), s);
        if vals.len() >= 13 {
            acc.push(vals.take(13))
        } else {
            acc
        }
    }
}

pub open spec fn table_rows(acc: Seq<Seq<u8>>, cur: Seq<char>, rest: Seq<char>) -> Seq<Seq<u8>>
    decreases rest.len(),
{
    if rest.len() == 0 {
        add_line(acc, cur)
    } else if rest[0] == '\n' {
        table_rows(add_line(acc, cur), Seq::empty(), rest.drop_first())
    } else {
        table_rows(acc, cur.push(rest[0]), rest.drop_first())
    }
}

/// The rows of a table text.
pub open spec fn spec_parse_tables(txt: Seq<char>) -> Seq<Seq<u8>> {
    table_rows(Seq::empty(), Seq::empty(), txt)
}

pub open spec fn rows_view(t: Seq<[u8; 13]>) -> Seq<Seq<u8>> {
    Seq::new(t.len(), |i: int| t[i]@)
}

fn push_token(acc: &mut Vec<u8>, tok: &[char])
    ensures
        final(acc)@ == add_token(old(acc)@, tok@),
{
    let t = trim_chars(tok);
    if t.len() == 0 {
        return;
    }
    match parse_token(t.as_slice()) {
        Some(b) => acc.push(b),
        None => {},
    }
}

fn values_of_line(s: &[char]) -> (r: Vec<u8>)
    ensures
        r@ == line_values(Seq::empty(), Seq::empty(), s@),
{
    let mut acc: Vec<u8> = Vec::new();
    let mut cur: Vec<char> = Vec::new();
    let mut i: usize = 0;
    assert(s@.skip(0) == s@);
    while i < s.len()
        invariant
            i <= s.len(),
            line_values(Seq::empty(), Seq::empty(), s@) == line_values(acc@, cur@, s@.skip(i as int)),
        decreases s.len() - i,
    {
        assert(s@.skip(i as int)[0] == s@[i as int]);
        assert(s@.skip(i as int).drop_first() == s@.skip(i + 1));
        if s[i] == ',' {
            push_token(&mut acc, cur.as_slice());
            cur = Vec::new();
            assert(cur@ == Seq::<char>::empty());
        } else {
            cur.push(s[i]);
        }
        i += 1;
    }
    push_token(&mut acc, cur.as_slice());
    acc
}

fn push_line(rows: &mut Vec<[u8; 13]>, line: &[char])
    ensures
        rows_view(final(rows)@) == add_line(rows_view(old(rows)@), line@),
{
    let s = trim_chars(line);
    if s.len() == 0 || s[0] == '/' {
        return;
    }
    let vals = values_of_line(s.as_slice());
    if vals.len() >= 13 {
        let row = [
            vals[0],
            vals[1],
            vals[2],
            vals[3],
            vals[4],
            vals[5],
            vals[6],
            vals[7],
            vals[8],
            vals[9],
            vals[10],
            vals[11],
            vals[12],
        ];
        assert(row@ == vals@.take(13));
        rows.push(row);
        assert(rows_view(rows@) == rows_view(old(rows)@).push(vals@.take(13)));
    }
}

/// Parses the 13-byte rows of a table text (`0x..`, decimal or hex tokens).
pub fn parse_tables(txt: &str) -> (r: Vec<[u8; 13]>)
    ensures
        rows_view(r@) == spec_parse_tables(txt@),
{
    let chars = str_chars(txt);
    let mut rows: Vec<[u8; 13]> = Vec::new();
    let mut cur: Vec<char> = Vec::new();
    let mut i: usize = 0;
    assert(chars@.skip(0) == chars@);
    assert(rows_view(rows@) == Seq::<Seq<u8>>::empty());
    while i < chars.len()
        invariant
            i <= chars@.len(),
            chars@ == txt@,
            spec_parse_tables(txt@) == table_rows(rows_view(rows@), cur@, chars@.skip(i as int)),
        decreases chars.len() - i,
    {
        assert(chars@.skip(i as int)[0] == chars@[i as int]);
        assert(chars@.skip(i as int).drop_first() == chars@.skip(i + 1));
        if chars[i] == '\n' {
            push_line(&mut rows, cur.as_slice());
            cur = Vec::new();
            assert(cur@ == Seq::<char>::empty());
        } else {
            cur.push(chars[i]);
        }
        i += 1;
    }
    push_line(&mut rows, cur.as_slice());
    rows
}

/// Number of rows in a parsed table set.
pub fn table_count(tables: &[[u8; 13]]) -> (r: usize)
    ensures
        r == tables@.len(),
{
    tables.len()
}

// ── Key interpreter ─────────────────────────────────────────────────────────

/// One operation `op hi lo` of a table row applied to the key.
pub open spec fn key_step(key: u16, op: u8, hi: u8, lo: u8) -> u16 {
    if op == 5 {
        rotl16(key, 8)
    } else if op == 20 {
        key.wrapping_add(be16(hi, lo))
    } else if op == 42 {
        if hi >= lo {
            (0xFFFF - key) as u16
        } else {
            ((0xFFFF - key) as u16).wrapping_add(1)
        }
    } else if op == 55 || op == 117 {
        key.wrapping_add(be16(lo, hi))
    } else if op == 76 {
        rotl16(key, (hi % 16) as u32)
    } else if op == 82 {
        key | be16(lo, hi)
    } else if op == 107 {
        rotr16(key, (lo % 16) as u32)
    } else if op == 126 {
        rotl16(key, 8).wrapping_add(
            if hi >= lo {
                be16(hi, lo)
            } else {
                be16(lo, hi)
            },
        )
    } else if op == 152 {
        key.wrapping_sub(be16(hi, lo))
    } else if op == 248 {
        key.wrapping_sub(be16(lo, hi))
    } else {
        key
    }
}

/// The four operations of a row (bytes 0..12) applied in order to the seed.
pub open spec fn spec_key_algo(seed: u16, row: Seq<u8>) -> u16 {
    let k1 = key_step(seed, row[0], row[1], row[2]);
    let k2 = key_step(k1, row[3], row[4], row[5]);
    let k3 = key_step(k2, row[6], row[7], row[8]);
    key_step(k3, row[9], row[10], row[11])
}

fn step(key: u16, op: u8, hi: u8, lo: u8) -> (r: u16)
    ensures
        r == key_step(key, op, hi, lo),
{
    if op == 5 {
        rotate_left16(key, 8)
    } else if op == 20 {
        key.wrapping_add(from_be16(hi, lo))
    } else if op == 42 {
        let n = !key;
        assert(n == (0xFFFF - key) as u16) by (bit_vector)
            requires
                n == !key,
        ;
        if hi >= lo {
            n
        } else {
            n.wrapping_add(1)
        }
    } else if op == 55 || op == 117 {
        key.wrapping_add(from_be16(lo, hi))
    } else if op == 76 {
        rotate_left16(key, (hi % 16) as u32)
    } else if op == 82 {
        key | from_be16(lo, hi)
    } else if op == 107 {
        rotate_right16(key, (lo % 16) as u32)
    } else if op == 126 {
        let swapped = rotate_left16(key, 8);
        let arg = if hi >= lo {
            from_be16(hi, lo)
        } else {
            from_be16(lo, hi)
        };
        swapped.wrapping_add(arg)
    } else if op == 152 {
        key.wrapping_sub(from_be16(hi, lo))
    } else if op == 248 {
        key.wrapping_sub(from_be16(lo, hi))
    } else {
        key
    }
}

/// Runs one table row on a seed.
pub fn key_algo(seed: u16, row: &[u8; 13]) -> (r: u16)
    ensures
        r == spec_key_algo(seed, row@),
{
    let k1 = step(seed, row[0], row[1], row[2]);
    let k2 = step(k1, row[3], row[4], row[5]);
    let k3 = step(k2, row[6], row[7], row[8]);
    step(k3, row[9], row[10], row[11])
}

/// `GetKey(algo, seed)`: seed 0xFFFF gives 0xFFFF; an algorithm past 0x3FF or
/// past the loaded rows gives 0.
pub open spec fn spec_gm_key(tables: Seq<[u8; 13]>, algo: u16, seed: u16) -> u16 {
    if seed == 0xFFFF {
        0xFFFF
    } else if algo > 0x3FF || algo as int >= tables.len() {
        0
    } else {
        spec_key_algo(seed, tables[algo as int]@)
    }
}

pub fn gm_2byte_key(tables: &[[u8; 13]], algo: u16, seed: u16) -> (r: u16)
    ensures
        r == spec_gm_key(tables@, algo, seed),
        seed == 0xFFFF ==> r == 0xFFFF,
        seed != 0xFFFF && algo > 0x3FF ==> r == 0,
{
    if seed == 0xFFFF {
        return 0xFFFF;
    }
    if algo > 0x3FF {
        return 0;
    }
    let idx = algo as usize;
    if idx >= tables.len() {
        return 0;
    }
    key_algo(seed, &tables[idx])
}

} // verus!
