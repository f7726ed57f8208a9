//! A light scanner for ASAM A2L text: it reads the CHARACTERISTIC and
//! MEASUREMENT blocks of a personal A2L for a name, an address and hints on
//! size, conversion and unit. It is not a full ASAP2 compiler.
use vstd::prelude::*;
use crate::text::{
    contains, contains_chars, find, is_ascii_hexdigit, is_hex_char, is_whitespace, is_ws, lowercase_text, matches_at,
    occurs_at, split_words, starts_with, starts_with_chars, str_chars, string_push, to_lowercase, trim_chars,
    trim_start_ws, trim_ws, upper_seq, upper_vec, words, chars_to_string, push_chars, push_str, str_to_string,
};
use crate::xdf::TableDef;

verus! {

// ── Lines ───────────────────────────────────────────────────────────────────

/// The text cut at each `'\n'`. (Every line is trimmed before it is read, so a
/// `'\r'` before the `'\n'` and a last empty line change nothing.)
pub open spec fn split_nl(s: Seq<char>) -> Seq<Seq<char>>
    decreases s.len(),
{
    if s.len() == 0 {
        seq![Seq::empty()]
    } else {
        let p = split_nl(s.drop_last());
        if s.last() == '\n' {
            p.push(Seq::empty())
        } else {
            p.update(p.len() - 1, p.last().push(s.last()))
        }
    }
}

pub proof fn lemma_split_nl_len(s: Seq<char>)
    ensures
        split_nl(s).len() >= 1,
    decreases s.len(),
{
    if s.len() > 0 {
        lemma_split_nl_len(s.drop_last());
    }
}

pub fn split_lines(text: &str) -> (r: Vec<Vec<char>>)
    ensures
        r@.len() == split_nl(text@).len(),
        forall|i: int| 0 <= i < r@.len() ==> (#[trigger] r@[i])@ == split_nl(text@)[i],
{
    let cs = str_chars(text);
    let mut done: Vec<Vec<char>> = Vec::new();
    let mut cur: Vec<char> = Vec::new();
    let mut i: usize = 0;
    proof {
        assert(cs@.take(0) =~= Seq::<char>::empty());
    }
    while i < cs.len()
        invariant
            i <= cs@.len(),
            cs@ == text@,
            done@.len() + 1 == split_nl(cs@.take(i as int)).len(),
            forall|k: int| 0 <= k < done@.len() ==> (#[trigger] done@[k])@ == split_nl(cs@.take(i as int))[k],
            cur@ == split_nl(cs@.take(i as int)).last(),
        decreases cs.len() - i,
    {
        let ghost prev = split_nl(cs@.take(i as int));
        proof {
            assert(cs@.take(i + 1).drop_last() =~= cs@.take(i as int));
            lemma_split_nl_len(cs@.take(i as int));
        }
        let c = cs[i];
        if c == '\n' {
            done.push(cur);
            cur = Vec::new();
        } else {
            cur.push(c);
        }
        i += 1;
        proof {
            let now = split_nl(cs@.take(i as int));
            assert(cur@ =~= now.last());
            assert forall|k: int| 0 <= k < done@.len() implies (#[trigger] done@[k])@ == now[k] by {
                if k < prev.len() - 1 {
                    assert(now[k] == prev[k]);
                }
            }
        }
    }
    proof {
        assert(cs@.take(cs@.len() as int) =~= cs@);
    }
    done.push(cur);
    done
}

// ── Small text scans ────────────────────────────────────────────────────────

/// Index of the first `c` at or after `i`.
pub open spec fn char_pos(s: Seq<char>, c: char, i: nat) -> Option<nat>
    decreases s.len() - i,
{
    if i >= s.len() {
        None
    } else if s[i as int] == c {
        Some(i)
    } else {
        char_pos(s, c, i + 1)
    }
}

fn find_char(s: &[char], c: char, from: usize) -> (r: Option<usize>)
    ensures
        r matches Some(p) ==> char_pos(s@, c, from as nat) == Some(p as nat),
        r is None ==> char_pos(s@, c, from as nat) is None,
        r matches Some(p) ==> from <= p < s@.len(),
    decreases s.len() - from,
{
    if from >= s.len() {
        None
    } else if s[from] == c {
        Some(from)
    } else {
        find_char(s, c, from + 1)
    }
}

/// Index of the first whitespace character at or after `i`, or the length.
pub open spec fn ident_end(s: Seq<char>, i: nat) -> nat
    decreases s.len() - i,
{
    if i >= s.len() || is_ws(s[i as int]) {
        i
    } else {
        ident_end(s, i + 1)
    }
}

proof fn lemma_ident_end(s: Seq<char>, i: nat)
    requires
        i <= s.len(),
    ensures
        i <= ident_end(s, i) <= s.len(),
    decreases s.len() - i,
{
    if i < s.len() && !is_ws(s[i as int]) {
        lemma_ident_end(s, i + 1);
    }
}

/// Index of the first occurrence of `needle` at or after `i`.
pub open spec fn first_occ(hay: Seq<char>, needle: Seq<char>, i: nat) -> Option<nat>
    decreases hay.len() + 1 - i,
{
    if i + needle.len() > hay.len() {
        None
    } else if occurs_at(hay, needle, i as int) {
        Some(i)
    } else {
        first_occ(hay, needle, i + 1)
    }
}

pub fn find_from(hay: &[char], needle: &[char], i: usize) -> (r: Option<usize>)
    ensures
        r matches Some(p) ==> first_occ(hay@, needle@, i as nat) == Some(p as nat),
        r is None ==> first_occ(hay@, needle@, i as nat) is None,
        r matches Some(p) ==> p + needle@.len() <= hay@.len(),
    decreases hay.len() + 1 - i,
{
    if i > hay.len() || needle.len() > hay.len() - i {
        None
    } else if matches_at(hay, needle, i) {
        Some(i)
    } else if i == hay.len() {
        assert(first_occ(hay@, needle@, (i + 1) as nat) is None);
        None
    } else {
        find_from(hay, needle, i + 1)
    }
}

/// `s` with every leading repetition of `p` removed (`trim_start_matches`).
pub open spec fn strip_rep(s: Seq<char>, p: Seq<char>) -> Seq<char>
    decreases s.len(),
{
    if p.len() > 0 && starts_with(s, p) {
        strip_rep(s.skip(p.len() as int), p)
    } else {
        s
    }
}

pub fn strip_prefix_rep(s: &[char], p: &[char]) -> (r: Vec<char>)
    ensures
        r@ == strip_rep(s@, p@),
{
    let mut i: usize = 0;
    proof {
        assert(s@.skip(0) =~= s@);
    }
    while p.len() > 0 && matches_at(s, p, i)
        invariant
            i <= s@.len(),
            strip_rep(s@, p@) == strip_rep(s@.skip(i as int), p@),
        decreases s.len() - i,
    {
        proof {
            assert(s@.skip(i as int).subrange(0, p@.len() as int) =~= s@.subrange(i as int, i + p@.len()));
            assert(s@.skip(i as int).skip(p@.len() as int) =~= s@.skip(i + p@.len()));
        }
        i += p.len();
    }
    proof {
        if p@.len() > 0 && starts_with(s@.skip(i as int), p@) {
            assert(s@.subrange(i as int, i + p@.len()) =~= s@.skip(i as int).subrange(0, p@.len() as int));
        }
    }
    vstd::slice::slice_to_vec(vstd::slice::slice_subrange(s, i, s.len()))
}

// ── The scan state ──────────────────────────────────────────────────────────

/// What the scan has gathered for one block. `kind` is 0 for a value, 1 for a
/// map, 2 for a curve.
pub struct A2lState {
    pub name: Seq<char>,
    pub desc: Seq<char>,
    pub addr: Seq<char>,
    pub rows: nat,
    pub cols: nat,
    pub math: Seq<char>,
    pub units: Seq<char>,
    pub kind: nat,
}

/// An address token: leading `0x` runs, then `0X` runs, cut off; what is left
/// must be hex digits, and is given back upper-cased after `0x`.
pub open spec fn spec_addr_token(tok: Seq<char>) -> Option<Seq<char>> {
    let t = strip_rep(strip_rep(trim_ws(tok), "0x"@), "0X"@);
    if t.len() > 0 && forall|k: int| 0 <= k < t.len() ==> is_hex_char(#[trigger] t[k]) {
        Some("0x"@ + upper_seq(t))
    } else {
        None
    }
}

/// One whitespace-separated token of a line: the first address token of six
/// characters or more is the address; `MAP` and `CURVE` set the kind and size.
pub open spec fn tok_step(st: A2lState, tok: Seq<char>) -> A2lState {
    let st1 = if st.addr.len() == 0 {
        match spec_addr_token(tok) {
            Some(a) => if a.len() >= 6 {
                A2lState { addr: a, ..st }
            } else {
                st
            },
            None => st,
        }
    } else {
        st
    };
    let st2 = if upper_seq(tok) == "MAP"@ {
        A2lState {
            kind: 1,
            rows: if st1.rows == 1 { 16 } else { st1.rows },
            cols: if st1.cols == 1 { 16 } else { st1.cols },
            ..st1
        }
    } else {
        st1
    };
    if upper_seq(tok) == "CURVE"@ {
        A2lState { kind: 2, cols: if st2.cols == 1 { 16 } else { st2.cols }, ..st2 }
    } else {
        st2
    }
}

pub open spec fn toks_step(st: A2lState, toks: Seq<Seq<char>>) -> A2lState
    decreases toks.len(),
{
    if toks.len() == 0 {
        st
    } else {
        tok_step(toks_step(st, toks.drop_last()), toks.last())
    }
}

/// `take_ident`: the first word of the trimmed text and what follows it,
/// leading whitespace removed.
pub open spec fn spec_take_ident(x: Seq<char>) -> Option<(Seq<char>, Seq<char>)> {
    let s = trim_ws(x);
    if s.len() == 0 {
        None
    } else {
        let e = ident_end(s, 0);
        Some((s.take(e as int), trim_start_ws(s.skip(e as int))))
    }
}

pub open spec fn is_ident_char(c: char) -> bool {
    ('a' <= c && c <= 'z') || ('A' <= c && c <= 'Z') || ('0' <= c && c <= '9') || c == '_'
}

/// One body line: axis blocks grow the size, a bare identifier names an
/// unnamed block, tokens give address and kind, `FORMAT`/`COMPU_METHOD`
/// lines with `*` give the conversion, `UNIT`/`PHYS_UNIT` the quoted unit.
pub open spec fn line_step(st: A2lState, line: Seq<char>) -> A2lState {
    let s = trim_ws(line);
    let su = upper_seq(s);
    let st1 = if contains(su, "/BEGIN AXIS_DESCR"@) || contains(su, "/BEGIN AXIS_PTS"@) {
        if st.rows == 1 {
            A2lState { rows: 16, ..st }
        } else if st.cols == 1 {
            A2lState { cols: 16, ..st }
        } else {
            st
        }
    } else {
        st
    };
    let st2 = if st1.name.len() == 0 {
        match spec_take_ident(s) {
            Some((n, _r)) => if n.len() > 1 && forall|k: int| 0 <= k < n.len() ==> is_ident_char(#[trigger] n[k]) {
                A2lState { name: n, ..st1 }
            } else {
                st1
            },
            None => st1,
        }
    } else {
        st1
    };
    let st3 = toks_step(st2, words(s));
    let st4 = if (starts_with(su, "FORMAT"@) || starts_with(su, "COMPU_METHOD"@)) && contains(s, "*"@) {
        A2lState { math: s, ..st3 }
    } else {
        st3
    };
    if starts_with(su, "UNIT"@) || starts_with(su, "PHYS_UNIT"@) {
        match char_pos(s, '"', 0) {
            Some(q) => match char_pos(s, '"', q + 1) {
                Some(e) => A2lState { units: s.subrange(q + 1 as int, e as int), ..st4 },
                None => st4,
            },
            None => st4,
        }
    } else {
        st4
    }
}

pub open spec fn is_end_line(line: Seq<char>) -> bool {
    let su = upper_seq(trim_ws(line));
    contains(su, "/END CHARACTERISTIC"@) || contains(su, "/END MEASUREMENT"@)
}

pub open spec fn is_header(line: Seq<char>) -> bool {
    let su = upper_seq(trim_ws(line));
    contains(su, "/BEGIN CHARACTERISTIC"@) || contains(su, "/BEGIN MEASUREMENT"@)
}

/// The header text after the block keyword.
pub open spec fn header_after(line: Seq<char>) -> Seq<char> {
    let t = trim_ws(line);
    let up = upper_seq(t);
    match first_occ(up, "CHARACTERISTIC"@, 0) {
        Some(i) => trim_ws(t.skip(i + 14 as int)),
        None => match first_occ(up, "MEASUREMENT"@, 0) {
            Some(i) => trim_ws(t.skip(i + 11 as int)),
            None => Seq::empty(),
        },
    }
}

/// Name and the text after it: no name when the header starts with a quote.
pub open spec fn header_name_rest(after: Seq<char>) -> (Seq<char>, Seq<char>) {
    match spec_take_ident(after) {
        Some((n, r)) => if n.len() > 0 && n[0] != '"' {
            (n, r)
        } else {
            (Seq::empty(), after)
        },
        None => (Seq::empty(), after),
    }
}

/// The quoted description that opens `rest`, and the header text after it.
pub open spec fn header_desc_tail(rest: Seq<char>) -> (Seq<char>, Seq<char>) {
    if rest.len() > 0 && rest[0] == '"' {
        match char_pos(rest, '"', 1) {
            Some(e) => (rest.subrange(1, e as int), rest.skip(e + 1 as int)),
            None => (Seq::empty(), Seq::empty()),
        }
    } else {
        (Seq::empty(), rest)
    }
}

/// The state a header line opens: name, description, and what the header's
/// remaining tokens (type keyword, address) say.
pub open spec fn header_state(line: Seq<char>) -> A2lState {
    let nr = header_name_rest(header_after(line));
    let dt = header_desc_tail(nr.1);
    toks_step(
        A2lState {
            name: nr.0,
            desc: dt.0,
            addr: Seq::empty(),
            rows: 1,
            cols: 1,
            math: "X"@,
            units: Seq::empty(),
            kind: 0,
        },
        words(dt.1),
    )
}

/// Reads at most `left` body lines from `j`, up to and including the end line.
/// Gives the state and the index of the next unread line.
pub open spec fn body(ls: Seq<Seq<char>>, j: nat, left: nat, st: A2lState) -> (A2lState, nat)
    decreases left,
{
    if left == 0 || j >= ls.len() {
        (st, j)
    } else if is_end_line(ls[j as int]) {
        (st, j + 1)
    } else {
        body(ls, j + 1, (left - 1) as nat, line_step(st, ls[j as int]))
    }
}

pub proof fn lemma_body_next(ls: Seq<Seq<char>>, j: nat, left: nat, st: A2lState)
    ensures
        body(ls, j, left, st).1 >= j,
        j <= ls.len() ==> body(ls, j, left, st).1 <= ls.len(),
    decreases left,
{
    if left > 0 && j < ls.len() && !is_end_line(ls[j as int]) {
        lemma_body_next(ls, j + 1, (left - 1) as nat, line_step(st, ls[j as int]));
    }
}

/// The blocks found from line `i` on, `count` of them already found; at most
/// 256 in all. A block for which no name turns up is dropped.
pub open spec fn scan(ls: Seq<Seq<char>>, i: nat, count: nat) -> Seq<A2lState>
    decreases ls.len() - i,
{
    if i >= ls.len() || count >= 256 {
        Seq::empty()
    } else if !is_header(ls[i as int]) {
        scan(ls, i + 1, count)
    } else {
        let b = body(ls, i + 1, 80, header_state(ls[i as int]));
        proof {
            lemma_body_next(ls, i + 1, 80, header_state(ls[i as int]));
        }
        if b.0.name.len() == 0 {
            scan(ls, b.1, count)
        } else {
            seq![b.0] + scan(ls, b.1, count + 1)
        }
    }
}

pub open spec fn kind_text(kind: nat) -> Seq<char> {
    if kind == 1 {
        "MAP"@
    } else if kind == 2 {
        "CURVE"@
    } else {
        "VALUE"@
    }
}

/// The table definition made of a block.
pub open spec fn a2l_def_ok(d: TableDef, st: A2lState) -> bool {
    &&& d.id@ == lowercase_text(st.name)
    &&& d.name@ == st.name
    &&& d.category matches Some(c) && c@ == "A2L "@ + kind_text(st.kind)
    &&& d.description@ == (if st.desc.len() == 0 { "A2L "@ + st.name } else { st.desc })
    &&& d.rows == st.rows && d.cols == st.cols
    &&& d.addr@ == (if st.addr.len() == 0 { "0x00000000"@ } else { st.addr })
    &&& d.data_type@ == "UWORD"@
    &&& d.math@ == st.math && d.units@ == st.units
    &&& d.row_major && d.msb
    &&& d.row_headers is None && d.col_headers is None && d.decimals == 0 && !d.file_offset
}

// ── Scanning ────────────────────────────────────────────────────────────────

struct ScanState {
    name: Vec<char>,
    desc: Vec<char>,
    addr: Vec<char>,
    rows: usize,
    cols: usize,
    math: Vec<char>,
    units: Vec<char>,
    kind: u8,
}

impl View for ScanState {
    type V = A2lState;

    closed spec fn view(&self) -> A2lState {
        A2lState {
            name: self.name@,
            desc: self.desc@,
            addr: self.addr@,
            rows: self.rows as nat,
            cols: self.cols as nat,
            math: self.math@,
            units: self.units@,
            kind: self.kind as nat,
        }
    }
}

fn addr_token(tok: &[char]) -> (r: Option<Vec<char>>)
    ensures
        r matches Some(v) ==> spec_addr_token(tok@) == Some(v@),
        r is None ==> spec_addr_token(tok@) is None,
{
    let t0 = trim_chars(tok);
    let lx = str_chars("0x");
    let ux = str_chars("0X");
    let t1 = strip_prefix_rep(t0.as_slice(), lx.as_slice());
    let t = strip_prefix_rep(t1.as_slice(), ux.as_slice());
    if t.len() == 0 {
        return None;
    }
    let mut k: usize = 0;
    while k < t.len()
        invariant
            k <= t@.len(),
            t@ == strip_rep(strip_rep(trim_ws(tok@), "0x"@), "0X"@),
            forall|q: int| 0 <= q < k ==> is_hex_char(#[trigger] t@[q]),
        decreases t.len() - k,
    {
        if !is_ascii_hexdigit(t[k]) {
            proof {
                let tt = strip_rep(strip_rep(trim_ws(tok@), "0x"@), "0X"@);
                assert(tt == t@);
                assert(!is_hex_char(tt[k as int]));
                assert(!(forall|q: int| 0 <= q < tt.len() ==> is_hex_char(#[trigger] tt[q])));
            }
            return None;
        }
        k += 1;
    }
    let mut out = lx;
    let up = upper_vec(t.as_slice());
    let mut j: usize = 0;
    let ghost start = out@;
    while j < up.len()
        invariant
            j <= up@.len(),
            out@ == start + up@.take(j as int),
        decreases up.len() - j,
    {
        out.push(up[j]);
        j += 1;
        assert(out@ =~= start + up@.take(j as int));
    }
    assert(up@.take(up@.len() as int) =~= up@);
    Some(out)
}

fn word_is(tok: &[char], w: &str) -> (r: bool)
    ensures
        r == (upper_seq(tok@) == w@),
{
    let up = upper_vec(tok);
    let wv = str_chars(w);
    eq_chars_vec(&up, &wv)
}

fn eq_chars_vec(a: &Vec<char>, b: &Vec<char>) -> (r: bool)
    ensures
        r == (a@ == b@),
{
    crate::text::eq_chars(a.as_slice(), b.as_slice())
}

fn tok_exec(st: &mut ScanState, tok: &[char])
    ensures
        final(st)@ == tok_step(old(st)@, tok@),
{
    if st.addr.len() == 0 {
        match addr_token(tok) {
            Some(a) => {
                if a.len() >= 6 {
                    st.addr = a;
                }
            },
            None => {},
        }
    }
    if word_is(tok, "MAP") {
        st.kind = 1;
        if st.rows == 1 {
            st.rows = 16;
        }
        if st.cols == 1 {
            st.cols = 16;
        }
    }
    if word_is(tok, "CURVE") {
        st.kind = 2;
        if st.cols == 1 {
            st.cols = 16;
        }
    }
}

fn toks_exec(st: &mut ScanState, line: &[char])
    ensures
        final(st)@ == toks_step(old(st)@, words(line@)),
{
    let ws = split_words(line);
    let ghost st0 = st@;
    let ghost wsv = words(line@);
    let mut k: usize = 0;
    proof {
        assert(wsv.take(0) =~= Seq::<Seq<char>>::empty());
    }
    while k < ws.len()
        invariant
            k <= ws@.len() == wsv.len(),
            wsv == words(line@),
            forall|q: int| 0 <= q < ws@.len() ==> #[trigger] ws@[q]@ == wsv[q],
            st@ == toks_step(st0, wsv.take(k as int)),
        decreases ws.len() - k,
    {
        proof {
            assert(wsv.take(k + 1).drop_last() =~= wsv.take(k as int));
        }
        tok_exec(st, ws[k].as_slice());
        k += 1;
    }
    proof {
        assert(wsv.take(wsv.len() as int) =~= wsv);
    }
}

fn take_ident_exec(x: &[char]) -> (r: Option<(Vec<char>, Vec<char>)>)
    ensures
        r matches Some(p) ==> spec_take_ident(x@) == Some((p.0@, p.1@)),
        r is None ==> spec_take_ident(x@) is None,
{
    let s = trim_chars(x);
    if s.len() == 0 {
        return None;
    }
    let mut e: usize = 0;
    while e < s.len() && !is_whitespace(s[e])
        invariant
            e <= s@.len(),
            ident_end(s@, 0) == ident_end(s@, e as nat),
        decreases s.len() - e,
    {
        e += 1;
    }
    let head = vstd::slice::slice_to_vec(vstd::slice::slice_subrange(s.as_slice(), 0, e));
    let tail0 = vstd::slice::slice_subrange(s.as_slice(), e, s.len());
    let mut lo: usize = 0;
    proof {
        assert(tail0@.skip(0) =~= tail0@);
    }
    while lo < tail0.len() && is_whitespace(tail0[lo])
        invariant
            lo <= tail0@.len(),
            trim_start_ws(tail0@) == trim_start_ws(tail0@.skip(lo as int)),
        decreases tail0.len() - lo,
    {
        proof {
            assert(tail0@.skip(lo as int).drop_first() =~= tail0@.skip(lo + 1));
        }
        lo += 1;
    }
    let tail = vstd::slice::slice_to_vec(vstd::slice::slice_subrange(tail0, lo, tail0.len()));
    proof {
        assert(head@ =~= s@.take(e as int));
        assert(tail0@ =~= s@.skip(e as int));
        assert(tail@ =~= tail0@.skip(lo as int));
    }
    Some((head, tail))
}

fn all_ident(n: &[char]) -> (r: bool)
    ensures
        r == forall|k: int| 0 <= k < n@.len() ==> is_ident_char(#[trigger] n@[k]),
{
    let mut k: usize = 0;
    while k < n.len()
        invariant
            k <= n@.len(),
            forall|q: int| 0 <= q < k ==> is_ident_char(#[trigger] n@[q]),
        decreases n.len() - k,
    {
        let c = n[k];
        if !(('a' <= c && c <= 'z') || ('A' <= c && c <= 'Z') || ('0' <= c && c <= '9') || c == '_') {
            return false;
        }
        k += 1;
    }
    true
}

fn has(hay: &[char], lit: &str) -> (r: bool)
    ensures
        r == contains(hay@, lit@),
{
    let n = str_chars(lit);
    contains_chars(hay, n.as_slice())
}

fn begins(hay: &[char], lit: &str) -> (r: bool)
    ensures
        r == starts_with(hay@, lit@),
{
    let n = str_chars(lit);
    starts_with_chars(hay, n.as_slice())
}

fn line_exec(st: &mut ScanState, line: &[char])
    ensures
        final(st)@ == line_step(old(st)@, line@),
{
    let ghost st0 = st@;
    let s = trim_chars(line);
    let su = upper_vec(s.as_slice());
    if has(su.as_slice(), "/BEGIN AXIS_DESCR") || has(su.as_slice(), "/BEGIN AXIS_PTS") {
        if st.rows == 1 {
            st.rows = 16;
        } else if st.cols == 1 {
            st.cols = 16;
        }
    }
    let ghost st1 = st@;
    assert(st1 == (if contains(su@, "/BEGIN AXIS_DESCR"@) || contains(su@, "/BEGIN AXIS_PTS"@) {
        if st0.rows == 1 {
            A2lState { rows: 16, ..st0 }
        } else if st0.cols == 1 {
            A2lState { cols: 16, ..st0 }
        } else {
            st0
        }
    } else {
        st0
    }));
    if st.name.len() == 0 {
        match take_ident_exec(s.as_slice()) {
            Some((n, _r)) => {
                if n.len() > 1 && all_ident(n.as_slice()) {
                    st.name = n;
                }
            },
            None => {},
        }
    }
    let ghost st2 = st@;
    assert(st2 == (if st1.name.len() == 0 {
        match spec_take_ident(s@) {
            Some((n, _r)) => if n.len() > 1 && forall|k: int| 0 <= k < n.len() ==> is_ident_char(#[trigger] n[k]) {
                A2lState { name: n, ..st1 }
            } else {
                st1
            },
            None => st1,
        }
    } else {
        st1
    }));
    toks_exec(st, s.as_slice());
    let ghost st3 = st@;
    if (begins(su.as_slice(), "FORMAT") || begins(su.as_slice(), "COMPU_METHOD")) && has(s.as_slice(), "*") {
        st.math = copy_chars(&s);
    }
    let ghost st4 = st@;
    assert(st4 == (if (starts_with(su@, "FORMAT"@) || starts_with(su@, "COMPU_METHOD"@)) && contains(s@, "*"@) {
        A2lState { math: s@, ..st3 }
    } else {
        st3
    }));
    let sl = s.len();
    if begins(su.as_slice(), "UNIT") || begins(su.as_slice(), "PHYS_UNIT") {
        match find_char(s.as_slice(), '"', 0) {
            Some(q) => match find_char(s.as_slice(), '"', q + 1) {
                Some(e) => {
                    st.units = vstd::slice::slice_to_vec(vstd::slice::slice_subrange(s.as_slice(), q + 1, e));
                    assert(st.units@ == s@.subrange(q + 1 as int, e as int));
                },
                None => {},
            },
            None => {},
        }
    }
}

fn copy_chars(v: &Vec<char>) -> (r: Vec<char>)
    ensures
        r@ == v@,
{
    vstd::slice::slice_to_vec(v.as_slice())
}

fn is_end_exec(line: &[char]) -> (r: bool)
    ensures
        r == is_end_line(line@),
{
    let su = upper_vec(trim_chars(line).as_slice());
    has(su.as_slice(), "/END CHARACTERISTIC") || has(su.as_slice(), "/END MEASUREMENT")
}

fn is_header_exec(line: &[char]) -> (r: bool)
    ensures
        r == is_header(line@),
{
    let su = upper_vec(trim_chars(line).as_slice());
    has(su.as_slice(), "/BEGIN CHARACTERISTIC") || has(su.as_slice(), "/BEGIN MEASUREMENT")
}

fn header_exec(line: &[char]) -> (r: ScanState)
    ensures
        r@ == header_state(line@),
{
    let t = trim_chars(line);
    let up = upper_vec(t.as_slice());
    let ul = up.len();
    let kw1 = str_chars("CHARACTERISTIC");
    let kw2 = str_chars("MEASUREMENT");
    proof {
        reveal_strlit("CHARACTERISTIC");
        reveal_strlit("MEASUREMENT");
    }
    let after: Vec<char> = match find_from(up.as_slice(), kw1.as_slice(), 0) {
        Some(i) => {
            assert(up@.len() == t@.len());
            assert(i + kw1@.len() <= up@.len());
            let v = trim_chars(vstd::slice::slice_subrange(t.as_slice(), i + kw1.len(), t.len()));
            assert(t@.subrange(i + 14 as int, t@.len() as int) =~= t@.skip(i + 14 as int));
            v
        },
        None => match find_from(up.as_slice(), kw2.as_slice(), 0) {
            Some(i) => {
                assert(up@.len() == t@.len());
                assert(i + kw2@.len() <= up@.len());
                let v = trim_chars(vstd::slice::slice_subrange(t.as_slice(), i + kw2.len(), t.len()));
                assert(t@.subrange(i + 11 as int, t@.len() as int) =~= t@.skip(i + 11 as int));
                v
            },
            None => Vec::new(),
        },
    };
    assert(after@ == header_after(line@));
    let (name, rest): (Vec<char>, Vec<char>) = match take_ident_exec(after.as_slice()) {
        Some((n, r)) => {
            if n.len() > 0 && n[0] != '"' {
                (n, r)
            } else {
                (Vec::new(), copy_chars(&after))
            }
        },
        None => (Vec::new(), copy_chars(&after)),
    };
    assert((name@, rest@) == header_name_rest(after@));
    let (desc, tail): (Vec<char>, Vec<char>) = if rest.len() > 0 && rest[0] == '"' {
        match find_char(rest.as_slice(), '"', 1) {
            Some(e) => {
                let d = vstd::slice::slice_to_vec(vstd::slice::slice_subrange(rest.as_slice(), 1, e));
                let tl = vstd::slice::slice_to_vec(vstd::slice::slice_subrange(rest.as_slice(), e + 1, rest.len()));
                assert(tl@ =~= rest@.skip(e + 1 as int));
                (d, tl)
            },
            None => (Vec::new(), Vec::new()),
        }
    } else {
        (Vec::new(), copy_chars(&rest))
    };
    assert((desc@, tail@) == header_desc_tail(rest@));
    let mut st = ScanState {
        name,
        desc,
        addr: Vec::new(),
        rows: 1,
        cols: 1,
        math: str_chars("X"),
        units: Vec::new(),
        kind: 0,
    };
    toks_exec(&mut st, tail.as_slice());
    st
}

pub open spec fn lines_view(ls: Seq<Vec<char>>) -> Seq<Seq<char>> {
    Seq::new(ls.len(), |i: int| ls[i]@)
}

fn body_exec(ls: &Vec<Vec<char>>, j: usize, st: &mut ScanState) -> (r: usize)
    ensures
        (final(st)@, r as nat) == body(lines_view(ls@), j as nat, 80, old(st)@),
{
    let ghost lv = lines_view(ls@);
    let ghost goal = body(lv, j as nat, 80, st@);
    let mut jj = j;
    let mut left: usize = 80;
    while left > 0 && jj < ls.len()
        invariant
            lv == lines_view(ls@),
            goal == body(lv, j as nat, 80, old(st)@),
            goal == body(lv, jj as nat, left as nat, st@),
        decreases left,
    {
        assert(lv[jj as int] == ls@[jj as int]@);
        if is_end_exec(ls[jj].as_slice()) {
            return jj + 1;
        }
        line_exec(st, ls[jj].as_slice());
        jj += 1;
        left -= 1;
    }
    jj
}

fn kind_str(kind: u8) -> (r: &'static str)
    ensures
        r@ == kind_text(kind as nat),
{
    if kind == 1 {
        "MAP"
    } else if kind == 2 {
        "CURVE"
    } else {
        "VALUE"
    }
}

fn make_def(st: &ScanState) -> (r: TableDef)
    ensures
        a2l_def_ok(r, st@),
{
    let name = chars_to_string(st.name.as_slice());
    let mut category = str_to_string("A2L ");
    push_str(&mut category, kind_str(st.kind));
    let description = if st.desc.len() == 0 {
        let mut d = str_to_string("A2L ");
        push_chars(&mut d, st.name.as_slice());
        d
    } else {
        chars_to_string(st.desc.as_slice())
    };
    let addr = if st.addr.len() == 0 {
        str_to_string("0x00000000")
    } else {
        chars_to_string(st.addr.as_slice())
    };
    TableDef {
        id: to_lowercase(name.as_str()),
        name,
        category: Some(category),
        description,
        rows: st.rows,
        cols: st.cols,
        addr,
        data_type: str_to_string("UWORD"),
        math: chars_to_string(st.math.as_slice()),
        units: chars_to_string(st.units.as_slice()),
        row_major: true,
        msb: true,
        row_headers: None,
        col_headers: None,
        decimals: 0,
        file_offset: false,
    }
}

/// Scans A2L text for CHARACTERISTIC and MEASUREMENT blocks, at most 256 of
/// them, and gives a table definition for each block that has a name.
pub fn parse_a2l(text: &str) -> (r: Vec<TableDef>)
    ensures
        r@.len() == scan(split_nl(text@), 0, 0).len(),
        forall|i: int| 0 <= i < r@.len() ==> a2l_def_ok(#[trigger] r@[i], scan(split_nl(text@), 0, 0)[i]),
{
    let ls = split_lines(text);
    let ghost lv = split_nl(text@);
    proof {
        assert(lines_view(ls@) =~= lv);
    }
    let mut out: Vec<TableDef> = Vec::new();
    let ghost mut found: Seq<A2lState> = Seq::empty();
    let mut i: usize = 0;
    while i < ls.len() && out.len() < 256
        invariant
            lv == lines_view(ls@),
            lv == split_nl(text@),
            i <= ls@.len(),
            out@.len() == found.len(),
            scan(lv, 0, 0) == found + scan(lv, i as nat, out@.len()),
            forall|k: int| 0 <= k < out@.len() ==> a2l_def_ok(#[trigger] out@[k], found[k]),
        decreases ls.len() - i,
    {
        assert(lv[i as int] == ls@[i as int]@);
        if !is_header_exec(ls[i].as_slice()) {
            i += 1;
        } else {
            let mut st = header_exec(ls[i].as_slice());
            let next = body_exec(&ls, i + 1, &mut st);
            proof {
                lemma_body_next(lv, (i + 1) as nat, 80, header_state(lv[i as int]));
            }
            if st.name.len() == 0 {
                i = next;
            } else {
                let d = make_def(&st);
                out.push(d);
                proof {
                    assert(found.push(st@) + scan(lv, next as nat, out@.len()) =~= found + (seq![st@] + scan(lv, next as nat, out@.len())));
                    found = found.push(st@);
                }
                i = next;
            }
        }
    }
    out
}

} // verus!
