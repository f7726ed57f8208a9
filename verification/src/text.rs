//! Character and byte helpers shared by the parsers and report builders.
use vstd::prelude::*;

verus! {

// ── Strings and characters ─────────────────────────────────────────────────

/// Characters of a string slice, in order.
pub fn str_chars(s: &str) -> (v: Vec<char>)
    ensures
        v@ == s@,
{
    let mut v: Vec<char> = Vec::new();
    for c in it: s.chars()
        invariant
            v@ == it.seq().take(it.index() as int),
    {
        v.push(c);
    }
    v
}

/// `String::push`: appends one character.
#[verifier::external_body]
pub(crate) fn string_push(s: &mut String, c: char)
    ensures
        final(s)@ == old(s)@.push(c),
{
    s.push(c);
}

/// A `String` holding exactly the given characters.
pub fn chars_to_string(v: &[char]) -> (s: String)
    ensures
        s@ == v@,
{
    let mut s = String::new();
    let mut i: usize = 0;
    while i < v.len()
        invariant
            i <= v.len(),
            s@ == v@.take(i as int),
        decreases v.len() - i,
    {
        string_push(&mut s, v[i]);
        i += 1;
        assert(v@.take(i as int) == v@.take((i - 1) as int).push(v@[i - 1]));
    }
    assert(v@.take(v.len() as int) == v@);
    s
}

/// A `String` holding the given string slice.
pub fn str_to_string(t: &str) -> (s: String)
    ensures
        s@ == t@,
{
    String::from_str(t)
}

/// Appends a string slice.
pub fn push_str(s: &mut String, t: &str)
    ensures
        final(s)@ == old(s)@ + t@,
{
    s.append(t);
}

/// Appends characters.
pub fn push_chars(s: &mut String, v: &[char])
    ensures
        final(s)@ == old(s)@ + v@,
{
    let ghost s0 = s@;
    let mut i: usize = 0;
    while i < v.len()
        invariant
            i <= v.len(),
            s@ == s0 + v@.take(i as int),
        decreases v.len() - i,
    {
        string_push(s, v[i]);
        i += 1;
        assert(v@.take(i as int) == v@.take((i - 1) as int).push(v@[i - 1]));
    }
    assert(v@.take(v.len() as int) == v@);
}

// ── Number formatting ──────────────────────────────────────────────────────

pub open spec fn digit_char(d: nat) -> char {
    if d < 10 {
        ((d + 48) as u8) as char
    } else {
        ((d - 10 + 65) as u8) as char
    }
}

/// Decimal digits of `n`, most significant first ("0" for zero).
pub open spec fn dec(n: nat) -> Seq<char>
    decreases n,
{
    if n < 10 {
        seq![digit_char(n)]
    } else {
        dec(n / 10).push(digit_char(n % 10))
    }
}

/// Upper-case hexadecimal digits of `n`, most significant first ("0" for zero).
pub open spec fn hex(n: nat) -> Seq<char>
    decreases n,
{
    if n < 16 {
        seq![digit_char(n)]
    } else {
        hex(n / 16).push(digit_char(n % 16))
    }
}

/// `n` in upper-case hex, left-padded with '0' to at least `width` digits.
pub open spec fn hex_pad(n: nat, width: nat) -> Seq<char> {
    let h = hex(n);
    if h.len() >= width {
        h
    } else {
        Seq::new((width - h.len()) as nat, |i: int| '0') + h
    }
}

fn digit(d: u64) -> (c: char)
    requires
        d < 16,
    ensures
        c == digit_char(d as nat),
{
    if d < 10 {
        ((d + 48) as u8) as char
    } else {
        ((d - 10 + 65) as u8) as char
    }
}

/// Appends the decimal form of `n`.
pub fn push_dec(s: &mut String, n: u64)
    ensures
        final(s)@ == old(s)@ + dec(n as nat),
    decreases n,
{
    if n >= 10 {
        push_dec(s, n / 10);
    }
    string_push(s, digit(n % 10));
    proof {
        if n < 10 {
            assert(n % 10 == n);
        }
    }
}

/// Appends the upper-case hexadecimal form of `n` (no padding).
pub fn push_hex(s: &mut String, n: u64)
    ensures
        final(s)@ == old(s)@ + hex(n as nat),
    decreases n,
{
    if n >= 16 {
        push_hex(s, n / 16);
    }
    string_push(s, digit(n % 16));
    proof {
        if n < 16 {
            assert(n % 16 == n);
        }
    }
}

pub open spec fn pow16(k: nat) -> nat
    decreases k,
{
    if k == 0 {
        1
    } else {
        16 * pow16((k - 1) as nat)
    }
}

proof fn lemma_hex_len(n: nat, k: nat)
    requires
        n < pow16(k),
    ensures
        1 <= hex(n).len() <= if k == 0 { 1 } else { k },
    decreases n,
{
    if n >= 16 {
        assert(k >= 2) by {
            if k == 0 {
            } else if k == 1 {
                assert(pow16(0) == 1);
            }
        }
        assert(n / 16 < pow16((k - 1) as nat)) by (nonlinear_arith)
            requires
                n < pow16(k),
                pow16(k) == 16 * pow16((k - 1) as nat),
        ;
        lemma_hex_len(n / 16, (k - 1) as nat);
    }
}

proof fn lemma_hex_len_u64(n: u64)
    ensures
        1 <= hex(n as nat).len() <= 16,
{
    reveal_with_fuel(pow16, 17);
    assert(pow16(16) == 0x1_0000_0000_0000_0000);
    lemma_hex_len(n as nat, 16);
}

/// Appends `n` in upper-case hex, zero-padded to at least `width` digits.
pub fn push_hex_pad(s: &mut String, n: u64, width: usize)
    ensures
        final(s)@ == old(s)@ + hex_pad(n as nat, width as nat),
{
    let mut tmp = String::new();
    push_hex(&mut tmp, n);
    let ghost h = hex(n as nat);
    proof {
        lemma_hex_len_u64(n);
    }
    let hlen = count_hex_digits(n);
    let ghost s0 = s@;
    if hlen < width {
        let pad = width - hlen;
        let mut i: usize = 0;
        while i < pad
            invariant
                i <= pad,
                s@ == s0 + Seq::new(i as nat, |j: int| '0'),
            decreases pad - i,
        {
            string_push(s, '0');
            i += 1;
            assert(Seq::new(i as nat, |j: int| '0') == Seq::new((i - 1) as nat, |j: int| '0').push('0'));
        }
    }
    push_str(s, tmp.as_str());
}

fn count_hex_digits(n: u64) -> (r: usize)
    ensures
        r == hex(n as nat).len(),
    decreases n,
{
    proof {
        lemma_hex_len_u64(n);
        if n >= 16 {
            lemma_hex_len_u64(n / 16);
        }
    }
    if n < 16 {
        1
    } else {
        count_hex_digits(n / 16) + 1
    }
}

// ── ASCII classification ───────────────────────────────────────────────────

pub open spec fn is_hex_char(c: char) -> bool {
    ('0' <= c && c <= '9') || ('a' <= c && c <= 'f') || ('A' <= c && c <= 'F')
}

pub open spec fn hex_val(c: char) -> nat {
    if '0' <= c && c <= '9' {
        (c as nat - 48) as nat
    } else if 'a' <= c && c <= 'f' {
        (c as nat - 87) as nat
    } else {
        (c as nat - 55) as nat
    }
}

pub fn is_ascii_hexdigit(c: char) -> (r: bool)
    ensures
        r == is_hex_char(c),
{
    ('0' <= c && c <= '9') || ('a' <= c && c <= 'f') || ('A' <= c && c <= 'F')
}

pub fn hex_value(c: char) -> (r: u8)
    requires
        is_hex_char(c),
    ensures
        r as nat == hex_val(c),
        r < 16,
{
    if '0' <= c && c <= '9' {
        (c as u32 - 48) as u8
    } else if 'a' <= c && c <= 'f' {
        (c as u32 - 87) as u8
    } else {
        (c as u32 - 55) as u8
    }
}

pub open spec fn upper(c: char) -> char {
    if 'a' <= c && c <= 'z' {
        ((c as u32 - 32) as u8) as char
    } else {
        c
    }
}

pub open spec fn lower(c: char) -> char {
    if 'A' <= c && c <= 'Z' {
        ((c as u32 + 32) as u8) as char
    } else {
        c
    }
}

pub open spec fn upper_seq(s: Seq<char>) -> Seq<char> {
    Seq::new(s.len(), |i: int| upper(s[i]))
}

pub open spec fn lower_seq(s: Seq<char>) -> Seq<char> {
    Seq::new(s.len(), |i: int| lower(s[i]))
}

pub fn to_upper(c: char) -> (r: char)
    ensures
        r == upper(c),
{
    if 'a' <= c && c <= 'z' {
        ((c as u32 - 32) as u8) as char
    } else {
        c
    }
}

pub fn to_lower(c: char) -> (r: char)
    ensures
        r == lower(c),
{
    if 'A' <= c && c <= 'Z' {
        ((c as u32 + 32) as u8) as char
    } else {
        c
    }
}

/// ASCII upper-case copy (`str::to_ascii_uppercase`).
pub fn upper_vec(s: &[char]) -> (r: Vec<char>)
    ensures
        r@ == upper_seq(s@),
{
    let mut r: Vec<char> = Vec::new();
    let mut i: usize = 0;
    while i < s.len()
        invariant
            i <= s.len(),
            r@ == upper_seq(s@).take(i as int),
        decreases s.len() - i,
    {
        r.push(to_upper(s[i]));
        i += 1;
        assert(r@ == upper_seq(s@).take(i as int));
    }
    r
}

/// ASCII lower-case copy (`str::to_ascii_lowercase`).
pub fn lower_vec(s: &[char]) -> (r: Vec<char>)
    ensures
        r@ == lower_seq(s@),
{
    let mut r: Vec<char> = Vec::new();
    let mut i: usize = 0;
    while i < s.len()
        invariant
            i <= s.len(),
            r@ == lower_seq(s@).take(i as int),
        decreases s.len() - i,
    {
        r.push(to_lower(s[i]));
        i += 1;
        assert(r@ == lower_seq(s@).take(i as int));
    }
    r
}

// ── Substring search ───────────────────────────────────────────────────────

/// `needle` occurs in `hay` starting at `i`.
pub open spec fn occurs_at(hay: Seq<char>, needle: Seq<char>, i: int) -> bool {
    0 <= i && i + needle.len() <= hay.len() && hay.subrange(i, i + needle.len()) == needle
}

pub open spec fn contains(hay: Seq<char>, needle: Seq<char>) -> bool {
    exists|i: int| occurs_at(hay, needle, i)
}

pub open spec fn starts_with(hay: Seq<char>, needle: Seq<char>) -> bool {
    occurs_at(hay, needle, 0)
}

pub fn matches_at(hay: &[char], needle: &[char], i: usize) -> (r: bool)
    ensures
        r == occurs_at(hay@, needle@, i as int),
{
    if i > hay.len() || needle.len() > hay.len() - i {
        return false;
    }
    let mut k: usize = 0;
    while k < needle.len()
        invariant
            k <= needle.len(),
            i + needle.len() <= hay.len(),
            forall|j: int| 0 <= j < k ==> hay@[i + j] == needle@[j],
        decreases needle.len() - k,
    {
        if hay[i + k] != needle[k] {
            assert(hay@.subrange(i as int, i + needle.len())[k as int] != needle@[k as int]);
            return false;
        }
        k += 1;
    }
    assert(hay@.subrange(i as int, i + needle.len()) =~= needle@);
    true
}

/// Index of the first occurrence of `needle` in `hay`.
pub fn find(hay: &[char], needle: &[char]) -> (r: Option<usize>)
    ensures
        r matches Some(i) ==> occurs_at(hay@, needle@, i as int) && forall|j: int|
            0 <= j < i ==> !occurs_at(hay@, needle@, j),
        r is None ==> !contains(hay@, needle@),
{
    if needle.len() > hay.len() {
        return None;
    }
    let last = hay.len() - needle.len();
    let mut i: usize = 0;
    while i <= last
        invariant
            last == hay.len() - needle.len(),
            needle.len() <= hay.len(),
            forall|j: int| 0 <= j < i ==> !occurs_at(hay@, needle@, j),
        decreases last + 1 - i,
    {
        if matches_at(hay, needle, i) {
            return Some(i);
        }
        if i == last {
            return None;
        }
        i += 1;
    }
    None
}

pub fn contains_chars(hay: &[char], needle: &[char]) -> (r: bool)
    ensures
        r == contains(hay@, needle@),
{
    find(hay, needle).is_some()
}

pub fn starts_with_chars(hay: &[char], needle: &[char]) -> (r: bool)
    ensures
        r == starts_with(hay@, needle@),
{
    matches_at(hay, needle, 0)
}

/// Two character sequences are equal.
pub fn eq_chars(a: &[char], b: &[char]) -> (r: bool)
    ensures
        r == (a@ == b@),
{
    if a.len() != b.len() {
        return false;
    }
    let r = matches_at(a, b, 0);
    proof {
        if r {
            assert(a@.subrange(0, b@.len() as int) =~= a@);
        } else {
            assert(a@.subrange(0, b@.len() as int) =~= a@);
        }
    }
    r
}

// ── Hex text to bytes ──────────────────────────────────────────────────────

/// The hexadecimal digits of `s`, in order, everything else dropped.
pub open spec fn hex_digits(s: Seq<char>) -> Seq<char>
    decreases s.len(),
{
    if s.len() == 0 {
        Seq::empty()
    } else if is_hex_char(s.last()) {
        hex_digits(s.drop_last()).push(s.last())
    } else {
        hex_digits(s.drop_last())
    }
}

/// Consecutive pairs of hex digits read as bytes; an odd trailing digit is dropped.
pub open spec fn digit_pairs(h: Seq<char>) -> Seq<u8> {
    Seq::new(h.len() / 2, |k: int| (hex_val(h[2 * k]) * 16 + hex_val(h[2 * k + 1])) as u8)
}

/// The bytes spelled by the hex digits of `s`, ignoring spaces, prompts and
/// any other character.
pub open spec fn spec_hex_bytes(s: Seq<char>) -> Seq<u8> {
    digit_pairs(hex_digits(s))
}

pub proof fn lemma_hex_digits_all_hex(s: Seq<char>)
    ensures
        forall|i: int| 0 <= i < hex_digits(s).len() ==> is_hex_char(#[trigger] hex_digits(s)[i]),
    decreases s.len(),
{
    if s.len() > 0 {
        lemma_hex_digits_all_hex(s.drop_last());
        let p = hex_digits(s.drop_last());
        if is_hex_char(s.last()) {
            assert forall|i: int| 0 <= i < hex_digits(s).len() implies is_hex_char(
                #[trigger] hex_digits(s)[i],
            ) by {
                if i < p.len() {
                    assert(hex_digits(s)[i] == p[i]);
                }
            }
        }
    }
}

/// Collects the hex digits of `s`.
pub fn hex_digit_chars(s: &str) -> (r: Vec<char>)
    ensures
        r@ == hex_digits(s@),
        forall|i: int| 0 <= i < r@.len() ==> is_hex_char(#[trigger] r@[i]),
{
    let v = str_chars(s);
    let mut r: Vec<char> = Vec::new();
    let mut i: usize = 0;
    while i < v.len()
        invariant
            i <= v.len(),
            v@ == s@,
            r@ == hex_digits(s@.take(i as int)),
        decreases v.len() - i,
    {
        assert(s@.take(i + 1).drop_last() == s@.take(i as int));
        if is_ascii_hexdigit(v[i]) {
            r.push(v[i]);
        }
        i += 1;
    }
    assert(s@.take(v.len() as int) == s@);
    proof {
        lemma_hex_digits_all_hex(s@);
    }
    r
}

/// Bytes of a hex dump such as an ELM327 reply (`"41 0C 1A F8\r>"`).
pub fn hex_text_to_bytes(s: &str) -> (r: Vec<u8>)
    ensures
        r@ == spec_hex_bytes(s@),
{
    let h = hex_digit_chars(s);
    let mut out: Vec<u8> = Vec::new();
    let mut i: usize = 0;
    while i + 1 < h.len()
        invariant
            i % 2 == 0,
            i <= h.len(),
            out@.len() == i / 2,
            forall|k: int| 0 <= k < out@.len() ==> #[trigger] out@[k] == digit_pairs(h@)[k],
            forall|j: int| 0 <= j < h@.len() ==> is_hex_char(#[trigger] h@[j]),
        decreases h.len() - i,
    {
        let hi = hex_value(h[i]);
        let lo = hex_value(h[i + 1]);
        let b: u8 = hi * 16 + lo;
        out.push(b);
        i += 2;
    }
    assert(out@ == digit_pairs(h@));
    out
}

// ── Whitespace trimming ────────────────────────────────────────────────────

/// Unicode `White_Space` (what `char::is_whitespace` tests).
pub open spec fn is_ws(c: char) -> bool {
    ||| c == ' '
    ||| ('\u{9}' <= c && c <= '\u{d}')
    ||| c == '\u{85}'
    ||| c == '\u{a0}'
    ||| c == '\u{1680}'
    ||| ('\u{2000}' <= c && c <= '\u{200a}')
    ||| c == '\u{2028}'
    ||| c == '\u{2029}'
    ||| c == '\u{202f}'
    ||| c == '\u{205f}'
    ||| c == '\u{3000}'
}

pub fn is_whitespace(c: char) -> (r: bool)
    ensures
        r == is_ws(c),
{
    c == ' ' || ('\u{9}' <= c && c <= '\u{d}') || c == '\u{85}' || c == '\u{a0}' || c == '\u{1680}'
        || ('\u{2000}' <= c && c <= '\u{200a}') || c == '\u{2028}' || c == '\u{2029}' || c
        == '\u{202f}' || c == '\u{205f}' || c == '\u{3000}'
}

pub open spec fn trim_end_ws(s: Seq<char>) -> Seq<char>
    decreases s.len(),
{
    if s.len() > 0 && is_ws(s.last()) {
        trim_end_ws(s.drop_last())
    } else {
        s
    }
}

pub open spec fn trim_start_ws(s: Seq<char>) -> Seq<char>
    decreases s.len(),
{
    if s.len() > 0 && is_ws(s[0]) {
        trim_start_ws(s.drop_first())
    } else {
        s
    }
}

/// `str::trim`: leading and trailing whitespace removed.
pub open spec fn trim_ws(s: Seq<char>) -> Seq<char> {
    trim_start_ws(trim_end_ws(s))
}

/// The characters of `s` without leading and trailing whitespace.
pub fn trim_chars(s: &[char]) -> (r: Vec<char>)
    ensures
        r@ == trim_ws(s@),
{
    let mut hi: usize = s.len();
    assert(s@.take(hi as int) == s@);
    while hi > 0 && is_whitespace(s[hi - 1])
        invariant
            hi <= s.len(),
            trim_end_ws(s@) == trim_end_ws(s@.take(hi as int)),
        decreases hi,
    {
        assert(s@.take(hi as int).drop_last() == s@.take(hi - 1));
        hi -= 1;
    }
    let ghost t = s@.take(hi as int);
    let mut lo: usize = 0;
    assert(t.subrange(0, hi as int) == t);
    while lo < hi && is_whitespace(s[lo])
        invariant
            lo <= hi <= s.len(),
            t == s@.take(hi as int),
            trim_start_ws(t) == trim_start_ws(t.subrange(lo as int, hi as int)),
        decreases hi - lo,
    {
        assert(t.subrange(lo as int, hi as int).drop_first() == t.subrange(lo + 1, hi as int));
        lo += 1;
    }
    assert(t.subrange(0, hi as int) == t);
    vstd::slice::slice_to_vec(vstd::slice::slice_subrange(s, lo, hi))
}

// ── Bytes as text ──────────────────────────────────────────────────────────

/// Each byte taken as the character of the same code.
pub open spec fn ascii_text(b: Seq<u8>) -> Seq<char> {
    Seq::new(b.len(), |i: int| b[i] as char)
}

pub open spec fn all_ascii(b: Seq<u8>) -> bool {
    forall|i: int| 0 <= i < b.len() ==> b[i] < 128
}

/// What `String::from_utf8_lossy` makes of a byte sequence.
pub uninterp spec fn utf8_lossy_text(b: Seq<u8>) -> Seq<char>;

/// `String::from_utf8_lossy`. Its result is a function of the bytes; for
/// ASCII input it is those bytes as characters. What it makes of other input
/// (decoding, replacement characters) is not stated.
#[verifier::external_body]
pub(crate) fn utf8_lossy(b: &[u8]) -> (s: String)
    ensures
        s@ == utf8_lossy_text(b@),
        all_ascii(b@) ==> s@ == ascii_text(b@),
{
    String::from_utf8_lossy(b).into_owned()
}

// ── Bytes as hex text ──────────────────────────────────────────────────────

/// Each byte as two upper-case hex digits (`{:02X}`), concatenated.
pub open spec fn hex_str(b: Seq<u8>) -> Seq<char>
    decreases b.len(),
{
    if b.len() == 0 {
        Seq::empty()
    } else {
        hex_str(b.drop_last()) + hex_pad(b.last() as nat, 2)
    }
}

/// `{:02X}` of a byte is its two hex digits.
pub proof fn lemma_hex_pad2(n: nat)
    requires
        n < 256,
    ensures
        hex_pad(n, 2) == seq![digit_char(n / 16), digit_char(n % 16)],
{
    if n < 16 {
        assert(hex(n) == seq![digit_char(n)]);
        assert(n / 16 == 0 && n % 16 == n);
        assert(digit_char(0) == '0');
        assert(hex_pad(n, 2) =~= seq!['0'] + seq![digit_char(n)]);
    } else {
        assert(n / 16 < 16);
        assert(hex(n / 16) == seq![digit_char(n / 16)]);
        assert(hex(n) == hex(n / 16).push(digit_char(n % 16)));
        assert(hex_pad(n, 2) == hex(n));
        assert(hex(n) =~= seq![digit_char(n / 16), digit_char(n % 16)]);
    }
}

/// The characters of `hex_str(b)`: two hex digits per byte.
pub proof fn lemma_hex_str_pairs(b: Seq<u8>)
    ensures
        hex_str(b).len() == 2 * b.len(),
        forall|k: int|
            0 <= k < b.len() ==> hex_str(b)[2 * k] == digit_char((#[trigger] b[k]) as nat / 16) && hex_str(b)[2 * k + 1]
                == digit_char(b[k] as nat % 16),
    decreases b.len(),
{
    if b.len() > 0 {
        let p = b.drop_last();
        lemma_hex_str_pairs(p);
        lemma_hex_pad2(b.last() as nat);
        assert(hex_str(b) == hex_str(p) + hex_pad(b.last() as nat, 2));
        assert forall|k: int| 0 <= k < b.len() implies hex_str(b)[2 * k] == digit_char((#[trigger] b[k]) as nat / 16)
            && hex_str(b)[2 * k + 1] == digit_char(b[k] as nat % 16) by {
            if k < p.len() {
                assert(p[k] == b[k]);
            }
        }
    }
}

pub proof fn lemma_digit_char_hex(d: nat)
    requires
        d < 16,
    ensures
        is_hex_char(digit_char(d)),
        hex_val(digit_char(d)) == d,
{
}

/// Appends `{:02X}` of every byte.
pub fn push_hex_bytes(s: &mut String, b: &[u8])
    ensures
        final(s)@ == old(s)@ + hex_str(b@),
{
    let ghost s0 = s@;
    let mut i: usize = 0;
    while i < b.len()
        invariant
            i <= b@.len(),
            s@ == s0 + hex_str(b@.take(i as int)),
        decreases b.len() - i,
    {
        assert(b@.take(i + 1).drop_last() == b@.take(i as int));
        push_hex_pad(s, b[i] as u64, 2);
        i += 1;
    }
    assert(b@.take(b@.len() as int) == b@);
}

/// The `{:02X}` text of a byte string.
pub fn hex_upper(b: &[u8]) -> (s: String)
    ensures
        s@ == hex_str(b@),
{
    let mut s = String::new();
    push_hex_bytes(&mut s, b);
    s
}

/// Upper-cased hex digits of a text (everything else dropped).
pub open spec fn norm_hex_spec(s: Seq<char>) -> Seq<char> {
    upper_seq(hex_digits(s))
}

/// Keeps the hex digits of `s`, upper-cased.
pub fn norm_hex(s: &str) -> (r: Vec<char>)
    ensures
        r@ == norm_hex_spec(s@),
{
    let h = hex_digit_chars(s);
    upper_vec(h.as_slice())
}

/// A text made only of hex digits is its own digit string.
pub proof fn lemma_hex_digits_id(s: Seq<char>)
    requires
        forall|i: int| 0 <= i < s.len() ==> is_hex_char(#[trigger] s[i]),
    ensures
        hex_digits(s) == s,
    decreases s.len(),
{
    if s.len() > 0 {
        lemma_hex_digits_id(s.drop_last());
        assert(is_hex_char(s[s.len() - 1]));
        assert(s.drop_last().push(s.last()) == s);
    }
}

// ── Words ──────────────────────────────────────────────────────────────────

/// `split_whitespace`: the maximal runs of non-whitespace characters.
pub open spec fn words_acc(acc: Seq<Seq<char>>, cur: Seq<char>, rest: Seq<char>) -> Seq<Seq<char>>
    decreases rest.len(),
{
    if rest.len() == 0 {
        if cur.len() > 0 {
            acc.push(cur)
        } else {
            acc
        }
    } else if is_ws(rest[0]) {
        words_acc(
            if cur.len() > 0 {
                acc.push(cur)
            } else {
                acc
            },
            Seq::empty(),
            rest.drop_first(),
        )
    } else {
        words_acc(acc, cur.push(rest[0]), rest.drop_first())
    }
}

pub open spec fn words(s: Seq<char>) -> Seq<Seq<char>> {
    words_acc(Seq::empty(), Seq::empty(), s)
}

/// The words joined with single spaces.
pub open spec fn join_words(ws: Seq<Seq<char>>) -> Seq<char>
    decreases ws.len(),
{
    if ws.len() == 0 {
        Seq::empty()
    } else if ws.len() == 1 {
        ws[0]
    } else {
        join_words(ws.drop_last()) + " "@ + ws.last()
    }
}

/// `split_whitespace`.
pub fn split_words(s: &[char]) -> (r: Vec<Vec<char>>)
    ensures
        r@.len() == words(s@).len(),
        forall|i: int| 0 <= i < r@.len() ==> #[trigger] r@[i]@ == words(s@)[i],
{
    let mut acc: Vec<Vec<char>> = Vec::new();
    let mut cur: Vec<char> = Vec::new();
    let mut i: usize = 0;
    assert(s@.skip(0) == s@);
    let ghost acc_v: Seq<Seq<char>> = Seq::empty();
    while i < s.len()
        invariant
            i <= s.len(),
            acc@.len() == acc_v.len(),
            forall|k: int| 0 <= k < acc@.len() ==> #[trigger] acc@[k]@ == acc_v[k],
            words(s@) == words_acc(acc_v, cur@, s@.skip(i as int)),
        decreases s.len() - i,
    {
        assert(s@.skip(i as int)[0] == s@[i as int]);
        assert(s@.skip(i as int).drop_first() == s@.skip(i + 1));
        if is_whitespace(s[i]) {
            if cur.len() > 0 {
                proof {
                    acc_v = acc_v.push(cur@);
                }
                acc.push(cur);
            }
            cur = Vec::new();
            assert(cur@ == Seq::<char>::empty());
        } else {
            cur.push(s[i]);
        }
        i += 1;
    }
    if cur.len() > 0 {
        proof {
            acc_v = acc_v.push(cur@);
        }
        acc.push(cur);
    }
    acc
}

// ── Unicode case and classes ───────────────────────────────────────────────

/// What `str::to_lowercase` makes of a text.
pub uninterp spec fn lowercase_text(s: Seq<char>) -> Seq<char>;

pub open spec fn all_ascii_chars(s: Seq<char>) -> bool {
    forall|i: int| 0 <= i < s.len() ==> (s[i] as u32) < 128
}

/// `str::to_lowercase` (full Unicode lower-casing). Its result is a function
/// of the text; on ASCII text it lower-cases the letters A-Z and keeps the
/// rest. What it does with other characters is not stated.
#[verifier::external_body]
pub(crate) fn to_lowercase(s: &str) -> (r: String)
    ensures
        r@ == lowercase_text(s@),
        all_ascii_chars(s@) ==> r@ == lower_seq(s@),
{
    s.to_lowercase()
}

/// What `char::is_alphanumeric` says of a character.
pub uninterp spec fn unicode_alnum(c: char) -> bool;

/// `char::is_alphanumeric` (Unicode letters and numbers). For ASCII it holds
/// of the letters and digits only; for other characters it is not stated.
#[verifier::external_body]
pub(crate) fn is_alphanumeric(c: char) -> (r: bool)
    ensures
        r == unicode_alnum(c),
        (c as u32) < 128 ==> (r <==> (('a' <= c && c <= 'z') || ('A' <= c && c <= 'Z') || ('0' <= c && c <= '9'))),
{
    c.is_alphanumeric()
}

// ── Decimal numbers ────────────────────────────────────────────────────────

pub open spec fn is_dec_digit(c: char) -> bool {
    '0' <= c && c <= '9'
}

pub open spec fn dec_value(d: Seq<char>) -> nat
    decreases d.len(),
{
    if d.len() == 0 {
        0
    } else {
        dec_value(d.drop_last()) * 10 + ((d.last() as nat) - 48) as nat
    }
}

pub open spec fn all_dec(d: Seq<char>) -> bool {
    forall|i: int| 0 <= i < d.len() ==> is_dec_digit(#[trigger] d[i])
}

/// `str::parse` of an unsigned integer type whose largest value is `max`:
/// an optional `+`, at least one decimal digit, the value at most `max`.
pub open spec fn spec_parse_unsigned(s: Seq<char>, max: nat) -> Option<nat> {
    let d = if s.len() > 0 && s[0] == '+' {
        s.drop_first()
    } else {
        s
    };
    if d.len() == 0 || !all_dec(d) || dec_value(d) > max {
        None
    } else {
        Some(dec_value(d))
    }
}

/// The digits of `d` as a number, capped at `cap` (so that it fits a machine word).
fn dec_capped(d: &[char], cap: u128) -> (r: Option<u128>)
    requires
        cap <= 0x1_0000_0000_0000_0000,
    ensures
        !all_dec(d@) ==> r is None,
        all_dec(d@) ==> (r matches Some(v) && v == if dec_value(d@) < cap { dec_value(d@) } else { cap as nat }),
{
    let mut acc: u128 = 0;
    let mut i: usize = 0;
    while i < d.len()
        invariant
            i <= d@.len(),
            cap <= 0x1_0000_0000_0000_0000,
            all_dec(d@.take(i as int)),
            acc == if dec_value(d@.take(i as int)) < cap { dec_value(d@.take(i as int)) } else { cap as nat },
        decreases d.len() - i,
    {
        let c = d[i];
        assert(d@.take(i + 1).drop_last() == d@.take(i as int));
        if !('0' <= c && c <= '9') {
            assert(!is_dec_digit(d@[i as int]));
            return None;
        }
        let ghost old_v = dec_value(d@.take(i as int));
        let digit = (c as u32 - 48) as u128;
        let next = acc * 10 + digit;
        if acc == cap {
            assert(old_v * 10 + digit >= cap) by (nonlinear_arith)
                requires
                    old_v >= cap,
        ;
        }
        acc = if next < cap {
            next
        } else {
            cap
        };
        assert(all_dec(d@.take(i + 1))) by {
            assert forall|j: int| 0 <= j < i + 1 implies is_dec_digit(#[trigger] d@.take(i + 1)[j]) by {
                if j < i {
                    assert(d@.take(i + 1)[j] == d@.take(i as int)[j]);
                }
            }
        }
        i += 1;
    }
    assert(d@.take(d@.len() as int) == d@);
    Some(acc)
}

/// Parses an unsigned decimal no larger than `max`.
pub fn parse_unsigned(s: &[char], max: u64) -> (r: Option<u64>)
    ensures
        r matches Some(v) ==> spec_parse_unsigned(s@, max as nat) == Some(v as nat),
        r is None ==> spec_parse_unsigned(s@, max as nat) is None,
{
    let plus = s.len() > 0 && s[0] == '+';
    let d = if plus {
        vstd::slice::slice_subrange(s, 1, s.len())
    } else {
        vstd::slice::slice_subrange(s, 0, s.len())
    };
    assert(d@ == if s@.len() > 0 && s@[0] == '+' { s@.drop_first() } else { s@ });
    if d.len() == 0 {
        return None;
    }
    let cap: u128 = (max as u128) + 1;
    match dec_capped(d, cap) {
        None => None,
        Some(v) => {
            if v > max as u128 {
                None
            } else {
                Some(v as u64)
            }
        },
    }
}

/// `str::parse::<i32>`: an optional sign, at least one digit, in range.
pub open spec fn spec_parse_i32(s: Seq<char>) -> Option<int> {
    if s.len() > 0 && s[0] == '-' {
        let d = s.drop_first();
        if d.len() == 0 || !all_dec(d) || dec_value(d) > 0x8000_0000 {
            None
        } else {
            Some(-(dec_value(d) as int))
        }
    } else {
        match spec_parse_unsigned(s, 0x7FFF_FFFF) {
            Some(v) => Some(v as int),
            None => None,
        }
    }
}

pub fn parse_i32_chars(s: &[char]) -> (r: Option<i32>)
    ensures
        r matches Some(v) ==> spec_parse_i32(s@) == Some(v as int),
        r is None ==> spec_parse_i32(s@) is None,
{
    if s.len() > 0 && s[0] == '-' {
        let d = vstd::slice::slice_subrange(s, 1, s.len());
        assert(d@ == s@.drop_first());
        if d.len() == 0 {
            return None;
        }
        match dec_capped(d, 0x8000_0001) {
            None => None,
            Some(v) => {
                if v > 0x8000_0000 {
                    None
                } else {
                    Some((0 - (v as i64)) as i32)
                }
            },
        }
    } else {
        match parse_unsigned(s, 0x7FFF_FFFF) {
            None => None,
            Some(v) => Some(v as i32),
        }
    }
}

} // verus!
