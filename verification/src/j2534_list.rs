//! J2534 pass-through device listing: the reading of `reg query` output for
//! PassThruSupport keys into `name | vendor | library` rows.
use vstd::prelude::*;
use crate::text::{
    words, join_words, split_words,
    is_ws, is_whitespace, str_chars, trim_chars, trim_ws, upper_seq, upper_vec, starts_with,
    starts_with_chars, eq_chars, chars_to_string, push_chars, push_str, str_to_string,
};

verus! {

/// Rows so far and the fields of the key being read.
pub struct RegState {
    pub rows: Seq<Seq<char>>,
    pub name: Option<Seq<char>>,
    pub vendor: Option<Seq<char>>,
    pub lib: Option<Seq<char>>,
}

pub open spec fn or_default(o: Option<Seq<char>>, d: Seq<char>) -> Seq<char> {
    match o {
        Some(v) => v,
        None => d,
    }
}

/// Ends a key: a row is written when a name or a library was seen.
pub open spec fn flush(st: RegState) -> RegState {
    if st.name is Some || st.lib is Some {
        RegState {
            rows: st.rows.push(
                or_default(st.name, "J2534 device"@) + " | "@ + or_default(st.vendor, "?"@) + " | "@
                    + or_default(st.lib, "dll path unknown"@),
            ),
            name: None,
            vendor: None,
            lib: None,
        }
    } else {
        st
    }
}

pub open spec fn reg_line(st: RegState, raw: Seq<char>) -> RegState {
    let line = trim_ws(raw);
    if line.len() == 0 {
        st
    } else if starts_with(line, "HKEY_"@) {
        flush(st)
    } else {
        let parts = words(line);
        if parts.len() >= 3 {
            let key = upper_seq(parts[0]);
            let val = join_words(parts.skip(2));
            if key == "NAME"@ {
                RegState { name: Some(val), ..st }
            } else if key == "VENDOR"@ {
                RegState { vendor: Some(val), ..st }
            } else if key == "FUNCTIONLIBRARY"@ || key == "FUNCTION_LIBRARY"@ {
                RegState { lib: Some(val), ..st }
            } else {
                st
            }
        } else {
            st
        }
    }
}

pub open spec fn reg_lines(st: RegState, cur: Seq<char>, rest: Seq<char>) -> RegState
    decreases rest.len(),
{
    if rest.len() == 0 {
        reg_line(st, cur)
    } else if rest[0] == '\n' {
        reg_lines(reg_line(st, cur), Seq::empty(), rest.drop_first())
    } else {
        reg_lines(st, cur.push(rest[0]), rest.drop_first())
    }
}

/// The device rows of a `reg query /s` listing.
pub open spec fn spec_parse_reg_query(s: Seq<char>) -> Seq<Seq<char>> {
    flush(reg_lines(RegState { rows: Seq::empty(), name: None, vendor: None, lib: None }, Seq::empty(), s)).rows
}

fn join_from(parts: &Vec<Vec<char>>, start: usize) -> (r: String)
    requires
        start <= parts@.len(),
    ensures
        r@ == join_words(Seq::new((parts@.len() - start) as nat, |k: int| parts@[start + k]@)),
{
    let mut s = String::new();
    let mut j: usize = start;
    while j < parts.len()
        invariant
            start <= j <= parts@.len(),
            s@ == join_words(Seq::new((j - start) as nat, |k: int| parts@[start + k]@)),
        decreases parts.len() - j,
    {
        let ghost prev = Seq::new((j - start) as nat, |k: int| parts@[start + k]@);
        let ghost next = Seq::new((j + 1 - start) as nat, |k: int| parts@[start + k]@);
        assert(next.drop_last() == prev);
        assert(next.last() == parts@[j as int]@);
        if j > start {
            push_str(&mut s, " ");
        } else {
            assert(prev.len() == 0);
        }
        push_chars(&mut s, parts[j].as_slice());
        j += 1;
    }
    s
}

/// The fields of the key being read, and the rows so far.
struct RegFields {
    rows: Vec<String>,
    name: Option<String>,
    vendor: Option<String>,
    lib: Option<String>,
}

spec fn opt_view(o: Option<String>) -> Option<Seq<char>> {
    match o {
        Some(s) => Some(s@),
        None => None,
    }
}

spec fn fields_view(f: RegFields) -> RegState {
    RegState {
        rows: Seq::new(f.rows@.len(), |i: int| f.rows@[i]@),
        name: opt_view(f.name),
        vendor: opt_view(f.vendor),
        lib: opt_view(f.lib),
    }
}

fn take_or(o: &Option<String>, d: &str) -> (r: String)
    ensures
        r@ == or_default(opt_view(*o), d@),
{
    match o {
        Some(s) => str_to_string(s.as_str()),
        None => str_to_string(d),
    }
}

fn flush_fields(f: &mut RegFields)
    ensures
        fields_view(*final(f)) == flush(fields_view(*old(f))),
{
    if f.name.is_some() || f.lib.is_some() {
        let mut row = take_or(&f.name, "J2534 device");
        push_str(&mut row, " | ");
        let v = take_or(&f.vendor, "?");
        push_str(&mut row, v.as_str());
        push_str(&mut row, " | ");
        let l = take_or(&f.lib, "dll path unknown");
        push_str(&mut row, l.as_str());
        let ghost old_rows = fields_view(*f).rows;
        f.rows.push(row);
        f.name = None;
        f.vendor = None;
        f.lib = None;
        assert(fields_view(*f).rows =~= old_rows.push(row@));
    }
}

fn is_lit(s: &[char], lit: &str) -> (r: bool)
    ensures
        r == (s@ == lit@),
{
    let l = str_chars(lit);
    eq_chars(s, l.as_slice())
}

fn reg_line_exec(f: &mut RegFields, raw: &[char])
    ensures
        fields_view(*final(f)) == reg_line(fields_view(*old(f)), raw@),
{
    let line = trim_chars(raw);
    if line.len() == 0 {
        return;
    }
    let hkey = str_chars("HKEY_");
    if starts_with_chars(line.as_slice(), hkey.as_slice()) {
        flush_fields(f);
        return;
    }
    let parts = split_words(line.as_slice());
    if parts.len() >= 3 {
        let key = upper_vec(parts[0].as_slice());
        let val = join_from(&parts, 2);
        proof {
            let w = words(line@);
            assert(Seq::new((parts@.len() - 2) as nat, |k: int| parts@[2 + k]@) =~= w.skip(2));
            assert(parts@[0]@ == w[0]);
        }
        let ks = key.as_slice();
        if is_lit(ks, "NAME") {
            f.name = Some(val);
        } else if is_lit(ks, "VENDOR") {
            f.vendor = Some(val);
        } else if is_lit(ks, "FUNCTIONLIBRARY") || is_lit(ks, "FUNCTION_LIBRARY") {
            f.lib = Some(val);
        }
    }
}

/// Rows `name | vendor | library` of a `reg query /s` listing of the
/// PassThruSupport keys; missing fields read `J2534 device`, `?` and
/// `dll path unknown`.
pub fn parse_reg_query(stdout: &str) -> (r: Vec<String>)
    ensures
        r@.len() == spec_parse_reg_query(stdout@).len(),
        forall|i: int| 0 <= i < r@.len() ==> #[trigger] r@[i]@ == spec_parse_reg_query(stdout@)[i],
{
    let chars = str_chars(stdout);
    let mut f = RegFields { rows: Vec::new(), name: None, vendor: None, lib: None };
    let mut cur: Vec<char> = Vec::new();
    let mut i: usize = 0;
    assert(chars@.skip(0) == chars@);
    assert(fields_view(f).rows =~= Seq::<Seq<char>>::empty());
    assert(fields_view(f) == RegState { rows: Seq::empty(), name: None, vendor: None, lib: None });
    while i < chars.len()
        invariant
            i <= chars@.len(),
            chars@ == stdout@,
            reg_lines(RegState { rows: Seq::empty(), name: None, vendor: None, lib: None }, Seq::empty(), stdout@)
                == reg_lines(fields_view(f), cur@, chars@.skip(i as int)),
        decreases chars.len() - i,
    {
        assert(chars@.skip(i as int)[0] == chars@[i as int]);
        assert(chars@.skip(i as int).drop_first() == chars@.skip(i + 1));
        if chars[i] == '\n' {
            reg_line_exec(&mut f, cur.as_slice());
            cur = Vec::new();
            assert(cur@ == Seq::<char>::empty());
        } else {
            cur.push(chars[i]);
        }
        i += 1;
    }
    reg_line_exec(&mut f, cur.as_slice());
    flush_fields(&mut f);
    f.rows
}

// ── Device list ─────────────────────────────────────────────────────────────

/// The registry keys under which J2534 drivers register.
pub fn passthru_registry_roots() -> (r: [&'static str; 4])
    ensures
        r[0]@ == "HKLM\\SOFTWARE\\PassThruSupport.04.04"@,
        r[1]@ == "HKLM\\SOFTWARE\\WOW6432Node\\PassThruSupport.04.04"@,
        r[2]@ == "HKLM\\SOFTWARE\\PassThruSupport.04.00"@,
        r[3]@ == "HKLM\\SOFTWARE\\WOW6432Node\\PassThruSupport.04.00"@,
{
    [
        "HKLM\\SOFTWARE\\PassThruSupport.04.04",
        "HKLM\\SOFTWARE\\WOW6432Node\\PassThruSupport.04.04",
        "HKLM\\SOFTWARE\\PassThruSupport.04.00",
        "HKLM\\SOFTWARE\\WOW6432Node\\PassThruSupport.04.00",
    ]
}

pub open spec fn rows_view(v: Seq<String>) -> Seq<Seq<char>> {
    Seq::new(v.len(), |i: int| v[i]@)
}

/// `found` with each of `rows` added unless an equal row is already there.
pub open spec fn merge_rows(found: Seq<Seq<char>>, rows: Seq<Seq<char>>) -> Seq<Seq<char>>
    decreases rows.len(),
{
    if rows.len() == 0 {
        found
    } else {
        let f = merge_rows(found, rows.drop_last());
        if f.contains(rows.last()) {
            f
        } else {
            f.push(rows.last())
        }
    }
}

fn contains_row(found: &Vec<String>, row: &String) -> (r: bool)
    ensures
        r == rows_view(found@).contains(row@),
{
    let rc = str_chars(row.as_str());
    let mut i: usize = 0;
    while i < found.len()
        invariant
            i <= found@.len(),
            rc@ == row@,
            forall|k: int| 0 <= k < i ==> found@[k]@ != row@,
        decreases found.len() - i,
    {
        let fc = str_chars(found[i].as_str());
        if eq_chars(fc.as_slice(), rc.as_slice()) {
            assert(rows_view(found@)[i as int] == row@);
            return true;
        }
        i += 1;
    }
    assert forall|k: int| 0 <= k < rows_view(found@).len() implies rows_view(found@)[k] != row@ by {
        assert(rows_view(found@)[k] == found@[k]@);
    }
    false
}

/// Adds the rows of one registry key that are not listed yet.
pub fn merge_registry_rows(found: &mut Vec<String>, rows: Vec<String>)
    ensures
        rows_view(final(found)@) == merge_rows(rows_view(old(found)@), rows_view(rows@)),
{
    let ghost f0 = rows_view(found@);
    let mut i: usize = 0;
    while i < rows.len()
        invariant
            i <= rows@.len(),
            rows_view(found@) == merge_rows(f0, rows_view(rows@).take(i as int)),
        decreases rows.len() - i,
    {
        let row = str_to_string(rows[i].as_str());
        proof {
            assert(rows_view(rows@).take(i + 1).drop_last() == rows_view(rows@).take(i as int));
            assert(rows_view(rows@).take(i + 1).last() == rows@[i as int]@);
        }
        if !contains_row(found, &row) {
            let ghost before = found@;
            found.push(row);
            proof {
                assert(rows_view(found@) == rows_view(before).push(row@));
            }
        }
        i += 1;
    }
    proof {
        assert(rows_view(rows@).take(rows@.len() as int) == rows_view(rows@));
    }
}

/// The device list: the rows found, or a hint when no driver is registered.
pub fn registry_device_list(found: Vec<String>) -> (r: Vec<String>)
    ensures
        found@.len() > 0 ==> r@ == found@,
        found@.len() == 0 ==> r@.len() == 1 && r@[0]@
            == "No PassThruSupport registry keys. Install a vendor J2534 driver, then pick the .dll path."@,
{
    if found.len() == 0 {
        vec![str_to_string("No PassThruSupport registry keys. Install a vendor J2534 driver, then pick the .dll path.")]
    } else {
        found
    }
}

} // verus!
