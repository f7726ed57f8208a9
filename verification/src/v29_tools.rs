//! Image identification: size and OS-string matches against the ECU
//! database, digests, and the family that a write or compare may use.
use vstd::prelude::*;
use sha2::Digest;
use crate::text::{contains, contains_chars, str_chars, str_to_string, upper_seq, upper_vec, eq_chars, string_push};
use crate::ecu_database::{
    EcuDbEntry, first_where, family_is, eq_ignore_case, get_ecu_by_family, get_ecu_by_os_id, os_id_is, same_entry, copy_entry,
    spec_write_path_live,
};
use crate::cs_guard::{looks_like_honda, looks_like_gm_p01, spec_looks_like_honda, spec_looks_like_gm_p01};

verus! {

// ── Digest ──────────────────────────────────────────────────────────────────

/// The SHA-256 digest of a byte string.
pub uninterp spec fn sha256_digest(data: Seq<u8>) -> Seq<u8>;

/// `sha2::Sha256` (`new`, `update`, `finalize`): the 32-byte digest of the
/// data, a function of the data alone.
#[verifier::external_body]
fn sha256(data: &[u8]) -> (r: Vec<u8>)
    ensures
        r@ == sha256_digest(data@),
        r@.len() == 32,
{
    let mut h = sha2::Sha256::new();
    h.update(data);
    h.finalize().to_vec()
}

pub open spec fn lower_digit(d: nat) -> char {
    if d < 10 {
        ((d + 48) as u8) as char
    } else {
        ((d + 87) as u8) as char
    }
}

/// Two lower-case hex digits per byte (`{:x}` of a digest).
pub open spec fn hex_lower(b: Seq<u8>) -> Seq<char>
    decreases b.len(),
{
    if b.len() == 0 {
        Seq::empty()
    } else {
        hex_lower(b.drop_last()) + seq![lower_digit((b.last() / 16) as nat), lower_digit((b.last() % 16) as nat)]
    }
}

fn lower_digit_exec(d: u8) -> (r: char)
    requires
        d < 16,
    ensures
        r == lower_digit(d as nat),
{
    if d < 10 {
        (d + 48) as char
    } else {
        (d + 87) as char
    }
}

fn hex_lower_exec(b: &[u8]) -> (r: String)
    ensures
        r@ == hex_lower(b@),
{
    let mut s = String::new();
    let mut i: usize = 0;
    proof {
        assert(b@.take(0) =~= Seq::<u8>::empty());
    }
    while i < b.len()
        invariant
            i <= b@.len(),
            s@ == hex_lower(b@.take(i as int)),
        decreases b.len() - i,
    {
        proof {
            assert(b@.take(i + 1).drop_last() =~= b@.take(i as int));
        }
        string_push(&mut s, lower_digit_exec(b[i] / 16));
        string_push(&mut s, lower_digit_exec(b[i] % 16));
        i += 1;
        assert(s@ =~= hex_lower(b@.take(i as int)));
    }
    proof {
        assert(b@.take(b@.len() as int) =~= b@);
    }
    s
}

/// Lower-case hex text of the SHA-256 digest.
pub fn sha256_hex(data: &[u8]) -> (r: String)
    ensures
        r@ == hex_lower(sha256_digest(data@)),
{
    let d = sha256(data);
    hex_lower_exec(d.as_slice())
}

// ── Comparing two images ───────────────────────────────────────────────────

/// Two images side by side: lengths, whether they are the same bytes, and
/// their SHA-256 digests in hex.
#[derive(Clone, Debug)]
pub struct BinCompare {
    pub len_a: usize,
    pub len_b: usize,
    pub identical: bool,
    pub sha256_a: String,
    pub sha256_b: String,
}

fn same_bytes(a: &[u8], b: &[u8]) -> (r: bool)
    ensures
        r == (a@ == b@),
{
    if a.len() != b.len() {
        return false;
    }
    let mut i: usize = 0;
    while i < a.len()
        invariant
            a.len() == b.len(),
            i <= a.len(),
            a@.take(i as int) == b@.take(i as int),
        decreases a.len() - i,
    {
        if a[i] != b[i] {
            assert(a@.take(i as int + 1)[i as int] != b@.take(i as int + 1)[i as int]);
            assert(a@[i as int] != b@[i as int]);
            return false;
        }
        assert(a@.take(i as int + 1) =~= a@.take(i as int).push(a@[i as int]));
        assert(b@.take(i as int + 1) =~= b@.take(i as int).push(b@[i as int]));
        i += 1;
    }
    assert(a@.take(a.len() as int) =~= a@);
    assert(b@.take(b.len() as int) =~= b@);
    true
}

/// Compares the working image with the compare image.
pub fn compare_bins(a: &[u8], b: &[u8]) -> (r: BinCompare)
    ensures
        r.len_a == a@.len(),
        r.len_b == b@.len(),
        r.identical == (a@ == b@),
        r.sha256_a@ == hex_lower(sha256_digest(a@)),
        r.sha256_b@ == hex_lower(sha256_digest(b@)),
{
    BinCompare {
        len_a: a.len(),
        len_b: b.len(),
        identical: same_bytes(a, b),
        sha256_a: sha256_hex(a),
        sha256_b: sha256_hex(b),
    }
}

// ── Printable strings ───────────────────────────────────────────────────────

pub open spec fn printable(b: u8) -> bool {
    0x20 <= b && b <= 0x7E
}

/// Runs of printable bytes read so far: the finished runs of at least
/// `min_len` characters, and the run being read.
pub open spec fn runs(data: Seq<u8>, min_len: nat) -> (Seq<Seq<char>>, Seq<char>)
    decreases data.len(),
{
    if data.len() == 0 {
        (Seq::empty(), Seq::empty())
    } else {
        let p = runs(data.drop_last(), min_len);
        let b = data.last();
        if printable(b) {
            (p.0, p.1.push(b as char))
        } else if p.1.len() >= min_len {
            (p.0.push(p.1), Seq::empty())
        } else {
            (p.0, Seq::empty())
        }
    }
}

/// The first `limit` maximal runs of printable ASCII of at least `min_len`
/// characters.
pub open spec fn spec_printable_strings(data: Seq<u8>, min_len: nat, limit: nat) -> Seq<Seq<char>> {
    let r = runs(data, min_len);
    let all = if r.1.len() >= min_len {
        r.0.push(r.1)
    } else {
        r.0
    };
    all.take(if limit < all.len() { limit as int } else { all.len() as int })
}

pub open spec fn strings_view(v: Seq<String>) -> Seq<Seq<char>> {
    Seq::new(v.len(), |i: int| v[i]@)
}

pub fn printable_strings(data: &[u8], min_len: usize, limit: usize) -> (r: Vec<String>)
    ensures
        strings_view(r@) == spec_printable_strings(data@, min_len as nat, limit as nat),
{
    let mut out: Vec<String> = Vec::new();
    let mut cur = String::new();
    let mut cur_n: usize = 0;
    let ghost mut all: Seq<Seq<char>> = Seq::empty();
    let mut i: usize = 0;
    proof {
        assert(data@.take(0) =~= Seq::<u8>::empty());
    }
    while i < data.len()
        invariant
            i <= data@.len(),
            cur_n == cur@.len(),
            cur_n <= i,
            runs(data@.take(i as int), min_len as nat) == (all, cur@),
            out@.len() == (if (limit as nat) < all.len() { limit as int } else { all.len() as int }),
            forall|k: int| 0 <= k < out@.len() ==> (#[trigger] out@[k])@ == all[k],
        decreases data.len() - i,
    {
        proof {
            assert(data@.take(i + 1).drop_last() =~= data@.take(i as int));
        }
        let b = data[i];
        if 0x20 <= b && b <= 0x7E {
            string_push(&mut cur, b as char);
            cur_n += 1;
        } else {
            if cur_n >= min_len {
                if out.len() < limit {
                    out.push(cur);
                }
                proof {
                    all = all.push(cur@);
                }
            }
            cur = String::new();
            cur_n = 0;
        }
        i += 1;
    }
    proof {
        assert(data@.take(data@.len() as int) =~= data@);
    }
    let ghost fin = if cur@.len() >= min_len {
        all.push(cur@)
    } else {
        all
    };
    if cur_n >= min_len {
        if out.len() < limit {
            out.push(cur);
        }
    }
    proof {
        assert(strings_view(out@) =~= fin.take(if (limit as nat) < fin.len() { limit as int } else { fin.len() as int }));
    }
    out
}

// ── OS id tokens ────────────────────────────────────────────────────────────

pub open spec fn is_ascii_alnum(c: char) -> bool {
    ('a' <= c && c <= 'z') || ('A' <= c && c <= 'Z') || ('0' <= c && c <= '9')
}

/// A token worth matching: 5 to 16 characters with a digit among them.
pub open spec fn token_ok(t: Seq<char>) -> bool {
    5 <= t.len() <= 16 && exists|k: int| 0 <= k < t.len() && '0' <= #[trigger] t[k] && t[k] <= '9'
}

/// The qualifying tokens (upper-cased) finished so far, and the current piece.
pub open spec fn tok_state(s: Seq<char>) -> (Seq<Seq<char>>, Seq<char>)
    decreases s.len(),
{
    if s.len() == 0 {
        (Seq::empty(), Seq::empty())
    } else {
        let p = tok_state(s.drop_last());
        let c = s.last();
        if is_ascii_alnum(c) {
            (p.0, p.1.push(c))
        } else if token_ok(p.1) {
            (p.0.push(upper_seq(p.1)), Seq::empty())
        } else {
            (p.0, Seq::empty())
        }
    }
}

/// The text cut at every character that is not an ASCII letter or digit;
/// the pieces of 5 to 16 characters that hold a digit, upper-cased.
pub open spec fn spec_os_id_tokens(s: Seq<char>) -> Seq<Seq<char>> {
    let st = tok_state(s);
    if token_ok(st.1) {
        st.0.push(upper_seq(st.1))
    } else {
        st.0
    }
}

fn has_digit(t: &Vec<char>) -> (r: bool)
    ensures
        r == exists|k: int| 0 <= k < t@.len() && '0' <= #[trigger] t@[k] && t@[k] <= '9',
{
    let mut k: usize = 0;
    while k < t.len()
        invariant
            k <= t@.len(),
            forall|q: int| 0 <= q < k ==> !('0' <= #[trigger] t@[q] && t@[q] <= '9'),
        decreases t.len() - k,
    {
        if '0' <= t[k] && t[k] <= '9' {
            return true;
        }
        k += 1;
    }
    false
}

fn token_ok_exec(t: &Vec<char>) -> (r: bool)
    ensures
        r == token_ok(t@),
{
    5 <= t.len() && t.len() <= 16 && has_digit(t)
}

fn os_id_tokens(raw: &str) -> (r: Vec<Vec<char>>)
    ensures
        r@.len() == spec_os_id_tokens(raw@).len(),
        forall|i: int| 0 <= i < r@.len() ==> (#[trigger] r@[i])@ == spec_os_id_tokens(raw@)[i],
{
    let cs = str_chars(raw);
    let mut out: Vec<Vec<char>> = Vec::new();
    let mut cur: Vec<char> = Vec::new();
    let ghost mut done: Seq<Seq<char>> = Seq::empty();
    let mut i: usize = 0;
    proof {
        assert(cs@.take(0) =~= Seq::<char>::empty());
    }
    while i < cs.len()
        invariant
            i <= cs@.len(),
            cs@ == raw@,
            tok_state(cs@.take(i as int)) == (done, cur@),
            out@.len() == done.len(),
            forall|k: int| 0 <= k < out@.len() ==> (#[trigger] out@[k])@ == done[k],
        decreases cs.len() - i,
    {
        proof {
            assert(cs@.take(i + 1).drop_last() =~= cs@.take(i as int));
        }
        let c = cs[i];
        if ('a' <= c && c <= 'z') || ('A' <= c && c <= 'Z') || ('0' <= c && c <= '9') {
            cur.push(c);
        } else {
            if token_ok_exec(&cur) {
                let up = upper_vec(cur.as_slice());
                out.push(up);
                proof {
                    done = done.push(upper_seq(cur@));
                }
            }
            cur = Vec::new();
        }
        i += 1;
    }
    proof {
        assert(cs@.take(cs@.len() as int) =~= cs@);
    }
    if token_ok_exec(&cur) {
        let up = upper_vec(cur.as_slice());
        out.push(up);
    }
    out
}

// ── OS id hits ──────────────────────────────────────────────────────────────

/// An OS id token of a catalog entry found in the image strings.
#[derive(Debug)]
pub struct OsIdHit {
    pub family: String,
    pub matched: String,
    pub display_name: String,
}

/// The entry that a lookup by the family name of entry `i` finds.
pub open spec fn canon(db: Seq<EcuDbEntry>, i: int) -> Option<nat> {
    first_where(db, family_is(db[i].ecu_family@), 0)
}

pub open spec fn any_contains(hay: Seq<Seq<char>>, tok: Seq<char>) -> bool {
    exists|h: int| 0 <= h < hay.len() && contains(#[trigger] hay[h], tok)
}

pub open spec fn hits_toks(toks: Seq<Seq<char>>, hay: Seq<Seq<char>>) -> Seq<Seq<char>>
    decreases toks.len(),
{
    if toks.len() == 0 {
        Seq::empty()
    } else {
        let p = hits_toks(toks.drop_last(), hay);
        if any_contains(hay, toks.last()) {
            p.push(toks.last())
        } else {
            p
        }
    }
}

pub open spec fn hits_raws(raws: Seq<Seq<char>>, hay: Seq<Seq<char>>) -> Seq<Seq<char>>
    decreases raws.len(),
{
    if raws.len() == 0 {
        Seq::empty()
    } else {
        hits_raws(raws.drop_last(), hay) + hits_toks(spec_os_id_tokens(raws.last()), hay)
    }
}

pub open spec fn tag(j: nat, s: Seq<Seq<char>>) -> Seq<(nat, Seq<char>)> {
    Seq::new(s.len(), |k: int| (j, s[k]))
}

/// For each catalog family in order (looked up by name), each token of its
/// part numbers and OS ids that some image string contains: the entry and
/// the token.
pub open spec fn hits_db(db: Seq<EcuDbEntry>, hay: Seq<Seq<char>>, n: nat) -> Seq<(nat, Seq<char>)>
    decreases n,
{
    if n == 0 {
        Seq::empty()
    } else {
        let p = hits_db(db, hay, (n - 1) as nat);
        match canon(db, n - 1) {
            Some(j) => p + tag(j, hits_raws(crate::ecu_database::strs(db[j as int].part_numbers_or_os_ids@), hay)),
            None => p,
        }
    }
}

pub open spec fn hit_is(h: OsIdHit, db: Seq<EcuDbEntry>, x: (nat, Seq<char>)) -> bool {
    h.family@ == db[x.0 as int].ecu_family@ && h.matched@ == x.1 && h.display_name@ == db[x.0 as int].display_name@
}

pub open spec fn upper_all(v: Seq<Seq<char>>) -> Seq<Seq<char>> {
    Seq::new(v.len(), |i: int| upper_seq(v[i]))
}

fn any_contains_exec(hay: &Vec<Vec<char>>, tok: &Vec<char>) -> (r: bool)
    ensures
        r == any_contains(crate::a2l::lines_view(hay@), tok@),
{
    let ghost hv = crate::a2l::lines_view(hay@);
    let mut h: usize = 0;
    while h < hay.len()
        invariant
            h <= hay@.len(),
            hv == crate::a2l::lines_view(hay@),
            forall|q: int| 0 <= q < h ==> !contains(#[trigger] hv[q], tok@),
        decreases hay.len() - h,
    {
        if contains_chars(hay[h].as_slice(), tok.as_slice()) {
            assert(contains(hv[h as int], tok@));
            return true;
        }
        h += 1;
    }
    false
}

fn match_os_ids(db: &[EcuDbEntry], strings: &Vec<String>) -> (r: Vec<OsIdHit>)
    ensures
        r@.len() == hits_db(db@, upper_all(strings_view(strings@)), db@.len() as nat).len(),
        forall|i: int|
            0 <= i < r@.len() ==> hit_is(
                #[trigger] r@[i],
                db@,
                hits_db(db@, upper_all(strings_view(strings@)), db@.len() as nat)[i],
            ),
{
    let mut hay: Vec<Vec<char>> = Vec::new();
    let mut s: usize = 0;
    while s < strings.len()
        invariant
            s <= strings@.len(),
            hay@.len() == s,
            forall|q: int| 0 <= q < s ==> (#[trigger] hay@[q])@ == upper_seq(strings@[q]@),
        decreases strings.len() - s,
    {
        hay.push(upper_vec(str_chars(strings[s].as_str()).as_slice()));
        s += 1;
    }
    let ghost hv = upper_all(strings_view(strings@));
    proof {
        assert(crate::a2l::lines_view(hay@) =~= hv);
    }
    let mut hits: Vec<OsIdHit> = Vec::new();
    let ghost mut acc: Seq<(nat, Seq<char>)> = Seq::empty();
    let mut i: usize = 0;
    while i < db.len()
        invariant
            i <= db@.len(),
            hv == crate::a2l::lines_view(hay@),
            acc == hits_db(db@, hv, i as nat),
            hits@.len() == acc.len(),
            forall|k: int| 0 <= k < hits@.len() ==> hit_is(#[trigger] hits@[k], db@, acc[k]),
        decreases db.len() - i,
    {
        match get_ecu_by_family(db, db[i].ecu_family.as_str()) {
            Some(e) => {
                let ghost j = canon(db@, i as int)->0;
                let ghost raws = crate::ecu_database::strs(db@[j as int].part_numbers_or_os_ids@);
                let ghost base = acc;
                let mut r: usize = 0;
                proof {
                    assert(raws.take(0) =~= Seq::<Seq<char>>::empty());
                    assert(base + tag(j, hits_raws(raws.take(0), hv)) =~= base);
                }
                while r < e.part_numbers_or_os_ids.len()
                    invariant
                        r <= e.part_numbers_or_os_ids@.len() == raws.len(),
                        same_entry(e, db@[j as int]),
                        hv == crate::a2l::lines_view(hay@),
                        raws == crate::ecu_database::strs(db@[j as int].part_numbers_or_os_ids@),
                        acc == base + tag(j, hits_raws(raws.take(r as int), hv)),
                        hits@.len() == acc.len(),
                        forall|k: int| 0 <= k < hits@.len() ==> hit_is(#[trigger] hits@[k], db@, acc[k]),
                    decreases e.part_numbers_or_os_ids.len() - r,
                {
                    assert(e.part_numbers_or_os_ids@[r as int]@ == raws[r as int]);
                    let toks = os_id_tokens(e.part_numbers_or_os_ids[r].as_str());
                    let ghost tv = spec_os_id_tokens(raws[r as int]);
                    let ghost mid = acc;
                    let mut t: usize = 0;
                    proof {
                        assert(tv.take(0) =~= Seq::<Seq<char>>::empty());
                        assert(mid + tag(j, hits_toks(tv.take(0), hv)) =~= mid);
                    }
                    while t < toks.len()
                        invariant
                            t <= toks@.len() == tv.len(),
                            forall|q: int| 0 <= q < toks@.len() ==> (#[trigger] toks@[q])@ == tv[q],
                            same_entry(e, db@[j as int]),
                            hv == crate::a2l::lines_view(hay@),
                            acc == mid + tag(j, hits_toks(tv.take(t as int), hv)),
                            hits@.len() == acc.len(),
                            forall|k: int| 0 <= k < hits@.len() ==> hit_is(#[trigger] hits@[k], db@, acc[k]),
                        decreases toks.len() - t,
                    {
                        proof {
                            assert(tv.take(t + 1).drop_last() =~= tv.take(t as int));
                        }
                        if any_contains_exec(&hay, &toks[t]) {
                            let h = OsIdHit {
                                family: str_to_string(e.ecu_family.as_str()),
                                matched: crate::text::chars_to_string(toks[t].as_slice()),
                                display_name: str_to_string(e.display_name.as_str()),
                            };
                            hits.push(h);
                            proof {
                                acc = acc.push((j, tv[t as int]));
                                assert(mid + tag(j, hits_toks(tv.take(t + 1), hv)) =~= acc);
                            }
                        } else {
                            proof {
                                assert(mid + tag(j, hits_toks(tv.take(t + 1), hv)) =~= acc);
                            }
                        }
                        t += 1;
                    }
                    proof {
                        assert(tv.take(tv.len() as int) =~= tv);
                        assert(raws.take(r + 1).drop_last() =~= raws.take(r as int));
                        assert(base + tag(j, hits_raws(raws.take(r + 1), hv)) =~= acc);
                    }
                    r += 1;
                }
                proof {
                    assert(raws.take(raws.len() as int) =~= raws);
                    assert(hits_db(db@, hv, (i + 1) as nat) =~= acc);
                }
            },
            None => {
                proof {
                    assert(hits_db(db@, hv, (i + 1) as nat) =~= acc);
                }
            },
        }
        i += 1;
    }
    hits
}

// ── Identification ──────────────────────────────────────────────────────────

/// What is known of an image: its size, the families it matches, digests
/// and strings, and whether correction and write are allowed. There is no
/// P59 OS-string detector, so `gm_p59_os` is always false.
#[derive(Debug)]
pub struct BinIdentity {
    pub bin_size_bytes: usize,
    pub family: Option<String>,
    pub family_by_os: Option<String>,
    pub family_by_size: Option<String>,
    pub families_same_size: Vec<String>,
    pub os_id_hits: Vec<OsIdHit>,
    pub display_name: Option<String>,
    pub sha256: String,
    pub sha256_head_4k: String,
    pub sha256_tail_4k: String,
    pub printable_strings: Vec<String>,
    pub honda_os: bool,
    pub gm_p01_os: bool,
    pub gm_p59_os: bool,
    pub size_collision: bool,
    pub correction_safe: bool,
    pub write_allowed: bool,
    pub notes: String,
}

/// The catalog entries (each family looked up by name) whose image size is `size`.
pub open spec fn size_matches(db: Seq<EcuDbEntry>, size: nat, n: nat) -> Seq<nat>
    decreases n,
{
    if n == 0 {
        Seq::empty()
    } else {
        let p = size_matches(db, size, (n - 1) as nat);
        match canon(db, n - 1) {
            Some(j) => if db[j as int].bin_size_bytes as nat == size {
                p.push(j)
            } else {
                p
            },
            None => p,
        }
    }
}

pub open spec fn id_strings(data: Seq<u8>) -> Seq<Seq<char>> {
    spec_printable_strings(data, 5, 64)
}

pub open spec fn id_hits(db: Seq<EcuDbEntry>, data: Seq<u8>) -> Seq<(nat, Seq<char>)> {
    hits_db(db, upper_all(id_strings(data)), db.len() as nat)
}

pub open spec fn id_sizes(db: Seq<EcuDbEntry>, data: Seq<u8>) -> Seq<nat> {
    size_matches(db, data.len(), db.len() as nat)
}

pub open spec fn family_by_os(db: Seq<EcuDbEntry>, data: Seq<u8>) -> Option<Seq<char>> {
    let h = id_hits(db, data);
    if h.len() > 0 {
        Some(db[h[0].0 as int].ecu_family@)
    } else {
        None
    }
}

pub open spec fn family_by_size(db: Seq<EcuDbEntry>, data: Seq<u8>) -> Option<Seq<char>> {
    let m = id_sizes(db, data);
    if m.len() > 0 {
        Some(db[m[0] as int].ecu_family@)
    } else {
        None
    }
}

/// Honda OS strings (without a GM P01 one) make the image Honda; then an OS
/// id match decides; a size shared by several families decides nothing;
/// else the one family of that size.
pub open spec fn spec_family(db: Seq<EcuDbEntry>, data: Seq<u8>) -> Option<Seq<char>> {
    if spec_looks_like_honda(data) && !spec_looks_like_gm_p01(data) {
        Some("HONDA_KEIHIN"@)
    } else if family_by_os(db, data) is Some {
        family_by_os(db, data)
    } else if id_sizes(db, data).len() > 1 {
        None
    } else {
        family_by_size(db, data)
    }
}

/// Only families with a measured corrector and a live write path.
pub open spec fn spec_correction_safe(db: Seq<EcuDbEntry>, data: Seq<u8>) -> bool {
    ||| (spec_family(db, data) == Some("P01_0411"@) && !spec_looks_like_honda(data))
    ||| (spec_family(db, data) == Some("EDC16C41"@) && data.len() == 0x200000)
}

pub open spec fn spec_notes(db: Seq<EcuDbEntry>, data: Seq<u8>) -> Seq<char> {
    if spec_looks_like_honda(data) && !spec_looks_like_gm_p01(data) {
        "Honda OS string. P01 additive correction is blocked."@
    } else if family_by_os(db, data) is Some {
        "OS/part string matched the ECU catalog. Confirm the dump is yours before write."@
    } else if id_sizes(db, data).len() > 1 {
        "Size collides across catalog families. Confirm OS string before any corrector."@
    } else if family_by_size(db, data) is Some {
        "Size matched one family. Confirm OS ID against strings."@
    } else {
        "Unknown size — add JSON in reference/ecu_database/."@
    }
}

pub open spec fn spec_display(db: Seq<EcuDbEntry>, data: Seq<u8>) -> Option<Seq<char>> {
    match spec_family(db, data) {
        Some(f) => match first_where(db, family_is(f), 0) {
            Some(j) => Some(db[j as int].display_name@),
            None => None,
        },
        None => None,
    }
}

pub open spec fn min4k(n: nat) -> nat {
    if n < 4096 {
        n
    } else {
        4096
    }
}

pub open spec fn opt_view(o: Option<String>) -> Option<Seq<char>> {
    match o {
        Some(s) => Some(s@),
        None => None,
    }
}

/// The identification of an image against the catalog.
pub open spec fn identity_ok(db: Seq<EcuDbEntry>, data: Seq<u8>, r: BinIdentity) -> bool {
    let strings = id_strings(data);
    let hits = id_hits(db, data);
    let sizes = id_sizes(db, data);
    &&& r.bin_size_bytes == data.len()
    &&& opt_view(r.family) == spec_family(db, data)
    &&& opt_view(r.family_by_os) == family_by_os(db, data)
    &&& opt_view(r.family_by_size) == family_by_size(db, data)
    &&& r.families_same_size@.len() == sizes.len()
    &&& (forall|i: int| 0 <= i < sizes.len() ==> (#[trigger] r.families_same_size@[i])@ == db[sizes[i] as int].ecu_family@)
    &&& r.os_id_hits@.len() == hits.len()
    &&& (forall|i: int| 0 <= i < hits.len() ==> hit_is(#[trigger] r.os_id_hits@[i], db, hits[i]))
    &&& opt_view(r.display_name) == spec_display(db, data)
    &&& r.sha256@ == hex_lower(sha256_digest(data))
    &&& r.sha256_head_4k@ == hex_lower(sha256_digest(data.take(min4k(data.len()) as int)))
    &&& r.sha256_tail_4k@ == hex_lower(sha256_digest(data.skip(data.len() - min4k(data.len()))))
    &&& strings_view(r.printable_strings@) == strings.take(if strings.len() < 24 { strings.len() as int } else { 24 })
    &&& r.honda_os == spec_looks_like_honda(data)
    &&& r.gm_p01_os == spec_looks_like_gm_p01(data)
    &&& !r.gm_p59_os
    &&& r.size_collision == (sizes.len() > 1)
    &&& r.correction_safe == spec_correction_safe(db, data)
    &&& r.write_allowed == spec_correction_safe(db, data)
    &&& r.notes@ == spec_notes(db, data)
}

fn opt_copy(o: &Option<String>) -> (r: Option<String>)
    ensures
        opt_view(r) == opt_view(*o),
{
    match o {
        Some(s) => Some(str_to_string(s.as_str())),
        None => None,
    }
}

fn family_of(db: &[EcuDbEntry], j: usize) -> (r: String)
    requires
        j < db@.len(),
    ensures
        r@ == db@[j as int].ecu_family@,
{
    str_to_string(db[j].ecu_family.as_str())
}

/// Identifies an image against the catalog entries. No P59 OS detector
/// exists here, so `gm_p59_os` is false for every image: a P59 image is kept
/// from the write path by its family (a `P59` family is refused by
/// `resolved_family`), not by this flag.
pub fn identify_bin(db: &[EcuDbEntry], data: &[u8]) -> (r: BinIdentity)
    ensures
        identity_ok(db@, data@, r),
{
    let size = data.len();
    let ghost dv = data@;
    // Entries of this size, each family looked up by name.
    let mut sizes: Vec<usize> = Vec::new();
    let mut same: Vec<String> = Vec::new();
    let mut i: usize = 0;
    while i < db.len()
        invariant
            i <= db@.len(),
            size == dv.len(),
            sizes@.len() == size_matches(db@, size as nat, i as nat).len(),
            forall|k: int| 0 <= k < sizes@.len() ==> (#[trigger] sizes@[k]) as nat == size_matches(db@, size as nat, i as nat)[k],
            forall|k: int| 0 <= k < sizes@.len() ==> (#[trigger] sizes@[k]) < db@.len(),
            same@.len() == sizes@.len(),
            forall|k: int| 0 <= k < same@.len() ==> (#[trigger] same@[k])@ == db@[sizes@[k] as int].ecu_family@,
        decreases db.len() - i,
    {
        match canon_exec(db, i) {
            Some(j) => {
                if db[j].bin_size_bytes as usize == size {
                    sizes.push(j);
                    same.push(family_of(db, j));
                }
            },
            None => {},
        }
        i += 1;
    }
    let strings = printable_strings(data, 5, 64);
    let hits = match_os_ids(db, &strings);
    let honda_os = looks_like_honda(data);
    let gm_p01_os = looks_like_gm_p01(data);
    let gm_p59_os = false;
    let size_collision = sizes.len() > 1;
    let family_by_os: Option<String> = if hits.len() > 0 {
        Some(str_to_string(hits[0].family.as_str()))
    } else {
        None
    };
    let family_by_size: Option<String> = if sizes.len() > 0 {
        Some(family_of(db, sizes[0]))
    } else {
        None
    };
    let family: Option<String> = if honda_os && !gm_p01_os {
        Some(str_to_string("HONDA_KEIHIN"))
    } else if family_by_os.is_some() {
        opt_copy(&family_by_os)
    } else if size_collision {
        None
    } else {
        opt_copy(&family_by_size)
    };
    let correction_safe = match &family {
        Some(f) => (eq_str(f.as_str(), "P01_0411") && !honda_os && !gm_p59_os) || (eq_str(f.as_str(), "EDC16C41")
            && size == crate::sizes::EDC16_FLASH_SIZE),
        None => false,
    };
    let write_allowed = match &family {
        Some(f) => (eq_str(f.as_str(), "P01_0411") || eq_str(f.as_str(), "EDC16C41")) && correction_safe,
        None => false,
    };
    let display_name: Option<String> = match &family {
        Some(f) => match get_ecu_by_family(db, f.as_str()) {
            Some(e) => Some(str_to_string(e.display_name.as_str())),
            None => None,
        },
        None => None,
    };
    let head_n = if size < 4096 {
        size
    } else {
        4096
    };
    let notes = if honda_os && !gm_p01_os {
        str_to_string("Honda OS string. P01 additive correction is blocked.")
    } else if gm_p59_os && !gm_p01_os {
        str_to_string("P59 OS string. P01 additive and write stay blocked until measured P59 CS words exist.")
    } else if family_by_os.is_some() {
        str_to_string("OS/part string matched the ECU catalog. Confirm the dump is yours before write.")
    } else if size_collision {
        str_to_string("Size collides across catalog families. Confirm OS string before any corrector.")
    } else if family_by_size.is_some() {
        str_to_string("Size matched one family. Confirm OS ID against strings.")
    } else {
        str_to_string("Unknown size — add JSON in reference/ecu_database/.")
    };
    let mut shown: Vec<String> = Vec::new();
    let mut k: usize = 0;
    while k < strings.len() && k < 24
        invariant
            k <= strings@.len(),
            k <= 24,
            shown@.len() == k,
            forall|q: int| 0 <= q < k ==> (#[trigger] shown@[q])@ == strings@[q]@,
        decreases strings.len() - k,
    {
        shown.push(str_to_string(strings[k].as_str()));
        k += 1;
    }
    let sha_all = sha256_hex(data);
    let sha_head = sha256_hex(vstd::slice::slice_subrange(data, 0, head_n));
    let sha_tail = sha256_hex(vstd::slice::slice_subrange(data, size - head_n, size));
    proof {
        assert(data@.subrange(0, head_n as int) =~= data@.take(head_n as int));
        assert(data@.subrange(size - head_n, size as int) =~= data@.skip(size - head_n));
        assert(size_matches(db@, size as nat, db@.len() as nat) == id_sizes(db@, data@));
        assert(strings_view(shown@) =~= id_strings(data@).take(if id_strings(data@).len() < 24 { id_strings(data@).len() as int } else { 24 }));
    }
    BinIdentity {
        bin_size_bytes: size,
        family,
        family_by_os,
        family_by_size,
        families_same_size: same,
        os_id_hits: hits,
        display_name,
        sha256: sha_all,
        sha256_head_4k: sha_head,
        sha256_tail_4k: sha_tail,
        printable_strings: shown,
        honda_os,
        gm_p01_os,
        gm_p59_os,
        size_collision,
        correction_safe,
        write_allowed,
        notes,
    }
}

fn canon_exec(db: &[EcuDbEntry], i: usize) -> (r: Option<usize>)
    requires
        i < db@.len(),
    ensures
        r matches Some(j) ==> j < db@.len() && canon(db@, i as int) == Some(j as nat),
        r is None ==> canon(db@, i as int) is None,
{
    let ghost p = family_is(db@[i as int].ecu_family@);
    let mut j: usize = 0;
    while j < db.len()
        invariant
            j <= db@.len(),
            i < db@.len(),
            p == family_is(db@[i as int].ecu_family@),
            first_where(db@, p, 0) == first_where(db@, p, j as nat),
        decreases db.len() - j,
    {
        if crate::ecu_database::eq_ignore_ascii_case(db[j].ecu_family.as_str(), db[i].ecu_family.as_str()) {
            return Some(j);
        }
        j += 1;
    }
    None
}

fn eq_str(a: &str, b: &str) -> (r: bool)
    ensures
        r == (a@ == b@),
{
    let x = str_chars(a);
    let y = str_chars(b);
    eq_chars(x.as_slice(), y.as_slice())
}

/// The family a write or compare may use, failing closed: Honda images,
/// GM P59 families and unresolved images are refused, the last with the
/// identification note.
pub open spec fn spec_resolved_family(db: Seq<EcuDbEntry>, data: Seq<u8>) -> Result<Seq<char>, Seq<char>> {
    if spec_looks_like_honda(data) && !spec_looks_like_gm_p01(data) {
        Err("Honda OS string. Write/compare refused."@)
    } else {
        match spec_family(db, data) {
            Some(f) => if f.len() == 0 {
                Err(spec_notes(db, data))
            } else if eq_ignore_case(f, "GM_P59"@) || contains(upper_seq(f), "P59"@) {
                Err("GM_P59 write/compare refused. No measured checksum words or kernel."@)
            } else {
                Ok(f)
            },
            None => Err(spec_notes(db, data)),
        }
    }
}

pub fn resolved_family(db: &[EcuDbEntry], data: &[u8]) -> (r: Result<String, String>)
    ensures
        match r {
            Ok(f) => spec_resolved_family(db@, data@) == Ok::<Seq<char>, Seq<char>>(f@),
            Err(e) => spec_resolved_family(db@, data@) == Err::<Seq<char>, Seq<char>>(e@),
        },
{
    let v = identify_bin(db, data);
    if v.honda_os && !v.gm_p01_os {
        return Err(str_to_string("Honda OS string. Write/compare refused."));
    }
    if v.gm_p59_os && !v.gm_p01_os {
        return Err(str_to_string("P59 OS string. Write/compare refused until measured P59 CS words and kernel exist."));
    }
    match v.family {
        Some(f) => {
            let fc = str_chars(f.as_str());
            if fc.len() > 0 {
                let up = upper_vec(fc.as_slice());
                let p59 = str_chars("P59");
                if crate::ecu_database::eq_ignore_ascii_case(f.as_str(), "GM_P59") || contains_chars(
                    up.as_slice(),
                    p59.as_slice(),
                ) {
                    return Err(str_to_string("GM_P59 write/compare refused. No measured checksum words or kernel."));
                }
                return Ok(f);
            }
            Err(v.notes)
        },
        None => Err(v.notes),
    }
}

/// Law: an image is offered for writing only when it identifies as a family
/// with a live write path (P01_0411 or EDC16C41), so the identify flag and
/// the catalog's write column agree.
pub proof fn law_write_allowed_only_live_families(db: Seq<EcuDbEntry>, data: Seq<u8>)
    ensures
        spec_correction_safe(db, data) ==> (spec_family(db, data) matches Some(f) && spec_write_path_live(f)),
{
}

/// Law: an image with a Honda OS string and no GM P01 one is never offered
/// for writing, and one with a Honda OS string is never written as P01.
pub proof fn law_honda_image_never_written(db: Seq<EcuDbEntry>, data: Seq<u8>)
    requires
        spec_looks_like_honda(data),
    ensures
        !spec_looks_like_gm_p01(data) ==> !spec_correction_safe(db, data),
        !(spec_correction_safe(db, data) && spec_family(db, data) == Some("P01_0411"@)),
{
    reveal_strlit("HONDA_KEIHIN");
    reveal_strlit("P01_0411");
    reveal_strlit("EDC16C41");
    assert("HONDA_KEIHIN"@.len() != "P01_0411"@.len());
    assert("HONDA_KEIHIN"@.len() != "EDC16C41"@.len());
    assert("P01_0411"@[0] != "EDC16C41"@[0]);
}

/// Law: the family a write resolves to is the identified family, never a P59
/// one, and a Honda-only image resolves to no family.
pub proof fn law_resolved_family_fail_closed(db: Seq<EcuDbEntry>, data: Seq<u8>)
    ensures
        spec_looks_like_honda(data) && !spec_looks_like_gm_p01(data) ==> spec_resolved_family(db, data) is Err,
        spec_resolved_family(db, data) matches Ok(f) ==> {
            &&& spec_family(db, data) == Some(f)
            &&& f.len() > 0
            &&& !contains(upper_seq(f), "P59"@)
        },
{
}

/// The family of an image, or else the one the session last resolved, or
/// else the catalog family of the last OS id read from the controller.
pub open spec fn spec_family_from_bin_or_state(
    db: Seq<EcuDbEntry>,
    data: Seq<u8>,
    last_family: Option<Seq<char>>,
    last_os_id: Option<Seq<char>>,
) -> Result<Seq<char>, Seq<char>> {
    match spec_resolved_family(db, data) {
        Ok(f) => Ok(f),
        Err(e) => match last_family {
            Some(f) => Ok(f),
            None => {
                let by_os = match last_os_id {
                    Some(os) => first_where(db, os_id_is(os), 0),
                    None => None,
                };
                match by_os {
                    Some(j) => Ok(db[j as int].ecu_family@),
                    None => Err("Family unresolved: "@ + e),
                }
            },
        },
    }
}

pub fn family_from_bin_or_state(
    db: &[EcuDbEntry],
    data: &[u8],
    last_family: Option<&str>,
    last_os_id: Option<&str>,
) -> (r: Result<String, String>)
    ensures
        match r {
            Ok(f) => spec_family_from_bin_or_state(db@, data@, opt_str_view(last_family), opt_str_view(last_os_id))
                == Ok::<Seq<char>, Seq<char>>(f@),
            Err(e) => spec_family_from_bin_or_state(db@, data@, opt_str_view(last_family), opt_str_view(last_os_id))
                == Err::<Seq<char>, Seq<char>>(e@),
        },
{
    match resolved_family(db, data) {
        Ok(f) => Ok(f),
        Err(ident_err) => {
            if let Some(f) = last_family {
                return Ok(str_to_string(f));
            }
            if let Some(os) = last_os_id {
                if let Some(e) = get_ecu_by_os_id(db, os) {
                    return Ok(e.ecu_family);
                }
            }
            let mut m = str_to_string("Family unresolved: ");
            crate::text::push_str(&mut m, ident_err.as_str());
            Err(m)
        },
    }
}

pub open spec fn opt_str_view(o: Option<&str>) -> Option<Seq<char>> {
    match o {
        Some(s) => Some(s@),
        None => None,
    }
}

} // verus!
