//! File dialogs: the filters offered for each kind of file and the shape of
//! the result. Showing the dialog and reading or writing the file happen
//! outside the library.
use vstd::prelude::*;
use crate::text::{str_chars, str_to_string, lower_seq, lower_vec, utf8_lossy, utf8_lossy_text, eq_chars, starts_with, occurs_at, matches_at};

verus! {

/// What a dialog gave back: cancelled, or a path with the file's bytes (for
/// images) or text (for everything else).
#[derive(Debug)]
pub struct OpenFileResult {
    pub cancelled: bool,
    pub path: Option<String>,
    pub bytes: Option<Vec<u8>>,
    pub text: Option<String>,
}

/// The result of a dialog that was closed without a choice.
pub fn cancelled() -> (r: OpenFileResult)
    ensures
        r.cancelled && r.path is None && r.bytes is None && r.text is None,
{
    OpenFileResult { cancelled: true, path: None, bytes: None, text: None }
}

/// The kinds of file a dialog can open.
pub open spec fn spec_open_kind(kind: Seq<char>) -> nat {
    let k = lower_seq(kind);
    if k == "bin"@ {
        0
    } else if k == "csv"@ {
        1
    } else if k == "json"@ {
        2
    } else if k == "xdf"@ {
        3
    } else if k == "a2l"@ {
        4
    } else {
        5
    }
}

fn is_word(k: &Vec<char>, w: &str) -> (r: bool)
    ensures
        r == (k@ == w@),
{
    let wv = str_chars(w);
    eq_chars(k.as_slice(), wv.as_slice())
}

/// A filter: its label and extensions.
pub type Filter = (String, Vec<String>);

pub open spec fn filter_is(f: Filter, label: Seq<char>, exts: Seq<Seq<char>>) -> bool {
    f.0@ == label && f.1@.len() == exts.len() && forall|i: int| 0 <= i < exts.len() ==> (#[trigger] f.1@[i])@ == exts[i]
}

fn filter(label: &str, exts: Vec<&str>) -> (r: Filter)
    ensures
        r.0@ == label@,
        r.1@.len() == exts@.len(),
        forall|i: int| 0 <= i < exts@.len() ==> (#[trigger] r.1@[i])@ == exts@[i]@,
{
    let mut out: Vec<String> = Vec::new();
    let mut i: usize = 0;
    while i < exts.len()
        invariant
            i <= exts@.len(),
            out@.len() == i,
            forall|k: int| 0 <= k < i ==> (#[trigger] out@[k])@ == exts@[k]@,
        decreases exts.len() - i,
    {
        out.push(str_to_string(exts[i]));
        i += 1;
    }
    (str_to_string(label), out)
}

/// The filters of an open dialog for a kind of file (ASCII case ignored).
pub open spec fn open_filters_ok(kind: Seq<char>, r: Seq<Filter>) -> bool {
    let k = spec_open_kind(kind);
    if k == 0 {
        r.len() == 2 && filter_is(r[0], "BIN image"@, seq!["bin"@]) && filter_is(r[1], "All files"@, seq!["*"@])
    } else if k == 1 {
        r.len() == 1 && filter_is(r[0], "CSV log"@, seq!["csv"@, "txt"@])
    } else if k == 2 {
        r.len() == 1 && filter_is(r[0], "Workspace JSON"@, seq!["json"@, "txt"@])
    } else if k == 3 {
        r.len() == 1 && filter_is(r[0], "XDF / XML"@, seq!["xdf"@, "xml"@, "txt"@])
    } else if k == 4 {
        r.len() == 1 && filter_is(r[0], "A2L"@, seq!["a2l"@, "txt"@])
    } else {
        r.len() == 2 && filter_is(r[0], "Text / defs"@, seq!["xdf"@, "xml"@, "a2l"@, "json"@, "csv"@, "txt"@])
            && filter_is(r[1], "All files"@, seq!["*"@])
    }
}

pub fn open_filters(kind: &str) -> (r: Vec<Filter>)
    ensures
        open_filters_ok(kind@, r@),
{
    let k = lower_vec(str_chars(kind).as_slice());
    if is_word(&k, "bin") {
        vec![filter("BIN image", vec!["bin"]), filter("All files", vec!["*"])]
    } else if is_word(&k, "csv") {
        vec![filter("CSV log", vec!["csv", "txt"])]
    } else if is_word(&k, "json") {
        vec![filter("Workspace JSON", vec!["json", "txt"])]
    } else if is_word(&k, "xdf") {
        vec![filter("XDF / XML", vec!["xdf", "xml", "txt"])]
    } else if is_word(&k, "a2l") {
        vec![filter("A2L", vec!["a2l", "txt"])]
    } else {
        vec![
            filter("Text / defs", vec!["xdf", "xml", "a2l", "json", "csv", "txt"]),
            filter("All files", vec!["*"]),
        ]
    }
}

/// The result of opening a file: images keep their bytes, anything else is
/// read as text (invalid UTF-8 replaced).
pub fn opened(kind: &str, path: String, data: Vec<u8>) -> (r: OpenFileResult)
    ensures
        !r.cancelled,
        r.path matches Some(p) && p@ == path@,
        lower_seq(kind@) == "bin"@ ==> (r.bytes matches Some(b) && b@ == data@) && r.text is None,
        lower_seq(kind@) != "bin"@ ==> r.bytes is None && (r.text matches Some(t) && t@ == utf8_lossy_text(data@)),
{
    let k = lower_vec(str_chars(kind).as_slice());
    if is_word(&k, "bin") {
        OpenFileResult { cancelled: false, path: Some(path), bytes: Some(data), text: None }
    } else {
        let text = utf8_lossy(data.as_slice());
        OpenFileResult { cancelled: false, path: Some(path), bytes: None, text: Some(text) }
    }
}

/// The result of saving a file.
pub fn saved(path: String) -> (r: OpenFileResult)
    ensures
        !r.cancelled && (r.path matches Some(p) && p@ == path@) && r.bytes is None && r.text is None,
{
    OpenFileResult { cancelled: false, path: Some(path), bytes: None, text: None }
}

/// The name a save dialog proposes: the given one, else `tuned.bin`.
pub fn save_name(default_name: Option<String>) -> (r: String)
    ensures
        match default_name {
            Some(n) => r@ == n@,
            None => r@ == "tuned.bin"@,
        },
{
    match default_name {
        Some(n) => n,
        None => str_to_string("tuned.bin"),
    }
}

pub open spec fn ends_with(s: Seq<char>, suffix: Seq<char>) -> bool {
    suffix.len() <= s.len() && s.subrange(s.len() - suffix.len(), s.len() as int) == suffix
}

/// The one filter of a save dialog, by the name's extension (ASCII case ignored).
pub fn save_filter(name: &str) -> (r: Filter)
    ensures
        ends_with(lower_seq(name@), ".csv"@) ==> filter_is(r, "CSV"@, seq!["csv"@]),
        !ends_with(lower_seq(name@), ".csv"@) && ends_with(lower_seq(name@), ".json"@) ==> filter_is(r, "JSON"@, seq!["json"@]),
        !ends_with(lower_seq(name@), ".csv"@) && !ends_with(lower_seq(name@), ".json"@) ==> filter_is(r, "BIN image"@, seq!["bin"@]),
{
    let lower = lower_vec(str_chars(name).as_slice());
    if ends_with_exec(&lower, ".csv") {
        filter("CSV", vec!["csv"])
    } else if ends_with_exec(&lower, ".json") {
        filter("JSON", vec!["json"])
    } else {
        filter("BIN image", vec!["bin"])
    }
}

fn ends_with_exec(s: &Vec<char>, suffix: &str) -> (r: bool)
    ensures
        r == ends_with(s@, suffix@),
{
    let x = str_chars(suffix);
    if x.len() > s.len() {
        return false;
    }
    let r = matches_at(s.as_slice(), x.as_slice(), s.len() - x.len());
    r
}

} // verus!
