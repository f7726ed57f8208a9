//! The shape checks and operation choice of table math (scale, offset,
//! smooth, fuel-trim preview). The arithmetic on cell values is done by the
//! caller; these decide which tables and cells it applies to.
use vstd::prelude::*;
use crate::text::{str_to_string, push_str, push_chars, push_dec, dec, str_chars, lower_seq, lower_vec, eq_chars};

verus! {

/// Rows and columns of a table given the length of each row: refused when
/// there is no row or the first row is empty, or when rows differ in length.
pub open spec fn spec_table_dims(row_lens: Seq<usize>) -> Result<(usize, usize), Seq<char>> {
    if row_lens.len() == 0 || row_lens[0] == 0 {
        Err("empty table"@)
    } else if exists|i: int| 0 <= i < row_lens.len() && #[trigger] row_lens[i] != row_lens[0] {
        Err("ragged table"@)
    } else {
        Ok((row_lens.len() as usize, row_lens[0]))
    }
}

pub fn table_dims(row_lens: &[usize]) -> (r: Result<(usize, usize), String>)
    ensures
        match spec_table_dims(row_lens@) {
            Ok(d) => r == Ok::<(usize, usize), String>(d),
            Err(m) => r matches Err(e) && e@ == m,
        },
{
    if row_lens.len() == 0 || row_lens[0] == 0 {
        return Err(str_to_string("empty table"));
    }
    let cols = row_lens[0];
    let mut i: usize = 0;
    while i < row_lens.len()
        invariant
            i <= row_lens@.len(),
            cols == row_lens@[0],
            cols != 0,
            forall|k: int| 0 <= k < i ==> row_lens@[k] == cols,
        decreases row_lens.len() - i,
    {
        if row_lens[i] != cols {
            assert(row_lens@[i as int] != row_lens@[0]);
            return Err(str_to_string("ragged table"));
        }
        i += 1;
    }
    Ok((row_lens.len(), cols))
}

/// A table operation.
#[derive(Clone, Copy, Debug, PartialEq, Eq, Structural)]
pub enum TableOp {
    /// Multiply every cell by a factor.
    Scale,
    /// Add an offset to every cell.
    Add,
    /// Replace every cell by the mean of its 3x3 neighbourhood.
    Smooth,
}

/// The operation an op name (ASCII case ignored) stands for.
pub open spec fn spec_table_op(lower: Seq<char>) -> Option<TableOp> {
    if lower == "scale"@ || lower == "multiply"@ || lower == "mul"@ {
        Some(TableOp::Scale)
    } else if lower == "add"@ || lower == "offset"@ {
        Some(TableOp::Add)
    } else if lower == "smooth"@ || lower == "blur"@ {
        Some(TableOp::Smooth)
    } else {
        None
    }
}

fn is_name(a: &Vec<char>, b: &str) -> (r: bool)
    ensures
        r == (a@ == b@),
{
    let bv = str_chars(b);
    eq_chars(a.as_slice(), bv.as_slice())
}

/// The operation of an op name, or the refusal of an unknown one.
pub fn table_op(op: &str) -> (r: Result<TableOp, String>)
    ensures
        spec_table_op(lower_seq(op@)) matches Some(t) ==> r == Ok::<TableOp, String>(t),
        spec_table_op(lower_seq(op@)) is None ==> (r matches Err(e) && e@ == "unknown table op '"@ + lower_seq(op@)
            + "'"@),
{
    let low = lower_vec(str_chars(op).as_slice());
    if is_name(&low, "scale") || is_name(&low, "multiply") || is_name(&low, "mul") {
        Ok(TableOp::Scale)
    } else if is_name(&low, "add") || is_name(&low, "offset") {
        Ok(TableOp::Add)
    } else if is_name(&low, "smooth") || is_name(&low, "blur") {
        Ok(TableOp::Smooth)
    } else {
        let mut e = str_to_string("unknown table op '");
        push_chars(&mut e, low.as_slice());
        push_str(&mut e, "'");
        Err(e)
    }
}

/// The occupancy and trim grids of a fuel-trim preview match a `rows` x
/// `cols` table, or the refusal.
pub open spec fn spec_stft_grid(rows: usize, cols: usize, occ: Seq<usize>, stft: Seq<usize>) -> Result<(), Seq<char>> {
    if occ.len() != rows || stft.len() != rows {
        Err("grid mismatch: table "@ + dec(rows as nat) + "x"@ + dec(cols as nat) + ", occupancy rows "@ + dec(
            occ.len(),
        ) + ", stft rows "@ + dec(stft.len()))
    } else if exists|i: int| 0 <= i < rows && (#[trigger] occ[i] != cols || stft[i] != cols) {
        Err("ragged occupancy/stft grid"@)
    } else {
        Ok(())
    }
}

pub fn stft_grid_check(rows: usize, cols: usize, occ_lens: &[usize], stft_lens: &[usize]) -> (r: Result<(), String>)
    ensures
        match spec_stft_grid(rows, cols, occ_lens@, stft_lens@) {
            Ok(()) => r is Ok,
            Err(m) => r matches Err(e) && e@ == m,
        },
{
    if occ_lens.len() != rows || stft_lens.len() != rows {
        let mut e = str_to_string("grid mismatch: table ");
        push_dec(&mut e, rows as u64);
        push_str(&mut e, "x");
        push_dec(&mut e, cols as u64);
        push_str(&mut e, ", occupancy rows ");
        push_dec(&mut e, occ_lens.len() as u64);
        push_str(&mut e, ", stft rows ");
        push_dec(&mut e, stft_lens.len() as u64);
        return Err(e);
    }
    let mut i: usize = 0;
    while i < rows
        invariant
            i <= rows,
            occ_lens@.len() == rows,
            stft_lens@.len() == rows,
            forall|k: int| 0 <= k < i ==> occ_lens@[k] == cols && stft_lens@[k] == cols,
        decreases rows - i,
    {
        if occ_lens[i] != cols || stft_lens[i] != cols {
            assert(occ_lens@[i as int] != cols || stft_lens@[i as int] != cols);
            return Err(str_to_string("ragged occupancy/stft grid"));
        }
        i += 1;
    }
    Ok(())
}

/// A cell takes part in a fuel-trim preview when it has a trim value and was
/// visited at least `min_hits` times (3 when not given).
pub fn stft_cell_selected(occupancy: u32, min_hits: Option<u32>, has_stft: bool) -> (r: bool)
    ensures
        r == (has_stft && occupancy >= (match min_hits {
            Some(m) => m,
            None => 3u32,
        })),
{
    let m: u32 = match min_hits {
        Some(m) => m,
        None => 3,
    };
    has_stft && occupancy >= m
}

} // verus!
