//! The first null cell of each row.
use crate::column::Column;
use crate::error::{ComputeFault, EngineError};
use crate::select::{first_set, index_view, lemma_first_set_absent, lemma_first_set_at, position};
use crate::table::{height_of, rectangular, Table, MAX_COLUMNS};
use vstd::prelude::*;

verus! {

/// For each column, whether its cell in row `row` is null.
pub open spec fn row_nulls(columns: Seq<Column>, row: int) -> Seq<bool> {
    Seq::new(columns.len(), |c: int| columns[c].null_at(row))
}

/// For every row, the position of its first null cell, if it has one.
pub open spec fn first_nulls(columns: Seq<Column>) -> Seq<Option<int>> {
    Seq::new(height_of(columns), |r: int| first_set(row_nulls(columns, r)))
}

/// For every row, the position of the first column whose cell is null; a
/// null where the row has no null cell. Columns of any types may be mixed.
///
/// A table without columns is refused with `EmptyTable`.
pub fn arg_first_null(table: &Table) -> (r: Result<Vec<Option<u32>>, EngineError>)
    ensures
        if table@.len() == 0 {
            r == Err::<Vec<Option<u32>>, EngineError>(
                EngineError::ComputeError(ComputeFault::EmptyTable),
            )
        } else {
            r matches Ok(out) && index_view(out@) == first_nulls(table@)
        },
{
    let columns = table.columns();
    let width: usize = columns.len();
    if width == 0 {
        return Err(EngineError::ComputeError(ComputeFault::EmptyTable));
    }
    let height: usize = table.height();
    let mut out: Vec<Option<u32>> = Vec::with_capacity(height);
    let mut row: usize = 0;
    while row < height
        invariant
            row <= height,
            height == height_of(columns@),
            0 < width <= MAX_COLUMNS,
            width == columns@.len(),
            rectangular(columns@),
            out@.len() == row,
            forall|r: int|
                0 <= r < row ==> position(#[trigger] out@[r]) == first_set(row_nulls(columns@, r)),
        decreases height - row,
    {
        let ghost flags = row_nulls(columns@, row as int);
        let mut found: Option<u32> = None;
        let mut c: usize = 0;
        while c < width
            invariant_except_break
                found is None,
                forall|k: int| 0 <= k < c ==> !flags[k],
                c == width ==> first_set(flags) is None,
            invariant
                c <= width,
                0 < width <= MAX_COLUMNS,
                width == columns@.len(),
                row < height,
                height == height_of(columns@),
                rectangular(columns@),
                flags == row_nulls(columns@, row as int),
            ensures
                position(found) == first_set(flags),
            decreases width - c,
        {
            if columns[c].is_null(row) {
                found = Some(c as u32);
                proof {
                    lemma_first_set_at(flags, c as int);
                }
                break ;
            }
            proof {
                if c + 1 == width {
                    lemma_first_set_absent(flags);
                }
            }
            c += 1;
        }
        out.push(found);
        row += 1;
    }
    Ok(out)
}

} // verus!
