//! The true cells of each row: the first one, and all of them.
use crate::column::{Column, DataType};
use crate::error::{ComputeFault, EngineError};
use crate::select::{
    first_set, index_view, lemma_first_set_absent, lemma_first_set_at, lemma_first_set_cases,
    position, set_positions,
};
use crate::table::{height_of, rectangular, Table, MAX_COLUMNS};
use vstd::prelude::*;

verus! {

/// For each column, whether its cell in row `row` counts as true. Null cells
/// do not.
pub open spec fn row_truths(columns: Seq<Column>, row: int) -> Seq<bool> {
    Seq::new(columns.len(), |c: int| columns[c].truth_at(row))
}

/// For every row, the position of its first true cell, if it has one.
pub open spec fn first_truths(columns: Seq<Column>) -> Seq<Option<int>> {
    Seq::new(height_of(columns), |r: int| first_set(row_truths(columns, r)))
}

/// For every row, the positions of all its true cells, left to right.
pub open spec fn all_truths(columns: Seq<Column>) -> Seq<Seq<int>> {
    Seq::new(height_of(columns), |r: int| set_positions(row_truths(columns, r)))
}

/// The positions a column of lists of 32-bit indices holds.
pub open spec fn lists_view(lists: Seq<Vec<i32>>) -> Seq<Seq<int>> {
    Seq::new(lists.len(), |r: int| lists[r]@.map_values(|i: i32| i as int))
}

/// For each column, whether it cannot be read as booleans.
pub open spec fn uncoercible_flags(columns: Seq<Column>) -> Seq<bool> {
    Seq::new(columns.len(), |c: int| !columns[c].element_type().is_boolean_coercible())
}

/// Why the boolean locators refuse a table, if they do: `EmptyTable`
/// without columns, else `WrongColumnType` for the first column that cannot
/// be read as booleans.
pub open spec fn truth_refusal(columns: Seq<Column>) -> Option<EngineError> {
    if columns.len() == 0 {
        Some(EngineError::ComputeError(ComputeFault::EmptyTable))
    } else {
        match first_set(uncoercible_flags(columns)) {
            Some(c) => Some(
                EngineError::ComputeError(
                    ComputeFault::WrongColumnType {
                        column: c as usize,
                        actual: columns[c].element_type(),
                    },
                ),
            ),
            None => None,
        }
    }
}

/// Whether every column can be read as booleans.
pub open spec fn all_coercible(columns: Seq<Column>) -> bool {
    forall|c: int| 0 <= c < columns.len() ==> (#[trigger] columns[c]).element_type().is_boolean_coercible()
}

/// The boolean locators take exactly the tables that have a column and
/// whose columns are all boolean or numeric.
pub proof fn lemma_truth_refusal(columns: Seq<Column>)
    ensures
        truth_refusal(columns) is None <==> columns.len() > 0 && all_coercible(columns),
{
    lemma_first_set_cases(uncoercible_flags(columns));
    if first_set(uncoercible_flags(columns)) is None {
        assert forall|c: int| 0 <= c < columns.len() implies (#[trigger] columns[c]).element_type().is_boolean_coercible() by {
            assert(!uncoercible_flags(columns)[c]);
        }
    }
}

/// Checks that the table has a column and that every column is boolean or
/// numeric.
pub fn check_coercible(table: &Table) -> (r: Result<(), EngineError>)
    ensures
        match truth_refusal(table@) {
            Some(e) => r == Err::<(), EngineError>(e),
            None => r is Ok,
        },
{
    let columns = table.columns();
    let width: usize = columns.len();
    if width == 0 {
        return Err(EngineError::ComputeError(ComputeFault::EmptyTable));
    }
    let mut c: usize = 0;
    while c < width
        invariant
            c <= width,
            width == columns@.len(),
            columns@ == table@,
            forall|k: int|
                0 <= k < c ==> (#[trigger] columns@[k]).element_type().is_boolean_coercible(),
        decreases width - c,
    {
        match columns[c].dtype() {
            DataType::Utf8 => {
                proof {
                    lemma_first_set_at(uncoercible_flags(columns@), c as int);
                }
                return Err(
                    EngineError::ComputeError(
                        ComputeFault::WrongColumnType { column: c, actual: DataType::Utf8 },
                    ),
                );
            },
            _ => {},
        }
        c += 1;
    }
    proof {
        lemma_first_set_absent(uncoercible_flags(columns@));
    }
    Ok(())
}

/// For every row, the position of the first column whose cell counts as
/// true; a null where the row has no such cell.
///
/// A boolean cell counts as true when it is `true`, a numeric cell when it is
/// not zero. Null cells count as false and do not end the scan.
///
/// A table without columns is refused with `EmptyTable`, a string column
/// with `WrongColumnType`.
pub fn arg_first_true(table: &Table) -> (r: Result<Vec<Option<u32>>, EngineError>)
    ensures
        match truth_refusal(table@) {
            Some(e) => r == Err::<Vec<Option<u32>>, EngineError>(e),
            None => r matches Ok(out) && index_view(out@) == first_truths(table@),
        },
{
    match check_coercible(table) {
        Ok(_) => {},
        Err(e) => {
            return Err(e);
        },
    }
    let columns = table.columns();
    let width: usize = columns.len();
    let height: usize = table.height();
    let mut out: Vec<Option<u32>> = Vec::with_capacity(height);
    let mut row: usize = 0;
    while row < height
        invariant
            row <= height,
            height == height_of(columns@),
            0 < width <= MAX_COLUMNS,
            width == columns@.len(),
            rectangular(columns@),
            out@.len() == row,
            forall|r: int|
                0 <= r < row ==> position(#[trigger] out@[r]) == first_set(row_truths(columns@, r)),
        decreases height - row,
    {
        let ghost flags = row_truths(columns@, row as int);
        let mut found: Option<u32> = None;
        let mut c: usize = 0;
        while c < width
            invariant_except_break
                found is None,
                forall|k: int| 0 <= k < c ==> !flags[k],
                c == width ==> first_set(flags) is None,
            invariant
                c <= width,
                0 < width <= MAX_COLUMNS,
                width == columns@.len(),
                row < height,
                height == height_of(columns@),
                rectangular(columns@),
                flags == row_truths(columns@, row as int),
            ensures
                position(found) == first_set(flags),
            decreases width - c,
        {
            if columns[c].is_true(row) {
                found = Some(c as u32);
                proof {
                    lemma_first_set_at(flags, c as int);
                }
                break ;
            }
            proof {
                if c + 1 == width {
                    lemma_first_set_absent(flags);
                }
            }
            c += 1;
        }
        out.push(found);
        row += 1;
    }
    Ok(out)
}

/// For every row, the positions of all columns whose cell counts as true,
/// left to right; an empty list where the row has no such cell.
///
/// Truth is decided as in [`arg_first_true`], and the same tables are
/// refused.
pub fn arg_true(table: &Table) -> (r: Result<Vec<Vec<i32>>, EngineError>)
    ensures
        match truth_refusal(table@) {
            Some(e) => r == Err::<Vec<Vec<i32>>, EngineError>(e),
            None => r matches Ok(out) && lists_view(out@) == all_truths(table@),
        },
{
    match check_coercible(table) {
        Ok(_) => {},
        Err(e) => {
            return Err(e);
        },
    }
    let columns = table.columns();
    let width: usize = columns.len();
    let height: usize = table.height();
    let mut out: Vec<Vec<i32>> = Vec::with_capacity(height);
    let mut row: usize = 0;
    while row < height
        invariant
            row <= height,
            height == height_of(columns@),
            0 < width <= MAX_COLUMNS,
            width == columns@.len(),
            rectangular(columns@),
            out@.len() == row,
            forall|r: int|
                0 <= r < row ==> (#[trigger] out@[r])@.map_values(|i: i32| i as int)
                    == set_positions(row_truths(columns@, r)),
        decreases height - row,
    {
        let ghost flags = row_truths(columns@, row as int);
        let mut indices: Vec<i32> = Vec::with_capacity(width);
        let mut c: usize = 0;
        while c < width
            invariant
                c <= width,
                0 < width <= MAX_COLUMNS,
                width == columns@.len(),
                row < height,
                height == height_of(columns@),
                rectangular(columns@),
                flags == row_truths(columns@, row as int),
                indices@.map_values(|i: i32| i as int) == set_positions(flags.take(c as int)),
            decreases width - c,
        {
            let ghost before = indices@;
            proof {
                assert(flags.take(c + 1).drop_last() == flags.take(c as int));
            }
            if columns[c].is_true(row) {
                indices.push(c as i32);
                assert(indices@.map_values(|i: i32| i as int) == before.map_values(
                    |i: i32| i as int,
                ).push(c as int));
            }
            c += 1;
        }
        assert(flags.take(width as int) == flags);
        out.push(indices);
        row += 1;
    }
    Ok(out)
}

} // verus!
