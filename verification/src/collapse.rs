//! Collation of string columns into one list of strings per row.
use crate::column::Column;
use crate::error::{ComputeFault, EngineError};
use crate::null_locator::row_nulls;
use crate::row_buffer::{staged, staging_clear, staging_new, staging_push, staging_row, RowBuffer};
use crate::select::{
    first_set, lemma_first_set_absent, lemma_first_set_at, lemma_first_set_cases,
    lemma_set_positions, set_positions,
};
use crate::table::{height_of, rectangular, Table};
use vstd::prelude::*;

verus! {

/// How null cells are treated while a row is collated.
#[derive(Clone, Copy, Debug, PartialEq, Eq, Structural)]
pub struct CollapseColumnsArgs {
    /// `false`: every non-null value of the row is kept, nulls are skipped.
    /// `true`: values are kept up to the first null, the rest of the row is not read.
    pub stop_on_first_null: bool,
}

/// The cells of row `row`, left to right, as optional strings.
pub open spec fn row_texts(columns: Seq<Column>, row: int) -> Seq<Option<Seq<char>>> {
    Seq::new(columns.len(), |c: int| columns[c].text_at(row))
}

/// Which cells are null.
pub open spec fn null_flags(cells: Seq<Option<Seq<char>>>) -> Seq<bool> {
    Seq::new(cells.len(), |c: int| cells[c] is None)
}

/// The values of the non-null cells, in the order of the cells.
pub open spec fn present_values(cells: Seq<Option<Seq<char>>>) -> Seq<Seq<char>>
    decreases cells.len(),
{
    if cells.len() == 0 {
        Seq::empty()
    } else {
        let before = present_values(cells.drop_last());
        match cells.last() {
            Some(s) => before.push(s),
            None => before,
        }
    }
}

/// Position of the first null cell, or the number of cells when none is null.
pub open spec fn null_boundary(cells: Seq<Option<Seq<char>>>) -> int {
    match first_set(null_flags(cells)) {
        Some(j) => j,
        None => cells.len() as int,
    }
}

/// The values of the cells that stand before the first null cell.
pub open spec fn leading_values(cells: Seq<Option<Seq<char>>>) -> Seq<Seq<char>> {
    Seq::new(null_boundary(cells) as nat, |c: int| cells[c].unwrap())
}

/// The list one row collapses to under the given policy.
pub open spec fn collapsed_row(cells: Seq<Option<Seq<char>>>, stop_on_first_null: bool) -> Seq<
    Seq<char>,
> {
    if stop_on_first_null {
        leading_values(cells)
    } else {
        present_values(cells)
    }
}

/// The lists all rows collapse to, top to bottom.
pub open spec fn collapsed(columns: Seq<Column>, stop_on_first_null: bool) -> Seq<Seq<Seq<char>>> {
    Seq::new(
        height_of(columns),
        |r: int| collapsed_row(row_texts(columns, r), stop_on_first_null),
    )
}

/// For each column, whether it holds something else than strings.
pub open spec fn non_string_flags(columns: Seq<Column>) -> Seq<bool> {
    Seq::new(columns.len(), |c: int| !(columns[c].element_type() is Utf8))
}

/// The error that reports a column that does not hold strings, if there is
/// one: `WrongColumnType` with the position and the element type of the
/// first such column.
pub open spec fn string_refusal(columns: Seq<Column>) -> Option<EngineError> {
    match first_set(non_string_flags(columns)) {
        Some(c) => Some(
            EngineError::ComputeError(
                ComputeFault::WrongColumnType {
                    column: c as usize,
                    actual: columns[c].element_type(),
                },
            ),
        ),
        None => None,
    }
}

/// Why a collation refuses a table, if it does: `EmptyTable` without
/// columns, else `WrongColumnType` for the first column that does not hold
/// strings.
pub open spec fn collapse_refusal(columns: Seq<Column>) -> Option<EngineError> {
    if columns.len() == 0 {
        Some(EngineError::ComputeError(ComputeFault::EmptyTable))
    } else {
        string_refusal(columns)
    }
}

/// Whether every column holds strings.
pub open spec fn all_strings(columns: Seq<Column>) -> bool {
    forall|c: int| 0 <= c < columns.len() ==> (#[trigger] columns[c]).element_type() is Utf8
}

/// A collation takes exactly the tables that have a column and hold strings
/// in every column.
pub proof fn lemma_collapse_refusal(columns: Seq<Column>)
    ensures
        string_refusal(columns) is None <==> all_strings(columns),
        collapse_refusal(columns) is None <==> columns.len() > 0 && all_strings(columns),
{
    lemma_first_set_cases(non_string_flags(columns));
    if first_set(non_string_flags(columns)) is None {
        assert forall|c: int| 0 <= c < columns.len() implies (#[trigger] columns[c]).element_type()
            is Utf8 by {
            assert(!non_string_flags(columns)[c]);
        }
    }
}

/// Whether `lanes` are the cell vectors of the string columns `columns`.
pub open spec fn lanes_of(lanes: Seq<&Vec<Option<String>>>, columns: Seq<Column>) -> bool {
    &&& lanes.len() == columns.len()
    &&& forall|c: int| 0 <= c < columns.len() ==> columns[c] == Column::Utf8(*#[trigger] lanes[c])
}

/// Borrows the cells of every column, once, after checking that all columns
/// hold strings.
pub fn string_lanes<'a>(columns: &'a Vec<Column>) -> (r: Result<
    Vec<&'a Vec<Option<String>>>,
    EngineError,
>)
    ensures
        match string_refusal(columns@) {
            Some(e) => r == Err::<Vec<&'a Vec<Option<String>>>, EngineError>(e),
            None => r matches Ok(lanes) && lanes_of(lanes@, columns@),
        },
{
    let width: usize = columns.len();
    let mut lanes: Vec<&'a Vec<Option<String>>> = Vec::with_capacity(width);
    let mut c: usize = 0;
    while c < width
        invariant
            c <= width,
            width == columns@.len(),
            lanes@.len() == c,
            forall|k: int| 0 <= k < c ==> (#[trigger] columns@[k]).element_type() is Utf8,
            forall|k: int| 0 <= k < c ==> columns@[k] == Column::Utf8(*#[trigger] lanes@[k]),
        decreases width - c,
    {
        match &columns[c] {
            Column::Utf8(cells) => {
                lanes.push(cells);
            },
            other => {
                proof {
                    lemma_first_set_at(non_string_flags(columns@), c as int);
                }
                return Err(
                    EngineError::ComputeError(
                        ComputeFault::WrongColumnType { column: c, actual: other.dtype() },
                    ),
                );
            },
        }
        c += 1;
    }
    proof {
        lemma_first_set_absent(non_string_flags(columns@));
    }
    Ok(lanes)
}

/// What every collation returns for a table: the error that refuses the
/// table, if it is refused, and the collapsed rows otherwise.
pub open spec fn collation_of(
    columns: Seq<Column>,
    stop_on_first_null: bool,
    r: Result<Vec<Vec<String>>, EngineError>,
) -> bool {
    match collapse_refusal(columns) {
        Some(e) => r == Err::<Vec<Vec<String>>, EngineError>(e),
        None => r matches Ok(rows) && rows.deep_view() == collapsed(columns, stop_on_first_null),
    }
}

/// The cell of a string lane, as `row_texts` sees it.
proof fn lemma_lane_cell(lanes: Seq<&Vec<Option<String>>>, columns: Seq<Column>, c: int, row: int)
    requires
        lanes_of(lanes, columns),
        0 <= c < columns.len(),
    ensures
        row_texts(columns, row)[c] == match lanes[c]@[row] {
            Some(s) => Some(s@),
            None => None,
        },
        columns[c].rows() == lanes[c]@.len(),
{
}

/// Collapses each row to the values that stand before its first null cell,
/// by reading the cells of the row one after the other until a null is met.
pub fn stop_on_first_null_fp(table: &Table) -> (r: Result<Vec<Vec<String>>, EngineError>)
    ensures
        collation_of(table@, true, r),
{
    let columns = table.columns();
    let width: usize = columns.len();
    if width == 0 {
        return Err(EngineError::ComputeError(ComputeFault::EmptyTable));
    }
    let lanes = match string_lanes(columns) {
        Ok(lanes) => lanes,
        Err(e) => {
            return Err(e);
        },
    };
    let height: usize = table.height();
    let mut rows: Vec<Vec<String>> = Vec::with_capacity(height);
    let mut buffer: RowBuffer = staging_new();
    let mut row: usize = 0;
    while row < height
        invariant
            row <= height,
            height == height_of(columns@),
            width == columns@.len(),
            width > 0,
            rectangular(columns@),
            lanes_of(lanes@, columns@),
            rows@.len() == row,
            forall|r: int|
                0 <= r < row ==> (#[trigger] rows@[r]).deep_view() == leading_values(
                    row_texts(columns@, r),
                ),
        decreases height - row,
    {
        let ghost cells = row_texts(columns@, row as int);
        staging_clear(&mut buffer);
        let mut c: usize = 0;
        while c < width
            invariant_except_break
                staged(buffer) == Seq::new(c as nat, |k: int| cells[k].unwrap()),
                forall|k: int| 0 <= k < c ==> cells[k] is Some,
                c == width ==> staged(buffer) == leading_values(cells),
            invariant
                c <= width,
                width > 0,
                width == columns@.len(),
                row < height,
                height == height_of(columns@),
                rectangular(columns@),
                lanes_of(lanes@, columns@),
                cells == row_texts(columns@, row as int),
            ensures
                staged(buffer) == leading_values(cells),
            decreases width - c,
        {
            proof {
                lemma_lane_cell(lanes@, columns@, c as int, row as int);
            }
            match &lanes[c][row] {
                Some(value) => {
                    staging_push(&mut buffer, value.as_str());
                    proof {
                        assert(staged(buffer) == Seq::new(
                            (c + 1) as nat,
                            |k: int| cells[k].unwrap(),
                        ));
                        if c + 1 == width {
                            lemma_first_set_absent(null_flags(cells));
                        }
                    }
                },
                None => {
                    proof {
                        lemma_first_set_at(null_flags(cells), c as int);
                    }
                    break ;
                },
            }
            c += 1;
        }
        rows.push(staging_row(&buffer));
        row += 1;
    }
    assert(rows.deep_view() == collapsed(columns@, true));
    Ok(rows)
}

/// For each row, the position of its first null cell, or the number of
/// columns when the row has none.
fn null_boundaries(
    lanes: &Vec<&Vec<Option<String>>>,
    height: usize,
    columns: Ghost<Seq<Column>>,
) -> (boundaries: Vec<usize>)
    requires
        lanes_of(lanes@, columns@),
        rectangular(columns@),
        columns@.len() > 0,
        height == height_of(columns@),
    ensures
        boundaries@.len() == height,
        forall|r: int|
            0 <= r < height ==> #[trigger] boundaries@[r] == null_boundary(row_texts(columns@, r)),
{
    let width: usize = lanes.len();
    let mut boundaries: Vec<usize> = Vec::with_capacity(height);
    let mut row: usize = 0;
    while row < height
        invariant
            row <= height,
            height == height_of(columns@),
            width == columns@.len(),
            width > 0,
            rectangular(columns@),
            lanes_of(lanes@, columns@),
            boundaries@.len() == row,
            forall|r: int|
                0 <= r < row ==> #[trigger] boundaries@[r] == null_boundary(
                    row_texts(columns@, r),
                ),
        decreases height - row,
    {
        let ghost cells = row_texts(columns@, row as int);
        let mut c: usize = 0;
        while c < width
            invariant_except_break
                forall|k: int| 0 <= k < c ==> cells[k] is Some,
                c == width ==> c == null_boundary(cells),
            invariant
                c <= width,
                width > 0,
                width == columns@.len(),
                row < height,
                height == height_of(columns@),
                rectangular(columns@),
                lanes_of(lanes@, columns@),
                cells == row_texts(columns@, row as int),
            ensures
                c == null_boundary(cells),
            decreases width - c,
        {
            proof {
                lemma_lane_cell(lanes@, columns@, c as int, row as int);
            }
            if lanes[c][row].is_none() {
                proof {
                    lemma_first_set_at(null_flags(cells), c as int);
                }
                break ;
            }
            proof {
                if c + 1 == width {
                    lemma_first_set_absent(null_flags(cells));
                }
            }
            c += 1;
        }
        boundaries.push(c);
        row += 1;
    }
    boundaries
}

/// Collapses each row to the values that stand before its first null cell, in
/// two passes: the first finds the boundary between the leading values and
/// the first null of every row, the second copies the cells before the
/// boundary into a list of exactly that length. Rows whose nulls all stand at
/// the end are where this pays; the result is the same for every table.
pub fn all_nulls_backloaded_fp(table: &Table) -> (r: Result<Vec<Vec<String>>, EngineError>)
    ensures
        collation_of(table@, true, r),
{
    let columns = table.columns();
    let width: usize = columns.len();
    if width == 0 {
        return Err(EngineError::ComputeError(ComputeFault::EmptyTable));
    }
    let lanes = match string_lanes(columns) {
        Ok(lanes) => lanes,
        Err(e) => {
            return Err(e);
        },
    };
    let height: usize = table.height();
    let boundaries = null_boundaries(&lanes, height, Ghost(columns@));
    let mut rows: Vec<Vec<String>> = Vec::with_capacity(height);
    let mut row: usize = 0;
    while row < height
        invariant
            row <= height,
            height == height_of(columns@),
            width == columns@.len(),
            width > 0,
            rectangular(columns@),
            lanes_of(lanes@, columns@),
            boundaries@.len() == height,
            forall|r: int|
                0 <= r < height ==> #[trigger] boundaries@[r] == null_boundary(
                    row_texts(columns@, r),
                ),
            rows@.len() == row,
            forall|r: int|
                0 <= r < row ==> (#[trigger] rows@[r]).deep_view() == leading_values(
                    row_texts(columns@, r),
                ),
        decreases height - row,
    {
        let ghost cells = row_texts(columns@, row as int);
        let boundary: usize = boundaries[row];
        let mut values: Vec<String> = Vec::with_capacity(boundary);
        let mut c: usize = 0;
        while c < boundary
            invariant
                c <= boundary,
                boundary == null_boundary(cells),
                width == columns@.len(),
                row < height,
                height == height_of(columns@),
                rectangular(columns@),
                lanes_of(lanes@, columns@),
                cells == row_texts(columns@, row as int),
                values@.len() == c,
                forall|k: int| 0 <= k < c ==> (#[trigger] values@[k])@ == cells[k].unwrap(),
            decreases boundary - c,
        {
            proof {
                lemma_null_boundary(cells);
                lemma_lane_cell(lanes@, columns@, c as int, row as int);
            }
            let value: &String = lanes[c][row].as_ref().unwrap();
            values.push(value.clone());
            c += 1;
        }
        rows.push(values);
        row += 1;
    }
    assert(rows.deep_view() == collapsed(columns@, true));
    Ok(rows)
}

/// Collapses every row of a table of string columns to a list of strings.
///
/// Without `stop_on_first_null` a row gives the values of all its non-null
/// cells, left to right; with it, the values that stand before its first null
/// cell. Values are neither reordered nor deduplicated, and a row may give an
/// empty list.
pub fn collapse_columns(table: &Table, args: &CollapseColumnsArgs) -> (r: Result<
    Vec<Vec<String>>,
    EngineError,
>)
    ensures
        collation_of(table@, args.stop_on_first_null, r),
{
    let columns = table.columns();
    let width: usize = columns.len();
    if width == 0 {
        return Err(EngineError::ComputeError(ComputeFault::EmptyTable));
    }
    if args.stop_on_first_null {
        return all_nulls_backloaded_fp(table);
    }
    let lanes = match string_lanes(columns) {
        Ok(lanes) => lanes,
        Err(e) => {
            return Err(e);
        },
    };
    let height: usize = table.height();
    let mut rows: Vec<Vec<String>> = Vec::with_capacity(height);
    let mut buffer: RowBuffer = staging_new();
    let mut row: usize = 0;
    while row < height
        invariant
            row <= height,
            height == height_of(columns@),
            width == columns@.len(),
            width > 0,
            rectangular(columns@),
            lanes_of(lanes@, columns@),
            rows@.len() == row,
            forall|r: int|
                0 <= r < row ==> (#[trigger] rows@[r]).deep_view() == present_values(
                    row_texts(columns@, r),
                ),
        decreases height - row,
    {
        let ghost cells = row_texts(columns@, row as int);
        staging_clear(&mut buffer);
        let mut c: usize = 0;
        while c < width
            invariant
                c <= width,
                width == columns@.len(),
                row < height,
                height == height_of(columns@),
                rectangular(columns@),
                lanes_of(lanes@, columns@),
                cells == row_texts(columns@, row as int),
                staged(buffer) == present_values(cells.take(c as int)),
            decreases width - c,
        {
            proof {
                lemma_lane_cell(lanes@, columns@, c as int, row as int);
                assert(cells.take(c + 1).drop_last() == cells.take(c as int));
            }
            match &lanes[c][row] {
                Some(value) => {
                    staging_push(&mut buffer, value.as_str());
                },
                None => {},
            }
            c += 1;
        }
        assert(cells.take(width as int) == cells);
        rows.push(staging_row(&buffer));
        row += 1;
    }
    assert(rows.deep_view() == collapsed(columns@, false));
    Ok(rows)
}

/// Which cells hold a value.
pub open spec fn value_flags(cells: Seq<Option<Seq<char>>>) -> Seq<bool> {
    Seq::new(cells.len(), |c: int| cells[c] is Some)
}

/// The values of two runs of cells, one after the other, are the values of
/// the first run followed by those of the second.
pub proof fn lemma_present_values_concat(a: Seq<Option<Seq<char>>>, b: Seq<Option<Seq<char>>>)
    ensures
        present_values(a + b) == present_values(a) + present_values(b),
    decreases b.len(),
{
    if b.len() == 0 {
        assert(a + b == a);
    } else {
        lemma_present_values_concat(a, b.drop_last());
        assert((a + b).drop_last() == a + b.drop_last());
    }
}

/// A run of cells that are all null has no values.
pub proof fn lemma_present_values_of_nulls(cells: Seq<Option<Seq<char>>>)
    requires
        forall|c: int| 0 <= c < cells.len() ==> (#[trigger] cells[c]) is None,
    ensures
        present_values(cells) == Seq::<Seq<char>>::empty(),
    decreases cells.len(),
{
    if cells.len() > 0 {
        lemma_present_values_of_nulls(cells.drop_last());
    }
}

/// A run of cells that all hold a value has these values, cell by cell.
pub proof fn lemma_present_values_of_values(cells: Seq<Option<Seq<char>>>)
    requires
        forall|c: int| 0 <= c < cells.len() ==> (#[trigger] cells[c]) is Some,
    ensures
        present_values(cells) == Seq::new(cells.len(), |c: int| cells[c].unwrap()),
    decreases cells.len(),
{
    if cells.len() > 0 {
        lemma_present_values_of_values(cells.drop_last());
    }
}

/// `present_values` keeps the value of every non-null cell, once, in the
/// order of the cells: it is the list of the positions that hold a value,
/// each replaced by the value it holds.
pub proof fn lemma_present_values_by_position(cells: Seq<Option<Seq<char>>>)
    ensures
        present_values(cells) == set_positions(value_flags(cells)).map_values(
            |c: int| cells[c].unwrap(),
        ),
    decreases cells.len(),
{
    if cells.len() > 0 {
        let init = cells.drop_last();
        lemma_present_values_by_position(init);
        lemma_set_positions(value_flags(init));
        assert(value_flags(cells).drop_last() == value_flags(init));
        let before = set_positions(value_flags(init));
        assert(before.map_values(|c: int| init[c].unwrap()) == before.map_values(
            |c: int| cells[c].unwrap(),
        )) by {
            assert forall|k: int| 0 <= k < before.len() implies init[before[k]]
                == cells[#[trigger] before[k]] by {}
        }
    }
}

/// Every cell before the first null holds a value, and the cell at the
/// boundary, if there is one, is null.
pub proof fn lemma_null_boundary(cells: Seq<Option<Seq<char>>>)
    ensures
        0 <= null_boundary(cells) <= cells.len(),
        forall|c: int| 0 <= c < null_boundary(cells) ==> (#[trigger] cells[c]) is Some,
        null_boundary(cells) < cells.len() ==> cells[null_boundary(cells)] is None,
{
    lemma_first_set_cases(null_flags(cells));
    assert forall|c: int| 0 <= c < null_boundary(cells) implies (#[trigger] cells[c]) is Some by {
        assert(!null_flags(cells)[c]);
    }
}

/// What stop-at-first-null keeps of a row is the start of what collect-all
/// keeps of it.
pub proof fn lemma_leading_values_start_present_values(cells: Seq<Option<Seq<char>>>)
    ensures
        leading_values(cells).len() <= present_values(cells).len(),
        leading_values(cells) == present_values(cells).take(leading_values(cells).len() as int),
{
    let b = null_boundary(cells);
    lemma_null_boundary(cells);
    assert(cells == cells.take(b) + cells.skip(b));
    lemma_present_values_concat(cells.take(b), cells.skip(b));
    lemma_present_values_of_values(cells.take(b));
}

/// Where all nulls of a row stand at its end, both policies keep the same
/// values.
pub proof fn lemma_policies_agree_on_trailing_nulls(cells: Seq<Option<Seq<char>>>)
    requires
        forall|c: int| null_boundary(cells) <= c < cells.len() ==> (#[trigger] cells[c]) is None,
    ensures
        leading_values(cells) == present_values(cells),
{
    let b = null_boundary(cells);
    lemma_null_boundary(cells);
    assert(cells == cells.take(b) + cells.skip(b));
    lemma_present_values_concat(cells.take(b), cells.skip(b));
    lemma_present_values_of_values(cells.take(b));
    lemma_present_values_of_nulls(cells.skip(b));
}

/// A row whose cells are all null collapses to the empty list under either
/// policy.
pub proof fn lemma_all_null_row_collapses_to_nothing(
    cells: Seq<Option<Seq<char>>>,
    stop_on_first_null: bool,
)
    requires
        forall|c: int| 0 <= c < cells.len() ==> (#[trigger] cells[c]) is None,
    ensures
        collapsed_row(cells, stop_on_first_null) == Seq::<Seq<char>>::empty(),
{
    lemma_present_values_of_nulls(cells);
    lemma_null_boundary(cells);
    if cells.len() > 0 {
        assert(cells[0] is None);
    }
}

/// A row whose first cell is null collapses to the empty list when the scan
/// stops at the first null, whatever follows.
pub proof fn lemma_leading_null_collapses_to_nothing(cells: Seq<Option<Seq<char>>>)
    requires
        cells.len() > 0,
        cells[0] is None,
    ensures
        leading_values(cells) == Seq::<Seq<char>>::empty(),
{
    lemma_null_boundary(cells);
}

/// In a table of string columns, stopping at the first null keeps the cells
/// that stand before the position the null locator gives for the row, and
/// the whole row when it gives none.
pub proof fn lemma_boundary_is_first_null(columns: Seq<Column>, row: int)
    requires
        all_strings(columns),
    ensures
        null_boundary(row_texts(columns, row)) == match first_set(row_nulls(columns, row)) {
            Some(j) => j,
            None => columns.len() as int,
        },
{
    assert(null_flags(row_texts(columns, row)) == row_nulls(columns, row)) by {
        assert forall|c: int| 0 <= c < columns.len() implies null_flags(row_texts(columns, row))[c]
            == row_nulls(columns, row)[c] by {
            columns[c].lemma_text_present(row);
        }
    }
}

/// A table and a policy admit one outcome only: two collations of the same
/// table under the same policy give the same rows, or fail with the same
/// error, however each of them walks the cells.
pub proof fn lemma_collation_is_unique(
    columns: Seq<Column>,
    stop_on_first_null: bool,
    first: Result<Vec<Vec<String>>, EngineError>,
    second: Result<Vec<Vec<String>>, EngineError>,
)
    requires
        collation_of(columns, stop_on_first_null, first),
        collation_of(columns, stop_on_first_null, second),
    ensures
        match (first, second) {
            (Ok(a), Ok(b)) => a.deep_view() == b.deep_view(),
            (Err(e1), Err(e2)) => e1 == e2,
            _ => false,
        },
{
}

} // verus!
