//! Positions of the largest and the smallest value of each row, across the
//! columns of a table.
use crate::column::{Column, DataType};
use crate::error::{ComputeFault, EngineError};
use crate::float_bits::{F32Bits, F64Bits};
use crate::scalar::{is_lane_of, typed_lane, Scalar};
use crate::select::{
    first_set, index_view, lemma_first_set_absent, lemma_first_set_at, lemma_first_set_cases,
    position,
};
use crate::table::{height_of, rectangular, Table, MAX_COLUMNS};
use vstd::prelude::*;

verus! {

/// Whether a scan looks for the largest or for the smallest value.
#[derive(Clone, Copy, Debug, PartialEq, Eq, Structural)]
pub enum Mode {
    Max,
    Min,
}

/// Whether `a` is at least as extreme as `b`.
pub open spec fn not_worse(mode: Mode, a: int, b: int) -> bool {
    match mode {
        Mode::Max => a >= b,
        Mode::Min => a <= b,
    }
}

/// Whether position `j` holds a key that no other key of the sequence beats.
pub open spec fn attains(keys: Seq<Option<int>>, mode: Mode, j: int) -> bool {
    &&& 0 <= j < keys.len()
    &&& keys[j] is Some
    &&& forall|k: int|
        0 <= k < keys.len() && (#[trigger] keys[k]) is Some ==> not_worse(
            mode,
            keys[j].unwrap(),
            keys[k].unwrap(),
        )
}

/// For each position, whether it holds an extreme key.
pub open spec fn extreme_flags(keys: Seq<Option<int>>, mode: Mode) -> Seq<bool> {
    Seq::new(keys.len(), |j: int| attains(keys, mode, j))
}

/// The lowest position that holds an extreme key; none when no position
/// holds a key at all.
pub open spec fn first_extreme(keys: Seq<Option<int>>, mode: Mode) -> Option<int> {
    first_set(extreme_flags(keys, mode))
}

/// Whether, among the first `n` positions, `j` is the lowest one that holds
/// an extreme key.
pub open spec fn leads(keys: Seq<Option<int>>, mode: Mode, n: int, j: int) -> bool {
    &&& 0 <= j < n <= keys.len()
    &&& keys[j] is Some
    &&& forall|k: int|
        0 <= k < n && (#[trigger] keys[k]) is Some ==> not_worse(
            mode,
            keys[j].unwrap(),
            keys[k].unwrap(),
        )
    &&& forall|k: int|
        0 <= k < j && (#[trigger] keys[k]) is Some ==> keys[k].unwrap() != keys[j].unwrap()
}

/// The position that leads the whole sequence is its first extreme.
pub proof fn lemma_leader_is_first_extreme(keys: Seq<Option<int>>, mode: Mode, j: int)
    requires
        leads(keys, mode, keys.len() as int, j),
    ensures
        first_extreme(keys, mode) == Some(j),
{
    let flags = extreme_flags(keys, mode);
    assert forall|k: int| 0 <= k < j implies !flags[k] by {
        if attains(keys, mode, k) {
            // Two keys of which neither beats the other are equal, and
            // nothing before `j` holds the key of `j`.
            assert(not_worse(mode, keys[k].unwrap(), keys[j].unwrap()));
            assert(not_worse(mode, keys[j].unwrap(), keys[k].unwrap()));
        }
    }
    lemma_first_set_at(flags, j);
}

/// A sequence without keys has no first extreme.
pub proof fn lemma_no_key_no_extreme(keys: Seq<Option<int>>, mode: Mode)
    requires
        forall|k: int| 0 <= k < keys.len() ==> (#[trigger] keys[k]) is None,
    ensures
        first_extreme(keys, mode) is None,
{
    lemma_first_set_absent(extreme_flags(keys, mode));
}

/// Among the first `n` positions, if one of them holds a key, one of them leads.
proof fn lemma_leader_exists(keys: Seq<Option<int>>, mode: Mode, n: int)
    requires
        0 <= n <= keys.len(),
        exists|k: int| 0 <= k < n && (#[trigger] keys[k]) is Some,
    ensures
        exists|j: int| leads(keys, mode, n, j),
    decreases n,
{
    let last = n - 1;
    if exists|k: int| 0 <= k < last && (#[trigger] keys[k]) is Some {
        lemma_leader_exists(keys, mode, last);
        let j = choose|j: int| leads(keys, mode, last, j);
        if keys[last] is Some && keys[last].unwrap() != keys[j].unwrap() && not_worse(
            mode,
            keys[last].unwrap(),
            keys[j].unwrap(),
        ) {
            assert(leads(keys, mode, n, last));
        } else {
            assert(leads(keys, mode, n, j));
        }
    } else {
        assert(leads(keys, mode, n, last));
    }
}

/// What `first_extreme` names: the position that leads the whole sequence
/// when some position holds a key, and nothing when none does.
pub proof fn lemma_first_extreme_cases(keys: Seq<Option<int>>, mode: Mode)
    ensures
        match first_extreme(keys, mode) {
            Some(j) => leads(keys, mode, keys.len() as int, j),
            None => forall|k: int| 0 <= k < keys.len() ==> (#[trigger] keys[k]) is None,
        },
{
    if exists|k: int| 0 <= k < keys.len() && (#[trigger] keys[k]) is Some {
        lemma_leader_exists(keys, mode, keys.len() as int);
        let j = choose|j: int| leads(keys, mode, keys.len() as int, j);
        lemma_leader_is_first_extreme(keys, mode, j);
    } else {
        lemma_no_key_no_extreme(keys, mode);
    }
}

/// The comparison keys of row `row`, left to right.
pub open spec fn row_keys(columns: Seq<Column>, row: int) -> Seq<Option<int>> {
    Seq::new(columns.len(), |c: int| columns[c].order_key(row))
}

/// The comparison keys of a column, top to bottom.
pub open spec fn column_keys(column: Column) -> Seq<Option<int>> {
    Seq::new(column.rows(), |r: int| column.order_key(r))
}

/// For every row, the position of the first column that holds the extreme
/// value of the row; none where no cell of the row holds a comparable value.
pub open spec fn arg_extremes(columns: Seq<Column>, mode: Mode) -> Seq<Option<int>> {
    Seq::new(height_of(columns), |r: int| first_extreme(row_keys(columns, r), mode))
}

/// For each column, whether its element type differs from that of column 0.
pub open spec fn mismatch_flags(columns: Seq<Column>) -> Seq<bool> {
    Seq::new(columns.len(), |c: int| columns[c].element_type() != columns[0].element_type())
}

/// The error that reports mixed element types, if the columns have them:
/// `SchemaMismatch` for the first column whose type differs from that of
/// column 0.
pub open spec fn type_refusal(columns: Seq<Column>) -> Option<EngineError> {
    match first_set(mismatch_flags(columns)) {
        Some(c) => Some(
            EngineError::SchemaMismatch {
                column: c as usize,
                expected: columns[0].element_type(),
                actual: columns[c].element_type(),
            },
        ),
        None => None,
    }
}

/// Why an extremum scan refuses a table, if it does: `EmptyTable` without
/// columns; else `SchemaMismatch` for the first column whose type differs
/// from that of column 0; else `UnsupportedType` when the common type is not
/// numeric.
pub open spec fn scan_refusal(columns: Seq<Column>) -> Option<EngineError> {
    if columns.len() == 0 {
        Some(EngineError::ComputeError(ComputeFault::EmptyTable))
    } else if type_refusal(columns) is Some {
        type_refusal(columns)
    } else if !columns[0].element_type().is_numeric() {
        Some(
            EngineError::ComputeError(
                ComputeFault::UnsupportedType { dtype: columns[0].element_type() },
            ),
        )
    } else {
        None
    }
}

/// Whether all columns have the element type of the first one.
pub open spec fn uniform(columns: Seq<Column>) -> bool {
    forall|c: int|
        0 <= c < columns.len() ==> (#[trigger] columns[c]).element_type()
            == columns[0].element_type()
}

/// A scan takes exactly the tables that have a column and whose columns
/// share one numeric type.
pub proof fn lemma_scan_refusal(columns: Seq<Column>)
    ensures
        type_refusal(columns) is None <==> uniform(columns),
        scan_refusal(columns) is None <==> columns.len() > 0 && uniform(columns)
            && columns[0].element_type().is_numeric(),
{
    lemma_first_set_cases(mismatch_flags(columns));
    if first_set(mismatch_flags(columns)) is None {
        assert forall|c: int| 0 <= c < columns.len() implies (#[trigger] columns[c]).element_type()
            == columns[0].element_type() by {
            assert(!mismatch_flags(columns)[c]);
        }
    }
}

/// Checks that all columns have the element type of the first one.
pub fn check_types(table: &Table) -> (r: Result<(), EngineError>)
    ensures
        match type_refusal(table@) {
            Some(e) => r == Err::<(), EngineError>(e),
            None => r is Ok,
        },
{
    let columns = table.columns();
    let width: usize = columns.len();
    if width == 0 {
        proof {
            lemma_first_set_absent(mismatch_flags(columns@));
        }
        return Ok(());
    }
    let expected: DataType = columns[0].dtype();
    let mut c: usize = 1;
    while c < width
        invariant
            1 <= c <= width,
            width == columns@.len(),
            columns@ == table@,
            expected == columns@[0].element_type(),
            forall|k: int| 0 <= k < c ==> (#[trigger] columns@[k]).element_type() == expected,
        decreases width - c,
    {
        let actual: DataType = columns[c].dtype();
        if actual != expected {
            proof {
                lemma_first_set_at(mismatch_flags(columns@), c as int);
            }
            return Err(EngineError::SchemaMismatch { column: c, expected, actual });
        }
        c += 1;
    }
    proof {
        lemma_first_set_absent(mismatch_flags(columns@));
    }
    Ok(())
}

/// Whether `value` replaces the best value found so far: it must be
/// comparable, and strictly more extreme than the best one if there is one.
pub(crate) fn replaces<T: Scalar>(value: T, best: Option<T>, mode: Mode) -> (b: bool)
    requires
        best matches Some(current) ==> current.comparable(),
    ensures
        b == (value.comparable() && match best {
            Some(current) => value.rank() != current.rank() && not_worse(
                mode,
                value.rank(),
                current.rank(),
            ),
            None => true,
        }),
{
    match best {
        None => value.is_comparable(),
        Some(current) => match mode {
            Mode::Max => value.exceeds(current),
            Mode::Min => value.precedes(current),
        },
    }
}

/// Borrows the cells of every column as scalars of type `T`.
fn typed_lanes<'a, T: Scalar>(columns: &'a Vec<Column>) -> (lanes: Vec<&'a Vec<Option<T>>>)
    requires
        forall|c: int| 0 <= c < columns@.len() ==> (#[trigger] columns@[c]).element_type() == T::tag(),
    ensures
        lanes@.len() == columns@.len(),
        forall|c: int| 0 <= c < columns@.len() ==> is_lane_of((#[trigger] lanes@[c])@, columns@[c]),
{
    let width: usize = columns.len();
    let mut lanes: Vec<&'a Vec<Option<T>>> = Vec::with_capacity(width);
    let mut c: usize = 0;
    while c < width
        invariant
            c <= width,
            width == columns@.len(),
            lanes@.len() == c,
            forall|k: int|
                0 <= k < columns@.len() ==> (#[trigger] columns@[k]).element_type() == T::tag(),
            forall|k: int| 0 <= k < c ==> is_lane_of((#[trigger] lanes@[k])@, columns@[k]),
        decreases width - c,
    {
        lanes.push(typed_lane(&columns[c]));
        c += 1;
    }
    lanes
}

/// For each row, the position of the first column that holds the extreme
/// value among the comparable cells of the row.
fn scan_rows<T: Scalar>(
    lanes: &Vec<&Vec<Option<T>>>,
    height: usize,
    mode: Mode,
    columns: Ghost<Seq<Column>>,
) -> (out: Vec<Option<u32>>)
    requires
        0 < columns@.len() <= MAX_COLUMNS,
        rectangular(columns@),
        height == height_of(columns@),
        lanes@.len() == columns@.len(),
        forall|c: int| 0 <= c < columns@.len() ==> is_lane_of((#[trigger] lanes@[c])@, columns@[c]),
    ensures
        index_view(out@) == arg_extremes(columns@, mode),
{
    let width: usize = lanes.len();
    let mut out: Vec<Option<u32>> = Vec::with_capacity(height);
    let mut row: usize = 0;
    while row < height
        invariant
            row <= height,
            height == height_of(columns@),
            0 < width <= MAX_COLUMNS,
            width == columns@.len(),
            lanes@.len() == width,
            rectangular(columns@),
            forall|c: int|
                0 <= c < columns@.len() ==> is_lane_of((#[trigger] lanes@[c])@, columns@[c]),
            out@.len() == row,
            forall|r: int|
                0 <= r < row ==> position(#[trigger] out@[r]) == first_extreme(
                    row_keys(columns@, r),
                    mode,
                ),
        decreases height - row,
    {
        let ghost keys = row_keys(columns@, row as int);
        let mut best_idx: Option<u32> = None;
        let mut best_value: Option<T> = None;
        let mut c: usize = 0;
        while c < width
            invariant
                c <= width,
                0 < width <= MAX_COLUMNS,
                width == columns@.len(),
                lanes@.len() == width,
                row < height,
                height == height_of(columns@),
                rectangular(columns@),
                forall|c: int|
                    0 <= c < columns@.len() ==> is_lane_of((#[trigger] lanes@[c])@, columns@[c]),
                keys == row_keys(columns@, row as int),
                best_idx is None <==> best_value is None,
                best_idx is None ==> forall|k: int| 0 <= k < c ==> (#[trigger] keys[k]) is None,
                best_idx matches Some(j) ==> {
                    &&& leads(keys, mode, c as int, j as int)
                    &&& best_value matches Some(v) && v.comparable() && keys[j as int] == Some(
                        v.rank(),
                    )
                },
            decreases width - c,
        {
            if let Some(value) = lanes[c][row] {
                if replaces(value, best_value, mode) {
                    best_value = Some(value);
                    best_idx = Some(c as u32);
                }
            }
            c += 1;
        }
        proof {
            match best_idx {
                Some(j) => {
                    lemma_leader_is_first_extreme(keys, mode, j as int);
                },
                None => {
                    lemma_no_key_no_extreme(keys, mode);
                },
            }
        }
        out.push(best_idx);
        row += 1;
    }
    out
}

/// The scan for tables whose columns all hold scalars of type `T`.
fn arg_extreme_typed<T: Scalar>(table: &Table, mode: Mode) -> (out: Vec<Option<u32>>)
    requires
        table@.len() > 0,
        forall|c: int| 0 <= c < table@.len() ==> (#[trigger] table@[c]).element_type() == T::tag(),
    ensures
        index_view(out@) == arg_extremes(table@, mode),
{
    let columns = table.columns();
    let lanes = typed_lanes::<T>(columns);
    scan_rows(&lanes, table.height(), mode, Ghost(columns@))
}

/// For every row, the position of the first column that holds the largest
/// (`Mode::Max`) or the smallest (`Mode::Min`) value of the row.
///
/// Null cells are passed over, and so are NaN cells: they are never larger
/// or smaller than anything. Among equal extreme values the leftmost column
/// wins. A row without a comparable cell gives a null.
///
/// The table must have a column (`EmptyTable`), its columns must share one
/// element type (`SchemaMismatch`), and that type must be numeric
/// (`UnsupportedType`).
pub fn arg_extreme(table: &Table, mode: Mode) -> (r: Result<Vec<Option<u32>>, EngineError>)
    ensures
        match scan_refusal(table@) {
            Some(e) => r == Err::<Vec<Option<u32>>, EngineError>(e),
            None => r matches Ok(out) && index_view(out@) == arg_extremes(table@, mode),
        },
{
    let columns = table.columns();
    if columns.len() == 0 {
        return Err(EngineError::ComputeError(ComputeFault::EmptyTable));
    }
    match check_types(table) {
        Ok(_) => {},
        Err(e) => {
            return Err(e);
        },
    }
    proof {
        lemma_scan_refusal(table@);
    }
    match columns[0].dtype() {
        DataType::Float64 => Ok(arg_extreme_typed::<F64Bits>(table, mode)),
        DataType::Float32 => Ok(arg_extreme_typed::<F32Bits>(table, mode)),
        DataType::Int64 => Ok(arg_extreme_typed::<i64>(table, mode)),
        DataType::Int32 => Ok(arg_extreme_typed::<i32>(table, mode)),
        DataType::UInt64 => Ok(arg_extreme_typed::<u64>(table, mode)),
        DataType::UInt32 => Ok(arg_extreme_typed::<u32>(table, mode)),
        dtype => Err(EngineError::ComputeError(ComputeFault::UnsupportedType { dtype })),
    }
}

/// For every row, the position of the first column that holds the largest
/// value of the row. See [`arg_extreme`].
pub fn arg_max(table: &Table) -> (r: Result<Vec<Option<u32>>, EngineError>)
    ensures
        match scan_refusal(table@) {
            Some(e) => r == Err::<Vec<Option<u32>>, EngineError>(e),
            None => r matches Ok(out) && index_view(out@) == arg_extremes(table@, Mode::Max),
        },
{
    arg_extreme(table, Mode::Max)
}

/// For every row, the position of the first column that holds the smallest
/// value of the row. See [`arg_extreme`].
pub fn arg_min(table: &Table) -> (r: Result<Vec<Option<u32>>, EngineError>)
    ensures
        match scan_refusal(table@) {
            Some(e) => r == Err::<Vec<Option<u32>>, EngineError>(e),
            None => r matches Ok(out) && index_view(out@) == arg_extremes(table@, Mode::Min),
        },
{
    arg_extreme(table, Mode::Min)
}

/// The name a position selects from a list of column names: nothing for no
/// position, the empty string for a position the list does not have.
pub open spec fn label_at(names: Seq<Seq<char>>, position: Option<int>) -> Option<Seq<char>> {
    match position {
        Some(i) => Some(
            if 0 <= i < names.len() {
                names[i]
            } else {
                Seq::empty()
            },
        ),
        None => None,
    }
}

/// The names a sequence of positions selects, row by row.
pub open spec fn labels_of(names: Seq<Seq<char>>, positions: Seq<Option<int>>) -> Seq<
    Option<Seq<char>>,
> {
    Seq::new(positions.len(), |r: int| label_at(names, positions[r]))
}

/// Maps every position to the column name it selects.
pub fn resolve_labels(indices: &Vec<Option<u32>>, names: &Vec<String>) -> (labels: Vec<
    Option<String>,
>)
    ensures
        labels.deep_view() == labels_of(names.deep_view(), index_view(indices@)),
{
    let n: usize = indices.len();
    let mut labels: Vec<Option<String>> = Vec::with_capacity(n);
    let mut r: usize = 0;
    while r < n
        invariant
            r <= n,
            n == indices@.len(),
            labels@.len() == r,
            forall|k: int|
                0 <= k < r ==> (#[trigger] labels@[k]).deep_view() == label_at(
                    names.deep_view(),
                    position(indices@[k]),
                ),
        decreases n - r,
    {
        let label: Option<String> = match indices[r] {
            Some(i) => {
                if (i as usize) < names.len() {
                    Some(names[i as usize].clone())
                } else {
                    Some(String::new())
                }
            },
            None => None,
        };
        labels.push(label);
        r += 1;
    }
    labels
}

/// For every row, the name of the first column that holds the extreme value
/// of the row, taken from `names` by the position [`arg_extreme`] gives.
pub fn arg_extreme_colname(table: &Table, names: &Vec<String>, mode: Mode) -> (r: Result<
    Vec<Option<String>>,
    EngineError,
>)
    ensures
        match scan_refusal(table@) {
            Some(e) => r == Err::<Vec<Option<String>>, EngineError>(e),
            None => r matches Ok(labels) && labels.deep_view() == labels_of(
                names.deep_view(),
                arg_extremes(table@, mode),
            ),
        },
{
    match arg_extreme(table, mode) {
        Ok(indices) => Ok(resolve_labels(&indices, names)),
        Err(e) => Err(e),
    }
}

/// For every row, the name of the first column that holds the largest value
/// of the row. See [`arg_extreme_colname`].
pub fn arg_max_colname(table: &Table, names: &Vec<String>) -> (r: Result<
    Vec<Option<String>>,
    EngineError,
>)
    ensures
        match scan_refusal(table@) {
            Some(e) => r == Err::<Vec<Option<String>>, EngineError>(e),
            None => r matches Ok(labels) && labels.deep_view() == labels_of(
                names.deep_view(),
                arg_extremes(table@, Mode::Max),
            ),
        },
{
    arg_extreme_colname(table, names, Mode::Max)
}

/// For every row, the name of the first column that holds the smallest value
/// of the row. See [`arg_extreme_colname`].
pub fn arg_min_colname(table: &Table, names: &Vec<String>) -> (r: Result<
    Vec<Option<String>>,
    EngineError,
>)
    ensures
        match scan_refusal(table@) {
            Some(e) => r == Err::<Vec<Option<String>>, EngineError>(e),
            None => r matches Ok(labels) && labels.deep_view() == labels_of(
                names.deep_view(),
                arg_extremes(table@, Mode::Min),
            ),
        },
{
    arg_extreme_colname(table, names, Mode::Min)
}

/// Where several positions hold the extreme key, the lowest of them is the
/// first extreme: the result is never to the right of a position that holds
/// the extreme key, and it holds the same key.
pub proof fn lemma_tie_goes_left(keys: Seq<Option<int>>, mode: Mode, a: int, b: int)
    requires
        0 <= a < b < keys.len(),
        attains(keys, mode, a),
        attains(keys, mode, b),
    ensures
        keys[a] == keys[b],
        first_extreme(keys, mode) matches Some(j) && j <= a && keys[j] == keys[a],
        (forall|k: int| 0 <= k < a ==> keys[k] != keys[a]) ==> first_extreme(keys, mode) == Some(a),
{
    lemma_first_extreme_cases(keys, mode);
    let j = first_extreme(keys, mode).unwrap();
    // `j` leads and `a` attains, so both hold the extreme key; were `a`
    // before `j`, it would hold another key than `j`.
    assert(keys[j] == keys[a]);
    assert(j <= a);
}

/// A row whose cells are all null gives a null, under either mode.
pub proof fn lemma_all_null_row_gives_null(columns: Seq<Column>, mode: Mode, row: int)
    requires
        0 <= row < height_of(columns),
        forall|c: int| 0 <= c < columns.len() ==> (#[trigger] columns[c]).null_at(row),
    ensures
        arg_extremes(columns, mode)[row] is None,
{
    let keys = row_keys(columns, row);
    assert forall|c: int| 0 <= c < keys.len() implies (#[trigger] keys[c]) is None by {
        columns[c].lemma_order_key_present(row);
    }
    lemma_no_key_no_extreme(keys, mode);
}

/// A row of numeric columns with a cell that is neither null nor a NaN gives
/// the position of a column of the table whose cell in that row is not null
/// and holds the extreme value of the row.
pub proof fn lemma_present_value_gives_position(
    columns: Seq<Column>,
    mode: Mode,
    row: int,
    c: int,
)
    requires
        0 <= row < height_of(columns),
        0 <= c < columns.len(),
        columns[c].element_type().is_numeric(),
        !columns[c].null_at(row),
        !columns[c].nan_at(row),
    ensures
        arg_extremes(columns, mode)[row] matches Some(j) && 0 <= j < columns.len()
            && !columns[j].null_at(row) && attains(row_keys(columns, row), mode, j),
{
    let keys = row_keys(columns, row);
    columns[c].lemma_order_key_present(row);
    assert(keys[c] is Some);
    lemma_first_extreme_cases(keys, mode);
    let j = first_extreme(keys, mode).unwrap();
    columns[j].lemma_order_key_present(row);
}

/// Where two columns hold the extreme value of a row, the scan gives a
/// position that is not to the right of either, and the left one of the two
/// when no column before it holds that value.
pub proof fn lemma_equal_extremes_give_lower_position(
    columns: Seq<Column>,
    mode: Mode,
    row: int,
    a: int,
    b: int,
)
    requires
        0 <= row < height_of(columns),
        0 <= a < b < columns.len(),
        attains(row_keys(columns, row), mode, a),
        attains(row_keys(columns, row), mode, b),
    ensures
        arg_extremes(columns, mode)[row] matches Some(j) && j <= a,
        arg_extremes(columns, mode)[row] != Some(b),
        (forall|k: int| 0 <= k < a ==> columns[k].order_key(row) != columns[a].order_key(row))
            ==> arg_extremes(columns, mode)[row] == Some(a),
{
    lemma_tie_goes_left(row_keys(columns, row), mode, a, b);
}

/// The name [`arg_extreme_colname`] gives for a row is the entry of `names`
/// at the position [`arg_extreme`] gives for that row: a null for a null,
/// and the empty string for a position that `names` does not have.
pub proof fn lemma_colname_indexes_names(
    columns: Seq<Column>,
    names: Seq<Seq<char>>,
    mode: Mode,
    indices: Seq<Option<u32>>,
    labels: Seq<Option<Seq<char>>>,
    row: int,
)
    requires
        index_view(indices) == arg_extremes(columns, mode),
        labels == labels_of(names, arg_extremes(columns, mode)),
        0 <= row < height_of(columns),
    ensures
        indices.len() == height_of(columns),
        labels.len() == height_of(columns),
        labels[row] == match indices[row] {
            Some(i) => Some(
                if i < names.len() {
                    names[i as int]
                } else {
                    Seq::empty()
                },
            ),
            None => None,
        },
{
}

} // verus!
