//! Masks that mark the largest or the smallest value of a single column.
use crate::column::{Column, DataType};
use crate::error::{ComputeFault, EngineError};
use crate::extremum::{
    arg_extremes, column_keys, first_extreme, leads, lemma_leader_is_first_extreme,
    lemma_no_key_no_extreme, replaces, row_keys, Mode,
};
use crate::float_bits::{F32Bits, F64Bits};
use crate::scalar::{is_lane_of, typed_lane, Scalar};
use vstd::prelude::*;

verus! {

/// A mask of `len` rows that is true at row `idx` and nowhere else. Where
/// `idx` is no row of the mask, no row is true.
pub open spec fn single_mask(len: nat, idx: int) -> Seq<bool> {
    Seq::new(len, |r: int| r == idx)
}

/// The mask of a column under a mode: true at the first row that holds the
/// extreme value of the column, false everywhere else; false everywhere when
/// no row holds a comparable value.
pub open spec fn extreme_mask(column: Column, mode: Mode) -> Seq<bool> {
    Seq::new(column.rows(), |r: int| first_extreme(column_keys(column), mode) == Some(r))
}

/// What a mask operation returns for a column: the mask when the column is
/// numeric, and `UnsupportedType` with its element type otherwise.
pub open spec fn mask_of(column: Column, mode: Mode, r: Result<Vec<bool>, EngineError>) -> bool {
    if column.element_type().is_numeric() {
        r matches Ok(mask) && mask@ == extreme_mask(column, mode)
    } else {
        r == Err::<Vec<bool>, EngineError>(
            EngineError::ComputeError(
                ComputeFault::UnsupportedType { dtype: column.element_type() },
            ),
        )
    }
}

/// A mask of `len` rows, all false.
pub fn all_false(len: usize) -> (mask: Vec<bool>)
    ensures
        mask@ == Seq::new(len as nat, |r: int| false),
{
    let mut mask: Vec<bool> = Vec::with_capacity(len);
    let mut r: usize = 0;
    while r < len
        invariant
            r <= len,
            mask@.len() == r,
            forall|k: int| 0 <= k < r ==> !mask@[k],
        decreases len - r,
    {
        mask.push(false);
        r += 1;
    }
    mask
}

/// A mask of `len` rows, false everywhere but at row `idx`.
pub fn build_mask(len: usize, idx: usize) -> (mask: Vec<bool>)
    ensures
        mask@ == single_mask(len as nat, idx as int),
{
    let mut mask = all_false(len);
    if idx < len {
        mask.set(idx, true);
    }
    mask
}

/// The first row of a lane that holds its extreme value.
fn arg_extreme_in_lane<T: Scalar>(
    lane: &Vec<Option<T>>,
    mode: Mode,
    column: Ghost<Column>,
) -> (found: Option<usize>)
    requires
        is_lane_of(lane@, column@),
    ensures
        match found {
            Some(i) => first_extreme(column_keys(column@), mode) == Some(i as int),
            None => first_extreme(column_keys(column@), mode) is None,
        },
{
    let ghost keys = column_keys(column@);
    let n: usize = lane.len();
    let mut best_idx: Option<usize> = None;
    let mut best_value: Option<T> = None;
    let mut r: usize = 0;
    while r < n
        invariant
            r <= n,
            n == lane@.len(),
            is_lane_of(lane@, column@),
            keys == column_keys(column@),
            best_idx is None <==> best_value is None,
            best_idx is None ==> forall|k: int| 0 <= k < r ==> (#[trigger] keys[k]) is None,
            best_idx matches Some(j) ==> {
                &&& leads(keys, mode, r as int, j as int)
                &&& best_value matches Some(v) && v.comparable() && keys[j as int] == Some(v.rank())
            },
        decreases n - r,
    {
        if let Some(value) = lane[r] {
            if replaces(value, best_value, mode) {
                best_value = Some(value);
                best_idx = Some(r);
            }
        }
        r += 1;
    }
    proof {
        match best_idx {
            Some(j) => {
                lemma_leader_is_first_extreme(keys, mode, j as int);
            },
            None => {
                lemma_no_key_no_extreme(keys, mode);
            },
        }
    }
    best_idx
}

/// The mask of a column that holds scalars of type `T`.
fn is_extreme_typed<T: Scalar>(column: &Column, mode: Mode) -> (mask: Vec<bool>)
    requires
        column.element_type() == T::tag(),
    ensures
        mask@ == extreme_mask(*column, mode),
{
    let lane: &Vec<Option<T>> = typed_lane(column);
    let len: usize = lane.len();
    match arg_extreme_in_lane(lane, mode, Ghost(*column)) {
        Some(idx) => build_mask(len, idx),
        None => all_false(len),
    }
}

/// Marks the first row that holds the largest (`Mode::Max`) or the smallest
/// (`Mode::Min`) value of a numeric column.
///
/// Null and NaN cells are never marked. Among equal extreme values the first
/// row is marked. An empty column, or one without a comparable value, gives a
/// mask that is false everywhere. A column that is not numeric is refused
/// with `UnsupportedType`.
pub fn is_extreme(column: &Column, mode: Mode) -> (r: Result<Vec<bool>, EngineError>)
    ensures
        mask_of(*column, mode, r),
{
    match column.dtype() {
        DataType::Float64 => Ok(is_extreme_typed::<F64Bits>(column, mode)),
        DataType::Float32 => Ok(is_extreme_typed::<F32Bits>(column, mode)),
        DataType::Int64 => Ok(is_extreme_typed::<i64>(column, mode)),
        DataType::Int32 => Ok(is_extreme_typed::<i32>(column, mode)),
        DataType::UInt64 => Ok(is_extreme_typed::<u64>(column, mode)),
        DataType::UInt32 => Ok(is_extreme_typed::<u32>(column, mode)),
        dtype => Err(EngineError::ComputeError(ComputeFault::UnsupportedType { dtype })),
    }
}

/// Marks the first row that holds the largest value of a numeric column. See
/// [`is_extreme`].
pub fn is_max(column: &Column) -> (r: Result<Vec<bool>, EngineError>)
    ensures
        mask_of(*column, Mode::Max, r),
{
    is_extreme(column, Mode::Max)
}

/// Marks the first row that holds the smallest value of a numeric column. See
/// [`is_extreme`].
pub fn is_min(column: &Column) -> (r: Result<Vec<bool>, EngineError>)
    ensures
        mask_of(*column, Mode::Min, r),
{
    is_extreme(column, Mode::Min)
}

/// The mask of a column marks the position an extremum scan gives for the
/// column laid out as one row: where `as_row` has one single-row column for
/// each cell of `column`, with the same comparison key, the marked row of
/// the mask is the position the scan gives for that row.
pub proof fn lemma_mask_marks_arg_extreme(column: Column, as_row: Seq<Column>, mode: Mode)
    requires
        as_row.len() == column.rows(),
        as_row.len() > 0 ==> as_row[0].rows() == 1,
        forall|c: int|
            0 <= c < as_row.len() ==> (#[trigger] as_row[c]).order_key(0) == column.order_key(c),
    ensures
        forall|r: int|
            0 <= r < column.rows() ==> #[trigger] extreme_mask(column, mode)[r] == (arg_extremes(
                as_row,
                mode,
            )[0] == Some(r)),
{
    if column.rows() > 0 {
        assert(row_keys(as_row, 0) == column_keys(column));
    }
}

} // verus!
