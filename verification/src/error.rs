//! The two kinds of failure an operation can report.
use crate::column::DataType;
use vstd::prelude::*;

verus! {

/// What exactly was malformed about the input of a failed computation.
#[derive(Clone, Copy, Debug, PartialEq, Eq, Structural)]
pub enum ComputeFault {
    /// The operation needs at least one column and the table has none.
    EmptyTable,
    /// Column positions are reported as 32-bit values; the table is too wide for that.
    TooManyColumns { width: usize },
    /// Column `column` holds `found` rows where the first column holds `expected`.
    LengthMismatch { column: usize, expected: usize, found: usize },
    /// The operation is not defined for columns of this element type.
    UnsupportedType { dtype: DataType },
    /// Column `column` has element type `actual`, which the operation cannot take there.
    WrongColumnType { column: usize, actual: DataType },
    /// Position `index`, read at row `row`, lies outside a dictionary of `len` entries.
    IndexOutOfBounds { row: usize, index: u32, len: usize },
}

/// Failure of an operation. Nothing is returned besides the error.
#[derive(Clone, Copy, Debug, PartialEq, Eq, Structural)]
pub enum EngineError {
    /// Columns that must share one element type do not: column `column` has
    /// type `actual` where the first column has `expected`.
    SchemaMismatch { column: usize, expected: DataType, actual: DataType },
    /// The input is malformed in the way the fault describes.
    ComputeError(ComputeFault),
}

} // verus!
