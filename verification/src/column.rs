//! Columns: fixed-length sequences of optional values of one element type.
use crate::float_bits::{F32Bits, F64Bits};
use vstd::prelude::*;

verus! {

/// Element type of a column.
#[derive(Clone, Copy, Debug, PartialEq, Eq, Structural)]
pub enum DataType {
    Int32,
    Int64,
    UInt32,
    UInt64,
    Float32,
    Float64,
    Boolean,
    Utf8,
}

impl DataType {
    /// Whether values of this type are numbers.
    pub open spec fn is_numeric(self) -> bool {
        !(self is Boolean) && !(self is Utf8)
    }

    /// Whether values of this type can be read as booleans: booleans
    /// themselves, and numbers.
    pub open spec fn is_boolean_coercible(self) -> bool {
        !(self is Utf8)
    }
}

/// The value of one cell that is not null.
#[derive(Clone, Debug, PartialEq, Eq)]
pub enum Value {
    Int32(i32),
    Int64(i64),
    UInt32(u32),
    UInt64(u64),
    Float32(F32Bits),
    Float64(F64Bits),
    Boolean(bool),
    Utf8(String),
}

/// A column: one optional value per row, all of one element type.
///
/// Floating-point cells are held as bit patterns, see [`crate::float_bits`].
#[derive(Clone, Debug, PartialEq, Eq)]
pub enum Column {
    Int32(Vec<Option<i32>>),
    Int64(Vec<Option<i64>>),
    UInt32(Vec<Option<u32>>),
    UInt64(Vec<Option<u64>>),
    Float32(Vec<Option<F32Bits>>),
    Float64(Vec<Option<F64Bits>>),
    Boolean(Vec<Option<bool>>),
    Utf8(Vec<Option<String>>),
}

impl Column {
    /// Number of rows.
    pub open spec fn rows(&self) -> nat {
        match self {
            Column::Int32(v) => v@.len(),
            Column::Int64(v) => v@.len(),
            Column::UInt32(v) => v@.len(),
            Column::UInt64(v) => v@.len(),
            Column::Float32(v) => v@.len(),
            Column::Float64(v) => v@.len(),
            Column::Boolean(v) => v@.len(),
            Column::Utf8(v) => v@.len(),
        }
    }

    /// Element type.
    pub open spec fn element_type(&self) -> DataType {
        match self {
            Column::Int32(_) => DataType::Int32,
            Column::Int64(_) => DataType::Int64,
            Column::UInt32(_) => DataType::UInt32,
            Column::UInt64(_) => DataType::UInt64,
            Column::Float32(_) => DataType::Float32,
            Column::Float64(_) => DataType::Float64,
            Column::Boolean(_) => DataType::Boolean,
            Column::Utf8(_) => DataType::Utf8,
        }
    }

    /// What the cell at `row` holds; nothing where it is null.
    pub open spec fn value_at(&self, row: int) -> Option<Value> {
        match self {
            Column::Int32(v) => match v@[row] {
                Some(x) => Some(Value::Int32(x)),
                None => None,
            },
            Column::Int64(v) => match v@[row] {
                Some(x) => Some(Value::Int64(x)),
                None => None,
            },
            Column::UInt32(v) => match v@[row] {
                Some(x) => Some(Value::UInt32(x)),
                None => None,
            },
            Column::UInt64(v) => match v@[row] {
                Some(x) => Some(Value::UInt64(x)),
                None => None,
            },
            Column::Float32(v) => match v@[row] {
                Some(x) => Some(Value::Float32(x)),
                None => None,
            },
            Column::Float64(v) => match v@[row] {
                Some(x) => Some(Value::Float64(x)),
                None => None,
            },
            Column::Boolean(v) => match v@[row] {
                Some(x) => Some(Value::Boolean(x)),
                None => None,
            },
            Column::Utf8(v) => match v@[row] {
                Some(x) => Some(Value::Utf8(x)),
                None => None,
            },
        }
    }

    /// Whether the cell at `row` is null.
    pub open spec fn null_at(&self, row: int) -> bool {
        match self {
            Column::Int32(v) => v@[row] is None,
            Column::Int64(v) => v@[row] is None,
            Column::UInt32(v) => v@[row] is None,
            Column::UInt64(v) => v@[row] is None,
            Column::Float32(v) => v@[row] is None,
            Column::Float64(v) => v@[row] is None,
            Column::Boolean(v) => v@[row] is None,
            Column::Utf8(v) => v@[row] is None,
        }
    }

    /// Whether the cell at `row` holds a floating-point NaN.
    pub open spec fn nan_at(&self, row: int) -> bool {
        match self {
            Column::Float32(v) => v@[row] matches Some(x) && x.is_nan(),
            Column::Float64(v) => v@[row] matches Some(x) && x.is_nan(),
            _ => false,
        }
    }

    /// The value by which the cell at `row` takes part in comparisons: the
    /// number itself for an integer, the signed magnitude for a floating-point
    /// value that is not a NaN. Null cells, NaN cells and cells of columns that
    /// are not numeric have no such value.
    pub open spec fn order_key(&self, row: int) -> Option<int> {
        match self {
            Column::Int32(v) => match v@[row] {
                Some(x) => Some(x as int),
                None => None,
            },
            Column::Int64(v) => match v@[row] {
                Some(x) => Some(x as int),
                None => None,
            },
            Column::UInt32(v) => match v@[row] {
                Some(x) => Some(x as int),
                None => None,
            },
            Column::UInt64(v) => match v@[row] {
                Some(x) => Some(x as int),
                None => None,
            },
            Column::Float32(v) => match v@[row] {
                Some(x) => if x.is_nan() {
                    None
                } else {
                    Some(x.rank())
                },
                None => None,
            },
            Column::Float64(v) => match v@[row] {
                Some(x) => if x.is_nan() {
                    None
                } else {
                    Some(x.rank())
                },
                None => None,
            },
            Column::Boolean(_) => None,
            Column::Utf8(_) => None,
        }
    }

    /// Whether the cell at `row` counts as true: a boolean `true`, or a number
    /// other than zero. Null cells and strings never do.
    pub open spec fn truth_at(&self, row: int) -> bool {
        match self {
            Column::Int32(v) => v@[row] matches Some(x) && x != 0,
            Column::Int64(v) => v@[row] matches Some(x) && x != 0,
            Column::UInt32(v) => v@[row] matches Some(x) && x != 0,
            Column::UInt64(v) => v@[row] matches Some(x) && x != 0,
            Column::Float32(v) => v@[row] matches Some(x) && !x.is_zero(),
            Column::Float64(v) => v@[row] matches Some(x) && !x.is_zero(),
            Column::Boolean(v) => v@[row] matches Some(x) && x,
            Column::Utf8(_) => false,
        }
    }

    /// The string in the cell at `row`, if the column holds strings and the
    /// cell is not null.
    pub open spec fn text_at(&self, row: int) -> Option<Seq<char>> {
        match self {
            Column::Utf8(v) => match v@[row] {
                Some(s) => Some(s@),
                None => None,
            },
            _ => None,
        }
    }

    /// A cell is null exactly when it holds no value, and a null cell has no
    /// comparison key, no text, and does not count as true.
    pub proof fn lemma_null_cell(&self, row: int)
        ensures
            self.null_at(row) <==> self.value_at(row) is None,
            self.null_at(row) ==> self.order_key(row) is None && self.text_at(row) is None
                && !self.truth_at(row) && !self.nan_at(row),
    {
    }

    /// A cell has a comparison key exactly when its column is numeric and
    /// the cell is neither null nor a NaN.
    pub proof fn lemma_order_key_present(&self, row: int)
        ensures
            self.order_key(row) is Some <==> self.element_type().is_numeric() && !self.null_at(row)
                && !self.nan_at(row),
    {
    }

    /// A cell has a text exactly when its column holds strings and the cell
    /// is not null.
    pub proof fn lemma_text_present(&self, row: int)
        ensures
            self.text_at(row) is Some <==> self.element_type() is Utf8 && !self.null_at(row),
    {
    }

    /// Number of rows.
    pub fn len(&self) -> (n: usize)
        ensures
            n == self.rows(),
    {
        match self {
            Column::Int32(v) => v.len(),
            Column::Int64(v) => v.len(),
            Column::UInt32(v) => v.len(),
            Column::UInt64(v) => v.len(),
            Column::Float32(v) => v.len(),
            Column::Float64(v) => v.len(),
            Column::Boolean(v) => v.len(),
            Column::Utf8(v) => v.len(),
        }
    }

    /// Element type.
    pub fn dtype(&self) -> (t: DataType)
        ensures
            t == self.element_type(),
    {
        match self {
            Column::Int32(_) => DataType::Int32,
            Column::Int64(_) => DataType::Int64,
            Column::UInt32(_) => DataType::UInt32,
            Column::UInt64(_) => DataType::UInt64,
            Column::Float32(_) => DataType::Float32,
            Column::Float64(_) => DataType::Float64,
            Column::Boolean(_) => DataType::Boolean,
            Column::Utf8(_) => DataType::Utf8,
        }
    }

    /// What the cell at `row` holds; nothing where it is null.
    pub fn get(&self, row: usize) -> (value: Option<Value>)
        requires
            row < self.rows(),
        ensures
            value == self.value_at(row as int),
    {
        match self {
            Column::Int32(v) => match v[row] {
                Some(x) => Some(Value::Int32(x)),
                None => None,
            },
            Column::Int64(v) => match v[row] {
                Some(x) => Some(Value::Int64(x)),
                None => None,
            },
            Column::UInt32(v) => match v[row] {
                Some(x) => Some(Value::UInt32(x)),
                None => None,
            },
            Column::UInt64(v) => match v[row] {
                Some(x) => Some(Value::UInt64(x)),
                None => None,
            },
            Column::Float32(v) => match v[row] {
                Some(x) => Some(Value::Float32(x)),
                None => None,
            },
            Column::Float64(v) => match v[row] {
                Some(x) => Some(Value::Float64(x)),
                None => None,
            },
            Column::Boolean(v) => match v[row] {
                Some(x) => Some(Value::Boolean(x)),
                None => None,
            },
            Column::Utf8(v) => match &v[row] {
                Some(x) => Some(Value::Utf8(x.clone())),
                None => None,
            },
        }
    }

    /// Whether the cell at `row` counts as true.
    pub fn is_true(&self, row: usize) -> (b: bool)
        requires
            row < self.rows(),
        ensures
            b == self.truth_at(row as int),
    {
        match self {
            Column::Int32(v) => match v[row] {
                Some(x) => x != 0,
                None => false,
            },
            Column::Int64(v) => match v[row] {
                Some(x) => x != 0,
                None => false,
            },
            Column::UInt32(v) => match v[row] {
                Some(x) => x != 0,
                None => false,
            },
            Column::UInt64(v) => match v[row] {
                Some(x) => x != 0,
                None => false,
            },
            Column::Float32(v) => match v[row] {
                Some(x) => x.nonzero(),
                None => false,
            },
            Column::Float64(v) => match v[row] {
                Some(x) => x.nonzero(),
                None => false,
            },
            Column::Boolean(v) => match v[row] {
                Some(x) => x,
                None => false,
            },
            Column::Utf8(_) => false,
        }
    }

    /// Whether the cell at `row` is null.
    pub fn is_null(&self, row: usize) -> (b: bool)
        requires
            row < self.rows(),
        ensures
            b == self.null_at(row as int),
    {
        match self {
            Column::Int32(v) => v[row].is_none(),
            Column::Int64(v) => v[row].is_none(),
            Column::UInt32(v) => v[row].is_none(),
            Column::UInt64(v) => v[row].is_none(),
            Column::Float32(v) => v[row].is_none(),
            Column::Float64(v) => v[row].is_none(),
            Column::Boolean(v) => v[row].is_none(),
            Column::Utf8(v) => v[row].is_none(),
        }
    }
}

} // verus!
