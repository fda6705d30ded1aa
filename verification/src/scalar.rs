//! The numeric cell types a row scan can compare.
use crate::column::{Column, DataType};
use crate::float_bits::{F32Bits, F64Bits};
use vstd::prelude::*;

verus! {

/// The value by which a cell of scalar type takes part in comparisons, if it
/// does: null cells and values that are not comparable have none.
pub open spec fn cell_key<T: Scalar>(cell: Option<T>) -> Option<int> {
    match cell {
        Some(x) => if x.comparable() {
            Some(x.rank())
        } else {
            None
        },
        None => None,
    }
}

/// Whether `lane` holds the cells of `column`, seen as scalars of type `T`.
pub open spec fn is_lane_of<T: Scalar>(lane: Seq<Option<T>>, column: Column) -> bool {
    &&& lane.len() == column.rows()
    &&& forall|r: int|
        0 <= r < lane.len() ==> {
            &&& cell_key(#[trigger] lane[r]) == column.order_key(r)
            &&& lane[r] is None <==> column.null_at(r)
        }
}

/// A numeric cell type with a strict order in which some values (NaN) may
/// take no part.
pub trait Scalar: Copy + Sized {
    /// Element type of the columns that hold this scalar.
    spec fn tag() -> DataType;

    /// Whether the value takes part in comparisons.
    spec fn comparable(self) -> bool;

    /// Place of a comparable value in the numeric order.
    spec fn rank(self) -> int;

    /// Whether the value takes part in comparisons.
    fn is_comparable(self) -> (b: bool)
        ensures
            b == self.comparable(),
    ;

    /// `self > other`; false when either side is not comparable.
    fn exceeds(self, other: Self) -> (b: bool)
        ensures
            b == (self.comparable() && other.comparable() && self.rank() > other.rank()),
    ;

    /// `self < other`; false when either side is not comparable.
    fn precedes(self, other: Self) -> (b: bool)
        ensures
            b == (self.comparable() && other.comparable() && self.rank() < other.rank()),
    ;

    /// The cells of `column`, if it holds scalars of this type. A cell is
    /// null where the column's is, and takes part in comparisons with the
    /// key the column gives it.
    fn lane(column: &Column) -> (lane: Option<&Vec<Option<Self>>>)
        ensures
            lane is Some <==> column.element_type() == Self::tag(),
            lane matches Some(cells) ==> {
                &&& cells@.len() == column.rows()
                &&& forall|r: int|
                    0 <= r < cells@.len() ==> match #[trigger] cells@[r] {
                        Some(x) => {
                            &&& !column.null_at(r)
                            &&& x.comparable() ==> column.order_key(r) == Some(x.rank())
                            &&& !x.comparable() ==> column.order_key(r) is None
                        },
                        None => column.null_at(r) && column.order_key(r) is None,
                    }
            },
    ;
}

/// The cells of a column that holds scalars of type `T`.
pub(crate) fn typed_lane<'a, T: Scalar>(column: &'a Column) -> (lane: &'a Vec<Option<T>>)
    requires
        column.element_type() == T::tag(),
    ensures
        is_lane_of(lane@, *column),
{
    let lane: &'a Vec<Option<T>> = T::lane(column).unwrap();
    assert forall|r: int| 0 <= r < lane@.len() implies {
        &&& cell_key(#[trigger] lane@[r]) == column.order_key(r)
        &&& lane@[r] is None <==> column.null_at(r)
    } by {
        let cell = lane@[r];
    }
    lane
}

impl Scalar for i32 {
    open spec fn tag() -> DataType {
        DataType::Int32
    }

    open spec fn comparable(self) -> bool {
        true
    }

    open spec fn rank(self) -> int {
        self as int
    }

    fn is_comparable(self) -> (b: bool) {
        true
    }

    fn exceeds(self, other: i32) -> (b: bool) {
        self > other
    }

    fn precedes(self, other: i32) -> (b: bool) {
        self < other
    }

    fn lane(column: &Column) -> (lane: Option<&Vec<Option<i32>>>) {
        match column {
            Column::Int32(cells) => Some(cells),
            _ => None,
        }
    }
}

impl Scalar for i64 {
    open spec fn tag() -> DataType {
        DataType::Int64
    }

    open spec fn comparable(self) -> bool {
        true
    }

    open spec fn rank(self) -> int {
        self as int
    }

    fn is_comparable(self) -> (b: bool) {
        true
    }

    fn exceeds(self, other: i64) -> (b: bool) {
        self > other
    }

    fn precedes(self, other: i64) -> (b: bool) {
        self < other
    }

    fn lane(column: &Column) -> (lane: Option<&Vec<Option<i64>>>) {
        match column {
            Column::Int64(cells) => Some(cells),
            _ => None,
        }
    }
}

impl Scalar for u32 {
    open spec fn tag() -> DataType {
        DataType::UInt32
    }

    open spec fn comparable(self) -> bool {
        true
    }

    open spec fn rank(self) -> int {
        self as int
    }

    fn is_comparable(self) -> (b: bool) {
        true
    }

    fn exceeds(self, other: u32) -> (b: bool) {
        self > other
    }

    fn precedes(self, other: u32) -> (b: bool) {
        self < other
    }

    fn lane(column: &Column) -> (lane: Option<&Vec<Option<u32>>>) {
        match column {
            Column::UInt32(cells) => Some(cells),
            _ => None,
        }
    }
}

impl Scalar for u64 {
    open spec fn tag() -> DataType {
        DataType::UInt64
    }

    open spec fn comparable(self) -> bool {
        true
    }

    open spec fn rank(self) -> int {
        self as int
    }

    fn is_comparable(self) -> (b: bool) {
        true
    }

    fn exceeds(self, other: u64) -> (b: bool) {
        self > other
    }

    fn precedes(self, other: u64) -> (b: bool) {
        self < other
    }

    fn lane(column: &Column) -> (lane: Option<&Vec<Option<u64>>>) {
        match column {
            Column::UInt64(cells) => Some(cells),
            _ => None,
        }
    }
}

impl Scalar for F32Bits {
    open spec fn tag() -> DataType {
        DataType::Float32
    }

    open spec fn comparable(self) -> bool {
        !self.is_nan()
    }

    open spec fn rank(self) -> int {
        F32Bits::rank(self)
    }

    fn is_comparable(self) -> (b: bool) {
        !self.nan()
    }

    fn exceeds(self, other: F32Bits) -> (b: bool) {
        self.gt(other)
    }

    fn precedes(self, other: F32Bits) -> (b: bool) {
        self.lt(other)
    }

    fn lane(column: &Column) -> (lane: Option<&Vec<Option<F32Bits>>>) {
        match column {
            Column::Float32(cells) => Some(cells),
            _ => None,
        }
    }
}

impl Scalar for F64Bits {
    open spec fn tag() -> DataType {
        DataType::Float64
    }

    open spec fn comparable(self) -> bool {
        !self.is_nan()
    }

    open spec fn rank(self) -> int {
        F64Bits::rank(self)
    }

    fn is_comparable(self) -> (b: bool) {
        !self.nan()
    }

    fn exceeds(self, other: F64Bits) -> (b: bool) {
        self.gt(other)
    }

    fn precedes(self, other: F64Bits) -> (b: bool) {
        self.lt(other)
    }

    fn lane(column: &Column) -> (lane: Option<&Vec<Option<F64Bits>>>) {
        match column {
            Column::Float64(cells) => Some(cells),
            _ => None,
        }
    }
}

} // verus!
