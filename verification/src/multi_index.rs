//! Resolution of per-row positions into entries of a string dictionary.
use crate::column::{Column, DataType};
use crate::error::{ComputeFault, EngineError};
use crate::select::{
    first_set, index_view, lemma_first_set_absent, lemma_first_set_at, lemma_first_set_cases,
};
use vstd::prelude::*;

verus! {

/// The 32-bit gather position an integer stands for: its low 32 bits, read as
/// an unsigned number. Values of `0 .. 2^32` stand for themselves.
pub open spec fn gather_index(value: int) -> int {
    value % 0x1_0000_0000
}

/// Whether columns of this element type can hold positions.
pub open spec fn is_index_type(t: DataType) -> bool {
    t is Int32 || t is Int64 || t is UInt32
}

/// The gather positions of an integer column, row by row; null where the cell is null.
pub open spec fn positions_of(index_column: Column) -> Seq<Option<int>> {
    Seq::new(
        index_column.rows(),
        |r: int|
            match index_column.order_key(r) {
                Some(v) => Some(gather_index(v)),
                None => None,
            },
    )
}

/// The entries of a string column, top to bottom.
pub open spec fn entries_of(lookup_column: Column) -> Seq<Option<Seq<char>>> {
    Seq::new(lookup_column.rows(), |i: int| lookup_column.text_at(i))
}

/// Which rows hold a position outside a dictionary of `len` entries.
pub open spec fn miss_flags(positions: Seq<Option<int>>, len: nat) -> Seq<bool> {
    Seq::new(positions.len(), |r: int| positions[r] matches Some(i) && !(0 <= i < len))
}

/// The entry each position selects; null where the position is null. An
/// entry may itself be null.
pub open spec fn gathered(entries: Seq<Option<Seq<char>>>, positions: Seq<Option<int>>) -> Seq<
    Option<Seq<char>>,
> {
    Seq::new(
        positions.len(),
        |r: int|
            match positions[r] {
                Some(i) => entries[i],
                None => None,
            },
    )
}

/// Why a gather fails, if it does: `IndexOutOfBounds` for the first row
/// whose position lies outside a dictionary of `len` entries.
pub open spec fn gather_refusal(positions: Seq<Option<int>>, len: nat) -> Option<EngineError> {
    match first_set(miss_flags(positions, len)) {
        Some(row) => Some(
            EngineError::ComputeError(
                ComputeFault::IndexOutOfBounds {
                    row: row as usize,
                    index: positions[row].unwrap() as u32,
                    len: len as usize,
                },
            ),
        ),
        None => None,
    }
}

/// A gather succeeds exactly when every position that is not null lies
/// inside the dictionary.
pub proof fn lemma_gather_refusal(positions: Seq<Option<int>>, len: nat)
    ensures
        gather_refusal(positions, len) is None <==> forall|r: int|
            0 <= r < positions.len() ==> (#[trigger] positions[r] matches Some(i) ==> 0 <= i < len),
{
    lemma_first_set_cases(miss_flags(positions, len));
    if first_set(miss_flags(positions, len)) is None {
        assert forall|r: int| 0 <= r < positions.len() implies (#[trigger] positions[r] matches Some(
            i,
        ) ==> 0 <= i < len) by {
            assert(!miss_flags(positions, len)[r]);
        }
    } else {
        let row = first_set(miss_flags(positions, len)).unwrap();
        assert(miss_flags(positions, len)[row]);
    }
}

/// What a gather returns: the error that reports the first position outside
/// the dictionary, if there is one, and the selected entries otherwise.
pub open spec fn gather_of(
    entries: Seq<Option<Seq<char>>>,
    positions: Seq<Option<int>>,
    r: Result<Vec<Option<String>>, EngineError>,
) -> bool {
    match gather_refusal(positions, entries.len()) {
        Some(e) => r == Err::<Vec<Option<String>>, EngineError>(e),
        None => r matches Ok(out) && out.deep_view() == gathered(entries, positions),
    }
}

/// Narrows 32-bit signed positions to gather positions.
fn narrow_i32(indices: &Vec<Option<i32>>) -> (narrowed: Vec<Option<u32>>)
    ensures
        narrowed@.len() == indices@.len(),
        forall|r: int|
            0 <= r < indices@.len() ==> #[trigger] narrowed@[r] == match indices@[r] {
                Some(v) => Some(gather_index(v as int) as u32),
                None => None,
            },
{
    let n: usize = indices.len();
    let mut narrowed: Vec<Option<u32>> = Vec::with_capacity(n);
    let mut r: usize = 0;
    while r < n
        invariant
            r <= n,
            n == indices@.len(),
            narrowed@.len() == r,
            forall|k: int|
                0 <= k < r ==> #[trigger] narrowed@[k] == match indices@[k] {
                    Some(v) => Some(gather_index(v as int) as u32),
                    None => None,
                },
        decreases n - r,
    {
        let cell: Option<u32> = match indices[r] {
            Some(v) => {
                let low: u32 = #[verifier::truncate]
                (v as u32);
                assert(low == (v as int) % 0x1_0000_0000) by (bit_vector)
                    requires
                        low == v as u32,
                ;
                Some(low)
            },
            None => None,
        };
        narrowed.push(cell);
        r += 1;
    }
    narrowed
}

/// Narrows 64-bit signed positions to gather positions. Bits above the low
/// 32 are dropped.
fn narrow_i64(indices: &Vec<Option<i64>>) -> (narrowed: Vec<Option<u32>>)
    ensures
        narrowed@.len() == indices@.len(),
        forall|r: int|
            0 <= r < indices@.len() ==> #[trigger] narrowed@[r] == match indices@[r] {
                Some(v) => Some(gather_index(v as int) as u32),
                None => None,
            },
{
    let n: usize = indices.len();
    let mut narrowed: Vec<Option<u32>> = Vec::with_capacity(n);
    let mut r: usize = 0;
    while r < n
        invariant
            r <= n,
            n == indices@.len(),
            narrowed@.len() == r,
            forall|k: int|
                0 <= k < r ==> #[trigger] narrowed@[k] == match indices@[k] {
                    Some(v) => Some(gather_index(v as int) as u32),
                    None => None,
                },
        decreases n - r,
    {
        let cell: Option<u32> = match indices[r] {
            Some(v) => {
                let low: u32 = #[verifier::truncate]
                (v as u32);
                assert(low == (v as int) % 0x1_0000_0000) by (bit_vector)
                    requires
                        low == v as u32,
                ;
                Some(low)
            },
            None => None,
        };
        narrowed.push(cell);
        r += 1;
    }
    narrowed
}

/// Gathers the dictionary entries that 32-bit positions select, checking
/// every position against the length of the dictionary.
pub fn take(lookup: &Vec<Option<String>>, indices: &Vec<Option<u32>>) -> (r: Result<
    Vec<Option<String>>,
    EngineError,
>)
    ensures
        gather_of(lookup.deep_view(), index_view(indices@), r),
{
    let n: usize = indices.len();
    let len: usize = lookup.len();
    let ghost entries = lookup.deep_view();
    let ghost positions = index_view(indices@);
    let mut out: Vec<Option<String>> = Vec::with_capacity(n);
    let mut row: usize = 0;
    while row < n
        invariant
            row <= n,
            n == indices@.len(),
            len == lookup@.len(),
            entries == lookup.deep_view(),
            positions == index_view(indices@),
            out@.len() == row,
            forall|k: int| 0 <= k < row ==> !miss_flags(positions, entries.len())[k],
            forall|k: int|
                0 <= k < row ==> (#[trigger] out@[k]).deep_view() == gathered(entries, positions)[k],
        decreases n - row,
    {
        let cell: Option<String> = match indices[row] {
            Some(index) => {
                if index as usize >= len {
                    proof {
                        lemma_first_set_at(miss_flags(positions, entries.len()), row as int);
                    }
                    return Err(
                        EngineError::ComputeError(
                            ComputeFault::IndexOutOfBounds { row, index, len },
                        ),
                    );
                }
                lookup[index as usize].clone()
            },
            None => None,
        };
        out.push(cell);
        row += 1;
    }
    proof {
        lemma_first_set_absent(miss_flags(positions, entries.len()));
        assert(out.deep_view() == gathered(entries, positions));
    }
    Ok(out)
}

/// What `multi_index` returns for an index column and a dictionary column.
pub open spec fn multi_index_of(
    index_column: Column,
    lookup_column: Column,
    r: Result<Vec<Option<String>>, EngineError>,
) -> bool {
    if !(lookup_column.element_type() is Utf8) {
        r == Err::<Vec<Option<String>>, EngineError>(
            EngineError::ComputeError(
                ComputeFault::WrongColumnType { column: 1, actual: lookup_column.element_type() },
            ),
        )
    } else if !is_index_type(index_column.element_type()) {
        r == Err::<Vec<Option<String>>, EngineError>(
            EngineError::ComputeError(
                ComputeFault::UnsupportedType { dtype: index_column.element_type() },
            ),
        )
    } else {
        gather_of(entries_of(lookup_column), positions_of(index_column), r)
    }
}

/// Looks every row of `index_column` up in the dictionary `lookup_column`.
///
/// The dictionary must hold strings, else the call fails with
/// `WrongColumnType` for column 1. The index column must hold 32-bit or
/// 64-bit signed or 32-bit unsigned integers, else the call fails with
/// `UnsupportedType`. A null position gives a null; any other position is
/// narrowed to 32 bits and must then lie inside the dictionary, else the call
/// fails with `IndexOutOfBounds` for the first such row.
pub fn multi_index(index_column: &Column, lookup_column: &Column) -> (r: Result<
    Vec<Option<String>>,
    EngineError,
>)
    ensures
        multi_index_of(*index_column, *lookup_column, r),
{
    let lookup: &Vec<Option<String>> = match lookup_column {
        Column::Utf8(entries) => entries,
        other => {
            return Err(
                EngineError::ComputeError(
                    ComputeFault::WrongColumnType { column: 1, actual: other.dtype() },
                ),
            );
        },
    };
    assert(lookup.deep_view() == entries_of(*lookup_column));
    match index_column {
        Column::UInt32(indices) => {
            assert(index_view(indices@) == positions_of(*index_column)) by {
                assert forall|r: int| 0 <= r < indices@.len() implies index_view(indices@)[r]
                    == positions_of(*index_column)[r] by {
                    if let Some(v) = indices@[r] {
                        assert(gather_index(v as int) == v);
                    }
                }
            }
            take(lookup, indices)
        },
        Column::Int32(indices) => {
            let narrowed = narrow_i32(indices);
            assert(index_view(narrowed@) == positions_of(*index_column));
            take(lookup, &narrowed)
        },
        Column::Int64(indices) => {
            let narrowed = narrow_i64(indices);
            assert(index_view(narrowed@) == positions_of(*index_column));
            take(lookup, &narrowed)
        },
        other => Err(
            EngineError::ComputeError(ComputeFault::UnsupportedType { dtype: other.dtype() }),
        ),
    }
}

} // verus!
