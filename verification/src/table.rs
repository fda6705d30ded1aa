//! Tables: ordered columns of one common length.
use crate::column::Column;
use crate::error::{ComputeFault, EngineError};
use crate::select::{first_set, lemma_first_set_absent, lemma_first_set_at, lemma_first_set_cases};
use vstd::prelude::*;

verus! {

/// Largest number of columns a table can hold. Column positions are reported
/// as unsigned and as signed 32-bit values, so they must fit in both.
pub const MAX_COLUMNS: usize = 0x7fff_ffff;

/// Whether all columns have as many rows as the first one.
pub open spec fn rectangular(columns: Seq<Column>) -> bool {
    forall|c: int| 0 <= c < columns.len() ==> (#[trigger] columns[c]).rows() == columns[0].rows()
}

/// Number of rows of a rectangular sequence of columns; zero when there is no column.
pub open spec fn height_of(columns: Seq<Column>) -> nat {
    if columns.len() == 0 {
        0
    } else {
        columns[0].rows()
    }
}

/// For each column, whether its length differs from that of column 0.
pub open spec fn ragged_flags(columns: Seq<Column>) -> Seq<bool> {
    Seq::new(columns.len(), |c: int| columns[c].rows() != columns[0].rows())
}

/// Why the given columns make no table, if they do not: `TooManyColumns`
/// when there are more than [`MAX_COLUMNS`], else `LengthMismatch` for the
/// first column whose length differs from that of column 0.
pub open spec fn table_refusal(columns: Seq<Column>) -> Option<EngineError> {
    if columns.len() > MAX_COLUMNS {
        Some(
            EngineError::ComputeError(
                ComputeFault::TooManyColumns { width: columns.len() as usize },
            ),
        )
    } else {
        match first_set(ragged_flags(columns)) {
            Some(c) => Some(
                EngineError::ComputeError(
                    ComputeFault::LengthMismatch {
                        column: c as usize,
                        expected: columns[0].rows() as usize,
                        found: columns[c].rows() as usize,
                    },
                ),
            ),
            None => None,
        }
    }
}

/// Columns that are not refused number at most [`MAX_COLUMNS`] and are
/// rectangular, and the other way round.
pub proof fn lemma_table_refusal(columns: Seq<Column>)
    ensures
        table_refusal(columns) is None <==> columns.len() <= MAX_COLUMNS && rectangular(columns),
{
    lemma_first_set_cases(ragged_flags(columns));
    if first_set(ragged_flags(columns)) is None {
        assert forall|c: int| 0 <= c < columns.len() implies (#[trigger] columns[c]).rows()
            == columns[0].rows() by {
            assert(!ragged_flags(columns)[c]);
        }
    }
}

/// An ordered list of columns, all of the same length.
#[derive(Debug, PartialEq, Eq)]
pub struct Table {
    columns: Vec<Column>,
}

impl View for Table {
    type V = Seq<Column>;

    closed spec fn view(&self) -> Seq<Column> {
        self.columns@
    }
}

impl Table {
    #[verifier::type_invariant]
    spec fn well_formed(self) -> bool {
        &&& self.columns@.len() <= MAX_COLUMNS
        &&& rectangular(self.columns@)
    }

    /// Makes a table of the given columns, in their order.
    ///
    /// Fails with `TooManyColumns` when there are more than [`MAX_COLUMNS`] of
    /// them, and otherwise with `LengthMismatch`, naming the first column whose
    /// length differs from that of column 0, when there is one.
    pub fn new(columns: Vec<Column>) -> (r: Result<Table, EngineError>)
        ensures
            match table_refusal(columns@) {
                Some(e) => r == Err::<Table, EngineError>(e),
                None => r matches Ok(t) && t@ == columns@,
            },
    {
        let width: usize = columns.len();
        if width > MAX_COLUMNS {
            return Err(EngineError::ComputeError(ComputeFault::TooManyColumns { width }));
        }
        if width > 0 {
            let expected: usize = columns[0].len();
            let mut c: usize = 1;
            while c < width
                invariant
                    1 <= c <= width,
                    width == columns@.len(),
                    width <= MAX_COLUMNS,
                    expected == columns@[0].rows(),
                    forall|k: int| 0 <= k < c ==> (#[trigger] columns@[k]).rows() == expected,
                decreases width - c,
            {
                let found: usize = columns[c].len();
                if found != expected {
                    proof {
                        lemma_first_set_at(ragged_flags(columns@), c as int);
                    }
                    return Err(
                        EngineError::ComputeError(
                            ComputeFault::LengthMismatch { column: c, expected, found },
                        ),
                    );
                }
                c += 1;
            }
        }
        proof {
            lemma_first_set_absent(ragged_flags(columns@));
        }
        Ok(Table { columns })
    }

    /// Number of columns.
    pub fn width(&self) -> (w: usize)
        ensures
            w == self@.len(),
            w <= MAX_COLUMNS,
    {
        proof {
            use_type_invariant(self);
        }
        self.columns.len()
    }

    /// Number of rows; zero for a table without columns.
    pub fn height(&self) -> (h: usize)
        ensures
            h == height_of(self@),
    {
        if self.columns.len() == 0 {
            0
        } else {
            self.columns[0].len()
        }
    }

    /// The columns, in order.
    pub fn columns(&self) -> (columns: &Vec<Column>)
        ensures
            columns@ == self@,
            columns@.len() <= MAX_COLUMNS,
            rectangular(columns@),
    {
        proof {
            use_type_invariant(self);
        }
        &self.columns
    }
}

} // verus!
