//! Row-wise reductions over tables of parallel, nullable columns.
//!
//! A [`table::Table`] is an ordered list of [`column::Column`]s of one common
//! length. Every operation reads the table at a fixed row across its columns
//! and produces one result per row:
//!
//! - [`extremum`]: the position, or the name, of the column that holds the
//!   largest or the smallest value of the row;
//! - [`extreme_mask`]: the same along a single column, as a boolean mask;
//! - [`null_locator`]: the position of the first null cell of the row;
//! - [`bool_locator`]: the position of the first true cell of the row, and
//!   the positions of all of them;
//! - [`collapse`]: the strings of the row as a list, with nulls skipped or
//!   ending the list;
//! - [`multi_index`]: the entry of a string dictionary that the row selects.
//!
//! Operations never change their inputs. They return either a complete result
//! or an [`error::EngineError`], and each contract says which of the two on
//! which input. The contracts are stated over the specification functions
//! that stand beside each operation; the laws that hold of those functions
//! are the public `lemma_` functions of each module.
pub mod bool_locator;
pub mod collapse;
pub mod column;
pub mod error;
pub mod extreme_mask;
pub mod extremum;
pub mod float_bits;
pub mod multi_index;
pub mod null_locator;
pub mod row_buffer;
pub mod scalar;
pub mod select;
pub mod table;
