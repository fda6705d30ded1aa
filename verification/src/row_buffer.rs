//! A staging buffer for the strings of one row, kept on the stack while the
//! row is short.
//!
//! The buffer is a `smallvec::SmallVec`. Nothing in this file is proved: the
//! contracts below state what `smallvec` documents of the calls they wrap,
//! and the proofs of the collation rest on them.
use smallvec::SmallVec;
use vstd::prelude::*;

verus! {

/// The strings gathered for the row being built: a `smallvec::SmallVec` of
/// borrowed strings that stays inline up to 128 entries and moves to the heap
/// beyond that.
#[verifier::external_body]
pub struct RowBuffer<'a> {
    items: SmallVec<[&'a str; 128]>,
}

/// The strings a buffer holds, oldest first.
pub uninterp spec fn staged(buffer: RowBuffer) -> Seq<Seq<char>>;

/// Assumed of `SmallVec::new`: the new buffer holds nothing.
#[verifier::external_body]
pub(crate) fn staging_new<'a>() -> (buffer: RowBuffer<'a>)
    ensures
        staged(buffer) == Seq::<Seq<char>>::empty(),
{
    RowBuffer { items: SmallVec::new() }
}

/// Assumed of `SmallVec::clear`: afterwards the buffer holds nothing.
#[verifier::external_body]
pub(crate) fn staging_clear<'a>(buffer: &mut RowBuffer<'a>)
    ensures
        staged(*final(buffer)) == Seq::<Seq<char>>::empty(),
{
    buffer.items.clear()
}

/// Assumed of `SmallVec::push`: afterwards the buffer holds what it held
/// before, followed by `item`. Growth past the inline storage allocates, as
/// `Vec::push` does.
#[verifier::external_body]
pub(crate) fn staging_push<'a>(buffer: &mut RowBuffer<'a>, item: &'a str)
    ensures
        staged(*final(buffer)) == staged(*old(buffer)).push(item@),
{
    buffer.items.push(item)
}

/// Assumed of `SmallVec::as_slice`: the slice holds what the buffer holds,
/// in the same order. Each string is copied into an owned one; the buffer
/// keeps its contents.
#[verifier::external_body]
pub(crate) fn staging_row<'a>(buffer: &RowBuffer<'a>) -> (row: Vec<String>)
    ensures
        row.deep_view() == staged(*buffer),
{
    buffer.items.as_slice().iter().map(|s| s.to_string()).collect()
}

} // verus!
