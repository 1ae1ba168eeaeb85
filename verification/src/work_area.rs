//! The per-batch execution context: the computed column of every
//! expression index evaluated so far, dispensed by index to later
//! evaluators.

use vstd::prelude::*;

use crate::column::Column;
use crate::column::ColumnV;

verus! {

broadcast use vstd::std_specs::vec::group_vec_axioms, vstd::seq::group_seq_axioms;

/// The views of a list of columns.
pub open spec fn cols_view(cs: Seq<Column>) -> Seq<ColumnV> {
    cs.map_values(|c: Column| crate::column::column_view(c))
}

/// The execution context of one batch: populated strictly in index order,
/// discarded at the end of the batch. Never shared across concurrent
/// evaluations.
pub struct WorkArea {
    columns: Vec<Column>,
}

impl WorkArea {
    /// The columns recorded so far, in index order.
    pub closed spec fn columns_spec(&self) -> Seq<ColumnV> {
        cols_view(self.columns@)
    }

    /// An empty context for a new batch.
    pub fn new() -> (r: WorkArea)
        ensures
            r.columns_spec() == Seq::<ColumnV>::empty(),
    {
        let w = WorkArea { columns: Vec::new() };
        proof {
            assert(w.columns_spec() =~= Seq::<ColumnV>::empty());
        }
        w
    }

    /// How many expression indices have a recorded column.
    pub fn len(&self) -> (r: usize)
        ensures
            r == self.columns_spec().len(),
    {
        self.columns.len()
    }

    /// Store the column of expression `index`, exactly once per batch and
    /// strictly in index order: re-recording an index is a defect, so the
    /// caller must hand exactly the next index.
    pub fn record(&mut self, index: usize, column: Column)
        requires
            index == old(self).columns_spec().len(),
        ensures
            final(self).columns_spec() == old(self).columns_spec().push(column@),
    {
        self.columns.push(column);
        proof {
            assert(final(self).columns_spec() =~= old(self).columns_spec().push(column@));
        }
    }

    /// Hand the recorded columns out, in index order, ending the batch.
    pub fn into_columns(self) -> (r: Vec<Column>)
        ensures
            cols_view(r@) == self.columns_spec(),
            r@.len() == self.columns_spec().len(),
    {
        self.columns
    }

    /// The previously recorded column of expression `index`. An index that
    /// was never recorded is a programming-invariant violation upstream
    /// (the topological order was broken), so it is excluded by contract
    /// rather than reported.
    pub fn fetch(&self, index: usize) -> (r: &Column)
        requires
            index < self.columns_spec().len(),
        ensures
            r@ == self.columns_spec()[index as int],
    {
        &self.columns[index]
    }
}

} // verus!
