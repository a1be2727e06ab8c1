//! Batches of columns.
use crate::data_type::{DataTypes, VectorValue};
use vstd::prelude::*;

verus! {

/// A column that is decoded when it is first needed.
pub enum LazyBatchColumn<D: DataTypes> {
    /// The encoded values of the rows.
    Raw(Vec<Vec<u8>>),
    /// The decoded column.
    Decoded(VectorValue<D>),
}

impl<D: DataTypes> LazyBatchColumn<D> {
    /// Borrows the decoded column.
    pub fn decoded(&self) -> (column: &VectorValue<D>)
        requires
            *self is Decoded,
        ensures
            *column == self->Decoded_0,
    {
        match self {
            LazyBatchColumn::Decoded(column) => column,
            LazyBatchColumn::Raw(_) => vstd::pervasive::unreached(),
        }
    }
}

/// The columns of a batch, by their offsets.
pub struct LazyBatchColumnVec<D: DataTypes> {
    columns: Vec<LazyBatchColumn<D>>,
}

impl<D: DataTypes> View for LazyBatchColumnVec<D> {
    type V = Seq<LazyBatchColumn<D>>;

    closed spec fn view(&self) -> Seq<LazyBatchColumn<D>> {
        self.columns@
    }
}

impl<D: DataTypes> LazyBatchColumnVec<D> {
    /// The batch of these columns.
    pub fn from(columns: Vec<LazyBatchColumn<D>>) -> (batch: Self)
        ensures
            batch@ == columns@,
    {
        LazyBatchColumnVec { columns }
    }
}

impl<D: DataTypes> std::ops::Index<usize> for LazyBatchColumnVec<D> {
    type Output = LazyBatchColumn<D>;

    fn index(&self, offset: usize) -> (column: &LazyBatchColumn<D>)
        ensures
            *column == self@[offset as int],
    {
        &self.columns[offset]
    }
}

impl<D: DataTypes> vstd::std_specs::core::IndexSpecImpl<usize> for LazyBatchColumnVec<D> {
    open spec fn index_req(&self, offset: &usize) -> bool {
        *offset < self@.len()
    }
}

} // verus!
