use vstd::prelude::*;

verus! {

/// The failures a [`crate::TableMap`] reports. All are ordinary, recoverable
/// results: no table operation panics.
#[derive(Clone, Copy, Debug, PartialEq, Eq, Structural)]
pub enum TableMapErrors {
    /// The supplied column name was never registered.
    InvalidColumnName,
    /// A read resolved to a column index beyond the target row's filled length.
    NoDataSet,
    /// A row index lies outside the current row-count range.
    InvalidRowIndex,
}

impl TableMapErrors {
    /// A short description of the failure.
    pub fn message(&self) -> (r: &'static str)
        ensures
            r@ == match self {
                TableMapErrors::InvalidColumnName => "Column name does not exist"@,
                TableMapErrors::NoDataSet => "No data is set"@,
                TableMapErrors::InvalidRowIndex => "Invalid row index"@,
            },
    {
        match self {
            TableMapErrors::InvalidColumnName => "Column name does not exist",
            TableMapErrors::NoDataSet => "No data is set",
            TableMapErrors::InvalidRowIndex => "Invalid row index",
        }
    }
}

} // verus!
