//! An earlier spelling of the stand-alone column registry, kept with the
//! same behaviour as [`crate::column_map::ColumnMap`].

use vstd::prelude::*;

use crate::cell_value::CellValue;
use crate::column_map::{ColumnMap, ColumnMapErrors};
use crate::specs::{filled_to, names_after_add, names_after_add_all, row_view};

verus! {

/// The failures a [`ColumnMapper`] reports. Both are ordinary, recoverable
/// results: no operation panics.
#[derive(Clone, Copy, Debug, PartialEq, Eq, Structural)]
pub enum ColMapperErrors {
    /// The supplied column name was never registered.
    InvalidColumnName,
    /// A read resolved to a column index beyond the target row's filled length.
    NoDataSet,
}

impl ColMapperErrors {
    /// A short description of the failure.
    pub fn message(&self) -> (r: &'static str)
        ensures
            r@ == match self {
                ColMapperErrors::InvalidColumnName => "Column name does not exist"@,
                ColMapperErrors::NoDataSet => "No data is set"@,
            },
    {
        match self {
            ColMapperErrors::InvalidColumnName => "Column name does not exist",
            ColMapperErrors::NoDataSet => "No data is set",
        }
    }
}

/// An append-only, insertion-ordered registry of column names, together with
/// name-addressed writes and reads into rows the caller owns.
pub struct ColumnMapper {
    inner: ColumnMap,
}

impl ColumnMapper {
    /// The registered column names, in index order.
    pub closed spec fn col_names(&self) -> Seq<Seq<char>> {
        self.inner.col_names()
    }

    /// Internal consistency of the registry.
    pub closed spec fn wf(&self) -> bool {
        self.inner.wf()
    }

    /// Makes an empty registry.
    pub fn new() -> (c: Self)
        ensures
            c.wf(),
            c.col_names() == Seq::<Seq<char>>::empty(),
    {
        Self { inner: ColumnMap::new() }
    }

    /// The registered column names in index order, suitable as a header row.
    pub fn get_columns(&self) -> (r: Vec<String>)
        ensures
            r@.len() == self.col_names().len(),
            forall|i: int| 0 <= i < r@.len() ==> r@[i]@ == self.col_names()[i],
    {
        self.inner.get_columns()
    }

    /// Registers `col_name` if absent, assigning it the next free index; a
    /// no-op for a name already registered. Never fails and never reassigns
    /// an existing index.
    pub fn add_column(&mut self, col_name: &str)
        requires
            old(self).wf(),
        ensures
            final(self).wf(),
            final(self).col_names() == names_after_add(old(self).col_names(), col_name@),
    {
        self.inner.add_column(col_name);
    }

    /// Registers each name of `cols` in order; the order determines index
    /// assignment for any names not already present.
    pub fn add_columns(&mut self, cols: Vec<&str>)
        requires
            old(self).wf(),
        ensures
            final(self).wf(),
            final(self).col_names() == names_after_add_all(
                old(self).col_names(),
                cols@.map(|i: int, s: &str| s@),
            ),
    {
        self.inner.add_columns(cols);
    }

    /// Writes `value` at the index `col_name` resolves to, first growing the
    /// row with defaults up to the current column count. Fails with
    /// `InvalidColumnName`, and changes nothing, exactly when the name was
    /// never registered.
    pub fn insert<T: CellValue>(&self, target: &mut Vec<T>, col_name: &str, value: T) -> (r:
        Result<(), ColMapperErrors>)
        requires
            self.wf(),
        ensures
            match r {
                Ok(_) => self.col_names().contains(col_name@) && row_view(final(target)@)
                    == filled_to(
                    row_view(old(target)@),
                    self.col_names().len() as int,
                    T::default_view(),
                ).update(self.col_names().index_of(col_name@), value@),
                Err(e) => e == ColMapperErrors::InvalidColumnName && !self.col_names().contains(
                    col_name@,
                ) && final(target)@ == old(target)@,
            },
    {
        match self.inner.insert(target, col_name, value) {
            Ok(_) => Ok(()),
            Err(ColumnMapErrors::InvalidColumnName) => Err(ColMapperErrors::InvalidColumnName),
            Err(ColumnMapErrors::NoDataSet) => Err(ColMapperErrors::NoDataSet),
        }
    }

    /// Grows `target` with default values up to the current column count,
    /// touching no cell already present. Idempotent.
    pub fn fill_to_end<T: CellValue>(&self, target: &mut Vec<T>)
        ensures
            row_view(final(target)@) == filled_to(
                row_view(old(target)@),
                self.col_names().len() as int,
                T::default_view(),
            ),
    {
        self.inner.fill_to_end(target);
    }

    /// Reads the slot `col_name` resolves to out of `target`. Fails with
    /// `InvalidColumnName` for an unregistered name, and with `NoDataSet`
    /// when the resolved index lies beyond the row's filled length.
    pub fn get<T: CellValue>(&self, target: &Vec<T>, col_name: &str) -> (r: Result<
        T,
        ColMapperErrors,
    >)
        requires
            self.wf(),
        ensures
            match r {
                Ok(v) => self.col_names().contains(col_name@) && self.col_names().index_of(
                    col_name@,
                ) < target@.len() && v@ == row_view(target@)[self.col_names().index_of(col_name@)],
                Err(e) => match e {
                    ColMapperErrors::InvalidColumnName => !self.col_names().contains(col_name@),
                    ColMapperErrors::NoDataSet => self.col_names().contains(col_name@)
                        && self.col_names().index_of(col_name@) >= target@.len(),
                },
            },
    {
        match self.inner.get(target, col_name) {
            Ok(v) => Ok(v),
            Err(ColumnMapErrors::InvalidColumnName) => Err(ColMapperErrors::InvalidColumnName),
            Err(ColumnMapErrors::NoDataSet) => Err(ColMapperErrors::NoDataSet),
        }
    }
}

} // verus!
