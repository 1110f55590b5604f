//! The table engine: an append-only column registry plus an ordered sequence
//! of rows, where each row expands to match the column set known at the
//! moment it is written, and a missing cell reads as a distinct, recoverable
//! condition until an explicit fill resolves it to the type's default.

use vstd::prelude::*;

use crate::cell_value::CellValue;
use crate::registry::Registry;
use crate::specs::{
    filled_to, names_after_add, names_after_add_all, row_view, rows_after_fill, rows_after_insert,
    rows_after_update,
};
use crate::table_map_errors::TableMapErrors;
use vstd::std_specs::iter::IteratorSpec;

verus! {

/// A table whose column set can grow while rows are being written.
///
/// Columns are registered by name and get stable, append-only, zero-based
/// indices; rows are ordered and only ever appended; the last row is the
/// implicit write target of [`TableMap::insert`].
pub struct TableMap<T: CellValue> {
    columns: Registry,
    rows: Vec<Vec<T>>,
}

impl<T: CellValue> TableMap<T> {
    /// The registered column names, in index order.
    pub closed spec fn col_names(&self) -> Seq<Seq<char>> {
        self.columns.names()
    }

    /// The rows, each a sequence of cell views in column order.
    pub closed spec fn rows_view(&self) -> Seq<Seq<T::V>> {
        self.rows@.map(|i: int, r: Vec<T>| row_view(r@))
    }

    /// Internal consistency: the registry is consistent, and no row is longer
    /// than the column count.
    pub closed spec fn wf(&self) -> bool {
        &&& self.columns.wf()
        &&& (forall|r: int|
            0 <= r < self.rows@.len() ==> (#[trigger] self.rows@[r])@.len()
                <= self.columns.names().len())
    }

    /// Makes an empty table: no columns, no rows.
    pub fn new() -> (t: Self)
        ensures
            t.wf(),
            t.col_names() == Seq::<Seq<char>>::empty(),
            t.rows_view() == Seq::<Seq<T::V>>::empty(),
    {
        let t = Self { columns: Registry::new(), rows: Vec::new() };
        proof {
            assert(t.rows_view() =~= Seq::<Seq<T::V>>::empty());
        }
        t
    }

    /// The index of the current row, or nothing while the table has no rows.
    pub fn current_row_index(&self) -> (r: Option<usize>)
        ensures
            r == (if self.rows_view().len() == 0 {
                Option::<usize>::None
            } else {
                Option::<usize>::Some((self.rows_view().len() - 1) as usize)
            }),
    {
        if self.rows.len() == 0 {
            return None;
        }
        Some(self.rows.len() - 1)
    }

    /// The number of rows.
    pub fn num_rows(&self) -> (n: usize)
        ensures
            n == self.rows_view().len(),
    {
        self.rows.len()
    }

    /// The number of registered columns.
    pub fn num_cols(&self) -> (n: usize)
        ensures
            n == self.col_names().len(),
    {
        self.columns.count()
    }

    /// The registered column names in index order, suitable as a header row.
    pub fn get_columns(&self) -> (r: Vec<String>)
        ensures
            r@.len() == self.col_names().len(),
            forall|i: int| 0 <= i < r@.len() ==> r@[i]@ == self.col_names()[i],
    {
        self.columns.names_vec()
    }

    /// The index a column name resolves to, or `InvalidColumnName` for a name
    /// that was never registered.
    pub fn get_column_index(&self, col_name: &str) -> (r: Result<usize, TableMapErrors>)
        requires
            self.wf(),
        ensures
            match r {
                Ok(i) => i < self.col_names().len() && self.col_names()[i as int] == col_name@
                    && self.col_names().index_of(col_name@) == i,
                Err(e) => e == TableMapErrors::InvalidColumnName && !self.col_names().contains(
                    col_name@,
                ),
            },
    {
        match self.columns.lookup(col_name) {
            Some(i) => Ok(i),
            None => Err(TableMapErrors::InvalidColumnName),
        }
    }

    /// Registers `col_name` if absent, assigning it the next free index; a
    /// no-op for a name already registered. Never fails, never reassigns an
    /// existing index, and never touches row data.
    pub fn add_column(&mut self, col_name: &str)
        requires
            old(self).wf(),
        ensures
            final(self).wf(),
            final(self).col_names() == names_after_add(old(self).col_names(), col_name@),
            final(self).rows_view() == old(self).rows_view(),
    {
        self.columns.add(col_name);
        proof {
            assert(final(self).col_names().len() >= old(self).col_names().len());
        }
    }

    /// Registers each name of `cols` in order; the order determines index
    /// assignment for any names not already present.
    pub fn add_columns(&mut self, cols: Vec<&str>)
        requires
            old(self).wf(),
        ensures
            final(self).wf(),
            final(self).col_names() == names_after_add_all(
                old(self).col_names(),
                cols@.map(|i: int, s: &str| s@),
            ),
            final(self).rows_view() == old(self).rows_view(),
    {
        let ghost all = cols@.map(|i: int, s: &str| s@);
        proof {
            assert(all.skip(0) =~= all);
        }
        let mut k: usize = 0;
        while k < cols.len()
            invariant
                old(self).wf(),
                self.wf(),
                k <= cols.len(),
                all == cols@.map(|i: int, s: &str| s@),
                names_after_add_all(self.col_names(), all.skip(k as int)) == names_after_add_all(
                    old(self).col_names(),
                    all,
                ),
                self.rows_view() == old(self).rows_view(),
            decreases cols.len() - k,
        {
            let ghost pre = self.col_names();
            let ghost rest = all.skip(k as int);
            self.add_column(cols[k]);
            proof {
                assert(rest[0] == all[k as int]);
                assert(rest.drop_first() =~= all.skip(k as int + 1));
                assert(names_after_add_all(pre, rest) == names_after_add_all(
                    names_after_add(pre, all[k as int]),
                    all.skip(k as int + 1),
                ));
            }
            k = k + 1;
        }
        proof {
            assert(all.skip(cols@.len() as int) =~= Seq::<Seq<char>>::empty());
        }
    }

    /// Appends a new row, pre-filled with default values for every column
    /// currently registered. The previous row is not grown.
    pub fn next_row(&mut self)
        requires
            old(self).wf(),
        ensures
            final(self).wf(),
            final(self).col_names() == old(self).col_names(),
            final(self).rows_view() == old(self).rows_view().push(
                Seq::new(old(self).col_names().len(), |i: int| T::default_view()),
            ),
    {
        let n = self.columns.count();
        let mut row: Vec<T> = Vec::new();
        while row.len() < n
            invariant
                row@.len() <= n,
                forall|j: int| 0 <= j < row@.len() ==> (#[trigger] row@[j])@ == T::default_view(),
            decreases n - row@.len(),
        {
            row.push(T::default_value());
        }
        self.rows.push(row);
        proof {
            assert(row_view(row@) =~= Seq::new(
                old(self).col_names().len(),
                |i: int| T::default_view(),
            ));
            assert(final(self).rows_view() =~= old(self).rows_view().push(
                Seq::new(old(self).col_names().len(), |i: int| T::default_view()),
            ));
        }
    }

    /// Grows the current row with default values up to the current column
    /// count, touching no cell already present; creates the row first if none
    /// exists yet. Idempotent.
    pub fn fill_to_end(&mut self)
        requires
            old(self).wf(),
        ensures
            final(self).wf(),
            final(self).col_names() == old(self).col_names(),
            final(self).rows_view() == rows_after_fill(
                old(self).rows_view(),
                old(self).col_names().len() as int,
                T::default_view(),
            ),
    {
        if self.rows.len() == 0 {
            self.rows.push(Vec::new());
        }
        let ghost base = self.rows@;
        proof {
            if old(self).rows@.len() == 0 {
                assert(row_view(base.last()@) =~= Seq::<T::V>::empty());
                assert(self.rows_view() =~= old(self).rows_view().push(Seq::<T::V>::empty()));
            }
        }
        let n = self.columns.count();
        let mut row = self.rows.pop().unwrap();
        let ghost orig = row@;
        while row.len() < n
            invariant
                orig.len() <= row@.len() <= (if orig.len() >= n {
                    orig.len() as int
                } else {
                    n as int
                }),
                forall|j: int| 0 <= j < orig.len() ==> row@[j] == orig[j],
                forall|j: int|
                    orig.len() <= j < row@.len() ==> (#[trigger] row@[j])@ == T::default_view(),
            decreases n - row@.len(),
        {
            row.push(T::default_value());
        }
        self.rows.push(row);
        proof {
            assert(row_view(row@) =~= filled_to(
                row_view(orig),
                old(self).col_names().len() as int,
                T::default_view(),
            ));
            assert(self.rows@ =~= base.update(base.len() - 1, row));
            assert(final(self).rows_view() =~= rows_after_fill(
                old(self).rows_view(),
                old(self).col_names().len() as int,
                T::default_view(),
            ));
        }
    }

    /// Writes `value` into the named column of the current row, creating the
    /// row if none exists and growing it with defaults as far as the current
    /// column count first. Fails with `InvalidColumnName`, and changes
    /// nothing, exactly when the name was never registered.
    pub fn insert(&mut self, col_name: &str, value: T) -> (r: Result<(), TableMapErrors>)
        requires
            old(self).wf(),
        ensures
            final(self).wf(),
            final(self).col_names() == old(self).col_names(),
            match r {
                Ok(_) => old(self).col_names().contains(col_name@) && final(self).rows_view()
                    == rows_after_insert(
                    old(self).rows_view(),
                    old(self).col_names().index_of(col_name@),
                    old(self).col_names().len() as int,
                    value@,
                    T::default_view(),
                ),
                Err(e) => e == TableMapErrors::InvalidColumnName && !old(self).col_names().contains(
                    col_name@,
                ) && final(self).rows_view() == old(self).rows_view(),
            },
    {
        let index = match self.get_column_index(col_name) {
            Err(e) => {
                return Err(e);
            },
            Ok(i) => i,
        };
        self.fill_to_end();
        let ghost filled = self.rows_view();
        proof {
            assert(filled.len() == self.rows@.len());
            assert(filled.len() > 0);
            assert(filled.last() == row_view(self.rows@.last()@));
            assert(filled.last().len() >= old(self).col_names().len());
        }
        let mut row = self.rows.pop().unwrap();
        proof {
            assert(row@.len() == filled.last().len());
        }
        row[index] = value;
        self.rows.push(row);
        proof {
            assert(row_view(row@) =~= filled.last().update(index as int, value@));
            assert(final(self).rows_view() =~= filled.update(
                filled.len() - 1,
                filled.last().update(index as int, value@),
            ));
        }
        Ok(())
    }

    fn dup_row(row: &Vec<T>) -> (r: Vec<T>)
        ensures
            row_view(r@) == row_view(row@),
    {
        let mut r: Vec<T> = Vec::new();
        let mut i: usize = 0;
        while i < row.len()
            invariant
                i <= row@.len(),
                r@.len() == i,
                forall|j: int| 0 <= j < i ==> (#[trigger] r@[j])@ == row@[j]@,
            decreases row@.len() - i,
        {
            r.push(row[i].dup());
            i = i + 1;
        }
        proof {
            assert(row_view(r@) =~= row_view(row@));
        }
        r
    }

    /// Appends a value-wise duplicate of the current row. The caller must
    /// ensure a row exists; a table without rows is a precondition violation.
    pub fn copy_row(&mut self)
        requires
            old(self).wf(),
            old(self).rows_view().len() > 0,
        ensures
            final(self).wf(),
            final(self).col_names() == old(self).col_names(),
            final(self).rows_view() == old(self).rows_view().push(old(self).rows_view().last()),
    {
        let last = self.rows.len() - 1;
        let copy = Self::dup_row(&self.rows[last]);
        proof {
            assert(row_view(copy@).len() == copy@.len());
            assert(copy@.len() == self.rows@[last as int]@.len());
        }
        self.rows.push(copy);
        proof {
            assert(final(self).rows_view() =~= old(self).rows_view().push(
                old(self).rows_view().last(),
            ));
        }
    }

    /// Appends a value-wise duplicate of the row at `row_index`; fails with
    /// `InvalidRowIndex`, and changes nothing, exactly when `row_index` is out
    /// of range.
    pub fn copy_row_at_index(&mut self, row_index: usize) -> (r: Result<(), TableMapErrors>)
        requires
            old(self).wf(),
        ensures
            final(self).wf(),
            final(self).col_names() == old(self).col_names(),
            match r {
                Ok(_) => row_index < old(self).rows_view().len() && final(self).rows_view() == old(
                    self,
                ).rows_view().push(old(self).rows_view()[row_index as int]),
                Err(e) => e == TableMapErrors::InvalidRowIndex && row_index >= old(
                    self,
                ).rows_view().len() && final(self).rows_view() == old(self).rows_view(),
            },
    {
        if row_index >= self.rows.len() {
            return Err(TableMapErrors::InvalidRowIndex);
        }
        let copy = Self::dup_row(&self.rows[row_index]);
        proof {
            assert(row_view(copy@).len() == copy@.len());
            assert(copy@.len() == self.rows@[row_index as int]@.len());
        }
        self.rows.push(copy);
        proof {
            assert(final(self).rows_view() =~= old(self).rows_view().push(
                old(self).rows_view()[row_index as int],
            ));
        }
        Ok(())
    }

    /// Reads the named column of the current row. Fails with
    /// `InvalidColumnName` for an unregistered name, and with `NoDataSet`
    /// when no row exists or the resolved index lies beyond the current row's
    /// filled length.
    pub fn get_column_value(&self, col_name: &str) -> (r: Result<T, TableMapErrors>)
        requires
            self.wf(),
        ensures
            match r {
                Ok(v) => self.col_names().contains(col_name@) && self.rows_view().len() > 0
                    && self.col_names().index_of(col_name@) < self.rows_view().last().len() && v@
                    == self.rows_view().last()[self.col_names().index_of(col_name@)],
                Err(e) => match e {
                    TableMapErrors::InvalidColumnName => !self.col_names().contains(col_name@),
                    TableMapErrors::NoDataSet => self.col_names().contains(col_name@) && (
                    self.rows_view().len() == 0 || self.col_names().index_of(col_name@)
                        >= self.rows_view().last().len()),
                    TableMapErrors::InvalidRowIndex => false,
                },
            },
    {
        let index = match self.get_column_index(col_name) {
            Err(e) => {
                return Err(e);
            },
            Ok(i) => i,
        };
        if self.rows.len() == 0 {
            return Err(TableMapErrors::NoDataSet);
        }
        let last = self.rows.len() - 1;
        let row = &self.rows[last];
        proof {
            assert(row_view(row@) == self.rows_view().last());
        }
        if index >= row.len() {
            return Err(TableMapErrors::NoDataSet);
        }
        Ok(row[index].dup())
    }

    /// Reads the named column of the row at `row_index`. Fails with
    /// `InvalidColumnName` for an unregistered name, with `InvalidRowIndex`
    /// for a row index out of range, and with `NoDataSet` when the resolved
    /// column index lies beyond that row's filled length.
    pub fn get_column_value_by_index(&self, row_index: usize, col_name: &str) -> (r: Result<
        T,
        TableMapErrors,
    >)
        requires
            self.wf(),
        ensures
            match r {
                Ok(v) => self.col_names().contains(col_name@) && row_index
                    < self.rows_view().len() && self.col_names().index_of(col_name@)
                    < self.rows_view()[row_index as int].len() && v@
                    == self.rows_view()[row_index as int][self.col_names().index_of(col_name@)],
                Err(e) => match e {
                    TableMapErrors::InvalidColumnName => !self.col_names().contains(col_name@),
                    TableMapErrors::InvalidRowIndex => self.col_names().contains(col_name@)
                        && row_index >= self.rows_view().len(),
                    TableMapErrors::NoDataSet => self.col_names().contains(col_name@) && row_index
                        < self.rows_view().len() && self.col_names().index_of(col_name@)
                        >= self.rows_view()[row_index as int].len(),
                },
            },
    {
        let index = match self.get_column_index(col_name) {
            Err(e) => {
                return Err(e);
            },
            Ok(i) => i,
        };
        if row_index >= self.rows.len() {
            return Err(TableMapErrors::InvalidRowIndex);
        }
        let row = &self.rows[row_index];
        proof {
            assert(row_view(row@) == self.rows_view()[row_index as int]);
        }
        if index >= row.len() {
            return Err(TableMapErrors::NoDataSet);
        }
        Ok(row[index].dup())
    }

    /// A borrow of all rows, in insertion order.
    pub fn get_vec(&self) -> (r: &Vec<Vec<T>>)
        ensures
            r@.len() == self.rows_view().len(),
            forall|i: int|
                0 <= i < r@.len() ==> row_view((#[trigger] r@[i])@) == self.rows_view()[i],
    {
        &self.rows
    }

    /// Overwrites the named column of the row at `row_index` if that slot
    /// exists within the row's filled length; a slot beyond it is silently
    /// dropped, never growing the row. Fails with `InvalidColumnName` for an
    /// unregistered name and with `InvalidRowIndex` for a row index out of
    /// range; either failure changes nothing.
    pub fn update_row(&mut self, row_index: usize, col_name: &str, new_val: T) -> (r: Result<
        (),
        TableMapErrors,
    >)
        requires
            old(self).wf(),
        ensures
            final(self).wf(),
            final(self).col_names() == old(self).col_names(),
            match r {
                Ok(_) => old(self).col_names().contains(col_name@) && row_index < old(
                    self,
                ).rows_view().len() && final(self).rows_view() == rows_after_update(
                    old(self).rows_view(),
                    row_index as int,
                    old(self).col_names().index_of(col_name@),
                    new_val@,
                ),
                Err(e) => final(self).rows_view() == old(self).rows_view() && match e {
                    TableMapErrors::InvalidColumnName => !old(self).col_names().contains(
                        col_name@,
                    ),
                    TableMapErrors::InvalidRowIndex => old(self).col_names().contains(col_name@)
                        && row_index >= old(self).rows_view().len(),
                    TableMapErrors::NoDataSet => false,
                },
            },
    {
        let index = match self.get_column_index(col_name) {
            Err(e) => {
                return Err(e);
            },
            Ok(i) => i,
        };
        if row_index >= self.rows.len() {
            return Err(TableMapErrors::InvalidRowIndex);
        }
        if index < self.rows[row_index].len() {
            let row = &mut self.rows[row_index];
            row[index] = new_val;
            proof {
                assert(row_view(row@) =~= old(self).rows_view()[row_index as int].update(
                    index as int,
                    new_val@,
                ));
                assert(final(self).rows_view() =~= rows_after_update(
                    old(self).rows_view(),
                    row_index as int,
                    index as int,
                    new_val@,
                ));
            }
        } else {
            proof {
                assert(final(self).rows_view() =~= old(self).rows_view());
            }
        }
        Ok(())
    }

    /// A borrow of the current row, or `NoDataSet` while the table has no
    /// rows.
    pub fn get_current_row(&self) -> (r: Result<&Vec<T>, TableMapErrors>)
        ensures
            match r {
                Ok(row) => self.rows_view().len() > 0 && row_view(row@)
                    == self.rows_view().last(),
                Err(e) => e == TableMapErrors::NoDataSet && self.rows_view().len() == 0,
            },
    {
        if self.rows.len() == 0 {
            return Err(TableMapErrors::NoDataSet);
        }
        let last = self.rows.len() - 1;
        Ok(&self.rows[last])
    }

    /// A lazy, restartable iterator over borrows of the rows, in insertion
    /// order.
    pub fn iter(&self) -> (r: std::slice::Iter<'_, Vec<T>>)
        ensures
            r.remaining().len() == self.rows_view().len(),
            forall|i: int|
                0 <= i < r.remaining().len() ==> row_view((#[trigger] r.remaining()[i])@)
                    == self.rows_view()[i],
    {
        let r = self.rows.as_slice().iter();
        proof {
            assert(r.remaining() == self.rows@.as_ref());
        }
        r
    }
}

} // verus!
