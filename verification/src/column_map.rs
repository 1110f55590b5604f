//! A stand-alone column registry that fills and reads rows the caller owns.

use vstd::prelude::*;

use crate::cell_value::CellValue;
use crate::registry::Registry;
use crate::specs::{filled_to, names_after_add, names_after_add_all, row_view};

verus! {

/// The failures a [`ColumnMap`] reports. Both are ordinary, recoverable
/// results: no operation panics.
#[derive(Clone, Copy, Debug, PartialEq, Eq, Structural)]
pub enum ColumnMapErrors {
    /// The supplied column name was never registered.
    InvalidColumnName,
    /// A read resolved to a column index beyond the target row's filled length.
    NoDataSet,
}

impl ColumnMapErrors {
    /// A short description of the failure.
    pub fn message(&self) -> (r: &'static str)
        ensures
            r@ == match self {
                ColumnMapErrors::InvalidColumnName => "Column name does not exist"@,
                ColumnMapErrors::NoDataSet => "No data is set"@,
            },
    {
        match self {
            ColumnMapErrors::InvalidColumnName => "Column name does not exist",
            ColumnMapErrors::NoDataSet => "No data is set",
        }
    }
}

/// An append-only, insertion-ordered registry of column names, together with
/// name-addressed writes and reads into rows the caller owns.
pub struct ColumnMap {
    columns: Registry,
}

impl ColumnMap {
    /// The registered column names, in index order.
    pub closed spec fn col_names(&self) -> Seq<Seq<char>> {
        self.columns.names()
    }

    /// Internal consistency of the registry.
    pub closed spec fn wf(&self) -> bool {
        self.columns.wf()
    }

    /// Makes an empty registry.
    pub fn new() -> (c: Self)
        ensures
            c.wf(),
            c.col_names() == Seq::<Seq<char>>::empty(),
    {
        Self { columns: Registry::new() }
    }

    /// The registered column names in index order, suitable as a header row.
    pub fn get_columns(&self) -> (r: Vec<String>)
        ensures
            r@.len() == self.col_names().len(),
            forall|i: int| 0 <= i < r@.len() ==> r@[i]@ == self.col_names()[i],
    {
        self.columns.names_vec()
    }

    /// Registers `col_name` if absent, assigning it the next free index; a
    /// no-op for a name already registered. Never fails and never reassigns
    /// an existing index.
    pub fn add_column(&mut self, col_name: &str)
        requires
            old(self).wf(),
        ensures
            final(self).wf(),
            final(self).col_names() == names_after_add(old(self).col_names(), col_name@),
    {
        self.columns.add(col_name);
    }

    /// Registers each name of `cols` in order; the order determines index
    /// assignment for any names not already present.
    pub fn add_columns(&mut self, cols: Vec<&str>)
        requires
            old(self).wf(),
        ensures
            final(self).wf(),
            final(self).col_names() == names_after_add_all(
                old(self).col_names(),
                cols@.map(|i: int, s: &str| s@),
            ),
    {
        let ghost all = cols@.map(|i: int, s: &str| s@);
        proof {
            assert(all.skip(0) =~= all);
        }
        let mut k: usize = 0;
        while k < cols.len()
            invariant
                self.wf(),
                k <= cols.len(),
                all == cols@.map(|i: int, s: &str| s@),
                names_after_add_all(self.col_names(), all.skip(k as int)) == names_after_add_all(
                    old(self).col_names(),
                    all,
                ),
            decreases cols.len() - k,
        {
            let ghost pre = self.col_names();
            let ghost rest = all.skip(k as int);
            self.add_column(cols[k]);
            proof {
                assert(rest[0] == all[k as int]);
                assert(rest.drop_first() =~= all.skip(k as int + 1));
                assert(names_after_add_all(pre, rest) == names_after_add_all(
                    names_after_add(pre, all[k as int]),
                    all.skip(k as int + 1),
                ));
            }
            k = k + 1;
        }
        proof {
            assert(all.skip(cols@.len() as int) =~= Seq::<Seq<char>>::empty());
        }
    }

    fn fill_row<T: CellValue>(target: &mut Vec<T>, n: usize)
        ensures
            row_view(final(target)@) == filled_to(
                row_view(old(target)@),
                n as int,
                T::default_view(),
            ),
    {
        let ghost orig = target@;
        while target.len() < n
            invariant
                orig.len() <= target@.len() <= (if orig.len() >= n {
                    orig.len() as int
                } else {
                    n as int
                }),
                forall|j: int| 0 <= j < orig.len() ==> target@[j] == orig[j],
                forall|j: int|
                    orig.len() <= j < target@.len() ==> (#[trigger] target@[j])@
                        == T::default_view(),
            decreases n - target@.len(),
        {
            target.push(T::default_value());
        }
        proof {
            assert(row_view(target@) =~= filled_to(row_view(orig), n as int, T::default_view()));
        }
    }

    /// Writes `value` at the index `col_name` resolves to, first growing the
    /// row with defaults up to the current column count. Fails with
    /// `InvalidColumnName`, and changes nothing, exactly when the name was
    /// never registered.
    pub fn insert<T: CellValue>(&self, target: &mut Vec<T>, col_name: &str, value: T) -> (r:
        Result<(), ColumnMapErrors>)
        requires
            self.wf(),
        ensures
            match r {
                Ok(_) => self.col_names().contains(col_name@) && row_view(final(target)@)
                    == filled_to(
                    row_view(old(target)@),
                    self.col_names().len() as int,
                    T::default_view(),
                ).update(self.col_names().index_of(col_name@), value@),
                Err(e) => e == ColumnMapErrors::InvalidColumnName && !self.col_names().contains(
                    col_name@,
                ) && final(target)@ == old(target)@,
            },
    {
        let index = match self.columns.lookup(col_name) {
            None => {
                return Err(ColumnMapErrors::InvalidColumnName);
            },
            Some(i) => i,
        };
        self.fill_to_end(target);
        let ghost filled = row_view(target@);
        proof {
            assert(filled.len() == target@.len());
            assert(filled.len() >= self.col_names().len());
        }
        target[index] = value;
        proof {
            assert(row_view(target@) =~= filled.update(index as int, value@));
        }
        Ok(())
    }

    /// Grows `target` with default values up to the current column count,
    /// touching no cell already present. Idempotent.
    pub fn fill_to_end<T: CellValue>(&self, target: &mut Vec<T>)
        ensures
            row_view(final(target)@) == filled_to(
                row_view(old(target)@),
                self.col_names().len() as int,
                T::default_view(),
            ),
    {
        let n = self.columns.count();
        Self::fill_row(target, n);
    }

    /// Reads the slot `col_name` resolves to out of `target`. Fails with
    /// `InvalidColumnName` for an unregistered name, and with `NoDataSet`
    /// when the resolved index lies beyond the row's filled length.
    pub fn get<T: CellValue>(&self, target: &Vec<T>, col_name: &str) -> (r: Result<
        T,
        ColumnMapErrors,
    >)
        requires
            self.wf(),
        ensures
            match r {
                Ok(v) => self.col_names().contains(col_name@) && self.col_names().index_of(
                    col_name@,
                ) < target@.len() && v@ == row_view(target@)[self.col_names().index_of(col_name@)],
                Err(e) => match e {
                    ColumnMapErrors::InvalidColumnName => !self.col_names().contains(col_name@),
                    ColumnMapErrors::NoDataSet => self.col_names().contains(col_name@)
                        && self.col_names().index_of(col_name@) >= target@.len(),
                },
            },
    {
        let index = match self.columns.lookup(col_name) {
            None => {
                return Err(ColumnMapErrors::InvalidColumnName);
            },
            Some(i) => i,
        };
        if index >= target.len() {
            return Err(ColumnMapErrors::NoDataSet);
        }
        Ok(target[index].dup())
    }
}

} // verus!
