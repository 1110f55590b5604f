//! The mathematical model of the table: what registration, filling, writing
//! and updating do to the column list and the row sequence, together with the
//! laws that hold of them.

use vstd::prelude::*;

use crate::cell_value::CellValue;

verus! {

/// The view of one row: each cell's view, in column order.
pub open spec fn row_view<T: CellValue>(r: Seq<T>) -> Seq<T::V> {
    r.map(|j: int, v: T| v@)
}

/// `row` grown with copies of `d` until it holds `n` slots; a row already
/// holding `n` slots or more is unchanged.
pub open spec fn filled_to<V>(row: Seq<V>, n: int, d: V) -> Seq<V> {
    if row.len() >= n {
        row
    } else {
        row + Seq::new((n - row.len()) as nat, |i: int| d)
    }
}

/// The column list after one registration: an absent name goes in at the end;
/// a present one changes nothing.
pub open spec fn names_after_add(names: Seq<Seq<char>>, name: Seq<char>) -> Seq<Seq<char>> {
    if names.contains(name) {
        names
    } else {
        names.push(name)
    }
}

/// The column list after registering each of `new_names`, in the given order.
pub open spec fn names_after_add_all(
    names: Seq<Seq<char>>,
    new_names: Seq<Seq<char>>,
) -> Seq<Seq<char>>
    decreases new_names.len(),
{
    if new_names.len() == 0 {
        names
    } else {
        names_after_add_all(names_after_add(names, new_names[0]), new_names.drop_first())
    }
}

/// The row sequence after a fill of the current row: a table still without
/// rows first gains one empty row, and the last row is grown with `d` up to
/// `ncols` slots.
pub open spec fn rows_after_fill<V>(rows: Seq<Seq<V>>, ncols: int, d: V) -> Seq<Seq<V>> {
    let base = if rows.len() == 0 {
        rows.push(Seq::<V>::empty())
    } else {
        rows
    };
    base.update(base.len() - 1, filled_to(base.last(), ncols, d))
}

/// The row sequence after a write of `v` at column `idx` of the current row:
/// the current row is first filled to `ncols` slots (created first if no row
/// exists), then overwritten at `idx`.
pub open spec fn rows_after_insert<V>(
    rows: Seq<Seq<V>>,
    idx: int,
    ncols: int,
    v: V,
    d: V,
) -> Seq<Seq<V>> {
    let base = rows_after_fill(rows, ncols, d);
    base.update(base.len() - 1, base.last().update(idx, v))
}

/// The row sequence after an update of row `r` at column `idx`: a slot within
/// the row's length is overwritten; one beyond it leaves the table unchanged.
pub open spec fn rows_after_update<V>(rows: Seq<Seq<V>>, r: int, idx: int, v: V) -> Seq<Seq<V>> {
    if 0 <= idx < rows[r].len() {
        rows.update(r, rows[r].update(idx, v))
    } else {
        rows
    }
}

/// Registering a name is idempotent: a second registration of the same name
/// changes nothing, and no registration ever disturbs an index that already
/// resolves.
pub proof fn lemma_add_column_idempotent(names: Seq<Seq<char>>, name: Seq<char>)
    ensures
        names_after_add(names_after_add(names, name), name) == names_after_add(names, name),
        forall|i: int| 0 <= i < names.len() ==> names_after_add(names, name)[i] == names[i],
{
    if !names.contains(name) {
        assert(names.push(name)[names.len() as int] == name);
        assert(names.push(name).contains(name));
    }
}

/// Column order is first-registration order: a registration leaves every name
/// already present in its place, so the old column list is a prefix of the
/// new one.
pub proof fn lemma_registration_preserves_order(names: Seq<Seq<char>>, name: Seq<char>)
    ensures
        names.is_prefix_of(names_after_add(names, name)),
{
    if !names.contains(name) {
        assert(names =~= names.push(name).subrange(0, names.len() as int));
    } else {
        assert(names =~= names.subrange(0, names.len() as int));
    }
}

/// Writing a registered column of the current row and then reading the same
/// column of that row back yields exactly the written value.
pub proof fn lemma_insert_then_get<V>(rows: Seq<Seq<V>>, idx: int, ncols: int, v: V, d: V)
    requires
        0 <= idx < ncols,
    ensures
        rows_after_insert(rows, idx, ncols, v, d).len() > 0,
        idx < rows_after_insert(rows, idx, ncols, v, d).last().len(),
        rows_after_insert(rows, idx, ncols, v, d).last()[idx] == v,
{
    let base = rows_after_fill(rows, ncols, d);
    assert(base.len() > 0);
    assert(base.last().len() >= ncols);
    let result = rows_after_insert(rows, idx, ncols, v, d);
    assert(result.last() == base.last().update(idx, v));
}

/// A write into the current row touches no sealed row: when a row exists, the
/// write neither adds nor removes rows, and every row but the last keeps its
/// value.
pub proof fn lemma_insert_preserves_sealed_rows<V>(
    rows: Seq<Seq<V>>,
    idx: int,
    ncols: int,
    v: V,
    d: V,
)
    requires
        rows.len() > 0,
    ensures
        rows_after_insert(rows, idx, ncols, v, d).len() == rows.len(),
        forall|r: int|
            0 <= r < rows.len() - 1 ==> rows_after_insert(rows, idx, ncols, v, d)[r] == rows[r],
{
}

/// An update never grows a row: every row keeps its length, and an update
/// aimed beyond the target row's filled length changes nothing at all.
pub proof fn lemma_update_never_grows<V>(rows: Seq<Seq<V>>, r: int, idx: int, v: V)
    requires
        0 <= r < rows.len(),
    ensures
        rows_after_update(rows, r, idx, v).len() == rows.len(),
        forall|k: int|
            0 <= k < rows.len() ==> rows_after_update(rows, r, idx, v)[k].len() == rows[k].len(),
        idx >= rows[r].len() ==> rows_after_update(rows, r, idx, v) == rows,
{
    let out = rows_after_update(rows, r, idx, v);
    assert forall|k: int| 0 <= k < rows.len() implies out[k].len() == rows[k].len() by {
        if 0 <= idx < rows[r].len() {
            if k == r {
                assert(out[k] == rows[r].update(idx, v));
            } else {
                assert(out[k] == rows[k]);
            }
        }
    }
}

/// Filling the current row to the column count is idempotent.
pub proof fn lemma_fill_idempotent<V>(rows: Seq<Seq<V>>, ncols: int, d: V)
    ensures
        rows_after_fill(rows_after_fill(rows, ncols, d), ncols, d) == rows_after_fill(
            rows,
            ncols,
            d,
        ),
{
    let once = rows_after_fill(rows, ncols, d);
    assert(once.len() > 0);
    assert(filled_to(once.last(), ncols, d) == once.last());
    assert(rows_after_fill(once, ncols, d) =~= once);
}

} // verus!
