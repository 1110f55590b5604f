//! The contract a stored value type must meet: a well-defined empty value
//! for gap-filling, and duplication that keeps the value's view.

use vstd::prelude::*;

verus! {

/// A value that can stand in a table cell.
///
/// The table's contracts speak of cells through their views, so a type brings
/// three things: the view of its default (the value that fills never-written
/// slots), a way to make a fresh default, and a way to duplicate a value.
pub trait CellValue: View + Sized {
    /// The view of the default value that fills never-written cells.
    spec fn default_view() -> Self::V;

    /// A fresh default value.
    fn default_value() -> (r: Self)
        ensures
            r@ == Self::default_view(),
    ;

    /// A duplicate of this value.
    fn dup(&self) -> (r: Self)
        ensures
            r@ == self@,
    ;
}

impl CellValue for String {
    open spec fn default_view() -> Seq<char> {
        Seq::empty()
    }

    fn default_value() -> (r: Self) {
        let r = String::new();
        proof {
            assert(r@ =~= Seq::<char>::empty());
        }
        r
    }

    fn dup(&self) -> (r: Self) {
        self.clone()
    }
}

impl<'a> CellValue for &'a str {
    open spec fn default_view() -> Seq<char> {
        Seq::empty()
    }

    fn default_value() -> (r: Self) {
        let r = "";
        proof {
            reveal_strlit("");
            assert(r@ =~= Seq::<char>::empty());
        }
        r
    }

    fn dup(&self) -> (r: Self) {
        *self
    }
}

impl CellValue for u64 {
    open spec fn default_view() -> u64 {
        0
    }

    fn default_value() -> (r: Self) {
        0
    }

    fn dup(&self) -> (r: Self) {
        *self
    }
}

} // verus!
