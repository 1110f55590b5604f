//! Behaviour of the table engine through its public surface.

use table_map::table_map_errors::TableMapErrors;
use table_map::TableMap;

fn s(v: &str) -> String {
    v.to_string()
}

#[test]
fn new_table_is_empty() {
    let tm: TableMap<String> = TableMap::new();
    assert_eq!(tm.num_rows(), 0);
    assert_eq!(tm.num_cols(), 0);
    assert_eq!(tm.current_row_index(), None);
    assert_eq!(tm.get_columns(), Vec::<String>::new());
    assert!(tm.get_current_row().is_err());
}

#[test]
fn re_adding_a_column_changes_nothing() {
    let mut tm: TableMap<String> = TableMap::new();
    tm.add_column("c0");
    tm.add_column("c1");
    let idx0 = tm.get_column_index("c0").unwrap();
    let idx1 = tm.get_column_index("c1").unwrap();
    tm.add_column("c0");
    tm.add_column("c1");
    tm.add_column("c0");
    assert_eq!(tm.get_columns(), vec![s("c0"), s("c1")]);
    assert_eq!(tm.num_cols(), 2);
    assert_eq!(tm.get_column_index("c0").unwrap(), idx0);
    assert_eq!(tm.get_column_index("c1").unwrap(), idx1);
    assert_eq!(idx0, 0);
    assert_eq!(idx1, 1);
}

#[test]
fn columns_keep_first_registration_order() {
    let mut tm: TableMap<String> = TableMap::new();
    tm.add_columns(vec!["c0", "c1", "c2", "c3"]);
    tm.insert("c3", s("late")).unwrap();
    tm.insert("c0", s("early")).unwrap();
    tm.insert("c2", s("middle")).unwrap();
    assert_eq!(tm.get_columns(), vec![s("c0"), s("c1"), s("c2"), s("c3")]);
    tm.add_columns(vec!["c1", "c4", "c0"]);
    assert_eq!(
        tm.get_columns(),
        vec![s("c0"), s("c1"), s("c2"), s("c3"), s("c4")]
    );
}

#[test]
fn insert_then_get_returns_the_written_value() {
    let mut tm: TableMap<String> = TableMap::new();
    tm.add_columns(vec!["c0", "c1"]);
    tm.insert("c1", s("value one")).unwrap();
    assert_eq!(tm.get_column_value("c1").unwrap(), s("value one"));
    tm.insert("c1", s("value two")).unwrap();
    assert_eq!(tm.get_column_value("c1").unwrap(), s("value two"));
}

#[test]
fn unknown_column_is_rejected_everywhere() {
    let mut tm: TableMap<String> = TableMap::new();
    tm.add_column("c0");
    assert_eq!(
        tm.get_column_index("nope").unwrap_err(),
        TableMapErrors::InvalidColumnName
    );
    assert_eq!(
        tm.insert("nope", s("x")).unwrap_err(),
        TableMapErrors::InvalidColumnName
    );
    assert_eq!(
        tm.get_column_value("nope").unwrap_err(),
        TableMapErrors::InvalidColumnName
    );
    assert_eq!(
        tm.get_column_value_by_index(0, "nope").unwrap_err(),
        TableMapErrors::InvalidColumnName
    );
    assert_eq!(
        tm.update_row(0, "nope", s("x")).unwrap_err(),
        TableMapErrors::InvalidColumnName
    );
    assert_eq!(tm.num_rows(), 0);
}

#[test]
fn late_column_reads_no_data_set_until_filled() {
    let mut tm: TableMap<String> = TableMap::new();
    tm.add_columns(vec!["c0", "c1", "c2", "c3"]);
    tm.insert("c0", s("r1d0")).unwrap();
    tm.insert("c2", s("r1d2")).unwrap();
    tm.add_column("c4");
    assert_eq!(
        tm.get_column_value_by_index(0, "c4").unwrap_err(),
        TableMapErrors::NoDataSet
    );
    tm.fill_to_end();
    assert_eq!(tm.get_column_value_by_index(0, "c4").unwrap(), s(""));
}

#[test]
fn advancing_isolates_earlier_rows() {
    let mut tm: TableMap<String> = TableMap::new();
    tm.add_columns(vec!["c0", "c1"]);
    tm.insert("c0", s("r0c0")).unwrap();
    tm.insert("c1", s("r0c1")).unwrap();
    tm.next_row();
    tm.add_columns(vec!["c4", "c5"]);
    tm.insert("c4", s("r1c4")).unwrap();
    tm.insert("c5", s("r1c5")).unwrap();
    assert_eq!(tm.get_column_value_by_index(0, "c0").unwrap(), s("r0c0"));
    assert_eq!(tm.get_column_value_by_index(0, "c1").unwrap(), s("r0c1"));
    assert_eq!(
        tm.get_column_value_by_index(0, "c4").unwrap_err(),
        TableMapErrors::NoDataSet
    );
    assert_eq!(tm.get_column_value_by_index(1, "c4").unwrap(), s("r1c4"));
    assert_eq!(tm.num_rows(), 2);
}

#[test]
fn update_never_grows_a_sealed_row() {
    let mut tm: TableMap<String> = TableMap::new();
    tm.add_columns(vec!["c0", "c1"]);
    tm.insert("c0", s("r0c0")).unwrap();
    tm.next_row();
    tm.add_column("c4");
    // Row 0 predates c4: the update is accepted but silently dropped, and the
    // row keeps its length.
    let len_before = tm.get_vec()[0].len();
    assert_eq!(tm.update_row(0, "c4", s("ghost")), Ok(()));
    assert_eq!(tm.get_vec()[0].len(), len_before);
    assert_eq!(
        tm.get_column_value_by_index(0, "c4").unwrap_err(),
        TableMapErrors::NoDataSet
    );
    // A slot that exists is overwritten in place.
    tm.update_row(0, "c0", s("changed")).unwrap();
    assert_eq!(tm.get_column_value_by_index(0, "c0").unwrap(), s("changed"));
    assert_eq!(tm.get_vec()[0].len(), len_before);
}

#[test]
fn end_to_end_scenario() {
    let mut tm: TableMap<String> = TableMap::new();
    tm.add_columns(vec!["c0", "c1", "c2", "c3"]);
    tm.insert("c1", s("Something")).unwrap();
    tm.insert("c3", s("Another thing")).unwrap();
    tm.insert("c2", s("First thing")).unwrap();
    assert_eq!(
        tm.get_vec()[0],
        vec![s(""), s("Something"), s("First thing"), s("Another thing")]
    );
    tm.add_column("c5");
    tm.insert("c0", s("First First thing")).unwrap();
    assert_eq!(
        tm.get_vec()[0],
        vec![
            s("First First thing"),
            s("Something"),
            s("First thing"),
            s("Another thing"),
            s("")
        ]
    );
}

#[test]
fn row_index_out_of_range_is_rejected() {
    let mut tm: TableMap<String> = TableMap::new();
    tm.add_column("c0");
    assert_eq!(
        tm.update_row(0, "c0", s("x")).unwrap_err(),
        TableMapErrors::InvalidRowIndex
    );
    assert_eq!(
        tm.get_column_value_by_index(0, "c0").unwrap_err(),
        TableMapErrors::InvalidRowIndex
    );
    assert_eq!(
        tm.copy_row_at_index(0).unwrap_err(),
        TableMapErrors::InvalidRowIndex
    );
    tm.insert("c0", s("x")).unwrap();
    assert_eq!(
        tm.update_row(1, "c0", s("y")).unwrap_err(),
        TableMapErrors::InvalidRowIndex
    );
}

#[test]
fn copy_row_duplicates_the_current_row() {
    let mut tm: TableMap<String> = TableMap::new();
    tm.add_columns(vec!["c0", "c1"]);
    tm.insert("c0", s("a")).unwrap();
    tm.insert("c1", s("b")).unwrap();
    tm.copy_row();
    assert_eq!(tm.num_rows(), 2);
    assert_eq!(tm.get_column_value_by_index(1, "c0").unwrap(), s("a"));
    // The duplicate is value-wise: changing the copy leaves the source row.
    tm.update_row(1, "c0", s("changed")).unwrap();
    assert_eq!(tm.get_column_value_by_index(0, "c0").unwrap(), s("a"));
    assert_eq!(tm.get_column_value_by_index(1, "c0").unwrap(), s("changed"));
}

#[test]
fn copy_row_at_index_duplicates_that_row() {
    let mut tm: TableMap<String> = TableMap::new();
    tm.add_columns(vec!["c0"]);
    tm.insert("c0", s("first")).unwrap();
    tm.next_row();
    tm.insert("c0", s("second")).unwrap();
    tm.copy_row_at_index(0).unwrap();
    assert_eq!(tm.num_rows(), 3);
    assert_eq!(tm.get_column_value_by_index(2, "c0").unwrap(), s("first"));
    assert_eq!(tm.current_row_index(), Some(2));
}

#[test]
fn fill_to_end_creates_and_pads_the_current_row() {
    let mut tm: TableMap<String> = TableMap::new();
    tm.add_columns(vec!["c0", "c1", "c2"]);
    tm.fill_to_end();
    assert_eq!(tm.num_rows(), 1);
    assert_eq!(tm.get_vec()[0], vec![s(""), s(""), s("")]);
    // Idempotent: filling again changes nothing.
    tm.fill_to_end();
    assert_eq!(tm.num_rows(), 1);
    assert_eq!(tm.get_vec()[0], vec![s(""), s(""), s("")]);
}

#[test]
fn fill_to_end_without_columns_makes_an_empty_row() {
    let mut tm: TableMap<String> = TableMap::new();
    tm.fill_to_end();
    assert_eq!(tm.num_rows(), 1);
    assert_eq!(tm.get_vec()[0], Vec::<String>::new());
}

#[test]
fn next_row_prefills_only_the_new_row() {
    let mut tm: TableMap<String> = TableMap::new();
    tm.add_columns(vec!["c0", "c1"]);
    tm.insert("c0", s("a")).unwrap();
    tm.add_column("c2");
    tm.next_row();
    // The new row spans all three columns; row 0 keeps its two slots.
    assert_eq!(tm.get_vec()[1], vec![s(""), s(""), s("")]);
    assert_eq!(tm.get_vec()[0].len(), 2);
    assert_eq!(tm.current_row_index(), Some(1));
}

#[test]
fn get_current_row_borrows_the_last_row() {
    let mut tm: TableMap<String> = TableMap::new();
    tm.add_column("c0");
    tm.insert("c0", s("a")).unwrap();
    tm.next_row();
    tm.insert("c0", s("b")).unwrap();
    assert_eq!(tm.get_current_row().unwrap(), &vec![s("b")]);
}

#[test]
fn iter_walks_rows_in_insertion_order() {
    let mut tm: TableMap<String> = TableMap::new();
    tm.add_column("c0");
    tm.insert("c0", s("a")).unwrap();
    tm.next_row();
    tm.insert("c0", s("b")).unwrap();
    let rows: Vec<Vec<String>> = tm.iter().cloned().collect();
    assert_eq!(rows, vec![vec![s("a")], vec![s("b")]]);
    // Restartable: a second pass sees the same rows.
    let again: Vec<Vec<String>> = tm.iter().cloned().collect();
    assert_eq!(again, rows);
}

#[test]
fn numeric_cells_default_to_zero() {
    let mut tm: TableMap<u64> = TableMap::new();
    tm.add_columns(vec!["c0", "c1", "c2"]);
    tm.insert("c2", 7).unwrap();
    assert_eq!(tm.get_column_value("c0").unwrap(), 0);
    assert_eq!(tm.get_column_value("c1").unwrap(), 0);
    assert_eq!(tm.get_column_value("c2").unwrap(), 7);
}

#[test]
fn borrowed_str_cells_default_to_empty() {
    let mut tm: TableMap<&str> = TableMap::new();
    tm.add_columns(vec!["c0", "c1"]);
    tm.insert("c1", "there").unwrap();
    assert_eq!(tm.get_column_value("c0").unwrap(), "");
    assert_eq!(tm.get_column_value("c1").unwrap(), "there");
}

#[test]
fn reading_an_empty_table_reports_no_data() {
    let tm: TableMap<String> = TableMap::new();
    let mut tm2: TableMap<String> = TableMap::new();
    tm2.add_column("c0");
    assert_eq!(
        tm2.get_column_value("c0").unwrap_err(),
        TableMapErrors::NoDataSet
    );
    assert!(tm.get_current_row().is_err());
}

#[test]
fn error_messages_describe_each_failure() {
    assert_eq!(
        TableMapErrors::InvalidColumnName.message(),
        "Column name does not exist"
    );
    assert_eq!(TableMapErrors::NoDataSet.message(), "No data is set");
    assert_eq!(TableMapErrors::InvalidRowIndex.message(), "Invalid row index");
}
