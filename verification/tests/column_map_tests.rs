//! Behaviour of the stand-alone registries that write into caller-owned rows.

use table_map::column_map::{ColumnMap, ColumnMapErrors};
use table_map::column_mapper::{ColMapperErrors, ColumnMapper};

fn s(v: &str) -> String {
    v.to_string()
}

#[test]
fn column_map_registers_in_order_and_idempotently() {
    let mut cm = ColumnMap::new();
    cm.add_columns(vec!["col_0", "col_1", "col_2", "col_3"]);
    cm.add_column("col_1");
    cm.add_column("col_0");
    assert_eq!(
        cm.get_columns(),
        vec![s("col_0"), s("col_1"), s("col_2"), s("col_3")]
    );
}

#[test]
fn column_map_insert_fills_and_writes() {
    let mut cm = ColumnMap::new();
    cm.add_columns(vec!["col_0", "col_1", "col_2", "col_3"]);
    let mut row: Vec<String> = vec![];
    cm.insert(&mut row, "col_2", s("third")).unwrap();
    assert_eq!(row, vec![s(""), s(""), s("third"), s("")]);
    cm.insert(&mut row, "col_0", s("first")).unwrap();
    assert_eq!(row, vec![s("first"), s(""), s("third"), s("")]);
}

#[test]
fn column_map_get_round_trips() {
    let mut cm = ColumnMap::new();
    cm.add_columns(vec!["col_0", "col_1"]);
    let mut row: Vec<String> = vec![];
    cm.insert(&mut row, "col_1", s("value")).unwrap();
    assert_eq!(cm.get(&row, "col_1").unwrap(), s("value"));
    assert_eq!(cm.get(&row, "col_0").unwrap(), s(""));
}

#[test]
fn column_map_rejects_unknown_names() {
    let mut cm = ColumnMap::new();
    cm.add_column("col_0");
    let mut row: Vec<String> = vec![];
    assert_eq!(
        cm.insert(&mut row, "nope", s("x")).unwrap_err(),
        ColumnMapErrors::InvalidColumnName
    );
    assert!(row.is_empty());
    assert_eq!(
        cm.get(&row, "nope").unwrap_err(),
        ColumnMapErrors::InvalidColumnName
    );
}

#[test]
fn column_map_reads_short_rows_as_no_data() {
    let mut cm = ColumnMap::new();
    cm.add_columns(vec!["col_0", "col_1", "col_2"]);
    let row: Vec<String> = vec![s("only one")];
    assert_eq!(
        cm.get(&row, "col_1").unwrap_err(),
        ColumnMapErrors::NoDataSet
    );
    assert_eq!(cm.get(&row, "col_0").unwrap(), s("only one"));
}

#[test]
fn column_map_fill_to_end_pads_without_touching() {
    let mut cm = ColumnMap::new();
    cm.add_columns(vec!["col_0", "col_1", "col_2"]);
    let mut row: Vec<String> = vec![s("set")];
    cm.fill_to_end(&mut row);
    assert_eq!(row, vec![s("set"), s(""), s("")]);
    cm.fill_to_end(&mut row);
    assert_eq!(row, vec![s("set"), s(""), s("")]);
}

#[test]
fn column_map_fill_to_end_without_columns_is_a_no_op() {
    let cm = ColumnMap::new();
    let mut row: Vec<String> = vec![s("kept")];
    cm.fill_to_end(&mut row);
    assert_eq!(row, vec![s("kept")]);
}

#[test]
fn column_map_supports_numeric_rows() {
    let mut cm = ColumnMap::new();
    cm.add_columns(vec!["a", "b", "c"]);
    let mut row: Vec<u64> = vec![];
    cm.insert(&mut row, "b", 5).unwrap();
    assert_eq!(row, vec![0, 5, 0]);
    assert_eq!(cm.get(&row, "c").unwrap(), 0);
}

#[test]
fn column_mapper_matches_column_map_behaviour() {
    let mut cm = ColumnMapper::new();
    cm.add_columns(vec!["col_0", "col_1", "col_2", "col_3"]);
    cm.add_column("col_0");
    assert_eq!(
        cm.get_columns(),
        vec![s("col_0"), s("col_1"), s("col_2"), s("col_3")]
    );
    let mut row: Vec<String> = vec![];
    cm.insert(&mut row, "col_1", s("Something")).unwrap();
    cm.insert(&mut row, "col_3", s("more thing")).unwrap();
    assert_eq!(row, vec![s(""), s("Something"), s(""), s("more thing")]);
    assert_eq!(cm.get(&row, "col_3").unwrap(), s("more thing"));
}

#[test]
fn column_mapper_rejects_unknown_names_and_short_rows() {
    let mut cm = ColumnMapper::new();
    cm.add_columns(vec!["col_0", "col_1"]);
    let mut row: Vec<String> = vec![];
    assert_eq!(
        cm.insert(&mut row, "nope", s("x")).unwrap_err(),
        ColMapperErrors::InvalidColumnName
    );
    assert_eq!(
        cm.get(&row, "col_1").unwrap_err(),
        ColMapperErrors::NoDataSet
    );
    cm.fill_to_end(&mut row);
    assert_eq!(cm.get(&row, "col_1").unwrap(), s(""));
}
