//! Driving a table from a closed set of symbolic column identifiers rather
//! than raw text.

use table_map::TableMap;

#[derive(Clone, Copy)]
enum Columns {
    Name,
    Address,
}

impl Columns {
    fn as_str(self) -> &'static str {
        match self {
            Columns::Name => "Name",
            Columns::Address => "Address",
        }
    }

    fn all() -> Vec<Columns> {
        vec![Columns::Name, Columns::Address]
    }
}

fn columns(tm: &mut TableMap<String>) {
    tm.add_columns(Columns::all().into_iter().map(|c| c.as_str()).collect());
}

fn ins_str(tm: &mut TableMap<String>, c: Columns, v: &str) {
    tm.insert(c.as_str(), v.to_string()).unwrap();
}

fn upd_str(tm: &mut TableMap<String>, row: usize, col: Columns, val: &str) {
    tm.update_row(row, col.as_str(), val.to_string()).unwrap();
}

#[test]
fn test_adding_column_from_enum() {
    let mut tm: TableMap<String> = TableMap::new();
    columns(&mut tm);
    assert_eq!(
        tm.get_columns(),
        vec!["Name".to_string(), "Address".to_string()]
    );

    ins_str(&mut tm, Columns::Name, "John");
    ins_str(&mut tm, Columns::Address, "Unknown");
    tm.next_row();
    ins_str(&mut tm, Columns::Name, "Doe");
    ins_str(&mut tm, Columns::Name, "Still not known");
    upd_str(&mut tm, 0, Columns::Address, "Searching")
}
