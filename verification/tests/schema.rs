use corro_types::columns::ColumnSet;
use corro_types::db::insert_col;
use corro_types::schema::{Column, Generated, Schema, Table};

fn s(x: &str) -> String {
    x.to_string()
}

fn col(name: &str) -> Column {
    Column { name: s(name), generated: None }
}

fn gen_col(name: &str, from: &[&str]) -> Column {
    Column { name: s(name), generated: Some(Generated { from: from.iter().map(|f| s(f)).collect() }) }
}

fn sorted(set: &ColumnSet) -> Vec<String> {
    let mut v = set.names().clone();
    v.sort();
    v
}

fn schema() -> Schema {
    Schema {
        tables: vec![Table {
            name: s("t"),
            columns: vec![col("a"), col("b"), gen_col("ab", &["a", "b"]), gen_col("ab2", &["ab", "a"]), col("c")],
        }],
    }
}

#[test]
fn a_stored_column_is_itself() {
    let sch = schema();
    let mut set = ColumnSet::new();
    insert_col(&mut set, &sch, &s("t"), &s("c"));
    assert_eq!(sorted(&set), vec![s("c")]);
}

#[test]
fn a_generated_column_is_its_sources_recursively() {
    let sch = schema();
    let mut set = ColumnSet::new();
    insert_col(&mut set, &sch, &s("t"), &s("ab2"));
    assert_eq!(sorted(&set), vec![s("a"), s("b")]);
}

#[test]
fn columns_of_unknown_tables_and_names_are_taken_as_they_are() {
    let sch = schema();
    let mut set = ColumnSet::new();
    insert_col(&mut set, &sch, &s("nope"), &s("ab"));
    insert_col(&mut set, &sch, &s("t"), &s("zz"));
    assert_eq!(sorted(&set), vec![s("ab"), s("zz")]);
}

#[test]
fn inserting_adds_to_what_is_there() {
    let sch = schema();
    let mut set = ColumnSet::new();
    set.insert(s("c"));
    insert_col(&mut set, &sch, &s("t"), &s("ab"));
    insert_col(&mut set, &sch, &s("t"), &s("a"));
    assert_eq!(sorted(&set), vec![s("a"), s("b"), s("c")]);
    assert!(set.contains(&s("b")));
    assert!(!set.contains(&s("ab")));
}

#[test]
fn a_schema_without_cycles_is_well_formed() {
    assert!(schema().is_well_formed());
    assert!(Schema { tables: vec![] }.is_well_formed());
}

#[test]
fn a_generated_column_cycle_is_not_well_formed() {
    let direct = Schema { tables: vec![Table { name: s("t"), columns: vec![gen_col("g", &["g"])] }] };
    assert!(!direct.is_well_formed());
    let through = Schema {
        tables: vec![Table { name: s("t"), columns: vec![gen_col("g", &["h"]), gen_col("h", &["a", "g"]), col("a")] }],
    };
    assert!(!through.is_well_formed());
}

#[test]
fn lookups_find_the_first_table_and_column_of_a_name() {
    let sch = schema();
    let t = sch.get_table(&s("t")).expect("table");
    assert_eq!(t.name, "t");
    assert!(sch.get_table(&s("u")).is_none());
    let c = t.get_column(&s("ab")).expect("column");
    assert!(c.generated.is_some());
    assert!(t.get_column(&s("x")).is_none());
}
