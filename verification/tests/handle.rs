use corro_types::ast::{
    As, ColumnList, Expr, FromClause, OneSelect, QualifiedName, ResultColumn, Select, SelectBody,
    SelectTable,
};
use corro_types::schema::{Column, Schema, Table};
use corro_types::candidates::{is_crsql_sentinel, MatchCandidates, MatchableChange};
use corro_types::columns::ColumnSet;
use corro_types::db::ParsedSelect;
use corro_types::handle::{
    check_since, column_list_string, max_change_id_after, InnerMatcherHandle, MatcherHandle,
    MatcherState,
};
use std::collections::HashMap;
use std::sync::Arc;
use tokio_util::sync::CancellationToken;

fn s(x: &str) -> String {
    x.to_string()
}

fn parsed(tables: &[(&str, &[&str])], n_columns: usize) -> ParsedSelect {
    let mut p = ParsedSelect::new();
    for (t, cols) in tables {
        let mut set = ColumnSet::new();
        for c in cols.iter() {
            set.insert(s(c));
        }
        p.table_columns.insert(s(t), set);
    }
    for i in 0..n_columns {
        p.columns.push(ResultColumn::Expr(Expr::Name(s("a")), Some(As::As(format!("col_{i}")))));
    }
    p
}

fn handle_with(p: ParsedSelect, last_sent: u64) -> (MatcherHandle, tokio::sync::watch::Sender<u64>) {
    let (changes_tx, _changes_rx) = tokio::sync::mpsc::channel(8);
    let (watch_tx, last_change_rx) = tokio::sync::watch::channel(last_sent);
    let (purge_tx, _purge_rx) = tokio::sync::mpsc::channel(8);
    let inner = InnerMatcherHandle {
        id: 42,
        sql: s("SELECT a FROM foo"),
        hash: s("hash-42"),
        parsed: p,
        col_names: vec![s("a")],
        cancel: CancellationToken::new(),
        changes_tx,
        last_change_rx,
        purge_tx,
        subs_path: s("/tmp/subs/42"),
        cached_statements: HashMap::new(),
    };
    let state = Arc::new((parking_lot::Mutex::new(MatcherState::Created), parking_lot::Condvar::new()));
    (MatcherHandle { inner: Arc::new(inner), state }, watch_tx)
}

fn change<'a>(table: &'a String, pk: &'a [u8], column: &'a String, cl: i64) -> MatchableChange<'a> {
    MatchableChange { table, pk, column, cl }
}

#[test]
fn a_change_to_a_read_column_is_taken_once() {
    let (h, _w) = handle_with(parsed(&[("foo", &["a", "b"])], 1), 0);
    let mut c = MatchCandidates::new();
    let (t, col, pk) = (s("foo"), s("a"), vec![1u8, 2]);
    assert!(h.filter_matchable_change(&mut c, change(&t, &pk, &col, 3)));
    assert!(c.get(&t).unwrap().contains_key(&pk));
    let other = s("b");
    assert!(!h.filter_matchable_change(&mut c, change(&t, &pk, &other, 4)));
    let pk2 = vec![9u8];
    assert!(h.filter_matchable_change(&mut c, change(&t, &pk2, &other, 1)));
    assert!(c.get(&t).unwrap().contains_key(&pk2));
}

#[test]
fn changes_the_query_does_not_read_are_dropped() {
    let (h, _w) = handle_with(parsed(&[("foo", &["a"])], 1), 0);
    let mut c = MatchCandidates::new();
    let (foo, bar, a, z) = (s("foo"), s("bar"), s("a"), s("z"));
    let pk = vec![1u8];
    assert!(!h.filter_matchable_change(&mut c, change(&foo, &pk, &z, 1)));
    assert!(!h.filter_matchable_change(&mut c, change(&bar, &pk, &a, 1)));
    assert!(c.get(&foo).is_none());
    assert!(c.get(&bar).is_none());
}

#[test]
fn a_whole_row_change_is_read_for_any_read_table() {
    let (h, _w) = handle_with(parsed(&[("foo", &["a"])], 1), 0);
    let mut c = MatchCandidates::new();
    let (foo, bar, sentinel) = (s("foo"), s("bar"), s("-1"));
    assert!(is_crsql_sentinel(&sentinel));
    assert!(!is_crsql_sentinel(&s("a")));
    let pk = vec![7u8];
    assert!(h.filter_matchable_change(&mut c, change(&foo, &pk, &sentinel, 2)));
    assert!(!h.filter_matchable_change(&mut c, change(&bar, &pk, &sentinel, 2)));
}

#[test]
fn queries_name_every_result_column() {
    let (h, _w) = handle_with(parsed(&[("foo", &["a"])], 3), 0);
    assert_eq!(
        h.changes_since_query(),
        "SELECT id, type, __corro_rowid, col_0,col_1,col_2 FROM changes WHERE id > ? ORDER BY id ASC"
    );
    assert_eq!(h.all_rows_query(), "SELECT __corro_rowid, col_0,col_1,col_2 FROM query");
    assert_eq!(column_list_string(0), "");
    assert_eq!(column_list_string(1), "col_0");
    assert_eq!(column_list_string(12).split(',').last(), Some("col_11"));
}

#[test]
fn changes_after_a_purge_are_refused() {
    assert!(check_since(5, 6).is_ok());
    assert!(check_since(0, 1).is_ok());
    assert!(check_since(5, 0).is_ok());
    assert_eq!(
        check_since(5, 7).unwrap_err(),
        "subscription already deleted older changes, min change id: 7"
    );
    assert_eq!(
        check_since(0, 1234567).unwrap_err(),
        "subscription already deleted older changes, min change id: 1234567"
    );
}

#[test]
fn the_largest_change_id_is_kept() {
    assert_eq!(max_change_id_after(3, 5), 5);
    assert_eq!(max_change_id_after(5, 3), 5);
    assert_eq!(max_change_id_after(5, 5), 5);
}

#[test]
fn accessors_show_the_shared_subscription() {
    let (h, w) = handle_with(parsed(&[("foo", &["a"])], 2), 17);
    assert_eq!(h.id(), 42);
    assert_eq!(h.sql(), "SELECT a FROM foo");
    assert_eq!(h.hash(), "hash-42");
    assert_eq!(h.parsed_columns().len(), 2);
    assert_eq!(h.col_names(), &vec![s("a")]);
    assert_eq!(h.subs_path(), "/tmp/subs/42");
    assert!(h.cached_stmts().is_empty());
    assert_eq!(h.last_change_id_sent(), 17);
    w.send(20).unwrap();
    assert_eq!(h.last_change_id_sent(), 20);
    let copy = h.clone();
    assert!(Arc::ptr_eq(&copy.inner, &h.inner));
    assert!(!h.inner.cancel.is_cancelled());
    copy.cleanup();
    assert!(h.inner.cancel.is_cancelled());
    assert!(!h.state.0.lock().is_running());
    assert!(MatcherState::Running.is_running());
}

#[test]
fn the_change_query_names_the_aliases_extraction_gave() {
    let schema = Schema {
        tables: vec![Table {
            name: s("foo"),
            columns: vec![
                Column { name: s("a"), generated: None },
                Column { name: s("b"), generated: None },
                Column { name: s("c"), generated: None },
            ],
        }],
    };
    let columns = ColumnList::Cons(
        ResultColumn::Star,
        Box::new(ColumnList::Cons(ResultColumn::Expr(Expr::Name(s("a")), None), Box::new(ColumnList::Nil))),
    );
    let from = FromClause {
        select: SelectTable::Table(QualifiedName { db_name: None, name: s("foo"), alias: None }, None),
        joins: None,
    };
    let select = Select { body: SelectBody { select: OneSelect::Select { from: Some(from), columns, where_clause: None } } };
    let p = ParsedSelect::extract_select_columns(&select, &schema).unwrap();
    let aliases: Vec<String> = p
        .columns
        .iter()
        .map(|c| match c {
            ResultColumn::Expr(_, Some(As::As(a))) => a.clone(),
            other => panic!("unexpected {other:?}"),
        })
        .collect();
    let (h, _w) = handle_with(p, 0);
    assert_eq!(
        h.changes_since_query(),
        format!("SELECT id, type, __corro_rowid, {} FROM changes WHERE id > ? ORDER BY id ASC", aliases.join(","))
    );
    assert_eq!(h.all_rows_query(), format!("SELECT __corro_rowid, {} FROM query", aliases.join(",")));
    assert_eq!(aliases.len(), 4);
}

#[test]
fn a_change_cursor_keeps_the_largest_id_and_stops_at_the_first_refusal() {
    let mut c = corro_types::handle::ChangeCursor::start(5);
    assert!(c.open);
    c.on_change(7, true);
    assert_eq!(c.max_change_id, 7);
    c.on_change(6, true);
    assert_eq!(c.max_change_id, 7);
    c.on_change(9, false);
    assert_eq!(c.max_change_id, 9);
    assert!(!c.open);
}
