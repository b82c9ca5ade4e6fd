use corro_types::db::ParsedSelect;
use corro_types::error::MatcherError;
use corro_types::handle::{InnerMatcherHandle, MatcherHandle, MatcherState};
use corro_types::manager::{QueryIndex, SubsManager};
use std::collections::HashMap;
use std::sync::Arc;
use tokio_util::sync::CancellationToken;

fn s(x: &str) -> String {
    x.to_string()
}

fn add(m: &mut SubsManager, id: u128, sql: &str, hash: &str) {
    let (sql, hash) = (s(sql), s(hash));
    m.restore(id, |id| Ok((handle(id, &sql, &hash), ()))).unwrap();
}

fn handle(id: u128, sql: &str, hash: &str) -> MatcherHandle {
    let (changes_tx, _changes_rx) = tokio::sync::mpsc::channel(8);
    let (_watch_tx, last_change_rx) = tokio::sync::watch::channel(0u64);
    let (purge_tx, _purge_rx) = tokio::sync::mpsc::channel(8);
    let inner = InnerMatcherHandle {
        id,
        sql: s(sql),
        hash: s(hash),
        parsed: ParsedSelect::new(),
        col_names: vec![],
        cancel: CancellationToken::new(),
        changes_tx,
        last_change_rx,
        purge_tx,
        subs_path: format!("/subs/{id}"),
        cached_statements: HashMap::new(),
    };
    let state = Arc::new((parking_lot::Mutex::new(MatcherState::Running), parking_lot::Condvar::new()));
    MatcherHandle { inner: Arc::new(inner), state }
}

#[test]
fn handles_are_found_by_id_query_and_hash() {
    let mut m = SubsManager::new();
    add(&mut m, 7, "SELECT 1", "h1");
    add(&mut m, 3, "SELECT 2", "h2");
    add(&mut m, 5, "SELECT 3", "h2");
    assert_eq!(m.get(&7).unwrap().sql(), "SELECT 1");
    assert!(m.get(&8).is_none());
    assert_eq!(m.get_by_query(&s("SELECT 3")).unwrap().id(), 5);
    assert!(m.get_by_query(&s("SELECT 4")).is_none());
    assert_eq!(m.get_by_hash(&s("h2")).unwrap().id(), 3);
    assert_eq!(m.get_by_hash(&s("h1")).unwrap().id(), 7);
    assert!(m.get_by_hash(&s("h3")).is_none());
    assert!(m.contains(&3));
    assert_eq!(m.trait_type(), "subs");
    let all = m.get_handles();
    assert_eq!(all.keys().cloned().collect::<Vec<_>>(), vec![3, 5, 7]);
}

#[test]
fn a_removed_handle_is_found_neither_by_id_nor_by_query() {
    let mut m = SubsManager::new();
    add(&mut m, 1, "SELECT a", "h");
    add(&mut m, 2, "SELECT b", "h");
    let removed = m.remove(&1).unwrap();
    assert_eq!(removed.id(), 1);
    assert!(m.get(&1).is_none());
    assert!(m.get_by_query(&s("SELECT a")).is_none());
    assert_eq!(m.get_by_query(&s("SELECT b")).unwrap().id(), 2);
    assert!(m.remove(&1).is_none());
}

#[test]
fn dropping_handles_cancels_them_all() {
    let mut m = SubsManager::new();
    add(&mut m, 1, "SELECT a", "h");
    add(&mut m, 2, "SELECT b", "h");
    let a = m.get(&1).unwrap();
    let b = m.get(&2).unwrap();
    m.drop_handles();
    assert!(m.get_handles().is_empty());
    assert!(m.get(&1).is_none());
    assert!(m.get_by_query(&s("SELECT a")).is_none());
    assert!(a.inner.cancel.is_cancelled());
    assert!(b.inner.cancel.is_cancelled());
}

#[test]
fn get_or_insert_makes_one_subscription_per_query() {
    let mut m = SubsManager::new();
    let sql = s("SELECT x FROM t");
    let mut calls = 0;
    let (h, made) = m
        .get_or_insert(&sql, 11, |id| {
            calls += 1;
            Ok((handle(id, "SELECT x FROM t", "hx"), "created"))
        })
        .unwrap();
    assert_eq!(h.id(), 11);
    assert_eq!(made, Some("created"));
    let (again, made) = m
        .get_or_insert(&sql, 12, |id| {
            calls += 1;
            Ok((handle(id, "SELECT x FROM t", "hx"), "created"))
        })
        .unwrap();
    assert_eq!(again.id(), 11);
    assert_eq!(made, None);
    assert_eq!(calls, 1);
    assert_eq!(m.get_by_query(&sql).unwrap().id(), 11);
    assert_eq!(m.get(&11).unwrap().id(), 11);
    assert!(m.get(&12).is_none());
}

#[test]
fn a_failed_creation_registers_nothing() {
    let mut m = SubsManager::new();
    let sql = s("SELECT y FROM t");
    let r = m.get_or_insert(&sql, 4, |_| Err::<(MatcherHandle, ()), _>(MatcherError::MissingSql));
    assert!(matches!(r, Err(MatcherError::MissingSql)));
    assert!(m.get(&4).is_none());
    assert!(m.get_by_query(&sql).is_none());
}

#[test]
fn restoring_an_existing_subscription_is_refused() {
    let mut m = SubsManager::new();
    add(&mut m, 9, "SELECT 9", "h9");
    let r = m.restore(9, |id| Ok((handle(id, "SELECT other", "h"), ())));
    assert!(matches!(r, Err(MatcherError::CannotRestoreExisting)));
    assert_eq!(m.get(&9).unwrap().sql(), "SELECT 9");
    let (h, _) = m.restore(10, |id| Ok((handle(id, "SELECT 10", "h10"), ()))).unwrap();
    assert_eq!(h.id(), 10);
    assert_eq!(m.get_by_query(&s("SELECT 10")).unwrap().id(), 10);
}

#[test]
fn a_query_index_keeps_the_latest_id_of_a_query() {
    let mut q = QueryIndex::new();
    q.insert(s("a"), 1);
    q.insert(s("b"), 2);
    q.insert(s("a"), 3);
    assert_eq!(q.get(&s("a")), Some(3));
    assert_eq!(q.get(&s("b")), Some(2));
    q.remove(&s("a"));
    assert_eq!(q.get(&s("a")), None);
    assert_eq!(q.get(&s("b")), Some(2));
}
