use corro_types::candidates::{bytes_eq, MatchCandidates, PkMap};

fn s(x: &str) -> String {
    x.to_string()
}

#[test]
fn inserting_a_key_gives_back_what_it_replaced() {
    let mut c = MatchCandidates::new();
    let t = s("foo");
    assert_eq!(c.insert(&t, vec![1], 5), None);
    assert_eq!(c.insert(&t, vec![2], 6), None);
    assert_eq!(c.insert(&t, vec![1], 7), Some(5));
    let pks = c.get(&t).unwrap();
    assert!(pks.contains_key(&[1]));
    assert!(pks.contains_key(&[2]));
    assert!(!pks.contains_key(&[3]));
    assert!(c.get(&s("bar")).is_none());
}

#[test]
fn tables_are_kept_apart() {
    let mut c = MatchCandidates::new();
    c.insert(&s("foo"), vec![1], 1);
    c.insert(&s("bar"), vec![2], 1);
    assert!(c.get(&s("foo")).unwrap().contains_key(&[1]));
    assert!(!c.get(&s("foo")).unwrap().contains_key(&[2]));
    assert!(c.get(&s("bar")).unwrap().contains_key(&[2]));
}

#[test]
fn a_key_map_on_its_own() {
    let mut m = PkMap::new();
    assert!(!m.contains_key(&[0]));
    assert_eq!(m.insert(vec![0], 1), None);
    assert_eq!(m.insert(vec![0], 2), Some(1));
    assert!(m.contains_key(&[0]));
}

#[test]
fn bytes_compare_by_content() {
    assert!(bytes_eq(&[1, 2, 3], &[1, 2, 3]));
    assert!(!bytes_eq(&[1, 2, 3], &[1, 2]));
    assert!(!bytes_eq(&[1, 2, 3], &[1, 2, 4]));
    assert!(bytes_eq(&[], &[]));
}
