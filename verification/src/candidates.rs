//! Changes that may affect a subscription, grouped by table and primary key.
use crate::columns::{later_wins, lemma_later_wins_prefix};
use vstd::prelude::*;

verus! {

/// Whether two byte strings are equal.
pub fn bytes_eq(a: &[u8], b: &[u8]) -> (r: bool)
    ensures
        r == (a@ == b@),
{
    if a.len() != b.len() {
        return false;
    }
    let mut i: usize = 0;
    while i < a.len()
        invariant
            a@.len() == b@.len(),
            i <= a@.len(),
            forall|j: int| 0 <= j < i ==> a@[j] == b@[j],
        decreases a@.len() - i,
    {
        if a[i] != b[i] {
            return false;
        }
        i = i + 1;
    }
    assert(a@ =~= b@);
    true
}

/// The map a list of `(primary key, causal length)` pairs stands for, a
/// later pair replacing an earlier one with the same key.
pub open spec fn pk_pairs_map(s: Seq<(Vec<u8>, i64)>) -> Map<Seq<u8>, i64> {
    later_wins(s, |p: (Vec<u8>, i64)| p.0@, |p: (Vec<u8>, i64)| p.1)
}

/// Replacing the value of the last pair with key `k` changes the map at
/// `k` only.
proof fn lemma_pk_update(s: Seq<(Vec<u8>, i64)>, i: int, v: i64)
    requires
        0 <= i < s.len(),
        forall|j: int| i < j < s.len() ==> #[trigger] s[j].0@ != s[i].0@,
    ensures
        pk_pairs_map(s.update(i, (s[i].0, v))) == pk_pairs_map(s).insert(s[i].0@, v),
    decreases s.len(),
{
    let t = s.update(i, (s[i].0, v));
    if i < s.len() - 1 {
        assert forall|j: int| i < j < s.drop_last().len() implies #[trigger] s.drop_last()[j].0@
            != s.drop_last()[i].0@ by {
            assert(s.drop_last()[j] == s[j]);
        }
        lemma_pk_update(s.drop_last(), i, v);
        assert(t.drop_last() =~= s.drop_last().update(i, (s[i].0, v)));
        assert(pk_pairs_map(t) =~= pk_pairs_map(s).insert(s[i].0@, v));
    } else {
        assert(t.drop_last() =~= s.drop_last());
        assert(pk_pairs_map(t) =~= pk_pairs_map(s).insert(s[i].0@, v));
    }
}

/// Causal lengths by primary key.
#[derive(Debug)]
pub struct PkMap {
    pairs: Vec<(Vec<u8>, i64)>,
}

impl View for PkMap {
    type V = Map<Seq<u8>, i64>;

    closed spec fn view(&self) -> Map<Seq<u8>, i64> {
        pk_pairs_map(self.pairs@)
    }
}

impl PkMap {
    /// An empty map.
    pub fn new() -> (r: PkMap)
        ensures
            r@ == Map::<Seq<u8>, i64>::empty(),
    {
        PkMap { pairs: Vec::new() }
    }

    /// The position of the pair that holds `pk`, if any.
    fn position(&self, pk: &[u8]) -> (r: Option<usize>)
        ensures
            r is None ==> !self@.contains_key(pk@),
            r matches Some(i) ==> i < self.pairs@.len() && self.pairs@[i as int].0@ == pk@
                && forall|j: int| i < j < self.pairs@.len() ==> #[trigger] self.pairs@[j].0@ != pk@,
    {
        let mut i: usize = self.pairs.len();
        while i > 0
            invariant
                i <= self.pairs@.len(),
                forall|j: int| i <= j < self.pairs@.len() ==> #[trigger] self.pairs@[j].0@ != pk@,
            decreases i,
        {
            if bytes_eq(self.pairs[i - 1].0.as_slice(), pk) {
                return Some(i - 1);
            }
            i = i - 1;
        }
        proof {
            lemma_later_wins_prefix(self.pairs@, |p: (Vec<u8>, i64)| p.0@, |p: (Vec<u8>, i64)| p.1, 0, pk@);
        }
        None
    }

    /// Whether `pk` has a causal length.
    pub fn contains_key(&self, pk: &[u8]) -> (r: bool)
        ensures
            r == self@.contains_key(pk@),
    {
        match self.position(pk) {
            Some(i) => {
                proof {
                    let s = self.pairs@;
                    assert(s.subrange(0, i + 1).drop_last() =~= s.subrange(0, i as int));
                    lemma_later_wins_prefix(s, |p: (Vec<u8>, i64)| p.0@, |p: (Vec<u8>, i64)| p.1, i + 1, pk@);
                }
                true
            },
            None => false,
        }
    }

    /// Sets the causal length of `pk`, giving back the one it replaces.
    pub fn insert(&mut self, pk: Vec<u8>, cl: i64) -> (r: Option<i64>)
        ensures
            final(self)@ == old(self)@.insert(pk@, cl),
            r is None <==> !old(self)@.contains_key(pk@),
            r matches Some(v) ==> old(self)@[pk@] == v,
    {
        match self.position(pk.as_slice()) {
            Some(i) => {
                let old_cl = self.pairs[i].1;
                proof {
                    let s = self.pairs@;
                    assert(s.subrange(0, i + 1).drop_last() =~= s.subrange(0, i as int));
                    lemma_later_wins_prefix(s, |p: (Vec<u8>, i64)| p.0@, |p: (Vec<u8>, i64)| p.1, i + 1, pk@);
                    lemma_pk_update(s, i as int, cl);
                }
                self.pairs[i].1 = cl;
                assert(self.pairs@ == old(self).pairs@.update(i as int, (old(self).pairs@[i as int].0, cl)));
                Some(old_cl)
            },
            None => {
                let ghost s = self.pairs@;
                self.pairs.push((pk, cl));
                assert(self.pairs@.drop_last() =~= s);
                None
            },
        }
    }
}

/// The map a list of `(table, keys)` pairs stands for, a later pair
/// replacing an earlier one with the same table.
pub open spec fn table_pairs_map(s: Seq<(String, PkMap)>) -> Map<Seq<char>, Map<Seq<u8>, i64>> {
    later_wins(s, |p: (String, PkMap)| p.0@, |p: (String, PkMap)| p.1@)
}

proof fn lemma_table_update(s: Seq<(String, PkMap)>, i: int, v: PkMap)
    requires
        0 <= i < s.len(),
        forall|j: int| i < j < s.len() ==> #[trigger] s[j].0@ != s[i].0@,
    ensures
        table_pairs_map(s.update(i, (s[i].0, v))) == table_pairs_map(s).insert(s[i].0@, v@),
    decreases s.len(),
{
    let t = s.update(i, (s[i].0, v));
    if i < s.len() - 1 {
        assert forall|j: int| i < j < s.drop_last().len() implies #[trigger] s.drop_last()[j].0@
            != s.drop_last()[i].0@ by {
            assert(s.drop_last()[j] == s[j]);
        }
        lemma_table_update(s.drop_last(), i, v);
        assert(t.drop_last() =~= s.drop_last().update(i, (s[i].0, v)));
        assert(table_pairs_map(t) =~= table_pairs_map(s).insert(s[i].0@, v@));
    } else {
        assert(t.drop_last() =~= s.drop_last());
        assert(table_pairs_map(t) =~= table_pairs_map(s).insert(s[i].0@, v@));
    }
}

/// Candidate changes of a subscription: for each table, the primary keys
/// of changed rows with their causal lengths.
#[derive(Debug)]
pub struct MatchCandidates {
    tables: Vec<(String, PkMap)>,
}

impl View for MatchCandidates {
    type V = Map<Seq<char>, Map<Seq<u8>, i64>>;

    closed spec fn view(&self) -> Map<Seq<char>, Map<Seq<u8>, i64>> {
        table_pairs_map(self.tables@)
    }
}

impl MatchCandidates {
    /// No candidates.
    pub fn new() -> (r: MatchCandidates)
        ensures
            r@ == Map::<Seq<char>, Map<Seq<u8>, i64>>::empty(),
    {
        MatchCandidates { tables: Vec::new() }
    }

    fn position(&self, table: &String) -> (r: Option<usize>)
        ensures
            r is None ==> !self@.contains_key(table@),
            r matches Some(i) ==> i < self.tables@.len() && self.tables@[i as int].0@ == table@
                && forall|j: int| i < j < self.tables@.len() ==> #[trigger] self.tables@[j].0@ != table@,
    {
        let mut i: usize = self.tables.len();
        while i > 0
            invariant
                i <= self.tables@.len(),
                forall|j: int| i <= j < self.tables@.len() ==> #[trigger] self.tables@[j].0@ != table@,
            decreases i,
        {
            if self.tables[i - 1].0 == *table {
                return Some(i - 1);
            }
            i = i - 1;
        }
        proof {
            lemma_later_wins_prefix(self.tables@, |p: (String, PkMap)| p.0@, |p: (String, PkMap)| p.1@, 0, table@);
        }
        None
    }

    /// The candidate keys of `table`, if it has any entry.
    pub fn get(&self, table: &String) -> (r: Option<&PkMap>)
        ensures
            r is None <==> !self@.contains_key(table@),
            r matches Some(m) ==> self@[table@] == m@,
    {
        match self.position(table) {
            Some(i) => {
                proof {
                    let s = self.tables@;
                    assert(s.subrange(0, i + 1).drop_last() =~= s.subrange(0, i as int));
                    lemma_later_wins_prefix(s, |p: (String, PkMap)| p.0@, |p: (String, PkMap)| p.1@, i + 1, table@);
                }
                Some(&self.tables[i].1)
            },
            None => None,
        }
    }

    /// Records causal length `cl` for key `pk` of `table`, giving back the one it
    /// replaces.
    pub fn insert(&mut self, table: &String, pk: Vec<u8>, cl: i64) -> (r: Option<i64>)
        ensures
            final(self)@ == old(self)@.insert(
                table@,
                if old(self)@.contains_key(table@) {
                    old(self)@[table@].insert(pk@, cl)
                } else {
                    Map::empty().insert(pk@, cl)
                },
            ),
            r is None <==> !(old(self)@.contains_key(table@) && old(self)@[table@].contains_key(pk@)),
            r matches Some(v) ==> old(self)@[table@][pk@] == v,
    {
        match self.position(table) {
            Some(i) => {
                proof {
                    let s = self.tables@;
                    assert(s.subrange(0, i + 1).drop_last() =~= s.subrange(0, i as int));
                    lemma_later_wins_prefix(s, |p: (String, PkMap)| p.0@, |p: (String, PkMap)| p.1@, i + 1, table@);
                }
                let ghost s = self.tables@;
                let r = self.tables[i].1.insert(pk, cl);
                proof {
                    lemma_table_update(s, i as int, self.tables@[i as int].1);
                    assert(self.tables@ == s.update(i as int, (s[i as int].0, self.tables@[i as int].1)));
                }
                r
            },
            None => {
                let ghost s = self.tables@;
                let mut m = PkMap::new();
                m.insert(pk, cl);
                self.tables.push((table.clone(), m));
                assert(self.tables@.drop_last() =~= s);
                None
            },
        }
    }
}

/// A change to one column of one row.
#[derive(Debug)]
pub struct MatchableChange<'a> {
    pub table: &'a String,
    pub pk: &'a [u8],
    pub column: &'a String,
    pub cl: i64,
}

/// The name of the column that stands for a change of a whole row.
pub open spec fn sentinel_column() -> Seq<char> {
    "-1"@
}

/// Whether `column` is the column that stands for a change of a whole row.
pub fn is_crsql_sentinel(column: &String) -> (r: bool)
    ensures
        r == (column@ == sentinel_column()),
{
    let s = <String as vstd::string::StringExecFns>::from_str("-1");
    *column == s
}

} // verus!
