//! The containers that column extraction fills: a set of column names, the
//! alias table of a query, and the ordered map from table name to the
//! columns of that table that the query reads.
use indexmap::IndexMap;
use vstd::prelude::*;

verus! {

/// The character sequences of a list of strings.
pub open spec fn names_view(s: Seq<String>) -> Seq<Seq<char>> {
    s.map_values(|x: String| x@)
}

/// The view of a list of strings as a set of character sequences.
pub open spec fn names_set(s: Seq<String>) -> Set<Seq<char>> {
    names_view(s).to_set()
}

/// A set of column names.
#[derive(Debug)]
pub struct ColumnSet {
    names: Vec<String>,
}

impl View for ColumnSet {
    type V = Set<Seq<char>>;

    closed spec fn view(&self) -> Set<Seq<char>> {
        names_set(self.names@)
    }
}

impl ColumnSet {
    /// An empty set.
    pub fn new() -> (r: ColumnSet)
        ensures
            r@ == Set::<Seq<char>>::empty(),
    {
        let r = ColumnSet { names: Vec::new() };
        assert(r@ =~= Set::<Seq<char>>::empty());
        r
    }

    /// Whether `name` is in the set.
    pub fn contains(&self, name: &String) -> (r: bool)
        ensures
            r == self@.contains(name@),
    {
        let mut i: usize = 0;
        while i < self.names.len()
            invariant
                i <= self.names@.len(),
                forall|j: int| 0 <= j < i ==> self.names@[j]@ != name@,
            decreases self.names@.len() - i,
        {
            if self.names[i] == *name {
                assert(names_view(self.names@)[i as int] == name@);
                return true;
            }
            i = i + 1;
        }
        assert(!self@.contains(name@)) by {
            if self@.contains(name@) {
                let k = choose|k: int|
                    0 <= k < self.names@.len() && #[trigger] names_view(self.names@)[k] == name@;
            }
        }
        false
    }

    /// Adds `name` to the set.
    pub fn insert(&mut self, name: String)
        ensures
            final(self)@ == old(self)@.insert(name@),
    {
        if !self.contains(&name) {
            let ghost before = self.names@;
            self.names.push(name);
            let ghost nv = names_view(self.names@);
            let ghost ov = names_view(before);
            assert(nv =~= ov.push(name@));
            assert forall|y: Seq<char>| nv.contains(y) <==> (ov.contains(y) || y == name@) by {
                if ov.contains(y) {
                    let i = choose|i: int| 0 <= i < ov.len() && ov[i] == y;
                    assert(nv[i] == y);
                }
                if y == name@ {
                    assert(nv[ov.len() as int] == y);
                }
                if nv.contains(y) {
                    let i = choose|i: int| 0 <= i < nv.len() && nv[i] == y;
                    if i < ov.len() {
                        assert(ov[i] == y);
                    }
                }
            }
            assert(self@ =~= old(self)@.insert(name@));
        } else {
            assert(self@ =~= old(self)@.insert(name@));
        }
    }

    /// Adds every name of `other` to the set.
    pub fn add_all(&mut self, other: &ColumnSet)
        ensures
            final(self)@ == old(self)@.union(other@),
    {
        let mut i: usize = 0;
        while i < other.names.len()
            invariant
                i <= other.names@.len(),
                self@ == old(self)@.union(names_set(other.names@.subrange(0, i as int))),
            decreases other.names@.len() - i,
        {
            let ghost pre = self@;
            self.insert(other.names[i].clone());
            proof {
                let a = names_view(other.names@.subrange(0, i as int));
                let b = names_view(other.names@.subrange(0, i + 1));
                assert(b =~= a.push(other.names@[i as int]@));
                assert forall|y: Seq<char>| b.contains(y) <==> (a.contains(y) || y == other.names@[i as int]@) by {
                    if a.contains(y) {
                        let k = choose|k: int| 0 <= k < a.len() && a[k] == y;
                        assert(b[k] == y);
                    }
                    if y == other.names@[i as int]@ {
                        assert(b[i as int] == y);
                    }
                    if b.contains(y) {
                        let k = choose|k: int| 0 <= k < b.len() && b[k] == y;
                        if k < a.len() {
                            assert(a[k] == y);
                        }
                    }
                }
                assert(self@ =~= old(self)@.union(names_set(other.names@.subrange(0, i + 1))));
            }
            i = i + 1;
        }
        assert(other.names@.subrange(0, other.names@.len() as int) =~= other.names@);
    }

    /// The names in the set, each once.
    pub fn names(&self) -> (r: &Vec<String>)
        ensures
            names_set(r@) == self@,
    {
        &self.names
    }
}

impl Default for ColumnSet {
    fn default() -> (r: ColumnSet)
        ensures
            r@ == Set::<Seq<char>>::empty(),
    {
        ColumnSet::new()
    }
}

/// The map that a list of items stands for, each item giving a key and a
/// value, a later item replacing an earlier one with the same key.
pub open spec fn later_wins<P, K, V>(s: Seq<P>, key: spec_fn(P) -> K, value: spec_fn(P) -> V) -> Map<K, V>
    decreases s.len(),
{
    if s.len() == 0 {
        Map::empty()
    } else {
        later_wins(s.drop_last(), key, value).insert(key(s.last()), value(s.last()))
    }
}

/// When no item at position `i` or later has key `k`, the list and its
/// first `i` items agree on `k`.
pub proof fn lemma_later_wins_prefix<P, K, V>(s: Seq<P>, key: spec_fn(P) -> K, value: spec_fn(P) -> V, i: int, k: K)
    requires
        0 <= i <= s.len(),
        forall|j: int| i <= j < s.len() ==> key(#[trigger] s[j]) != k,
    ensures
        later_wins(s, key, value).contains_key(k) == later_wins(s.subrange(0, i), key, value).contains_key(k),
        later_wins(s, key, value)[k] == later_wins(s.subrange(0, i), key, value)[k],
    decreases s.len(),
{
    if s.len() > i {
        assert forall|j: int| i <= j < s.drop_last().len() implies key(#[trigger] s.drop_last()[j]) != k by {
            assert(s.drop_last()[j] == s[j]);
        }
        assert(key(s[s.len() - 1]) != k);
        lemma_later_wins_prefix(s.drop_last(), key, value, i, k);
        assert(s.drop_last().subrange(0, i) =~= s.subrange(0, i));
    } else {
        assert(s.subrange(0, i) =~= s);
    }
}

/// The map that a list of `(key, value)` pairs stands for, a later pair
/// replacing an earlier one with the same key.
pub open spec fn pairs_map(s: Seq<(String, String)>) -> Map<Seq<char>, Seq<char>> {
    later_wins(s, |p: (String, String)| p.0@, |p: (String, String)| p.1@)
}

/// The alias table of a query: alias name to table name.
#[derive(Debug)]
pub struct Aliases {
    pairs: Vec<(String, String)>,
}

impl View for Aliases {
    type V = Map<Seq<char>, Seq<char>>;

    closed spec fn view(&self) -> Map<Seq<char>, Seq<char>> {
        pairs_map(self.pairs@)
    }
}

impl Aliases {
    /// An empty alias table.
    pub fn new() -> (r: Aliases)
        ensures
            r@ == Map::<Seq<char>, Seq<char>>::empty(),
    {
        Aliases { pairs: Vec::new() }
    }

    /// Makes `alias` stand for `table`.
    pub fn insert(&mut self, alias: String, table: String)
        ensures
            final(self)@ == old(self)@.insert(alias@, table@),
    {
        let ghost before = self.pairs@;
        self.pairs.push((alias, table));
        assert(self.pairs@.drop_last() =~= before);
    }

    /// The table that `alias` stands for.
    pub fn get(&self, alias: &String) -> (r: Option<&String>)
        ensures
            r matches Some(t) ==> self@.contains_key(alias@) && self@[alias@] == t@,
            r is None ==> !self@.contains_key(alias@),
    {
        let mut i: usize = self.pairs.len();
        while i > 0
            invariant
                i <= self.pairs@.len(),
                forall|j: int| i <= j < self.pairs@.len() ==> #[trigger] self.pairs@[j].0@ != alias@,
            decreases i,
        {
            if self.pairs[i - 1].0 == *alias {
                proof {
                    let pre = self.pairs@.subrange(0, i as int);
                    assert(pre.drop_last() =~= self.pairs@.subrange(0, i - 1));
                    lemma_later_wins_prefix(self.pairs@, |p: (String, String)| p.0@, |p: (String, String)| p.1@, i as int, alias@);
                }
                return Some(&self.pairs[i - 1].1);
            }
            i = i - 1;
        }
        proof {
            lemma_later_wins_prefix(self.pairs@, |p: (String, String)| p.0@, |p: (String, String)| p.1@, 0, alias@);
        }
        None
    }
}

#[verifier::external_type_specification]
#[verifier::external_body]
#[verifier::reject_recursive_types(K)]
#[verifier::reject_recursive_types(V)]
#[verifier::reject_recursive_types(S)]
pub struct ExIndexMap<K, V, S>(IndexMap<K, V, S>);

/// The entries of a table-to-columns map, in insertion order: each table
/// name with its column set.
pub uninterp spec fn column_map_entries(m: IndexMap<String, ColumnSet>) -> Seq<(Seq<char>, ColumnSet)>;

/// The position of the first entry with key `k`, or -1 when there is none.
pub open spec fn key_position<V>(e: Seq<(Seq<char>, V)>, k: Seq<char>) -> int
    decreases e.len(),
{
    if e.len() == 0 {
        -1
    } else {
        let p = key_position(e.drop_last(), k);
        if p >= 0 {
            p
        } else if e.last().0 == k {
            e.len() - 1
        } else {
            -1
        }
    }
}

/// `key_position` is -1 or the first position that holds `k`.
pub proof fn lemma_key_position<V>(e: Seq<(Seq<char>, V)>, k: Seq<char>)
    ensures
        -1 <= key_position(e, k) < e.len(),
        key_position(e, k) >= 0 ==> e[key_position(e, k)].0 == k,
        forall|j: int| 0 <= j < e.len() && (key_position(e, k) < 0 || j < key_position(e, k))
            ==> #[trigger] e[j].0 != k,
    decreases e.len(),
{
    if e.len() > 0 {
        lemma_key_position(e.drop_last(), k);
        assert forall|j: int|
            0 <= j < e.len() - 1 implies #[trigger] e[j] == e.drop_last()[j] by {}
    }
}

/// Creates an empty `IndexMap` (`IndexMap::new`).
#[verifier::external_body]
pub(crate) fn column_map_new() -> (m: IndexMap<String, ColumnSet>)
    ensures
        column_map_entries(m) == Seq::<(Seq<char>, ColumnSet)>::empty(),
{
    IndexMap::new()
}

/// The number of entries (`IndexMap::len`).
#[verifier::external_body]
pub(crate) fn column_map_len(m: &IndexMap<String, ColumnSet>) -> (r: usize)
    ensures
        r == column_map_entries(*m).len(),
{
    m.len()
}

/// The entry at position `i`, if there is one (`IndexMap::get_index`).
#[verifier::external_body]
pub(crate) fn column_map_get_index(m: &IndexMap<String, ColumnSet>, i: usize) -> (r: Option<(&String, &ColumnSet)>)
    ensures
        (i < column_map_entries(*m).len() ==> (r.is_some() && r.unwrap().0@ == column_map_entries(*m)[i as int].0 && *r.unwrap().1 == column_map_entries(*m)[i as int].1)),
        i >= column_map_entries(*m).len() ==> r is None,
{
    m.get_index(i)
}

/// The column set of table `k`, if the map has one (`IndexMap::get`).
#[verifier::external_body]
pub(crate) fn column_map_get<'a>(m: &'a IndexMap<String, ColumnSet>, k: &String) -> (r: Option<&'a ColumnSet>)
    ensures
        key_position(column_map_entries(*m), k@) < 0 ==> r is None,
        (key_position(column_map_entries(*m), k@) >= 0 ==> (r.is_some() && *r.unwrap() == column_map_entries(*m)[key_position(column_map_entries(*m), k@)].1)),
{
    m.get(k)
}

/// The column set of table `k`, added empty at the end when the map has
/// none (`IndexMap::entry` then `Entry::or_default`).
#[verifier::external_body]
pub(crate) fn column_map_entry<'a>(m: &'a mut IndexMap<String, ColumnSet>, k: String) -> (r: &'a mut ColumnSet)
    ensures
        ({
            let e = column_map_entries(*old(m));
            let p = key_position(e, k@);
            &&& p >= 0 ==> *r == e[p].1 && column_map_entries(*final(m)) == e.update(
                p,
                (k@, *final(r)),
            )
            &&& p < 0 ==> (*r)@ == Set::<Seq<char>>::empty() && column_map_entries(*final(m))
                == e.push((k@, *final(r)))
        }),
{
    m.entry(k).or_default()
}

} // verus!
