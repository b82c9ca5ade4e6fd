//! The registry of running subscriptions, by id and by query.
use crate::columns::{later_wins, lemma_later_wins_prefix};
use crate::error::MatcherError;
use crate::handle::MatcherHandle;
use std::collections::BTreeMap;
use vstd::prelude::*;
use vstd::std_specs::iter::IteratorSpec;

verus! {

broadcast use vstd::std_specs::btree::group_btree_axioms;

/// The map a list of `(query, id)` pairs stands for, a later pair replacing
/// an earlier one with the same query.
pub open spec fn query_pairs_map(s: Seq<(String, u128)>) -> Map<Seq<char>, u128> {
    later_wins(s, |p: (String, u128)| p.0@, |p: (String, u128)| p.1)
}

/// The pairs of `s` whose query is not `k`, in order.
pub open spec fn without_query(s: Seq<(String, u128)>, k: Seq<char>) -> Seq<(String, u128)>
    decreases s.len(),
{
    if s.len() == 0 {
        Seq::empty()
    } else if s.last().0@ == k {
        without_query(s.drop_last(), k)
    } else {
        without_query(s.drop_last(), k).push(s.last())
    }
}

/// Dropping every pair with query `k` removes `k` from the map.
proof fn lemma_without_query(s: Seq<(String, u128)>, k: Seq<char>)
    ensures
        query_pairs_map(without_query(s, k)) == query_pairs_map(s).remove(k),
    decreases s.len(),
{
    if s.len() > 0 {
        lemma_without_query(s.drop_last(), k);
        let w = without_query(s, k);
        if s.last().0@ != k {
            assert(w.drop_last() =~= without_query(s.drop_last(), k));
        }
        assert(query_pairs_map(w) =~= query_pairs_map(s).remove(k));
    } else {
        assert(query_pairs_map(without_query(s, k)) =~= query_pairs_map(s).remove(k));
    }
}

/// Subscription ids by query.
#[derive(Debug)]
pub struct QueryIndex {
    pairs: Vec<(String, u128)>,
}

impl View for QueryIndex {
    type V = Map<Seq<char>, u128>;

    closed spec fn view(&self) -> Map<Seq<char>, u128> {
        query_pairs_map(self.pairs@)
    }
}

impl QueryIndex {
    /// No queries.
    pub fn new() -> (r: QueryIndex)
        ensures
            r@ == Map::<Seq<char>, u128>::empty(),
    {
        QueryIndex { pairs: Vec::new() }
    }

    /// The id of the subscription to `sql`, if any.
    pub fn get(&self, sql: &String) -> (r: Option<u128>)
        ensures
            r is None <==> !self@.contains_key(sql@),
            r matches Some(id) ==> self@[sql@] == id,
    {
        let mut i: usize = self.pairs.len();
        while i > 0
            invariant
                i <= self.pairs@.len(),
                forall|j: int| i <= j < self.pairs@.len() ==> #[trigger] self.pairs@[j].0@ != sql@,
            decreases i,
        {
            if self.pairs[i - 1].0 == *sql {
                proof {
                    let pre = self.pairs@.subrange(0, i as int);
                    assert(pre.drop_last() =~= self.pairs@.subrange(0, i - 1));
                    lemma_later_wins_prefix(self.pairs@, |p: (String, u128)| p.0@, |p: (String, u128)| p.1, i as int, sql@);
                }
                return Some(self.pairs[i - 1].1);
            }
            i = i - 1;
        }
        proof {
            lemma_later_wins_prefix(self.pairs@, |p: (String, u128)| p.0@, |p: (String, u128)| p.1, 0, sql@);
        }
        None
    }

    /// Makes `sql` stand for subscription `id`.
    pub fn insert(&mut self, sql: String, id: u128)
        ensures
            final(self)@ == old(self)@.insert(sql@, id),
    {
        let ghost before = self.pairs@;
        self.pairs.push((sql, id));
        assert(self.pairs@.drop_last() =~= before);
    }

    /// Forgets `sql`.
    pub fn remove(&mut self, sql: &String)
        ensures
            final(self)@ == old(self)@.remove(sql@),
    {
        let ghost k = sql@;
        let mut kept: Vec<(String, u128)> = Vec::new();
        let mut i: usize = 0;
        while i < self.pairs.len()
            invariant
                i <= self.pairs@.len(),
                self.pairs@ == old(self).pairs@,
                k == sql@,
                kept@ == without_query(self.pairs@.subrange(0, i as int), k),
            decreases self.pairs@.len() - i,
        {
            let ghost pre = self.pairs@.subrange(0, i + 1);
            assert(pre.drop_last() =~= self.pairs@.subrange(0, i as int));
            assert(pre.last() == self.pairs@[i as int]);
            if !(self.pairs[i].0 == *sql) {
                let name = self.pairs[i].0.clone();
                kept.push((name, self.pairs[i].1));
                assert(kept@ =~= without_query(pre, k));
            } else {
                assert(kept@ =~= without_query(pre, k));
            }
            i = i + 1;
        }
        assert(self.pairs@.subrange(0, i as int) =~= self.pairs@);
        proof {
            lemma_without_query(self.pairs@, k);
        }
        self.pairs = kept;
    }
}

/// What a registry holds: the handles by id and the ids by query.
pub struct ManagerView {
    pub handles: Map<u128, MatcherHandle>,
    pub queries: Map<Seq<char>, u128>,
}

/// The registry keeps each handle under its own id, and a query that
/// names a registered id names the handle subscribed to that query.
pub open spec fn consistent(v: ManagerView) -> bool {
    &&& forall|id: u128| #[trigger] v.handles.contains_key(id) ==> v.handles[id].inner.id == id
    &&& forall|q: Seq<char>|
        #[trigger] v.queries.contains_key(q) && v.handles.contains_key(v.queries[q])
            ==> v.handles[v.queries[q]].inner.sql@ == q
}

/// Whether `h` can be registered without making the registry
/// inconsistent: no handle has its id, and a query that names its id is
/// its own query.
pub open spec fn insertable(v: ManagerView, h: MatcherHandle) -> bool {
    &&& !v.handles.contains_key(h.inner.id)
    &&& forall|q: Seq<char>|
        #[trigger] v.queries.contains_key(q) && v.queries[q] == h.inner.id ==> q == h.inner.sql@
}

/// The handle registered under `id`.
pub open spec fn lookup(v: ManagerView, id: u128) -> Option<MatcherHandle> {
    if v.handles.contains_key(id) {
        Some(v.handles[id])
    } else {
        None
    }
}

/// The handle registered for query `q`.
pub open spec fn lookup_query(v: ManagerView, q: Seq<char>) -> Option<MatcherHandle> {
    if v.queries.contains_key(q) && v.handles.contains_key(v.queries[q]) {
        Some(v.handles[v.queries[q]])
    } else {
        None
    }
}

/// The registry with `h` registered under its id and query.
pub open spec fn after_insert(v: ManagerView, h: MatcherHandle) -> ManagerView {
    ManagerView {
        handles: v.handles.insert(h.inner.id, h),
        queries: v.queries.insert(h.inner.sql@, h.inner.id),
    }
}

/// The registry with the handle under `id`, and its query, forgotten.
pub open spec fn after_remove(v: ManagerView, id: u128) -> ManagerView {
    if v.handles.contains_key(id) {
        ManagerView {
            handles: v.handles.remove(id),
            queries: v.queries.remove(v.handles[id].inner.sql@),
        }
    } else {
        v
    }
}

/// The registry with `h` registered under `id`, and `id` under query `q`.
pub open spec fn after_register(v: ManagerView, id: u128, q: Seq<char>, h: MatcherHandle) -> ManagerView {
    ManagerView { handles: v.handles.insert(id, h), queries: v.queries.insert(q, id) }
}

/// The running subscriptions.
#[derive(Debug)]
pub struct SubsManager {
    handles: BTreeMap<u128, MatcherHandle>,
    queries: QueryIndex,
}

impl View for SubsManager {
    type V = ManagerView;

    closed spec fn view(&self) -> ManagerView {
        ManagerView { handles: self.handles@, queries: self.queries@ }
    }
}

impl Default for SubsManager {
    fn default() -> (r: SubsManager)
        ensures
            r@.handles == Map::<u128, MatcherHandle>::empty(),
            r@.queries == Map::<Seq<char>, u128>::empty(),
    {
        SubsManager::new()
    }
}

impl SubsManager {
    /// An empty registry.
    pub fn new() -> (r: SubsManager)
        ensures
            r@.handles == Map::<u128, MatcherHandle>::empty(),
            r@.queries == Map::<Seq<char>, u128>::empty(),
            consistent(r@),
    {
        SubsManager { handles: BTreeMap::new(), queries: QueryIndex::new() }
    }

    /// The kind of subscriptions this registry keeps: `subs`.
    pub fn trait_type(&self) -> (r: String)
        ensures
            r@ == "subs"@,
    {
        <String as vstd::string::StringExecFns>::from_str("subs")
    }

    /// Whether a subscription is registered under `id`.
    pub fn contains(&self, id: &u128) -> (r: bool)
        ensures
            r == self@.handles.contains_key(*id),
    {
        self.handles.contains_key(id)
    }

    /// The subscription registered under `id`.
    pub fn get(&self, id: &u128) -> (r: Option<MatcherHandle>)
        ensures
            r == lookup(self@, *id),
    {
        match self.handles.get(id) {
            Some(h) => Some(h.clone()),
            None => None,
        }
    }

    /// The subscription to query `sql`.
    pub fn get_by_query(&self, sql: &String) -> (r: Option<MatcherHandle>)
        ensures
            r == lookup_query(self@, sql@),
    {
        match self.queries.get(sql) {
            Some(id) => self.get(&id),
            None => None,
        }
    }

    /// The subscription with the smallest id among those whose query hash
    /// is `hash`.
    pub fn get_by_hash(&self, hash: &String) -> (r: Option<MatcherHandle>)
        ensures
            r is None <==> forall|id: u128| #[trigger]
                self@.handles.contains_key(id) ==> self@.handles[id].inner.hash@ != hash@,
            r matches Some(h) ==> exists|id: u128|
                #[trigger] self@.handles.contains_key(id) && self@.handles[id] == h
                    && h.inner.hash@ == hash@ && forall|o: u128|
                    #[trigger] self@.handles.contains_key(o) && o < id
                        ==> self@.handles[o].inner.hash@ != hash@,
    {
        let ghost keys = vstd::std_specs::btree::spec_keys_iter(&self.handles).remaining().unref();
        let mut best: Option<u128> = None;
        for id in it: self.handles.keys()
            invariant
                it.seq().unref() == keys,
                keys.to_set() == self@.handles.dom(),
                match best {
                    None => forall|j: int| 0 <= j < it.index() ==> #[trigger] self@.handles[keys[j]].inner.hash@ != hash@,
                    Some(b) => self@.handles.contains_key(b) && self@.handles[b].inner.hash@ == hash@
                        && forall|j: int| 0 <= j < it.index() && #[trigger] self@.handles[keys[j]].inner.hash@ == hash@ ==> b <= keys[j],
                },
        {
            if let Some(h) = self.handles.get(id) {
                if h.inner.hash == *hash {
                    match best {
                        Some(b) => {
                            if *id < b {
                                best = Some(*id);
                            }
                        },
                        None => {
                            best = Some(*id);
                        },
                    }
                }
            }
        }
        match best {
            Some(b) => {
                proof {
                    assert forall|o: u128| #[trigger]
                        self@.handles.contains_key(o) && o < b implies self@.handles[o].inner.hash@
                        != hash@ by {
                        assert(keys.to_set().contains(o));
                        let j = choose|j: int| 0 <= j < keys.len() && keys[j] == o;
                        assert(keys[j] == o);
                        if self@.handles[keys[j]].inner.hash@ == hash@ {
                            assert(b <= keys[j]);
                        }
                    }
                }
                self.get(&b)
            },
            None => {
                proof {
                    assert forall|o: u128| #[trigger]
                        self@.handles.contains_key(o) implies self@.handles[o].inner.hash@ != hash@ by {
                        assert(keys.to_set().contains(o));
                        let j = choose|j: int| 0 <= j < keys.len() && keys[j] == o;
                        assert(keys[j] == o);
                        assert(self@.handles[keys[j]].inner.hash@ != hash@);
                    }
                }
                None
            },
        }
    }

    /// All registered subscriptions, by id.
    pub fn get_handles(&self) -> (r: BTreeMap<u128, MatcherHandle>)
        ensures
            r@ == self@.handles,
    {
        self.handles.clone()
    }

    /// Forgets the subscription under `id` and its query; gives it back.
    pub fn remove(&mut self, id: &u128) -> (r: Option<MatcherHandle>)
        ensures
            r == lookup(old(self)@, *id),
            final(self)@ == after_remove(old(self)@, *id),
            consistent(old(self)@) ==> consistent(final(self)@),
    {
        proof {
            if consistent(old(self)@) {
                law_remove_keeps_consistent(old(self)@, *id);
            }
        }
        match self.handles.remove(id) {
            Some(h) => {
                self.queries.remove(h.sql());
                Some(h)
            },
            None => {
                assert(self.handles@ =~= old(self).handles@);
                None
            },
        }
    }

    /// The subscription to `sql`, made by `create` under the id `id` when
    /// there is none yet.  An existing subscription is handed back with
    /// `None` and `create` is not called; a made one is registered under
    /// `id` and `sql`, and what `create` gave beside it comes back in `Some`.
    /// When `create` fails, its error comes back and nothing is registered.
    pub fn get_or_insert<C, F>(&mut self, sql: &String, id: u128, create: F) -> (r: Result<(MatcherHandle, Option<C>), MatcherError>)
        where
            F: FnOnce(u128) -> Result<(MatcherHandle, C), MatcherError>,
        requires
            lookup_query(old(self)@, sql@) is None ==> {
                &&& !old(self)@.handles.contains_key(id)
                &&& create.requires((id,))
                &&& forall|x: Result<(MatcherHandle, C), MatcherError>| #[trigger] create.ensures((id,), x)
                    ==> (x matches Ok(p) ==> p.0.inner.id == id && p.0.inner.sql@ == sql@)
            },
        ensures
            consistent(old(self)@) ==> (r matches Ok(p) ==> p.0.inner.sql@ == sql@),
            consistent(old(self)@) && (forall|q: Seq<char>| #[trigger] old(self)@.queries.contains_key(q)
                ==> old(self)@.queries[q] != id) ==> consistent(final(self)@),
            lookup_query(old(self)@, sql@) matches Some(h) ==> r == Ok::<(MatcherHandle, Option<C>), MatcherError>((h, None))
                && final(self)@ == old(self)@,
            lookup_query(old(self)@, sql@) is None ==> match r {
                Ok((h, made)) => made is Some && create.ensures((id,), Ok::<(MatcherHandle, C), MatcherError>((h, made->0)))
                    && final(self)@ == after_register(old(self)@, id, sql@, h),
                Err(e) => create.ensures((id,), Err::<(MatcherHandle, C), MatcherError>(e))
                    && final(self)@ == old(self)@,
            },
    {
        if let Some(h) = self.get_by_query(sql) {
            proof {
                if consistent(old(self)@) {
                    law_lookup_answers_the_question(old(self)@, sql@, id);
                }
            }
            return Ok((h, None));
        }
        let ghost before = self@;
        match create(id) {
            Ok((h, made)) => {
                self.handles.insert(id, h.clone());
                self.queries.insert(sql.clone(), id);
                proof {
                    if consistent(before) && (forall|q: Seq<char>| #[trigger] before.queries.contains_key(q)
                        ==> before.queries[q] != id) {
                        law_register_keeps_consistent(before, h);
                    }
                }
                Ok((h, Some(made)))
            },
            Err(e) => Err(e),
        }
    }

    /// Restores the subscription `id` with `create`, and registers it under
    /// `id` and its own query.  Refused with `CannotRestoreExisting`, without
    /// calling `create`, when a subscription is registered under `id`; when
    /// `create` fails, its error comes back and nothing is registered.
    pub fn restore<C, F>(&mut self, id: u128, create: F) -> (r: Result<(MatcherHandle, C), MatcherError>)
        where
            F: FnOnce(u128) -> Result<(MatcherHandle, C), MatcherError>,
        requires
            !old(self)@.handles.contains_key(id) ==> {
                &&& create.requires((id,))
                &&& forall|x: Result<(MatcherHandle, C), MatcherError>| #[trigger] create.ensures((id,), x)
                    ==> (x matches Ok(p) ==> p.0.inner.id == id)
            },
        ensures
            consistent(old(self)@) && (forall|q: Seq<char>| #[trigger] old(self)@.queries.contains_key(q)
                ==> old(self)@.queries[q] != id) ==> consistent(final(self)@),
            old(self)@.handles.contains_key(id) ==> (r matches Err(e) && e is CannotRestoreExisting)
                && final(self)@ == old(self)@,
            !old(self)@.handles.contains_key(id) ==> create.ensures((id,), r) && match r {
                Ok((h, _)) => final(self)@ == after_register(old(self)@, id, h.inner.sql@, h),
                Err(_) => final(self)@ == old(self)@,
            },
    {
        if self.handles.contains_key(&id) {
            return Err(MatcherError::CannotRestoreExisting);
        }
        let ghost before = self@;
        match create(id) {
            Ok((h, made)) => {
                let sql = h.sql().clone();
                self.handles.insert(id, h.clone());
                self.queries.insert(sql, id);
                proof {
                    if consistent(before) && (forall|q: Seq<char>| #[trigger] before.queries.contains_key(q)
                        ==> before.queries[q] != id) {
                        law_register_keeps_consistent(before, h);
                    }
                }
                Ok((h, made))
            },
            Err(e) => Err(e),
        }
    }

    /// Forgets every subscription, cancelling each; the ids by query stay.
    pub fn drop_handles(&mut self)
        ensures
            final(self)@.handles == Map::<u128, MatcherHandle>::empty(),
            final(self)@.queries == old(self)@.queries,
            consistent(final(self)@),
    {
        let mut handles: BTreeMap<u128, MatcherHandle> = BTreeMap::new();
        std::mem::swap(&mut handles, &mut self.handles);
        for id in it: handles.keys()
            invariant
                self@.handles == Map::<u128, MatcherHandle>::empty(),
                self@.queries == old(self)@.queries,
        {
            if let Some(h) = handles.get(id) {
                h.cleanup();
            }
        }
    }
}

/// Registering a handle that can be registered keeps the registry
/// consistent.
pub proof fn law_insert_keeps_consistent(v: ManagerView, h: MatcherHandle)
    requires
        consistent(v),
        insertable(v, h),
    ensures
        consistent(after_insert(v, h)),
{
    let w = after_insert(v, h);
    assert forall|q: Seq<char>| #[trigger] w.queries.contains_key(q) && w.handles.contains_key(
        w.queries[q],
    ) implies w.handles[w.queries[q]].inner.sql@ == q by {
        if q != h.inner.sql@ {
            assert(v.queries.contains_key(q));
            assert(v.queries[q] != h.inner.id);
            assert(v.handles.contains_key(v.queries[q]));
        }
    }
}

/// Forgetting a subscription keeps the registry consistent.
pub proof fn law_remove_keeps_consistent(v: ManagerView, id: u128)
    requires
        consistent(v),
    ensures
        consistent(after_remove(v, id)),
{
}

/// Forgetting every subscription keeps the registry consistent.
pub proof fn law_drop_keeps_consistent(v: ManagerView)
    ensures
        consistent(ManagerView { handles: Map::empty(), queries: v.queries }),
{
}

/// A registered handle can be found under its id and its query, and the
/// other ids find what they found before.
pub proof fn law_lookup_after_insert(v: ManagerView, h: MatcherHandle, other: u128)
    requires
        consistent(v),
        insertable(v, h),
    ensures
        lookup(after_insert(v, h), h.inner.id) == Some(h),
        lookup_query(after_insert(v, h), h.inner.sql@) == Some(h),
        other != h.inner.id ==> lookup(after_insert(v, h), other) == lookup(v, other),
{
}

/// A forgotten subscription is found neither under its id nor under its
/// query.
pub proof fn law_lookup_after_remove(v: ManagerView, id: u128)
    requires
        consistent(v),
    ensures
        lookup(after_remove(v, id), id) is None,
        lookup(v, id) matches Some(h) ==> lookup_query(after_remove(v, id), h.inner.sql@) is None,
{
}

/// What is found for a query is the subscription to that query, and what
/// is found under an id has that id.
pub proof fn law_lookup_answers_the_question(v: ManagerView, q: Seq<char>, id: u128)
    requires
        consistent(v),
    ensures
        lookup_query(v, q) matches Some(h) ==> h.inner.sql@ == q,
        lookup(v, id) matches Some(h) ==> h.inner.id == id,
{
}

/// A subscription registered for a query is what that query finds
/// afterwards, and what its id finds: a second `get_or_insert` for the same
/// query therefore hands back the same handle and leaves the registry as it
/// is.
pub proof fn law_lookup_after_register(v: ManagerView, id: u128, q: Seq<char>, h: MatcherHandle)
    ensures
        lookup_query(after_register(v, id, q, h), q) == Some(h),
        lookup(after_register(v, id, q, h), id) == Some(h),
{
}

/// Registering a subscription under its own id and its own query keeps the
/// registry consistent, when it can be registered.
pub proof fn law_register_keeps_consistent(v: ManagerView, h: MatcherHandle)
    requires
        consistent(v),
        insertable(v, h),
    ensures
        consistent(after_register(v, h.inner.id, h.inner.sql@, h)),
{
    law_insert_keeps_consistent(v, h);
    assert(after_register(v, h.inner.id, h.inner.sql@, h) == after_insert(v, h));
}

/// Removing a subscription that was just registered under its own id and
/// query forgets it under both, and every other id and every other query
/// finds what it found before the registration.
pub proof fn law_remove_after_register(v: ManagerView, h: MatcherHandle, other: u128, q: Seq<char>)
    requires
        !v.handles.contains_key(h.inner.id),
    ensures
        lookup(after_remove(after_register(v, h.inner.id, h.inner.sql@, h), h.inner.id), h.inner.id) is None,
        lookup_query(after_remove(after_register(v, h.inner.id, h.inner.sql@, h), h.inner.id), h.inner.sql@) is None,
        other != h.inner.id ==> lookup(after_remove(after_register(v, h.inner.id, h.inner.sql@, h), h.inner.id), other)
            == lookup(v, other),
        q != h.inner.sql@ ==> lookup_query(after_remove(after_register(v, h.inner.id, h.inner.sql@, h), h.inner.id), q)
            == lookup_query(v, q),
{
    let w = after_remove(after_register(v, h.inner.id, h.inner.sql@, h), h.inner.id);
    assert(w.handles =~= v.handles);
    assert(w.queries =~= v.queries.remove(h.inner.sql@));
}

} // verus!
