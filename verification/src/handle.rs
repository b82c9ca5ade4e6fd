//! A running subscription as the rest of the system sees it.
use crate::ast::ResultColumn;
use crate::candidates::{is_crsql_sentinel, sentinel_column, MatchCandidates, MatchableChange};
use crate::columns::{column_map_entries, column_map_get, key_position, ColumnSet};
use crate::db::{lemma_key_position_view, numbered, table_columns_view, OutColumn, ParsedSelect, TableColumns};
use crate::text::{decimal, u64_to_decimal};
use std::collections::HashMap;
use std::sync::Arc;
use tokio::sync::{mpsc, oneshot, watch};
use tokio_util::sync::CancellationToken;
use vstd::prelude::*;

verus! {

#[verifier::external_type_specification]
#[verifier::external_body]
pub struct ExCancellationToken(CancellationToken);

#[verifier::external_type_specification]
#[verifier::external_body]
#[verifier::reject_recursive_types(T)]
pub struct ExMpscSender<T>(mpsc::Sender<T>);

#[verifier::external_type_specification]
#[verifier::external_body]
#[verifier::reject_recursive_types(T)]
pub struct ExWatchReceiver<T>(watch::Receiver<T>);

#[verifier::external_type_specification]
#[verifier::external_body]
#[verifier::reject_recursive_types(T)]
pub struct ExOneshotSender<T>(oneshot::Sender<T>);

#[verifier::external_type_specification]
#[verifier::external_body]
#[verifier::reject_recursive_types(R)]
#[verifier::reject_recursive_types(T)]
pub struct ExLockMutex<R, T: ?Sized>(lock_api::Mutex<R, T>);

#[verifier::external_type_specification]
#[verifier::external_body]
pub struct ExRawMutex(parking_lot::RawMutex);

#[verifier::external_type_specification]
#[verifier::external_body]
pub struct ExCondvar(parking_lot::Condvar);

/// Where a subscription's matcher is in its life.
#[derive(Clone, Copy, Debug, PartialEq, Eq, Structural)]
pub enum MatcherState {
    /// Created, not yet serving.
    Created,
    /// Serving changes.
    Running,
}

impl MatcherState {
    /// Whether the matcher is serving changes.
    pub fn is_running(&self) -> (r: bool)
        ensures
            r == (*self is Running),
    {
        match self {
            MatcherState::Running => true,
            MatcherState::Created => false,
        }
    }
}

/// The state of a matcher, with the condition variable that announces its
/// changes.
pub type StateLock = Arc<(parking_lot::Mutex<MatcherState>, parking_lot::Condvar)>;

/// The statements a matcher prepared for one table.
#[derive(Debug, Clone)]
pub struct MatcherStmt {
    pub new_query: String,
    pub temp_query: String,
}

/// What a subscription handle shares between its copies.
#[derive(Debug)]
pub struct InnerMatcherHandle {
    /// The subscription's id (a UUID, as its 128-bit value).
    pub id: u128,
    /// The subscribed query.
    pub sql: String,
    /// The hash of the subscribed query.
    pub hash: String,
    /// What the query reads.
    pub parsed: ParsedSelect,
    /// The names of the query's result columns.
    pub col_names: Vec<String>,
    /// Cancels the subscription.
    pub cancel: CancellationToken,
    /// Where candidate changes are sent to the matcher.
    pub changes_tx: mpsc::Sender<MatchCandidates>,
    /// The id of the last change sent to subscribers.
    pub last_change_rx: watch::Receiver<u64>,
    /// Where purge requests are sent to the matcher.
    pub purge_tx: mpsc::Sender<oneshot::Sender<Result<usize, rusqlite::Error>>>,
    /// Where the subscription keeps its database.
    pub subs_path: String,
    /// The statements the matcher prepared, by table.
    pub cached_statements: HashMap<String, MatcherStmt>,
}

/// A handle on a running subscription; copies share the subscription.
#[derive(Debug)]
pub struct MatcherHandle {
    pub inner: Arc<InnerMatcherHandle>,
    pub state: StateLock,
}

/// Another pointer to the same value (`<Arc<T> as Clone>::clone`).
#[verifier::external_body]
pub(crate) fn arc_clone<T>(a: &Arc<T>) -> (r: Arc<T>)
    ensures
        r == *a,
{
    a.clone()
}

/// Another sender on the same channel (`<mpsc::Sender<T> as Clone>::clone`).
/// Nothing is stated of the result: the channel is opaque here.
#[verifier::external_body]
fn sender_clone<T>(s: &mpsc::Sender<T>) -> mpsc::Sender<T> {
    s.clone()
}

/// The value last sent on a watch channel (`watch::Receiver::borrow`,
/// copied out).  Nothing is stated of it: another task may send at any time.
#[verifier::external_body]
fn watch_current(r: &watch::Receiver<u64>) -> u64 {
    *r.borrow()
}

/// Cancels the token (`CancellationToken::cancel`).  Nothing is stated: the
/// effect is on tasks that wait for the token.
#[verifier::external_body]
fn cancel_token(t: &CancellationToken) {
    t.cancel()
}

impl Clone for MatcherHandle {
    fn clone(&self) -> (r: Self)
        ensures
            r == *self,
    {
        MatcherHandle { inner: arc_clone(&self.inner), state: arc_clone(&self.state) }
    }
}

/// Whether a query that reads `tables` reads column `c` of table `t`: the
/// table is among them and the column is among its columns or stands for
/// the whole row.
pub open spec fn reads_column(tables: TableColumns, t: Seq<char>, c: Seq<char>) -> bool {
    key_position(tables, t) >= 0 && (c == sentinel_column() || tables[key_position(
        tables,
        t,
    )].1.contains(c))
}

/// The candidates with key `pk` of `table` recorded at causal length `cl`.
pub open spec fn with_candidate(
    m: Map<Seq<char>, Map<Seq<u8>, i64>>,
    t: Seq<char>,
    pk: Seq<u8>,
    cl: i64,
) -> Map<Seq<char>, Map<Seq<u8>, i64>> {
    m.insert(
        t,
        if m.contains_key(t) {
            m[t].insert(pk, cl)
        } else {
            Map::empty().insert(pk, cl)
        },
    )
}

/// Whether a change to column `c` of the row with key `pk` in table `t`
/// becomes a candidate: the row is not a candidate yet, and a query that
/// reads `tables` reads that column.
pub open spec fn accepts_change(
    m: Map<Seq<char>, Map<Seq<u8>, i64>>,
    tables: TableColumns,
    t: Seq<char>,
    pk: Seq<u8>,
    c: Seq<char>,
) -> bool {
    !(m.contains_key(t) && m[t].contains_key(pk)) && reads_column(tables, t, c)
}

/// A row is taken as a candidate once: after a change to it was taken, no
/// other change to the same row is, whatever its column.
pub proof fn law_row_taken_once(
    m: Map<Seq<char>, Map<Seq<u8>, i64>>,
    tables: TableColumns,
    t: Seq<char>,
    pk: Seq<u8>,
    cl: i64,
    c: Seq<char>,
)
    ensures
        !accepts_change(with_candidate(m, t, pk, cl), tables, t, pk, c),
        with_candidate(m, t, pk, cl)[t][pk] == cl,
{
}

impl MatcherHandle {
    /// The subscription's id.
    pub fn id(&self) -> (r: u128)
        ensures
            r == self.inner.id,
    {
        self.inner.id
    }

    /// The subscribed query.
    pub fn sql(&self) -> (r: &String)
        ensures
            *r == self.inner.sql,
    {
        &self.inner.sql
    }

    /// The hash of the subscribed query.
    pub fn hash(&self) -> (r: &str)
        ensures
            r@ == self.inner.hash@,
    {
        self.inner.hash.as_str()
    }

    /// The query's result columns, aliased `col_0`, `col_1`, ...
    pub fn parsed_columns(&self) -> (r: &[ResultColumn])
        ensures
            r@ == self.inner.parsed.columns@,
    {
        self.inner.parsed.columns.as_slice()
    }

    /// The names of the query's result columns.
    pub fn col_names(&self) -> (r: &[String])
        ensures
            r@ == self.inner.col_names@,
    {
        self.inner.col_names.as_slice()
    }

    /// Where the subscription keeps its database.
    pub fn subs_path(&self) -> (r: &String)
        ensures
            *r == self.inner.subs_path,
    {
        &self.inner.subs_path
    }

    /// The statements the matcher prepared, by table.
    pub fn cached_stmts(&self) -> (r: &HashMap<String, MatcherStmt>)
        ensures
            *r == self.inner.cached_statements,
    {
        &self.inner.cached_statements
    }

    /// A sender of candidate changes to the matcher.
    pub fn changes_tx(&self) -> mpsc::Sender<MatchCandidates> {
        sender_clone(&self.inner.changes_tx)
    }

    /// The id of the last change sent to subscribers.
    pub fn last_change_id_sent(&self) -> u64 {
        watch_current(&self.inner.last_change_rx)
    }

    /// Cancels the subscription.
    pub fn cleanup(&self) {
        cancel_token(&self.inner.cancel)
    }

    /// Adds `change` to `candidates` when the query reads its column and
    /// the row is not a candidate yet; says whether it was added.
    pub fn filter_matchable_change(&self, candidates: &mut MatchCandidates, change: MatchableChange) -> (r: bool)
        ensures
            r == accepts_change(
                old(candidates)@,
                self.inner.parsed@.tables,
                change.table@,
                change.pk@,
                change.column@,
            ),
            final(candidates)@ == if r {
                with_candidate(old(candidates)@, change.table@, change.pk@, change.cl)
            } else {
                old(candidates)@
            },
    {
        if let Some(pks) = candidates.get(change.table) {
            if pks.contains_key(change.pk) {
                return false;
            }
        }
        let parsed: &ParsedSelect = &self.inner.parsed;
        let reads = match column_map_get(&parsed.table_columns, change.table) {
            Some(cols) => is_crsql_sentinel(change.column) || cols.contains(change.column),
            None => false,
        };
        proof {
            let e = column_map_entries(parsed.table_columns);
            lemma_key_position_view(e, change.table@);
            let p = key_position(e, change.table@);
            if p >= 0 {
                crate::columns::lemma_key_position(e, change.table@);
                assert(parsed@.tables[p].1 == e[p].1@);
            }
        }
        if !reads {
            return false;
        }
        let mut pk: Vec<u8> = Vec::new();
        let mut i: usize = 0;
        while i < change.pk.len()
            invariant
                i <= change.pk@.len(),
                pk@ == change.pk@.subrange(0, i as int),
            decreases change.pk@.len() - i,
        {
            pk.push(change.pk[i]);
            i = i + 1;
        }
        assert(pk@ =~= change.pk@);
        let replaced = candidates.insert(change.table, pk, change.cl);
        replaced.is_none()
    }

    /// The query that reads the changes after a given change id, with every
    /// result column of the subscription.
    pub fn changes_since_query(&self) -> (r: String)
        ensures
            r@ == "SELECT id, type, __corro_rowid, "@ + column_list(
                self.inner.parsed.columns@.len(),
            ) + " FROM changes WHERE id > ? ORDER BY id ASC"@,
    {
        let mut q = <String as vstd::string::StringExecFns>::from_str("SELECT id, type, __corro_rowid, ");
        let cols = column_list_string(self.inner.parsed.columns.len());
        q.append(cols.as_str());
        q.append(" FROM changes WHERE id > ? ORDER BY id ASC");
        q
    }

    /// The query that reads all current rows, with every result column of the
    /// subscription.
    pub fn all_rows_query(&self) -> (r: String)
        ensures
            r@ == "SELECT __corro_rowid, "@ + column_list(self.inner.parsed.columns@.len())
                + " FROM query"@,
    {
        let mut q = <String as vstd::string::StringExecFns>::from_str("SELECT __corro_rowid, ");
        let cols = column_list_string(self.inner.parsed.columns.len());
        q.append(cols.as_str());
        q.append(" FROM query");
        q
    }
}

/// `col_0,col_1,...,col_<n-1>`.
pub open spec fn column_list(n: nat) -> Seq<char>
    decreases n,
{
    if n == 0 {
        Seq::empty()
    } else if n == 1 {
        crate::db::col_alias(0)
    } else {
        column_list((n - 1) as nat) + ","@ + crate::db::col_alias((n - 1) as nat)
    }
}

/// The aliases of `cols`, in order, separated by commas.
pub open spec fn alias_list(cols: Seq<OutColumn>) -> Seq<char>
    decreases cols.len(),
{
    if cols.len() == 0 {
        Seq::empty()
    } else if cols.len() == 1 {
        cols[0].alias
    } else {
        alias_list(cols.drop_last()) + ","@ + cols.last().alias
    }
}

/// The queries that read a subscription's rows and changes name its result
/// columns by the aliases that extraction gave them, in order.
pub proof fn law_queries_name_the_result_columns(cols: Seq<OutColumn>)
    requires
        numbered(cols),
    ensures
        column_list(cols.len()) == alias_list(cols),
    decreases cols.len(),
{
    if cols.len() > 1 {
        let front = cols.drop_last();
        assert forall|i: int| 0 <= i < front.len() implies #[trigger] front[i].alias == crate::db::col_alias(i as nat) by {
            assert(front[i] == cols[i]);
        }
        law_queries_name_the_result_columns(front);
        assert(cols.last() == cols[cols.len() - 1]);
    } else if cols.len() == 1 {
        assert(cols[0].alias == crate::db::col_alias(0));
    }
}

/// `col_0,col_1,...,col_<n-1>`.
pub fn column_list_string(n: usize) -> (r: String)
    ensures
        r@ == column_list(n as nat),
{
    let mut s = String::new();
    let mut i: usize = 0;
    while i < n
        invariant
            i <= n,
            s@ == column_list(i as nat),
        decreases n - i,
    {
        if i > 0 {
            s.append(",");
        }
        let a = crate::db::col_alias_string(i);
        s.append(a.as_str());
        i = i + 1;
    }
    s
}

/// The text of the refusal to send changes that were already purged.
pub open spec fn purged_message(min_change_id: u64) -> Seq<char> {
    "subscription already deleted older changes, min change id: "@ + decimal(min_change_id as nat)
}

/// Whether changes after `since` can still be sent when the oldest kept
/// change is `min_change_id`: they cannot when a change right after `since`
/// was purged.
pub fn check_since(since: u64, min_change_id: u64) -> (r: Result<(), String>)
    requires
        since < u64::MAX,
    ensures
        r is Err <==> since + 1 < min_change_id,
        r matches Err(m) ==> m@ == purged_message(min_change_id),
{
    if since + 1 < min_change_id {
        let mut m = <String as vstd::string::StringExecFns>::from_str(
            "subscription already deleted older changes, min change id: ",
        );
        let d = u64_to_decimal(min_change_id);
        m.append(d.as_str());
        Err(m)
    } else {
        Ok(())
    }
}

/// The largest change id seen once `change_id` is seen after `max`.
pub fn max_change_id_after(max: u64, change_id: u64) -> (r: u64)
    ensures
        r == if change_id > max { change_id } else { max },
{
    if change_id > max {
        change_id
    } else {
        max
    }
}

/// How far sending the changes after a change id has got: the largest
/// change id read so far, and whether to go on.
pub struct ChangeCursor {
    pub max_change_id: u64,
    pub open: bool,
}

impl ChangeCursor {
    /// Nothing read yet after change `since`.
    pub fn start(since: u64) -> (c: ChangeCursor)
        ensures
            c.max_change_id == since,
            c.open,
    {
        ChangeCursor { max_change_id: since, open: true }
    }

    /// A change with id `change_id` was read and offered to the subscriber;
    /// `delivered` says whether it was taken.  Its id counts whether or not
    /// it was delivered; once one is not, sending stops.
    pub fn on_change(&mut self, change_id: u64, delivered: bool)
        requires
            old(self).open,
        ensures
            final(self).max_change_id == if change_id > old(self).max_change_id {
                change_id
            } else {
                old(self).max_change_id
            },
            final(self).open == delivered,
    {
        self.max_change_id = max_change_id_after(self.max_change_id, change_id);
        self.open = delivered;
    }
}

} // verus!
