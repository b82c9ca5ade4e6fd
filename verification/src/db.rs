//! Which tables and columns a SELECT statement reads.
//!
//! Extraction walks the statement in the order the text gives it: the FROM
//! table, the joins, the WHERE clause, then the result columns, which are
//! renamed `col_0`, `col_1`, ... in order.  Subqueries are extracted on their
//! own and kept as children.
use crate::ast::{
    As, CaseArms, ColumnList, Expr, ExprList, FromClause, JoinConstraint, JoinList, NameList,
    OneSelect, QualifiedName, ResultColumn, Select, SelectTable,
};
use crate::columns::{
    column_map_entries, column_map_entry, column_map_get_index, column_map_len, column_map_new,
    key_position, lemma_key_position, names_set, Aliases, ColumnSet,
};
use crate::error::MatcherError;
use crate::schema::{Column, Schema, Table};
use crate::text::{decimal, spec_unquote, unquote, usize_to_decimal};
use indexmap::IndexMap;
use vstd::prelude::*;

verus! {

/// The tables a query reads, in the order they were first met, each with the
/// columns of it that the query reads.
pub type TableColumns = Seq<(Seq<char>, Set<Seq<char>>)>;

/// A result column after extraction: the expression and its alias.
pub struct OutColumn {
    pub expr: Expr,
    pub alias: Seq<char>,
}

/// The extraction state: what a `ParsedSelect` stands for.
pub struct SelectState {
    pub tables: TableColumns,
    pub aliases: Map<Seq<char>, Seq<char>>,
    pub columns: Seq<OutColumn>,
    pub children: Seq<SelectState>,
}

/// Why extraction refused a statement.
pub enum ExtractError {
    TableNotFound(Seq<char>),
    TableStarNotFound(Seq<char>),
    QualificationRequired(Seq<char>),
    TableForColumnNotFound(Seq<char>),
    UnsupportedExpr(Expr),
}

/// The outcome of extracting from part of a statement: the new state, a
/// refusal, or `Stuck` for `*` with no table to expand it against, on which
/// extraction is not defined.  A refusal and `Stuck` carry the state that
/// extraction had reached when it stopped.
pub enum Step {
    Done(SelectState),
    Fail(ExtractError, SelectState),
    Stuck(SelectState),
}

/// The state a step ends in, whatever its outcome.
pub open spec fn step_state(p: Step) -> SelectState {
    match p {
        Step::Done(st) => st,
        Step::Fail(_, st) => st,
        Step::Stuck(st) => st,
    }
}

/// What extracting a subquery does to the enclosing state `st`: its
/// extraction becomes a child; when it stops, `st` is left as it was.
pub open spec fn with_child(st: SelectState, child: Step) -> Step {
    match child {
        Step::Done(c) => Step::Done(add_child(st, c)),
        Step::Fail(x, _) => Step::Fail(x, st),
        Step::Stuck(_) => Step::Stuck(st),
    }
}

/// The extraction error that a `MatcherError` reports, if it is one.
pub open spec fn extract_error(e: MatcherError) -> Option<ExtractError> {
    match e {
        MatcherError::TableNotFound(t) => Some(ExtractError::TableNotFound(t@)),
        MatcherError::TableStarNotFound { tbl_name } => Some(
            ExtractError::TableStarNotFound(tbl_name@),
        ),
        MatcherError::QualificationRequired { col_name } => Some(
            ExtractError::QualificationRequired(col_name@),
        ),
        MatcherError::TableForColumnNotFound { col_name } => Some(
            ExtractError::TableForColumnNotFound(col_name@),
        ),
        MatcherError::UnsupportedExpr { expr } => Some(ExtractError::UnsupportedExpr(expr)),
        _ => None,
    }
}

/// The alias of the result column at position `i`: `col_<i>`.
pub open spec fn col_alias(i: nat) -> Seq<char> {
    "col_"@ + decimal(i)
}

/// The state of a statement that nothing has been extracted from.
pub open spec fn empty_state() -> SelectState {
    SelectState {
        tables: Seq::empty(),
        aliases: Map::empty(),
        columns: Seq::empty(),
        children: Seq::empty(),
    }
}

/// `tables` with an (empty) entry for table `k` added at the end when it has none.
pub open spec fn touch(tables: TableColumns, k: Seq<char>) -> TableColumns {
    if key_position(tables, k) >= 0 {
        tables
    } else {
        tables.push((k, Set::empty()))
    }
}

/// `tables` with the columns `cols` added to table `k`.
pub open spec fn add_columns(tables: TableColumns, k: Seq<char>, cols: Set<Seq<char>>) -> TableColumns {
    let u = touch(tables, k);
    let p = key_position(u, k);
    u.update(p, (k, u[p].1.union(cols)))
}

/// What `insert_col` records for column `c` of table `t`: its stored columns.
pub open spec fn column_of(s: Schema, t: Seq<char>, c: Seq<char>) -> Set<Seq<char>> {
    s.base_columns(t, c, s.column_count(t))
}

/// The name a table is referred to by in the query, with aliases resolved.
pub open spec fn resolve(st: SelectState, t: Seq<char>) -> Seq<char> {
    if st.aliases.contains_key(t) {
        st.aliases[t]
    } else {
        t
    }
}

/// `st` with column `c` of table `t` recorded.
pub open spec fn record(st: SelectState, s: Schema, t: Seq<char>, c: Seq<char>) -> SelectState {
    SelectState { tables: add_columns(st.tables, t, column_of(s, t, c)), ..st }
}

/// Which of the query's tables has a column: none, exactly one, or more.
pub enum Owner {
    NotFound,
    Found(Seq<char>),
    Ambiguous,
}

/// The tables among `tables` (in order) that have column `c`.
pub open spec fn owner(tables: TableColumns, s: Schema, c: Seq<char>) -> Owner
    decreases tables.len(),
{
    if tables.len() == 0 {
        Owner::NotFound
    } else {
        let prev = owner(tables.drop_last(), s, c);
        let k = tables.last().0;
        if !s.table_has_column(k, c) {
            prev
        } else {
            match prev {
                Owner::NotFound => Owner::Found(k),
                _ => Owner::Ambiguous,
            }
        }
    }
}

/// A name as it is looked up: unquoted when it is a quoted string.
pub open spec fn lookup_name(n: Seq<char>) -> Seq<char> {
    match spec_unquote(n) {
        Some(u) => u,
        None => n,
    }
}

/// `st` with child `c` added.
pub open spec fn add_child(st: SelectState, c: SelectState) -> SelectState {
    SelectState { children: st.children.push(c), ..st }
}

/// Extraction from an expression.
pub open spec fn expr_step(st: SelectState, e: Expr, s: Schema) -> Step
    decreases e, 0nat,
{
    match e {
        Expr::Qualified(t, c) => Step::Done(record(st, s, resolve(st, t@), c@)),
        Expr::DoublyQualified(db, t, c) => if db@ == "main"@ {
            Step::Done(record(st, s, resolve(st, t@), c@))
        } else {
            Step::Done(st)
        },
        Expr::Name(c) => {
            let n = lookup_name(c@);
            match owner(st.tables, s, n) {
                Owner::Ambiguous => Step::Fail(ExtractError::QualificationRequired(n), st),
                Owner::NotFound => Step::Fail(ExtractError::TableForColumnNotFound(n), st),
                Owner::Found(t) => Step::Done(record(st, s, t, n)),
            }
        },
        Expr::Id(c) => {
            let n = lookup_name(c@);
            match owner(st.tables, s, n) {
                Owner::Ambiguous => Step::Fail(ExtractError::QualificationRequired(n), st),
                Owner::NotFound => if c@.len() > 0 && c@[0] == '"' {
                    Step::Done(st)
                } else {
                    Step::Fail(ExtractError::TableForColumnNotFound(c@), st)
                },
                Owner::Found(t) => Step::Done(record(st, s, t, c@)),
            }
        },
        Expr::Between { lhs, .. } => expr_step(st, *lhs, s),
        Expr::Binary(l, _, r) => match expr_step(st, *l, s) {
            Step::Done(st2) => expr_step(st2, *r, s),
            other => other,
        },
        Expr::Case { base, when_then_pairs, else_expr } => {
            let s1 = match base {
                Some(b) => expr_step(st, *b, s),
                None => Step::Done(st),
            };
            match s1 {
                Step::Done(st1) => match arms_step(st1, when_then_pairs, s) {
                    Step::Done(st2) => match else_expr {
                        Some(x) => expr_step(st2, *x, s),
                        None => Step::Done(st2),
                    },
                    other => other,
                },
                other => other,
            }
        },
        Expr::Cast { expr, .. } => expr_step(st, *expr, s),
        Expr::Collate(x, _) => expr_step(st, *x, s),
        Expr::Exists(sel) => with_child(st, select_step(*sel, s)),
        Expr::FunctionCall { args, .. } => match args {
            Some(l) => exprs_step(st, l, s),
            None => Step::Done(st),
        },
        Expr::InList { lhs, rhs, .. } => match expr_step(st, *lhs, s) {
            Step::Done(st2) => match rhs {
                Some(l) => exprs_step(st2, l, s),
                None => Step::Done(st2),
            },
            other => other,
        },
        Expr::InSelect { lhs, rhs, .. } => match expr_step(st, *lhs, s) {
            Step::Done(st2) => with_child(st2, select_step(*rhs, s)),
            other => other,
        },
        Expr::InTable { .. } => Step::Fail(ExtractError::UnsupportedExpr(e), st),
        Expr::IsNull(x) => expr_step(st, *x, s),
        Expr::Like { lhs, rhs, .. } => match expr_step(st, *lhs, s) {
            Step::Done(st2) => expr_step(st2, *rhs, s),
            other => other,
        },
        Expr::NotNull(x) => expr_step(st, *x, s),
        Expr::Parenthesized(l) => exprs_step(st, l, s),
        Expr::Subquery(sel) => with_child(st, select_step(*sel, s)),
        Expr::Unary(_, x) => expr_step(st, *x, s),
        _ => Step::Done(st),
    }
}

/// Extraction from a list of expressions, in order.
pub open spec fn exprs_step(st: SelectState, l: ExprList, s: Schema) -> Step
    decreases l, 0nat,
{
    match l {
        ExprList::Nil => Step::Done(st),
        ExprList::Cons(h, t) => match expr_step(st, *h, s) {
            Step::Done(st2) => exprs_step(st2, *t, s),
            other => other,
        },
    }
}

/// Extraction from the `WHEN` conditions of a `CASE`, in order (the `THEN`
/// results are not read).
pub open spec fn arms_step(st: SelectState, l: CaseArms, s: Schema) -> Step
    decreases l, 0nat,
{
    match l {
        CaseArms::Nil => Step::Done(st),
        CaseArms::Cons(w, _, t) => match expr_step(st, *w, s) {
            Step::Done(st2) => arms_step(st2, *t, s),
            other => other,
        },
    }
}

/// `st` with the alias of a FROM or JOIN table recorded: the `AS` alias if
/// there is one, else the alias of the qualified name.
pub open spec fn alias_step(st: SelectState, q: QualifiedName, a: Option<As>) -> SelectState {
    match a {
        Some(As::As(x)) => SelectState { aliases: st.aliases.insert(x@, q.name@), ..st },
        Some(As::Elided(x)) => SelectState { aliases: st.aliases.insert(x@, q.name@), ..st },
        None => match q.alias {
            Some(x) => SelectState { aliases: st.aliases.insert(x@, q.name@), ..st },
            None => st,
        },
    }
}

/// `st` with an entry for table `t`.
pub open spec fn touch_step(st: SelectState, t: Seq<char>) -> SelectState {
    SelectState { tables: touch(st.tables, t), ..st }
}

/// Recording the columns of a `USING` list for table `t`.
pub open spec fn using_step(st: SelectState, names: NameList, t: Seq<char>, s: Schema) -> SelectState
    decreases names,
{
    match names {
        NameList::Nil => st,
        NameList::Cons(n, rest) => using_step(record(st, s, t, n@), *rest, t, s),
    }
}

/// Extraction from the joins of a FROM clause, in order.
pub open spec fn joins_step(st: SelectState, l: JoinList, s: Schema) -> Step
    decreases l, 0nat,
{
    match l {
        JoinList::Nil => Step::Done(st),
        JoinList::Cons(j, rest) => match j.table {
            SelectTable::Table(q, a) => {
                let st1 = touch_step(alias_step(st, q, a), q.name@);
                let s2 = match j.constraint {
                    None => Step::Done(st1),
                    Some(JoinConstraint::On(e)) => expr_step(st1, e, s),
                    Some(JoinConstraint::Using(names)) => Step::Done(
                        using_step(st1, names, q.name@, s),
                    ),
                };
                match s2 {
                    Step::Done(st2) => joins_step(st2, *rest, s),
                    other => other,
                }
            },
            SelectTable::Other(_) => joins_step(st, *rest, s),
        },
    }
}

/// The columns a `*` or `tbl.*` expands to: one per column of the table,
/// the column's name qualified by `qualifier` when there is one, numbered
/// after the result columns added since there were `first` of them.
pub open spec fn star_columns(st: SelectState, tbl: Table, qualifier: Option<String>, first: nat) -> Seq<OutColumn> {
    Seq::new(
        tbl.columns@.len(),
        |j: int|
            OutColumn {
                expr: match qualifier {
                    Some(q) => Expr::Qualified(q, tbl.columns@[j].name),
                    None => Expr::Name(tbl.columns@[j].name),
                },
                alias: col_alias((st.columns.len() - first + j) as nat),
            },
    )
}

/// `st` with a `*` or `tbl.*` over table `tbl` expanded.
pub open spec fn star_step(st: SelectState, tbl: Table, qualifier: Option<String>, first: nat) -> SelectState {
    SelectState {
        tables: add_columns(st.tables, tbl.name@, names_set(tbl.columns@.map_values(|c: Column| c.name))),
        columns: st.columns + star_columns(st, tbl, qualifier, first),
        ..st
    }
}

/// Extraction from the result columns, in order; `from` is the FROM table,
/// if the statement has one that is a named table.  The result columns are
/// numbered from `col_0` on, counting those added since there were `first`.
pub open spec fn columns_step(st: SelectState, l: ColumnList, from: Option<Seq<char>>, s: Schema, first: nat) -> Step
    decreases l, 0nat,
{
    match l {
        ColumnList::Nil => Step::Done(st),
        ColumnList::Cons(c, rest) => {
            let s1 = match c {
                ResultColumn::Expr(e, _) => match expr_step(st, e, s) {
                    Step::Done(st2) => Step::Done(
                        SelectState {
                            columns: st2.columns.push(
                                OutColumn { expr: e, alias: col_alias((st2.columns.len() - first) as nat) },
                            ),
                            ..st2
                        },
                    ),
                    other => other,
                },
                ResultColumn::Star => match from {
                    None => Step::Stuck(st),
                    Some(t) => match s.table(t) {
                        None => Step::Fail(ExtractError::TableStarNotFound(t), st),
                        Some(tbl) => Step::Done(star_step(st, tbl, None, first)),
                    },
                },
                ResultColumn::TableStar(q) => {
                    let t = resolve(st, q@);
                    match s.table(t) {
                        None => Step::Fail(ExtractError::TableStarNotFound(t), st),
                        Some(tbl) => Step::Done(star_step(st, tbl, Some(q), first)),
                    }
                },
            };
            match s1 {
                Step::Done(st2) => columns_step(st2, *rest, from, s, first),
                other => other,
            }
        },
    }
}

/// The first table of a FROM clause, if it is a named table.
pub open spec fn from_table(f: FromClause) -> Option<Seq<char>> {
    match f.select {
        SelectTable::Table(q, _) => Some(q.name@),
        SelectTable::Other(_) => None,
    }
}

/// Extraction from a FROM clause: its first table, then its joins.
pub open spec fn from_step(st: SelectState, f: FromClause, s: Schema) -> Step
    decreases f, 1nat,
{
    let s1 = match f.select {
        SelectTable::Table(q, a) => if s.has_table(q.name@) {
            Step::Done(touch_step(alias_step(st, q, a), q.name@))
        } else {
            Step::Fail(ExtractError::TableNotFound(q.name@), st)
        },
        SelectTable::Other(_) => Step::Done(st),
    };
    match s1 {
        Step::Done(st1) => match f.joins {
            Some(j) => joins_step(st1, j, s),
            None => Step::Done(st1),
        },
        other => other,
    }
}

/// Extraction from the FROM clause and then the WHERE clause of a SELECT
/// (the WHERE clause is read only when there is a FROM clause).
pub open spec fn source_step(sel: Select, s: Schema) -> Step
    decreases sel, 1nat,
{
    match sel.body.select {
        OneSelect::Select { from, where_clause, .. } => match from {
            None => Step::Done(empty_state()),
            Some(f) => match from_step(empty_state(), f, s) {
                Step::Done(st) => match where_clause {
                    Some(x) => expr_step(st, *x, s),
                    None => Step::Done(st),
                },
                other => other,
            },
        },
        OneSelect::Values(_) => Step::Done(empty_state()),
    }
}

/// The FROM table of a SELECT, if it has a FROM clause whose first table is
/// a named table.
pub open spec fn select_from_table(sel: Select) -> Option<Seq<char>> {
    match sel.body.select {
        OneSelect::Select { from, .. } => match from {
            Some(f) => from_table(f),
            None => None,
        },
        OneSelect::Values(_) => None,
    }
}

/// Extraction from a SELECT statement, starting from nothing.
pub open spec fn select_step(sel: Select, s: Schema) -> Step
    decreases sel, 2nat,
{
    match sel.body.select {
        OneSelect::Select { columns, .. } => match source_step(sel, s) {
            Step::Done(st) => columns_step(st, columns, select_from_table(sel), s, 0),
            other => other,
        },
        OneSelect::Values(_) => Step::Done(empty_state()),
    }
}

/// The tables and columns a SELECT statement reads.
#[derive(Debug)]
pub struct ParsedSelect {
    /// Each table the statement reads, with the columns of it that it reads.
    pub table_columns: IndexMap<String, ColumnSet>,
    /// Alias to table name.
    pub aliases: Aliases,
    /// The result columns, each an expression aliased `col_<i>`.
    pub columns: Vec<ResultColumn>,
    /// What the statement's subqueries read.
    pub children: Vec<ParsedSelect>,
}

/// The view of a table-to-columns map.
pub open spec fn table_columns_view(m: IndexMap<String, ColumnSet>) -> TableColumns {
    entries_view(column_map_entries(m))
}

/// The view of an extracted result column.
pub open spec fn out_column(c: ResultColumn) -> OutColumn {
    match c {
        ResultColumn::Expr(e, Some(As::As(a))) => OutColumn { expr: e, alias: a@ },
        ResultColumn::Expr(e, _) => OutColumn { expr: e, alias: Seq::empty() },
        _ => OutColumn { expr: Expr::Literal(arbitrary()), alias: Seq::empty() },
    }
}

impl ParsedSelect {
    /// The extraction state this value stands for.
    pub open spec fn state(self) -> SelectState
        decreases self, 1nat,
    {
        SelectState {
            tables: table_columns_view(self.table_columns),
            aliases: self.aliases@,
            columns: self.columns@.map_values(|c: ResultColumn| out_column(c)),
            children: states_of(self.children@),
        }
    }
}

/// The states of a list of parsed statements.
pub open spec fn states_of(s: Seq<ParsedSelect>) -> Seq<SelectState>
    decreases s, 0nat,
{
    if s.len() == 0 {
        Seq::empty()
    } else {
        states_of(s.drop_last()).push(s.last().state())
    }
}

impl View for ParsedSelect {
    type V = SelectState;

    open spec fn view(&self) -> SelectState {
        self.state()
    }
}

/// Records in `set` the stored columns that column `name` of table
/// `tbl_name` stands for: the column itself, or, for a generated column,
/// those of the columns it is computed from.  The columns that `name`
/// depends on must not depend on themselves: expanding it then takes no
/// more levels than the table has columns.
pub fn insert_col(set: &mut ColumnSet, schema: &Schema, tbl_name: &String, name: &String)
    requires
        schema.expands_within(tbl_name@, name@, schema.column_count(tbl_name@)),
    ensures
        final(set)@ == old(set)@.union(column_of(*schema, tbl_name@, name@)),
{
    insert_col_within(set, schema, tbl_name, name, Ghost(schema.column_count(tbl_name@)));
}

fn insert_col_within(
    set: &mut ColumnSet,
    schema: &Schema,
    tbl_name: &String,
    name: &String,
    Ghost(fuel): Ghost<nat>,
)
    requires
        schema.expands_within(tbl_name@, name@, fuel),
    ensures
        final(set)@ == old(set)@.union(schema.base_columns(tbl_name@, name@, fuel)),
    decreases fuel, 0nat, 0nat,
{
    if let Some(table) = schema.get_table(tbl_name) {
        if let Some(col) = table.get_column(name) {
            if let Some(generated) = &col.generated {
                assert(generated.from@.subrange(0, generated.from@.len() as int) =~= generated.from@);
                assert(schema.generated_from(tbl_name@, name@) == Some(generated.from@));
                insert_cols_within(set, schema, tbl_name, &generated.from, 0, Ghost((fuel - 1) as nat));
                return;
            }
        }
    }
    set.insert(name.clone());
    assert(set@ =~= old(set)@.union(set![name@]));
}

fn insert_cols_within(
    set: &mut ColumnSet,
    schema: &Schema,
    tbl_name: &String,
    from: &Vec<String>,
    start: usize,
    Ghost(fuel): Ghost<nat>,
)
    requires
        start <= from@.len(),
        schema.all_expand_within(tbl_name@, from@.subrange(start as int, from@.len() as int), fuel),
    ensures
        final(set)@ == old(set)@.union(
            schema.base_columns_of(tbl_name@, from@.subrange(start as int, from@.len() as int), fuel),
        ),
    decreases fuel, 1nat, from@.len() - start,
{
    let ghost rest = from@.subrange(start as int, from@.len() as int);
    if start == from.len() {
        assert(set@ =~= old(set)@.union(Set::empty()));
        return;
    }
    assert(rest.subrange(1, rest.len() as int) =~= from@.subrange(start + 1, from@.len() as int));
    assert(rest[0] == from@[start as int]);
    insert_col_within(set, schema, tbl_name, &from[start], Ghost(fuel));
    insert_cols_within(set, schema, tbl_name, from, start + 1, Ghost(fuel));
    assert(set@ =~= old(set)@.union(schema.base_columns_of(tbl_name@, rest, fuel)));
}

/// What `insert_col` records for a generated column takes in every stored
/// column that it is computed from.
pub proof fn law_insert_col_keeps_sources(s: Schema, t: Seq<char>, c: Seq<char>, i: int)
    requires
        s.generated_from(t, c) is Some,
        0 <= i < s.generated_from(t, c).unwrap().len(),
        s.generated_from(t, s.generated_from(t, c).unwrap()[i]@) is None,
    ensures
        column_of(s, t, c).contains(s.generated_from(t, c).unwrap()[i]@),
{
    assert(s.column_count(t) > 0);
    crate::schema::law_sources_are_expanded(s, t, c, s.column_count(t), i);
}

/// The view of a list of table entries.
pub open spec fn entries_view(e: Seq<(Seq<char>, ColumnSet)>) -> TableColumns {
    e.map_values(|p: (Seq<char>, ColumnSet)| (p.0, p.1@))
}

/// Viewing the entries keeps their keys, so a key is found at the same place.
pub proof fn lemma_key_position_view(e: Seq<(Seq<char>, ColumnSet)>, k: Seq<char>)
    ensures
        key_position(entries_view(e), k) == key_position(e, k),
    decreases e.len(),
{
    if e.len() > 0 {
        assert(entries_view(e).drop_last() =~= entries_view(e.drop_last()));
        lemma_key_position_view(e.drop_last(), k);
    }
}

/// A key that is absent is found at the end after it is pushed.
proof fn lemma_key_position_push<V>(e: Seq<(Seq<char>, V)>, k: Seq<char>, v: V)
    requires
        key_position(e, k) < 0,
    ensures
        key_position(e.push((k, v)), k) == e.len(),
{
    assert(e.push((k, v)).drop_last() =~= e);
}

/// What taking the entry of `k` and adding `cols` to it does to the view.
proof fn lemma_entry_view(
    e: Seq<(Seq<char>, ColumnSet)>,
    k: Seq<char>,
    e2: Seq<(Seq<char>, ColumnSet)>,
    v: ColumnSet,
    cols: Set<Seq<char>>,
)
    requires
        key_position(e, k) >= 0 ==> v@ == e[key_position(e, k)].1@.union(cols) && e2 == e.update(
            key_position(e, k),
            (k, v),
        ),
        key_position(e, k) < 0 ==> v@ == Set::<Seq<char>>::empty().union(cols) && e2 == e.push(
            (k, v),
        ),
    ensures
        entries_view(e2) == add_columns(entries_view(e), k, cols),
{
    lemma_key_position_view(e, k);
    lemma_key_position(e, k);
    let p = key_position(e, k);
    if p >= 0 {
        assert(entries_view(e2) =~= add_columns(entries_view(e), k, cols));
    } else {
        lemma_key_position_push(entries_view(e), k, Set::<Seq<char>>::empty());
        assert(Set::<Seq<char>>::empty().union(cols) =~= cols);
        assert(entries_view(e2) =~= add_columns(entries_view(e), k, cols));
    }
}

/// Adding no columns only makes sure the table has an entry.
proof fn lemma_touch_is_add_nothing(tables: TableColumns, k: Seq<char>)
    ensures
        add_columns(tables, k, Set::empty()) == touch(tables, k),
{
    lemma_key_position(tables, k);
    let p = key_position(tables, k);
    if p < 0 {
        lemma_key_position_push(tables, k, Set::<Seq<char>>::empty());
    }
    let u = touch(tables, k);
    lemma_key_position(u, k);
    let q = key_position(u, k);
    assert(u[q].1.union(Set::empty()) =~= u[q].1);
    assert(add_columns(tables, k, Set::empty()) =~= touch(tables, k));
}

/// `col_<i>`, the alias of the result column at position `i`.
pub fn col_alias_string(i: usize) -> (r: String)
    ensures
        r@ == col_alias(i as nat),
{
    let mut s = <String as vstd::string::StringExecFns>::from_str("col_");
    let d = usize_to_decimal(i);
    s.append(d.as_str());
    s
}

/// The owner of a column as the exec code finds it: the schema's name of
/// the table.
pub enum FoundOwner {
    NotFound,
    Found(String),
    Ambiguous,
}

/// The view of a found owner.
pub open spec fn found_owner_view(f: FoundOwner) -> Owner {
    match f {
        FoundOwner::NotFound => Owner::NotFound,
        FoundOwner::Found(t) => Owner::Found(t@),
        FoundOwner::Ambiguous => Owner::Ambiguous,
    }
}

/// Once two tables have the column, more tables change nothing.
proof fn lemma_owner_ambiguous(tables: TableColumns, s: Schema, c: Seq<char>, i: int)
    requires
        0 <= i <= tables.len(),
        owner(tables.subrange(0, i), s, c) == Owner::Ambiguous,
    ensures
        owner(tables, s, c) == Owner::Ambiguous,
    decreases tables.len() - i,
{
    if i < tables.len() {
        assert(tables.subrange(0, i + 1).drop_last() =~= tables.subrange(0, i));
        lemma_owner_ambiguous(tables, s, c, i + 1);
    } else {
        assert(tables.subrange(0, i) =~= tables);
    }
}

/// Whether `new` keeps the result columns and the aliases of `old` as they
/// are, and keeps the children of `old` first among its own.
pub open spec fn only_adds_to(old: ParsedSelect, new: ParsedSelect) -> bool {
    &&& new.columns@ == old.columns@
    &&& new.aliases == old.aliases
    &&& old.children@.len() <= new.children@.len()
    &&& forall|i: int| 0 <= i < old.children@.len() ==> #[trigger] new.children@[i] == old.children@[i]
}

impl Default for ParsedSelect {
    fn default() -> (r: ParsedSelect)
        ensures
            r@ == empty_state(),
    {
        ParsedSelect::new()
    }
}

impl ParsedSelect {
    /// Nothing extracted yet.
    pub fn new() -> (r: ParsedSelect)
        ensures
            r@ == empty_state(),
    {
        let r = ParsedSelect {
            table_columns: column_map_new(),
            aliases: Aliases::new(),
            columns: Vec::new(),
            children: Vec::new(),
        };
        assert(r@.tables =~= Seq::<(Seq<char>, Set<Seq<char>>)>::empty());
        assert(r@.columns =~= Seq::<OutColumn>::empty());
        assert(r@.children =~= Seq::<SelectState>::empty());
        r
    }

    /// Records column `c` of table `t`.
    fn record_column(&mut self, schema: &Schema, t: &String, c: &String)
        requires
            schema.wf(),
        ensures
            only_adds_to(*old(self), *final(self)),
            final(self)@ == record(old(self)@, *schema, t@, c@),
    {
        let ghost e = column_map_entries(self.table_columns);
        let set = column_map_entry(&mut self.table_columns, t.clone());
        proof {
            crate::schema::lemma_wf_expands(*schema, t@, c@);
        }
        insert_col(set, schema, t, c);
        let ghost v = *set;
        proof {
            lemma_entry_view(
                e,
                t@,
                column_map_entries(self.table_columns),
                v,
                column_of(*schema, t@, c@),
            );
        }
    }

    /// Makes sure table `t` has an entry.
    fn touch_table(&mut self, t: &String)
        ensures
            final(self)@ == touch_step(old(self)@, t@),
    {
        let ghost e = column_map_entries(self.table_columns);
        let set = column_map_entry(&mut self.table_columns, t.clone());
        let ghost v = *set;
        proof {
            assert(v@ =~= v@.union(Set::empty()));
            lemma_entry_view(e, t@, column_map_entries(self.table_columns), v, Set::empty());
            lemma_touch_is_add_nothing(entries_view(e), t@);
        }
    }

    /// Records the alias of a FROM or JOIN table.
    fn add_alias(&mut self, q: &QualifiedName, a: &Option<As>)
        ensures
            final(self)@ == alias_step(old(self)@, *q, *a),
    {
        match a {
            Some(As::As(x)) => self.aliases.insert(x.clone(), q.name.clone()),
            Some(As::Elided(x)) => self.aliases.insert(x.clone(), q.name.clone()),
            None => match &q.alias {
                Some(x) => self.aliases.insert(x.clone(), q.name.clone()),
                None => {},
            },
        }
    }

    /// The table name `t` stands for, aliases resolved.
    fn resolve_table(&self, t: &String) -> (r: String)
        ensures
            r@ == resolve(self@, t@),
    {
        match self.aliases.get(t) {
            Some(r) => r.clone(),
            None => t.clone(),
        }
    }

    /// Which of the tables read so far has column `c`.
    fn find_owner(&self, schema: &Schema, c: &String) -> (r: FoundOwner)
        ensures
            found_owner_view(r) == owner(self@.tables, *schema, c@),
    {
        let n = column_map_len(&self.table_columns);
        let ghost tables = self@.tables;
        let mut found: Option<&String> = None;
        let mut i: usize = 0;
        assert(tables.subrange(0, 0) =~= Seq::<(Seq<char>, Set<Seq<char>>)>::empty());
        while i < n
            invariant
                n == tables.len(),
                tables == self@.tables,
                i <= n,
                owner(tables.subrange(0, i as int), *schema, c@) == (match found {
                    None => Owner::NotFound,
                    Some(f) => Owner::Found(f@),
                }),
            decreases n - i,
        {
            assert(tables.subrange(0, i + 1).drop_last() =~= tables.subrange(0, i as int));
            if let Some((k, _)) = column_map_get_index(&self.table_columns, i) {
                if let Some(tbl) = schema.get_table(k) {
                    proof {
                        crate::schema::lemma_find_table(schema.tables@, k@);
                    }
                    if tbl.get_column(c).is_some() {
                        if found.is_some() {
                            proof {
                                lemma_owner_ambiguous(tables, *schema, c@, i + 1);
                            }
                            return FoundOwner::Ambiguous;
                        }
                        found = Some(&tbl.name);
                    }
                }
            }
            i = i + 1;
        }
        assert(tables.subrange(0, n as int) =~= tables);
        match found {
            Some(f) => FoundOwner::Found(f.clone()),
            None => FoundOwner::NotFound,
        }
    }
}

/// Whether an exec result agrees with an extraction step: success with the
/// state reached, or the same refusal.
pub open spec fn agrees(r: Result<(), MatcherError>, step: Step, after: SelectState) -> bool {
    &&& step_state(step) == after
    &&& match step {
        Step::Done(_) => r is Ok,
        Step::Fail(x, _) => r matches Err(e) && extract_error(e) == Some(x),
        Step::Stuck(_) => r matches Err(e) && e is UnsupportedStatement,
    }
}

/// The view of an optional table name.
pub open spec fn opt_name(t: Option<&String>) -> Option<Seq<char>> {
    match t {
        Some(t) => Some(t@),
        None => None,
    }
}

impl ParsedSelect {
    /// Expands `*` (no qualifier) or `qualifier.*` over the columns of `table`.
    fn expand_star(&mut self, table: &Table, qualifier: &Option<String>, first: usize)
        requires
            first <= old(self).columns@.len(),
        ensures
            final(self)@ == star_step(old(self)@, *table, *qualifier, first as nat),
    {
        let ghost st = old(self)@;
        let mut added = ColumnSet::new();
        let mut j: usize = 0;
        while j < table.columns.len()
            invariant
                j <= table.columns@.len(),
                added@ == names_set(table.columns@.subrange(0, j as int).map_values(|c: Column| c.name)),
                self.table_columns == old(self).table_columns,
                self.aliases == old(self).aliases,
                self.children == old(self).children,
                first <= old(self).columns@.len() <= self.columns@.len(),
                self@.columns == st.columns + star_columns(st, *table, *qualifier, first as nat).subrange(0, j as int),
            decreases table.columns@.len() - j,
        {
            let ghost pre_cols = self.columns@;
            let name = table.columns[j].name.clone();
            added.insert(table.columns[j].name.clone());
            let alias = col_alias_string(self.columns.len() - first);
            let e = match qualifier {
                Some(q) => Expr::Qualified(q.clone(), name),
                None => Expr::Name(name),
            };
            self.columns.push(ResultColumn::Expr(e, Some(As::As(alias))));
            proof {
                let nb = table.columns@.subrange(0, j + 1).map_values(|c: Column| c.name);
                let na = table.columns@.subrange(0, j as int).map_values(|c: Column| c.name);
                assert(nb =~= na.push(table.columns@[j as int].name));
                assert(crate::columns::names_view(nb) =~= crate::columns::names_view(na).push(
                    table.columns@[j as int].name@,
                ));
                assert forall|y: Seq<char>|
                    crate::columns::names_view(nb).contains(y) <==> (crate::columns::names_view(
                        na,
                    ).contains(y) || y == table.columns@[j as int].name@) by {
                    let a = crate::columns::names_view(na);
                    let b = crate::columns::names_view(nb);
                    if a.contains(y) {
                        let k = choose|k: int| 0 <= k < a.len() && a[k] == y;
                        assert(b[k] == y);
                    }
                    if y == table.columns@[j as int].name@ {
                        assert(b[j as int] == y);
                    }
                    if b.contains(y) {
                        let k = choose|k: int| 0 <= k < b.len() && b[k] == y;
                        if k < a.len() {
                            assert(a[k] == y);
                        }
                    }
                }
                assert(added@ =~= names_set(nb));
                assert(self.columns@.map_values(|c: ResultColumn| out_column(c)) =~= pre_cols.map_values(
                    |c: ResultColumn| out_column(c),
                ).push(out_column(self.columns@.last())));
                assert(star_columns(st, *table, *qualifier, first as nat).subrange(0, j + 1) =~= star_columns(
                    st,
                    *table,
                    *qualifier,
                    first as nat,
                ).subrange(0, j as int).push(star_columns(st, *table, *qualifier, first as nat)[j as int]));
                assert(self@.columns =~= st.columns + star_columns(st, *table, *qualifier, first as nat).subrange(
                    0,
                    j + 1,
                ));
            }
            j = j + 1;
        }
        assert(star_columns(st, *table, *qualifier, first as nat).subrange(0, j as int) =~= star_columns(
            st,
            *table,
            *qualifier,
            first as nat,
        ));
        assert(table.columns@.subrange(0, j as int) =~= table.columns@);
        let ghost e = column_map_entries(self.table_columns);
        let set = column_map_entry(&mut self.table_columns, table.name.clone());
        set.add_all(&added);
        let ghost v = *set;
        proof {
            lemma_entry_view(e, table.name@, column_map_entries(self.table_columns), v, added@);
        }
    }
}

impl ParsedSelect {
    /// Records the columns that `expr` reads, in order; subqueries become
    /// children.
    pub fn extract_expr_columns(&mut self, expr: &Expr, schema: &Schema) -> (r: Result<(), MatcherError>)
        requires
            schema.wf(),
        ensures
            only_adds_to(*old(self), *final(self)),
            agrees(r, expr_step(old(self)@, *expr, *schema), final(self)@),
        decreases *expr, 0nat,
    {
        match expr {
            Expr::Qualified(t, c) => {
                let resolved = self.resolve_table(t);
                self.record_column(schema, &resolved, c);
            },
            Expr::DoublyQualified(db, t, c) => {
                let main = <String as vstd::string::StringExecFns>::from_str("main");
                if *db == main {
                    let resolved = self.resolve_table(t);
                    self.record_column(schema, &resolved, c);
                }
            },
            Expr::Name(c) => {
                let check = match unquote(c) {
                    Some(u) => u,
                    None => c.clone(),
                };
                match self.find_owner(schema, &check) {
                    FoundOwner::Ambiguous => {
                        return Err(MatcherError::QualificationRequired { col_name: check });
                    },
                    FoundOwner::NotFound => {
                        return Err(MatcherError::TableForColumnNotFound { col_name: check });
                    },
                    FoundOwner::Found(t) => {
                        self.record_column(schema, &t, &check);
                    },
                }
            },
            Expr::Id(c) => {
                let check = match unquote(c) {
                    Some(u) => u,
                    None => c.clone(),
                };
                match self.find_owner(schema, &check) {
                    FoundOwner::Ambiguous => {
                        return Err(MatcherError::QualificationRequired { col_name: check });
                    },
                    FoundOwner::NotFound => {
                        let text = c.as_str();
                        if text.unicode_len() > 0 && text.get_char(0) == '"' {
                            return Ok(());
                        }
                        return Err(MatcherError::TableForColumnNotFound { col_name: c.clone() });
                    },
                    FoundOwner::Found(t) => {
                        self.record_column(schema, &t, c);
                    },
                }
            },
            Expr::Between { lhs, .. } => {
                return self.extract_expr_columns(lhs, schema);
            },
            Expr::Binary(l, _, r) => {
                match self.extract_expr_columns(l, schema) {
                    Ok(()) => {},
                    Err(e) => return Err(e),
                }
                return self.extract_expr_columns(r, schema);
            },
            Expr::Case { base, when_then_pairs, else_expr } => {
                if let Some(b) = base {
                    match self.extract_expr_columns(b, schema) {
                        Ok(()) => {},
                        Err(e) => return Err(e),
                    }
                }
                match self.extract_arms_columns(when_then_pairs, schema) {
                    Ok(()) => {},
                    Err(e) => return Err(e),
                }
                if let Some(x) = else_expr {
                    return self.extract_expr_columns(x, schema);
                }
            },
            Expr::Cast { expr, .. } => {
                return self.extract_expr_columns(expr, schema);
            },
            Expr::Collate(x, _) => {
                return self.extract_expr_columns(x, schema);
            },
            Expr::Exists(sel) => {
                match ParsedSelect::select_columns(sel, schema) {
                    Ok(child) => self.push_child(child),
                    Err(e) => return Err(e),
                }
            },
            Expr::FunctionCall { args, .. } => {
                if let Some(l) = args {
                    return self.extract_list_columns(l, schema);
                }
            },
            Expr::InList { lhs, rhs, .. } => {
                match self.extract_expr_columns(lhs, schema) {
                    Ok(()) => {},
                    Err(e) => return Err(e),
                }
                if let Some(l) = rhs {
                    return self.extract_list_columns(l, schema);
                }
            },
            Expr::InSelect { lhs, rhs, .. } => {
                match self.extract_expr_columns(lhs, schema) {
                    Ok(()) => {},
                    Err(e) => return Err(e),
                }
                match ParsedSelect::select_columns(rhs, schema) {
                    Ok(child) => self.push_child(child),
                    Err(e) => return Err(e),
                }
            },
            Expr::InTable { .. } => {
                return Err(MatcherError::UnsupportedExpr { expr: expr.clone() });
            },
            Expr::IsNull(x) => {
                return self.extract_expr_columns(x, schema);
            },
            Expr::Like { lhs, rhs, .. } => {
                match self.extract_expr_columns(lhs, schema) {
                    Ok(()) => {},
                    Err(e) => return Err(e),
                }
                return self.extract_expr_columns(rhs, schema);
            },
            Expr::NotNull(x) => {
                return self.extract_expr_columns(x, schema);
            },
            Expr::Parenthesized(l) => {
                return self.extract_list_columns(l, schema);
            },
            Expr::Subquery(sel) => {
                match ParsedSelect::select_columns(sel, schema) {
                    Ok(child) => self.push_child(child),
                    Err(e) => return Err(e),
                }
            },
            Expr::Unary(_, x) => {
                return self.extract_expr_columns(x, schema);
            },
            _ => {},
        }
        Ok(())
    }

    /// Adds the extraction of a subquery.
    fn push_child(&mut self, child: ParsedSelect)
        ensures
            only_adds_to(*old(self), *final(self)),
            final(self)@ == add_child(old(self)@, child@),
    {
        let ghost pre = self.children@;
        self.children.push(child);
        assert(self.children@.drop_last() =~= pre);
    }

    /// Records the columns that each expression of `l` reads, in order.
    fn extract_list_columns(&mut self, l: &ExprList, schema: &Schema) -> (r: Result<(), MatcherError>)
        requires
            schema.wf(),
        ensures
            only_adds_to(*old(self), *final(self)),
            agrees(r, exprs_step(old(self)@, *l, *schema), final(self)@),
        decreases *l, 0nat,
    {
        match l {
            ExprList::Nil => Ok(()),
            ExprList::Cons(h, t) => {
                match self.extract_expr_columns(h, schema) {
                    Ok(()) => {},
                    Err(e) => return Err(e),
                }
                self.extract_list_columns(t, schema)
            },
        }
    }

    /// Records the columns that the `WHEN` conditions of `l` read, in order.
    fn extract_arms_columns(&mut self, l: &CaseArms, schema: &Schema) -> (r: Result<(), MatcherError>)
        requires
            schema.wf(),
        ensures
            only_adds_to(*old(self), *final(self)),
            agrees(r, arms_step(old(self)@, *l, *schema), final(self)@),
        decreases *l, 0nat,
    {
        match l {
            CaseArms::Nil => Ok(()),
            CaseArms::Cons(w, _, t) => {
                match self.extract_expr_columns(w, schema) {
                    Ok(()) => {},
                    Err(e) => return Err(e),
                }
                self.extract_arms_columns(t, schema)
            },
        }
    }

    /// Records the columns of a `USING` list, all of table `t`.
    fn extract_using_columns(&mut self, names: &NameList, t: &String, schema: &Schema)
        requires
            schema.wf(),
        ensures
            final(self)@ == using_step(old(self)@, *names, t@, *schema),
        decreases *names,
    {
        match names {
            NameList::Nil => {},
            NameList::Cons(n, rest) => {
                self.record_column(schema, t, n);
                self.extract_using_columns(rest, t, schema);
            },
        }
    }

    /// Records the tables, aliases and columns of the joins, in order.
    fn extract_join_columns(&mut self, l: &JoinList, schema: &Schema) -> (r: Result<(), MatcherError>)
        requires
            schema.wf(),
        ensures
            agrees(r, joins_step(old(self)@, *l, *schema), final(self)@),
        decreases *l, 0nat,
    {
        match l {
            JoinList::Nil => Ok(()),
            JoinList::Cons(j, rest) => {
                match &j.table {
                    SelectTable::Table(q, a) => {
                        self.add_alias(q, a);
                        self.touch_table(&q.name);
                        match &j.constraint {
                            None => {},
                            Some(JoinConstraint::On(e)) => {
                                match self.extract_expr_columns(e, schema) {
                                    Ok(()) => {},
                                    Err(e) => return Err(e),
                                }
                            },
                            Some(JoinConstraint::Using(names)) => {
                                self.extract_using_columns(names, &q.name, schema);
                            },
                        }
                    },
                    SelectTable::Other(_) => {},
                }
                self.extract_join_columns(rest, schema)
            },
        }
    }

    /// Records the result columns, in order, each renamed `col_<i>`; `*` and
    /// `tbl.*` are expanded over the table's columns.
    fn extract_columns(&mut self, l: &ColumnList, from: Option<&String>, schema: &Schema, first: usize) -> (r: Result<(), MatcherError>)
        requires
            schema.wf(),
            first <= old(self).columns@.len(),
        ensures
            agrees(r, columns_step(old(self)@, *l, opt_name(from), *schema, first as nat), final(self)@),
        decreases *l, 0nat,
    {
        match l {
            ColumnList::Nil => Ok(()),
            ColumnList::Cons(c, rest) => {
                match c {
                    ResultColumn::Expr(e, _) => {
                        let ghost before = self@;
                        match self.extract_expr_columns(e, schema) {
                            Ok(()) => {},
                            Err(x) => return Err(x),
                        }
                        proof {
                            law_expr_only_adds(before, *e, *schema);
                            assert(self@.columns.len() == self.columns@.len());
                        }
                        let ghost pre = self.columns@;
                        let alias = col_alias_string(self.columns.len() - first);
                        self.columns.push(ResultColumn::Expr(e.clone(), Some(As::As(alias))));
                        assert(self.columns@.map_values(|c: ResultColumn| out_column(c)) =~= pre.map_values(
                            |c: ResultColumn| out_column(c),
                        ).push(out_column(self.columns@.last())));
                    },
                    ResultColumn::Star => {
                        match from {
                            Some(t) => match schema.get_table(t) {
                                Some(tbl) => self.expand_star(tbl, &None, first),
                                None => {
                                    return Err(MatcherError::TableStarNotFound { tbl_name: t.clone() });
                                },
                            },
                            None => {
                                return Err(MatcherError::UnsupportedStatement);
                            },
                        }
                    },
                    ResultColumn::TableStar(q) => {
                        let t = self.resolve_table(q);
                        match schema.get_table(&t) {
                            Some(tbl) => self.expand_star(tbl, &Some(q.clone()), first),
                            None => {
                                return Err(MatcherError::TableStarNotFound { tbl_name: t });
                            },
                        }
                    },
                }
                assert(self@.columns.len() == self.columns@.len());
                assert(old(self)@.columns.len() == old(self).columns@.len());
                assert(self@.columns.len() >= old(self)@.columns.len());
                self.extract_columns(rest, from, schema, first)
            },
        }
    }

    /// Extracts the tables and columns that `select` reads.
    pub fn extract_select_columns(select: &Select, schema: &Schema) -> (r: Result<ParsedSelect, MatcherError>)
        requires
            schema.wf(),
            !(select_step(*select, *schema) is Stuck),
        ensures
            match r {
                Ok(p) => select_step(*select, *schema) == Step::Done(p@),
                Err(e) => select_step(*select, *schema) matches Step::Fail(x, _) && extract_error(e) == Some(x),
            },
    {
        ParsedSelect::select_columns(select, schema)
    }

    /// Extracts the tables and columns that `select` reads, or gives `None`
    /// when extraction meets a `*` with no named FROM table to expand it
    /// against.
    pub fn try_extract_select_columns(select: &Select, schema: &Schema) -> (r: Option<Result<ParsedSelect, MatcherError>>)
        requires
            schema.wf(),
        ensures
            r is None <==> select_step(*select, *schema) is Stuck,
            r matches Some(x) ==> match x {
                Ok(p) => select_step(*select, *schema) == Step::Done(p@),
                Err(e) => select_step(*select, *schema) matches Step::Fail(f, _) && extract_error(e) == Some(f),
            },
    {
        match ParsedSelect::select_columns(select, schema) {
            Err(MatcherError::UnsupportedStatement) => None,
            x => Some(x),
        }
    }

    /// `extract_select_columns`, also on statements where extraction is
    /// stuck, which it reports as `UnsupportedStatement`.
    fn select_columns(select: &Select, schema: &Schema) -> (r: Result<ParsedSelect, MatcherError>)
        requires
            schema.wf(),
        ensures
            match select_step(*select, *schema) {
                Step::Done(st) => r matches Ok(p) && p@ == st,
                Step::Fail(x, _) => r matches Err(e) && extract_error(e) == Some(x),
                Step::Stuck(_) => r matches Err(e) && e is UnsupportedStatement,
            },
        decreases *select, 2nat,
    {
        let mut parsed = ParsedSelect::new();
        match &select.body.select {
            OneSelect::Select { from, columns, where_clause } => {
                let from_table: Option<&String> = match from {
                    Some(f) => {
                        let ft = match &f.select {
                            SelectTable::Table(q, a) => {
                                if schema.get_table(&q.name).is_some() {
                                    parsed.add_alias(q, a);
                                    parsed.touch_table(&q.name);
                                    Some(&q.name)
                                } else {
                                    return Err(MatcherError::TableNotFound(q.name.clone()));
                                }
                            },
                            SelectTable::Other(_) => None,
                        };
                        if let Some(joins) = &f.joins {
                            match parsed.extract_join_columns(joins, schema) {
                                Ok(()) => {},
                                Err(e) => return Err(e),
                            }
                        }
                        if let Some(w) = where_clause {
                            match parsed.extract_expr_columns(w, schema) {
                                Ok(()) => {},
                                Err(e) => return Err(e),
                            }
                        }
                        ft
                    },
                    None => None,
                };
                match parsed.extract_columns(columns, from_table, schema, 0) {
                    Ok(()) => {},
                    Err(e) => return Err(e),
                }
            },
            OneSelect::Values(_) => {},
        }
        Ok(parsed)
    }
}

/// Whether result columns are aliased `col_0`, `col_1`, ... in order.
pub open spec fn numbered(cols: Seq<OutColumn>) -> bool {
    forall|i: int| 0 <= i < cols.len() ==> #[trigger] cols[i].alias == col_alias(i as nat)
}

/// Whether the result columns from position `first` on are aliased `col_0`,
/// `col_1`, ... in order.
pub open spec fn numbered_from(cols: Seq<OutColumn>, first: nat) -> bool {
    forall|i: int| first <= i < cols.len() ==> #[trigger] cols[i].alias == col_alias((i - first) as nat)
}

/// Whether `t2` keeps every table of `t1` at its place, with at least the
/// columns it had.
pub open spec fn tables_grow(t1: TableColumns, t2: TableColumns) -> bool {
    &&& t1.len() <= t2.len()
    &&& forall|i: int| 0 <= i < t1.len() ==> #[trigger] t2[i].0 == t1[i].0 && t1[i].1.subset_of(t2[i].1)
}

/// Whether `st2` only adds to `st`: its tables grow and the children of
/// `st` come first among its own.
pub open spec fn state_grows(st: SelectState, st2: SelectState) -> bool {
    &&& tables_grow(st.tables, st2.tables)
    &&& st.children.len() <= st2.children.len()
    &&& forall|i: int| 0 <= i < st.children.len() ==> #[trigger] st2.children[i] == st.children[i]
}

proof fn lemma_grows_trans(a: SelectState, b: SelectState, c: SelectState)
    requires
        state_grows(a, b),
        state_grows(b, c),
    ensures
        state_grows(a, c),
{
    assert forall|i: int| 0 <= i < a.tables.len() implies #[trigger] c.tables[i].0 == a.tables[i].0
        && a.tables[i].1.subset_of(c.tables[i].1) by {
        assert(b.tables[i].0 == a.tables[i].0);
        assert(c.tables[i].0 == b.tables[i].0);
        assert(a.tables[i].1.subset_of(b.tables[i].1));
        assert(b.tables[i].1.subset_of(c.tables[i].1));
        assert forall|x: Seq<char>| a.tables[i].1.contains(x) implies c.tables[i].1.contains(x) by {
            assert(b.tables[i].1.contains(x));
        }
    }
    assert forall|i: int| 0 <= i < a.children.len() implies #[trigger] c.children[i] == a.children[i] by {
        assert(b.children[i] == a.children[i]);
    }
}

/// Making sure a table has an entry keeps the others and gives it one.
proof fn lemma_touch_grows(t: TableColumns, k: Seq<char>)
    ensures
        tables_grow(t, touch(t, k)),
        key_position(touch(t, k), k) >= 0,
{
    lemma_key_position(t, k);
    if key_position(t, k) < 0 {
        lemma_key_position_push(t, k, Set::<Seq<char>>::empty());
    }
}

/// Adding columns to a table keeps every table at its place.
proof fn lemma_add_columns_grows(t: TableColumns, k: Seq<char>, cols: Set<Seq<char>>)
    ensures
        tables_grow(t, add_columns(t, k, cols)),
{
    lemma_touch_grows(t, k);
    let u = touch(t, k);
    lemma_key_position(u, k);
    let p = key_position(u, k);
    let w = add_columns(t, k, cols);
    assert forall|i: int| 0 <= i < t.len() implies #[trigger] w[i].0 == t[i].0 && t[i].1.subset_of(w[i].1) by {
        assert(u[i].0 == t[i].0);
        if i == p {
            assert(w[i] == (k, u[p].1.union(cols)));
        }
    }
}

/// A table that is there stays there as the tables grow.
proof fn lemma_grows_keeps_key(t1: TableColumns, t2: TableColumns, k: Seq<char>)
    requires
        tables_grow(t1, t2),
        key_position(t1, k) >= 0,
    ensures
        key_position(t2, k) >= 0,
{
    lemma_key_position(t1, k);
    lemma_key_position(t2, k);
    let p = key_position(t1, k);
    assert(t2[p].0 == t1[p].0);
}

/// Recording a column only adds to the state.
proof fn lemma_record_grows(st: SelectState, s: Schema, t: Seq<char>, c: Seq<char>)
    ensures
        state_grows(st, record(st, s, t, c)),
        record(st, s, t, c).aliases == st.aliases,
        record(st, s, t, c).columns == st.columns,
{
    lemma_add_columns_grows(st.tables, t, column_of(s, t, c));
}

/// Extracting a subquery only adds to the enclosing state.
proof fn lemma_with_child_grows(st: SelectState, child: Step)
    ensures
        state_grows(st, step_state(with_child(st, child))),
        step_state(with_child(st, child)).aliases == st.aliases,
        step_state(with_child(st, child)).columns == st.columns,
{
}

/// The facts of `law_expr_only_adds` for one step from `st`.
pub open spec fn only_adds(st: SelectState, p: Step) -> bool {
    &&& step_state(p).columns == st.columns
    &&& step_state(p).aliases == st.aliases
    &&& state_grows(st, step_state(p))
}

/// Extraction from an expression, whatever its outcome, leaves the aliases
/// and the result columns as they are, keeps every table it had at its
/// place with at least its columns, and keeps the children it had first:
/// it only records columns, tables and children.
pub proof fn law_expr_only_adds(st: SelectState, e: Expr, s: Schema)
    ensures
        only_adds(st, expr_step(st, e, s)),
    decreases e, 0nat,
{
    match e {
        Expr::Qualified(t, c) => lemma_record_grows(st, s, resolve(st, t@), c@),
        Expr::DoublyQualified(_, t, c) => lemma_record_grows(st, s, resolve(st, t@), c@),
        Expr::Name(c) => {
            let n = lookup_name(c@);
            if let Owner::Found(t) = owner(st.tables, s, n) {
                lemma_record_grows(st, s, t, n);
            }
        },
        Expr::Id(c) => {
            let n = lookup_name(c@);
            if let Owner::Found(t) = owner(st.tables, s, n) {
                lemma_record_grows(st, s, t, c@);
            }
        },
        Expr::Between { lhs, .. } => law_expr_only_adds(st, *lhs, s),
        Expr::Binary(l, _, r) => {
            law_expr_only_adds(st, *l, s);
            if let Step::Done(st2) = expr_step(st, *l, s) {
                law_expr_only_adds(st2, *r, s);
                lemma_grows_trans(st, st2, step_state(expr_step(st2, *r, s)));
            }
        },
        Expr::Case { base, when_then_pairs, else_expr } => {
            let s1 = match base {
                Some(b) => {
                    law_expr_only_adds(st, *b, s);
                    expr_step(st, *b, s)
                },
                None => Step::Done(st),
            };
            if let Step::Done(st1) = s1 {
                lemma_arms_only_add(st1, when_then_pairs, s);
                lemma_grows_trans(st, st1, step_state(arms_step(st1, when_then_pairs, s)));
                if let Step::Done(st2) = arms_step(st1, when_then_pairs, s) {
                    if let Some(x) = else_expr {
                        law_expr_only_adds(st2, *x, s);
                        lemma_grows_trans(st, st2, step_state(expr_step(st2, *x, s)));
                    }
                }
            }
        },
        Expr::Cast { expr, .. } => law_expr_only_adds(st, *expr, s),
        Expr::Collate(x, _) => law_expr_only_adds(st, *x, s),
        Expr::Exists(sel) => lemma_with_child_grows(st, select_step(*sel, s)),
        Expr::FunctionCall { args, .. } => {
            if let Some(l) = args {
                lemma_exprs_only_add(st, l, s);
            }
        },
        Expr::InList { lhs, rhs, .. } => {
            law_expr_only_adds(st, *lhs, s);
            if let Step::Done(st2) = expr_step(st, *lhs, s) {
                if let Some(l) = rhs {
                    lemma_exprs_only_add(st2, l, s);
                    lemma_grows_trans(st, st2, step_state(exprs_step(st2, l, s)));
                }
            }
        },
        Expr::InSelect { lhs, rhs, .. } => {
            law_expr_only_adds(st, *lhs, s);
            if let Step::Done(st2) = expr_step(st, *lhs, s) {
                lemma_with_child_grows(st2, select_step(*rhs, s));
                lemma_grows_trans(st, st2, step_state(with_child(st2, select_step(*rhs, s))));
            }
        },
        Expr::IsNull(x) => law_expr_only_adds(st, *x, s),
        Expr::Like { lhs, rhs, .. } => {
            law_expr_only_adds(st, *lhs, s);
            if let Step::Done(st2) = expr_step(st, *lhs, s) {
                law_expr_only_adds(st2, *rhs, s);
                lemma_grows_trans(st, st2, step_state(expr_step(st2, *rhs, s)));
            }
        },
        Expr::NotNull(x) => law_expr_only_adds(st, *x, s),
        Expr::Parenthesized(l) => lemma_exprs_only_add(st, l, s),
        Expr::Subquery(sel) => lemma_with_child_grows(st, select_step(*sel, s)),
        Expr::Unary(_, x) => law_expr_only_adds(st, *x, s),
        _ => {},
    }
}

/// `law_expr_only_adds` for a list of expressions.
proof fn lemma_exprs_only_add(st: SelectState, l: ExprList, s: Schema)
    ensures
        only_adds(st, exprs_step(st, l, s)),
    decreases l, 0nat,
{
    if let ExprList::Cons(h, t) = l {
        law_expr_only_adds(st, *h, s);
        if let Step::Done(st2) = expr_step(st, *h, s) {
            lemma_exprs_only_add(st2, *t, s);
            lemma_grows_trans(st, st2, step_state(exprs_step(st2, *t, s)));
        }
    }
}

/// `law_expr_only_adds` for the conditions of a `CASE`.
proof fn lemma_arms_only_add(st: SelectState, l: CaseArms, s: Schema)
    ensures
        only_adds(st, arms_step(st, l, s)),
    decreases l, 0nat,
{
    if let CaseArms::Cons(w, _, t) = l {
        law_expr_only_adds(st, *w, s);
        if let Step::Done(st2) = expr_step(st, *w, s) {
            lemma_arms_only_add(st2, *t, s);
            lemma_grows_trans(st, st2, step_state(arms_step(st2, *t, s)));
        }
    }
}

/// Recording `USING` columns leaves the result columns as they are.
proof fn lemma_using_keeps_columns(st: SelectState, names: NameList, t: Seq<char>, s: Schema)
    ensures
        using_step(st, names, t, s).columns == st.columns,
    decreases names,
{
    if let NameList::Cons(n, rest) = names {
        lemma_using_keeps_columns(record(st, s, t, n@), *rest, t, s);
    }
}

/// Extraction from joins leaves the result columns as they are.
proof fn lemma_joins_keep_columns(st: SelectState, l: JoinList, s: Schema)
    ensures
        step_state(joins_step(st, l, s)).columns == st.columns,
    decreases l, 0nat,
{
    if let JoinList::Cons(j, rest) = l {
        match j.table {
            SelectTable::Table(q, a) => {
                let st1 = touch_step(alias_step(st, q, a), q.name@);
                let s2 = match j.constraint {
                    None => Step::Done(st1),
                    Some(JoinConstraint::On(e)) => {
                        law_expr_only_adds(st1, e, s);
                        expr_step(st1, e, s)
                    },
                    Some(JoinConstraint::Using(names)) => {
                        lemma_using_keeps_columns(st1, names, q.name@, s);
                        Step::Done(using_step(st1, names, q.name@, s))
                    },
                };
                if let Step::Done(st2) = s2 {
                    lemma_joins_keep_columns(st2, *rest, s);
                }
            },
            SelectTable::Other(_) => lemma_joins_keep_columns(st, *rest, s),
        }
    }
}

/// Extraction from result columns numbers the columns it adds from `col_0`
/// on, after the `first` ones there were.
proof fn lemma_columns_numbered(st: SelectState, l: ColumnList, from: Option<Seq<char>>, s: Schema, first: nat)
    requires
        first <= st.columns.len(),
        numbered_from(st.columns, first),
    ensures
        columns_step(st, l, from, s, first) matches Step::Done(st2) ==> numbered_from(st2.columns, first),
    decreases l, 0nat,
{
    if let ColumnList::Cons(c, rest) = l {
        let s1 = match c {
            ResultColumn::Expr(e, _) => {
                law_expr_only_adds(st, e, s);
                match expr_step(st, e, s) {
                    Step::Done(st2) => Step::Done(
                        SelectState {
                            columns: st2.columns.push(
                                OutColumn { expr: e, alias: col_alias((st2.columns.len() - first) as nat) },
                            ),
                            ..st2
                        },
                    ),
                    other => other,
                }
            },
            ResultColumn::Star => match from {
                None => Step::Stuck(st),
                Some(t) => match s.table(t) {
                    None => Step::Fail(ExtractError::TableStarNotFound(t), st),
                    Some(tbl) => Step::Done(star_step(st, tbl, None, first)),
                },
            },
            ResultColumn::TableStar(q) => {
                let t = resolve(st, q@);
                match s.table(t) {
                    None => Step::Fail(ExtractError::TableStarNotFound(t), st),
                    Some(tbl) => Step::Done(star_step(st, tbl, Some(q), first)),
                }
            },
        };
        if let Step::Done(st2) = s1 {
            assert(numbered_from(st2.columns, first));
            lemma_columns_numbered(st2, *rest, from, s, first);
        }
    }
}

/// Extraction renames the result columns `col_0`, `col_1`, ... in the
/// order of the statement, `*` and `tbl.*` counting one column for each
/// column of the table.
pub proof fn law_result_columns_numbered(sel: Select, s: Schema)
    ensures
        select_step(sel, s) matches Step::Done(st) ==> numbered(st.columns),
{
    if let OneSelect::Select { columns, from, where_clause } = sel.body.select {
        let src = source_step(sel, s);
        if let Some(f) = from {
            let s1 = match f.select {
                SelectTable::Table(q, a) => if s.has_table(q.name@) {
                    Step::Done(touch_step(alias_step(empty_state(), q, a), q.name@))
                } else {
                    Step::Fail(ExtractError::TableNotFound(q.name@), empty_state())
                },
                SelectTable::Other(_) => Step::Done(empty_state()),
            };
            if let Step::Done(st1) = s1 {
                if let Some(j) = f.joins {
                    lemma_joins_keep_columns(st1, j, s);
                }
            }
            if let Step::Done(st) = from_step(empty_state(), f, s) {
                if let Some(x) = where_clause {
                    law_expr_only_adds(st, *x, s);
                }
            }
        }
        if let Step::Done(st) = src {
            assert(st.columns.len() == 0);
            lemma_columns_numbered(st, columns, select_from_table(sel), s, 0);
            if let Step::Done(st2) = columns_step(st, columns, select_from_table(sel), s, 0) {
                assert forall|i: int| 0 <= i < st2.columns.len() implies #[trigger] st2.columns[i].alias
                    == col_alias(i as nat) by {
                    assert(st2.columns[i].alias == col_alias((i - 0) as nat));
                }
            }
        }
    }
}

/// Whether every alias of `st` stands for a table that `st` reads.
pub open spec fn aliases_read(st: SelectState) -> bool {
    forall|a: Seq<char>| #[trigger] st.aliases.contains_key(a) ==> key_position(st.tables, st.aliases[a]) >= 0
}

/// Growing the tables, with the aliases unchanged, keeps every alias on a
/// table that is read.
proof fn lemma_aliases_read_kept(st: SelectState, st2: SelectState)
    requires
        aliases_read(st),
        tables_grow(st.tables, st2.tables),
        st2.aliases == st.aliases,
    ensures
        aliases_read(st2),
{
    assert forall|a: Seq<char>| #[trigger] st2.aliases.contains_key(a) implies key_position(st2.tables, st2.aliases[a]) >= 0 by {
        lemma_grows_keeps_key(st.tables, st2.tables, st.aliases[a]);
    }
}

/// Recording the alias of a table and making sure the table is read keeps
/// every alias on a table that is read.
proof fn lemma_alias_touch(st: SelectState, q: QualifiedName, a: Option<As>)
    requires
        aliases_read(st),
    ensures
        aliases_read(touch_step(alias_step(st, q, a), q.name@)),
        tables_grow(st.tables, touch_step(alias_step(st, q, a), q.name@).tables),
{
    let st1 = alias_step(st, q, a);
    let st2 = touch_step(st1, q.name@);
    lemma_touch_grows(st1.tables, q.name@);
    assert(st1.tables == st.tables);
    assert forall|x: Seq<char>| #[trigger] st2.aliases.contains_key(x) implies key_position(st2.tables, st2.aliases[x]) >= 0 by {
        if st2.aliases[x] != q.name@ {
            assert(st.aliases.contains_key(x) && st.aliases[x] == st2.aliases[x]);
            lemma_grows_keeps_key(st.tables, st2.tables, st.aliases[x]);
        }
    }
}

/// Recording `USING` columns only adds to the state.
proof fn lemma_using_only_adds(st: SelectState, names: NameList, t: Seq<char>, s: Schema)
    ensures
        only_adds(st, Step::Done(using_step(st, names, t, s))),
    decreases names,
{
    if let NameList::Cons(n, rest) = names {
        let st1 = record(st, s, t, n@);
        lemma_record_grows(st, s, t, n@);
        lemma_using_only_adds(st1, *rest, t, s);
        lemma_grows_trans(st, st1, using_step(st1, *rest, t, s));
    }
}

/// Extraction from joins keeps every alias on a table that is read, and
/// keeps every table at its place.
proof fn lemma_joins_keep_aliases_read(st: SelectState, l: JoinList, s: Schema)
    requires
        aliases_read(st),
    ensures
        joins_step(st, l, s) matches Step::Done(st2) ==> aliases_read(st2) && tables_grow(st.tables, st2.tables),
    decreases l, 0nat,
{
    if let JoinList::Cons(j, rest) = l {
        match j.table {
            SelectTable::Table(q, a) => {
                let st1 = touch_step(alias_step(st, q, a), q.name@);
                lemma_alias_touch(st, q, a);
                let s2 = match j.constraint {
                    None => Step::Done(st1),
                    Some(JoinConstraint::On(e)) => {
                        law_expr_only_adds(st1, e, s);
                        expr_step(st1, e, s)
                    },
                    Some(JoinConstraint::Using(names)) => {
                        lemma_using_only_adds(st1, names, q.name@, s);
                        Step::Done(using_step(st1, names, q.name@, s))
                    },
                };
                if let Step::Done(st2) = s2 {
                    lemma_aliases_read_kept(st1, st2);
                    lemma_joins_keep_aliases_read(st2, *rest, s);
                    if let Step::Done(st3) = joins_step(st2, *rest, s) {
                        assert(tables_grow(st.tables, st3.tables)) by {
                            lemma_grows_trans(SelectState { tables: st.tables, ..st1 }, st1, st2);
                            lemma_grows_trans(SelectState { tables: st.tables, ..st2 }, st2, SelectState { tables: st3.tables, ..st2 });
                        }
                    }
                }
            },
            SelectTable::Other(_) => lemma_joins_keep_aliases_read(st, *rest, s),
        }
    }
}

/// Extraction from result columns keeps every alias on a table that is
/// read, and keeps every table at its place.
proof fn lemma_columns_keep_aliases_read(st: SelectState, l: ColumnList, from: Option<Seq<char>>, s: Schema, first: nat)
    requires
        aliases_read(st),
    ensures
        columns_step(st, l, from, s, first) matches Step::Done(st2) ==> aliases_read(st2) && tables_grow(st.tables, st2.tables),
    decreases l, 0nat,
{
    if let ColumnList::Cons(c, rest) = l {
        let s1 = match c {
            ResultColumn::Expr(e, _) => {
                law_expr_only_adds(st, e, s);
                match expr_step(st, e, s) {
                    Step::Done(st2) => Step::Done(
                        SelectState {
                            columns: st2.columns.push(
                                OutColumn { expr: e, alias: col_alias((st2.columns.len() - first) as nat) },
                            ),
                            ..st2
                        },
                    ),
                    other => other,
                }
            },
            ResultColumn::Star => match from {
                None => Step::Stuck(st),
                Some(t) => match s.table(t) {
                    None => Step::Fail(ExtractError::TableStarNotFound(t), st),
                    Some(tbl) => {
                        lemma_add_columns_grows(st.tables, tbl.name@, names_set(tbl.columns@.map_values(|c: Column| c.name)));
                        Step::Done(star_step(st, tbl, None, first))
                    },
                },
            },
            ResultColumn::TableStar(q) => {
                let t = resolve(st, q@);
                match s.table(t) {
                    None => Step::Fail(ExtractError::TableStarNotFound(t), st),
                    Some(tbl) => {
                        lemma_add_columns_grows(st.tables, tbl.name@, names_set(tbl.columns@.map_values(|c: Column| c.name)));
                        Step::Done(star_step(st, tbl, Some(q), first))
                    },
                }
            },
        };
        if let Step::Done(st2) = s1 {
            lemma_aliases_read_kept(st, st2);
            lemma_columns_keep_aliases_read(st2, *rest, from, s, first);
            if let Step::Done(st3) = columns_step(st2, *rest, from, s, first) {
                lemma_grows_trans(
                    SelectState { tables: st.tables, ..st2 },
                    st2,
                    SelectState { tables: st3.tables, ..st2 },
                );
            }
        }
    }
}

/// After a successful extraction every alias stands for a table that the
/// statement reads, and a FROM clause that starts with a named table makes
/// it the first table read.
pub proof fn law_aliases_stand_for_read_tables(sel: Select, s: Schema)
    ensures
        select_step(sel, s) matches Step::Done(st) ==> aliases_read(st),
        select_step(sel, s) matches Step::Done(st) ==> (select_from_table(sel) matches Some(t) ==> st.tables.len() > 0
            && st.tables[0].0 == t),
{
    if let OneSelect::Select { columns, from, where_clause } = sel.body.select {
        assert(aliases_read(empty_state()));
        let mut src_ok = false;
        if let Some(f) = from {
            let s1 = match f.select {
                SelectTable::Table(q, a) => if s.has_table(q.name@) {
                    lemma_alias_touch(empty_state(), q, a);
                    Step::Done(touch_step(alias_step(empty_state(), q, a), q.name@))
                } else {
                    Step::Fail(ExtractError::TableNotFound(q.name@), empty_state())
                },
                SelectTable::Other(_) => Step::Done(empty_state()),
            };
            if let Step::Done(st1) = s1 {
                if let SelectTable::Table(q, a) = f.select {
                    assert(st1.tables =~= seq![(q.name@, Set::<Seq<char>>::empty())]);
                }
                if let Some(j) = f.joins {
                    lemma_joins_keep_aliases_read(st1, j, s);
                }
                if let Step::Done(st2) = from_step(empty_state(), f, s) {
                    assert(aliases_read(st2) && tables_grow(st1.tables, st2.tables));
                    if let Some(x) = where_clause {
                        law_expr_only_adds(st2, *x, s);
                        lemma_aliases_read_kept(st2, step_state(expr_step(st2, *x, s)));
                    }
                }
            }
        }
        if let Step::Done(st) = source_step(sel, s) {
            assert(aliases_read(st));
            lemma_columns_keep_aliases_read(st, columns, select_from_table(sel), s, 0);
        }
    }
}

/// A column that an expression names.
pub enum ColumnRef {
    /// `t.c`, or `main.t.c`: column `c` of the table that `t` stands for.
    Qualified(Seq<char>, Seq<char>),
    /// A bare column name, unquoted, looked up among the tables read.
    Named(Seq<char>),
    /// An identifier as written: looked up by its unquoted name among the
    /// tables read, and recorded as written.
    Ident(Seq<char>),
}

/// The columns that expression `e` names at the places extraction reads,
/// in order.  Subqueries are extracted on their own; the bounds of
/// `BETWEEN` and the `THEN` results of `CASE` are not read.
pub open spec fn column_refs(e: Expr) -> Seq<ColumnRef>
    decreases e, 0nat,
{
    match e {
        Expr::Qualified(t, c) => seq![ColumnRef::Qualified(t@, c@)],
        Expr::DoublyQualified(db, t, c) => if db@ == "main"@ {
            seq![ColumnRef::Qualified(t@, c@)]
        } else {
            Seq::empty()
        },
        Expr::Name(c) => seq![ColumnRef::Named(lookup_name(c@))],
        Expr::Id(c) => seq![ColumnRef::Ident(c@)],
        Expr::Between { lhs, .. } => column_refs(*lhs),
        Expr::Binary(l, _, r) => column_refs(*l) + column_refs(*r),
        Expr::Case { base, when_then_pairs, else_expr } => (match base {
            Some(b) => column_refs(*b),
            None => Seq::empty(),
        }) + arms_refs(when_then_pairs) + (match else_expr {
            Some(x) => column_refs(*x),
            None => Seq::empty(),
        }),
        Expr::Cast { expr, .. } => column_refs(*expr),
        Expr::Collate(x, _) => column_refs(*x),
        Expr::FunctionCall { args, .. } => match args {
            Some(l) => list_refs(l),
            None => Seq::empty(),
        },
        Expr::InList { lhs, rhs, .. } => column_refs(*lhs) + match rhs {
            Some(l) => list_refs(l),
            None => Seq::empty(),
        },
        Expr::InSelect { lhs, .. } => column_refs(*lhs),
        Expr::IsNull(x) => column_refs(*x),
        Expr::Like { lhs, rhs, .. } => column_refs(*lhs) + column_refs(*rhs),
        Expr::NotNull(x) => column_refs(*x),
        Expr::Parenthesized(l) => list_refs(l),
        Expr::Unary(_, x) => column_refs(*x),
        _ => Seq::empty(),
    }
}

/// `column_refs` of each expression of a list, in order.
pub open spec fn list_refs(l: ExprList) -> Seq<ColumnRef>
    decreases l, 0nat,
{
    match l {
        ExprList::Nil => Seq::empty(),
        ExprList::Cons(h, t) => column_refs(*h) + list_refs(*t),
    }
}

/// `column_refs` of each `WHEN` condition of a `CASE`, in order.
pub open spec fn arms_refs(l: CaseArms) -> Seq<ColumnRef>
    decreases l, 0nat,
{
    match l {
        CaseArms::Nil => Seq::empty(),
        CaseArms::Cons(w, _, t) => column_refs(*w) + arms_refs(*t),
    }
}

/// Whether `tables` has an entry for table `k` that holds at least `cols`.
pub open spec fn reads(tables: TableColumns, k: Seq<char>, cols: Set<Seq<char>>) -> bool {
    &&& key_position(tables, k) >= 0
    &&& cols.subset_of(tables[key_position(tables, k)].1)
}

/// Whether `tables` holds bare column `n` under a table that has it.
pub open spec fn name_read(tables: TableColumns, s: Schema, n: Seq<char>) -> bool {
    exists|k: Seq<char>| #[trigger] s.table_has_column(k, n) && reads(tables, k, column_of(s, k, n))
}

/// Whether some table of `tables` has a column named `n`.
pub open spec fn some_table_has(tables: TableColumns, s: Schema, n: Seq<char>) -> bool {
    exists|k: Seq<char>| key_position(tables, k) >= 0 && #[trigger] s.table_has_column(k, n)
}

/// Whether `tables` holds identifier `c` under a table that has a column
/// by its unquoted name.
pub open spec fn ident_read(tables: TableColumns, s: Schema, c: Seq<char>) -> bool {
    exists|k: Seq<char>|
        #[trigger] s.table_has_column(k, lookup_name(c)) && reads(tables, k, column_of(s, k, c))
}

/// Whether extraction that went from `before` to `after` recorded the
/// column that `r` names: under the table `t` stands for, for `t.c`; under
/// a table that has the column, for a bare name; and for an identifier,
/// the same whenever a table read before has a column by its unquoted name.
pub open spec fn ref_read(before: SelectState, after: SelectState, s: Schema, r: ColumnRef) -> bool {
    match r {
        ColumnRef::Qualified(t, c) => reads(
            after.tables,
            resolve(before, t),
            column_of(s, resolve(before, t), c),
        ),
        ColumnRef::Named(n) => name_read(after.tables, s, n),
        ColumnRef::Ident(c) => some_table_has(before.tables, s, lookup_name(c)) ==> ident_read(
            after.tables,
            s,
            c,
        ),
    }
}

/// Whether extraction from `before` to `after` recorded every column of `refs`.
pub open spec fn all_read(before: SelectState, after: SelectState, s: Schema, refs: Seq<ColumnRef>) -> bool {
    forall|i: int| 0 <= i < refs.len() ==> ref_read(before, after, s, #[trigger] refs[i])
}

/// As the tables grow, a table keeps its place.
proof fn lemma_grow_key_position(t1: TableColumns, t2: TableColumns, k: Seq<char>)
    requires
        tables_grow(t1, t2),
        key_position(t1, k) >= 0,
    ensures
        key_position(t2, k) == key_position(t1, k),
{
    lemma_key_position(t1, k);
    lemma_key_position(t2, k);
    let p = key_position(t1, k);
    let q = key_position(t2, k);
    assert(t2[p].0 == k);
    if q < 0 || q > p {
        assert(t2[p].0 != k);
    }
    if 0 <= q < p {
        assert(t1[q].0 == t2[q].0);
        assert(t1[q].0 != k);
    }
}

/// What a table holds stays as the tables grow.
proof fn lemma_reads_grow(t1: TableColumns, t2: TableColumns, k: Seq<char>, cols: Set<Seq<char>>)
    requires
        tables_grow(t1, t2),
        reads(t1, k, cols),
    ensures
        reads(t2, k, cols),
{
    lemma_key_position(t1, k);
    lemma_grow_key_position(t1, t2, k);
    let p = key_position(t1, k);
    assert(t1[p].1.subset_of(t2[p].1));
    assert forall|x: Seq<char>| cols.contains(x) implies t2[p].1.contains(x) by {
        assert(t1[p].1.contains(x));
    }
}

/// Adding columns to a table makes it hold them.
proof fn lemma_add_columns_reads(t: TableColumns, k: Seq<char>, cols: Set<Seq<char>>)
    ensures
        reads(add_columns(t, k, cols), k, cols),
{
    lemma_touch_grows(t, k);
    let u = touch(t, k);
    let p = key_position(u, k);
    let w = add_columns(t, k, cols);
    lemma_key_position(u, k);
    assert(tables_grow(u, w)) by {
        assert forall|i: int| 0 <= i < u.len() implies #[trigger] w[i].0 == u[i].0 && u[i].1.subset_of(w[i].1) by {
            if i == p {
                assert(w[i] == (k, u[p].1.union(cols)));
            }
        }
    }
    lemma_grow_key_position(u, w, k);
    assert(w[p] == (k, u[p].1.union(cols)));
}

/// The table `owner` finds has the column; when it finds none, no table has it.
proof fn lemma_owner_facts(tables: TableColumns, s: Schema, c: Seq<char>)
    ensures
        owner(tables, s, c) matches Owner::Found(k) ==> s.table_has_column(k, c) && key_position(tables, k) >= 0,
        owner(tables, s, c) is NotFound ==> forall|i: int|
            0 <= i < tables.len() ==> !s.table_has_column(#[trigger] tables[i].0, c),
    decreases tables.len(),
{
    if tables.len() > 0 {
        lemma_owner_facts(tables.drop_last(), s, c);
        if owner(tables, s, c) is NotFound {
            assert forall|i: int| 0 <= i < tables.len() implies !s.table_has_column(#[trigger] tables[i].0, c) by {
                if i < tables.len() - 1 {
                    assert(tables.drop_last()[i] == tables[i]);
                }
            }
        }
    }
}

/// A column recorded stays recorded as the tables grow.
proof fn lemma_all_read_later(b: SelectState, a: SelectState, a2: SelectState, s: Schema, refs: Seq<ColumnRef>)
    requires
        all_read(b, a, s, refs),
        tables_grow(a.tables, a2.tables),
    ensures
        all_read(b, a2, s, refs),
{
    assert forall|i: int| 0 <= i < refs.len() implies ref_read(b, a2, s, #[trigger] refs[i]) by {
        match refs[i] {
            ColumnRef::Qualified(t, c) => {
                lemma_reads_grow(a.tables, a2.tables, resolve(b, t), column_of(s, resolve(b, t), c));
            },
            ColumnRef::Named(n) => {
                let k = choose|k: Seq<char>| #[trigger] s.table_has_column(k, n) && reads(a.tables, k, column_of(s, k, n));
                lemma_reads_grow(a.tables, a2.tables, k, column_of(s, k, n));
                assert(s.table_has_column(k, n) && reads(a2.tables, k, column_of(s, k, n)));
            },
            ColumnRef::Ident(c) => {
                if some_table_has(b.tables, s, lookup_name(c)) {
                    let k = choose|k: Seq<char>|
                        #[trigger] s.table_has_column(k, lookup_name(c)) && reads(a.tables, k, column_of(s, k, c));
                    lemma_reads_grow(a.tables, a2.tables, k, column_of(s, k, c));
                    assert(s.table_has_column(k, lookup_name(c)) && reads(a2.tables, k, column_of(s, k, c)));
                }
            },
        }
    }
}

/// What extraction from a later state `m` records, it records from an
/// earlier state `b` with the same aliases.
proof fn lemma_all_read_earlier(b: SelectState, m: SelectState, a: SelectState, s: Schema, refs: Seq<ColumnRef>)
    requires
        all_read(m, a, s, refs),
        m.aliases == b.aliases,
        tables_grow(b.tables, m.tables),
    ensures
        all_read(b, a, s, refs),
{
    assert forall|i: int| 0 <= i < refs.len() implies ref_read(b, a, s, #[trigger] refs[i]) by {
        assert(ref_read(m, a, s, refs[i]));
        if let ColumnRef::Ident(c) = refs[i] {
            if some_table_has(b.tables, s, lookup_name(c)) {
                let k = choose|k: Seq<char>| key_position(b.tables, k) >= 0 && #[trigger] s.table_has_column(k, lookup_name(c));
                lemma_grow_key_position(b.tables, m.tables, k);
                assert(key_position(m.tables, k) >= 0 && s.table_has_column(k, lookup_name(c)));
            }
        }
    }
}

/// Extraction of two parts in turn records the columns of both.
proof fn lemma_read_in_turn(
    st: SelectState,
    st2: SelectState,
    st3: SelectState,
    s: Schema,
    x: Seq<ColumnRef>,
    y: Seq<ColumnRef>,
)
    requires
        all_read(st, st2, s, x),
        all_read(st2, st3, s, y),
        only_adds(st, Step::Done(st2)),
        only_adds(st2, Step::Done(st3)),
    ensures
        all_read(st, st3, s, x + y),
{
    lemma_all_read_later(st, st2, st3, s, x);
    lemma_all_read_earlier(st, st2, st3, s, y);
    assert forall|i: int| 0 <= i < (x + y).len() implies ref_read(st, st3, s, #[trigger] (x + y)[i]) by {
        if i < x.len() {
            assert((x + y)[i] == x[i]);
        } else {
            assert((x + y)[i] == y[i - x.len()]);
        }
    }
}

/// A state only adds to itself.
proof fn lemma_only_adds_refl(st: SelectState)
    ensures
        only_adds(st, Step::Done(st)),
{
    assert forall|i: int| 0 <= i < st.tables.len() implies #[trigger] st.tables[i].0 == st.tables[i].0
        && st.tables[i].1.subset_of(st.tables[i].1) by {}
}

/// Only adding, twice, only adds.
proof fn lemma_only_adds_trans(a: SelectState, b: SelectState, c: SelectState)
    requires
        only_adds(a, Step::Done(b)),
        only_adds(b, Step::Done(c)),
    ensures
        only_adds(a, Step::Done(c)),
{
    lemma_grows_trans(a, b, c);
}

/// Extraction from an expression that succeeds records every column the
/// expression names, outside its subqueries: `t.c` under the table `t`
/// stands for, a bare name under the table read that has it, including the
/// operands of `IS NULL`, `NOT NULL`, unary operators, casts and `IN`.
pub proof fn law_expr_columns_read(st: SelectState, e: Expr, s: Schema)
    ensures
        expr_step(st, e, s) matches Step::Done(st2) ==> all_read(st, st2, s, column_refs(e)),
    decreases e, 1nat,
{
    match e {
        Expr::Qualified(..) => lemma_leaf_read(st, e, s),
        Expr::DoublyQualified(..) => lemma_leaf_read(st, e, s),
        Expr::Name(_) => lemma_leaf_read(st, e, s),
        Expr::Id(_) => lemma_leaf_read(st, e, s),
        Expr::Between { lhs, .. } => law_expr_columns_read(st, *lhs, s),
        Expr::Binary(..) => lemma_pair_read(st, e, s),
        Expr::Case { .. } => lemma_case_read(st, e, s),
        Expr::Cast { expr, .. } => law_expr_columns_read(st, *expr, s),
        Expr::Collate(x, _) => law_expr_columns_read(st, *x, s),
        Expr::FunctionCall { args, .. } => {
            if let Some(l) = args {
                lemma_exprs_read(st, l, s);
            }
        },
        Expr::InList { .. } => lemma_pair_read(st, e, s),
        Expr::InSelect { .. } => lemma_pair_read(st, e, s),
        Expr::IsNull(x) => law_expr_columns_read(st, *x, s),
        Expr::Like { .. } => lemma_pair_read(st, e, s),
        Expr::NotNull(x) => law_expr_columns_read(st, *x, s),
        Expr::Parenthesized(l) => lemma_exprs_read(st, l, s),
        Expr::Unary(_, x) => law_expr_columns_read(st, *x, s),
        _ => {},
    }
}

/// `law_expr_columns_read` for a column reference.
proof fn lemma_leaf_read(st: SelectState, e: Expr, s: Schema)
    requires
        e is Qualified || e is DoublyQualified || e is Name || e is Id,
    ensures
        expr_step(st, e, s) matches Step::Done(st2) ==> all_read(st, st2, s, column_refs(e)),
{
    match e {
        Expr::Qualified(t, c) => {
            lemma_add_columns_reads(st.tables, resolve(st, t@), column_of(s, resolve(st, t@), c@));
            assert(column_refs(e)[0] == ColumnRef::Qualified(t@, c@));
        },
        Expr::DoublyQualified(db, t, c) => {
            if db@ == "main"@ {
                lemma_add_columns_reads(st.tables, resolve(st, t@), column_of(s, resolve(st, t@), c@));
                assert(column_refs(e)[0] == ColumnRef::Qualified(t@, c@));
            }
        },
        Expr::Name(c) => {
            let n = lookup_name(c@);
            lemma_owner_facts(st.tables, s, n);
            if let Owner::Found(t) = owner(st.tables, s, n) {
                lemma_add_columns_reads(st.tables, t, column_of(s, t, n));
                assert(column_refs(e)[0] == ColumnRef::Named(n));
                let st2 = record(st, s, t, n);
                assert(s.table_has_column(t, n) && reads(st2.tables, t, column_of(s, t, n)));
            }
        },
        Expr::Id(c) => {
            let n = lookup_name(c@);
            lemma_owner_facts(st.tables, s, n);
            assert(column_refs(e)[0] == ColumnRef::Ident(c@));
            match owner(st.tables, s, n) {
                Owner::Found(t) => {
                    lemma_add_columns_reads(st.tables, t, column_of(s, t, c@));
                    let st2 = record(st, s, t, c@);
                    assert(s.table_has_column(t, n) && reads(st2.tables, t, column_of(s, t, c@)));
                },
                Owner::NotFound => {
                    assert forall|k: Seq<char>| key_position(st.tables, k) >= 0 implies !#[trigger] s.table_has_column(k, n) by {
                        lemma_key_position(st.tables, k);
                        assert(st.tables[key_position(st.tables, k)].0 == k);
                    }
                },
                Owner::Ambiguous => {},
            }
        },
        _ => {},
    }
}

/// `law_expr_columns_read` for expressions read in two parts, in turn.
proof fn lemma_pair_read(st: SelectState, e: Expr, s: Schema)
    requires
        e is Binary || e is Like || e is InList || e is InSelect,
    ensures
        expr_step(st, e, s) matches Step::Done(st2) ==> all_read(st, st2, s, column_refs(e)),
    decreases e, 0nat,
{
    match e {
        Expr::Binary(l, _, r) => {
            law_expr_only_adds(st, *l, s);
            law_expr_columns_read(st, *l, s);
            if let Step::Done(st2) = expr_step(st, *l, s) {
                law_expr_only_adds(st2, *r, s);
                law_expr_columns_read(st2, *r, s);
                if let Step::Done(st3) = expr_step(st2, *r, s) {
                    lemma_read_in_turn(st, st2, st3, s, column_refs(*l), column_refs(*r));
                }
            }
        },
        Expr::Like { lhs, rhs, .. } => {
            law_expr_only_adds(st, *lhs, s);
            law_expr_columns_read(st, *lhs, s);
            if let Step::Done(st2) = expr_step(st, *lhs, s) {
                law_expr_only_adds(st2, *rhs, s);
                law_expr_columns_read(st2, *rhs, s);
                if let Step::Done(st3) = expr_step(st2, *rhs, s) {
                    lemma_read_in_turn(st, st2, st3, s, column_refs(*lhs), column_refs(*rhs));
                }
            }
        },
        Expr::InList { lhs, rhs, .. } => {
            law_expr_only_adds(st, *lhs, s);
            law_expr_columns_read(st, *lhs, s);
            if let Step::Done(st2) = expr_step(st, *lhs, s) {
                match rhs {
                    Some(l) => {
                        lemma_exprs_only_add(st2, l, s);
                        lemma_exprs_read(st2, l, s);
                        if let Step::Done(st3) = exprs_step(st2, l, s) {
                            lemma_read_in_turn(st, st2, st3, s, column_refs(*lhs), list_refs(l));
                        }
                    },
                    None => {
                        assert(column_refs(*lhs) + Seq::<ColumnRef>::empty() =~= column_refs(*lhs));
                    },
                }
            }
        },
        Expr::InSelect { lhs, rhs, .. } => {
            law_expr_columns_read(st, *lhs, s);
            if let Step::Done(st2) = expr_step(st, *lhs, s) {
                lemma_only_adds_refl(st2);
                if let Step::Done(st3) = with_child(st2, select_step(*rhs, s)) {
                    lemma_all_read_later(st, st2, st3, s, column_refs(*lhs));
                }
            }
        },
        _ => {},
    }
}

/// `law_expr_columns_read` for a `CASE`: its base, its conditions, then
/// its `ELSE` result.
proof fn lemma_case_read(st: SelectState, e: Expr, s: Schema)
    requires
        e is Case,
    ensures
        expr_step(st, e, s) matches Step::Done(st2) ==> all_read(st, st2, s, column_refs(e)),
    decreases e, 0nat,
{
    if let Expr::Case { base, when_then_pairs, else_expr } = e {
        let rb = match base {
            Some(b) => column_refs(*b),
            None => Seq::<ColumnRef>::empty(),
        };
        let s1 = match base {
            Some(b) => {
                law_expr_only_adds(st, *b, s);
                law_expr_columns_read(st, *b, s);
                expr_step(st, *b, s)
            },
            None => {
                lemma_only_adds_refl(st);
                Step::Done(st)
            },
        };
        if let Step::Done(st1) = s1 {
            lemma_arms_only_add(st1, when_then_pairs, s);
            lemma_arms_read(st1, when_then_pairs, s);
            if let Step::Done(st2) = arms_step(st1, when_then_pairs, s) {
                lemma_read_in_turn(st, st1, st2, s, rb, arms_refs(when_then_pairs));
                lemma_only_adds_trans(st, st1, st2);
                let re = match else_expr {
                    Some(x) => column_refs(*x),
                    None => Seq::<ColumnRef>::empty(),
                };
                let s3 = match else_expr {
                    Some(x) => {
                        law_expr_only_adds(st2, *x, s);
                        law_expr_columns_read(st2, *x, s);
                        expr_step(st2, *x, s)
                    },
                    None => {
                        lemma_only_adds_refl(st2);
                        Step::Done(st2)
                    },
                };
                if let Step::Done(st3) = s3 {
                    lemma_read_in_turn(st, st2, st3, s, rb + arms_refs(when_then_pairs), re);
                }
            }
        }
    }
}

/// `law_expr_columns_read` for a list of expressions.
proof fn lemma_exprs_read(st: SelectState, l: ExprList, s: Schema)
    ensures
        exprs_step(st, l, s) matches Step::Done(st2) ==> all_read(st, st2, s, list_refs(l)),
    decreases l, 0nat,
{
    if let ExprList::Cons(h, t) = l {
        law_expr_only_adds(st, *h, s);
        law_expr_columns_read(st, *h, s);
        if let Step::Done(st2) = expr_step(st, *h, s) {
            lemma_exprs_only_add(st2, *t, s);
            lemma_exprs_read(st2, *t, s);
            if let Step::Done(st3) = exprs_step(st2, *t, s) {
                lemma_read_in_turn(st, st2, st3, s, column_refs(*h), list_refs(*t));
            }
        }
    }
}

/// `law_expr_columns_read` for the conditions of a `CASE`.
proof fn lemma_arms_read(st: SelectState, l: CaseArms, s: Schema)
    ensures
        arms_step(st, l, s) matches Step::Done(st2) ==> all_read(st, st2, s, arms_refs(l)),
    decreases l, 0nat,
{
    if let CaseArms::Cons(w, _, t) = l {
        law_expr_only_adds(st, *w, s);
        law_expr_columns_read(st, *w, s);
        if let Step::Done(st2) = expr_step(st, *w, s) {
            lemma_arms_only_add(st2, *t, s);
            lemma_arms_read(st2, *t, s);
            if let Step::Done(st3) = arms_step(st2, *t, s) {
                lemma_read_in_turn(st, st2, st3, s, column_refs(*w), arms_refs(*t));
            }
        }
    }
}

/// As the tables grow, and grow again, they grow.
proof fn lemma_tables_grow_trans(t1: TableColumns, t2: TableColumns, t3: TableColumns)
    requires
        tables_grow(t1, t2),
        tables_grow(t2, t3),
    ensures
        tables_grow(t1, t3),
{
    assert forall|i: int| 0 <= i < t1.len() implies #[trigger] t3[i].0 == t1[i].0 && t1[i].1.subset_of(t3[i].1) by {
        assert(t2[i].0 == t1[i].0);
        assert(t3[i].0 == t2[i].0);
        assert(t1[i].1.subset_of(t2[i].1));
        assert(t2[i].1.subset_of(t3[i].1));
        assert forall|x: Seq<char>| t1[i].1.contains(x) implies t3[i].1.contains(x) by {
            assert(t2[i].1.contains(x));
        }
    }
}

/// Extraction from result columns keeps the aliases and every table at its
/// place with at least its columns.
proof fn lemma_columns_only_add(st: SelectState, l: ColumnList, from: Option<Seq<char>>, s: Schema, first: nat)
    ensures
        columns_step(st, l, from, s, first) matches Step::Done(st2) ==> st2.aliases == st.aliases && tables_grow(
            st.tables,
            st2.tables,
        ),
    decreases l, 0nat,
{
    if let ColumnList::Cons(c, rest) = l {
        let s1 = match c {
            ResultColumn::Expr(e, _) => {
                law_expr_only_adds(st, e, s);
                match expr_step(st, e, s) {
                    Step::Done(st2) => Step::Done(
                        SelectState {
                            columns: st2.columns.push(
                                OutColumn { expr: e, alias: col_alias((st2.columns.len() - first) as nat) },
                            ),
                            ..st2
                        },
                    ),
                    other => other,
                }
            },
            ResultColumn::Star => match from {
                None => Step::Stuck(st),
                Some(t) => match s.table(t) {
                    None => Step::Fail(ExtractError::TableStarNotFound(t), st),
                    Some(tbl) => {
                        lemma_add_columns_grows(st.tables, tbl.name@, names_set(tbl.columns@.map_values(|c: Column| c.name)));
                        Step::Done(star_step(st, tbl, None, first))
                    },
                },
            },
            ResultColumn::TableStar(q) => {
                let t = resolve(st, q@);
                match s.table(t) {
                    None => Step::Fail(ExtractError::TableStarNotFound(t), st),
                    Some(tbl) => {
                        lemma_add_columns_grows(st.tables, tbl.name@, names_set(tbl.columns@.map_values(|c: Column| c.name)));
                        Step::Done(star_step(st, tbl, Some(q), first))
                    },
                }
            },
        };
        if let Step::Done(st2) = s1 {
            lemma_columns_only_add(st2, *rest, from, s, first);
            if let Step::Done(st3) = columns_step(st2, *rest, from, s, first) {
                lemma_tables_grow_trans(st.tables, st2.tables, st3.tables);
            }
        }
    }
}

/// After a successful extraction, every column that the WHERE clause names
/// outside its subqueries is among the columns the statement reads, under
/// the table it belongs to: the operand of `IS NULL` as much as the sides
/// of a comparison.
pub proof fn law_where_columns_read(sel: Select, s: Schema)
    ensures
        select_step(sel, s) matches Step::Done(st) ==> (sel.body.select matches OneSelect::Select {
            from: Some(f),
            where_clause: Some(w),
            ..
        } ==> all_read(step_state(from_step(empty_state(), f, s)), st, s, column_refs(*w))),
{
    if let OneSelect::Select { columns, from, where_clause } = sel.body.select {
        if let Some(f) = from {
            if let Some(w) = where_clause {
                if let Step::Done(stf) = from_step(empty_state(), f, s) {
                    law_expr_columns_read(stf, *w, s);
                    if let Step::Done(stw) = expr_step(stf, *w, s) {
                        lemma_columns_only_add(stw, columns, select_from_table(sel), s, 0);
                        if let Step::Done(st) = columns_step(stw, columns, select_from_table(sel), s, 0) {
                            lemma_all_read_later(stf, stw, st, s, column_refs(*w));
                        }
                    }
                }
            }
        }
    }
}

/// The name an alias clause gives a table, written with `AS` or without.
pub open spec fn as_name(a: As) -> Seq<char> {
    match a {
        As::As(n) => n@,
        As::Elided(n) => n@,
    }
}

/// The alias a FROM or JOIN table is written with: its alias clause, else
/// the alias of its qualified name, if either is there.
pub open spec fn table_alias(q: QualifiedName, a: Option<As>) -> Option<Seq<char>> {
    match a {
        Some(x) => Some(as_name(x)),
        None => match q.alias {
            Some(x) => Some(x@),
            None => None,
        },
    }
}

/// Whether no table of the joins `l` is written with alias `x`.
pub open spec fn joins_keep_alias(l: JoinList, x: Seq<char>) -> bool
    decreases l,
{
    match l {
        JoinList::Nil => true,
        JoinList::Cons(j, rest) => (match j.table {
            SelectTable::Table(q, a) => table_alias(q, a) != Some(x),
            SelectTable::Other(_) => true,
        }) && joins_keep_alias(*rest, x),
    }
}

/// Recording the alias of a table binds the alias it is written with, with
/// `AS` or without it, to its name, and changes no other alias.
pub proof fn law_alias_binds_table_name(st: SelectState, q: QualifiedName, a: Option<As>)
    ensures
        table_alias(q, a) matches Some(x) ==> alias_step(st, q, a).aliases == st.aliases.insert(x, q.name@),
        table_alias(q, a) is None ==> alias_step(st, q, a).aliases == st.aliases,
{
}

/// Joins that do not take alias `x` leave what it stands for as it is.
proof fn lemma_joins_keep_alias(st: SelectState, l: JoinList, s: Schema, x: Seq<char>)
    requires
        joins_keep_alias(l, x),
        st.aliases.contains_key(x),
    ensures
        joins_step(st, l, s) matches Step::Done(st2) ==> st2.aliases.contains_key(x) && st2.aliases[x]
            == st.aliases[x],
    decreases l, 0nat,
{
    if let JoinList::Cons(j, rest) = l {
        match j.table {
            SelectTable::Table(q, a) => {
                law_alias_binds_table_name(st, q, a);
                let st1 = touch_step(alias_step(st, q, a), q.name@);
                assert(st1.aliases.contains_key(x) && st1.aliases[x] == st.aliases[x]);
                let s2 = match j.constraint {
                    None => Step::Done(st1),
                    Some(JoinConstraint::On(e)) => {
                        law_expr_only_adds(st1, e, s);
                        expr_step(st1, e, s)
                    },
                    Some(JoinConstraint::Using(names)) => {
                        lemma_using_only_adds(st1, names, q.name@, s);
                        Step::Done(using_step(st1, names, q.name@, s))
                    },
                };
                if let Step::Done(st2) = s2 {
                    lemma_joins_keep_alias(st2, *rest, s, x);
                }
            },
            SelectTable::Other(_) => lemma_joins_keep_alias(st, *rest, s, x),
        }
    }
}

/// After a successful extraction, the alias the FROM table is written
/// with, with `AS` or without it, stands for that table, unless a joined
/// table is written with the same alias.
pub proof fn law_from_alias_names_its_table(sel: Select, s: Schema)
    ensures
        select_step(sel, s) matches Step::Done(st) ==> (sel.body.select matches OneSelect::Select {
            from: Some(f),
            ..
        } ==> (f.select matches SelectTable::Table(q, a) ==> (table_alias(q, a) matches Some(x) ==> ((
        f.joins matches Some(j) ==> joins_keep_alias(j, x)) ==> st.aliases.contains_key(x) && st.aliases[x]
            == q.name@)))),
{
    if let OneSelect::Select { columns, from, where_clause } = sel.body.select {
        if let Some(f) = from {
            if let SelectTable::Table(q, a) = f.select {
                if let Some(x) = table_alias(q, a) {
                    law_alias_binds_table_name(empty_state(), q, a);
                    let st1 = touch_step(alias_step(empty_state(), q, a), q.name@);
                    assert(st1.aliases.contains_key(x) && st1.aliases[x] == q.name@);
                    if let Some(j) = f.joins {
                        if joins_keep_alias(j, x) {
                            lemma_joins_keep_alias(st1, j, s, x);
                        }
                    }
                    if let Step::Done(stf) = from_step(empty_state(), f, s) {
                        if let Some(w) = where_clause {
                            law_expr_only_adds(stf, *w, s);
                        }
                    }
                    if let Step::Done(stw) = source_step(sel, s) {
                        lemma_columns_only_add(stw, columns, select_from_table(sel), s, 0);
                    }
                }
            }
        }
    }
}

/// Extraction from joins binds the alias that the first joined table is
/// written with, with `AS` or without it, to that table, unless a later
/// joined table is written with the same alias.
pub proof fn law_join_alias_names_its_table(st: SelectState, l: JoinList, s: Schema)
    ensures
        joins_step(st, l, s) matches Step::Done(st2) ==> (l matches JoinList::Cons(j, rest) ==> (
        j.table matches SelectTable::Table(q, a) ==> (table_alias(q, a) matches Some(x) ==> (
        joins_keep_alias(*rest, x) ==> st2.aliases.contains_key(x) && st2.aliases[x] == q.name@)))),
{
    if let JoinList::Cons(j, rest) = l {
        if let SelectTable::Table(q, a) = j.table {
            if let Some(x) = table_alias(q, a) {
                law_alias_binds_table_name(st, q, a);
                let st1 = touch_step(alias_step(st, q, a), q.name@);
                let s2 = match j.constraint {
                    None => Step::Done(st1),
                    Some(JoinConstraint::On(e)) => {
                        law_expr_only_adds(st1, e, s);
                        expr_step(st1, e, s)
                    },
                    Some(JoinConstraint::Using(names)) => {
                        lemma_using_only_adds(st1, names, q.name@, s);
                        Step::Done(using_step(st1, names, q.name@, s))
                    },
                };
                if let Step::Done(st2) = s2 {
                    if joins_keep_alias(*rest, x) {
                        lemma_joins_keep_alias(st2, *rest, s, x);
                    }
                }
            }
        }
    }
}

/// Whether column `x` of table `k` is one that `r` names, when extraction
/// starts from `before`.
pub open spec fn ref_names(before: SelectState, s: Schema, r: ColumnRef, k: Seq<char>, x: Seq<char>) -> bool {
    match r {
        ColumnRef::Qualified(t, c) => k == resolve(before, t) && column_of(s, k, c).contains(x),
        ColumnRef::Named(n) => s.table_has_column(k, n) && column_of(s, k, n).contains(x),
        ColumnRef::Ident(c) => s.table_has_column(k, lookup_name(c)) && column_of(s, k, c).contains(x),
    }
}

/// Whether `r` is a qualified column whose table stands for table `k`,
/// when extraction starts from `before`.
pub open spec fn names_table(before: SelectState, r: ColumnRef, k: Seq<char>) -> bool {
    match r {
        ColumnRef::Qualified(t, _) => resolve(before, t) == k,
        _ => false,
    }
}

/// Whether a column of `refs` names column `x` of table `k`.
pub open spec fn column_named(before: SelectState, s: Schema, refs: Seq<ColumnRef>, k: Seq<char>, x: Seq<char>) -> bool {
    exists|j: int| 0 <= j < refs.len() && ref_names(before, s, #[trigger] refs[j], k, x)
}

/// Whether a qualified column of `refs` names table `k`.
pub open spec fn table_named(before: SelectState, refs: Seq<ColumnRef>, k: Seq<char>) -> bool {
    exists|j: int| 0 <= j < refs.len() && #[trigger] names_table(before, refs[j], k)
}

/// Whether everything that `after` holds beyond `before` comes from the
/// columns `refs` name: each column it adds to a table is one that a
/// column of `refs` names, and each table it adds is named by a qualified
/// column of `refs`.
pub open spec fn only_named(before: SelectState, after: SelectState, s: Schema, refs: Seq<ColumnRef>) -> bool {
    &&& forall|i: int, x: Seq<char>|
        0 <= i < after.tables.len() && #[trigger] after.tables[i].1.contains(x) && !(i < before.tables.len()
            && before.tables[i].1.contains(x)) ==> column_named(before, s, refs, after.tables[i].0, x)
    &&& forall|i: int|
        #![trigger after.tables[i]]
        before.tables.len() <= i < after.tables.len() ==> table_named(before, refs, after.tables[i].0)
}

/// What adding columns to a table adds: those columns, to that table, and
/// at most an entry for it.
proof fn lemma_add_columns_only(t: TableColumns, k: Seq<char>, cols: Set<Seq<char>>)
    ensures
        forall|i: int, x: Seq<char>|
            0 <= i < add_columns(t, k, cols).len() && #[trigger] add_columns(t, k, cols)[i].1.contains(x)
                && !(i < t.len() && t[i].1.contains(x)) ==> add_columns(t, k, cols)[i].0 == k && cols.contains(x),
        forall|i: int| t.len() <= i < add_columns(t, k, cols).len() ==> #[trigger] add_columns(t, k, cols)[i].0 == k,
        key_position(t, k) >= 0 ==> add_columns(t, k, cols).len() == t.len(),
{
    lemma_key_position(t, k);
    lemma_touch_grows(t, k);
    let u = touch(t, k);
    lemma_key_position(u, k);
    let p = key_position(u, k);
    if key_position(t, k) < 0 {
        lemma_key_position_push(t, k, Set::<Seq<char>>::empty());
    }
    let w = add_columns(t, k, cols);
    assert forall|i: int, x: Seq<char>|
        0 <= i < w.len() && #[trigger] w[i].1.contains(x) && !(i < t.len() && t[i].1.contains(x)) implies w[i].0
            == k && cols.contains(x) by {
        if i == p {
            assert(w[i] == (k, u[p].1.union(cols)));
            if p < t.len() {
                assert(u[p] == t[p]);
            }
        } else {
            assert(w[i] == u[i]);
            assert(i < t.len());
            assert(u[i] == t[i]);
        }
    }
    assert forall|i: int| t.len() <= i < w.len() implies #[trigger] w[i].0 == k by {
        assert(i == p);
    }
}

/// Recording column `c` of table `k` adds nothing but what a column
/// reference that names it stands for.
proof fn lemma_record_only_named(st: SelectState, s: Schema, k: Seq<char>, c: Seq<char>, r: ColumnRef)
    requires
        forall|x: Seq<char>| column_of(s, k, c).contains(x) ==> ref_names(st, s, r, k, x),
        key_position(st.tables, k) < 0 ==> names_table(st, r, k),
    ensures
        only_named(st, record(st, s, k, c), s, seq![r]),
{
    lemma_add_columns_only(st.tables, k, column_of(s, k, c));
    let w = record(st, s, k, c).tables;
    let refs = seq![r];
    assert forall|i: int, x: Seq<char>|
        0 <= i < w.len() && #[trigger] w[i].1.contains(x) && !(i < st.tables.len() && st.tables[i].1.contains(x))
            implies column_named(st, s, refs, w[i].0, x) by {
        assert(ref_names(st, s, refs[0], w[i].0, x));
    }
    assert forall|i: int| #![trigger w[i]] st.tables.len() <= i < w.len() implies table_named(st, refs, w[i].0) by {
        assert(w[i].0 == k);
        assert(key_position(st.tables, k) < 0);
        assert(refs[0] == r);
        assert(names_table(st, refs[0], w[i].0));
    }
}

/// A state adds nothing to itself.
proof fn lemma_only_named_none(st: SelectState, s: Schema, refs: Seq<ColumnRef>)
    ensures
        only_named(st, st, s, refs),
{
}

/// What two parts extracted in turn add comes from the columns of one or
/// the other.
proof fn lemma_only_named_in_turn(
    st: SelectState,
    st2: SelectState,
    st3: SelectState,
    s: Schema,
    x: Seq<ColumnRef>,
    y: Seq<ColumnRef>,
)
    requires
        only_named(st, st2, s, x),
        only_named(st2, st3, s, y),
        only_adds(st, Step::Done(st2)),
        only_adds(st2, Step::Done(st3)),
    ensures
        only_named(st, st3, s, x + y),
{
    let xy = x + y;
    assert forall|i: int, z: Seq<char>|
        0 <= i < st3.tables.len() && #[trigger] st3.tables[i].1.contains(z) && !(i < st.tables.len()
            && st.tables[i].1.contains(z)) implies column_named(st, s, xy, st3.tables[i].0, z) by {
        if i < st2.tables.len() && st2.tables[i].1.contains(z) {
            assert(column_named(st, s, x, st2.tables[i].0, z));
            let j = choose|j: int| 0 <= j < x.len() && ref_names(st, s, #[trigger] x[j], st2.tables[i].0, z);
            assert(st3.tables[i].0 == st2.tables[i].0);
            assert(xy[j] == x[j]);
            assert(ref_names(st, s, xy[j], st3.tables[i].0, z));
        } else {
            assert(column_named(st2, s, y, st3.tables[i].0, z));
            let j = choose|j: int| 0 <= j < y.len() && ref_names(st2, s, #[trigger] y[j], st3.tables[i].0, z);
            assert(xy[x.len() + j] == y[j]);
            assert(ref_names(st, s, xy[x.len() + j], st3.tables[i].0, z));
        }
    }
    assert forall|i: int| #![trigger st3.tables[i]] st.tables.len() <= i < st3.tables.len() implies table_named(
        st,
        xy,
        st3.tables[i].0,
    ) by {
        if i < st2.tables.len() {
            assert(st3.tables[i].0 == st2.tables[i].0);
            assert(table_named(st, x, st2.tables[i].0));
            let j = choose|j: int| 0 <= j < x.len() && #[trigger] names_table(st, x[j], st2.tables[i].0);
            assert(xy[j] == x[j]);
            assert(names_table(st, xy[j], st3.tables[i].0));
        } else {
            assert(table_named(st2, y, st3.tables[i].0));
            let j = choose|j: int| 0 <= j < y.len() && #[trigger] names_table(st2, y[j], st3.tables[i].0);
            assert(xy[x.len() + j] == y[j]);
            assert(names_table(st, xy[x.len() + j], st3.tables[i].0));
        }
    }
}

/// What a state adds depends only on its tables.
proof fn lemma_only_named_same_tables(b: SelectState, a: SelectState, a2: SelectState, s: Schema, refs: Seq<ColumnRef>)
    requires
        only_named(b, a, s, refs),
        a2.tables == a.tables,
    ensures
        only_named(b, a2, s, refs),
{
}

/// Extraction from an expression that succeeds adds nothing but what the
/// columns it names stand for: each column it records is one of those the
/// expression names, under the table it names it for, and each table it
/// adds is named by a qualified column.
pub proof fn law_expr_adds_only_named(st: SelectState, e: Expr, s: Schema)
    ensures
        expr_step(st, e, s) matches Step::Done(st2) ==> only_named(st, st2, s, column_refs(e)),
    decreases e, 1nat,
{
    lemma_only_named_none(st, s, column_refs(e));
    match e {
        Expr::Qualified(..) => lemma_leaf_only_named(st, e, s),
        Expr::DoublyQualified(..) => lemma_leaf_only_named(st, e, s),
        Expr::Name(_) => lemma_leaf_only_named(st, e, s),
        Expr::Id(_) => lemma_leaf_only_named(st, e, s),
        Expr::Between { lhs, .. } => law_expr_adds_only_named(st, *lhs, s),
        Expr::Binary(..) => lemma_pair_only_named(st, e, s),
        Expr::Case { .. } => lemma_case_only_named(st, e, s),
        Expr::Cast { expr, .. } => law_expr_adds_only_named(st, *expr, s),
        Expr::Collate(x, _) => law_expr_adds_only_named(st, *x, s),
        Expr::Exists(sel) => {
            if let Step::Done(c) = select_step(*sel, s) {
                lemma_only_named_same_tables(st, st, add_child(st, c), s, column_refs(e));
            }
        },
        Expr::FunctionCall { args, .. } => {
            if let Some(l) = args {
                lemma_exprs_only_named(st, l, s);
            }
        },
        Expr::InList { .. } => lemma_pair_only_named(st, e, s),
        Expr::InSelect { .. } => lemma_pair_only_named(st, e, s),
        Expr::IsNull(x) => law_expr_adds_only_named(st, *x, s),
        Expr::Like { .. } => lemma_pair_only_named(st, e, s),
        Expr::NotNull(x) => law_expr_adds_only_named(st, *x, s),
        Expr::Parenthesized(l) => lemma_exprs_only_named(st, l, s),
        Expr::Subquery(sel) => {
            if let Step::Done(c) = select_step(*sel, s) {
                lemma_only_named_same_tables(st, st, add_child(st, c), s, column_refs(e));
            }
        },
        Expr::Unary(_, x) => law_expr_adds_only_named(st, *x, s),
        _ => {},
    }
}

/// `law_expr_adds_only_named` for a column reference.
proof fn lemma_leaf_only_named(st: SelectState, e: Expr, s: Schema)
    requires
        e is Qualified || e is DoublyQualified || e is Name || e is Id,
    ensures
        expr_step(st, e, s) matches Step::Done(st2) ==> only_named(st, st2, s, column_refs(e)),
{
    match e {
        Expr::Qualified(t, c) => {
            let r = ColumnRef::Qualified(t@, c@);
            lemma_record_only_named(st, s, resolve(st, t@), c@, r);
            assert(column_refs(e) =~= seq![r]);
        },
        Expr::DoublyQualified(db, t, c) => {
            if db@ == "main"@ {
                let r = ColumnRef::Qualified(t@, c@);
                lemma_record_only_named(st, s, resolve(st, t@), c@, r);
                assert(column_refs(e) =~= seq![r]);
            } else {
                lemma_only_named_none(st, s, column_refs(e));
            }
        },
        Expr::Name(c) => {
            let n = lookup_name(c@);
            lemma_owner_facts(st.tables, s, n);
            if let Owner::Found(t) = owner(st.tables, s, n) {
                let r = ColumnRef::Named(n);
                lemma_record_only_named(st, s, t, n, r);
                assert(column_refs(e) =~= seq![r]);
            }
        },
        Expr::Id(c) => {
            let n = lookup_name(c@);
            lemma_owner_facts(st.tables, s, n);
            let r = ColumnRef::Ident(c@);
            if let Owner::Found(t) = owner(st.tables, s, n) {
                lemma_record_only_named(st, s, t, c@, r);
                assert(column_refs(e) =~= seq![r]);
            } else {
                lemma_only_named_none(st, s, column_refs(e));
            }
        },
        _ => {},
    }
}

/// `law_expr_adds_only_named` for expressions read in two parts, in turn.
proof fn lemma_pair_only_named(st: SelectState, e: Expr, s: Schema)
    requires
        e is Binary || e is Like || e is InList || e is InSelect,
    ensures
        expr_step(st, e, s) matches Step::Done(st2) ==> only_named(st, st2, s, column_refs(e)),
    decreases e, 0nat,
{
    match e {
        Expr::Binary(l, _, r) => {
            law_expr_only_adds(st, *l, s);
            law_expr_adds_only_named(st, *l, s);
            if let Step::Done(st2) = expr_step(st, *l, s) {
                law_expr_only_adds(st2, *r, s);
                law_expr_adds_only_named(st2, *r, s);
                if let Step::Done(st3) = expr_step(st2, *r, s) {
                    lemma_only_named_in_turn(st, st2, st3, s, column_refs(*l), column_refs(*r));
                }
            }
        },
        Expr::Like { lhs, rhs, .. } => {
            law_expr_only_adds(st, *lhs, s);
            law_expr_adds_only_named(st, *lhs, s);
            if let Step::Done(st2) = expr_step(st, *lhs, s) {
                law_expr_only_adds(st2, *rhs, s);
                law_expr_adds_only_named(st2, *rhs, s);
                if let Step::Done(st3) = expr_step(st2, *rhs, s) {
                    lemma_only_named_in_turn(st, st2, st3, s, column_refs(*lhs), column_refs(*rhs));
                }
            }
        },
        Expr::InList { lhs, rhs, .. } => {
            law_expr_only_adds(st, *lhs, s);
            law_expr_adds_only_named(st, *lhs, s);
            if let Step::Done(st2) = expr_step(st, *lhs, s) {
                match rhs {
                    Some(l) => {
                        lemma_exprs_only_add(st2, l, s);
                        lemma_exprs_only_named(st2, l, s);
                        if let Step::Done(st3) = exprs_step(st2, l, s) {
                            lemma_only_named_in_turn(st, st2, st3, s, column_refs(*lhs), list_refs(l));
                        }
                    },
                    None => {
                        assert(column_refs(*lhs) + Seq::<ColumnRef>::empty() =~= column_refs(*lhs));
                    },
                }
            }
        },
        Expr::InSelect { lhs, rhs, .. } => {
            law_expr_adds_only_named(st, *lhs, s);
            if let Step::Done(st2) = expr_step(st, *lhs, s) {
                if let Step::Done(st3) = with_child(st2, select_step(*rhs, s)) {
                    lemma_only_named_same_tables(st, st2, st3, s, column_refs(*lhs));
                }
            }
        },
        _ => {},
    }
}

/// `law_expr_adds_only_named` for a `CASE`.
proof fn lemma_case_only_named(st: SelectState, e: Expr, s: Schema)
    requires
        e is Case,
    ensures
        expr_step(st, e, s) matches Step::Done(st2) ==> only_named(st, st2, s, column_refs(e)),
    decreases e, 0nat,
{
    if let Expr::Case { base, when_then_pairs, else_expr } = e {
        let rb = match base {
            Some(b) => column_refs(*b),
            None => Seq::<ColumnRef>::empty(),
        };
        let s1 = match base {
            Some(b) => {
                law_expr_only_adds(st, *b, s);
                law_expr_adds_only_named(st, *b, s);
                expr_step(st, *b, s)
            },
            None => {
                lemma_only_adds_refl(st);
                lemma_only_named_none(st, s, rb);
                Step::Done(st)
            },
        };
        if let Step::Done(st1) = s1 {
            lemma_arms_only_add(st1, when_then_pairs, s);
            lemma_arms_only_named(st1, when_then_pairs, s);
            if let Step::Done(st2) = arms_step(st1, when_then_pairs, s) {
                lemma_only_named_in_turn(st, st1, st2, s, rb, arms_refs(when_then_pairs));
                lemma_only_adds_trans(st, st1, st2);
                let re = match else_expr {
                    Some(x) => column_refs(*x),
                    None => Seq::<ColumnRef>::empty(),
                };
                let s3 = match else_expr {
                    Some(x) => {
                        law_expr_only_adds(st2, *x, s);
                        law_expr_adds_only_named(st2, *x, s);
                        expr_step(st2, *x, s)
                    },
                    None => {
                        lemma_only_adds_refl(st2);
                        lemma_only_named_none(st2, s, re);
                        Step::Done(st2)
                    },
                };
                if let Step::Done(st3) = s3 {
                    lemma_only_named_in_turn(st, st2, st3, s, rb + arms_refs(when_then_pairs), re);
                }
            }
        }
    }
}

/// `law_expr_adds_only_named` for a list of expressions.
proof fn lemma_exprs_only_named(st: SelectState, l: ExprList, s: Schema)
    ensures
        exprs_step(st, l, s) matches Step::Done(st2) ==> only_named(st, st2, s, list_refs(l)),
    decreases l, 0nat,
{
    lemma_only_named_none(st, s, list_refs(l));
    if let ExprList::Cons(h, t) = l {
        law_expr_only_adds(st, *h, s);
        law_expr_adds_only_named(st, *h, s);
        if let Step::Done(st2) = expr_step(st, *h, s) {
            lemma_exprs_only_add(st2, *t, s);
            lemma_exprs_only_named(st2, *t, s);
            if let Step::Done(st3) = exprs_step(st2, *t, s) {
                lemma_only_named_in_turn(st, st2, st3, s, column_refs(*h), list_refs(*t));
            }
        }
    }
}

/// `law_expr_adds_only_named` for the conditions of a `CASE`.
proof fn lemma_arms_only_named(st: SelectState, l: CaseArms, s: Schema)
    ensures
        arms_step(st, l, s) matches Step::Done(st2) ==> only_named(st, st2, s, arms_refs(l)),
    decreases l, 0nat,
{
    lemma_only_named_none(st, s, arms_refs(l));
    if let CaseArms::Cons(w, _, t) = l {
        law_expr_only_adds(st, *w, s);
        law_expr_adds_only_named(st, *w, s);
        if let Step::Done(st2) = expr_step(st, *w, s) {
            lemma_arms_only_add(st2, *t, s);
            lemma_arms_only_named(st2, *t, s);
            if let Step::Done(st3) = arms_step(st2, *t, s) {
                lemma_only_named_in_turn(st, st2, st3, s, column_refs(*w), arms_refs(*t));
            }
        }
    }
}

/// Whether extraction lets through every part of `e` that it reads, apart
/// from its column references: no `IN table(..)`, and each subquery
/// extracts.
pub open spec fn parts_extract(e: Expr, s: Schema) -> bool
    decreases e, 0nat,
{
    match e {
        Expr::Between { lhs, .. } => parts_extract(*lhs, s),
        Expr::Binary(l, _, r) => parts_extract(*l, s) && parts_extract(*r, s),
        Expr::Case { base, when_then_pairs, else_expr } => (match base {
            Some(b) => parts_extract(*b, s),
            None => true,
        }) && arms_extract(when_then_pairs, s) && (match else_expr {
            Some(x) => parts_extract(*x, s),
            None => true,
        }),
        Expr::Cast { expr, .. } => parts_extract(*expr, s),
        Expr::Collate(x, _) => parts_extract(*x, s),
        Expr::Exists(sel) => select_step(*sel, s) is Done,
        Expr::FunctionCall { args, .. } => match args {
            Some(l) => list_extract(l, s),
            None => true,
        },
        Expr::InList { lhs, rhs, .. } => parts_extract(*lhs, s) && match rhs {
            Some(l) => list_extract(l, s),
            None => true,
        },
        Expr::InSelect { lhs, rhs, .. } => parts_extract(*lhs, s) && select_step(*rhs, s) is Done,
        Expr::InTable { .. } => false,
        Expr::IsNull(x) => parts_extract(*x, s),
        Expr::Like { lhs, rhs, .. } => parts_extract(*lhs, s) && parts_extract(*rhs, s),
        Expr::NotNull(x) => parts_extract(*x, s),
        Expr::Parenthesized(l) => list_extract(l, s),
        Expr::Subquery(sel) => select_step(*sel, s) is Done,
        Expr::Unary(_, x) => parts_extract(*x, s),
        _ => true,
    }
}

/// `parts_extract` of each expression of a list.
pub open spec fn list_extract(l: ExprList, s: Schema) -> bool
    decreases l, 0nat,
{
    match l {
        ExprList::Nil => true,
        ExprList::Cons(h, t) => parts_extract(*h, s) && list_extract(*t, s),
    }
}

/// `parts_extract` of each `WHEN` condition of a `CASE`.
pub open spec fn arms_extract(l: CaseArms, s: Schema) -> bool
    decreases l, 0nat,
{
    match l {
        CaseArms::Nil => true,
        CaseArms::Cons(w, _, t) => parts_extract(*w, s) && arms_extract(*t, s),
    }
}

/// Whether `tables` has an entry for table `k`.
pub open spec fn has_entry(tables: TableColumns, k: Seq<char>) -> bool {
    exists|i: int| 0 <= i < tables.len() && #[trigger] tables[i].0 == k
}

/// Whether exactly one table of `tables` has a column named `n`.
pub open spec fn unique_owner(tables: TableColumns, s: Schema, n: Seq<char>) -> bool {
    exists|i: int|
        0 <= i < tables.len() && #[trigger] s.table_has_column(tables[i].0, n) && forall|j: int|
            0 <= j < tables.len() && #[trigger] s.table_has_column(tables[j].0, n) ==> j == i
}

/// Whether column reference `r` is found among the tables of `st`: the
/// table of a qualified column has an entry, and exactly one table has a
/// bare name, or an identifier's unquoted name, among its columns.
pub open spec fn ref_resolves(st: SelectState, s: Schema, r: ColumnRef) -> bool {
    match r {
        ColumnRef::Qualified(t, _) => has_entry(st.tables, resolve(st, t)),
        ColumnRef::Named(n) => unique_owner(st.tables, s, n),
        ColumnRef::Ident(c) => unique_owner(st.tables, s, lookup_name(c)),
    }
}

/// Whether every column reference of `refs` is found among the tables of `st`.
pub open spec fn all_resolve(st: SelectState, s: Schema, refs: Seq<ColumnRef>) -> bool {
    forall|i: int| 0 <= i < refs.len() ==> ref_resolves(st, s, #[trigger] refs[i])
}

/// Whether `t2` has the same tables as `t1`, in the same order.
pub open spec fn same_keys(t1: TableColumns, t2: TableColumns) -> bool {
    &&& t2.len() == t1.len()
    &&& forall|i: int| 0 <= i < t1.len() ==> #[trigger] t2[i].0 == t1[i].0
}

/// When no table has the column, `owner` finds none.
proof fn lemma_owner_none(tables: TableColumns, s: Schema, n: Seq<char>)
    requires
        forall|j: int| 0 <= j < tables.len() ==> !s.table_has_column(#[trigger] tables[j].0, n),
    ensures
        owner(tables, s, n) is NotFound,
    decreases tables.len(),
{
    if tables.len() > 0 {
        assert forall|j: int| 0 <= j < tables.drop_last().len() implies !s.table_has_column(
            #[trigger] tables.drop_last()[j].0,
            n,
        ) by {
            assert(tables.drop_last()[j] == tables[j]);
        }
        lemma_owner_none(tables.drop_last(), s, n);
        assert(!s.table_has_column(tables[tables.len() - 1].0, n));
    }
}

/// When exactly one table has the column, `owner` finds it.
proof fn lemma_unique_owner_found(tables: TableColumns, s: Schema, n: Seq<char>)
    requires
        unique_owner(tables, s, n),
    ensures
        owner(tables, s, n) is Found,
    decreases tables.len(),
{
    let i = choose|i: int|
        0 <= i < tables.len() && #[trigger] s.table_has_column(tables[i].0, n) && forall|j: int|
            0 <= j < tables.len() && #[trigger] s.table_has_column(tables[j].0, n) ==> j == i;
    let d = tables.drop_last();
    let last = tables.len() - 1;
    if i == last {
        assert forall|j: int| 0 <= j < d.len() implies !s.table_has_column(#[trigger] d[j].0, n) by {
            assert(d[j] == tables[j]);
            if s.table_has_column(tables[j].0, n) {
                assert(j == i);
            }
        }
        lemma_owner_none(d, s, n);
    } else {
        assert(!s.table_has_column(tables[last].0, n)) by {
            if s.table_has_column(tables[last].0, n) {
                assert(last == i);
            }
        }
        assert(d[i] == tables[i]);
        assert forall|j: int| 0 <= j < d.len() && #[trigger] s.table_has_column(d[j].0, n) implies j == i by {
            assert(d[j] == tables[j]);
        }
        lemma_unique_owner_found(d, s, n);
    }
}

/// A table with an entry is found at some position.
proof fn lemma_has_entry_position(tables: TableColumns, k: Seq<char>)
    requires
        has_entry(tables, k),
    ensures
        key_position(tables, k) >= 0,
{
    lemma_key_position(tables, k);
    let i = choose|i: int| 0 <= i < tables.len() && #[trigger] tables[i].0 == k;
    assert(tables[i].0 == k);
}

/// Column references found among some tables are found among the same
/// tables with other columns.
proof fn lemma_resolve_same_keys(st: SelectState, st2: SelectState, s: Schema, refs: Seq<ColumnRef>)
    requires
        all_resolve(st, s, refs),
        same_keys(st.tables, st2.tables),
        st2.aliases == st.aliases,
    ensures
        all_resolve(st2, s, refs),
{
    assert forall|i: int| 0 <= i < refs.len() implies ref_resolves(st2, s, #[trigger] refs[i]) by {
        match refs[i] {
            ColumnRef::Qualified(t, _) => {
                let k = resolve(st, t);
                let p = choose|p: int| 0 <= p < st.tables.len() && #[trigger] st.tables[p].0 == k;
                assert(st2.tables[p].0 == k);
            },
            ColumnRef::Named(n) => {
                lemma_unique_owner_same_keys(st.tables, st2.tables, s, n);
            },
            ColumnRef::Ident(c) => {
                lemma_unique_owner_same_keys(st.tables, st2.tables, s, lookup_name(c));
            },
        }
    }
}

/// Which table has a column depends on the tables alone.
proof fn lemma_unique_owner_same_keys(t1: TableColumns, t2: TableColumns, s: Schema, n: Seq<char>)
    requires
        unique_owner(t1, s, n),
        same_keys(t1, t2),
    ensures
        unique_owner(t2, s, n),
{
    let i = choose|i: int|
        0 <= i < t1.len() && #[trigger] s.table_has_column(t1[i].0, n) && forall|j: int|
            0 <= j < t1.len() && #[trigger] s.table_has_column(t1[j].0, n) ==> j == i;
    assert(t2[i].0 == t1[i].0);
    assert forall|j: int| 0 <= j < t2.len() && #[trigger] s.table_has_column(t2[j].0, n) implies j == i by {
        assert(t2[j].0 == t1[j].0);
    }
    assert(s.table_has_column(t2[i].0, n));
}

/// The references of two parts found among some tables are each found there.
proof fn lemma_all_resolve_split(st: SelectState, s: Schema, x: Seq<ColumnRef>, y: Seq<ColumnRef>)
    requires
        all_resolve(st, s, x + y),
    ensures
        all_resolve(st, s, x),
        all_resolve(st, s, y),
{
    assert forall|i: int| 0 <= i < x.len() implies ref_resolves(st, s, #[trigger] x[i]) by {
        assert((x + y)[i] == x[i]);
    }
    assert forall|i: int| 0 <= i < y.len() implies ref_resolves(st, s, #[trigger] y[i]) by {
        assert((x + y)[x.len() + i] == y[i]);
    }
}

/// Recording a column of a table that has an entry adds no table.
proof fn lemma_record_same_keys(st: SelectState, s: Schema, k: Seq<char>, c: Seq<char>)
    requires
        key_position(st.tables, k) >= 0,
    ensures
        same_keys(st.tables, record(st, s, k, c).tables),
{
    lemma_add_columns_grows(st.tables, k, column_of(s, k, c));
    lemma_add_columns_only(st.tables, k, column_of(s, k, c));
}

/// The conditions of `law_expr_extracts` for the state after a part that
/// added no table.
proof fn lemma_resolve_after(
    st: SelectState,
    st2: SelectState,
    s: Schema,
    refs: Seq<ColumnRef>,
)
    requires
        all_resolve(st, s, refs),
        same_keys(st.tables, st2.tables),
        only_adds(st, Step::Done(st2)),
    ensures
        all_resolve(st2, s, refs),
{
    lemma_resolve_same_keys(st, st2, s, refs);
}

/// Extraction from an expression succeeds when every column it names is
/// found among the tables read, a bare name in exactly one of them, and
/// every subquery in it extracts; it then adds no table.
pub proof fn law_expr_extracts(st: SelectState, e: Expr, s: Schema)
    requires
        parts_extract(e, s),
        all_resolve(st, s, column_refs(e)),
    ensures
        expr_step(st, e, s) is Done,
        expr_step(st, e, s) matches Step::Done(st2) ==> same_keys(st.tables, st2.tables),
    decreases e, 1nat,
{
    match e {
        Expr::Qualified(..) => lemma_leaf_extracts(st, e, s),
        Expr::DoublyQualified(..) => lemma_leaf_extracts(st, e, s),
        Expr::Name(_) => lemma_leaf_extracts(st, e, s),
        Expr::Id(_) => lemma_leaf_extracts(st, e, s),
        Expr::Between { lhs, .. } => law_expr_extracts(st, *lhs, s),
        Expr::Binary(..) => lemma_pair_extracts(st, e, s),
        Expr::Case { .. } => lemma_case_extracts(st, e, s),
        Expr::Cast { expr, .. } => law_expr_extracts(st, *expr, s),
        Expr::Collate(x, _) => law_expr_extracts(st, *x, s),
        Expr::FunctionCall { args, .. } => {
            if let Some(l) = args {
                lemma_exprs_extract(st, l, s);
            }
        },
        Expr::InList { .. } => lemma_pair_extracts(st, e, s),
        Expr::InSelect { .. } => lemma_pair_extracts(st, e, s),
        Expr::IsNull(x) => law_expr_extracts(st, *x, s),
        Expr::Like { .. } => lemma_pair_extracts(st, e, s),
        Expr::NotNull(x) => law_expr_extracts(st, *x, s),
        Expr::Parenthesized(l) => lemma_exprs_extract(st, l, s),
        Expr::Unary(_, x) => law_expr_extracts(st, *x, s),
        _ => {},
    }
}

/// `law_expr_extracts` for a column reference.
proof fn lemma_leaf_extracts(st: SelectState, e: Expr, s: Schema)
    requires
        e is Qualified || e is DoublyQualified || e is Name || e is Id,
        all_resolve(st, s, column_refs(e)),
    ensures
        expr_step(st, e, s) is Done,
        expr_step(st, e, s) matches Step::Done(st2) ==> same_keys(st.tables, st2.tables),
{
    match e {
        Expr::Qualified(t, c) => {
            assert(ref_resolves(st, s, column_refs(e)[0]));
            lemma_has_entry_position(st.tables, resolve(st, t@));
            lemma_record_same_keys(st, s, resolve(st, t@), c@);
        },
        Expr::DoublyQualified(db, t, c) => {
            if db@ == "main"@ {
                assert(ref_resolves(st, s, column_refs(e)[0]));
                lemma_has_entry_position(st.tables, resolve(st, t@));
                lemma_record_same_keys(st, s, resolve(st, t@), c@);
            }
        },
        Expr::Name(c) => {
            let n = lookup_name(c@);
            assert(ref_resolves(st, s, column_refs(e)[0]));
            lemma_unique_owner_found(st.tables, s, n);
            lemma_owner_facts(st.tables, s, n);
            if let Owner::Found(t) = owner(st.tables, s, n) {
                lemma_record_same_keys(st, s, t, n);
            }
        },
        Expr::Id(c) => {
            let n = lookup_name(c@);
            assert(ref_resolves(st, s, column_refs(e)[0]));
            lemma_unique_owner_found(st.tables, s, n);
            lemma_owner_facts(st.tables, s, n);
            if let Owner::Found(t) = owner(st.tables, s, n) {
                lemma_record_same_keys(st, s, t, c@);
            }
        },
        _ => {},
    }
}

/// `law_expr_extracts` for expressions read in two parts, in turn.
proof fn lemma_pair_extracts(st: SelectState, e: Expr, s: Schema)
    requires
        e is Binary || e is Like || e is InList || e is InSelect,
        parts_extract(e, s),
        all_resolve(st, s, column_refs(e)),
    ensures
        expr_step(st, e, s) is Done,
        expr_step(st, e, s) matches Step::Done(st2) ==> same_keys(st.tables, st2.tables),
    decreases e, 0nat,
{
    match e {
        Expr::Binary(l, _, r) => {
            lemma_all_resolve_split(st, s, column_refs(*l), column_refs(*r));
            law_expr_only_adds(st, *l, s);
            law_expr_extracts(st, *l, s);
            let st2 = step_state(expr_step(st, *l, s));
            lemma_resolve_after(st, st2, s, column_refs(*r));
            law_expr_extracts(st2, *r, s);
        },
        Expr::Like { lhs, rhs, .. } => {
            lemma_all_resolve_split(st, s, column_refs(*lhs), column_refs(*rhs));
            law_expr_only_adds(st, *lhs, s);
            law_expr_extracts(st, *lhs, s);
            let st2 = step_state(expr_step(st, *lhs, s));
            lemma_resolve_after(st, st2, s, column_refs(*rhs));
            law_expr_extracts(st2, *rhs, s);
        },
        Expr::InList { lhs, rhs, .. } => {
            match rhs {
                Some(l) => {
                    lemma_all_resolve_split(st, s, column_refs(*lhs), list_refs(l));
                    law_expr_only_adds(st, *lhs, s);
                    law_expr_extracts(st, *lhs, s);
                    let st2 = step_state(expr_step(st, *lhs, s));
                    lemma_resolve_after(st, st2, s, list_refs(l));
                    lemma_exprs_extract(st2, l, s);
                },
                None => {
                    assert(column_refs(*lhs) + Seq::<ColumnRef>::empty() =~= column_refs(*lhs));
                    law_expr_extracts(st, *lhs, s);
                },
            }
        },
        Expr::InSelect { lhs, .. } => {
            law_expr_extracts(st, *lhs, s);
        },
        _ => {},
    }
}

/// `law_expr_extracts` for a `CASE`.
proof fn lemma_case_extracts(st: SelectState, e: Expr, s: Schema)
    requires
        e is Case,
        parts_extract(e, s),
        all_resolve(st, s, column_refs(e)),
    ensures
        expr_step(st, e, s) is Done,
        expr_step(st, e, s) matches Step::Done(st2) ==> same_keys(st.tables, st2.tables),
    decreases e, 0nat,
{
    if let Expr::Case { base, when_then_pairs, else_expr } = e {
        let rb = match base {
            Some(b) => column_refs(*b),
            None => Seq::<ColumnRef>::empty(),
        };
        let re = match else_expr {
            Some(x) => column_refs(*x),
            None => Seq::<ColumnRef>::empty(),
        };
        let ra = arms_refs(when_then_pairs);
        lemma_all_resolve_split(st, s, rb + ra, re);
        lemma_all_resolve_split(st, s, rb, ra);
        let st1 = match base {
            Some(b) => {
                law_expr_only_adds(st, *b, s);
                law_expr_extracts(st, *b, s);
                step_state(expr_step(st, *b, s))
            },
            None => {
                lemma_only_adds_refl(st);
                st
            },
        };
        lemma_resolve_after(st, st1, s, ra);
        lemma_resolve_after(st, st1, s, re);
        lemma_arms_only_add(st1, when_then_pairs, s);
        lemma_arms_extract(st1, when_then_pairs, s);
        let st2 = step_state(arms_step(st1, when_then_pairs, s));
        lemma_resolve_after(st1, st2, s, re);
        if let Some(x) = else_expr {
            law_expr_extracts(st2, *x, s);
        }
    }
}

/// `law_expr_extracts` for a list of expressions.
proof fn lemma_exprs_extract(st: SelectState, l: ExprList, s: Schema)
    requires
        list_extract(l, s),
        all_resolve(st, s, list_refs(l)),
    ensures
        exprs_step(st, l, s) is Done,
        exprs_step(st, l, s) matches Step::Done(st2) ==> same_keys(st.tables, st2.tables),
    decreases l, 0nat,
{
    if let ExprList::Cons(h, t) = l {
        lemma_all_resolve_split(st, s, column_refs(*h), list_refs(*t));
        law_expr_only_adds(st, *h, s);
        law_expr_extracts(st, *h, s);
        let st2 = step_state(expr_step(st, *h, s));
        lemma_resolve_after(st, st2, s, list_refs(*t));
        lemma_exprs_extract(st2, *t, s);
    }
}

/// `law_expr_extracts` for the conditions of a `CASE`.
proof fn lemma_arms_extract(st: SelectState, l: CaseArms, s: Schema)
    requires
        arms_extract(l, s),
        all_resolve(st, s, arms_refs(l)),
    ensures
        arms_step(st, l, s) is Done,
        arms_step(st, l, s) matches Step::Done(st2) ==> same_keys(st.tables, st2.tables),
    decreases l, 0nat,
{
    if let CaseArms::Cons(w, _, t) = l {
        lemma_all_resolve_split(st, s, column_refs(*w), arms_refs(*t));
        law_expr_only_adds(st, *w, s);
        law_expr_extracts(st, *w, s);
        let st2 = step_state(expr_step(st, *w, s));
        lemma_resolve_after(st, st2, s, arms_refs(*t));
        lemma_arms_extract(st2, *t, s);
    }
}

} // verus!
