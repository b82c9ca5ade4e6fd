//! The part of a parsed SELECT statement that column extraction reads.
//!
//! Operators, type names, literals and other leaves that never name a column
//! are held as their SQL text.
use vstd::prelude::*;

verus! {

/// A list of expressions, first element first.
#[derive(Debug)]
#[allow(inconsistent_fields)]
pub enum ExprList {
    Nil,
    Cons(Box<Expr>, Box<ExprList>),
}

impl ExprList {
    /// The elements in order.
    pub open spec fn seq(self) -> Seq<Expr>
        decreases self,
    {
        match self {
            ExprList::Nil => Seq::empty(),
            ExprList::Cons(h, t) => seq![*h] + t.seq(),
        }
    }
}

/// A list of `WHEN .. THEN ..` pairs, first element first.
#[derive(Debug)]
pub enum CaseArms {
    Nil,
    /// `WHEN` condition, `THEN` result, remaining pairs
    Cons(Box<Expr>, Box<Expr>, Box<CaseArms>),
}

impl CaseArms {
    /// The elements in order.
    pub open spec fn seq(self) -> Seq<(Expr, Expr)>
        decreases self,
    {
        match self {
            CaseArms::Nil => Seq::empty(),
            CaseArms::Cons(w, r, t) => seq![(*w, *r)] + t.seq(),
        }
    }
}

/// A list of names, first element first.
#[derive(Debug)]
pub enum NameList {
    Nil,
    Cons(String, Box<NameList>),
}

impl NameList {
    /// The elements in order.
    pub open spec fn seq(self) -> Seq<String>
        decreases self,
    {
        match self {
            NameList::Nil => Seq::empty(),
            NameList::Cons(h, t) => seq![h] + t.seq(),
        }
    }
}

/// A list of result columns, first element first.
#[derive(Debug)]
pub enum ColumnList {
    Nil,
    Cons(ResultColumn, Box<ColumnList>),
}

impl ColumnList {
    /// The elements in order.
    pub open spec fn seq(self) -> Seq<ResultColumn>
        decreases self,
    {
        match self {
            ColumnList::Nil => Seq::empty(),
            ColumnList::Cons(h, t) => seq![h] + t.seq(),
        }
    }
}

/// A list of joined tables, first element first.
#[derive(Debug)]
pub enum JoinList {
    Nil,
    Cons(JoinedSelectTable, Box<JoinList>),
}

impl JoinList {
    /// The elements in order.
    pub open spec fn seq(self) -> Seq<JoinedSelectTable>
        decreases self,
    {
        match self {
            JoinList::Nil => Seq::empty(),
            JoinList::Cons(h, t) => seq![h] + t.seq(),
        }
    }
}

/// `AS alias` or an alias written without `AS`.
#[derive(Debug)]
pub enum As {
    As(String),
    Elided(String),
}

/// An SQL expression.
#[derive(Debug)]
#[allow(inconsistent_fields)]
pub enum Expr {
    /// `lhs [NOT] BETWEEN start AND end`
    Between { lhs: Box<Expr>, not: bool, start: Box<Expr>, end: Box<Expr> },
    /// `lhs op rhs`, the operator as its SQL text
    Binary(Box<Expr>, String, Box<Expr>),
    /// `CASE [base] WHEN .. THEN .. [ELSE ..] END`
    Case { base: Option<Box<Expr>>, when_then_pairs: CaseArms, else_expr: Option<Box<Expr>> },
    /// `CAST(expr AS type)`
    Cast { expr: Box<Expr>, sql_type: Option<String> },
    /// `expr COLLATE name`
    Collate(Box<Expr>, String),
    /// `schema.table.column`
    DoublyQualified(String, String, String),
    /// `EXISTS (select)`
    Exists(Box<Select>),
    /// `name([DISTINCT] args)`
    FunctionCall { name: String, distinct: bool, args: Option<ExprList> },
    /// `name(*)`
    FunctionCallStar { name: String },
    /// An identifier
    Id(String),
    /// `lhs [NOT] IN (rhs, ..)`
    InList { lhs: Box<Expr>, not: bool, rhs: Option<ExprList> },
    /// `lhs [NOT] IN (select)`
    InSelect { lhs: Box<Expr>, not: bool, rhs: Box<Select> },
    /// `lhs [NOT] IN table(args)`, the table as its SQL text
    InTable { lhs: Box<Expr>, not: bool, rhs: String, args: Option<ExprList> },
    /// `expr ISNULL`
    IsNull(Box<Expr>),
    /// `lhs [NOT] LIKE rhs [ESCAPE escape]`, the operator as its SQL text
    Like { lhs: Box<Expr>, not: bool, op: String, rhs: Box<Expr>, escape: Option<Box<Expr>> },
    /// A literal, as its SQL text
    Literal(String),
    /// A name
    Name(String),
    /// `expr NOTNULL`
    NotNull(Box<Expr>),
    /// `(expr, ..)`
    Parenthesized(ExprList),
    /// `table.column`
    Qualified(String, String),
    /// `RAISE(..)`, as its SQL text
    Raise(String),
    /// `(select)`
    Subquery(Box<Select>),
    /// `op expr`, the operator as its SQL text
    Unary(String, Box<Expr>),
    /// A bound parameter
    Variable(String),
}

/// A column of a SELECT's result.
#[derive(Debug)]
pub enum ResultColumn {
    Expr(Expr, Option<As>),
    Star,
    TableStar(String),
}

/// `[schema.]name [AS alias]` in a FROM clause.
#[derive(Debug)]
pub struct QualifiedName {
    pub db_name: Option<String>,
    pub name: String,
    pub alias: Option<String>,
}

/// A table in a FROM clause.
#[derive(Debug)]
pub enum SelectTable {
    /// A named table with its optional alias.
    Table(QualifiedName, Option<As>),
    /// A table-valued function, a subquery or a parenthesized join, as SQL text.
    Other(String),
}

/// `JOIN .. ON expr` or `JOIN .. USING (names)`.
#[derive(Debug)]
pub enum JoinConstraint {
    On(Expr),
    Using(NameList),
}

/// A table joined to the FROM clause.
#[derive(Debug)]
pub struct JoinedSelectTable {
    pub table: SelectTable,
    pub constraint: Option<JoinConstraint>,
}

/// `FROM table [JOIN ..]*`
#[derive(Debug)]
pub struct FromClause {
    pub select: SelectTable,
    pub joins: Option<JoinList>,
}

/// One SELECT or VALUES of a statement.
#[derive(Debug)]
pub enum OneSelect {
    Select { from: Option<FromClause>, columns: ColumnList, where_clause: Option<Box<Expr>> },
    /// `VALUES (..)`, as its SQL text
    Values(String),
}

/// The first SELECT of a statement (compound parts are not read).
#[derive(Debug)]
pub struct SelectBody {
    pub select: OneSelect,
}

/// A SELECT statement (ORDER BY and LIMIT are not read).
#[derive(Debug)]
pub struct Select {
    pub body: SelectBody,
}

impl Clone for As {
    fn clone(&self) -> (r: Self)
        ensures
            r == *self,
    {
        match self {
            As::As(s) => As::As(s.clone()),
            As::Elided(s) => As::Elided(s.clone()),
        }
    }
}

/// Copies an optional string.
pub fn clone_opt_string(s: &Option<String>) -> (r: Option<String>)
    ensures
        r == *s,
{
    match s {
        Some(s) => Some(s.clone()),
        None => None,
    }
}

/// Copies a list of strings.
pub fn clone_strings(l: &NameList) -> (r: NameList)
    ensures
        r == *l,
    decreases *l,
{
    match l {
        NameList::Nil => NameList::Nil,
        NameList::Cons(h, t) => NameList::Cons(h.clone(), Box::new(clone_strings(t))),
    }
}

fn clone_box_expr(e: &Box<Expr>) -> (r: Box<Expr>)
    ensures
        r == *e,
    decreases *e, 2int,
{
    Box::new(clone_expr(&**e))
}

fn clone_opt_box_expr(e: &Option<Box<Expr>>) -> (r: Option<Box<Expr>>)
    ensures
        r == *e,
    decreases *e, 2int,
{
    match e {
        Some(b) => Some(clone_box_expr(b)),
        None => None,
    }
}

fn clone_exprs(l: &ExprList) -> (r: ExprList)
    ensures
        r == *l,
    decreases *l, 0int,
{
    match l {
        ExprList::Nil => ExprList::Nil,
        ExprList::Cons(h, t) => {
            let h2 = clone_box_expr(h);
            ExprList::Cons(h2, Box::new(clone_exprs(t)))
        },
    }
}

fn clone_opt_exprs(l: &Option<ExprList>) -> (r: Option<ExprList>)
    ensures
        r == *l,
    decreases *l, 2int,
{
    match l {
        Some(l) => Some(clone_exprs(l)),
        None => None,
    }
}

fn clone_pairs(l: &CaseArms) -> (r: CaseArms)
    ensures
        r == *l,
    decreases *l, 0int,
{
    match l {
        CaseArms::Nil => CaseArms::Nil,
        CaseArms::Cons(w, r, t) => {
            let a = clone_box_expr(w);
            let b = clone_box_expr(r);
            CaseArms::Cons(a, b, Box::new(clone_pairs(t)))
        },
    }
}

/// Copies an expression.
pub fn clone_expr(e: &Expr) -> (r: Expr)
    ensures
        r == *e,
    decreases *e, 1int,
{
    match e {
        Expr::Between { lhs, not, start, end } => Expr::Between {
            lhs: clone_box_expr(lhs),
            not: *not,
            start: clone_box_expr(start),
            end: clone_box_expr(end),
        },
        Expr::Binary(l, op, r) => Expr::Binary(clone_box_expr(l), op.clone(), clone_box_expr(r)),
        Expr::Case { base, when_then_pairs, else_expr } => Expr::Case {
            base: clone_opt_box_expr(base),
            when_then_pairs: clone_pairs(when_then_pairs),
            else_expr: clone_opt_box_expr(else_expr),
        },
        Expr::Cast { expr, sql_type } => Expr::Cast {
            expr: clone_box_expr(expr),
            sql_type: clone_opt_string(sql_type),
        },
        Expr::Collate(x, c) => Expr::Collate(clone_box_expr(x), c.clone()),
        Expr::DoublyQualified(a, b, c) => Expr::DoublyQualified(a.clone(), b.clone(), c.clone()),
        Expr::Exists(s) => Expr::Exists(Box::new(clone_select(&**s))),
        Expr::FunctionCall { name, distinct, args } => Expr::FunctionCall {
            name: name.clone(),
            distinct: *distinct,
            args: clone_opt_exprs(args),
        },
        Expr::FunctionCallStar { name } => Expr::FunctionCallStar { name: name.clone() },
        Expr::Id(s) => Expr::Id(s.clone()),
        Expr::InList { lhs, not, rhs } => Expr::InList {
            lhs: clone_box_expr(lhs),
            not: *not,
            rhs: clone_opt_exprs(rhs),
        },
        Expr::InSelect { lhs, not, rhs } => Expr::InSelect {
            lhs: clone_box_expr(lhs),
            not: *not,
            rhs: Box::new(clone_select(&**rhs)),
        },
        Expr::InTable { lhs, not, rhs, args } => Expr::InTable {
            lhs: clone_box_expr(lhs),
            not: *not,
            rhs: rhs.clone(),
            args: clone_opt_exprs(args),
        },
        Expr::IsNull(x) => Expr::IsNull(clone_box_expr(x)),
        Expr::Like { lhs, not, op, rhs, escape } => Expr::Like {
            lhs: clone_box_expr(lhs),
            not: *not,
            op: op.clone(),
            rhs: clone_box_expr(rhs),
            escape: clone_opt_box_expr(escape),
        },
        Expr::Literal(s) => Expr::Literal(s.clone()),
        Expr::Name(s) => Expr::Name(s.clone()),
        Expr::NotNull(x) => Expr::NotNull(clone_box_expr(x)),
        Expr::Parenthesized(l) => Expr::Parenthesized(clone_exprs(l)),
        Expr::Qualified(a, b) => Expr::Qualified(a.clone(), b.clone()),
        Expr::Raise(s) => Expr::Raise(s.clone()),
        Expr::Subquery(s) => Expr::Subquery(Box::new(clone_select(&**s))),
        Expr::Unary(op, x) => Expr::Unary(op.clone(), clone_box_expr(x)),
        Expr::Variable(s) => Expr::Variable(s.clone()),
    }
}

fn clone_opt_as(a: &Option<As>) -> (r: Option<As>)
    ensures
        r == *a,
{
    match a {
        Some(a) => Some(a.clone()),
        None => None,
    }
}

/// Copies a result column.
pub fn clone_result_column(c: &ResultColumn) -> (r: ResultColumn)
    ensures
        r == *c,
    decreases *c, 2int,
{
    match c {
        ResultColumn::Expr(e, a) => ResultColumn::Expr(clone_expr(e), clone_opt_as(a)),
        ResultColumn::Star => ResultColumn::Star,
        ResultColumn::TableStar(t) => ResultColumn::TableStar(t.clone()),
    }
}

fn clone_result_columns(l: &ColumnList) -> (r: ColumnList)
    ensures
        r == *l,
    decreases *l, 2int,
{
    match l {
        ColumnList::Nil => ColumnList::Nil,
        ColumnList::Cons(h, t) => {
            let h2 = clone_result_column(h);
            ColumnList::Cons(h2, Box::new(clone_result_columns(t)))
        },
    }
}

fn clone_qualified_name(q: &QualifiedName) -> (r: QualifiedName)
    ensures
        r == *q,
{
    QualifiedName {
        db_name: clone_opt_string(&q.db_name),
        name: q.name.clone(),
        alias: clone_opt_string(&q.alias),
    }
}

fn clone_select_table(t: &SelectTable) -> (r: SelectTable)
    ensures
        r == *t,
{
    match t {
        SelectTable::Table(q, a) => SelectTable::Table(clone_qualified_name(q), clone_opt_as(a)),
        SelectTable::Other(s) => SelectTable::Other(s.clone()),
    }
}

fn clone_joins(l: &JoinList) -> (r: JoinList)
    ensures
        r == *l,
    decreases *l, 2int,
{
    match l {
        JoinList::Nil => JoinList::Nil,
        JoinList::Cons(h, t) => {
            let constraint = match &h.constraint {
                Some(JoinConstraint::On(e)) => Some(JoinConstraint::On(clone_expr(e))),
                Some(JoinConstraint::Using(n)) => Some(JoinConstraint::Using(clone_strings(n))),
                None => None,
            };
            let table = clone_select_table(&h.table);
            JoinList::Cons(JoinedSelectTable { table, constraint }, Box::new(clone_joins(t)))
        },
    }
}

/// Copies a SELECT statement.
pub fn clone_select(s: &Select) -> (r: Select)
    ensures
        r == *s,
    decreases *s, 3int,
{
    let select = match &s.body.select {
        OneSelect::Select { from, columns, where_clause } => {
            let from = match from {
                Some(f) => {
                    let joins = match &f.joins {
                        Some(j) => Some(clone_joins(j)),
                        None => None,
                    };
                    Some(FromClause { select: clone_select_table(&f.select), joins })
                },
                None => None,
            };
            OneSelect::Select {
                from,
                columns: clone_result_columns(columns),
                where_clause: clone_opt_box_expr(where_clause),
            }
        },
        OneSelect::Values(t) => OneSelect::Values(t.clone()),
    };
    Select { body: SelectBody { select } }
}

impl Clone for Expr {
    fn clone(&self) -> (r: Self)
        ensures
            r == *self,
    {
        clone_expr(self)
    }
}

impl Clone for ResultColumn {
    fn clone(&self) -> (r: Self)
        ensures
            r == *self,
    {
        clone_result_column(self)
    }
}

impl Clone for Select {
    fn clone(&self) -> (r: Self)
        ensures
            r == *self,
    {
        clone_select(self)
    }
}

} // verus!
