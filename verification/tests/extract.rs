use corro_types::ast::{
    As, CaseArms, ColumnList, Expr, ExprList, FromClause, JoinConstraint, JoinList, JoinedSelectTable,
    NameList, OneSelect, QualifiedName, ResultColumn, Select, SelectBody, SelectTable,
};
use corro_types::db::ParsedSelect;
use corro_types::error::MatcherError;
use corro_types::schema::{Column, Generated, Schema, Table};

fn s(x: &str) -> String {
    x.to_string()
}

fn col(name: &str) -> Column {
    Column { name: s(name), generated: None }
}

fn gen_col(name: &str, from: &[&str]) -> Column {
    Column { name: s(name), generated: Some(Generated { from: from.iter().map(|f| s(f)).collect() }) }
}

fn table(name: &str, columns: Vec<Column>) -> Table {
    Table { name: s(name), columns }
}

fn schema() -> Schema {
    Schema {
        tables: vec![
            table("foo", vec![col("id"), col("a"), col("b")]),
            table("bar", vec![col("id"), col("foo_id"), col("c")]),
            table("gen", vec![col("id"), col("x"), col("y"), gen_col("sum", &["x", "y"]), gen_col("twice", &["sum"])]),
        ],
    }
}

fn exprs(v: Vec<Expr>) -> ExprList {
    let mut l = ExprList::Nil;
    for e in v.into_iter().rev() {
        l = ExprList::Cons(Box::new(e), Box::new(l));
    }
    l
}

fn cols(v: Vec<ResultColumn>) -> ColumnList {
    let mut l = ColumnList::Nil;
    for c in v.into_iter().rev() {
        l = ColumnList::Cons(c, Box::new(l));
    }
    l
}

fn names(v: &[&str]) -> NameList {
    let mut l = NameList::Nil;
    for n in v.iter().rev() {
        l = NameList::Cons(s(n), Box::new(l));
    }
    l
}

fn joins(v: Vec<JoinedSelectTable>) -> JoinList {
    let mut l = JoinList::Nil;
    for j in v.into_iter().rev() {
        l = JoinList::Cons(j, Box::new(l));
    }
    l
}

fn named(t: &str, alias: Option<&str>) -> SelectTable {
    SelectTable::Table(
        QualifiedName { db_name: None, name: s(t), alias: None },
        alias.map(|a| As::As(s(a))),
    )
}

fn select(from: Option<FromClause>, columns: Vec<ResultColumn>, where_clause: Option<Expr>) -> Select {
    Select {
        body: SelectBody {
            select: OneSelect::Select { from, columns: cols(columns), where_clause: where_clause.map(Box::new) },
        },
    }
}

fn from(t: SelectTable, j: Option<JoinList>) -> Option<FromClause> {
    Some(FromClause { select: t, joins: j })
}

fn name(n: &str) -> Expr {
    Expr::Name(s(n))
}

fn qualified(t: &str, c: &str) -> Expr {
    Expr::Qualified(s(t), s(c))
}

fn result(e: Expr) -> ResultColumn {
    ResultColumn::Expr(e, None)
}

fn eq(l: Expr, r: Expr) -> Expr {
    Expr::Binary(Box::new(l), s("="), Box::new(r))
}

fn lit(x: &str) -> Expr {
    Expr::Literal(s(x))
}

fn table_cols(p: &ParsedSelect, t: &str) -> Vec<String> {
    let mut v: Vec<String> = p.table_columns.get(t).expect("table read").names().clone();
    v.sort();
    v
}

fn tables(p: &ParsedSelect) -> Vec<String> {
    p.table_columns.keys().cloned().collect()
}

fn aliases_of(p: &ParsedSelect) -> Vec<String> {
    p.columns
        .iter()
        .map(|c| match c {
            ResultColumn::Expr(_, Some(As::As(a))) => a.clone(),
            other => panic!("unexpected result column {other:?}"),
        })
        .collect()
}

fn extract(sel: &Select) -> Result<ParsedSelect, MatcherError> {
    let sch = schema();
    assert!(sch.is_well_formed());
    ParsedSelect::extract_select_columns(sel, &sch)
}

#[test]
fn plain_columns_and_where_clause_are_read() {
    let sel = select(
        from(named("foo", None), None),
        vec![result(name("a")), result(name("b"))],
        Some(eq(name("id"), lit("1"))),
    );
    let p = extract(&sel).unwrap();
    assert_eq!(tables(&p), vec![s("foo")]);
    assert_eq!(table_cols(&p, "foo"), vec![s("a"), s("b"), s("id")]);
    assert_eq!(aliases_of(&p), vec![s("col_0"), s("col_1")]);
    assert!(p.children.is_empty());
}

#[test]
fn star_expands_to_every_column_of_the_from_table() {
    let sel = select(from(named("foo", None), None), vec![ResultColumn::Star], None);
    let p = extract(&sel).unwrap();
    assert_eq!(table_cols(&p, "foo"), vec![s("a"), s("b"), s("id")]);
    assert_eq!(aliases_of(&p), vec![s("col_0"), s("col_1"), s("col_2")]);
    match &p.columns[1] {
        ResultColumn::Expr(Expr::Name(n), _) => assert_eq!(n, "a"),
        other => panic!("unexpected {other:?}"),
    }
}

#[test]
fn table_star_goes_through_the_alias() {
    let sel = select(
        from(named("bar", Some("b")), None),
        vec![result(name("c")), ResultColumn::TableStar(s("b"))],
        None,
    );
    let p = extract(&sel).unwrap();
    assert_eq!(table_cols(&p, "bar"), vec![s("c"), s("foo_id"), s("id")]);
    assert_eq!(aliases_of(&p), vec![s("col_0"), s("col_1"), s("col_2"), s("col_3")]);
    match &p.columns[3] {
        ResultColumn::Expr(Expr::Qualified(t, c), _) => {
            assert_eq!(t, "b");
            assert_eq!(c, "c");
        }
        other => panic!("unexpected {other:?}"),
    }
}

#[test]
fn qualified_columns_resolve_aliases_and_joins_add_tables() {
    let j = JoinedSelectTable {
        table: named("bar", Some("b")),
        constraint: Some(JoinConstraint::On(eq(qualified("b", "foo_id"), qualified("f", "id")))),
    };
    let sel = select(
        from(named("foo", Some("f")), Some(joins(vec![j]))),
        vec![result(qualified("f", "a")), result(qualified("b", "c"))],
        None,
    );
    let p = extract(&sel).unwrap();
    assert_eq!(tables(&p), vec![s("foo"), s("bar")]);
    assert_eq!(table_cols(&p, "foo"), vec![s("a"), s("id")]);
    assert_eq!(table_cols(&p, "bar"), vec![s("c"), s("foo_id")]);
}

#[test]
fn using_columns_are_read_from_the_joined_table() {
    let j = JoinedSelectTable { table: named("bar", None), constraint: Some(JoinConstraint::Using(names(&["id"]))) };
    let sel = select(from(named("foo", None), Some(joins(vec![j]))), vec![result(name("c"))], None);
    let p = extract(&sel).unwrap();
    assert_eq!(table_cols(&p, "bar"), vec![s("c"), s("id")]);
    assert_eq!(table_cols(&p, "foo"), Vec::<String>::new());
}

#[test]
fn a_column_of_two_tables_needs_a_qualifier() {
    let j = JoinedSelectTable { table: named("bar", None), constraint: None };
    let sel = select(from(named("foo", None), Some(joins(vec![j]))), vec![result(name("id"))], None);
    match extract(&sel) {
        Err(MatcherError::QualificationRequired { col_name }) => assert_eq!(col_name, "id"),
        other => panic!("unexpected {other:?}"),
    }
}

#[test]
fn an_unknown_column_has_no_table() {
    let sel = select(from(named("foo", None), None), vec![result(name("nope"))], None);
    match extract(&sel) {
        Err(MatcherError::TableForColumnNotFound { col_name }) => assert_eq!(col_name, "nope"),
        other => panic!("unexpected {other:?}"),
    }
}

#[test]
fn an_unknown_from_table_is_refused() {
    let sel = select(from(named("missing", None), None), vec![result(name("a"))], None);
    match extract(&sel) {
        Err(MatcherError::TableNotFound(t)) => assert_eq!(t, "missing"),
        other => panic!("unexpected {other:?}"),
    }
}

#[test]
fn a_star_of_an_unknown_table_is_refused() {
    let sel = select(from(named("foo", None), None), vec![ResultColumn::TableStar(s("zzz"))], None);
    match extract(&sel) {
        Err(MatcherError::TableStarNotFound { tbl_name }) => assert_eq!(tbl_name, "zzz"),
        other => panic!("unexpected {other:?}"),
    }
}

#[test]
fn in_table_expressions_are_unsupported() {
    let e = Expr::InTable { lhs: Box::new(name("a")), not: false, rhs: s("other"), args: None };
    let sel = select(from(named("foo", None), None), vec![result(name("a"))], Some(e));
    match extract(&sel) {
        Err(MatcherError::UnsupportedExpr { expr: Expr::InTable { rhs, .. } }) => assert_eq!(rhs, "other"),
        other => panic!("unexpected {other:?}"),
    }
}

#[test]
fn quoted_identifiers_are_unquoted_for_lookup() {
    let sel = select(from(named("foo", None), None), vec![result(Expr::Id(s("\"a\"")))], None);
    let p = extract(&sel).unwrap();
    assert_eq!(table_cols(&p, "foo"), vec![s("\"a\"")]);
    let sel = select(from(named("foo", None), None), vec![result(Expr::Name(s("`b`")))], None);
    let p = extract(&sel).unwrap();
    assert_eq!(table_cols(&p, "foo"), vec![s("b")]);
}

#[test]
fn an_unknown_double_quoted_identifier_is_a_string() {
    let sel = select(from(named("foo", None), None), vec![result(Expr::Id(s("\"hello\"")))], None);
    let p = extract(&sel).unwrap();
    assert_eq!(table_cols(&p, "foo"), Vec::<String>::new());
    assert_eq!(aliases_of(&p), vec![s("col_0")]);
    let sel = select(from(named("foo", None), None), vec![result(Expr::Id(s("hello")))], None);
    match extract(&sel) {
        Err(MatcherError::TableForColumnNotFound { col_name }) => assert_eq!(col_name, "hello"),
        other => panic!("unexpected {other:?}"),
    }
}

#[test]
fn generated_columns_stand_for_their_sources() {
    let sel = select(from(named("gen", None), None), vec![result(name("twice"))], None);
    let p = extract(&sel).unwrap();
    assert_eq!(table_cols(&p, "gen"), vec![s("x"), s("y")]);
}

#[test]
fn subqueries_become_children() {
    let sub = select(from(named("bar", None), None), vec![result(name("foo_id"))], None);
    let e = Expr::InSelect { lhs: Box::new(name("id")), not: false, rhs: Box::new(sub) };
    let sel = select(from(named("foo", None), None), vec![result(name("a"))], Some(e));
    let p = extract(&sel).unwrap();
    assert_eq!(p.children.len(), 1);
    assert_eq!(table_cols(&p.children[0], "bar"), vec![s("foo_id")]);
    assert_eq!(tables(&p), vec![s("foo")]);
}

#[test]
fn case_reads_its_base_conditions_and_else_but_not_its_results() {
    let arms = CaseArms::Cons(Box::new(name("a")), Box::new(name("b")), Box::new(CaseArms::Nil));
    let case = Expr::Case { base: None, when_then_pairs: arms, else_expr: Some(Box::new(name("id"))) };
    let sel = select(from(named("foo", None), None), vec![result(case)], None);
    let p = extract(&sel).unwrap();
    assert_eq!(table_cols(&p, "foo"), vec![s("a"), s("id")]);
}

#[test]
fn function_arguments_are_read() {
    let call = Expr::FunctionCall { name: s("max"), distinct: false, args: Some(exprs(vec![name("a"), name("b")])) };
    let sel = select(from(named("foo", None), None), vec![result(call)], None);
    let p = extract(&sel).unwrap();
    assert_eq!(table_cols(&p, "foo"), vec![s("a"), s("b")]);
}

#[test]
fn main_schema_qualification_is_read_and_others_are_not() {
    let sel = select(
        from(named("foo", None), None),
        vec![result(Expr::DoublyQualified(s("main"), s("foo"), s("a"))), result(Expr::DoublyQualified(s("temp"), s("foo"), s("b")))],
        None,
    );
    let p = extract(&sel).unwrap();
    assert_eq!(table_cols(&p, "foo"), vec![s("a")]);
}

#[test]
fn a_star_without_a_named_from_table_is_stuck() {
    let sel = select(None, vec![ResultColumn::Star], None);
    let sch = schema();
    assert!(ParsedSelect::try_extract_select_columns(&sel, &sch).is_none());
    let sel = select(from(SelectTable::Other(s("(SELECT 1)")), None), vec![result(lit("1"))], None);
    assert!(matches!(ParsedSelect::try_extract_select_columns(&sel, &sch), Some(Ok(_))));
}

#[test]
fn values_read_nothing() {
    let sel = Select { body: SelectBody { select: OneSelect::Values(s("VALUES (1)")) } };
    let p = extract(&sel).unwrap();
    assert!(p.table_columns.is_empty());
    assert!(p.columns.is_empty());
}

#[test]
fn result_columns_are_numbered_across_stars() {
    let sel = select(
        from(named("foo", Some("f")), None),
        vec![result(name("a")), ResultColumn::Star, ResultColumn::TableStar(s("f")), result(lit("1"))],
        None,
    );
    let p = extract(&sel).unwrap();
    let expected: Vec<String> = (0..8).map(|i| format!("col_{i}")).collect();
    assert_eq!(aliases_of(&p), expected);
}

#[test]
fn an_ambiguous_column_is_refused_without_recording_anything() {
    let sch = Schema {
        tables: vec![table("foo", vec![col("id"), col("bar")]), table("baz", vec![col("id"), col("bar")])],
    };
    let mut p = ParsedSelect::new();
    p.table_columns.insert(s("foo"), corro_types::columns::ColumnSet::new());
    p.table_columns.insert(s("baz"), corro_types::columns::ColumnSet::new());
    match p.extract_expr_columns(&name("bar"), &sch) {
        Err(MatcherError::QualificationRequired { col_name }) => assert_eq!(col_name, "bar"),
        other => panic!("unexpected {other:?}"),
    }
    assert_eq!(table_cols(&p, "foo"), Vec::<String>::new());
    assert_eq!(table_cols(&p, "baz"), Vec::<String>::new());
    assert!(p.columns.is_empty());
    p.extract_expr_columns(&qualified("baz", "bar"), &sch).unwrap();
    assert_eq!(table_cols(&p, "baz"), vec![s("bar")]);
}
