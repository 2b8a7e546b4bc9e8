use graphql_rust::query::Combinator;
use graphql_rust::query::FilterGroup;
use graphql_rust::query::FilterType;
use graphql_rust::query::JoinColumnFilter;
use graphql_rust::query::JoinTableFilter;
use graphql_rust::query::JoinedTable;
use graphql_rust::query::Operation;
use graphql_rust::query::SqlValue;
use graphql_rust::query::SqlVisitor;
use graphql_rust::query::TableFilter;
use graphql_rust::query::ValueFilter;

fn value(op: Operation, column: &'static str, v: SqlValue<'static>) -> ValueFilter<'static> {
    ValueFilter::new(op, column, v)
}

fn compile(tf: &TableFilter<'static>, select: &[&str]) -> (String, Vec<SqlValue<'static>>) {
    assert!(SqlVisitor::can_translate(tf));
    SqlVisitor::new().translate(tf, select)
}

fn film_actor_join(film_id: i32) -> JoinedTable<'static> {
    JoinedTable {
        join_table: "film_actor",
        join_table_join_col: "actor_id",
        data_table_join_col: "actor_id",
        join_table_filter_col: "film_id",
        join_table_filter_col_val: SqlValue::Int(film_id),
    }
}

#[test]
fn empty_filter_selects_every_column() {
    let tf = TableFilter::new("t");
    let (sql, params) = compile(&tf, &[]);
    assert_eq!(sql, "SELECT T0.* FROM t AS T0");
    assert!(params.is_empty());
}

#[test]
fn selected_columns_are_listed_under_the_primary_alias() {
    let tf = TableFilter::new("film");
    let (sql, params) = compile(&tf, &["length", "title"]);
    assert_eq!(sql, "SELECT T0.length, T0.title FROM film AS T0");
    assert!(params.is_empty());
}

#[test]
fn single_filter_has_no_brackets() {
    let mut tf = TableFilter::new("t");
    tf.filter_group_mut().add_filter(value(Operation::Eq, "x", SqlValue::Int(5)));
    let (sql, params) = compile(&tf, &[]);
    assert_eq!(sql, "SELECT T0.* FROM t AS T0 WHERE T0.x = $1");
    assert_eq!(params, vec![SqlValue::Int(5)]);
}

#[test]
fn every_operation_renders_as_its_sql() {
    let cases: Vec<(Operation, &str, usize)> = vec![
        (Operation::Eq, "T0.c = $1", 1),
        (Operation::Neq, "T0.c <> $1", 1),
        (Operation::Lt, "T0.c < $1", 1),
        (Operation::Lte, "T0.c <= $1", 1),
        (Operation::Gt, "T0.c > $1", 1),
        (Operation::Gte, "T0.c >= $1", 1),
        (Operation::In, "T0.c = ANY ($1)", 1),
        (Operation::NotIn, "T0.c <> ANY ($1)", 1),
        (Operation::IsNull, "T0.c IS NULL", 0),
        (Operation::IsNotNull, "T0.c IS NOT NULL", 0),
        (Operation::Contains, "T0.c LIKE '%' || $1 || '%'", 1),
    ];
    for (op, expected, bound) in cases {
        let mut tf = TableFilter::new("t");
        tf.filter_group_mut().add_filter(value(op, "c", SqlValue::Text("v")));
        let (sql, params) = compile(&tf, &[]);
        assert_eq!(sql, format!("SELECT T0.* FROM t AS T0 WHERE {}", expected));
        assert_eq!(params.len(), bound);
        assert_eq!(op.takes_value(), bound == 1);
    }
}

#[test]
fn null_tests_consume_no_placeholder() {
    let mut tf = TableFilter::new("t");
    let g = tf.filter_group_mut();
    g.add_filter(value(Operation::IsNull, "a", SqlValue::Null));
    g.add_filter(value(Operation::Eq, "b", SqlValue::Int(7)));
    g.add_filter(value(Operation::IsNotNull, "c", SqlValue::Null));
    g.add_filter(value(Operation::Eq, "d", SqlValue::Int(8)));
    let (sql, params) = compile(&tf, &[]);
    assert_eq!(
        sql,
        "SELECT T0.* FROM t AS T0 WHERE (T0.a IS NULL AND T0.b = $1 AND T0.c IS NOT NULL AND T0.d = $2)"
    );
    assert_eq!(params, vec![SqlValue::Int(7), SqlValue::Int(8)]);
}

#[test]
fn join_column_scenario() {
    let mut child = TableFilter::new("c");
    child.filter_group_mut().add_filter(value(Operation::Eq, "y", SqlValue::Text("z")));
    let mut tf = TableFilter::new("t");
    tf.filter_group_mut().add_filter(value(Operation::Eq, "x", SqlValue::Int(5)));
    tf.filter_group_mut().add_filter(JoinColumnFilter::new(child, "pid", "cid"));
    let (sql, params) = compile(&tf, &[]);
    assert_eq!(
        sql,
        "SELECT T0.* FROM t AS T0 WHERE (T0.x = $1 AND EXISTS(SELECT TRUE FROM c AS T1 WHERE T1.cid = T0.pid AND T1.y = $2))"
    );
    assert_eq!(params, vec![SqlValue::Int(5), SqlValue::Text("z")]);
}

#[test]
fn join_column_alone_has_no_brackets() {
    let mut child = TableFilter::new("c");
    child.filter_group_mut().add_filter(value(Operation::Eq, "y", SqlValue::Text("z")));
    let mut tf = TableFilter::new("t");
    tf.filter_group_mut().add_filter(JoinColumnFilter::new(child, "pid", "cid"));
    let (sql, params) = compile(&tf, &[]);
    assert_eq!(
        sql,
        "SELECT T0.* FROM t AS T0 WHERE EXISTS(SELECT TRUE FROM c AS T1 WHERE T1.cid = T0.pid AND T1.y = $1)"
    );
    assert_eq!(params, vec![SqlValue::Text("z")]);
}

#[test]
fn join_column_without_nested_filter() {
    let child = TableFilter::new("c");
    let mut tf = TableFilter::new("t");
    tf.filter_group_mut().add_filter(JoinColumnFilter::new(child, "pid", "cid"));
    let (sql, params) = compile(&tf, &[]);
    assert_eq!(
        sql,
        "SELECT T0.* FROM t AS T0 WHERE EXISTS(SELECT TRUE FROM c AS T1 WHERE T1.cid = T0.pid)"
    );
    assert!(params.is_empty());
}

#[test]
fn join_table_scenario() {
    let mut child = TableFilter::new("c");
    child.filter_group_mut().add_filter(value(Operation::Eq, "y", SqlValue::Int(1)));
    let mut tf = TableFilter::new("t");
    tf.filter_group_mut().add_filter(JoinTableFilter::new(child, "jt", "pid", "jpid", "cid", "jcid"));
    let (sql, params) = compile(&tf, &[]);
    assert_eq!(
        sql,
        "SELECT T0.* FROM t AS T0 WHERE EXISTS(SELECT TRUE FROM jt AS T1 INNER JOIN c AS T2 ON T2.cid = T1.jcid WHERE T1.jpid = T0.pid AND T2.y = $1)"
    );
    assert_eq!(params, vec![SqlValue::Int(1)]);
}

#[test]
fn aliases_of_a_subquery_do_not_leak_to_its_siblings() {
    let mut first = TableFilter::new("a");
    first.filter_group_mut().add_filter(value(Operation::Eq, "n", SqlValue::Int(1)));
    let mut second = TableFilter::new("b");
    second.filter_group_mut().add_filter(value(Operation::Eq, "m", SqlValue::Int(2)));
    let mut tf = TableFilter::new("t");
    let g = tf.filter_group_mut();
    g.add_filter(JoinTableFilter::new(first, "ja", "id", "t_id", "id", "a_id"));
    g.add_filter(JoinColumnFilter::new(second, "b_id", "id"));
    g.add_filter(value(Operation::Gt, "z", SqlValue::Int(3)));
    let (sql, params) = compile(&tf, &[]);
    assert_eq!(
        sql,
        "SELECT T0.* FROM t AS T0 WHERE (EXISTS(SELECT TRUE FROM ja AS T1 INNER JOIN a AS T2 ON T2.id = T1.a_id WHERE T1.t_id = T0.id AND T2.n = $1) AND EXISTS(SELECT TRUE FROM b AS T3 WHERE T3.id = T0.b_id AND T3.m = $2) AND T0.z > $3)"
    );
    assert_eq!(params, vec![SqlValue::Int(1), SqlValue::Int(2), SqlValue::Int(3)]);
}

#[test]
fn nested_joins_use_the_innermost_alias() {
    let mut inner = TableFilter::new("language");
    inner.filter_group_mut().add_filter(value(Operation::Eq, "name", SqlValue::Text("English")));
    let mut middle = TableFilter::new("film");
    middle.filter_group_mut().add_filter(JoinColumnFilter::new(inner, "language_id", "language_id"));
    let mut tf = TableFilter::new("actor");
    tf.filter_group_mut().add_filter(JoinTableFilter::new(
        middle,
        "film_actor",
        "actor_id",
        "actor_id",
        "film_id",
        "film_id",
    ));
    let (sql, params) = compile(&tf, &["first_name"]);
    assert_eq!(
        sql,
        "SELECT T0.first_name FROM actor AS T0 WHERE EXISTS(SELECT TRUE FROM film_actor AS T1 INNER JOIN film AS T2 ON T2.film_id = T1.film_id WHERE T1.actor_id = T0.actor_id AND EXISTS(SELECT TRUE FROM language AS T3 WHERE T3.language_id = T2.language_id AND T3.name = $1))"
    );
    assert_eq!(params, vec![SqlValue::Text("English")]);
}

#[test]
fn outer_join_binding_is_bare_when_the_filter_is_empty() {
    let tf = TableFilter::new("actor");
    let (sql, params) = SqlVisitor::with_joined_table(film_actor_join(9)).translate(&tf, &["first_name"]);
    assert_eq!(
        sql,
        "SELECT T0.first_name FROM film_actor AS J INNER JOIN actor AS T0 ON J.actor_id = T0.actor_id WHERE J.film_id = $1"
    );
    assert_eq!(params, vec![SqlValue::Int(9)]);
}

#[test]
fn outer_join_binding_comes_last_after_and() {
    let mut tf = TableFilter::new("actor");
    let g = tf.filter_group_mut();
    g.add_filter(value(Operation::Eq, "first_name", SqlValue::Text("A")));
    g.add_filter(value(Operation::Eq, "last_name", SqlValue::Text("B")));
    let (sql, params) = SqlVisitor::with_joined_table(film_actor_join(9)).translate(&tf, &[]);
    assert_eq!(
        sql,
        "SELECT T0.* FROM film_actor AS J INNER JOIN actor AS T0 ON J.actor_id = T0.actor_id WHERE (T0.first_name = $1 AND T0.last_name = $2) AND J.film_id = $3"
    );
    assert_eq!(params, vec![SqlValue::Text("A"), SqlValue::Text("B"), SqlValue::Int(9)]);
}

#[test]
fn or_group_nested_in_and_is_bracketed() {
    let mut or = FilterGroup::new(Combinator::Or);
    or.add_filter(value(Operation::Eq, "a", SqlValue::Int(1)));
    or.add_filter(value(Operation::Eq, "b", SqlValue::Int(2)));
    let mut tf = TableFilter::new("t");
    tf.filter_group_mut().add_filter(value(Operation::Eq, "c", SqlValue::Int(3)));
    tf.filter_group_mut().add_group(or);
    let (sql, params) = compile(&tf, &[]);
    assert_eq!(sql, "SELECT T0.* FROM t AS T0 WHERE (T0.c = $1 AND (T0.a = $2 OR T0.b = $3))");
    assert_eq!(params, vec![SqlValue::Int(3), SqlValue::Int(1), SqlValue::Int(2)]);
}

#[test]
fn lone_nested_group_keeps_only_its_own_brackets() {
    let mut or = FilterGroup::new(Combinator::Or);
    or.add_filter(value(Operation::Eq, "a", SqlValue::Int(1)));
    or.add_filter(value(Operation::Eq, "b", SqlValue::Int(2)));
    let mut tf = TableFilter::new("t");
    tf.filter_group_mut().add_group(or);
    let (sql, _) = compile(&tf, &[]);
    assert_eq!(sql, "SELECT T0.* FROM t AS T0 WHERE (T0.a = $1 OR T0.b = $2)");
}

#[test]
fn placeholders_count_up_in_the_order_of_the_text() {
    let mut child = TableFilter::new("c");
    child.filter_group_mut().add_filter(value(Operation::In, "y", SqlValue::Int(20)));
    child.filter_group_mut().add_filter(value(Operation::IsNull, "n", SqlValue::Null));
    child.filter_group_mut().add_filter(value(Operation::Contains, "w", SqlValue::Int(30)));
    let mut or = FilterGroup::new(Combinator::Or);
    or.add_filter(value(Operation::Eq, "a", SqlValue::Int(40)));
    or.add_filter(value(Operation::Eq, "b", SqlValue::Int(50)));
    let mut tf = TableFilter::new("t");
    let g = tf.filter_group_mut();
    g.add_filter(value(Operation::Eq, "x", SqlValue::Int(10)));
    g.add_filter(JoinColumnFilter::new(child, "pid", "cid"));
    g.add_group(or);
    let (sql, params) = SqlVisitor::with_joined_table(film_actor_join(60)).translate(&tf, &[]);
    let mut found: Vec<usize> = Vec::new();
    let bytes = sql.as_bytes();
    let mut i = 0;
    while i < bytes.len() {
        if bytes[i] == b'$' {
            let mut j = i + 1;
            let mut n = 0usize;
            while j < bytes.len() && bytes[j].is_ascii_digit() {
                n = n * 10 + (bytes[j] - b'0') as usize;
                j += 1;
            }
            found.push(n);
            i = j;
        } else {
            i += 1;
        }
    }
    assert_eq!(found, vec![1, 2, 3, 4, 5, 6]);
    assert_eq!(
        params,
        vec![
            SqlValue::Int(10),
            SqlValue::Int(20),
            SqlValue::Int(30),
            SqlValue::Int(40),
            SqlValue::Int(50),
            SqlValue::Int(60)
        ]
    );
}

#[test]
fn placeholders_with_two_digits() {
    let mut tf = TableFilter::new("t");
    for _ in 0..12 {
        tf.filter_group_mut().add_filter(value(Operation::Eq, "x", SqlValue::Int(1)));
    }
    let (sql, params) = compile(&tf, &[]);
    assert!(sql.ends_with("T0.x = $10 AND T0.x = $11 AND T0.x = $12)"));
    assert_eq!(params.len(), 12);
}

#[test]
fn aliases_with_two_digits() {
    let mut tf = TableFilter::new("t");
    for _ in 0..11 {
        tf.filter_group_mut().add_filter(JoinColumnFilter::new(TableFilter::new("c"), "p", "q"));
    }
    let (sql, _) = compile(&tf, &[]);
    assert!(sql.ends_with("EXISTS(SELECT TRUE FROM c AS T11 WHERE T11.q = T0.p))"));
    assert!(sql.contains("EXISTS(SELECT TRUE FROM c AS T10 WHERE T10.q = T0.p) AND "));
}

#[test]
fn filter_type_from_each_kind() {
    let v: FilterType = value(Operation::Eq, "x", SqlValue::Int(1)).into();
    assert!(matches!(v, FilterType::ValueFilter(_)));
    let c: FilterType = JoinColumnFilter::new(TableFilter::new("c"), "p", "q").into();
    assert!(matches!(c, FilterType::JoinColumnFilter(_)));
    let t: FilterType = JoinTableFilter::new(TableFilter::new("c"), "j", "a", "b", "c", "d").into();
    assert!(matches!(t, FilterType::JoinTableFilter(_)));
}

#[test]
fn getters_return_what_was_given() {
    let v = value(Operation::Lt, "col", SqlValue::SmallInt(3));
    assert_eq!(v.operation(), Operation::Lt);
    assert_eq!(v.column(), "col");
    assert_eq!(v.value(), SqlValue::SmallInt(3));
    let c = JoinColumnFilter::new(TableFilter::new("child"), "p", "q");
    assert_eq!(c.parent_column(), "p");
    assert_eq!(c.child_column(), "q");
    assert_eq!(c.filter().table_name(), "child");
    let t = JoinTableFilter::new(TableFilter::new("child"), "j", "pj", "jp", "cj", "jc");
    assert_eq!(t.join_table(), "j");
    assert_eq!(t.parent_table_join_col(), "pj");
    assert_eq!(t.join_table_parent_col(), "jp");
    assert_eq!(t.child_table_join_col(), "cj");
    assert_eq!(t.join_table_child_col(), "jc");
    assert_eq!(t.filter().table_name(), "child");
    let tf = TableFilter::new("t");
    assert_eq!(tf.filter_group().combinator(), Combinator::And);
    assert!(tf.filter_group().is_empty());
    assert_eq!(Combinator::And.as_str(), "AND");
    assert_eq!(Combinator::Or.as_str(), "OR");
}
