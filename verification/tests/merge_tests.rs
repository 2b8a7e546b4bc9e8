use graphql_rust::query::compile;
use graphql_rust::query::Combinator;
use graphql_rust::query::FilterGroup;
use graphql_rust::query::FilterType;
use graphql_rust::query::JoinColumnFilter;
use graphql_rust::query::Operation;
use graphql_rust::query::SqlValue;
use graphql_rust::query::TableFilter;
use graphql_rust::query::ValueFilter;

fn eq(column: &'static str, v: i32) -> ValueFilter<'static> {
    ValueFilter::new(Operation::Eq, column, SqlValue::Int(v))
}

fn single(c: Combinator, column: &'static str, v: i32) -> FilterGroup<'static> {
    let mut g = FilterGroup::new(c);
    g.add_filter(eq(column, v));
    g
}

fn pair(c: Combinator, a: &'static str, b: &'static str) -> FilterGroup<'static> {
    let mut g = FilterGroup::new(c);
    g.add_filter(eq(a, 1));
    g.add_filter(eq(b, 2));
    g
}

fn columns(g: &FilterGroup<'static>) -> Vec<String> {
    g.filters()
        .iter()
        .map(|f| match f {
            FilterType::ValueFilter(v) => v.column().to_string(),
            FilterType::JoinColumnFilter(j) => format!("join:{}", j.filter().table_name()),
            FilterType::JoinTableFilter(j) => format!("via:{}", j.join_table()),
        })
        .collect()
}

fn sql_of(root: FilterGroup<'static>) -> (String, Vec<SqlValue<'static>>) {
    let mut tf = TableFilter::new("t");
    tf.filter_group_mut().add_group(root);
    compile(&tf, &[], None).unwrap()
}

#[test]
fn new_group_is_empty() {
    let g = FilterGroup::new(Combinator::Or);
    assert!(g.is_empty());
    assert_eq!(g.combinator(), Combinator::Or);
    assert!(g.filters().is_empty());
    assert!(g.groups().is_empty());
}

#[test]
fn add_filter_appends_in_order() {
    let mut g = FilterGroup::new(Combinator::And);
    g.add_filter(eq("a", 1));
    g.add_filter(eq("b", 2));
    g.add_filter(JoinColumnFilter::new(TableFilter::new("c"), "p", "q"));
    assert!(!g.is_empty());
    assert_eq!(columns(&g), vec!["a", "b", "join:c"]);
    assert!(g.groups().is_empty());
}

#[test]
fn empty_child_is_discarded() {
    let mut parent = single(Combinator::And, "a", 1);
    parent.add_group(FilterGroup::new(Combinator::Or));
    parent.add_group(FilterGroup::new(Combinator::And));
    assert_eq!(columns(&parent), vec!["a"]);
    assert!(parent.groups().is_empty());
}

#[test]
fn same_combinator_is_spliced() {
    let mut parent = single(Combinator::And, "a", 1);
    parent.add_group(pair(Combinator::And, "b", "c"));
    assert_eq!(columns(&parent), vec!["a", "b", "c"]);
    assert!(parent.groups().is_empty());
}

#[test]
fn flattening_in_either_order() {
    let mut first = FilterGroup::new(Combinator::And);
    first.add_group(pair(Combinator::And, "a", "b"));
    first.add_group(pair(Combinator::And, "c", "d"));
    assert_eq!(columns(&first), vec!["a", "b", "c", "d"]);
    assert!(first.groups().is_empty());

    let mut second = FilterGroup::new(Combinator::And);
    second.add_group(pair(Combinator::And, "c", "d"));
    second.add_group(pair(Combinator::And, "a", "b"));
    assert_eq!(columns(&second), vec!["c", "d", "a", "b"]);
    assert!(second.groups().is_empty());

    let mut third = pair(Combinator::And, "a", "b");
    third.add_group(pair(Combinator::And, "c", "d"));
    assert_eq!(columns(&third), vec!["a", "b", "c", "d"]);
    assert!(third.groups().is_empty());
}

#[test]
fn singleton_of_other_combinator_gives_its_filter() {
    let mut parent = single(Combinator::And, "a", 1);
    parent.add_group(single(Combinator::Or, "b", 2));
    assert_eq!(columns(&parent), vec!["a", "b"]);
    assert!(parent.groups().is_empty());
}

#[test]
fn wrapper_of_one_group_collapses() {
    let mut wrapper = FilterGroup::new(Combinator::Or);
    wrapper.add_group(pair(Combinator::And, "b", "c"));
    let mut parent = single(Combinator::And, "a", 1);
    parent.add_group(wrapper);
    assert_eq!(columns(&parent), vec!["a", "b", "c"]);
    assert!(parent.groups().is_empty());
}

#[test]
fn other_group_is_nested() {
    let mut parent = single(Combinator::And, "a", 1);
    parent.add_group(pair(Combinator::Or, "b", "c"));
    assert_eq!(columns(&parent), vec!["a"]);
    assert_eq!(parent.groups().len(), 1);
    assert_eq!(parent.groups()[0].combinator(), Combinator::Or);
    assert_eq!(columns(&parent.groups()[0]), vec!["b", "c"]);
}

#[test]
fn spliced_group_hands_its_nested_groups_on() {
    let mut child = pair(Combinator::And, "b", "c");
    child.add_group(pair(Combinator::Or, "d", "e"));
    child.add_group(pair(Combinator::Or, "f", "g"));
    let mut parent = single(Combinator::And, "a", 1);
    parent.add_group(child);
    assert_eq!(columns(&parent), vec!["a", "b", "c"]);
    assert_eq!(parent.groups().len(), 2);
    assert_eq!(columns(&parent.groups()[0]), vec!["d", "e"]);
    assert_eq!(columns(&parent.groups()[1]), vec!["f", "g"]);
}

#[test]
fn compression_gives_identical_sql() {
    for c in [Combinator::And, Combinator::Or] {
        let mut direct = FilterGroup::new(c);
        direct.add_filter(eq("a", 1));
        direct.add_filter(eq("b", 2));

        let mut merged = FilterGroup::new(c);
        merged.add_group(single(c, "a", 1));
        merged.add_group(single(c, "b", 2));

        let mut folded = single(c, "a", 1);
        folded.add_group(single(c, "b", 2));

        let expected = sql_of(direct);
        assert_eq!(sql_of(merged), expected);
        assert_eq!(sql_of(folded), expected);
    }
}

#[test]
fn compression_sql_of_or_pair() {
    let mut merged = FilterGroup::new(Combinator::Or);
    merged.add_group(single(Combinator::Or, "a", 1));
    merged.add_group(single(Combinator::Or, "b", 2));
    let (sql, params) = sql_of(merged);
    assert_eq!(sql, "SELECT T0.* FROM t AS T0 WHERE (T0.a = $1 OR T0.b = $2)");
    assert_eq!(params, vec![SqlValue::Int(1), SqlValue::Int(2)]);
}

#[test]
fn singleton_collapse_renders_without_brackets() {
    let mut direct = TableFilter::new("t");
    direct.filter_group_mut().add_filter(eq("a", 1));
    let mut merged = TableFilter::new("t");
    merged.filter_group_mut().add_group(single(Combinator::Or, "a", 1));
    let expected = compile(&direct, &[], None).unwrap();
    assert_eq!(expected.0, "SELECT T0.* FROM t AS T0 WHERE T0.a = $1");
    assert_eq!(compile(&merged, &[], None).unwrap(), expected);
}

#[test]
fn compile_without_and_with_join() {
    let mut tf = TableFilter::new("actor");
    tf.filter_group_mut().add_filter(eq("a", 1));
    let (sql, params) = compile(&tf, &["x"], None).unwrap();
    assert_eq!(sql, "SELECT T0.x FROM actor AS T0 WHERE T0.a = $1");
    assert_eq!(params, vec![SqlValue::Int(1)]);
    let joined = graphql_rust::query::JoinedTable {
        join_table: "film_actor",
        join_table_join_col: "actor_id",
        data_table_join_col: "actor_id",
        join_table_filter_col: "film_id",
        join_table_filter_col_val: SqlValue::Int(3),
    };
    let (sql, params) = compile(&tf, &["x"], Some(joined)).unwrap();
    assert_eq!(
        sql,
        "SELECT T0.x FROM film_actor AS J INNER JOIN actor AS T0 ON J.actor_id = T0.actor_id WHERE T0.a = $1 AND J.film_id = $2"
    );
    assert_eq!(params, vec![SqlValue::Int(1), SqlValue::Int(3)]);
}
