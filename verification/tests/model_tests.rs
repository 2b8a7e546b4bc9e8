use graphql_rust::graphql::filter::and_filters;
use graphql_rust::graphql::filter::contains;
use graphql_rust::graphql::filter::eq;
use graphql_rust::graphql::filter::gt;
use graphql_rust::graphql::filter::gte;
use graphql_rust::graphql::filter::is_in;
use graphql_rust::graphql::filter::is_not_in;
use graphql_rust::graphql::filter::is_not_null;
use graphql_rust::graphql::filter::is_null;
use graphql_rust::graphql::filter::join_column;
use graphql_rust::graphql::filter::join_column_on;
use graphql_rust::graphql::filter::join_table;
use graphql_rust::graphql::filter::join_table_on;
use graphql_rust::graphql::filter::lt;
use graphql_rust::graphql::filter::lte;
use graphql_rust::graphql::filter::neq;
use graphql_rust::graphql::filter::op;
use graphql_rust::graphql::filter::or_filters;
use graphql_rust::graphql::filter::table_filter_of;
use graphql_rust::graphql::filter::InputFilter;
use graphql_rust::graphql::filter::ToSqlValue;
use graphql_rust::graphql::filter::TypeInfo;
use graphql_rust::graphql::model::Actor;
use graphql_rust::graphql::model::ActorFilter;
use graphql_rust::graphql::model::Category;
use graphql_rust::graphql::model::CategoryFilter;
use graphql_rust::graphql::model::Film;
use graphql_rust::graphql::model::FilmFilter;
use graphql_rust::graphql::model::Language;
use graphql_rust::graphql::model::LanguageFilter;
use graphql_rust::graphql::query::extract_selected_properties;
use graphql_rust::graphql::query::process;
use graphql_rust::query::compile;
use graphql_rust::query::Combinator;
use graphql_rust::query::FilterGroup;
use graphql_rust::query::JoinedTable;
use graphql_rust::query::Operation;
use graphql_rust::query::SqlValue;
use graphql_rust::query::TableFilter;

fn s(v: &str) -> Option<String> {
    Some(v.to_string())
}

fn sql_of_group(g: FilterGroup<'_>) -> (String, Vec<SqlValue<'_>>) {
    let mut tf = TableFilter::new("t");
    tf.filter_group_mut().add_group(g);
    compile(&tf, &[], None).unwrap()
}

#[test]
fn values_convert_to_what_is_bound() {
    assert_eq!(true.to_sql_value(), SqlValue::Bool(true));
    assert_eq!(7i16.to_sql_value(), SqlValue::SmallInt(7));
    assert_eq!(8i32.to_sql_value(), SqlValue::Int(8));
    assert_eq!(9i64.to_sql_value(), SqlValue::BigInt(9));
    assert_eq!("x".to_string().to_sql_value(), SqlValue::Text("x"));
    let ints = vec![1, 2];
    assert_eq!(ints.to_sql_value(), SqlValue::IntList(&[1, 2]));
    let texts = vec!["a".to_string()];
    assert_eq!(texts.to_sql_value(), SqlValue::TextList(&["a".to_string()]));
}

#[test]
fn comparison_helpers_add_one_filter_each() {
    let some = s("v");
    let none: Option<String> = None;
    let n = Some(3i16);
    let list = Some(vec!["a".to_string(), "b".to_string()]);
    let mut g = FilterGroup::new(Combinator::And);
    eq(&mut g, "a", &some);
    eq(&mut g, "skipped", &none);
    neq(&mut g, "b", &some);
    lt(&mut g, "c", &n);
    lte(&mut g, "d", &n);
    gt(&mut g, "e", &n);
    gte(&mut g, "f", &n);
    is_in(&mut g, "g", &list);
    is_not_in(&mut g, "h", &list);
    is_null(&mut g, "i");
    is_not_null(&mut g, "j");
    contains(&mut g, "k", &some);
    op(&mut g, "l", Operation::Eq, &Some(true));
    assert_eq!(g.filters().len(), 12);
    let (sql, params) = sql_of_group(g);
    assert_eq!(
        sql,
        "SELECT T0.* FROM t AS T0 WHERE (T0.a = $1 AND T0.b <> $2 AND T0.c < $3 AND T0.d <= $4 AND T0.e > $5 AND T0.f >= $6 AND T0.g = ANY ($7) AND T0.h <> ANY ($8) AND T0.i IS NULL AND T0.j IS NOT NULL AND T0.k LIKE '%' || $9 || '%' AND T0.l = $10)"
    );
    assert_eq!(
        params,
        vec![
            SqlValue::Text("v"),
            SqlValue::Text("v"),
            SqlValue::SmallInt(3),
            SqlValue::SmallInt(3),
            SqlValue::SmallInt(3),
            SqlValue::SmallInt(3),
            SqlValue::TextList(&["a".to_string(), "b".to_string()]),
            SqlValue::TextList(&["a".to_string(), "b".to_string()]),
            SqlValue::Text("v"),
            SqlValue::Bool(true)
        ]
    );
}

#[test]
fn join_helpers_build_the_child_filter() {
    let child = Some(Box::new(LanguageFilter { name_eq: s("English"), ..Default::default() }));
    let none: Option<Box<LanguageFilter>> = None;
    let mut g = FilterGroup::new(Combinator::And);
    join_column(&mut g, &child, "language_id", "language_id");
    join_column(&mut g, &none, "x", "y");
    assert_eq!(g.filters().len(), 1);
    let (sql, params) = sql_of_group(g);
    assert_eq!(
        sql,
        "SELECT T0.* FROM t AS T0 WHERE EXISTS(SELECT TRUE FROM language AS T1 WHERE T1.language_id = T0.language_id AND T1.name = $1)"
    );
    assert_eq!(params, vec![SqlValue::Text("English")]);

    let category = Some(Box::new(CategoryFilter { name_eq: s("Drama"), ..Default::default() }));
    let no_category: Option<Box<CategoryFilter>> = None;
    let mut g = FilterGroup::new(Combinator::And);
    join_table(&mut g, &category, "film_category", "film_id", "category_id", "film_id", "category_id");
    join_table(&mut g, &no_category, "a", "b", "c", "d", "e");
    assert_eq!(g.filters().len(), 1);
    let (sql, _) = sql_of_group(g);
    assert_eq!(
        sql,
        "SELECT T0.* FROM t AS T0 WHERE EXISTS(SELECT TRUE FROM film_category AS T1 INNER JOIN category AS T2 ON T2.category_id = T1.category_id WHERE T1.film_id = T0.film_id AND T2.name = $1)"
    );
}

#[test]
fn join_helpers_on_a_given_table_filter() {
    let mut g = FilterGroup::new(Combinator::And);
    join_column_on(&mut g, TableFilter::new("c"), "p", "q");
    join_table_on(&mut g, TableFilter::new("d"), "j", "jp", "jc", "pj", "cj");
    let (sql, _) = sql_of_group(g);
    assert_eq!(
        sql,
        "SELECT T0.* FROM t AS T0 WHERE (EXISTS(SELECT TRUE FROM c AS T1 WHERE T1.q = T0.p) AND EXISTS(SELECT TRUE FROM j AS T2 INNER JOIN d AS T3 ON T3.cj = T2.jc WHERE T2.jp = T0.pj))"
    );
    let f = LanguageFilter { name_contains: s("e"), ..Default::default() };
    let tf = table_filter_of(&f);
    assert_eq!(tf.table_name(), "language");
    assert_eq!(tf.filter_group().filters().len(), 1);
}

#[test]
fn table_names_and_lists() {
    assert_eq!(FilmFilter::table_name(), "film");
    assert_eq!(ActorFilter::table_name(), "actor");
    assert_eq!(CategoryFilter::table_name(), "category");
    assert_eq!(LanguageFilter::table_name(), "language");
    let f = ActorFilter { and: Some(vec![ActorFilter::default()]), ..Default::default() };
    assert_eq!(f.and_filters().map(|l| l.len()), Some(1));
    assert!(f.or_filters().is_none());
    assert!(CategoryFilter::default().and_filters().is_none());
    assert!(LanguageFilter::default().or_filters().is_none());
    let f = FilmFilter { or: Some(vec![]), ..Default::default() };
    assert_eq!(f.or_filters().map(|l| l.len()), Some(0));
    assert!(f.and_filters().is_none());
}

#[test]
fn field_maps() {
    assert_eq!(Film::column_of("title"), Some("title"));
    assert_eq!(Film::column_of("description"), Some("description"));
    assert_eq!(Film::column_of("length"), Some("length"));
    assert_eq!(Film::column_of("actors"), Some("film_id"));
    assert_eq!(Film::column_of("categories"), Some("film_id"));
    assert_eq!(Film::column_of("language"), Some("language_id"));
    assert_eq!(Film::column_of("originalLanguage"), Some("original_language_id"));
    assert_eq!(Film::column_of("film_id"), None);
    assert_eq!(Actor::column_of("firstName"), Some("first_name"));
    assert_eq!(Actor::column_of("lastName"), Some("last_name"));
    assert_eq!(Actor::column_of("films"), Some("actor_id"));
    assert_eq!(Actor::column_of("first_name"), None);
    assert_eq!(Category::column_of("name"), Some("name"));
    assert_eq!(Category::column_of("films"), None);
    assert_eq!(Language::column_of("name"), Some("name"));
    assert_eq!(Language::column_of(""), None);
}

#[test]
fn selected_columns_are_distinct_and_sorted() {
    let columns = extract_selected_properties::<Film>(&["title", "actors", "length", "categories", "unknown", "title"]);
    assert_eq!(columns, vec!["film_id", "length", "title"]);
    let columns = extract_selected_properties::<Film>(&["originalLanguage", "language", "description"]);
    assert_eq!(columns, vec!["description", "language_id", "original_language_id"]);
    assert!(extract_selected_properties::<Actor>(&[]).is_empty());
    assert!(extract_selected_properties::<Actor>(&["__typename"]).is_empty());
    assert_eq!(extract_selected_properties::<Actor>(&["lastName", "firstName", "films"]), vec![
        "actor_id",
        "first_name",
        "last_name"
    ]);
}

#[test]
fn language_filter_collects_its_comparisons() {
    let f = LanguageFilter {
        name_eq: s("a"),
        name_in: Some(vec!["b".to_string()]),
        name_not_eq: s("c"),
        name_not_in: Some(vec!["d".to_string()]),
        name_contains: s("e"),
    };
    let f = Some(f);
    let (sql, params) = process(&f, &["name"], None).unwrap();
    assert_eq!(
        sql,
        "SELECT T0.name FROM language AS T0 WHERE (T0.name = $1 AND T0.name <> $2 AND T0.name = ANY ($3) AND T0.name <> ANY ($4) AND T0.name LIKE '%' || $5 || '%')"
    );
    assert_eq!(params.len(), 5);
}

#[test]
fn process_without_a_filter() {
    let none: Option<ActorFilter> = None;
    let (sql, params) = process(&none, &["first_name", "last_name"], None).unwrap();
    assert_eq!(sql, "SELECT T0.first_name, T0.last_name FROM actor AS T0");
    assert!(params.is_empty());
    let empty = Some(CategoryFilter::default());
    let (sql, params) = process(&empty, &[], None).unwrap();
    assert_eq!(sql, "SELECT T0.* FROM category AS T0");
    assert!(params.is_empty());
}

#[test]
fn process_through_a_junction_table() {
    let joined = JoinedTable {
        join_table: "film_actor",
        join_table_join_col: "film_id",
        data_table_join_col: "film_id",
        join_table_filter_col: "actor_id",
        join_table_filter_col_val: SqlValue::Int(12),
    };
    let f = Some(FilmFilter { length_gt: Some(100), ..Default::default() });
    let (sql, params) = process(&f, &["title"], Some(joined)).unwrap();
    assert_eq!(
        sql,
        "SELECT T0.title FROM film_actor AS J INNER JOIN film AS T0 ON J.film_id = T0.film_id WHERE T0.length > $1 AND J.actor_id = $2"
    );
    assert_eq!(params, vec![SqlValue::SmallInt(100), SqlValue::Int(12)]);
    let none: Option<FilmFilter> = None;
    let (sql, params) = process(&none, &[], Some(joined)).unwrap();
    assert_eq!(
        sql,
        "SELECT T0.* FROM film_actor AS J INNER JOIN film AS T0 ON J.film_id = T0.film_id WHERE J.actor_id = $1"
    );
    assert_eq!(params, vec![SqlValue::Int(12)]);
}

#[test]
fn film_filter_with_or_list_and_joins() {
    let f = FilmFilter {
        or: Some(vec![
            FilmFilter { title_eq: s("A"), ..Default::default() },
            FilmFilter { title_eq: s("B"), length_lt: Some(50), ..Default::default() },
        ]),
        length_gte: Some(10),
        language: Some(Box::new(LanguageFilter { name_eq: s("English"), ..Default::default() })),
        actor: Some(Box::new(ActorFilter { last_name_eq: s("Z"), ..Default::default() })),
        ..Default::default()
    };
    let f = Some(f);
    let (sql, params) = process(&f, &[], None).unwrap();
    assert_eq!(
        sql,
        "SELECT T0.* FROM film AS T0 WHERE (T0.length >= $1 AND EXISTS(SELECT TRUE FROM language AS T1 WHERE T1.language_id = T0.language_id AND T1.name = $2) AND EXISTS(SELECT TRUE FROM film_actor AS T2 INNER JOIN actor AS T3 ON T3.actor_id = T2.actor_id WHERE T2.film_id = T0.film_id AND T3.last_name = $3) AND (T0.title = $4 OR (T0.title = $5 AND T0.length < $6)))"
    );
    assert_eq!(
        params,
        vec![
            SqlValue::SmallInt(10),
            SqlValue::Text("English"),
            SqlValue::Text("Z"),
            SqlValue::Text("A"),
            SqlValue::Text("B"),
            SqlValue::SmallInt(50)
        ]
    );
}

#[test]
fn and_list_is_flattened_into_the_root() {
    let f = ActorFilter {
        and: Some(vec![
            ActorFilter { first_name_eq: s("A"), ..Default::default() },
            ActorFilter { last_name_eq: s("B"), ..Default::default() },
        ]),
        first_name_not_eq: s("C"),
        ..Default::default()
    };
    let f = Some(f);
    let (sql, params) = process(&f, &[], None).unwrap();
    assert_eq!(
        sql,
        "SELECT T0.* FROM actor AS T0 WHERE (T0.first_name = $1 AND T0.last_name = $2 AND T0.first_name <> $3)"
    );
    assert_eq!(params, vec![SqlValue::Text("A"), SqlValue::Text("B"), SqlValue::Text("C")]);
}

#[test]
fn or_list_of_one_collapses() {
    let f = ActorFilter {
        or: Some(vec![ActorFilter { first_name_eq: s("A"), ..Default::default() }]),
        ..Default::default()
    };
    let f = Some(f);
    let (sql, _) = process(&f, &[], None).unwrap();
    assert_eq!(sql, "SELECT T0.* FROM actor AS T0 WHERE T0.first_name = $1");
}

#[test]
fn actor_filter_joins_to_films() {
    let f = ActorFilter {
        film: Some(Box::new(FilmFilter { title_contains: s("x"), ..Default::default() })),
        ..Default::default()
    };
    let f = Some(f);
    let (sql, params) = process(&f, &["actor_id"], None).unwrap();
    assert_eq!(
        sql,
        "SELECT T0.actor_id FROM actor AS T0 WHERE EXISTS(SELECT TRUE FROM film_actor AS T1 INNER JOIN film AS T2 ON T2.film_id = T1.film_id WHERE T1.actor_id = T0.actor_id AND T2.title LIKE '%' || $1 || '%')"
    );
    assert_eq!(params, vec![SqlValue::Text("x")]);
}

#[test]
fn collect_into_an_or_group_merges_a_group_of_its_own() {
    let f = CategoryFilter { name_eq: s("a"), name_not_eq: s("b"), ..Default::default() };
    let mut or = FilterGroup::new(Combinator::Or);
    f.collect_into(&mut or);
    assert!(or.filters().is_empty());
    assert_eq!(or.groups().len(), 1);
    assert_eq!(or.groups()[0].combinator(), Combinator::And);
    assert_eq!(or.groups()[0].filters().len(), 2);
    let mut and = FilterGroup::new(Combinator::And);
    f.collect_into(&mut and);
    assert_eq!(and.filters().len(), 2);
    assert!(and.groups().is_empty());
    let film = FilmFilter { title_eq: s("a"), ..Default::default() };
    let mut or = FilterGroup::new(Combinator::Or);
    film.collect_into(&mut or);
    film.collect(&mut or);
    assert_eq!(or.filters().len(), 2);
    assert!(or.groups().is_empty());
}

#[test]
fn generic_list_helpers() {
    let f = ActorFilter {
        and: Some(vec![ActorFilter { first_name_eq: s("A"), ..Default::default() }]),
        or: Some(vec![
            ActorFilter { first_name_eq: s("B"), ..Default::default() },
            ActorFilter { first_name_eq: s("C"), ..Default::default() },
        ]),
        ..Default::default()
    };
    let mut g = FilterGroup::new(Combinator::And);
    and_filters(&mut g, &f);
    or_filters(&mut g, &f);
    assert_eq!(g.filters().len(), 1);
    assert_eq!(g.groups().len(), 1);
    assert_eq!(g.groups()[0].combinator(), Combinator::Or);
    assert_eq!(g.groups()[0].filters().len(), 2);
    let plain = LanguageFilter::default();
    let mut g = FilterGroup::new(Combinator::And);
    and_filters(&mut g, &plain);
    or_filters(&mut g, &plain);
    assert!(g.is_empty());
}
