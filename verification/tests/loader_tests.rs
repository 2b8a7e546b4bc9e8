use graphql_rust::graphql::loader::group_by_key;
use graphql_rust::graphql::loader::index_by_id;
use graphql_rust::graphql::loader::load;
use graphql_rust::graphql::loader::load_keyed;
use graphql_rust::graphql::loader::load_many_by_key;
use graphql_rust::graphql::loader::load_one_by_key;
use graphql_rust::graphql::loader::skipped_columns;
use graphql_rust::graphql::loader::Cell;
use graphql_rust::graphql::loader::Column;
use graphql_rust::graphql::loader::DecodeError;
use graphql_rust::graphql::loader::FromRow;
use graphql_rust::graphql::loader::Row;
use graphql_rust::graphql::loader::WithId;
use graphql_rust::graphql::loader::KEY_BULK_LOAD;
use graphql_rust::graphql::model::Actor;
use graphql_rust::graphql::model::Category;
use graphql_rust::graphql::model::Film;
use graphql_rust::graphql::model::Language;

fn text(s: &str) -> Cell {
    Cell::Text(s.to_string())
}

fn row(columns: Vec<(&str, Cell)>) -> Row {
    Row::new(columns.into_iter().map(|(n, v)| Column::new(n.to_string(), v)).collect())
}

fn actor_row(id: i32, first: &str, last: &str) -> Row {
    row(vec![("actor_id", Cell::Int(id)), ("first_name", text(first)), ("last_name", text(last))])
}

fn actor(id: i32, first: &str, last: &str) -> Actor {
    Actor { actor_id: id, first_name: first.to_string(), last_name: last.to_string() }
}

#[test]
fn row_get_finds_the_first_column_of_a_name() {
    let r = row(vec![("a", Cell::Int(1)), ("b", Cell::Int(2)), ("a", Cell::Int(3))]);
    assert_eq!(r.get("a"), Some(&Cell::Int(1)));
    assert_eq!(r.get("b"), Some(&Cell::Int(2)));
    assert_eq!(r.get("c"), None);
    assert_eq!(r.columns().len(), 3);
    assert_eq!(r.columns()[1].name(), "b");
}

#[test]
fn row_get_falls_back_to_the_name_but_for_case() {
    let r = row(vec![("Name", Cell::Int(1)), ("name", Cell::Int(2)), ("NAME", Cell::Int(3))]);
    assert_eq!(r.get("name"), Some(&Cell::Int(2)));
    assert_eq!(r.get("NAME"), Some(&Cell::Int(3)));
    assert_eq!(r.get("nAME"), Some(&Cell::Int(1)));
    assert_eq!(r.get("nam"), None);
    assert_eq!(r.get("names"), None);
    let r = row(vec![("a-b", Cell::Int(1)), ("A_B", Cell::Int(2))]);
    assert_eq!(r.get("A-B"), Some(&Cell::Int(1)));
    assert_eq!(r.get("a_b"), Some(&Cell::Int(2)));
    assert_eq!(r.get("a=b"), None);
    assert_eq!(i32::from_row(&row(vec![("__VALUE", Cell::Int(5))])), Ok(5));
}

#[test]
fn typed_reads_of_a_row() {
    let r = row(vec![
        ("i", Cell::Int(7)),
        ("s", Cell::SmallInt(3)),
        ("t", text("x")),
        ("n", Cell::Null),
        ("b", Cell::BigInt(9)),
        ("o", Cell::Other),
    ]);
    assert_eq!(r.try_get_int("i"), Ok(7));
    assert_eq!(r.try_get_int("s"), Err(DecodeError::WrongType));
    assert_eq!(r.try_get_int("b"), Err(DecodeError::WrongType));
    assert_eq!(r.try_get_int("n"), Err(DecodeError::UnexpectedNull));
    assert_eq!(r.try_get_int("missing"), Err(DecodeError::ColumnNotFound));
    assert_eq!(r.try_get_opt_int("i"), Ok(Some(7)));
    assert_eq!(r.try_get_opt_int("n"), Ok(None));
    assert_eq!(r.try_get_opt_int("t"), Err(DecodeError::WrongType));
    assert_eq!(r.try_get_opt_int("missing"), Err(DecodeError::ColumnNotFound));
    assert_eq!(r.try_get_small_int("s"), Ok(3));
    assert_eq!(r.try_get_small_int("i"), Err(DecodeError::WrongType));
    assert_eq!(r.try_get_small_int("n"), Err(DecodeError::UnexpectedNull));
    assert_eq!(r.try_get_text("t"), Ok("x".to_string()));
    assert_eq!(r.try_get_text("i"), Err(DecodeError::WrongType));
    assert_eq!(r.try_get_text("o"), Err(DecodeError::WrongType));
    assert_eq!(r.try_get_text("n"), Err(DecodeError::UnexpectedNull));
    assert_eq!(r.try_get_text("missing"), Err(DecodeError::ColumnNotFound));
}

#[test]
fn cell_conversions() {
    assert_eq!(Cell::Int(1).as_int(), Ok(1));
    assert_eq!(Cell::Bool(true).as_int(), Err(DecodeError::WrongType));
    assert_eq!(Cell::Null.as_opt_int(), Ok(None));
    assert_eq!(Cell::SmallInt(2).as_small_int(), Ok(2));
    assert_eq!(text("a").as_text(), Ok("a".to_string()));
}

#[test]
fn bare_value_is_read_from_the_value_column() {
    assert_eq!(i32::from_row(&row(vec![("__value", Cell::Int(5))])), Ok(5));
    assert_eq!(i32::from_row(&row(vec![("other", Cell::Int(5))])), Err(DecodeError::ColumnNotFound));
    assert_eq!(i32::from_row(&row(vec![("__value", text("5"))])), Err(DecodeError::WrongType));
    assert_eq!(i32::from_row(&row(vec![("__value", Cell::Null)])), Err(DecodeError::UnexpectedNull));
}

#[test]
fn actor_decodes_from_its_columns() {
    assert_eq!(Actor::from_row(&actor_row(1, "A", "B")), Ok(actor(1, "A", "B")));
}

#[test]
fn decoder_tolerates_a_narrower_column_set() {
    let r = row(vec![("first_name", text("A"))]);
    assert_eq!(Actor::from_row(&r), Ok(actor(0, "A", "")));
    assert_eq!(Actor::from_row(&row(vec![])), Ok(Actor::default()));
}

#[test]
fn decoder_skips_unknown_columns() {
    let r = row(vec![
        ("__loader_key", Cell::Int(9)),
        ("actor_id", Cell::Int(1)),
        ("shoe_size", Cell::Other),
        ("last_name", text("B")),
    ]);
    assert_eq!(Actor::from_row(&r), Ok(actor(1, "", "B")));
}

#[test]
fn skipped_columns_are_reported_in_order() {
    let r = row(vec![
        ("__loader_key", Cell::Int(9)),
        ("actor_id", Cell::Int(1)),
        ("shoe_size", Cell::Other),
        ("last_name", text("B")),
        ("Last_Name", text("C")),
    ]);
    assert_eq!(skipped_columns::<Actor>(&r), vec!["__loader_key", "shoe_size", "Last_Name"]);
    assert!(skipped_columns::<i32>(&r).is_empty());
    assert!(skipped_columns::<Actor>(&actor_row(1, "A", "B")).is_empty());
    assert_eq!(skipped_columns::<Language>(&actor_row(1, "A", "B")), vec![
        "actor_id",
        "first_name",
        "last_name"
    ]);
    assert!(Film::reads_column("title"));
    assert!(Film::reads_column("description"));
    assert!(Film::reads_column("length"));
    assert!(Film::reads_column("film_id"));
    assert!(Film::reads_column("language_id"));
    assert!(Film::reads_column("original_language_id"));
    assert!(!Film::reads_column("actor_id"));
    assert!(Category::reads_column("category_id"));
    assert!(Category::reads_column("name"));
    assert!(!Category::reads_column("Name"));
    assert!(Language::reads_column("language_id"));
    assert!(i32::reads_column("anything"));
}

#[test]
fn type_mismatch_on_a_known_column_fails_the_row() {
    let r = row(vec![("actor_id", text("one")), ("first_name", text("A"))]);
    assert_eq!(Actor::from_row(&r), Err(DecodeError::WrongType));
    let r = row(vec![("first_name", Cell::Null)]);
    assert_eq!(Actor::from_row(&r), Err(DecodeError::UnexpectedNull));
}

#[test]
fn first_failing_column_gives_the_error() {
    let r = row(vec![("last_name", Cell::Null), ("actor_id", text("x"))]);
    assert_eq!(Actor::from_row(&r), Err(DecodeError::UnexpectedNull));
    let r = row(vec![("actor_id", text("x")), ("last_name", Cell::Null)]);
    assert_eq!(Actor::from_row(&r), Err(DecodeError::WrongType));
}

#[test]
fn film_decodes_with_nullable_original_language() {
    let r = row(vec![
        ("film_id", Cell::Int(3)),
        ("title", text("T")),
        ("description", text("D")),
        ("length", Cell::SmallInt(90)),
        ("language_id", Cell::Int(1)),
        ("original_language_id", Cell::Null),
    ]);
    let film = Film::from_row(&r).unwrap();
    assert_eq!(
        film,
        Film {
            film_id: 3,
            language_id: 1,
            original_language_id: None,
            title: "T".to_string(),
            description: "D".to_string(),
            length: 90,
        }
    );
    assert_eq!(*film.id(), 3);
    let r = row(vec![("original_language_id", Cell::Int(4)), ("length", Cell::Int(90))]);
    assert_eq!(Film::from_row(&r), Err(DecodeError::WrongType));
    let r = row(vec![("original_language_id", Cell::Int(4))]);
    assert_eq!(Film::from_row(&r).unwrap().original_language_id, Some(4));
}

#[test]
fn category_and_language_decode() {
    let r = row(vec![("category_id", Cell::Int(2)), ("name", text("Drama"))]);
    let c = Category::from_row(&r).unwrap();
    assert_eq!(c, Category { category_id: 2, name: "Drama".to_string() });
    assert_eq!(*c.id(), 2);
    let r = row(vec![("name", text("English")), ("language_id", Cell::Int(1))]);
    let l = Language::from_row(&r).unwrap();
    assert_eq!(l, Language { language_id: 1, name: "English".to_string() });
    assert_eq!(*l.id(), 1);
    assert_eq!(Language::from_row(&row(vec![("language_id", Cell::Null)])), Err(DecodeError::UnexpectedNull));
    assert_eq!(Category::from_row(&row(vec![("name", Cell::Int(1))])), Err(DecodeError::WrongType));
}

#[test]
fn load_decodes_in_order() {
    let rows = vec![actor_row(2, "C", "D"), actor_row(1, "A", "B")];
    assert_eq!(load::<Actor>(&rows), Ok(vec![actor(2, "C", "D"), actor(1, "A", "B")]));
    assert_eq!(load::<Actor>(&[]), Ok(vec![]));
}

#[test]
fn load_fails_with_the_first_failing_row() {
    let rows = vec![
        actor_row(1, "A", "B"),
        row(vec![("actor_id", Cell::Null)]),
        row(vec![("actor_id", text("x"))]),
    ];
    assert_eq!(load::<Actor>(&rows), Err(DecodeError::UnexpectedNull));
}

#[test]
fn missing_key_is_absent() {
    let rows = vec![actor_row(1, "A", "B"), actor_row(3, "E", "F")];
    let m = load_one_by_key::<Actor>(&rows).unwrap();
    let mut keys: Vec<i32> = m.keys().copied().collect();
    keys.sort();
    assert_eq!(keys, vec![1, 3]);
    assert_eq!(m.get(&1), Some(&actor(1, "A", "B")));
    assert_eq!(m.get(&3), Some(&actor(3, "E", "F")));
    assert_eq!(m.get(&2), None);
}

#[test]
fn duplicate_identity_last_wins() {
    let rows = vec![actor_row(1, "A", "B"), actor_row(2, "C", "D"), actor_row(1, "X", "Y")];
    let m = load_one_by_key::<Actor>(&rows).unwrap();
    assert_eq!(m.len(), 2);
    assert_eq!(m.get(&1), Some(&actor(1, "X", "Y")));
    let m = index_by_id(vec![actor(5, "a", "b"), actor(5, "c", "d")]);
    assert_eq!(m.len(), 1);
    assert_eq!(m.get(&5), Some(&actor(5, "c", "d")));
}

#[test]
fn load_one_by_key_fails_as_a_whole() {
    let rows = vec![actor_row(1, "A", "B"), row(vec![("actor_id", text("x"))])];
    assert_eq!(load_one_by_key::<Actor>(&rows).err(), Some(DecodeError::WrongType));
    assert!(load_one_by_key::<Actor>(&[]).unwrap().is_empty());
}

fn keyed_row(key: i32, value: i32) -> Row {
    row(vec![(KEY_BULK_LOAD, Cell::Int(key)), ("__value", Cell::Int(value))])
}

#[test]
fn grouping_keeps_the_order_within_a_key() {
    let rows = vec![keyed_row(1, 10), keyed_row(1, 11), keyed_row(2, 20)];
    let m = load_many_by_key::<i32>(&rows).unwrap();
    assert_eq!(m.len(), 2);
    assert_eq!(m.get(&1), Some(&vec![10, 11]));
    assert_eq!(m.get(&2), Some(&vec![20]));
    assert_eq!(m.get(&3), None);
}

#[test]
fn grouping_of_interleaved_keys() {
    let rows = vec![keyed_row(2, 1), keyed_row(1, 2), keyed_row(2, 3), keyed_row(1, 4), keyed_row(2, 5)];
    let m = load_many_by_key::<i32>(&rows).unwrap();
    assert_eq!(m.get(&1), Some(&vec![2, 4]));
    assert_eq!(m.get(&2), Some(&vec![1, 3, 5]));
    let m = group_by_key(vec![(7, "a"), (8, "b"), (7, "c")]);
    assert_eq!(m.get(&7), Some(&vec!["a", "c"]));
    assert_eq!(m.get(&8), Some(&vec!["b"]));
    assert!(group_by_key::<i32>(vec![]).is_empty());
}

#[test]
fn grouping_of_records_by_loader_key() {
    let mut first = actor_row(1, "A", "B");
    first.columns.push(Column::new(KEY_BULK_LOAD.to_string(), Cell::Int(40)));
    let mut second = actor_row(2, "C", "D");
    second.columns.push(Column::new(KEY_BULK_LOAD.to_string(), Cell::Int(40)));
    let m = load_many_by_key::<Actor>(&[first, second]).unwrap();
    assert_eq!(m.get(&40), Some(&vec![actor(1, "A", "B"), actor(2, "C", "D")]));
}

#[test]
fn keyed_load_reads_the_key_before_the_value() {
    let rows = vec![row(vec![("__value", text("x"))])];
    assert_eq!(load_keyed::<i32>(&rows), Err(DecodeError::ColumnNotFound));
    let rows = vec![row(vec![(KEY_BULK_LOAD, Cell::Null), ("__value", text("x"))])];
    assert_eq!(load_many_by_key::<i32>(&rows).err(), Some(DecodeError::UnexpectedNull));
    let rows = vec![keyed_row(1, 1), row(vec![(KEY_BULK_LOAD, Cell::Int(1)), ("__value", text("x"))])];
    assert_eq!(load_many_by_key::<i32>(&rows).err(), Some(DecodeError::WrongType));
    assert_eq!(load_keyed::<i32>(&[keyed_row(4, 5)]), Ok(vec![(4, 5)]));
}
