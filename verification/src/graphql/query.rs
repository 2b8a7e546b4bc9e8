use vstd::prelude::*;
use crate::graphql::filter::InputFilter;
use crate::graphql::filter::TypeInfo;
use crate::graphql::filter::lemma_new_group_shape;
use crate::graphql::loader::same_text;
use crate::query::joined_table::JoinedTable;
use crate::query::ops::Combinator;
use crate::query::render::group_tables;
use crate::query::shape::GroupShape;
use crate::query::render::statement_tokens;
use crate::query::render::statement_values;
use crate::query::render::text_of;
use crate::query::sql_builder::compile;
use crate::query::table_filter::TableFilter;
use crate::query::value::SqlValue;

verus! {

/// `a` stands before `b` in the order of texts: at the first place where
/// they differ `a` has the character with the lower code, or `a` ends
/// there and `b` goes on.
pub open spec fn text_before(a: Seq<char>, b: Seq<char>) -> bool
    decreases a.len(),
{
    if b.len() == 0 {
        false
    } else if a.len() == 0 {
        true
    } else if a[0] != b[0] {
        (a[0] as int) < (b[0] as int)
    } else {
        text_before(a.drop_first(), b.drop_first())
    }
}

/// Whether `a` stands before `b`: the order of string slices of the
/// standard library, which goes by the bytes of the two, and so by the
/// codes of their characters.
#[verifier::external_body]
fn sorts_before(a: &str, b: &str) -> (r: bool)
    ensures
        r == text_before(a@, b@),
{
    a < b
}

/// Of two texts one stands before the other, or they are the same.
pub proof fn lemma_text_order_total(a: Seq<char>, b: Seq<char>)
    ensures
        a == b || text_before(a, b) || text_before(b, a),
    decreases a.len(),
{
    if a.len() == 0 || b.len() == 0 {
        if a.len() == 0 && b.len() == 0 {
            assert(a =~= b);
        }
    } else if a[0] != b[0] {
        assert((a[0] as int) != (b[0] as int));
    } else {
        lemma_text_order_total(a.drop_first(), b.drop_first());
        if a.drop_first() == b.drop_first() {
            assert(a =~= seq![a[0]] + a.drop_first());
            assert(b =~= seq![b[0]] + b.drop_first());
        }
    }
}

/// No text stands before itself.
pub proof fn lemma_text_order_strict(a: Seq<char>)
    ensures
        !text_before(a, a),
    decreases a.len(),
{
    if a.len() > 0 {
        lemma_text_order_strict(a.drop_first());
    }
}

/// What stands before a text stands before all that the text stands
/// before.
pub proof fn lemma_text_order_transitive(a: Seq<char>, b: Seq<char>, c: Seq<char>)
    requires
        text_before(a, b),
        text_before(b, c),
    ensures
        text_before(a, c),
    decreases a.len(),
{
    if a.len() > 0 && b.len() > 0 && c.len() > 0 {
        if a[0] == b[0] && b[0] == c[0] {
            lemma_text_order_transitive(a.drop_first(), b.drop_first(), c.drop_first());
        }
    }
}

/// Each of `columns` stands before the next.
pub open spec fn strictly_ascending(columns: Seq<&str>) -> bool {
    forall|i: int|
        0 <= i < columns.len() - 1 ==> text_before(
            (#[trigger] columns[i])@,
            columns[i + 1]@,
        )
}

/// `name` is among `columns`.
pub open spec fn holds_text(columns: Seq<&str>, name: Seq<char>) -> bool {
    exists|i: int| 0 <= i < columns.len() && (#[trigger] columns[i])@ == name
}

/// In ascending columns each stands before all that come after it: no
/// column is there twice.
pub proof fn lemma_ascending_is_pairwise(columns: Seq<&str>, i: int, j: int)
    requires
        strictly_ascending(columns),
        0 <= i < j < columns.len(),
    ensures
        text_before(columns[i]@, columns[j]@),
        columns[i]@ != columns[j]@,
    decreases j - i,
{
    if i + 1 < j {
        lemma_ascending_is_pairwise(columns, i, j - 1);
        assert(text_before(columns[j - 1]@, columns[j]@));
        lemma_text_order_transitive(columns[i]@, columns[j - 1]@, columns[j]@);
    }
    lemma_text_order_strict(columns[i]@);
}

/// Ascending columns stay ascending when one is put between the columns
/// that stand before it and the columns that it stands before.
pub proof fn lemma_insert_keeps_ascending(before: Seq<&str>, j: int, column: &str)
    requires
        strictly_ascending(before),
        0 <= j <= before.len(),
        j > 0 ==> text_before(before[j - 1]@, column@),
        j < before.len() ==> text_before(column@, before[j]@),
    ensures
        strictly_ascending(before.insert(j, column)),
{
    let after = before.insert(j, column);
    assert forall|i: int| 0 <= i < after.len() - 1 implies text_before(
        (#[trigger] after[i])@,
        after[i + 1]@,
    ) by {
        if i + 1 < j {
            assert(after[i] == before[i] && after[i + 1] == before[i + 1]);
        } else if i + 1 == j {
            assert(after[i] == before[i] && after[i + 1] == column);
        } else if i == j {
            assert(after[i] == column && after[i + 1] == before[i]);
        } else {
            assert(after[i] == before[i - 1] && after[i + 1] == before[i]);
            assert(text_before(before[i - 1]@, before[i - 1 + 1]@));
        }
    }
}

/// Columns into which one was put hold that one and what they held.
pub proof fn lemma_insert_holds(before: Seq<&str>, j: int, column: &str, name: Seq<char>)
    requires
        0 <= j <= before.len(),
    ensures
        holds_text(before.insert(j, column), name) <==> (holds_text(before, name) || name
            == column@),
{
    let after = before.insert(j, column);
    if holds_text(before, name) {
        let i = choose|i: int| 0 <= i < before.len() && (#[trigger] before[i])@ == name;
        if i < j {
            assert(after[i]@ == name);
        } else {
            assert(after[i + 1]@ == name);
        }
    }
    if name == column@ {
        assert(after[j]@ == name);
    }
    if holds_text(after, name) {
        let i = choose|i: int| 0 <= i < after.len() && (#[trigger] after[i])@ == name;
        if i < j {
            assert(before[i]@ == name);
        } else if i > j {
            assert(before[i - 1]@ == name);
        }
    }
}

/// Puts `column` into the ascending `columns`, at its place, unless it is
/// there.
fn insert_column(columns: &mut Vec<&'static str>, column: &'static str)
    requires
        strictly_ascending(old(columns)@),
    ensures
        strictly_ascending(final(columns)@),
        forall|name: Seq<char>|
            #![trigger holds_text(final(columns)@, name)]
            holds_text(final(columns)@, name) <==> (holds_text(old(columns)@, name) || name
                == column@),
{
    let mut j: usize = 0;
    while j < columns.len() && sorts_before(columns[j], column)
        invariant
            0 <= j <= columns@.len(),
            columns@ == old(columns)@,
            j > 0 ==> text_before(columns@[j - 1]@, column@),
        decreases columns@.len() - j,
    {
        j += 1;
    }
    let ghost before = columns@;
    if j < columns.len() && same_text(columns[j], column) {
        assert forall|name: Seq<char>| #![trigger holds_text(columns@, name)]
            holds_text(columns@, name) <==> (holds_text(before, name) || name == column@) by {
            assert(before[j as int]@ == column@);
        }
        return ;
    }
    proof {
        if j < before.len() {
            lemma_text_order_total(before[j as int]@, column@);
        }
        lemma_insert_keeps_ascending(before, j as int, column);
    }
    columns.insert(j, column);
    proof {
        assert forall|name: Seq<char>| #![trigger holds_text(columns@, name)]
            holds_text(columns@, name) <==> (holds_text(before, name) || name == column@) by {
            lemma_insert_holds(before, j as int, column, name);
        }
    }
}

/// One of the first `n` of `fields` is read from the column `name`.
pub open spec fn selects<T: TypeInfo>(fields: Seq<&str>, n: int, name: Seq<char>) -> bool {
    exists|i: int| 0 <= i < n && i < fields.len() && T::field_column((#[trigger] fields[i])@) == Some(name)
}

/// The columns that the fields `fields` of an entity are read from: each
/// once, in ascending order. A field that the entity does not know is left
/// out.
pub fn extract_selected_properties<T: TypeInfo>(fields: &[&str]) -> (columns: Vec<&'static str>)
    ensures
        strictly_ascending(columns@),
        forall|name: Seq<char>|
            holds_text(columns@, name) <==> selects::<T>(fields@, fields@.len() as int, name),
{
    let mut columns: Vec<&'static str> = Vec::new();
    let mut i: usize = 0;
    while i < fields.len()
        invariant
            0 <= i <= fields@.len(),
            strictly_ascending(columns@),
            forall|name: Seq<char>|
                holds_text(columns@, name) <==> selects::<T>(fields@, i as int, name),
        decreases fields@.len() - i,
    {
        let ghost before = columns@;
        match T::column_of(fields[i]) {
            Some(column) => {
                insert_column(&mut columns, column);
                assert forall|name: Seq<char>|
                    holds_text(columns@, name) <==> selects::<T>(
                        fields@,
                        i as int + 1,
                        name,
                    ) by {
                    assert(holds_text(before, name) <==> selects::<T>(fields@, i as int, name));
                    if selects::<T>(fields@, i as int + 1, name) {
                        let k = choose|k: int|
                            0 <= k < i as int + 1 && k < fields@.len() && T::field_column(
                                (#[trigger] fields@[k])@,
                            ) == Some(name);
                        if k < i {
                            assert(selects::<T>(fields@, i as int, name));
                        }
                    }
                    if name == column@ {
                        assert(T::field_column(fields@[i as int]@) == Some(name));
                    }
                    if selects::<T>(fields@, i as int, name) {
                        let k = choose|k: int|
                            0 <= k < i as int && k < fields@.len() && T::field_column(
                                (#[trigger] fields@[k])@,
                            ) == Some(name);
                        assert(T::field_column(fields@[k]@) == Some(name));
                    }
                }
            },
            None => {
                assert forall|name: Seq<char>|
                    holds_text(columns@, name) <==> selects::<T>(
                        fields@,
                        i as int + 1,
                        name,
                    ) by {
                    assert(holds_text(before, name) <==> selects::<T>(fields@, i as int, name));
                    if selects::<T>(fields@, i as int + 1, name) {
                        let k = choose|k: int|
                            0 <= k < i as int + 1 && k < fields@.len() && T::field_column(
                                (#[trigger] fields@[k])@,
                            ) == Some(name);
                        if k < i {
                            assert(selects::<T>(fields@, i as int, name));
                        }
                    }
                    if selects::<T>(fields@, i as int, name) {
                        let k = choose|k: int|
                            0 <= k < i as int && k < fields@.len() && T::field_column(
                                (#[trigger] fields@[k])@,
                            ) == Some(name);
                        assert(T::field_column(fields@[k]@) == Some(name));
                    }
                }
            },
        }
        i += 1;
    }
    columns
}

/// Renders the statement that selects the columns `s` from the rows of the
/// table of `F` that pass `f`, where there is a filter, entered through
/// `joined_table` where there is one. Returns nothing where the filter
/// needs more table aliases than a `u32` counts.
///
/// The statement is that of a filter of the table of `F` whose root group
/// says what `f` asks; what a filter says decides its statement.
pub fn process<'l, F: InputFilter>(
    f: &'l Option<F>,
    s: &'l [&'l str],
    joined_table: Option<JoinedTable<'l>>,
) -> (r: Option<(String, Vec<SqlValue<'l>>)>)
    ensures
        exists|tf: TableFilter<'l>|
            {
                &&& tf.table@ == F::table_name_spec()
                &&& tf.wf()
                &&& tf.filters.shape() == asked(*f)
                &&& #[trigger] answers(tf, s@, joined_table, r)
            },
{
    let mut tf = TableFilter::new(F::table_name());
    proof {
        lemma_new_group_shape(tf.filters);
    }
    match f {
        Some(filter) => {
            filter.collect_into(tf.filter_group_mut());
        },
        None => {},
    }
    let r = compile(&tf, s, joined_table);
    assert(answers(tf, s@, joined_table, r));
    r
}

/// What the root group of the filter of a table says where `f` is asked
/// of its rows: what `f` adds to an empty group of what must hold all at
/// once, and nothing where there is no `f`.
pub open spec fn asked<F: InputFilter>(f: Option<F>) -> GroupShape {
    match f {
        Some(filter) => filter.collected(GroupShape::empty(Combinator::And)),
        None => GroupShape::empty(Combinator::And),
    }
}

/// `r` is what compiling `tf` gives.
pub open spec fn answers<'l>(
    tf: TableFilter<'l>,
    select: Seq<&str>,
    joined: Option<JoinedTable<'l>>,
    r: Option<(String, Vec<SqlValue<'l>>)>,
) -> bool {
    match r {
        Some(out) => {
            &&& group_tables(tf.filters) < u32::MAX
            &&& out.0@ == text_of(statement_tokens(joined, tf, select))
            &&& out.1@ == statement_values(joined, tf)
        },
        None => group_tables(tf.filters) >= u32::MAX,
    }
}

} // verus!
