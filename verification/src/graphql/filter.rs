use vstd::prelude::*;
use crate::query::filter_group::FilterGroup;
use crate::query::filter_type::FilterType;
use crate::query::join_column_filter::JoinColumnFilter;
use crate::query::join_table_filter::JoinTableFilter;
use crate::query::ops::Combinator;
use crate::query::ops::Operation;
use crate::query::shape::FilterShape;
use crate::query::shape::GroupShape;
use crate::query::shape::ValueShape;
use crate::query::shape::texts;
use crate::query::table_filter::TableFilter;
use crate::query::value::SqlValue;
use crate::query::value_filter::ValueFilter;

verus! {

/// A value of a filter input that a statement can bind.
pub trait ToSqlValue {
    /// What the value holds, as a statement binds it.
    spec fn value_shape(&self) -> ValueShape;

    fn to_sql_value<'a>(&'a self) -> (v: SqlValue<'a>)
        ensures
            v.shape() == self.value_shape(),
    ;
}

impl ToSqlValue for bool {
    open spec fn value_shape(&self) -> ValueShape {
        ValueShape::Bool(*self)
    }

    fn to_sql_value<'a>(&'a self) -> (v: SqlValue<'a>) {
        SqlValue::Bool(*self)
    }
}

impl ToSqlValue for i16 {
    open spec fn value_shape(&self) -> ValueShape {
        ValueShape::SmallInt(*self)
    }

    fn to_sql_value<'a>(&'a self) -> (v: SqlValue<'a>) {
        SqlValue::SmallInt(*self)
    }
}

impl ToSqlValue for i32 {
    open spec fn value_shape(&self) -> ValueShape {
        ValueShape::Int(*self)
    }

    fn to_sql_value<'a>(&'a self) -> (v: SqlValue<'a>) {
        SqlValue::Int(*self)
    }
}

impl ToSqlValue for i64 {
    open spec fn value_shape(&self) -> ValueShape {
        ValueShape::BigInt(*self)
    }

    fn to_sql_value<'a>(&'a self) -> (v: SqlValue<'a>) {
        SqlValue::BigInt(*self)
    }
}

impl ToSqlValue for String {
    open spec fn value_shape(&self) -> ValueShape {
        ValueShape::Text(self@)
    }

    fn to_sql_value<'a>(&'a self) -> (v: SqlValue<'a>) {
        SqlValue::Text(self.as_str())
    }
}

impl ToSqlValue for Vec<i32> {
    open spec fn value_shape(&self) -> ValueShape {
        ValueShape::IntList(self@)
    }

    fn to_sql_value<'a>(&'a self) -> (v: SqlValue<'a>) {
        SqlValue::IntList(self.as_slice())
    }
}

impl ToSqlValue for Vec<String> {
    open spec fn value_shape(&self) -> ValueShape {
        ValueShape::TextList(texts(self@))
    }

    fn to_sql_value<'a>(&'a self) -> (v: SqlValue<'a>) {
        SqlValue::TextList(self.as_slice())
    }
}

/// `after` holds what `before` held and, behind it, what was added since:
/// nothing that was there has moved or changed, and a well-formed group
/// has stayed well formed.
pub open spec fn grown<'f>(before: FilterGroup<'f>, after: FilterGroup<'f>) -> bool {
    &&& after.combinator == before.combinator
    &&& before.filters@.len() <= after.filters@.len()
    &&& forall|i: int|
        0 <= i < before.filters@.len() ==> #[trigger] after.filters@[i] == before.filters@[i]
    &&& before.groups@.len() <= after.groups@.len()
    &&& forall|i: int|
        0 <= i < before.groups@.len() ==> #[trigger] after.groups@[i] == before.groups@[i]
    &&& before.wf() ==> after.wf()
}

/// A group into which another was merged has grown.
pub proof fn lemma_merge_grows<'f>(
    before: FilterGroup<'f>,
    child: FilterGroup<'f>,
    after: FilterGroup<'f>,
)
    requires
        after.combinator == before.combinator,
        after.filters@ == before.filters@ + FilterGroup::merged_filters(before.combinator, child),
        after.groups@ == before.groups@ + FilterGroup::merged_groups(before.combinator, child),
        before.wf() ==> after.wf(),
    ensures
        grown(before, after),
{
}

/// A filter input of one entity: it can add its predicates to a group.
pub trait InputFilter: Sized {
    /// The name of the table of the entity.
    spec fn table_name_spec() -> Seq<char>;

    /// The table of the entity.
    fn table_name() -> (r: &'static str)
        ensures
            r@ == Self::table_name_spec(),
    ;

    /// The inputs of which any may hold.
    spec fn or_list(&self) -> Option<Seq<Self>>;

    /// The inputs of which all must hold.
    spec fn and_list(&self) -> Option<Seq<Self>>;

    /// The inputs of which any may hold.
    fn or_filters(&self) -> (r: Option<&[Self]>)
        ensures
            match r {
                Some(list) => self.or_list() == Some(list@),
                None => self.or_list() is None,
            },
    ;

    /// The inputs of which all must hold.
    fn and_filters(&self) -> (r: Option<&[Self]>)
        ensures
            match r {
                Some(list) => self.and_list() == Some(list@),
                None => self.and_list() is None,
            },
    ;

    /// What a group that says `into` says after this input has added its
    /// predicates to it.
    spec fn collected(&self, into: GroupShape) -> GroupShape;

    /// Adds the predicates of this input to `collector`, as what must hold
    /// all at once.
    fn collect_into<'f>(&'f self, collector: &mut FilterGroup<'f>)
        ensures
            grown(*old(collector), *final(collector)),
            final(collector).shape() == self.collected(old(collector).shape()),
    ;
}

/// The columns of an entity by the names of the fields that are read from
/// them.
pub trait TypeInfo {
    /// The column that the field `field` is read from.
    spec fn field_column(field: Seq<char>) -> Option<Seq<char>>;

    fn column_of(field: &str) -> (r: Option<&'static str>)
        ensures
            match r {
                Some(c) => Self::field_column(field@) == Some(c@),
                None => Self::field_column(field@) is None,
            },
    ;
}

/// What a group that says `into` says after the first `n` of `list` have
/// added their predicates to it, one after the other.
pub open spec fn collected_all<T: InputFilter>(list: Seq<T>, n: nat, into: GroupShape) -> GroupShape
    decreases n,
{
    if n == 0 || n > list.len() {
        into
    } else {
        list[n - 1].collected(collected_all(list, (n - 1) as nat, into))
    }
}

/// What a group that says `into` says after the inputs of `list`, joined
/// by `combinator`, have been added to it: to the group itself where it
/// joins by `combinator`, else to a group of their own, which is merged
/// into it.
pub open spec fn listed<T: InputFilter>(
    into: GroupShape,
    combinator: Combinator,
    list: Option<Seq<T>>,
) -> GroupShape {
    match list {
        None => into,
        Some(l) => if into.combinator == combinator {
            collected_all(l, l.len(), into)
        } else {
            into.merged(collected_all(l, l.len(), GroupShape::empty(combinator)))
        },
    }
}

/// What a new group says.
pub proof fn lemma_new_group_shape(g: FilterGroup)
    requires
        g.filters@.len() == 0,
        g.groups@.len() == 0,
    ensures
        g.shape() == GroupShape::empty(g.combinator),
{
    assert(g.shape().filters =~= Seq::<FilterShape>::empty());
    assert(g.shape().groups =~= Seq::<GroupShape>::empty());
}

/// Adds to `g` what each of `filters` collects, all of them joined by
/// `combinator`.
fn merge_all<'f, T: InputFilter>(
    g: &mut FilterGroup<'f>,
    combinator: Combinator,
    filters: &'f [T],
)
    ensures
        grown(*old(g), *final(g)),
        final(g).shape() == listed(old(g).shape(), combinator, Some(filters@)),
{
    if g.combinator() == combinator {
        let mut i: usize = 0;
        while i < filters.len()
            invariant
                0 <= i <= filters@.len(),
                grown(*old(g), *g),
                g.shape() == collected_all(filters@, i as nat, old(g).shape()),
            decreases filters@.len() - i,
        {
            filters[i].collect_into(g);
            i += 1;
        }
    } else {
        let mut c = FilterGroup::new(combinator);
        proof {
            lemma_new_group_shape(c);
        }
        let mut i: usize = 0;
        while i < filters.len()
            invariant
                0 <= i <= filters@.len(),
                c.wf(),
                c.shape() == collected_all(filters@, i as nat, GroupShape::empty(combinator)),
            decreases filters@.len() - i,
        {
            filters[i].collect_into(&mut c);
            i += 1;
        }
        g.add_group(c);
        proof {
            lemma_merge_grows(*old(g), c, *g);
        }
    }
}

/// Adds to `g` the predicates of the inputs of `f` of which all must hold.
pub fn and_filters<'f, T: InputFilter>(g: &mut FilterGroup<'f>, f: &'f T)
    ensures
        grown(*old(g), *final(g)),
        final(g).shape() == listed(old(g).shape(), Combinator::And, f.and_list()),
        f.and_list() is None ==> *final(g) == *old(g),
{
    match f.and_filters() {
        Some(filters) => {
            merge_all(g, Combinator::And, filters);
        },
        None => {},
    }
}

/// Adds to `g` the predicates of the inputs of `f` of which any may hold.
pub fn or_filters<'f, T: InputFilter>(g: &mut FilterGroup<'f>, f: &'f T)
    ensures
        grown(*old(g), *final(g)),
        final(g).shape() == listed(old(g).shape(), Combinator::Or, f.or_list()),
        f.or_list() is None ==> *final(g) == *old(g),
{
    match f.or_filters() {
        Some(filters) => {
            merge_all(g, Combinator::Or, filters);
        },
        None => {},
    }
}

/// The comparison of `column` with `value` by `operation`, where there is
/// a value.
pub open spec fn comparison<T: ToSqlValue>(
    operation: Operation,
    column: Seq<char>,
    value: Option<T>,
) -> Option<FilterShape> {
    match value {
        Some(x) => Some(
            FilterShape::Value { operation: operation, column: column, value: x.value_shape() },
        ),
        None => None,
    }
}

/// Adds to `g` the comparison of `column` with `value` by `operation`,
/// where there is a value.
pub fn op<'a, T: ToSqlValue>(
    g: &mut FilterGroup<'a>,
    column: &'a str,
    operation: Operation,
    value: &'a Option<T>,
)
    ensures
        grown(*old(g), *final(g)),
        final(g).groups == old(g).groups,
        final(g).shape() == old(g).shape().with_filter_if(comparison(operation, column@, *value)),
        *value is None ==> *final(g) == *old(g),
{
    match value {
        Some(x) => {
            let f = ValueFilter::new(operation, column, x.to_sql_value());
            g.add_filter(f);
        },
        None => {},
    }
}

pub fn eq<'a, T: ToSqlValue>(g: &mut FilterGroup<'a>, column: &'a str, value: &'a Option<T>)
    ensures
        grown(*old(g), *final(g)),
        final(g).groups == old(g).groups,
        final(g).shape() == old(g).shape().with_filter_if(
            comparison(Operation::Eq, column@, *value),
        ),
        *value is None ==> *final(g) == *old(g),
{
    op(g, column, Operation::Eq, value)
}

pub fn neq<'a, T: ToSqlValue>(g: &mut FilterGroup<'a>, column: &'a str, value: &'a Option<T>)
    ensures
        grown(*old(g), *final(g)),
        final(g).groups == old(g).groups,
        final(g).shape() == old(g).shape().with_filter_if(
            comparison(Operation::Neq, column@, *value),
        ),
        *value is None ==> *final(g) == *old(g),
{
    op(g, column, Operation::Neq, value)
}

pub fn lt<'a, T: ToSqlValue>(g: &mut FilterGroup<'a>, column: &'a str, value: &'a Option<T>)
    ensures
        grown(*old(g), *final(g)),
        final(g).groups == old(g).groups,
        final(g).shape() == old(g).shape().with_filter_if(
            comparison(Operation::Lt, column@, *value),
        ),
        *value is None ==> *final(g) == *old(g),
{
    op(g, column, Operation::Lt, value)
}

pub fn lte<'a, T: ToSqlValue>(g: &mut FilterGroup<'a>, column: &'a str, value: &'a Option<T>)
    ensures
        grown(*old(g), *final(g)),
        final(g).groups == old(g).groups,
        final(g).shape() == old(g).shape().with_filter_if(
            comparison(Operation::Lte, column@, *value),
        ),
        *value is None ==> *final(g) == *old(g),
{
    op(g, column, Operation::Lte, value)
}

pub fn gt<'a, T: ToSqlValue>(g: &mut FilterGroup<'a>, column: &'a str, value: &'a Option<T>)
    ensures
        grown(*old(g), *final(g)),
        final(g).groups == old(g).groups,
        final(g).shape() == old(g).shape().with_filter_if(
            comparison(Operation::Gt, column@, *value),
        ),
        *value is None ==> *final(g) == *old(g),
{
    op(g, column, Operation::Gt, value)
}

pub fn gte<'a, T: ToSqlValue>(g: &mut FilterGroup<'a>, column: &'a str, value: &'a Option<T>)
    ensures
        grown(*old(g), *final(g)),
        final(g).groups == old(g).groups,
        final(g).shape() == old(g).shape().with_filter_if(
            comparison(Operation::Gte, column@, *value),
        ),
        *value is None ==> *final(g) == *old(g),
{
    op(g, column, Operation::Gte, value)
}

pub fn is_in<'a, T: ToSqlValue>(g: &mut FilterGroup<'a>, column: &'a str, value: &'a Option<T>)
    ensures
        grown(*old(g), *final(g)),
        final(g).groups == old(g).groups,
        final(g).shape() == old(g).shape().with_filter_if(
            comparison(Operation::In, column@, *value),
        ),
        *value is None ==> *final(g) == *old(g),
{
    op(g, column, Operation::In, value)
}

pub fn is_not_in<'a, T: ToSqlValue>(g: &mut FilterGroup<'a>, column: &'a str, value: &'a Option<T>)
    ensures
        grown(*old(g), *final(g)),
        final(g).groups == old(g).groups,
        final(g).shape() == old(g).shape().with_filter_if(
            comparison(Operation::NotIn, column@, *value),
        ),
        *value is None ==> *final(g) == *old(g),
{
    op(g, column, Operation::NotIn, value)
}

pub fn contains<'a, T: ToSqlValue>(g: &mut FilterGroup<'a>, column: &'a str, value: &'a Option<T>)
    ensures
        grown(*old(g), *final(g)),
        final(g).groups == old(g).groups,
        final(g).shape() == old(g).shape().with_filter_if(
            comparison(Operation::Contains, column@, *value),
        ),
        *value is None ==> *final(g) == *old(g),
{
    op(g, column, Operation::Contains, value)
}

/// The test of `column` by `operation`, which binds no value.
pub open spec fn null_test_shape(operation: Operation, column: Seq<char>) -> FilterShape {
    FilterShape::Value { operation: operation, column: column, value: ValueShape::Null }
}

/// Adds to `g` the test of `column` by `operation`, which binds no value.
fn null_test<'a>(g: &mut FilterGroup<'a>, column: &'a str, operation: Operation)
    ensures
        grown(*old(g), *final(g)),
        final(g).groups == old(g).groups,
        final(g).filters@ == old(g).filters@.push(
            FilterType::ValueFilter(
                (ValueFilter { operation: operation, column: column, value: SqlValue::Null }),
            ),
        ),
        final(g).shape() == old(g).shape().with_filter(null_test_shape(operation, column@)),
{
    let f = ValueFilter::new(operation, column, SqlValue::Null);
    g.add_filter(f);
}

/// Adds to `g` the test that `column` holds no value.
pub fn is_null<'a>(g: &mut FilterGroup<'a>, column: &'a str)
    ensures
        grown(*old(g), *final(g)),
        final(g).groups == old(g).groups,
        final(g).filters@ == old(g).filters@.push(
            FilterType::ValueFilter(
                (ValueFilter {
                    operation: Operation::IsNull,
                    column: column,
                    value: SqlValue::Null,
                }),
            ),
        ),
        final(g).shape() == old(g).shape().with_filter(
            null_test_shape(Operation::IsNull, column@),
        ),
{
    null_test(g, column, Operation::IsNull)
}

/// Adds to `g` the test that `column` holds a value.
pub fn is_not_null<'a>(g: &mut FilterGroup<'a>, column: &'a str)
    ensures
        grown(*old(g), *final(g)),
        final(g).groups == old(g).groups,
        final(g).filters@ == old(g).filters@.push(
            FilterType::ValueFilter(
                (ValueFilter {
                    operation: Operation::IsNotNull,
                    column: column,
                    value: SqlValue::Null,
                }),
            ),
        ),
        final(g).shape() == old(g).shape().with_filter(
            null_test_shape(Operation::IsNotNull, column@),
        ),
{
    null_test(g, column, Operation::IsNotNull)
}

/// The filter of the table of `C` that holds what `child` adds to it.
pub fn table_filter_of<'a, C: InputFilter>(child: &'a C) -> (tf: TableFilter<'a>)
    ensures
        tf.table@ == C::table_name_spec(),
        tf.filters.shape() == child.collected(GroupShape::empty(Combinator::And)),
        tf.wf(),
{
    let mut tf = TableFilter::new(C::table_name());
    proof {
        lemma_new_group_shape(tf.filters);
    }
    child.collect_into(tf.filter_group_mut());
    tf
}

/// The join over a column to the rows of `table` that pass `filters`.
pub open spec fn join_column_shape(
    table: Seq<char>,
    filters: GroupShape,
    parent_col: Seq<char>,
    child_col: Seq<char>,
) -> FilterShape {
    FilterShape::JoinColumn {
        table: table,
        filters: filters,
        parent_column: parent_col,
        child_column: child_col,
    }
}

/// The join over the junction table `join_table` to the rows of `table`
/// that pass `filters`.
pub open spec fn join_table_shape(
    table: Seq<char>,
    filters: GroupShape,
    join_table: Seq<char>,
    jt_parent_col: Seq<char>,
    jt_child_col: Seq<char>,
    parent_join_col: Seq<char>,
    child_join_col: Seq<char>,
) -> FilterShape {
    FilterShape::JoinTable {
        table: table,
        filters: filters,
        join_table: join_table,
        parent_table_join_col: parent_join_col,
        join_table_parent_col: jt_parent_col,
        child_table_join_col: child_join_col,
        join_table_child_col: jt_child_col,
    }
}

/// Adds to `g` the join over a column to the rows that pass `child`.
pub fn join_column_on<'a>(
    g: &mut FilterGroup<'a>,
    child: TableFilter<'a>,
    parent_col: &'a str,
    child_col: &'a str,
)
    ensures
        final(g).combinator == old(g).combinator,
        final(g).groups == old(g).groups,
        final(g).filters@ == old(g).filters@.push(
            FilterType::JoinColumnFilter(
                (JoinColumnFilter {
                    filter: child,
                    parent_column: parent_col,
                    child_column: child_col,
                }),
            ),
        ),
        final(g).shape() == old(g).shape().with_filter(
            join_column_shape(child.table@, child.filters.shape(), parent_col@, child_col@),
        ),
        child.wf() ==> grown(*old(g), *final(g)),
{
    let jf = JoinColumnFilter::new(child, parent_col, child_col);
    g.add_filter(jf);
}

/// Adds to `g` the join over the junction table `join_table` to the rows
/// that pass `child`.
pub fn join_table_on<'a>(
    g: &mut FilterGroup<'a>,
    child: TableFilter<'a>,
    join_table: &'a str,
    jt_parent_col: &'a str,
    jt_child_col: &'a str,
    parent_join_col: &'a str,
    child_join_col: &'a str,
)
    ensures
        final(g).combinator == old(g).combinator,
        final(g).groups == old(g).groups,
        final(g).filters@ == old(g).filters@.push(
            FilterType::JoinTableFilter(
                (JoinTableFilter {
                    child_table_filter: child,
                    join_table: join_table,
                    parent_table_join_col: parent_join_col,
                    join_table_parent_col: jt_parent_col,
                    child_table_join_col: child_join_col,
                    join_table_child_col: jt_child_col,
                }),
            ),
        ),
        final(g).shape() == old(g).shape().with_filter(
            join_table_shape(
                child.table@,
                child.filters.shape(),
                join_table@,
                jt_parent_col@,
                jt_child_col@,
                parent_join_col@,
                child_join_col@,
            ),
        ),
        child.wf() ==> grown(*old(g), *final(g)),
{
    let jf = JoinTableFilter::new(
        child,
        join_table,
        parent_join_col,
        jt_parent_col,
        child_join_col,
        jt_child_col,
    );
    g.add_filter(jf);
}

/// The join over a column to the rows of the table of `C` that pass
/// `child`, where there is one.
pub open spec fn join_column_of<C: InputFilter>(
    child: Option<Box<C>>,
    parent_col: Seq<char>,
    child_col: Seq<char>,
) -> Option<FilterShape> {
    match child {
        Some(c) => Some(
            join_column_shape(
                C::table_name_spec(),
                c.collected(GroupShape::empty(Combinator::And)),
                parent_col,
                child_col,
            ),
        ),
        None => None,
    }
}

/// Adds to `g` the join over a column to the rows of the table of `C` that
/// pass `child_filter`, where there is one.
pub fn join_column<'a, C: InputFilter>(
    g: &mut FilterGroup<'a>,
    child_filter: &'a Option<Box<C>>,
    parent_col: &'a str,
    child_col: &'a str,
)
    ensures
        grown(*old(g), *final(g)),
        final(g).groups == old(g).groups,
        final(g).shape() == old(g).shape().with_filter_if(
            join_column_of(*child_filter, parent_col@, child_col@),
        ),
        *child_filter is None ==> *final(g) == *old(g),
{
    match child_filter {
        Some(child) => {
            let tf = table_filter_of::<C>(child);
            join_column_on(g, tf, parent_col, child_col);
        },
        None => {},
    }
}

/// The join over the junction table `join_table` to the rows of the table
/// of `C` that pass `child`, where there is one.
pub open spec fn join_table_of<C: InputFilter>(
    child: Option<Box<C>>,
    join_table: Seq<char>,
    jt_parent_col: Seq<char>,
    jt_child_col: Seq<char>,
    parent_join_col: Seq<char>,
    child_join_col: Seq<char>,
) -> Option<FilterShape> {
    match child {
        Some(c) => Some(
            join_table_shape(
                C::table_name_spec(),
                c.collected(GroupShape::empty(Combinator::And)),
                join_table,
                jt_parent_col,
                jt_child_col,
                parent_join_col,
                child_join_col,
            ),
        ),
        None => None,
    }
}

/// Adds to `g` the join over the junction table `join_table` to the rows
/// of the table of `C` that pass `child_filter`, where there is one.
pub fn join_table<'a, C: InputFilter>(
    g: &mut FilterGroup<'a>,
    child_filter: &'a Option<Box<C>>,
    join_table: &'a str,
    jt_parent_col: &'a str,
    jt_child_col: &'a str,
    parent_join_col: &'a str,
    child_join_col: &'a str,
)
    ensures
        grown(*old(g), *final(g)),
        final(g).groups == old(g).groups,
        final(g).shape() == old(g).shape().with_filter_if(
            join_table_of(
                *child_filter,
                join_table@,
                jt_parent_col@,
                jt_child_col@,
                parent_join_col@,
                child_join_col@,
            ),
        ),
        *child_filter is None ==> *final(g) == *old(g),
{
    match child_filter {
        Some(child) => {
            let tf = table_filter_of::<C>(child);
            join_table_on(
                g,
                tf,
                join_table,
                jt_parent_col,
                jt_child_col,
                parent_join_col,
                child_join_col,
            );
        },
        None => {},
    }
}

} // verus!
