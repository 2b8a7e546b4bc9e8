use vstd::prelude::*;
use crate::query::filter_group::FilterGroup;
use crate::query::filter_type::FilterType;
use crate::query::ops::Combinator;
use crate::query::ops::Operation;
use crate::query::value::SqlValue;

verus! {

/// What a bound value holds.
pub enum ValueShape {
    Null,
    Bool(bool),
    SmallInt(i16),
    Int(i32),
    BigInt(i64),
    Text(Seq<char>),
    IntList(Seq<i32>),
    TextList(Seq<Seq<char>>),
}

/// What a predicate says.
pub enum FilterShape {
    Value { operation: Operation, column: Seq<char>, value: ValueShape },
    JoinColumn {
        table: Seq<char>,
        filters: GroupShape,
        parent_column: Seq<char>,
        child_column: Seq<char>,
    },
    JoinTable {
        table: Seq<char>,
        filters: GroupShape,
        join_table: Seq<char>,
        parent_table_join_col: Seq<char>,
        join_table_parent_col: Seq<char>,
        child_table_join_col: Seq<char>,
        join_table_child_col: Seq<char>,
    },
}

/// What a group says: its connective, its predicates and its nested
/// groups.
pub struct GroupShape {
    pub combinator: Combinator,
    pub filters: Seq<FilterShape>,
    pub groups: Seq<GroupShape>,
}

impl GroupShape {
    /// The group joined by `combinator` that holds nothing.
    pub open spec fn empty(combinator: Combinator) -> GroupShape {
        GroupShape { combinator, filters: Seq::empty(), groups: Seq::empty() }
    }

    /// The group holds neither a predicate nor a nested group.
    pub open spec fn is_empty(self) -> bool {
        self.filters.len() == 0 && self.groups.len() == 0
    }

    /// The group with `f` behind its predicates.
    pub open spec fn with_filter(self, f: FilterShape) -> GroupShape {
        GroupShape { filters: self.filters.push(f), ..self }
    }

    /// The group with `f` behind its predicates, where there is one.
    pub open spec fn with_filter_if(self, f: Option<FilterShape>) -> GroupShape {
        match f {
            Some(f) => self.with_filter(f),
            None => self,
        }
    }

    /// The group with `g` behind its nested groups.
    pub open spec fn with_group(self, g: GroupShape) -> GroupShape {
        GroupShape { groups: self.groups.push(g), ..self }
    }

    /// The group after `child` has been merged into it. The first rule
    /// that fits is applied: an empty group is dropped; one with this
    /// group's connective gives its predicates, and each of its nested
    /// groups is merged in turn; one that holds a single predicate and
    /// nothing else gives that predicate; one that holds a single nested
    /// group and nothing else has that group merged in its place; any
    /// other becomes a nested group.
    pub open spec fn merged(self, child: GroupShape) -> GroupShape
        decreases child, 1nat, 0nat,
    {
        if child.is_empty() {
            self
        } else if child.combinator == self.combinator {
            (GroupShape { filters: self.filters + child.filters, ..self }).merged_first(
                child,
                child.groups.len(),
            )
        } else if child.groups.len() == 0 && child.filters.len() == 1 {
            GroupShape { filters: self.filters + child.filters, ..self }
        } else if child.filters.len() == 0 && child.groups.len() == 1 {
            self.merged(child.groups[0])
        } else {
            self.with_group(child)
        }
    }

    /// The group after the first `n` nested groups of `child` have been
    /// merged into it, one after the other.
    pub open spec fn merged_first(self, child: GroupShape, n: nat) -> GroupShape
        decreases child, 0nat, n,
    {
        if n == 0 || n > child.groups.len() {
            self
        } else {
            self.merged_first(child, (n - 1) as nat).merged(child.groups[n - 1])
        }
    }
}

impl<'f> SqlValue<'f> {
    /// What the value holds.
    pub open spec fn shape(self) -> ValueShape {
        match self {
            SqlValue::Null => ValueShape::Null,
            SqlValue::Bool(v) => ValueShape::Bool(v),
            SqlValue::SmallInt(v) => ValueShape::SmallInt(v),
            SqlValue::Int(v) => ValueShape::Int(v),
            SqlValue::BigInt(v) => ValueShape::BigInt(v),
            SqlValue::Text(s) => ValueShape::Text(s@),
            SqlValue::IntList(l) => ValueShape::IntList(l@),
            SqlValue::TextList(l) => ValueShape::TextList(texts(l@)),
        }
    }
}

/// The characters of each of `list`.
pub open spec fn texts(list: Seq<String>) -> Seq<Seq<char>> {
    Seq::new(list.len(), |i: int| list[i]@)
}

impl<'f> FilterType<'f> {
    /// What the predicate says.
    pub open spec fn shape(self) -> FilterShape
        decreases self, 0nat, 0nat,
    {
        match self {
            FilterType::ValueFilter(v) => FilterShape::Value {
                operation: v.operation,
                column: v.column@,
                value: v.value.shape(),
            },
            FilterType::JoinColumnFilter(j) => FilterShape::JoinColumn {
                table: j.filter.table@,
                filters: j.filter.filters.shape(),
                parent_column: j.parent_column@,
                child_column: j.child_column@,
            },
            FilterType::JoinTableFilter(j) => FilterShape::JoinTable {
                table: j.child_table_filter.table@,
                filters: j.child_table_filter.filters.shape(),
                join_table: j.join_table@,
                parent_table_join_col: j.parent_table_join_col@,
                join_table_parent_col: j.join_table_parent_col@,
                child_table_join_col: j.child_table_join_col@,
                join_table_child_col: j.join_table_child_col@,
            },
        }
    }
}

/// What the first `n` of `filters` say.
pub open spec fn filter_shapes(filters: Seq<FilterType>, n: nat) -> Seq<FilterShape>
    decreases filters, 0nat, n,
{
    if n == 0 || n > filters.len() {
        Seq::empty()
    } else {
        filter_shapes(filters, (n - 1) as nat).push(filters[n - 1].shape())
    }
}

/// What the first `n` of `groups` say.
pub open spec fn group_shapes(groups: Seq<FilterGroup>, n: nat) -> Seq<GroupShape>
    decreases groups, 0nat, n,
{
    if n == 0 || n > groups.len() {
        Seq::empty()
    } else {
        group_shapes(groups, (n - 1) as nat).push(groups[n - 1].shape())
    }
}

impl<'f> FilterGroup<'f> {
    /// What the group says.
    pub open spec fn shape(self) -> GroupShape
        decreases self, 1nat, 0nat,
    {
        GroupShape {
            combinator: self.combinator,
            filters: filter_shapes(self.filters@, self.filters@.len()),
            groups: group_shapes(self.groups@, self.groups@.len()),
        }
    }
}

/// The shapes of the first `n` filters are as many, each the shape of its
/// filter.
pub proof fn lemma_filter_shapes(filters: Seq<FilterType>, n: nat)
    requires
        n <= filters.len(),
    ensures
        filter_shapes(filters, n).len() == n,
        forall|i: int| 0 <= i < n ==> #[trigger] filter_shapes(filters, n)[i] == filters[i].shape(),
    decreases n,
{
    if n > 0 {
        lemma_filter_shapes(filters, (n - 1) as nat);
    }
}

/// The shapes of the first `n` groups are as many, each the shape of its
/// group.
pub proof fn lemma_group_shapes(groups: Seq<FilterGroup>, n: nat)
    requires
        n <= groups.len(),
    ensures
        group_shapes(groups, n).len() == n,
        forall|i: int| 0 <= i < n ==> #[trigger] group_shapes(groups, n)[i] == groups[i].shape(),
    decreases n,
{
    if n > 0 {
        lemma_group_shapes(groups, (n - 1) as nat);
    }
}

/// The shapes of filters, one list behind the other, are the shapes of the
/// one behind the shapes of the other.
pub proof fn lemma_filter_shapes_concat(a: Seq<FilterType>, b: Seq<FilterType>)
    ensures
        filter_shapes(a + b, (a + b).len()) == filter_shapes(a, a.len()) + filter_shapes(
            b,
            b.len(),
        ),
{
    lemma_filter_shapes(a + b, (a + b).len());
    lemma_filter_shapes(a, a.len());
    lemma_filter_shapes(b, b.len());
    assert(filter_shapes(a + b, (a + b).len()) =~= filter_shapes(a, a.len()) + filter_shapes(
        b,
        b.len(),
    ));
}

/// The same of groups.
pub proof fn lemma_group_shapes_concat(a: Seq<FilterGroup>, b: Seq<FilterGroup>)
    ensures
        group_shapes(a + b, (a + b).len()) == group_shapes(a, a.len()) + group_shapes(b, b.len()),
{
    lemma_group_shapes(a + b, (a + b).len());
    lemma_group_shapes(a, a.len());
    lemma_group_shapes(b, b.len());
    assert(group_shapes(a + b, (a + b).len()) =~= group_shapes(a, a.len()) + group_shapes(
        b,
        b.len(),
    ));
}

/// A group to whose lists `filters` and `groups` were appended says what
/// it said, with what they say behind it.
pub proof fn lemma_appended_shape(
    before: FilterGroup,
    after: FilterGroup,
    filters: Seq<FilterType>,
    groups: Seq<FilterGroup>,
)
    requires
        after.combinator == before.combinator,
        after.filters@ == before.filters@ + filters,
        after.groups@ == before.groups@ + groups,
    ensures
        after.shape() == (GroupShape {
            combinator: before.combinator,
            filters: before.shape().filters + filter_shapes(filters, filters.len()),
            groups: before.shape().groups + group_shapes(groups, groups.len()),
        }),
{
    lemma_filter_shapes_concat(before.filters@, filters);
    lemma_group_shapes_concat(before.groups@, groups);
}

/// A group to which one filter was added says what it said, with what the
/// filter says behind it.
pub proof fn lemma_pushed_shape(before: FilterGroup, after: FilterGroup, f: FilterType)
    requires
        after.combinator == before.combinator,
        after.filters@ == before.filters@.push(f),
        after.groups@ == before.groups@,
    ensures
        after.shape() == before.shape().with_filter(f.shape()),
{
    assert(after.filters@ =~= before.filters@ + seq![f]);
    assert(after.groups@ =~= before.groups@ + Seq::<FilterGroup>::empty());
    lemma_appended_shape(before, after, seq![f], Seq::empty());
    lemma_filter_shapes(seq![f], 1);
    assert(filter_shapes(seq![f], 1) =~= seq![f.shape()]);
    assert(before.shape().filters + seq![f.shape()] =~= before.shape().filters.push(f.shape()));
    assert(before.shape().groups + Seq::<GroupShape>::empty() =~= before.shape().groups);
}

/// What merging says: a group into which `child` is merged comes to say
/// what the merge of the shapes says.
pub proof fn lemma_merged_shape(parent: GroupShape, child: FilterGroup)
    ensures
        parent.merged(child.shape()) == (GroupShape {
            combinator: parent.combinator,
            filters: parent.filters + filter_shapes(
                FilterGroup::merged_filters(parent.combinator, child),
                FilterGroup::merged_filters(parent.combinator, child).len(),
            ),
            groups: parent.groups + group_shapes(
                FilterGroup::merged_groups(parent.combinator, child),
                FilterGroup::merged_groups(parent.combinator, child).len(),
            ),
        }),
    decreases child, 1nat, 0nat,
{
    let c = parent.combinator;
    let mf = FilterGroup::merged_filters(c, child);
    let mg = FilterGroup::merged_groups(c, child);
    let shape = child.shape();
    lemma_filter_shapes(child.filters@, child.filters@.len());
    lemma_group_shapes(child.groups@, child.groups@.len());
    let no_filters = Seq::<FilterShape>::empty();
    let no_groups = Seq::<GroupShape>::empty();
    if child.is_empty_spec() {
        assert(parent.filters + no_filters =~= parent.filters);
        assert(parent.groups + no_groups =~= parent.groups);
    } else if child.combinator == c {
        let n = child.groups@.len();
        let start = GroupShape { filters: parent.filters + shape.filters, ..parent };
        lemma_merged_first_shape(start, child, n);
        let rest = FilterGroup::merged_filters_of_first(c, child, n);
        lemma_filter_shapes_concat(child.filters@, rest);
        assert(parent.filters + (shape.filters + filter_shapes(rest, rest.len())) =~= (
        parent.filters + shape.filters) + filter_shapes(rest, rest.len()));
    } else if child.groups@.len() == 0 && child.filters@.len() == 1 {
        assert(parent.groups + no_groups =~= parent.groups);
    } else if child.filters@.len() == 0 && child.groups@.len() == 1 {
        lemma_merged_shape(parent, child.groups@[0]);
    } else {
        assert(mf =~= Seq::<FilterType>::empty());
        assert(parent.filters + no_filters =~= parent.filters);
        lemma_group_shapes(seq![child], 1);
        assert(group_shapes(seq![child], 1) =~= seq![shape]);
        assert(parent.groups + seq![shape] =~= parent.groups.push(shape));
    }
}

/// The same of the first `n` nested groups of `child`.
pub proof fn lemma_merged_first_shape(parent: GroupShape, child: FilterGroup, n: nat)
    ensures
        parent.merged_first(child.shape(), n) == (GroupShape {
            combinator: parent.combinator,
            filters: parent.filters + filter_shapes(
                FilterGroup::merged_filters_of_first(parent.combinator, child, n),
                FilterGroup::merged_filters_of_first(parent.combinator, child, n).len(),
            ),
            groups: parent.groups + group_shapes(
                FilterGroup::merged_groups_of_first(parent.combinator, child, n),
                FilterGroup::merged_groups_of_first(parent.combinator, child, n).len(),
            ),
        }),
    decreases child, 0nat, n,
{
    let c = parent.combinator;
    lemma_filter_shapes(child.filters@, child.filters@.len());
    lemma_group_shapes(child.groups@, child.groups@.len());
    if n == 0 || n > child.groups@.len() {
        assert(parent.filters + Seq::<FilterShape>::empty() =~= parent.filters);
        assert(parent.groups + Seq::<GroupShape>::empty() =~= parent.groups);
    } else {
        let m = (n - 1) as nat;
        let g = child.groups@[n - 1];
        let f0 = FilterGroup::merged_filters_of_first(c, child, m);
        let g0 = FilterGroup::merged_groups_of_first(c, child, m);
        let f1 = FilterGroup::merged_filters(c, g);
        let g1 = FilterGroup::merged_groups(c, g);
        lemma_merged_first_shape(parent, child, m);
        let mid = parent.merged_first(child.shape(), m);
        lemma_merged_shape(mid, g);
        lemma_filter_shapes_concat(f0, f1);
        lemma_group_shapes_concat(g0, g1);
        assert(parent.filters + (filter_shapes(f0, f0.len()) + filter_shapes(f1, f1.len())) =~= (
        parent.filters + filter_shapes(f0, f0.len())) + filter_shapes(f1, f1.len()));
        assert(parent.groups + (group_shapes(g0, g0.len()) + group_shapes(g1, g1.len())) =~= (
        parent.groups + group_shapes(g0, g0.len())) + group_shapes(g1, g1.len()));
    }
}

} // verus!
