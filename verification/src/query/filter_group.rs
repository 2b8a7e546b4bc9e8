use vstd::prelude::*;
use vstd::std_specs::convert::IntoSpec;
use crate::query::filter_type::FilterType;
use crate::query::ops::Combinator;
use crate::query::shape::lemma_appended_shape;
use crate::query::shape::lemma_merged_shape;
use crate::query::shape::lemma_pushed_shape;

verus! {

/// Predicates joined by one connective: first the direct filters, then the
/// nested groups, each in the order in which it was added.
#[derive(Debug)]
pub struct FilterGroup<'f> {
    pub combinator: Combinator,
    pub filters: Vec<FilterType<'f>>,
    pub groups: Vec<FilterGroup<'f>>,
}

impl<'f> FilterGroup<'f> {
    /// The group has neither a filter nor a nested group.
    pub open spec fn is_empty_spec(&self) -> bool {
        self.filters@.len() == 0 && self.groups@.len() == 0
    }

    /// The number of direct filters and nested groups together.
    pub open spec fn child_count(&self) -> nat {
        self.filters@.len() + self.groups@.len()
    }

    /// No nested group could have been merged into its parent: each differs
    /// from its parent in the connective and has at least two children; and
    /// the same holds inside every nested group and inside every filter.
    pub open spec fn wf(&self) -> bool
        decreases self,
    {
        &&& forall|i: int|
            0 <= i < self.filters@.len() ==> (#[trigger] self.filters@[i]).wf()
        &&& forall|j: int|
            0 <= j < self.groups@.len() ==> {
                &&& (#[trigger] self.groups@[j]).combinator != self.combinator
                &&& self.groups@[j].child_count() >= 2
                &&& self.groups@[j].wf()
            }
    }

    /// The filters that merging `child` appends to a group joined by
    /// `parent`.
    pub open spec fn merged_filters(parent: Combinator, child: FilterGroup<'f>) -> Seq<
        FilterType<'f>,
    >
        decreases child, 1nat, 0nat,
    {
        if child.is_empty_spec() {
            Seq::empty()
        } else if child.combinator == parent {
            child.filters@ + Self::merged_filters_of_first(parent, child, child.groups@.len())
        } else if child.groups@.len() == 0 && child.filters@.len() == 1 {
            child.filters@
        } else if child.filters@.len() == 0 && child.groups@.len() == 1 {
            Self::merged_filters(parent, child.groups@[0])
        } else {
            Seq::empty()
        }
    }

    /// The filters that merging the first `n` nested groups of `child`, one
    /// after the other, appends to a group joined by `parent`.
    pub open spec fn merged_filters_of_first(
        parent: Combinator,
        child: FilterGroup<'f>,
        n: nat,
    ) -> Seq<FilterType<'f>>
        decreases child, 0nat, n,
    {
        if n == 0 || n > child.groups@.len() {
            Seq::empty()
        } else {
            Self::merged_filters_of_first(parent, child, (n - 1) as nat) + Self::merged_filters(
                parent,
                child.groups@[n - 1],
            )
        }
    }

    /// The nested groups that merging `child` appends to a group joined by
    /// `parent`.
    pub open spec fn merged_groups(parent: Combinator, child: FilterGroup<'f>) -> Seq<
        FilterGroup<'f>,
    >
        decreases child, 1nat, 0nat,
    {
        if child.is_empty_spec() {
            Seq::empty()
        } else if child.combinator == parent {
            Self::merged_groups_of_first(parent, child, child.groups@.len())
        } else if child.groups@.len() == 0 && child.filters@.len() == 1 {
            Seq::empty()
        } else if child.filters@.len() == 0 && child.groups@.len() == 1 {
            Self::merged_groups(parent, child.groups@[0])
        } else {
            seq![child]
        }
    }

    /// The nested groups that merging the first `n` nested groups of
    /// `child`, one after the other, appends to a group joined by `parent`.
    pub open spec fn merged_groups_of_first(
        parent: Combinator,
        child: FilterGroup<'f>,
        n: nat,
    ) -> Seq<FilterGroup<'f>>
        decreases child, 0nat, n,
    {
        if n == 0 || n > child.groups@.len() {
            Seq::empty()
        } else {
            Self::merged_groups_of_first(parent, child, (n - 1) as nat) + Self::merged_groups(
                parent,
                child.groups@[n - 1],
            )
        }
    }

    /// Filters and groups of which each could stand in a well-formed group
    /// joined by `parent`.
    pub open spec fn fit_under(
        parent: Combinator,
        filters: Seq<FilterType<'f>>,
        groups: Seq<FilterGroup<'f>>,
    ) -> bool {
        &&& forall|i: int| 0 <= i < filters.len() ==> (#[trigger] filters[i]).wf()
        &&& forall|j: int|
            0 <= j < groups.len() ==> {
                &&& (#[trigger] groups[j]).combinator != parent
                &&& groups[j].child_count() >= 2
                &&& groups[j].wf()
            }
    }

    /// What a merge of a well-formed group appends is well formed, and each
    /// group that it appends differs from the parent in the connective and
    /// has at least two children.
    pub proof fn lemma_merge_keeps_wf(parent: Combinator, child: FilterGroup<'f>)
        requires
            child.wf(),
        ensures
            Self::fit_under(
                parent,
                Self::merged_filters(parent, child),
                Self::merged_groups(parent, child),
            ),
        decreases child, 1nat, 0nat,
    {
        if child.is_empty_spec() {
        } else if child.combinator == parent {
            let n = child.groups@.len();
            Self::lemma_merge_of_first_keeps_wf(parent, child, n);
            let rest = Self::merged_filters_of_first(parent, child, n);
            assert forall|i: int| 0 <= i < (child.filters@ + rest).len() implies (#[trigger] (
            child.filters@ + rest)[i]).wf() by {
                if i < child.filters@.len() {
                    assert((child.filters@ + rest)[i] == child.filters@[i]);
                } else {
                    assert((child.filters@ + rest)[i] == rest[i - child.filters@.len()]);
                }
            }
        } else if child.groups@.len() == 0 && child.filters@.len() == 1 {
        } else if child.filters@.len() == 0 && child.groups@.len() == 1 {
            assert(child.groups@[0].wf());
            Self::lemma_merge_keeps_wf(parent, child.groups@[0]);
        } else {
            assert(parent != child.combinator);
            assert(child.child_count() >= 2);
        }
    }

    /// The same of what merging the first `n` nested groups appends.
    pub proof fn lemma_merge_of_first_keeps_wf(parent: Combinator, child: FilterGroup<'f>, n: nat)
        requires
            child.wf(),
        ensures
            Self::fit_under(
                parent,
                Self::merged_filters_of_first(parent, child, n),
                Self::merged_groups_of_first(parent, child, n),
            ),
        decreases child, 0nat, n,
    {
        if n == 0 || n > child.groups@.len() {
        } else {
            Self::lemma_merge_of_first_keeps_wf(parent, child, (n - 1) as nat);
            assert(child.groups@[n - 1].wf());
            Self::lemma_merge_keeps_wf(parent, child.groups@[n - 1]);
            let f0 = Self::merged_filters_of_first(parent, child, (n - 1) as nat);
            let f1 = Self::merged_filters(parent, child.groups@[n - 1]);
            let g0 = Self::merged_groups_of_first(parent, child, (n - 1) as nat);
            let g1 = Self::merged_groups(parent, child.groups@[n - 1]);
            assert forall|i: int| 0 <= i < (f0 + f1).len() implies (#[trigger] (f0 + f1)[i]).wf() by {
                if i < f0.len() {
                    assert((f0 + f1)[i] == f0[i]);
                } else {
                    assert((f0 + f1)[i] == f1[i - f0.len()]);
                }
            }
            assert forall|j: int| 0 <= j < (g0 + g1).len() implies {
                &&& (#[trigger] (g0 + g1)[j]).combinator != parent
                &&& (g0 + g1)[j].child_count() >= 2
                &&& (g0 + g1)[j].wf()
            } by {
                if j < g0.len() {
                    assert((g0 + g1)[j] == g0[j]);
                } else {
                    assert((g0 + g1)[j] == g1[j - g0.len()]);
                }
            }
        }
    }

    /// A well-formed group stays well formed when filters and groups that
    /// fit under its connective are appended.
    pub proof fn lemma_appended_wf(
        before: FilterGroup<'f>,
        after: FilterGroup<'f>,
        filters: Seq<FilterType<'f>>,
        groups: Seq<FilterGroup<'f>>,
    )
        requires
            before.wf(),
            Self::fit_under(before.combinator, filters, groups),
            after.combinator == before.combinator,
            after.filters@ == before.filters@ + filters,
            after.groups@ == before.groups@ + groups,
        ensures
            after.wf(),
    {
        assert forall|i: int| 0 <= i < after.filters@.len() implies (
        #[trigger] after.filters@[i]).wf() by {
            if i < before.filters@.len() {
                assert(after.filters@[i] == before.filters@[i]);
            } else {
                assert(after.filters@[i] == filters[i - before.filters@.len()]);
            }
        }
        assert forall|j: int| 0 <= j < after.groups@.len() implies {
            &&& (#[trigger] after.groups@[j]).combinator != after.combinator
            &&& after.groups@[j].child_count() >= 2
            &&& after.groups@[j].wf()
        } by {
            if j < before.groups@.len() {
                assert(after.groups@[j] == before.groups@[j]);
            } else {
                assert(after.groups@[j] == groups[j - before.groups@.len()]);
            }
        }
    }

    /// No merge nests a group under a parent of the same connective,
    /// whatever the merged group holds.
    pub proof fn law_merge_never_nests_same_connective(
        parent: Combinator,
        child: FilterGroup<'f>,
    )
        ensures
            forall|j: int|
                0 <= j < Self::merged_groups(parent, child).len() ==> (
                #[trigger] Self::merged_groups(parent, child)[j]).combinator != parent,
        decreases child, 1nat, 0nat,
    {
        if child.is_empty_spec() {
        } else if child.combinator == parent {
            Self::lemma_first_never_nests_same_connective(parent, child, child.groups@.len());
        } else if child.groups@.len() == 0 && child.filters@.len() == 1 {
        } else if child.filters@.len() == 0 && child.groups@.len() == 1 {
            Self::law_merge_never_nests_same_connective(parent, child.groups@[0]);
        } else {
        }
    }

    /// The same of what merging the first `n` nested groups appends.
    pub proof fn lemma_first_never_nests_same_connective(
        parent: Combinator,
        child: FilterGroup<'f>,
        n: nat,
    )
        ensures
            forall|j: int|
                0 <= j < Self::merged_groups_of_first(parent, child, n).len() ==> (
                #[trigger] Self::merged_groups_of_first(parent, child, n)[j]).combinator
                    != parent,
        decreases child, 0nat, n,
    {
        if n == 0 || n > child.groups@.len() {
        } else {
            Self::lemma_first_never_nests_same_connective(parent, child, (n - 1) as nat);
            Self::law_merge_never_nests_same_connective(parent, child.groups@[n - 1]);
        }
    }

    /// Merging a group that holds filters only, under a parent of its own
    /// connective, appends exactly its filters and no group: two flat groups
    /// merged into such a parent, in either order, leave one flat group.
    pub proof fn law_flat_merge(parent: Combinator, child: FilterGroup<'f>)
        requires
            child.combinator == parent,
            child.groups@.len() == 0,
        ensures
            Self::merged_filters(parent, child) == child.filters@,
            Self::merged_groups(parent, child) == Seq::<FilterGroup<'f>>::empty(),
    {
        assert(Self::merged_filters_of_first(parent, child, 0) =~= Seq::empty());
        assert(Self::merged_groups_of_first(parent, child, 0) =~= Seq::empty());
        assert(Self::merged_filters(parent, child) =~= child.filters@);
    }

    /// Merging a group that holds one filter and nothing else appends that
    /// filter and no group, whatever the two connectives are: it is the
    /// same as adding the filter itself.
    pub proof fn law_singleton_merge(parent: Combinator, child: FilterGroup<'f>)
        requires
            child.filters@.len() == 1,
            child.groups@.len() == 0,
        ensures
            Self::merged_filters(parent, child) == seq![child.filters@[0]],
            Self::merged_groups(parent, child) == Seq::<FilterGroup<'f>>::empty(),
    {
        assert(Self::merged_filters_of_first(parent, child, 0) =~= Seq::empty());
        assert(Self::merged_groups_of_first(parent, child, 0) =~= Seq::empty());
        assert(Self::merged_filters(parent, child) =~= seq![child.filters@[0]]);
    }

    /// Two groups of one filter each, merged one after the other into a
    /// group that holds `filters` and `groups`, leave what adding the two
    /// filters one after the other leaves.
    pub proof fn law_merge_of_two_singletons(
        parent: Combinator,
        filters: Seq<FilterType<'f>>,
        groups: Seq<FilterGroup<'f>>,
        first: FilterGroup<'f>,
        second: FilterGroup<'f>,
    )
        requires
            first.filters@.len() == 1,
            first.groups@.len() == 0,
            second.filters@.len() == 1,
            second.groups@.len() == 0,
        ensures
            filters + Self::merged_filters(parent, first) + Self::merged_filters(parent, second)
                == filters.push(first.filters@[0]).push(second.filters@[0]),
            groups + Self::merged_groups(parent, first) + Self::merged_groups(parent, second)
                == groups,
    {
        Self::law_singleton_merge(parent, first);
        Self::law_singleton_merge(parent, second);
        assert(filters + seq![first.filters@[0]] + seq![second.filters@[0]] =~= filters.push(
            first.filters@[0],
        ).push(second.filters@[0]));
        assert(groups + Seq::<FilterGroup<'f>>::empty() + Seq::<FilterGroup<'f>>::empty()
            =~= groups);
    }

    /// An empty group joined by `combinator`.
    pub fn new(combinator: Combinator) -> (r: Self)
        ensures
            r.combinator == combinator,
            r.filters@.len() == 0,
            r.groups@.len() == 0,
            r.wf(),
    {
        Self { combinator, filters: Vec::new(), groups: Vec::new() }
    }

    pub fn is_empty(&self) -> (r: bool)
        ensures
            r == self.is_empty_spec(),
    {
        self.filters.len() == 0 && self.groups.len() == 0
    }

    /// Appends one predicate. Nothing is merged.
    pub fn add_filter<T: Into<FilterType<'f>>>(&mut self, filter: T)
        ensures
            final(self).combinator == old(self).combinator,
            final(self).groups == old(self).groups,
            final(self).filters@.len() == old(self).filters@.len() + 1,
            final(self).filters@.take(old(self).filters@.len() as int) == old(self).filters@,
            T::obeys_into_spec() ==> final(self).filters@ == old(self).filters@.push(
                filter.into_spec(),
            ),
            T::obeys_into_spec() ==> final(self).shape() == old(self).shape().with_filter(
                filter.into_spec().shape(),
            ),
            old(self).wf() && final(self).filters@.last().wf() ==> final(self).wf(),
    {
        let f: FilterType<'f> = filter.into();
        self.filters.push(f);
        assert(self.filters@.take(old(self).filters@.len() as int) =~= old(self).filters@);
        proof {
            lemma_pushed_shape(*old(self), *self, f);
        }
    }

    /// Merges `group` into this group, so that no redundant nesting arises.
    /// The first rule that fits is applied:
    /// an empty group is dropped;
    /// one with this group's connective gives its filters to this group, and
    /// each of its nested groups is merged in turn;
    /// one that holds a single filter and nothing else gives that filter;
    /// one that holds a single nested group and nothing else has that group
    /// merged in its place;
    /// any other becomes a nested group.
    pub fn add_group(&mut self, group: FilterGroup<'f>)
        ensures
            final(self).combinator == old(self).combinator,
            final(self).filters@ == old(self).filters@ + Self::merged_filters(
                old(self).combinator,
                group,
            ),
            final(self).groups@ == old(self).groups@ + Self::merged_groups(
                old(self).combinator,
                group,
            ),
            final(self).shape() == old(self).shape().merged(group.shape()),
            old(self).wf() && group.wf() ==> final(self).wf(),
        decreases group,
    {
        let ghost parent = self.combinator;
        if group.is_empty() {
            assert(self.filters@ =~= old(self).filters@ + Seq::empty());
            assert(self.groups@ =~= old(self).groups@ + Seq::empty());
        } else if self.combinator == group.combinator {
            let FilterGroup { combinator: _, filters: mut moved, groups: nested } = group;
            self.filters.append(&mut moved);
            for g in it: nested
                invariant
                    self.combinator == parent,
                    it.seq() == group.groups@,
                    self.filters@ == old(self).filters@ + (group.filters@
                        + Self::merged_filters_of_first(parent, group, it.index() as nat)),
                    self.groups@ == old(self).groups@ + Self::merged_groups_of_first(
                        parent,
                        group,
                        it.index() as nat,
                    ),
            {
                assert(g == group.groups@[it.index()]);
                self.add_group(g);
            }
        } else if group.groups.len() == 0 && group.filters.len() == 1 {
            let FilterGroup { combinator: _, filters: mut moved, groups: _ } = group;
            self.filters.append(&mut moved);
        } else if group.filters.len() == 0 && group.groups.len() == 1 {
            let FilterGroup { combinator: _, filters: _, groups: mut nested } = group;
            let only = nested.pop();
            match only {
                Some(g) => {
                    self.add_group(g);
                },
                None => {},
            }
        } else {
            self.groups.push(group);
        }
        proof {
            assert(self.filters@ =~= old(self).filters@ + Self::merged_filters(parent, group));
            assert(self.groups@ =~= old(self).groups@ + Self::merged_groups(parent, group));
            lemma_merged_shape(old(self).shape(), group);
            lemma_appended_shape(
                *old(self),
                *self,
                Self::merged_filters(parent, group),
                Self::merged_groups(parent, group),
            );
            if old(self).wf() && group.wf() {
                Self::lemma_merge_keeps_wf(parent, group);
                Self::lemma_appended_wf(
                    *old(self),
                    *self,
                    Self::merged_filters(parent, group),
                    Self::merged_groups(parent, group),
                );
            }
        }
    }

    pub fn filters(&self) -> (r: &[FilterType<'f>])
        ensures
            r@ == self.filters@,
    {
        self.filters.as_slice()
    }

    pub fn groups(&self) -> (r: &[FilterGroup<'f>])
        ensures
            r@ == self.groups@,
    {
        self.groups.as_slice()
    }

    pub fn combinator(&self) -> (r: Combinator)
        ensures
            r == self.combinator,
    {
        self.combinator
    }
}

} // verus!
