use vstd::prelude::*;
use vstd::std_specs::convert::FromSpecImpl;
use crate::query::join_column_filter::JoinColumnFilter;
use crate::query::join_table_filter::JoinTableFilter;
use crate::query::ops::Combinator;
use crate::query::value_filter::ValueFilter;

verus! {

/// One predicate of a filter group.
#[derive(Debug)]
pub enum FilterType<'f> {
    ValueFilter(ValueFilter<'f>),
    JoinColumnFilter(JoinColumnFilter<'f>),
    JoinTableFilter(JoinTableFilter<'f>),
}

impl<'f> FilterType<'f> {
    /// The root of every filter tree nested in the predicate joins by `And`,
    /// and the tree is well formed.
    pub open spec fn wf(&self) -> bool
        decreases self,
    {
        match self {
            FilterType::ValueFilter(_) => true,
            FilterType::JoinColumnFilter(j) => j.filter.filters.combinator == Combinator::And
                && j.filter.filters.wf(),
            FilterType::JoinTableFilter(j) => j.child_table_filter.filters.combinator
                == Combinator::And && j.child_table_filter.filters.wf(),
        }
    }
}

impl<'f> From<ValueFilter<'f>> for FilterType<'f> {
    fn from(value: ValueFilter<'f>) -> (r: Self) {
        FilterType::ValueFilter(value)
    }
}

impl<'f> FromSpecImpl<ValueFilter<'f>> for FilterType<'f> {
    open spec fn obeys_from_spec() -> bool {
        true
    }

    open spec fn from_spec(value: ValueFilter<'f>) -> Self {
        FilterType::ValueFilter(value)
    }
}

impl<'f> From<JoinColumnFilter<'f>> for FilterType<'f> {
    fn from(value: JoinColumnFilter<'f>) -> (r: Self) {
        FilterType::JoinColumnFilter(value)
    }
}

impl<'f> FromSpecImpl<JoinColumnFilter<'f>> for FilterType<'f> {
    open spec fn obeys_from_spec() -> bool {
        true
    }

    open spec fn from_spec(value: JoinColumnFilter<'f>) -> Self {
        FilterType::JoinColumnFilter(value)
    }
}

impl<'f> From<JoinTableFilter<'f>> for FilterType<'f> {
    fn from(value: JoinTableFilter<'f>) -> (r: Self) {
        FilterType::JoinTableFilter(value)
    }
}

impl<'f> FromSpecImpl<JoinTableFilter<'f>> for FilterType<'f> {
    open spec fn obeys_from_spec() -> bool {
        true
    }

    open spec fn from_spec(value: JoinTableFilter<'f>) -> Self {
        FilterType::JoinTableFilter(value)
    }
}

} // verus!
