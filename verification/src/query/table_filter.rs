use vstd::prelude::*;
use crate::query::filter_group::FilterGroup;
use crate::query::ops::Combinator;

verus! {

/// The filter of one table: its name and the root group of its predicates.
#[derive(Debug)]
pub struct TableFilter<'f> {
    pub table: &'f str,
    pub filters: FilterGroup<'f>,
}

impl<'f> TableFilter<'f> {
    /// A filter on `table` that accepts every row: its root is an empty
    /// `And` group.
    pub fn new(table: &'f str) -> (r: Self)
        ensures
            r.table == table,
            r.filters.combinator == Combinator::And,
            r.filters.filters@.len() == 0,
            r.filters.groups@.len() == 0,
            r.wf(),
    {
        Self { table, filters: FilterGroup::new(Combinator::And) }
    }

    /// The root group joins by `And` and is well formed.
    pub open spec fn wf(&self) -> bool {
        self.filters.combinator == Combinator::And && self.filters.wf()
    }

    pub fn table_name(&self) -> (r: &'f str)
        ensures
            r == self.table,
    {
        self.table
    }

    pub fn filter_group(&self) -> (r: &FilterGroup<'f>)
        ensures
            *r == self.filters,
    {
        &self.filters
    }

    pub fn filter_group_mut(&mut self) -> (r: &mut FilterGroup<'f>)
        ensures
            *r == old(self).filters,
            final(self).table == old(self).table,
            final(self).filters == *final(r),
    {
        &mut self.filters
    }
}

} // verus!
