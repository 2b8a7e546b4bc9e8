use vstd::prelude::*;
use crate::query::table_filter::TableFilter;

verus! {

/// "A row of the child table exists whose child column equals the parent
/// column of the current row", narrowed by the child table's own filter.
#[derive(Debug)]
pub struct JoinColumnFilter<'f> {
    pub filter: TableFilter<'f>,
    pub parent_column: &'f str,
    pub child_column: &'f str,
}

impl<'f> JoinColumnFilter<'f> {
    pub fn new(filter: TableFilter<'f>, parent_column: &'f str, child_column: &'f str) -> (r: Self)
        ensures
            r.filter == filter,
            r.parent_column == parent_column,
            r.child_column == child_column,
    {
        Self { filter, parent_column, child_column }
    }

    pub fn parent_column(&self) -> (r: &'f str)
        ensures
            r == self.parent_column,
    {
        self.parent_column
    }

    pub fn child_column(&self) -> (r: &'f str)
        ensures
            r == self.child_column,
    {
        self.child_column
    }

    pub fn filter(&self) -> (r: &TableFilter<'f>)
        ensures
            *r == self.filter,
    {
        &self.filter
    }
}

} // verus!
