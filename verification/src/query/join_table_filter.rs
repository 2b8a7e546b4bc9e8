use vstd::prelude::*;
use crate::query::table_filter::TableFilter;

verus! {

/// "A row of the child table exists that a row of the junction table links
/// to the current row", narrowed by the child table's own filter.
#[derive(Debug)]
pub struct JoinTableFilter<'f> {
    pub child_table_filter: TableFilter<'f>,
    pub join_table: &'f str,
    pub parent_table_join_col: &'f str,
    pub join_table_parent_col: &'f str,
    pub child_table_join_col: &'f str,
    pub join_table_child_col: &'f str,
}

impl<'f> JoinTableFilter<'f> {
    pub fn new(
        child_table_filter: TableFilter<'f>,
        join_table: &'f str,
        parent_table_join_col: &'f str,
        join_table_parent_col: &'f str,
        child_table_join_col: &'f str,
        join_table_child_col: &'f str,
    ) -> (r: Self)
        ensures
            r.child_table_filter == child_table_filter,
            r.join_table == join_table,
            r.parent_table_join_col == parent_table_join_col,
            r.join_table_parent_col == join_table_parent_col,
            r.child_table_join_col == child_table_join_col,
            r.join_table_child_col == join_table_child_col,
    {
        Self {
            child_table_filter,
            join_table,
            parent_table_join_col,
            join_table_parent_col,
            child_table_join_col,
            join_table_child_col,
        }
    }

    pub fn filter(&self) -> (r: &TableFilter<'f>)
        ensures
            *r == self.child_table_filter,
    {
        &self.child_table_filter
    }

    pub fn join_table(&self) -> (r: &'f str)
        ensures
            r == self.join_table,
    {
        self.join_table
    }

    pub fn parent_table_join_col(&self) -> (r: &'f str)
        ensures
            r == self.parent_table_join_col,
    {
        self.parent_table_join_col
    }

    pub fn join_table_parent_col(&self) -> (r: &'f str)
        ensures
            r == self.join_table_parent_col,
    {
        self.join_table_parent_col
    }

    pub fn child_table_join_col(&self) -> (r: &'f str)
        ensures
            r == self.child_table_join_col,
    {
        self.child_table_join_col
    }

    pub fn join_table_child_col(&self) -> (r: &'f str)
        ensures
            r == self.join_table_child_col,
    {
        self.join_table_child_col
    }
}

} // verus!
