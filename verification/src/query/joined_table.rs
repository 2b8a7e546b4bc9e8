use vstd::prelude::*;
use crate::query::value::SqlValue;

verus! {

/// The junction table through which a query enters its data table: the
/// data table is joined to it, and its filter column is bound to one value.
#[derive(Debug, Clone, Copy)]
pub struct JoinedTable<'f> {
    pub join_table: &'f str,
    pub join_table_join_col: &'f str,
    pub data_table_join_col: &'f str,
    pub join_table_filter_col: &'f str,
    pub join_table_filter_col_val: SqlValue<'f>,
}

} // verus!
