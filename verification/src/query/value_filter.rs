use vstd::prelude::*;
use crate::query::ops::Operation;
use crate::query::value::SqlValue;

verus! {

/// A comparison of one column of the current table with a bound value.
///
/// The two null tests carry a value as every filter does, and never bind it.
#[derive(Debug, Clone)]
pub struct ValueFilter<'f> {
    pub operation: Operation,
    pub column: &'f str,
    pub value: SqlValue<'f>,
}

impl<'f> ValueFilter<'f> {
    pub fn new(operation: Operation, column: &'f str, value: SqlValue<'f>) -> (r: Self)
        ensures
            r.operation == operation,
            r.column == column,
            r.value == value,
    {
        Self { operation, column, value }
    }

    pub fn operation(&self) -> (r: Operation)
        ensures
            r == self.operation,
    {
        self.operation
    }

    pub fn column(&self) -> (r: &'f str)
        ensures
            r == self.column,
    {
        self.column
    }

    pub fn value(&self) -> (r: SqlValue<'f>)
        ensures
            r == self.value,
    {
        self.value
    }
}

} // verus!
