use vstd::prelude::*;

verus! {

/// A value that a statement binds to a placeholder. It borrows what it
/// holds from the request that it was built from.
#[derive(Debug, Clone, Copy, PartialEq)]
pub enum SqlValue<'f> {
    Null,
    Bool(bool),
    SmallInt(i16),
    Int(i32),
    BigInt(i64),
    Text(&'f str),
    IntList(&'f [i32]),
    TextList(&'f [String]),
}

} // verus!
