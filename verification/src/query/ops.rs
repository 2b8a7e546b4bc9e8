use vstd::prelude::*;

verus! {

/// The connective that joins the children of a filter group.
#[derive(Debug, Copy, Clone, PartialEq, Eq, Structural)]
pub enum Combinator {
    And,
    Or,
}

impl Combinator {
    /// The SQL keyword of the connective.
    pub open spec fn keyword(self) -> Seq<char> {
        match self {
            Combinator::And => "AND"@,
            Combinator::Or => "OR"@,
        }
    }

    /// The SQL keyword of the connective.
    pub fn as_str(&self) -> (s: &'static str)
        ensures
            s@ == self.keyword(),
    {
        match self {
            Combinator::And => "AND",
            Combinator::Or => "OR",
        }
    }
}

/// The comparison that a value filter applies to its column.
#[derive(Debug, Copy, Clone, PartialEq, Eq, Structural)]
pub enum Operation {
    Eq,
    Neq,
    Lt,
    Gt,
    Lte,
    Gte,
    In,
    NotIn,
    IsNull,
    IsNotNull,
    Contains,
}

impl Operation {
    /// Whether the operation compares its column with a bound value.
    /// Only the two null tests bind none.
    pub open spec fn binds_value(self) -> bool {
        !(self is IsNull) && !(self is IsNotNull)
    }

    /// Whether the operation compares its column with a bound value.
    pub fn takes_value(&self) -> (b: bool)
        ensures
            b == self.binds_value(),
    {
        match self {
            Operation::IsNull => false,
            Operation::IsNotNull => false,
            _ => true,
        }
    }
}

} // verus!
