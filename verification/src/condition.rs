//! The small values of query conditions.

use vstd::prelude::*;

verus! {

/// The operator that joins the conditions of a query.
#[derive(Clone, Copy, Debug, PartialEq, Eq, Structural)]
pub enum Operator {
    And,
    Or,
}

/// A boolean value of a query on a preference.
#[derive(Clone, Copy, Debug, PartialEq, Eq, Structural)]
pub enum BoolValue {
    False,
    True,
}

} // verus!
