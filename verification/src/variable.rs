//! Query-local identifiers.
//!
//! A `Variable` names a binding introduced by a query pattern; it is stable
//! across representation, annotation and execution and lives as long as the
//! query. A `ParameterID` names a literal or fetch key recorded in the
//! parameter table at translation time.

use vstd::prelude::*;

verus! {

/// An opaque identifier for a query-local binding.
#[derive(Clone, Copy, PartialEq, Eq, Structural, Hash, Debug)]
pub struct Variable {
    pub id: u16,
}

impl Variable {
    pub fn new(id: u16) -> (r: Variable)
        ensures
            r.id == id,
    {
        Variable { id }
    }
}

/// An identifier for an entry of the parameter table.
#[derive(Clone, Copy, PartialEq, Eq, Structural, Hash, Debug)]
pub struct ParameterID {
    pub id: u16,
}

impl ParameterID {
    pub fn new(id: u16) -> (r: ParameterID)
        ensures
            r.id == id,
    {
        ParameterID { id }
    }
}

} // verus!
