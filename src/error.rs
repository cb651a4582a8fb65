//! The failures that cross the service boundary.
use vstd::prelude::*;

verus! {

/// A request that the registry turns down.
#[derive(Debug, Clone, Copy, PartialEq, Eq, Structural)]
pub enum RegistryError {
    /// The node identifier is empty or holds only whitespace.
    MissingNodeId,
    /// No node is registered under the identifier.
    NodeNotFound,
}

impl RegistryError {
    /// The HTTP status that reports this failure.
    pub fn status_code(&self) -> (r: u16)
        ensures
            *self == RegistryError::MissingNodeId ==> r == 400,
            *self == RegistryError::NodeNotFound ==> r == 404,
    {
        match self {
            RegistryError::MissingNodeId => 400,
            RegistryError::NodeNotFound => 404,
        }
    }

    /// The message that reports this failure to the caller.
    pub fn message(&self) -> (r: &'static str)
        ensures
            *self == RegistryError::MissingNodeId ==> r@ == "node_id is required"@,
            *self == RegistryError::NodeNotFound ==> r@ == "node not found"@,
    {
        match self {
            RegistryError::MissingNodeId => "node_id is required",
            RegistryError::NodeNotFound => "node not found",
        }
    }
}

} // verus!
