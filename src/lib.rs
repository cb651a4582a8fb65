//! A minimal service registry: nodes register themselves with a set of
//! capabilities and some opaque metadata, and others look a node up by its
//! identifier or search for the nodes that offer a set of capabilities.

pub mod text;
pub mod json;
pub mod record;
pub mod store;
pub mod error;
pub mod service;
pub mod capability;
pub mod laws;
