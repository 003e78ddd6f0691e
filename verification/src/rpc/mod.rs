//! The typed RPC layer: argument types and values, and the entity
//! definitions that name them.

pub mod entitydefs;
pub mod typedefs;
pub mod xml;
