//! The use cases of the service. Each takes the identity of the acting user
//! as resolved by the caller, checks what the user may do, and then works on
//! the stores; what it refuses, it refuses before anything has changed.

pub mod comments;
pub mod documents;
pub mod permission;
pub mod sets;
pub mod states;
pub mod versions;
