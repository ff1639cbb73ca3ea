//! A versioned document store: documents and document sets whose versions form
//! a dependency graph, move from draft to publication under optimistic
//! concurrency control, and are guarded by per-version roles.
//!
//! The stores under [`repositories`] hold their rows in memory, each as an
//! arena with the queries and updates that the service needs. Every store has
//! a mathematical view of its rows and an invariant over that view; every
//! operation says, over the views, what it returns and how it changes its
//! store, and either takes effect whole or changes nothing.
//!
//! The use cases under [`handlers`] check what the acting user may do before
//! they turn to the stores. What is random or read from the clock enters
//! through [`ident`]; every operation that draws on it has a twin that takes
//! the identifiers and the time as arguments and whose outcome is exact.
//!
//! A version's token is renewed by every write that is applied: the new token
//! is the time of the write or, where the clock has not moved past the old
//! token, the microsecond after it, so that no two writers can both win with
//! one token, whatever the clock reads.
//!
//! [`laws`] proves what follows for sequences of operations: the shape of the
//! version graph, the uniqueness of names, who owns what, and who wins when
//! writers race.

pub mod auth;
pub mod config;
pub mod digest;
pub mod handlers;
pub mod ident;
pub mod laws;
pub mod models;
pub mod repositories;
