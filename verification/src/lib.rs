//! The decisions of a traversal run: which diagnostics a run prints, what its
//! report holds, which files it handles and how it ends.

pub mod behaviour;
pub mod conclusion;
pub mod diagnostic;
pub mod execution;
pub mod finding;
pub mod handling;
pub mod laws;
pub mod markup;
pub mod message;
pub mod outcomes;
pub mod output;
pub mod processor;
pub mod report;
pub mod text;
