//! What the operations are for.
//!
//! Each law speaks of calls: of what a function is given and what it may give back, field by
//! field, and of the calls that it makes in turn. None of them leans on how the contracts are
//! written.

pub mod answers;
pub mod boxes;
pub mod catalogs;
pub mod consumers;
pub mod formats;
pub mod messages;
pub mod publishing;
pub mod resources;
pub mod sinks;
pub mod sources;
pub mod tasks;
pub mod tools;
