//! A SQL command line over gridded stores: how its arguments are read, how
//! scripts are cut into statements, what is done with each statement, and which
//! object store answers for a table's location.

pub mod args;
pub mod batch;
pub mod execution;
pub mod location;
pub mod registry;
pub mod repl;
pub mod script;
pub mod statement;
pub mod stats;
pub mod text;
