//! A byte viewer's core: ranges over a file, a bounded sequential reader,
//! and the text of a hex dump.

pub mod args;
pub mod command;
pub mod dump;
pub mod hex;
pub mod number;
pub mod query;
pub mod range;
pub mod reader;
pub mod text;
