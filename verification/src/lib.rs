//! Physical-projection execution core of a columnar query engine.
//!
//! Given a table and a set of expression trees, the library produces the
//! corresponding output columns: it partitions the work into independent and
//! window-cached groups, manages common-subexpression staging, restores the
//! declared projection order, and assembles the results into a table with
//! unique column names.
#![allow(unused_imports)]

pub mod arena;
pub mod assemble;
pub mod column;
pub mod error;
pub mod executor;
pub mod expr;
pub mod meta;
pub mod physical;
pub mod state;
pub mod walk;
pub mod window;
