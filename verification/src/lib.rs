//! Writing SQL for the conflict targets of `ON CONFLICT` clauses and for
//! tuples of query fragments, and building tuples of values from the fields
//! of result rows.
//!
//! - `backend`: the database systems, and what of their SQL dialect the
//!   rendering depends on.
//! - `ast_pass`: the pass that walks a fragment, either rendering SQL text or
//!   recording whether the fragment writes anything; identifier quoting.
//! - `fragment`: the `QueryFragment` and `ColumnList` traits, columns and raw
//!   SQL literals.
//! - `tuples`: tuples of fragments (`Tuple` of any length with one element
//!   type, and Rust pairs and triples of any element types), written
//!   comma-separated, leaving out the elements that write nothing; the first
//!   error of an element ends the walk.
//! - `insert`: the values of an `INSERT` and their column list.
//! - `upsert`: `NoConflictTarget`, `ConflictTarget` and `OnConflictTarget`.
//! - `row`: building values and tuples of values from a row's fields, and
//!   the SQL types a row is read as.
pub mod ast_pass;
pub mod backend;
pub mod fragment;
pub mod insert;
pub mod row;
pub mod tuples;
pub mod upsert;
