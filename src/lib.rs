//! Filter-and-project queries over a stream of structured records.
//!
//! The library holds the value model, the expression compiler and
//! evaluator, the query binder, record normalisation and the decisions of
//! the streaming loop. Numeric arithmetic and ordering are floating-point
//! operations; the evaluator receives them from its caller as a function.

pub mod value;
pub mod expr;
pub mod query;
pub mod record;
pub mod stream;
pub mod config;
