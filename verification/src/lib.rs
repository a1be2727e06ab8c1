//! Scalar expressions in Reverse Polish notation: a definition tree is turned into a list of
//! nodes, and the list is evaluated over a batch of columns with an argument stack.
pub mod batch;
pub mod builder;
pub mod data_type;
pub mod error;
pub mod eval;
pub mod expr;
pub mod field_type;
pub mod function;
pub mod laws;
pub mod node;
pub mod number;
pub mod stack;
pub mod tree;
