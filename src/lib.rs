//! Generators of numbered key/value byte pairs, and their concatenation, specified
//! over the sequence of pairs that each has yet to hand out; together with small
//! text-producing computations: a multiplication table, a trace of filtered squares,
//! and the flattening of a list of words.

pub mod concat;
pub mod decimal;
pub mod kv;
pub mod squares;
pub mod table;
pub mod words;
