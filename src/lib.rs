//! Expression evaluation core of an embedded scripting engine: the dynamic
//! value, the scope, the built-in operator table, function resolution with
//! its cache, and the evaluator that walks expressions.

pub mod ast;
pub mod bloom_filter;
pub mod builtin;
pub mod decimal;
pub mod dynamic;
pub mod engine;
pub mod error;
pub mod eval;
pub mod scope;
pub mod strings;

pub use bloom_filter::BloomFilterU64;
