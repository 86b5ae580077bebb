//! Extraction of code fragments from binary data: a scanner for runs of
//! printable code units, and grammar-based detectors that keep the runs
//! holding well-formed code.
pub mod bash;
pub mod error;
pub mod parser;
pub mod php;
pub mod python;
pub mod sql;
pub mod strings;
pub mod tree;
pub mod visitor;
