//! BlueQL query processing and the SDSS v1 durable file format, verified with Verus.
//!
//! The crate has these parts:
//!
//! - [`tokenizer`]: the naive command-line tokenizer that splits an input line into
//!   query arguments;
//! - [`ql`]: the BlueQL lexer, the cursor-driven parser state and the statement compiler;
//! - [`storage`]: the SDSS header codec and the file driver built on an abstract raw file;
//! - [`data`]: literal values, shared by the lexer, the parser and the executor;
//! - [`error`]: the error kinds.
//!
//! Every type that holds bytes has a view, its mathematical value, and every function
//! says in its contract what it returns in terms of these values.
pub mod data;
pub mod error;
pub mod ql;
pub mod storage;
pub mod tokenizer;
