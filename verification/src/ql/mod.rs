//! BlueQL: tokens, the lexer in its two modes, the parser state and the statement compiler.
//!
//! The grammar of statements, with `[..]` for what may be left out and `{..}` for what may
//! be repeated:
//!
//! ```text
//! statement := "use" entity
//!            | "create" "space" name [ "with" props ]
//!            | "create" "model" entity fields [ "with" props ]
//!            | "alter" "space" name "with" props
//!            | "alter" "model" entity ( "add" fields | "update" fields | "remove" names )
//!            | "drop" "space" name [ force ]
//!            | "drop" "model" entity [ force ]
//!            | inspect "space" name | inspect "model" entity | inspect spaces
//!            | "insert" "into" entity values
//!            | "select" ( "*" | name { "," name } ) "from" entity [ where ]
//!            | "update" entity "set" assignment { "," assignment } [ where ]
//!            | "delete" "from" entity [ where ]
//! entity    := name [ "." name ]
//! props     := "(" [ assignment { comma assignment } [ comma ] ] ")"
//! fields    := "(" [ name name { comma name name } [ comma ] ] ")"
//! names     := "(" [ name { comma name } [ comma ] ] ")"
//! values    := "(" [ value { comma value } [ comma ] ] ")"
//! where     := "where" condition { "and" condition }
//! assignment := name "=" value
//! condition := name ( "=" | "<" | ">" | "<=" | ">=" | "!=" ) value
//! comma     := "," | IgnorableComma
//! ```
//!
//! A `name` is an identifier. `force`, `inspect` and `spaces` are identifiers that spell
//! these words in any case. A `value` is a literal, or a placeholder where the values are
//! supplied apart from the query. `drop` and `inspect spaces` must be all there is; the
//! other statements leave the tokens after them alone.
pub mod ast;
pub mod ddl;
pub mod dml;
pub mod fuzz;
pub mod items;
pub mod lex;
