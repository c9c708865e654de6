//! Rewrites the keyword-style operators `AND`, `OR`, `EQ`, `NEQ`, `XOR` and
//! `NULL` of a C-family source text into `&&`, `||`, `==`, `!=`, `^` and
//! `nullptr`, leaving comments, quoted literals and raw string literals as
//! they are.

pub mod charclass;
pub mod encoding;
pub mod grammar;
pub mod laws;
pub mod scanner;
pub mod selection;
pub mod token;
pub mod transform;
