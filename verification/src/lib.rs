//! Front end of a Sass compiler: CSS identifier scanning over a two-cursor
//! token buffer, and the SassScript introspection builtins over a small
//! dynamically typed value model.

pub mod chars;
pub mod span;
pub mod error;
pub mod lexer;
pub mod scan;
pub mod value;
pub mod table;
pub mod args;
pub mod scope;
pub mod meta;
