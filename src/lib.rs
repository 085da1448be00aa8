//! A small interactive shell: a quote-aware line tokenizer and an `ls`-style
//! directory listing engine, with contracts proved by Verus.
pub mod builtins;
pub mod cd;
pub mod cp;
pub mod ls;
pub mod order;
pub mod parsing;
pub mod paths;
pub mod shell;
pub mod text;
