//! A file-driven API request executor, verified.
//!
//! Request descriptors are interpolated against a variable scope, sent by
//! a client that lives outside this library, and the response is checked
//! against the declared assertions; values of the response are captured
//! into the scope for the requests that follow.
//!
//! The modules, leaves first: `text` and `strmap` hold the character-level
//! helpers and the name-to-text map; `json`, `path`, `template`, `parts`,
//! `checks` and `dynamic` hold documents, path queries, placeholders, texts
//! put together from parts, the checks of form and the fresh values;
//! `parser`, `http` and `config` hold descriptors, responses and
//! configuration; `runtime` holds interpolation, assertions, captures and
//! the steps of a run; `output` and `cli` hold reports and the computations
//! behind the commands.

pub mod checks;
pub mod cli;
pub mod config;
pub mod dynamic;
pub mod http;
pub mod json;
pub mod output;
pub mod parser;
pub mod parts;
pub mod path;
pub mod runtime;
pub mod strmap;
pub mod template;
pub mod text;
