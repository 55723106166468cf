//! Statement planning for a PostgreSQL catalog server: identifier quoting,
//! endpoint-path parsing, parameter binding, and the SQL text sent for
//! catalog relations, catalog routines and single caller-supplied statements.

pub mod text;
pub mod json;
pub mod error;
pub mod identifier;
pub mod binding;
pub mod endpoint;
pub mod relation;
pub mod routine;
pub mod operation;
pub mod statement;
pub mod connection;
pub mod prompt_content;
pub mod prompts;
