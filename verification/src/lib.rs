//! The rules of a tool server: what its tools are called with, what they
//! answer, and how a configured program is invoked.

pub mod args;
pub mod config;
pub mod conformance;
pub mod invocation;
pub mod json;
pub mod lines;
pub mod matching;
pub mod output;
pub mod path;
pub mod schema;
pub mod server;
pub mod text;
pub mod tools;
