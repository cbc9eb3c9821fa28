//! Translation stage of a small compiler: turns a program tree into an
//! in-memory code-generator module, with glue stubs for runtime upcalls.

pub mod abi;
pub mod ast;
pub mod backend;
pub mod laws;
pub mod model;
pub mod session;
pub mod trans;
