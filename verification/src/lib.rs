//! The decision logic of a durable agent runtime.
pub mod agent;
pub mod checkpoint;
pub mod cli;
pub mod console;
pub mod context;
pub mod course;
pub mod delegation;
pub mod digest;
pub mod display;
pub mod engine;
pub mod goal;
pub mod host;
pub mod hostline;
pub mod identity;
pub mod isolation;
pub mod json;
pub mod laws;
pub mod model;
pub mod paths;
pub mod process;
pub mod ptc;
pub mod records;
pub mod restore;
pub mod rollback;
pub mod runtime;
pub mod session;
pub mod text;
pub mod turns;
