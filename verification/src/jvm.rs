//! The class-file decoder and the interpreter that runs what it decoded.

pub mod class;
pub mod interpreter;
