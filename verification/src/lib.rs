//! A minimal runtime for compiled class binaries: a class-file decoder and a
//! single-frame bytecode interpreter.

pub mod jvm;
