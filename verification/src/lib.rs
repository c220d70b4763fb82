//! A workload generator for telemetry backends: a small language describes
//! services, their methods and the calls between them; each service is
//! compiled to bytecode and executed by a stack machine whose effects (log
//! lines, pauses, calls to other services) are handed to the host.
//!
//! The way of a program through the crate:
//!
//! - [`parser`] turns the text of a program into a syntax tree. The grammar
//!   is given as functions on the text ([`parser::grammar`]); the parser
//!   yields exactly what they say. A tree can be written back as text
//!   ([`parser::canonical`]), and parsing that text gives the tree again.
//! - [`code_gen`] lowers each service of the tree to a stream of
//!   instructions ([`code_gen::instruction`]).
//! - [`bytecode`] encodes a stream as an image of bytes with an index of its
//!   labels, and decodes an image again.
//! - [`vm`] executes an image, one instruction per step. The machine does
//!   no I/O: each step returns what the host has to do for it.
//! - [`vm_coordinator`] decides to which service a call between services
//!   goes.
//!
//! [`config`], [`code_gen::log_byte_code`], [`code_gen::service_byte_code`]
//! and [`log_runner`] serve an older, declarative input form. [`printer`]
//! describes instructions for listings, and [`text`] holds what all of them
//! need to work on text.
//!
//! Every function in this crate carries a contract that Verus proves. The
//! proofs rest on four facts about the standard library that are stated and
//! not proved, all in [`text`]: what `String::push` and `String::from_utf8`
//! do, and that formatting a text or a span of time with `{:?}` depends on
//! nothing but the value.

pub mod bytecode;
pub mod code_gen;
pub mod config;
pub mod log_runner;
pub mod parser;
pub mod printer;
pub mod text;
pub mod vm;
pub mod vm_coordinator;
