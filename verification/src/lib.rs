//! A loader and bytecode interpreter for class files of a stack-oriented
//! virtual machine.
//!
//! The crate has two halves. The first decodes the binary class-file
//! container: big-endian primitives ([`bytes`]), field and method
//! descriptors ([`descriptors`]), access flags ([`flags`]), the raw class
//! structure with its constant pool ([`raw`], [`class_file`]) and the
//! attributes that are resolved against the pool on demand ([`resolved`]).
//! The second half is the machine itself: a heap of typed arrays ([`heap`]),
//! runtime values and frames ([`types`]), the instruction set ([`op_code`],
//! [`mnemonic`]) and the machine that ties them together ([`machine`]).
//! What holds of every run of the machine is collected in [`laws`].
//!
//! Every function states what it computes over a mathematical model of its
//! arguments, and the statements are machine-checked. IEEE-754 values are
//! carried as their bit patterns throughout; nothing in the machine computes
//! with them.

pub mod bytes;
pub mod class_file;
pub mod descriptors;
pub mod error;
pub mod flags;
pub mod heap;
pub mod laws;
pub mod machine;
pub mod mnemonic;
pub mod op_code;
pub mod raw;
pub mod resolved;
mod text;
pub mod types;
