//! Byte-wise XOR obfuscation: a transform that combines a payload with a
//! cycled pad, a generator for random pad files, and the command-line
//! dispatch rules of the `mlxor` tool.

pub mod cli;
pub mod pad;
pub mod xor;
