//! Middle and back end of the Oxide compiler: the static type system, the
//! rewritable syntax sequence used while parsing, and the lowering of IR
//! operators into a bytecode image for the Rusty VM.

pub mod data_types;
pub mod token_tree;
pub mod byte_code;
pub mod ir;
pub mod bytecode_generator;
