//! A two-stage toolchain that lowers stack-machine commands to 16-bit machine
//! words: a VM-to-assembly code generator and a two-pass assembler with
//! symbol resolution and bit-exact instruction encoding.
pub mod assembler;
pub mod code_writer;
pub mod hack;
pub mod laws;
pub mod machine;
pub mod parser;
pub mod text;

use vstd::prelude::*;

verus! {

} // verus!
