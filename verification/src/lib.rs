//! An emulator for a small machine with a fixed 64-bit instruction word and a
//! flat memory that several cores share over a bus.
//!
//! - [`utils`]: registers, opcodes, instructions, the instruction builder and
//!   the messages of the two buses.
//! - [`codec`]: the word of an instruction and the instruction of a word.
//! - [`text`] and [`parser`]: the assembler that reads mnemonics.
//! - [`registers`]: the register file, the flags and the arithmetic.
//! - [`pipeline`]: the instruction window of a core.
//! - [`cpu`]: the core with its execution step, and the package that routes
//!   the messages of its cores to memory and back.
//! - [`identity`]: the identity by which the package tells its cores apart.
//!
//! Nothing in the library waits or does input or output. A core that needs an
//! answer from memory says so and is stepped again later; whoever runs the
//! machine carries the messages between the package and the memory.

pub mod codec;
pub mod cpu;
pub mod identity;
pub mod parser;
pub mod pipeline;
pub mod registers;
pub mod text;
pub mod utils;
