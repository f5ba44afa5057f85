//! A verified emulator for the LC-3 instructional computer: a 16-bit word
//! machine with eight general registers, a program counter, a condition-flag
//! register, 65536 words of memory (two cells of which are memory-mapped
//! keyboard registers), sixteen opcodes and six trap routines.
//!
//! The machine itself is pure: all input arrives as byte queues and all
//! output is appended to byte buffers, so every instruction's effect is
//! stated exactly in its contract. The host program performs the actual
//! terminal reads and writes around `VirtualMachine::cycle`.

pub mod cpu;
pub mod errors;
pub mod opcodes;
pub mod registers;
pub mod traps;
pub mod vm;

pub use errors::VmError;
pub use registers::Flag;
pub use registers::MMRegister;
pub use registers::Register;
pub use vm::VirtualMachine;
