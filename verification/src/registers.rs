//! The register file's names: eight general registers, the program counter
//! and the condition-flag register, the three condition flags, and the two
//! memory-mapped keyboard cells.

use vstd::prelude::*;

verus! {

/// Number of slots in the register file: R0-R7, PC, COND.
pub const REG_COUNT: usize = 10;

/// A named slot of the register file. The file is stored as ten words;
/// `index` maps each name to its slot, so general registers can never
/// alias PC or COND by accident.
#[derive(Clone, Copy, Debug, PartialEq, Eq, Structural)]
pub enum Register {
    R0,
    R1,
    R2,
    R3,
    R4,
    R5,
    R6,
    R7,
    PC,
    COND,
}

impl Register {
    /// The slot this name denotes.
    pub open spec fn index_spec(self) -> int {
        match self {
            Register::R0 => 0,
            Register::R1 => 1,
            Register::R2 => 2,
            Register::R3 => 3,
            Register::R4 => 4,
            Register::R5 => 5,
            Register::R6 => 6,
            Register::R7 => 7,
            Register::PC => 8,
            Register::COND => 9,
        }
    }

    /// The slot this name denotes, for indexing the register file.
    pub fn index(self) -> (r: usize)
        ensures
            r == self.index_spec(),
            r < REG_COUNT,
    {
        match self {
            Register::R0 => 0,
            Register::R1 => 1,
            Register::R2 => 2,
            Register::R3 => 3,
            Register::R4 => 4,
            Register::R5 => 5,
            Register::R6 => 6,
            Register::R7 => 7,
            Register::PC => 8,
            Register::COND => 9,
        }
    }
}

/// The register file at power-on: every slot zero except PC, which starts
/// at the architectural load address 0x3000.
pub open spec fn initial_regs() -> Seq<u16> {
    seq![0u16, 0u16, 0u16, 0u16, 0u16, 0u16, 0u16, 0u16, 0x3000u16, 0u16]
}

/// A condition flag. The three values are distinct powers of two, but COND
/// always holds exactly one of them, never a combination.
#[derive(Clone, Copy, Debug, PartialEq, Eq, Structural)]
pub enum Flag {
    POS,
    ZERO,
    NEG,
}

impl Flag {
    /// The word this flag stores into COND.
    pub open spec fn value_spec(self) -> u16 {
        match self {
            Flag::POS => 1,
            Flag::ZERO => 2,
            Flag::NEG => 4,
        }
    }

    /// The word this flag stores into COND.
    pub fn value(self) -> (r: u16)
        ensures
            r == self.value_spec(),
    {
        match self {
            Flag::POS => 1,
            Flag::ZERO => 2,
            Flag::NEG => 4,
        }
    }
}

/// A memory-mapped keyboard register: KBSR is the status cell, KBDR the
/// data cell. Reading KBSR polls the host for one input byte before the
/// stored value is returned; every other address is plain storage.
#[derive(Clone, Copy, Debug, PartialEq, Eq, Structural)]
pub enum MMRegister {
    KBSR,
    KBDR,
}

impl MMRegister {
    /// The address this register occupies.
    pub open spec fn address_spec(self) -> u16 {
        match self {
            MMRegister::KBSR => 0xFE00,
            MMRegister::KBDR => 0xFE02,
        }
    }

    /// The address this register occupies.
    pub fn address(self) -> (r: u16)
        ensures
            r == self.address_spec(),
    {
        match self {
            MMRegister::KBSR => 0xFE00,
            MMRegister::KBDR => 0xFE02,
        }
    }
}

} // verus!
