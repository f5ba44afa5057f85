//! The bare processor state: a block of addressable memory and the
//! ten-slot register file, with read access for inspection. The richer
//! `VirtualMachine` couples the same state with the execution engine.

use vstd::prelude::*;

use crate::opcodes::zero_words;
use crate::opcodes::MEM_SIZE;
use crate::registers::initial_regs;
use crate::registers::REG_COUNT;

verus! {

/// Memory and register file, freshly powered on by `new`.
pub struct Cpu {
    ram: Vec<u16>,
    regs: Vec<u16>,
}

impl Cpu {
    /// The memory contents.
    pub closed spec fn ram_spec(&self) -> Seq<u16> {
        self.ram@
    }

    /// The register file contents.
    pub closed spec fn regs_spec(&self) -> Seq<u16> {
        self.regs@
    }

    /// Memory holds one word per address and the register file one word
    /// per slot.
    pub open spec fn wf(&self) -> bool {
        self.ram_spec().len() == MEM_SIZE && self.regs_spec().len() == REG_COUNT
    }

    /// A powered-on processor: memory zeroed, registers zeroed except PC,
    /// which starts at the load address.
    pub fn new() -> (r: Cpu)
        ensures
            r.wf(),
            forall|i: int| 0 <= i < MEM_SIZE ==> r.ram_spec()[i] == 0,
            r.regs_spec() == initial_regs(),
    {
        let ram = zero_words(MEM_SIZE);
        let mut regs = zero_words(REG_COUNT);
        regs[8] = 0x3000;
        proof {
            assert(regs@ =~= initial_regs());
        }
        Cpu { ram, regs }
    }

    /// Read access to memory.
    pub fn ram(&self) -> (r: &Vec<u16>)
        ensures
            r@ == self.ram_spec(),
    {
        &self.ram
    }

    /// Read access to the register file.
    pub fn regs(&self) -> (r: &Vec<u16>)
        ensures
            r@ == self.regs_spec(),
    {
        &self.regs
    }
}

} // verus!
