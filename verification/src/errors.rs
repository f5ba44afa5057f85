//! The faults that stop the machine. There is no recoverable tier: every
//! fault ends the run with a diagnostic.

use vstd::prelude::*;

verus! {

/// A fatal machine fault. Each variant names the condition that raised it;
/// `message` gives the diagnostic text.
#[derive(Clone, Copy, Debug, PartialEq, Eq, Structural)]
pub enum VmError {
    /// A string trap (PUTS or PUTSP) ran past the end of memory without
    /// finding its terminator.
    Unexpected,
    /// The fetched instruction decoded to RTI or RES, which are
    /// architecturally reserved and deliberately unsupported.
    UnsupportedOpcode,
    /// A TRAP instruction named a vector outside the six service routines.
    UnknownTrap,
    /// A character trap needed an input byte and the host had none left.
    InputUnavailable,
    /// A program image ended in the middle of a 16-bit word, or held no
    /// origin word at all.
    TruncatedImage,
    /// Incrementing the program counter would reference an address outside
    /// addressable memory.
    PcOutOfRange,
}

impl VmError {
    /// The diagnostic text for this fault.
    pub fn message(&self) -> (r: &'static str)
        ensures
            r@ == self.message_spec(),
    {
        proof {
            reveal_strlit("Unexpected error");
            reveal_strlit("unsupported opcode");
            reveal_strlit("unknown trap vector");
            reveal_strlit("no input available");
            reveal_strlit("truncated program image");
            reveal_strlit("program counter out of range");
        }
        match self {
            VmError::Unexpected => "Unexpected error",
            VmError::UnsupportedOpcode => "unsupported opcode",
            VmError::UnknownTrap => "unknown trap vector",
            VmError::InputUnavailable => "no input available",
            VmError::TruncatedImage => "truncated program image",
            VmError::PcOutOfRange => "program counter out of range",
        }
    }

    /// The diagnostic text, as a sequence of characters.
    pub open spec fn message_spec(&self) -> Seq<char> {
        match self {
            VmError::Unexpected => "Unexpected error"@,
            VmError::UnsupportedOpcode => "unsupported opcode"@,
            VmError::UnknownTrap => "unknown trap vector"@,
            VmError::InputUnavailable => "no input available"@,
            VmError::TruncatedImage => "truncated program image"@,
            VmError::PcOutOfRange => "program counter out of range"@,
        }
    }
}

} // verus!
