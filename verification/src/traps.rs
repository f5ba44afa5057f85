//! The six trap service routines, invoked by the TRAP opcode.
//!
//! Character input comes from a pending-input byte queue and output is
//! appended to a byte buffer; the host moves bytes between the terminal
//! and those queues. Each routine completes fully before the next cycle.

use vstd::prelude::*;

use crate::errors::VmError;
use crate::opcodes::MEM_SIZE;
use crate::registers::REG_COUNT;

verus! {

/// A trap vector: the low byte of a TRAP instruction, selecting one of the
/// six service routines. Any other vector is a fatal fault.
#[derive(Clone, Copy, Debug, PartialEq, Eq, Structural)]
pub enum TrapVector {
    GETC,   // 0x20 | get character from keyboard, not echoed onto terminal
    OUT,    // 0x21 | output a character
    PUTS,   // 0x22 | output word string
    IN,     // 0x23 | get character from keyboard, echoed onto terminal
    PUTSP,  // 0x24 | output byte string
    HALT,   // 0x25 | halt processor
}

impl TrapVector {
    /// The routine a vector selects, or the fault for a vector outside the
    /// service set.
    pub open spec fn from_u16_spec(value: u16) -> Result<TrapVector, VmError> {
        if value == 0x20 {
            Ok(TrapVector::GETC)
        } else if value == 0x21 {
            Ok(TrapVector::OUT)
        } else if value == 0x22 {
            Ok(TrapVector::PUTS)
        } else if value == 0x23 {
            Ok(TrapVector::IN)
        } else if value == 0x24 {
            Ok(TrapVector::PUTSP)
        } else if value == 0x25 {
            Ok(TrapVector::HALT)
        } else {
            Err(VmError::UnknownTrap)
        }
    }

    /// Decode a trap vector; a vector outside 0x20..=0x25 is reported as
    /// an unknown-trap fault, never silently skipped.
    pub fn from_u16(value: u16) -> (r: Result<TrapVector, VmError>)
        ensures
            r == TrapVector::from_u16_spec(value),
    {
        match value {
            0x20 => Ok(TrapVector::GETC),
            0x21 => Ok(TrapVector::OUT),
            0x22 => Ok(TrapVector::PUTS),
            0x23 => Ok(TrapVector::IN),
            0x24 => Ok(TrapVector::PUTSP),
            0x25 => Ok(TrapVector::HALT),
            _ => Err(VmError::UnknownTrap),
        }
    }
}

/// GETC: read one input byte without echo; R0 = the byte, zero-extended.
/// An empty queue means the host's input is gone: a fatal fault.
pub fn trap_getc(regs: &mut Vec<u16>, input: &mut Vec<u8>) -> (r: Result<(), VmError>)
    requires
        old(regs).len() == REG_COUNT,
    ensures
        r == (if old(input)@.len() > 0 {
            Result::<(), VmError>::Ok(())
        } else {
            Result::<(), VmError>::Err(VmError::InputUnavailable)
        }),
        old(input)@.len() > 0 ==> final(regs)@ == old(regs)@.update(0, old(input)@[0] as u16)
            && final(input)@ == old(input)@.remove(0),
        old(input)@.len() == 0 ==> final(regs)@ == old(regs)@ && final(input)@ == old(input)@,
{
    if input.len() == 0 {
        return Err(VmError::InputUnavailable);
    }
    let b = input.remove(0);
    regs[0] = b as u16;
    Ok(())
}

/// OUT: emit the low 8 bits of R0.
pub fn trap_out(regs: &Vec<u16>, out: &mut Vec<u8>)
    requires
        regs.len() == REG_COUNT,
    ensures
        final(out)@ == old(out)@.push((regs@[0] & 0xFF) as u8),
{
    let w = regs[0];
    proof {
        assert(w & 0xFF < 0x100) by (bit_vector);
    }
    out.push((w & 0xFF) as u8);
}

/// The bytes PUTS emits from `i` on: the low byte of each cell up to, and
/// not including, the first zero-valued cell.
pub open spec fn puts_output(mem: Seq<u16>, i: int) -> Seq<u8>
    recommends
        mem.len() == MEM_SIZE,
    decreases MEM_SIZE - i,
{
    if i < 0 || i >= MEM_SIZE {
        Seq::empty()
    } else if mem[i] == 0 {
        Seq::empty()
    } else {
        seq![(mem[i] & 0xFF) as u8] + puts_output(mem, i + 1)
    }
}

/// Whether a PUTS string starting at `start` has its zero terminator
/// before the end of memory.
pub open spec fn puts_terminated(mem: Seq<u16>, start: int) -> bool {
    exists|i: int| start <= i < MEM_SIZE && mem[i] == 0
}

/// PUTS: R0 points at a string of one character per cell; emit each low
/// byte until a zero-valued cell. Running past the end of memory without
/// a terminator is the fatal fault the unchecked walk would have hit.
pub fn trap_puts(r0: u16, mem: &Vec<u16>, out: &mut Vec<u8>) -> (r: Result<(), VmError>)
    requires
        mem.len() == MEM_SIZE,
    ensures
        final(out)@ == old(out)@ + puts_output(mem@, r0 as int),
        r == (if puts_terminated(mem@, r0 as int) {
            Result::<(), VmError>::Ok(())
        } else {
            Result::<(), VmError>::Err(VmError::Unexpected)
        }),
{
    let ghost out0 = out@;
    let mut idx: usize = r0 as usize;
    loop
        invariant
            mem.len() == MEM_SIZE,
            r0 as int <= idx <= MEM_SIZE,
            out0 == old(out)@,
            out0 + puts_output(mem@, r0 as int) == out@ + puts_output(mem@, idx as int),
            forall|j: int| r0 as int <= j < idx as int ==> mem@[j] != 0,
        decreases MEM_SIZE - idx,
    {
        if idx == MEM_SIZE {
            proof {
                assert(out@ + puts_output(mem@, idx as int) =~= out@);
            }
            return Err(VmError::Unexpected);
        }
        let word = mem[idx];
        if word == 0 {
            proof {
                assert(out@ + puts_output(mem@, idx as int) =~= out@);
            }
            return Ok(());
        }
        proof {
            assert(word & 0xFF < 0x100) by (bit_vector);
            assert(out@ + (seq![(word & 0xFF) as u8] + puts_output(mem@, idx + 1)) =~= (out@
                + seq![(word & 0xFF) as u8]) + puts_output(mem@, idx + 1));
            assert(out@.push((word & 0xFF) as u8) =~= out@ + seq![(word & 0xFF) as u8]);
        }
        out.push((word & 0xFF) as u8);
        idx = idx + 1;
    }
}

/// The prompt IN shows before reading: "Enter a character: ".
pub open spec fn in_prompt() -> Seq<u8> {
    seq![69u8, 110u8, 116u8, 101u8, 114u8, 32u8, 97u8, 32u8, 99u8, 104u8, 97u8, 114u8, 97u8, 99u8, 116u8, 101u8, 114u8, 58u8, 32u8]
}

/// IN: prompt, then read one input byte, echo it and store it in R0,
/// zero-extended. An empty queue after the prompt is a fatal fault.
pub fn trap_in(regs: &mut Vec<u16>, input: &mut Vec<u8>, out: &mut Vec<u8>) -> (r: Result<
    (),
    VmError,
>)
    requires
        old(regs).len() == REG_COUNT,
    ensures
        r == (if old(input)@.len() > 0 {
            Result::<(), VmError>::Ok(())
        } else {
            Result::<(), VmError>::Err(VmError::InputUnavailable)
        }),
        final(out)@ == old(out)@ + in_prompt() + (if old(input)@.len() > 0 {
            seq![old(input)@[0]]
        } else {
            Seq::<u8>::empty()
        }),
        old(input)@.len() > 0 ==> final(regs)@ == old(regs)@.update(0, old(input)@[0] as u16)
            && final(input)@ == old(input)@.remove(0),
        old(input)@.len() == 0 ==> final(regs)@ == old(regs)@ && final(input)@ == old(input)@,
{
    let ghost out0 = out@;
    out.push(69);
    out.push(110);
    out.push(116);
    out.push(101);
    out.push(114);
    out.push(32);
    out.push(97);
    out.push(32);
    out.push(99);
    out.push(104);
    out.push(97);
    out.push(114);
    out.push(97);
    out.push(99);
    out.push(116);
    out.push(101);
    out.push(114);
    out.push(58);
    out.push(32);
    proof {
        assert(out@ =~= out0 + in_prompt());
    }
    if input.len() == 0 {
        proof {
            assert(out@ =~= out0 + in_prompt() + Seq::<u8>::empty());
        }
        return Err(VmError::InputUnavailable);
    }
    let b = input.remove(0);
    regs[0] = b as u16;
    out.push(b);
    proof {
        assert(out@ =~= out0 + in_prompt() + seq![b]);
    }
    Ok(())
}

/// The bytes PUTSP emits from `i` on: each cell packs two characters, low
/// byte first; the high byte is skipped when zero; the walk stops at the
/// first cell whose low byte is zero.
pub open spec fn putsp_output(mem: Seq<u16>, i: int) -> Seq<u8>
    recommends
        mem.len() == MEM_SIZE,
    decreases MEM_SIZE - i,
{
    if i < 0 || i >= MEM_SIZE {
        Seq::empty()
    } else if mem[i] & 0xFF == 0 {
        Seq::empty()
    } else {
        (if mem[i] >> 8 == 0 {
            seq![(mem[i] & 0xFF) as u8]
        } else {
            seq![(mem[i] & 0xFF) as u8, (mem[i] >> 8) as u8]
        }) + putsp_output(mem, i + 1)
    }
}

/// Whether a PUTSP string starting at `start` has a cell with a zero low
/// byte before the end of memory.
pub open spec fn putsp_terminated(mem: Seq<u16>, start: int) -> bool {
    exists|i: int| start <= i < MEM_SIZE && mem[i] & 0xFF == 0
}

/// PUTSP: R0 points at a string of two packed characters per cell; emit
/// the low byte, then the high byte when it is non-zero, stopping at a
/// cell whose low byte is zero. A missing terminator is fatal, as in PUTS.
pub fn trap_putsp(regs: &Vec<u16>, mem: &Vec<u16>, out: &mut Vec<u8>) -> (r: Result<(), VmError>)
    requires
        regs.len() == REG_COUNT,
        mem.len() == MEM_SIZE,
    ensures
        final(out)@ == old(out)@ + putsp_output(mem@, regs@[0] as int),
        r == (if putsp_terminated(mem@, regs@[0] as int) {
            Result::<(), VmError>::Ok(())
        } else {
            Result::<(), VmError>::Err(VmError::Unexpected)
        }),
{
    let r0 = regs[0];
    let ghost out0 = out@;
    let mut idx: usize = r0 as usize;
    loop
        invariant
            mem.len() == MEM_SIZE,
            regs.len() == REG_COUNT,
            r0 as int <= idx <= MEM_SIZE,
            r0 == regs@[0],
            out0 == old(out)@,
            out0 + putsp_output(mem@, r0 as int) == out@ + putsp_output(mem@, idx as int),
            forall|j: int| r0 as int <= j < idx as int ==> mem@[j] & 0xFF != 0,
        decreases MEM_SIZE - idx,
    {
        if idx == MEM_SIZE {
            proof {
                assert(out@ + putsp_output(mem@, idx as int) =~= out@);
            }
            return Err(VmError::Unexpected);
        }
        let word = mem[idx];
        let low = word & 0xFF;
        let high = word >> 8;
        proof {
            assert(word & 0xFF < 0x100 && word >> 8 < 0x100) by (bit_vector);
        }
        if low == 0 {
            proof {
                assert(out@ + putsp_output(mem@, idx as int) =~= out@);
            }
            return Ok(());
        }
        let ghost emitted = if high == 0 {
            seq![low as u8]
        } else {
            seq![low as u8, high as u8]
        };
        let ghost before = out@;
        proof {
            assert(before + (emitted + putsp_output(mem@, idx + 1)) =~= (before + emitted)
                + putsp_output(mem@, idx + 1));
        }
        out.push(low as u8);
        if high != 0 {
            out.push(high as u8);
        }
        proof {
            assert(out@ =~= before + emitted);
        }
        idx = idx + 1;
    }
}

} // verus!
