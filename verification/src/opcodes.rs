//! Instruction decoding and per-opcode semantics.
//!
//! Every handler is specified against a pure model: the register file and
//! memory are sequences of 16-bit words, keyboard input is a byte queue and
//! each opcode's effect is a spec function over them. All arithmetic wraps
//! modulo 2^16, giving two's-complement behaviour for negative offsets.

use vstd::prelude::*;

use crate::registers::Flag;
use crate::registers::MMRegister;
use crate::registers::REG_COUNT;

verus! {

/// Number of addressable memory cells.
pub const MEM_SIZE: usize = 65536;

/// One of the sixteen opcodes, the value of an instruction's bits 15-12.
/// RTI and RES decode successfully but dispatching either is a fatal
/// "unsupported opcode" fault: both are architecturally reserved.
#[derive(Clone, Copy, Debug, PartialEq, Eq, Structural)]
pub enum OpCode {
    BR,   // 0x0 | conditional branch
    ADD,  // 0x1 | addition
    LD,   // 0x2 | load
    ST,   // 0x3 | store
    JSR,  // 0x4 | jump to subroutine
    AND,  // 0x5 | bitwise logical AND
    LDR,  // 0x6 | load register (base + offset)
    STR,  // 0x7 | store register (base + offset)
    RTI,  // 0x8 | return from interrupt (unsupported)
    NOT,  // 0x9 | bitwise complement
    LDI,  // 0xA | load indirect
    STI,  // 0xB | store indirect
    JMP,  // 0xC | jump / return from subroutine
    RES,  // 0xD | reserved; illegal opcode
    LEA,  // 0xE | load effective address
    TRAP, // 0xF | system call
}

impl OpCode {
    /// The opcode a four-bit value decodes to.
    pub open spec fn from_u16_spec(value: u16) -> OpCode {
        if value == 0x0 {
            OpCode::BR
        } else if value == 0x1 {
            OpCode::ADD
        } else if value == 0x2 {
            OpCode::LD
        } else if value == 0x3 {
            OpCode::ST
        } else if value == 0x4 {
            OpCode::JSR
        } else if value == 0x5 {
            OpCode::AND
        } else if value == 0x6 {
            OpCode::LDR
        } else if value == 0x7 {
            OpCode::STR
        } else if value == 0x8 {
            OpCode::RTI
        } else if value == 0x9 {
            OpCode::NOT
        } else if value == 0xA {
            OpCode::LDI
        } else if value == 0xB {
            OpCode::STI
        } else if value == 0xC {
            OpCode::JMP
        } else if value == 0xD {
            OpCode::RES
        } else if value == 0xE {
            OpCode::LEA
        } else {
            OpCode::TRAP
        }
    }

    /// Decode bits 15-12 of an instruction. Values above 0xF are not
    /// opcodes and are ruled out by the caller.
    pub fn from_u16(value: u16) -> (r: OpCode)
        requires
            value <= 0xF,
        ensures
            r == OpCode::from_u16_spec(value),
    {
        match value {
            0x0 => OpCode::BR,
            0x1 => OpCode::ADD,
            0x2 => OpCode::LD,
            0x3 => OpCode::ST,
            0x4 => OpCode::JSR,
            0x5 => OpCode::AND,
            0x6 => OpCode::LDR,
            0x7 => OpCode::STR,
            0x8 => OpCode::RTI,
            0x9 => OpCode::NOT,
            0xA => OpCode::LDI,
            0xB => OpCode::STI,
            0xC => OpCode::JMP,
            0xD => OpCode::RES,
            0xE => OpCode::LEA,
            _ => OpCode::TRAP,
        }
    }
}

// ---------------------------------------------------------------------------
// Instruction fields
// ---------------------------------------------------------------------------

/// The destination (or source, for stores) register field, bits 11-9.
pub open spec fn dst_of(instr: u16) -> int {
    ((instr >> 9) & 0x7) as int
}

/// The first source register field, bits 8-6; also the base register of
/// JMP, JSRR, LDR and STR.
pub open spec fn src1_of(instr: u16) -> int {
    ((instr >> 6) & 0x7) as int
}

/// The second source register field, bits 2-0.
pub open spec fn src2_of(instr: u16) -> int {
    (instr & 0x7) as int
}

/// Bit 5: immediate mode for ADD and AND.
pub open spec fn imm_flag(instr: u16) -> bool {
    (instr >> 5) & 0x1 == 1
}

/// Bit 11: PC-relative mode for JSR (as opposed to JSRR's base register).
pub open spec fn long_flag(instr: u16) -> bool {
    (instr >> 11) & 0x1 == 1
}

/// Bounds of the bit fields an instruction is cut into.
pub proof fn lemma_fields_bounded(instr: u16)
    by (bit_vector)
    ensures
        (instr >> 12) <= 0xF,
        (instr >> 9) & 0x7 < 8,
        (instr >> 6) & 0x7 < 8,
        instr & 0x7 < 8,
        instr & 0x1F < 0x20,
        instr & 0x3F < 0x40,
        instr & 0xFF < 0x100,
        instr & 0x1FF < 0x200,
        instr & 0x7FF < 0x800,
        (1u16 << 5) == 0x20,
        (1u16 << 6) == 0x40,
        (1u16 << 9) == 0x200,
        (1u16 << 11) == 0x800,
{
}

// ---------------------------------------------------------------------------
// Sign extension
// ---------------------------------------------------------------------------

/// Sign-extend an N-bit field to 16 bits: if bit N-1 is set, all higher
/// bits become ones; otherwise the value is unchanged.
pub open spec fn sext(x: u16, bits: u16) -> u16
    recommends
        1 <= bits <= 15,
        x < (1u16 << bits),
{
    if (x >> ((bits - 1) as u16)) & 1 == 1 {
        x | (0xFFFFu16 << bits)
    } else {
        x
    }
}

/// A 16-bit word read as a two's-complement signed number.
pub open spec fn signed(v: u16) -> int {
    if v >= 0x8000 {
        v - 0x10000
    } else {
        v as int
    }
}

/// An N-bit field read as a two's-complement signed number.
pub open spec fn signed_field(x: u16, bits: u16) -> int
    recommends
        1 <= bits <= 15,
        x < (1u16 << bits),
{
    if x >= (1u16 << ((bits - 1) as u16)) {
        x - (1u16 << bits)
    } else {
        x as int
    }
}

/// Sign extension preserves the signed value of the field: the 16-bit
/// result denotes, in two's complement, exactly the number the N-bit field
/// denoted. In particular a field whose top bit is set extends to the
/// correct negative value.
pub proof fn lemma_sext_signed(x: u16, bits: u16)
    by (bit_vector)
    requires
        1 <= bits <= 15,
        x < (1u16 << bits),
    ensures
        signed(sext(x, bits)) == signed_field(x, bits),
{
}

/// Sign-extend the low `bits` bits of `x` to a full word.
pub fn sign_extend(x: u16, bits: u8) -> (r: u16)
    requires
        1 <= bits <= 15,
        x < (1u16 << (bits as u16)),
    ensures
        r == sext(x, bits as u16),
        signed(r) == signed_field(x, bits as u16),
{
    proof {
        lemma_sext_signed(x, bits as u16);
    }
    if ((x >> (bits - 1)) & 1) == 1 {
        x | (0xFFFFu16 << bits)
    } else {
        x
    }
}

// ---------------------------------------------------------------------------
// Condition flags
// ---------------------------------------------------------------------------

/// The COND value a register write leaves behind: ZERO for a zero result,
/// NEG when bit 15 is set, POS otherwise.
pub open spec fn flag_for(v: u16) -> u16 {
    if v == 0 {
        Flag::ZERO.value_spec()
    } else if v >= 0x8000 {
        Flag::NEG.value_spec()
    } else {
        Flag::POS.value_spec()
    }
}

/// After every register write, COND holds exactly one of the three flag
/// values, and which one matches the signed reading of the written word.
pub proof fn lemma_flag_exclusive(v: u16)
    ensures
        flag_for(v) == Flag::POS.value_spec() || flag_for(v) == Flag::ZERO.value_spec()
            || flag_for(v) == Flag::NEG.value_spec(),
        flag_for(v) == Flag::ZERO.value_spec() <==> signed(v) == 0,
        flag_for(v) == Flag::NEG.value_spec() <==> signed(v) < 0,
        flag_for(v) == Flag::POS.value_spec() <==> signed(v) > 0,
{
}

/// Recompute COND from the register just written.
pub fn update_flags(regs: &mut Vec<u16>, r: usize)
    requires
        old(regs).len() == REG_COUNT,
        r < REG_COUNT,
    ensures
        final(regs)@ == old(regs)@.update(9, flag_for(old(regs)@[r as int])),
{
    let v = regs[r];
    let f = if v == 0 {
        Flag::ZERO
    } else if v >= 0x8000 {
        Flag::NEG
    } else {
        Flag::POS
    };
    regs[9] = f.value();
}

// ---------------------------------------------------------------------------
// Memory, with the memory-mapped keyboard cells
// ---------------------------------------------------------------------------

/// The input byte a read of the keyboard status register would observe:
/// the head of the pending-input queue, if any.
pub open spec fn avail_input(input: Seq<u8>) -> Option<u8> {
    if input.len() == 0 {
        None
    } else {
        Some(input[0])
    }
}

/// Memory after a read of `addr`. Reading the keyboard status register
/// polls for input first: a pending byte sets the status to 0x8000 and
/// lands in the data register; no byte clears the status. Every other
/// address leaves memory untouched.
pub open spec fn poll_mem(mem: Seq<u16>, addr: u16, avail: Option<u8>) -> Seq<u16> {
    if addr == 0xFE00 {
        match avail {
            Some(b) => mem.update(0xFE00, 0x8000u16).update(0xFE02, b as u16),
            None => mem.update(0xFE00, 0u16),
        }
    } else {
        mem
    }
}

/// The word a read of `addr` returns: the cell's value after the poll.
pub open spec fn read_result(mem: Seq<u16>, addr: u16, avail: Option<u8>) -> u16
    recommends
        mem.len() == MEM_SIZE,
{
    poll_mem(mem, addr, avail)[addr as int]
}

/// Whether a read of `addr` consumes an input byte.
pub open spec fn read_consumes(addr: u16, avail: Option<u8>) -> bool {
    addr == 0xFE00 && avail is Some
}

/// The pending-input queue after a read of `addr`.
pub open spec fn after_read_input(input: Seq<u8>, addr: u16) -> Seq<u8> {
    if read_consumes(addr, avail_input(input)) {
        input.remove(0)
    } else {
        input
    }
}

/// Read a memory cell. A read of the keyboard status register first polls
/// the input queue and updates both keyboard cells; all other reads are
/// plain. Every 16-bit address is in bounds by construction.
pub fn memory_read(mem: &mut Vec<u16>, addr: u16, input: &mut Vec<u8>) -> (r: u16)
    requires
        old(mem).len() == MEM_SIZE,
    ensures
        final(mem)@ == poll_mem(old(mem)@, addr, avail_input(old(input)@)),
        r == read_result(old(mem)@, addr, avail_input(old(input)@)),
        final(input)@ == after_read_input(old(input)@, addr),
        final(mem).len() == MEM_SIZE,
{
    if addr == MMRegister::KBSR.address() {
        if input.len() > 0 {
            let b = input.remove(0);
            mem[0xFE00] = 0x8000;
            mem[0xFE02] = b as u16;
        } else {
            mem[0xFE00] = 0;
        }
    }
    mem[addr as usize]
}

/// A block of `len` zeroed words, as memory and the register file start.
pub fn zero_words(len: usize) -> (v: Vec<u16>)
    ensures
        v.len() == len,
        forall|i: int| 0 <= i < len ==> v@[i] == 0,
{
    let mut v: Vec<u16> = Vec::new();
    while v.len() < len
        invariant
            v.len() <= len,
            forall|i: int| 0 <= i < v.len() ==> v@[i] == 0,
        decreases len - v.len(),
    {
        v.push(0);
    }
    v
}

/// Write a memory cell. Writes never trigger the keyboard poll.
pub fn memory_write(mem: &mut Vec<u16>, addr: u16, val: u16)
    requires
        old(mem).len() == MEM_SIZE,
    ensures
        final(mem)@ == old(mem)@.update(addr as int, val),
{
    mem[addr as usize] = val;
}

// ---------------------------------------------------------------------------
// Opcode semantics over the pure model
// ---------------------------------------------------------------------------
//
// Each handler runs after the fetch has incremented PC, so regs[8] is the
// address following the instruction and PC-relative offsets are taken from
// there.

/// ADD: DR = SR1 + SR2 (or + sext(imm5)), wrapping; COND follows DR.
pub open spec fn add_regs(instr: u16, regs: Seq<u16>) -> Seq<u16>
    recommends
        regs.len() == REG_COUNT,
{
    let b = if imm_flag(instr) {
        sext(instr & 0x1F, 5)
    } else {
        regs[src2_of(instr)]
    };
    let v = regs[src1_of(instr)].wrapping_add(b);
    regs.update(dst_of(instr), v).update(9, flag_for(v))
}

/// AND: DR = SR1 & SR2 (or & sext(imm5)); COND follows DR.
pub open spec fn and_regs(instr: u16, regs: Seq<u16>) -> Seq<u16>
    recommends
        regs.len() == REG_COUNT,
{
    let b = if imm_flag(instr) {
        sext(instr & 0x1F, 5)
    } else {
        regs[src2_of(instr)]
    };
    let v = regs[src1_of(instr)] & b;
    regs.update(dst_of(instr), v).update(9, flag_for(v))
}

/// NOT: DR = bitwise complement of SR; COND follows DR.
pub open spec fn not_regs(instr: u16, regs: Seq<u16>) -> Seq<u16>
    recommends
        regs.len() == REG_COUNT,
{
    let v = !regs[src1_of(instr)];
    regs.update(dst_of(instr), v).update(9, flag_for(v))
}

/// BR: if the instruction's NZP mask meets COND, PC moves by sext(off9).
pub open spec fn br_regs(instr: u16, regs: Seq<u16>) -> Seq<u16>
    recommends
        regs.len() == REG_COUNT,
{
    let nzp = (instr >> 9) & 0x7;
    if nzp & regs[9] != 0 {
        regs.update(8, regs[8].wrapping_add(sext(instr & 0x1FF, 9)))
    } else {
        regs
    }
}

/// JMP: PC = BaseR. With BaseR = R7 this is the subroutine return.
pub open spec fn jmp_regs(instr: u16, regs: Seq<u16>) -> Seq<u16>
    recommends
        regs.len() == REG_COUNT,
{
    regs.update(8, regs[src1_of(instr)])
}

/// JSR / JSRR: R7 = PC, then PC moves by sext(off11) (JSR) or jumps to
/// BaseR (JSRR). The base register is read after R7 is written.
pub open spec fn jsr_regs(instr: u16, regs: Seq<u16>) -> Seq<u16>
    recommends
        regs.len() == REG_COUNT,
{
    let linked = regs.update(7, regs[8]);
    if long_flag(instr) {
        linked.update(8, regs[8].wrapping_add(sext(instr & 0x7FF, 11)))
    } else {
        linked.update(8, linked[src1_of(instr)])
    }
}

/// LEA: DR = PC + sext(off9); COND follows DR.
pub open spec fn lea_regs(instr: u16, regs: Seq<u16>) -> Seq<u16>
    recommends
        regs.len() == REG_COUNT,
{
    let v = regs[8].wrapping_add(sext(instr & 0x1FF, 9));
    regs.update(dst_of(instr), v).update(9, flag_for(v))
}

/// ST: memory[PC + sext(off9)] = SR.
pub open spec fn st_mem(instr: u16, regs: Seq<u16>, mem: Seq<u16>) -> Seq<u16>
    recommends
        regs.len() == REG_COUNT,
        mem.len() == MEM_SIZE,
{
    mem.update(regs[8].wrapping_add(sext(instr & 0x1FF, 9)) as int, regs[dst_of(instr)])
}

/// STR: memory[BaseR + sext(off6)] = SR.
pub open spec fn str_mem(instr: u16, regs: Seq<u16>, mem: Seq<u16>) -> Seq<u16>
    recommends
        regs.len() == REG_COUNT,
        mem.len() == MEM_SIZE,
{
    mem.update(regs[src1_of(instr)].wrapping_add(sext(instr & 0x3F, 6)) as int, regs[dst_of(instr)])
}

/// LD: DR = memory[PC + sext(off9)], through the polling read; COND
/// follows DR. Yields the registers, memory and input queue after the
/// instruction.
pub open spec fn ld_effect(instr: u16, regs: Seq<u16>, mem: Seq<u16>, input: Seq<u8>) -> (
    Seq<u16>,
    Seq<u16>,
    Seq<u8>,
)
    recommends
        regs.len() == REG_COUNT,
        mem.len() == MEM_SIZE,
{
    let addr = regs[8].wrapping_add(sext(instr & 0x1FF, 9));
    let v = read_result(mem, addr, avail_input(input));
    (
        regs.update(dst_of(instr), v).update(9, flag_for(v)),
        poll_mem(mem, addr, avail_input(input)),
        after_read_input(input, addr),
    )
}

/// LDR: DR = memory[BaseR + sext(off6)], through the polling read; COND
/// follows DR.
pub open spec fn ldr_effect(instr: u16, regs: Seq<u16>, mem: Seq<u16>, input: Seq<u8>) -> (
    Seq<u16>,
    Seq<u16>,
    Seq<u8>,
)
    recommends
        regs.len() == REG_COUNT,
        mem.len() == MEM_SIZE,
{
    let addr = regs[src1_of(instr)].wrapping_add(sext(instr & 0x3F, 6));
    let v = read_result(mem, addr, avail_input(input));
    (
        regs.update(dst_of(instr), v).update(9, flag_for(v)),
        poll_mem(mem, addr, avail_input(input)),
        after_read_input(input, addr),
    )
}

/// LDI: DR = memory[memory[PC + sext(off9)]]; both reads poll; COND
/// follows DR.
pub open spec fn ldi_effect(instr: u16, regs: Seq<u16>, mem: Seq<u16>, input: Seq<u8>) -> (
    Seq<u16>,
    Seq<u16>,
    Seq<u8>,
)
    recommends
        regs.len() == REG_COUNT,
        mem.len() == MEM_SIZE,
{
    let addr1 = regs[8].wrapping_add(sext(instr & 0x1FF, 9));
    let pointer = read_result(mem, addr1, avail_input(input));
    let mem1 = poll_mem(mem, addr1, avail_input(input));
    let input1 = after_read_input(input, addr1);
    let v = read_result(mem1, pointer, avail_input(input1));
    (
        regs.update(dst_of(instr), v).update(9, flag_for(v)),
        poll_mem(mem1, pointer, avail_input(input1)),
        after_read_input(input1, pointer),
    )
}

/// STI: memory[memory[PC + sext(off9)]] = SR; the indirection read polls.
pub open spec fn sti_effect(instr: u16, regs: Seq<u16>, mem: Seq<u16>, input: Seq<u8>) -> (
    Seq<u16>,
    Seq<u8>,
)
    recommends
        regs.len() == REG_COUNT,
        mem.len() == MEM_SIZE,
{
    let addr1 = regs[8].wrapping_add(sext(instr & 0x1FF, 9));
    let pointer = read_result(mem, addr1, avail_input(input));
    let mem1 = poll_mem(mem, addr1, avail_input(input));
    (mem1.update(pointer as int, regs[dst_of(instr)]), after_read_input(input, addr1))
}

// ---------------------------------------------------------------------------
// Opcode handlers
// ---------------------------------------------------------------------------

/// Conditional branch.
pub fn op_br(instr: u16, regs: &mut Vec<u16>)
    requires
        old(regs).len() == REG_COUNT,
    ensures
        final(regs)@ == br_regs(instr, old(regs)@),
{
    proof {
        lemma_fields_bounded(instr);
    }
    let pc_offset = sign_extend(instr & 0x1FF, 9);
    let cond = (instr >> 9) & 0x7;

    if (cond & regs[9]) > 0 {
        regs[8] = regs[8].wrapping_add(pc_offset);
    }
}

/// Addition.
pub fn op_add(instr: u16, regs: &mut Vec<u16>)
    requires
        old(regs).len() == REG_COUNT,
    ensures
        final(regs)@ == add_regs(instr, old(regs)@),
{
    proof {
        lemma_fields_bounded(instr);
    }
    let dr = ((instr >> 9) & 0x7) as usize;
    let sr1 = ((instr >> 6) & 0x7) as usize;
    let is_imm = (instr >> 5) & 0x1;

    if is_imm == 1 {
        regs[dr] = regs[sr1].wrapping_add(sign_extend(instr & 0x1F, 5));
    } else {
        let sr2 = (instr & 0x7) as usize;
        regs[dr] = regs[sr1].wrapping_add(regs[sr2]);
    }
    update_flags(regs, dr);
}

/// Load, PC-relative.
pub fn op_ld(instr: u16, regs: &mut Vec<u16>, mem: &mut Vec<u16>, input: &mut Vec<u8>)
    requires
        old(regs).len() == REG_COUNT,
        old(mem).len() == MEM_SIZE,
    ensures
        final(regs)@ == ld_effect(instr, old(regs)@, old(mem)@, old(input)@).0,
        final(mem)@ == ld_effect(instr, old(regs)@, old(mem)@, old(input)@).1,
        final(input)@ == ld_effect(instr, old(regs)@, old(mem)@, old(input)@).2,
{
    proof {
        lemma_fields_bounded(instr);
    }
    let dr = ((instr >> 9) & 0x7) as usize;
    let offset = sign_extend(instr & 0x1FF, 9);
    let addr = regs[8].wrapping_add(offset);
    regs[dr] = memory_read(mem, addr, input);
    update_flags(regs, dr);
}

/// Store, PC-relative.
pub fn op_st(instr: u16, regs: &mut Vec<u16>, mem: &mut Vec<u16>)
    requires
        old(regs).len() == REG_COUNT,
        old(mem).len() == MEM_SIZE,
    ensures
        final(regs)@ == old(regs)@,
        final(mem)@ == st_mem(instr, old(regs)@, old(mem)@),
{
    proof {
        lemma_fields_bounded(instr);
    }
    let sr = ((instr >> 9) & 0x7) as usize;
    let offset = sign_extend(instr & 0x1FF, 9);
    let addr = regs[8].wrapping_add(offset);
    memory_write(mem, addr, regs[sr]);
}

/// Jump to subroutine.
pub fn op_jsr(instr: u16, regs: &mut Vec<u16>)
    requires
        old(regs).len() == REG_COUNT,
    ensures
        final(regs)@ == jsr_regs(instr, old(regs)@),
{
    proof {
        lemma_fields_bounded(instr);
    }
    let is_long = (instr >> 11) & 0x1;
    regs[7] = regs[8];

    if is_long == 1 {
        let offset = sign_extend(instr & 0x7FF, 11);
        regs[8] = regs[8].wrapping_add(offset);  // JSR
    } else {
        let base = ((instr >> 6) & 0x7) as usize;
        regs[8] = regs[base];  // JSRR
    }
}

/// Bitwise logical AND.
pub fn op_and(instr: u16, regs: &mut Vec<u16>)
    requires
        old(regs).len() == REG_COUNT,
    ensures
        final(regs)@ == and_regs(instr, old(regs)@),
{
    proof {
        lemma_fields_bounded(instr);
    }
    let dr = ((instr >> 9) & 0x7) as usize;
    let sr1 = ((instr >> 6) & 0x7) as usize;
    let is_imm = (instr >> 5) & 0x1;

    if is_imm == 1 {
        regs[dr] = regs[sr1] & sign_extend(instr & 0x1F, 5);
    } else {
        let sr2 = (instr & 0x7) as usize;
        regs[dr] = regs[sr1] & regs[sr2];
    }
    update_flags(regs, dr);
}

/// Load, base register plus offset.
pub fn op_ldr(instr: u16, regs: &mut Vec<u16>, mem: &mut Vec<u16>, input: &mut Vec<u8>)
    requires
        old(regs).len() == REG_COUNT,
        old(mem).len() == MEM_SIZE,
    ensures
        final(regs)@ == ldr_effect(instr, old(regs)@, old(mem)@, old(input)@).0,
        final(mem)@ == ldr_effect(instr, old(regs)@, old(mem)@, old(input)@).1,
        final(input)@ == ldr_effect(instr, old(regs)@, old(mem)@, old(input)@).2,
{
    proof {
        lemma_fields_bounded(instr);
    }
    let dr = ((instr >> 9) & 0x7) as usize;
    let base = ((instr >> 6) & 0x7) as usize;
    let offset = sign_extend(instr & 0x3F, 6);
    let addr = regs[base].wrapping_add(offset);
    regs[dr] = memory_read(mem, addr, input);
    update_flags(regs, dr);
}

/// Store, base register plus offset.
pub fn op_str(instr: u16, regs: &mut Vec<u16>, mem: &mut Vec<u16>)
    requires
        old(regs).len() == REG_COUNT,
        old(mem).len() == MEM_SIZE,
    ensures
        final(regs)@ == old(regs)@,
        final(mem)@ == str_mem(instr, old(regs)@, old(mem)@),
{
    proof {
        lemma_fields_bounded(instr);
    }
    let sr = ((instr >> 9) & 0x7) as usize;
    let base = ((instr >> 6) & 0x7) as usize;
    let offset = sign_extend(instr & 0x3F, 6);
    let addr = regs[base].wrapping_add(offset);
    memory_write(mem, addr, regs[sr]);
}

/// Bitwise complement.
pub fn op_not(instr: u16, regs: &mut Vec<u16>)
    requires
        old(regs).len() == REG_COUNT,
    ensures
        final(regs)@ == not_regs(instr, old(regs)@),
{
    proof {
        lemma_fields_bounded(instr);
    }
    let dr = ((instr >> 9) & 0x7) as usize;
    let sr = ((instr >> 6) & 0x7) as usize;
    regs[dr] = !regs[sr];
    update_flags(regs, dr);
}

/// Load indirect.
pub fn op_ldi(instr: u16, regs: &mut Vec<u16>, mem: &mut Vec<u16>, input: &mut Vec<u8>)
    requires
        old(regs).len() == REG_COUNT,
        old(mem).len() == MEM_SIZE,
    ensures
        final(regs)@ == ldi_effect(instr, old(regs)@, old(mem)@, old(input)@).0,
        final(mem)@ == ldi_effect(instr, old(regs)@, old(mem)@, old(input)@).1,
        final(input)@ == ldi_effect(instr, old(regs)@, old(mem)@, old(input)@).2,
{
    proof {
        lemma_fields_bounded(instr);
    }
    let dr = ((instr >> 9) & 0x7) as usize;
    let offset = sign_extend(instr & 0x1FF, 9);
    let addr = regs[8].wrapping_add(offset);
    let pointer = memory_read(mem, addr, input);
    regs[dr] = memory_read(mem, pointer, input);
    update_flags(regs, dr);
}

/// Store indirect.
pub fn op_sti(instr: u16, regs: &mut Vec<u16>, mem: &mut Vec<u16>, input: &mut Vec<u8>)
    requires
        old(regs).len() == REG_COUNT,
        old(mem).len() == MEM_SIZE,
    ensures
        final(regs)@ == old(regs)@,
        final(mem)@ == sti_effect(instr, old(regs)@, old(mem)@, old(input)@).0,
        final(input)@ == sti_effect(instr, old(regs)@, old(mem)@, old(input)@).1,
{
    proof {
        lemma_fields_bounded(instr);
    }
    let sr = ((instr >> 9) & 0x7) as usize;
    let offset = sign_extend(instr & 0x1FF, 9);
    let addr = regs[8].wrapping_add(offset);
    let indirect = memory_read(mem, addr, input);
    memory_write(mem, indirect, regs[sr]);
}

/// Jump; with BaseR = R7 this is the subroutine return.
pub fn op_jmp(instr: u16, regs: &mut Vec<u16>)
    requires
        old(regs).len() == REG_COUNT,
    ensures
        final(regs)@ == jmp_regs(instr, old(regs)@),
{
    proof {
        lemma_fields_bounded(instr);
    }
    let base = ((instr >> 6) & 0x7) as usize;
    regs[8] = regs[base];
}

// ---------------------------------------------------------------------------
// Laws of the opcode semantics
// ---------------------------------------------------------------------------

/// Every flag-updating opcode leaves COND equal to `flag_for` of the
/// destination register's final value; with `lemma_flag_exclusive` this
/// says exactly one flag is set and it matches the result's sign.
pub proof fn lemma_flags_follow_result(instr: u16, regs: Seq<u16>, mem: Seq<u16>, input: Seq<u8>)
    requires
        regs.len() == REG_COUNT,
        mem.len() == MEM_SIZE,
    ensures
        add_regs(instr, regs)[9] == flag_for(add_regs(instr, regs)[dst_of(instr)]),
        and_regs(instr, regs)[9] == flag_for(and_regs(instr, regs)[dst_of(instr)]),
        not_regs(instr, regs)[9] == flag_for(not_regs(instr, regs)[dst_of(instr)]),
        lea_regs(instr, regs)[9] == flag_for(lea_regs(instr, regs)[dst_of(instr)]),
        ld_effect(instr, regs, mem, input).0[9] == flag_for(
            ld_effect(instr, regs, mem, input).0[dst_of(instr)],
        ),
        ldr_effect(instr, regs, mem, input).0[9] == flag_for(
            ldr_effect(instr, regs, mem, input).0[dst_of(instr)],
        ),
        ldi_effect(instr, regs, mem, input).0[9] == flag_for(
            ldi_effect(instr, regs, mem, input).0[dst_of(instr)],
        ),
{
    lemma_fields_bounded(instr);
}

/// Store-then-load round trip: after ST writes SR at a PC-relative
/// offset, an LD through the same offset with the same PC returns that
/// value unchanged — provided the cell is not the polled keyboard status
/// register (whose read reflects the poll, not the store).
pub proof fn lemma_store_load_round_trip(
    instr_st: u16,
    instr_ld: u16,
    regs: Seq<u16>,
    mem: Seq<u16>,
    input: Seq<u8>,
)
    requires
        regs.len() == REG_COUNT,
        mem.len() == MEM_SIZE,
        instr_st & 0x1FF == instr_ld & 0x1FF,
        regs[8].wrapping_add(sext(instr_st & 0x1FF, 9)) != 0xFE00,
    ensures
        ({
            let mem1 = st_mem(instr_st, regs, mem);
            let t = ld_effect(instr_ld, regs, mem1, input);
            t.0[dst_of(instr_ld)] == regs[dst_of(instr_st)]
        }),
{
    lemma_fields_bounded(instr_st);
    lemma_fields_bounded(instr_ld);
}

/// LDI indirection: when memory[PC + off] holds an address A and
/// memory[A] holds V, LDI with that offset loads V into DR and COND
/// follows V — provided neither cell is the polled keyboard status
/// register.
pub proof fn lemma_ldi_indirection(instr: u16, regs: Seq<u16>, mem: Seq<u16>, input: Seq<u8>)
    requires
        regs.len() == REG_COUNT,
        mem.len() == MEM_SIZE,
        regs[8].wrapping_add(sext(instr & 0x1FF, 9)) != 0xFE00,
        mem[regs[8].wrapping_add(sext(instr & 0x1FF, 9)) as int] != 0xFE00,
    ensures
        ({
            let pointer = mem[regs[8].wrapping_add(sext(instr & 0x1FF, 9)) as int];
            let t = ldi_effect(instr, regs, mem, input);
            t.0[dst_of(instr)] == mem[pointer as int] && t.0[9] == flag_for(mem[pointer as int])
                && t.1 == mem && t.2 == input
        }),
{
    lemma_fields_bounded(instr);
}

/// Subroutine round trip: JSR links R7 to the address following the JSR
/// instruction, and a JMP with BaseR = R7 restores PC to that address.
/// `regs` is the register file after the JSR's fetch, so regs[8] is the
/// address following the JSR.
pub proof fn lemma_jsr_jmp_round_trip(instr_jsr: u16, instr_jmp: u16, regs: Seq<u16>)
    requires
        regs.len() == REG_COUNT,
        src1_of(instr_jmp) == 7,
    ensures
        jsr_regs(instr_jsr, regs)[7] == regs[8],
        jmp_regs(instr_jmp, jsr_regs(instr_jsr, regs))[8] == regs[8],
{
    lemma_fields_bounded(instr_jsr);
}

/// Load effective address.
pub fn op_lea(instr: u16, regs: &mut Vec<u16>)
    requires
        old(regs).len() == REG_COUNT,
    ensures
        final(regs)@ == lea_regs(instr, old(regs)@),
{
    proof {
        lemma_fields_bounded(instr);
    }
    let dr = ((instr >> 9) & 0x7) as usize;
    let offset = sign_extend(instr & 0x1FF, 9);
    regs[dr] = regs[8].wrapping_add(offset);
    update_flags(regs, dr);
}

} // verus!
