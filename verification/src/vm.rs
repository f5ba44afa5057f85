//! The virtual machine: memory, register file and halt flag, with the
//! fetch-decode-execute engine.
//!
//! One cycle is specified by `step_spec`, a pure function from the machine
//! state and the pending-input queue to the next state, the remaining
//! input, the bytes emitted and the verdict. `cycle` is proved to realise
//! it exactly, and `run` to iterate it.

use vstd::prelude::*;

use crate::errors::VmError;
use crate::opcodes::add_regs;
use crate::opcodes::and_regs;
use crate::opcodes::avail_input;
use crate::opcodes::br_regs;
use crate::opcodes::jmp_regs;
use crate::opcodes::jsr_regs;
use crate::opcodes::ld_effect;
use crate::opcodes::ldi_effect;
use crate::opcodes::ldr_effect;
use crate::opcodes::lea_regs;
use crate::opcodes::lemma_fields_bounded;
use crate::opcodes::not_regs;
use crate::opcodes::read_result;
use crate::opcodes::sext;
use crate::opcodes::sign_extend;
use crate::opcodes::src1_of;
use crate::opcodes::st_mem;
use crate::opcodes::sti_effect;
use crate::opcodes::str_mem;
use crate::opcodes::zero_words;
use crate::opcodes::OpCode;
use crate::opcodes::MEM_SIZE;
use crate::registers::initial_regs;
use crate::registers::REG_COUNT;
use crate::traps::in_prompt;
use crate::traps::puts_output;
use crate::traps::puts_terminated;
use crate::traps::putsp_output;
use crate::traps::putsp_terminated;
use crate::traps::trap_getc;
use crate::traps::trap_in;
use crate::traps::trap_out;
use crate::traps::trap_puts;
use crate::traps::trap_putsp;
use crate::traps::TrapVector;

verus! {

/// The architectural load address, where PC starts.
pub const PC_START: u16 = 0x3000;

/// The machine state as the specification sees it: memory and register
/// file as sequences of words, plus the halt flag.
pub struct MachineState {
    pub mem: Seq<u16>,
    pub regs: Seq<u16>,
    pub halted: bool,
}

impl MachineState {
    /// Memory holds one word per address and the register file one word
    /// per slot.
    pub open spec fn wf(self) -> bool {
        self.mem.len() == MEM_SIZE && self.regs.len() == REG_COUNT
    }
}

/// The same state with another register file.
pub open spec fn with_regs(s: MachineState, regs: Seq<u16>) -> MachineState {
    MachineState { mem: s.mem, regs, halted: s.halted }
}

/// What one cycle does: the state it leaves, the input it has not
/// consumed, the bytes it emitted, and whether it faulted.
pub struct StepOutcome {
    pub state: MachineState,
    pub input: Seq<u8>,
    pub emitted: Seq<u8>,
    pub verdict: Result<(), VmError>,
}

/// A cycle that only moves registers: nothing consumed, nothing emitted.
pub open spec fn regs_step(s: MachineState, input: Seq<u8>, regs: Seq<u16>) -> StepOutcome {
    StepOutcome {
        state: with_regs(s, regs),
        input,
        emitted: Seq::empty(),
        verdict: Ok(()),
    }
}

/// A cycle that faults in state `s`: nothing consumed, nothing emitted.
pub open spec fn fault_step(s: MachineState, input: Seq<u8>, e: VmError) -> StepOutcome {
    StepOutcome { state: s, input, emitted: Seq::empty(), verdict: Err(e) }
}

/// The effect of the trap routine a TRAP instruction dispatches to. `s`
/// is the state after the fetch; its R0 and memory feed the routine.
pub open spec fn trap_step(instr: u16, s: MachineState, input: Seq<u8>) -> StepOutcome
    recommends
        s.wf(),
{
    match TrapVector::from_u16_spec(instr & 0xFF) {
        Err(e) => fault_step(s, input, e),
        Ok(tv) => match tv {
            TrapVector::GETC => if input.len() > 0 {
                StepOutcome {
                    state: with_regs(s, s.regs.update(0, input[0] as u16)),
                    input: input.remove(0),
                    emitted: Seq::empty(),
                    verdict: Ok(()),
                }
            } else {
                fault_step(s, input, VmError::InputUnavailable)
            },
            TrapVector::OUT => StepOutcome {
                state: s,
                input,
                emitted: seq![(s.regs[0] & 0xFF) as u8],
                verdict: Ok(()),
            },
            TrapVector::PUTS => StepOutcome {
                state: s,
                input,
                emitted: puts_output(s.mem, s.regs[0] as int),
                verdict: if puts_terminated(s.mem, s.regs[0] as int) {
                    Ok(())
                } else {
                    Err(VmError::Unexpected)
                },
            },
            TrapVector::IN => if input.len() > 0 {
                StepOutcome {
                    state: with_regs(s, s.regs.update(0, input[0] as u16)),
                    input: input.remove(0),
                    emitted: in_prompt() + seq![input[0]],
                    verdict: Ok(()),
                }
            } else {
                StepOutcome {
                    state: s,
                    input,
                    emitted: in_prompt(),
                    verdict: Err(VmError::InputUnavailable),
                }
            },
            TrapVector::PUTSP => StepOutcome {
                state: s,
                input,
                emitted: putsp_output(s.mem, s.regs[0] as int),
                verdict: if putsp_terminated(s.mem, s.regs[0] as int) {
                    Ok(())
                } else {
                    Err(VmError::Unexpected)
                },
            },
            TrapVector::HALT => StepOutcome {
                state: MachineState { mem: s.mem, regs: s.regs, halted: true },
                input,
                emitted: Seq::empty(),
                verdict: Ok(()),
            },
        },
    }
}

/// One fetch-decode-execute cycle of a running machine. The fetch
/// increments PC first, so PC-relative offsets are taken from the address
/// after the instruction; a PC that would leave addressable memory is a
/// detected fault, never a silent wraparound.
pub open spec fn step_spec(pre: MachineState, input: Seq<u8>) -> StepOutcome
    recommends
        pre.wf(),
        !pre.halted,
{
    let pc = pre.regs[8];
    if pc == 0xFFFF {
        fault_step(pre, input, VmError::PcOutOfRange)
    } else {
        let instr = pre.mem[pc as int];
        let regs1 = pre.regs.update(8, (pc + 1) as u16);
        let fetched = with_regs(pre, regs1);
        let opc = instr >> 12;
        if opc == 0x0 {
            regs_step(pre, input, br_regs(instr, regs1))
        } else if opc == 0x1 {
            regs_step(pre, input, add_regs(instr, regs1))
        } else if opc == 0x2 {
            let t = ld_effect(instr, regs1, pre.mem, input);
            StepOutcome {
                state: MachineState { mem: t.1, regs: t.0, halted: pre.halted },
                input: t.2,
                emitted: Seq::empty(),
                verdict: Ok(()),
            }
        } else if opc == 0x3 {
            StepOutcome {
                state: MachineState {
                    mem: st_mem(instr, regs1, pre.mem),
                    regs: regs1,
                    halted: pre.halted,
                },
                input,
                emitted: Seq::empty(),
                verdict: Ok(()),
            }
        } else if opc == 0x4 {
            regs_step(pre, input, jsr_regs(instr, regs1))
        } else if opc == 0x5 {
            regs_step(pre, input, and_regs(instr, regs1))
        } else if opc == 0x6 {
            let t = ldr_effect(instr, regs1, pre.mem, input);
            StepOutcome {
                state: MachineState { mem: t.1, regs: t.0, halted: pre.halted },
                input: t.2,
                emitted: Seq::empty(),
                verdict: Ok(()),
            }
        } else if opc == 0x7 {
            StepOutcome {
                state: MachineState {
                    mem: str_mem(instr, regs1, pre.mem),
                    regs: regs1,
                    halted: pre.halted,
                },
                input,
                emitted: Seq::empty(),
                verdict: Ok(()),
            }
        } else if opc == 0x8 {
            fault_step(fetched, input, VmError::UnsupportedOpcode)
        } else if opc == 0x9 {
            regs_step(pre, input, not_regs(instr, regs1))
        } else if opc == 0xA {
            let t = ldi_effect(instr, regs1, pre.mem, input);
            StepOutcome {
                state: MachineState { mem: t.1, regs: t.0, halted: pre.halted },
                input: t.2,
                emitted: Seq::empty(),
                verdict: Ok(()),
            }
        } else if opc == 0xB {
            let t = sti_effect(instr, regs1, pre.mem, input);
            StepOutcome {
                state: MachineState { mem: t.0, regs: regs1, halted: pre.halted },
                input: t.1,
                emitted: Seq::empty(),
                verdict: Ok(()),
            }
        } else if opc == 0xC {
            regs_step(pre, input, jmp_regs(instr, regs1))
        } else if opc == 0xD {
            fault_step(fetched, input, VmError::UnsupportedOpcode)
        } else if opc == 0xE {
            regs_step(pre, input, lea_regs(instr, regs1))
        } else {
            trap_step(instr, fetched, input)
        }
    }
}

/// The result of at most `n` cycles: the state reached, the input left
/// over, everything emitted, and whether the run finished — `Some(Ok)`
/// once the machine halted, `Some(Err)` for the fault that stopped it,
/// `None` while `n` cycles were not enough to finish.
pub struct RunOutcome {
    pub state: MachineState,
    pub input: Seq<u8>,
    pub emitted: Seq<u8>,
    pub finished: Option<Result<(), VmError>>,
}

/// Iterate `step_spec` up to `n` times, stopping at a halt or a fault.
pub open spec fn run_n(s: MachineState, input: Seq<u8>, n: nat) -> RunOutcome
    recommends
        s.wf(),
    decreases n,
{
    if s.halted {
        RunOutcome { state: s, input, emitted: Seq::empty(), finished: Some(Ok(())) }
    } else if n == 0 {
        RunOutcome { state: s, input, emitted: Seq::empty(), finished: None }
    } else {
        let so = step_spec(s, input);
        match so.verdict {
            Err(e) => RunOutcome {
                state: so.state,
                input: so.input,
                emitted: so.emitted,
                finished: Some(Err(e)),
            },
            Ok(u) => {
                let rest = run_n(so.state, so.input, (n - 1) as nat);
                RunOutcome {
                    state: rest.state,
                    input: rest.input,
                    emitted: so.emitted + rest.emitted,
                    finished: rest.finished,
                }
            },
        }
    }
}

/// The load-origin address a program image names in its first big-endian
/// word.
pub open spec fn image_origin(img: Seq<u8>) -> u16
    recommends
        img.len() >= 2,
{
    (img[0] * 256 + img[1]) as u16
}

/// The number of payload words after the origin word.
pub open spec fn image_word_count(img: Seq<u8>) -> int {
    (img.len() - 2) / 2
}

/// Payload word `j` of the image, big-endian.
pub open spec fn image_word(img: Seq<u8>, j: int) -> u16
    recommends
        0 <= j < image_word_count(img),
{
    (img[2 + 2 * j] * 256 + img[3 + 2 * j]) as u16
}

/// Memory after placing the image's payload words `j` onward into
/// consecutive cells, starting at `origin + j`, addresses wrapping.
pub open spec fn load_mem(mem: Seq<u16>, origin: u16, img: Seq<u8>, j: int) -> Seq<u16>
    recommends
        mem.len() == MEM_SIZE,
    decreases image_word_count(img) - j,
{
    if j < 0 || j >= image_word_count(img) {
        mem
    } else {
        load_mem(mem.update((origin + j) % 0x10000, image_word(img, j)), origin, img, j + 1)
    }
}

/// The virtual machine the engine owns exclusively for its whole run.
pub struct VirtualMachine {
    mem: Vec<u16>,
    regs: Vec<u16>,
    is_halted: bool,
}

impl View for VirtualMachine {
    type V = MachineState;

    closed spec fn view(&self) -> MachineState {
        MachineState { mem: self.mem@, regs: self.regs@, halted: self.is_halted }
    }
}

impl VirtualMachine {
    /// Memory holds one word per address and the register file one word
    /// per slot.
    pub open spec fn wf(&self) -> bool {
        self@.wf()
    }

    /// A powered-on machine: memory zeroed, registers zeroed except PC at
    /// the load address, not halted.
    pub fn new() -> (r: VirtualMachine)
        ensures
            r.wf(),
            forall|i: int| 0 <= i < MEM_SIZE ==> r@.mem[i] == 0,
            r@.regs == initial_regs(),
            !r@.halted,
    {
        let mem = zero_words(MEM_SIZE);
        let mut regs = zero_words(REG_COUNT);
        regs[8] = PC_START;
        proof {
            assert(regs@ =~= initial_regs());
        }
        VirtualMachine { mem, regs, is_halted: false }
    }

    /// Whether the machine has executed HALT.
    pub fn is_halted(&self) -> (r: bool)
        ensures
            r == self@.halted,
    {
        self.is_halted
    }

    /// Read access to the register file, R0-R7 then PC then COND.
    pub fn regs(&self) -> (r: &Vec<u16>)
        ensures
            r@ == self@.regs,
    {
        &self.regs
    }

    /// Load a program image: the first big-endian word names the origin
    /// address and each following word lands in the next memory cell,
    /// addresses wrapping. Registers are untouched. An image with no
    /// origin word, or ending in the middle of a word, is rejected before
    /// any cell is written: the machine never runs a partial load.
    pub fn load_img(&mut self, image: &Vec<u8>) -> (r: Result<(), VmError>)
        requires
            old(self).wf(),
        ensures
            final(self).wf(),
            r == (if image@.len() >= 2 && image@.len() % 2 == 0 {
                Result::<(), VmError>::Ok(())
            } else {
                Result::<(), VmError>::Err(VmError::TruncatedImage)
            }),
            r is Err ==> final(self)@ == old(self)@,
            r is Ok ==> final(self)@ == (MachineState {
                mem: load_mem(old(self)@.mem, image_origin(image@), image@, 0),
                regs: old(self)@.regs,
                halted: old(self)@.halted,
            }),
    {
        if image.len() < 2 || image.len() % 2 != 0 {
            return Err(VmError::TruncatedImage);
        }
        let origin: u16 = (image[0] as u16) * 256 + (image[1] as u16);
        let n: usize = (image.len() - 2) / 2;
        let mut j: usize = 0;
        let mut addr: u16 = origin;
        while j < n
            invariant
                self.wf(),
                image@.len() >= 2,
                image@.len() % 2 == 0,
                image@.len() <= usize::MAX,
                n == image_word_count(image@),
                origin == image_origin(image@),
                0 <= j <= n,
                addr as int == (origin + j) % 0x10000,
                self@.regs == old(self)@.regs,
                self@.halted == old(self)@.halted,
                load_mem(old(self)@.mem, origin, image@, 0) == load_mem(
                    self@.mem,
                    origin,
                    image@,
                    j as int,
                ),
            decreases n - j,
        {
            proof {
                assert(2 * ((image@.len() - 2) / 2) == image@.len() - 2);
                assert(2 * (j as int) + 4 <= image@.len());
            }
            let hi = image[2 + 2 * j];
            let lo = image[3 + 2 * j];
            let w: u16 = (hi as u16) * 256 + (lo as u16);
            self.memory_write(addr, w);
            addr = addr.wrapping_add(1);
            j = j + 1;
        }
        Ok(())
    }

    /// Read a memory cell directly, without the keyboard poll. The engine
    /// uses this for instruction fetch; operand reads poll.
    fn memory_read(&self, addr: u16) -> (r: u16)
        requires
            self.wf(),
        ensures
            r == self@.mem[addr as int],
    {
        self.mem[addr as usize]
    }

    /// Write a memory cell.
    fn memory_write(&mut self, addr: u16, val: u16)
        requires
            old(self).wf(),
        ensures
            final(self)@ == (MachineState {
                mem: old(self)@.mem.update(addr as int, val),
                regs: old(self)@.regs,
                halted: old(self)@.halted,
            }),
            final(self).wf(),
    {
        self.mem[addr as usize] = val;
    }

    /// Recompute COND from register `r`.
    fn update_flags(&mut self, r: usize)
        requires
            old(self).wf(),
            r < REG_COUNT,
        ensures
            final(self)@ == with_regs(
                old(self)@,
                old(self)@.regs.update(9, crate::opcodes::flag_for(old(self)@.regs[r as int])),
            ),
            final(self).wf(),
    {
        crate::opcodes::update_flags(&mut self.regs, r);
    }

    fn op_br(&mut self, instr: u16)
        requires
            old(self).wf(),
        ensures
            final(self)@ == with_regs(old(self)@, br_regs(instr, old(self)@.regs)),
            final(self).wf(),
    {
        crate::opcodes::op_br(instr, &mut self.regs);
    }

    fn op_add(&mut self, instr: u16)
        requires
            old(self).wf(),
        ensures
            final(self)@ == with_regs(old(self)@, add_regs(instr, old(self)@.regs)),
            final(self).wf(),
    {
        proof {
            lemma_fields_bounded(instr);
        }
        crate::opcodes::op_add(instr, &mut self.regs);
    }

    fn op_ld(&mut self, instr: u16, input: &mut Vec<u8>)
        requires
            old(self).wf(),
        ensures
            ({
                let t = ld_effect(instr, old(self)@.regs, old(self)@.mem, old(input)@);
                final(self)@ == (MachineState { mem: t.1, regs: t.0, halted: old(self)@.halted })
                    && final(input)@ == t.2
            }),
            final(self).wf(),
    {
        proof {
            lemma_fields_bounded(instr);
        }
        crate::opcodes::op_ld(instr, &mut self.regs, &mut self.mem, input);
    }

    fn op_st(&mut self, instr: u16)
        requires
            old(self).wf(),
        ensures
            final(self)@ == (MachineState {
                mem: st_mem(instr, old(self)@.regs, old(self)@.mem),
                regs: old(self)@.regs,
                halted: old(self)@.halted,
            }),
            final(self).wf(),
    {
        crate::opcodes::op_st(instr, &mut self.regs, &mut self.mem);
    }

    fn op_jsr(&mut self, instr: u16)
        requires
            old(self).wf(),
        ensures
            final(self)@ == with_regs(old(self)@, jsr_regs(instr, old(self)@.regs)),
            final(self).wf(),
    {
        crate::opcodes::op_jsr(instr, &mut self.regs);
    }

    fn op_and(&mut self, instr: u16)
        requires
            old(self).wf(),
        ensures
            final(self)@ == with_regs(old(self)@, and_regs(instr, old(self)@.regs)),
            final(self).wf(),
    {
        proof {
            lemma_fields_bounded(instr);
        }
        crate::opcodes::op_and(instr, &mut self.regs);
    }

    fn op_ldr(&mut self, instr: u16, input: &mut Vec<u8>)
        requires
            old(self).wf(),
        ensures
            ({
                let t = ldr_effect(instr, old(self)@.regs, old(self)@.mem, old(input)@);
                final(self)@ == (MachineState { mem: t.1, regs: t.0, halted: old(self)@.halted })
                    && final(input)@ == t.2
            }),
            final(self).wf(),
    {
        proof {
            lemma_fields_bounded(instr);
        }
        crate::opcodes::op_ldr(instr, &mut self.regs, &mut self.mem, input);
    }

    fn op_str(&mut self, instr: u16)
        requires
            old(self).wf(),
        ensures
            final(self)@ == (MachineState {
                mem: str_mem(instr, old(self)@.regs, old(self)@.mem),
                regs: old(self)@.regs,
                halted: old(self)@.halted,
            }),
            final(self).wf(),
    {
        crate::opcodes::op_str(instr, &mut self.regs, &mut self.mem);
    }

    /// Return from interrupt is architecturally reserved here: dispatching
    /// it is a fatal fault, never a silent no-op.
    fn op_rti(&mut self) -> (r: Result<(), VmError>)
        ensures
            final(self)@ == old(self)@,
            r == Result::<(), VmError>::Err(VmError::UnsupportedOpcode),
    {
        Err(VmError::UnsupportedOpcode)
    }

    fn op_not(&mut self, instr: u16)
        requires
            old(self).wf(),
        ensures
            final(self)@ == with_regs(old(self)@, not_regs(instr, old(self)@.regs)),
            final(self).wf(),
    {
        proof {
            lemma_fields_bounded(instr);
        }
        crate::opcodes::op_not(instr, &mut self.regs);
    }

    fn op_ldi(&mut self, instr: u16, input: &mut Vec<u8>)
        requires
            old(self).wf(),
        ensures
            ({
                let t = ldi_effect(instr, old(self)@.regs, old(self)@.mem, old(input)@);
                final(self)@ == (MachineState { mem: t.1, regs: t.0, halted: old(self)@.halted })
                    && final(input)@ == t.2
            }),
            final(self).wf(),
    {
        proof {
            lemma_fields_bounded(instr);
        }
        crate::opcodes::op_ldi(instr, &mut self.regs, &mut self.mem, input);
    }

    fn op_sti(&mut self, instr: u16, input: &mut Vec<u8>)
        requires
            old(self).wf(),
        ensures
            ({
                let t = sti_effect(instr, old(self)@.regs, old(self)@.mem, old(input)@);
                final(self)@ == (MachineState {
                    mem: t.0,
                    regs: old(self)@.regs,
                    halted: old(self)@.halted,
                }) && final(input)@ == t.1
            }),
            final(self).wf(),
    {
        crate::opcodes::op_sti(instr, &mut self.regs, &mut self.mem, input);
    }

    fn op_jmp(&mut self, instr: u16)
        requires
            old(self).wf(),
        ensures
            final(self)@ == with_regs(old(self)@, jmp_regs(instr, old(self)@.regs)),
            final(self).wf(),
    {
        crate::opcodes::op_jmp(instr, &mut self.regs);
    }

    /// The reserved opcode: dispatching it is a fatal fault, never a
    /// silent no-op.
    fn op_res(&mut self) -> (r: Result<(), VmError>)
        ensures
            final(self)@ == old(self)@,
            r == Result::<(), VmError>::Err(VmError::UnsupportedOpcode),
    {
        Err(VmError::UnsupportedOpcode)
    }

    fn op_lea(&mut self, instr: u16)
        requires
            old(self).wf(),
        ensures
            final(self)@ == with_regs(old(self)@, lea_regs(instr, old(self)@.regs)),
            final(self).wf(),
    {
        proof {
            lemma_fields_bounded(instr);
        }
        crate::opcodes::op_lea(instr, &mut self.regs);
    }

    /// Dispatch the trap routine named by the instruction's low byte. A
    /// vector outside the six service routines is a fatal fault.
    fn op_trap(&mut self, instr: u16, input: &mut Vec<u8>, output: &mut Vec<u8>) -> (r: Result<
        (),
        VmError,
    >)
        requires
            old(self).wf(),
        ensures
            final(self).wf(),
            final(self)@ == trap_step(instr, old(self)@, old(input)@).state,
            final(input)@ == trap_step(instr, old(self)@, old(input)@).input,
            final(output)@ == old(output)@ + trap_step(instr, old(self)@, old(input)@).emitted,
            r == trap_step(instr, old(self)@, old(input)@).verdict,
    {
        proof {
            assert(output@ + Seq::<u8>::empty() =~= output@);
        }
        match TrapVector::from_u16(instr & 0xFF) {
            Err(e) => Err(e),
            Ok(TrapVector::GETC) => trap_getc(&mut self.regs, input),
            Ok(TrapVector::OUT) => {
                trap_out(&self.regs, output);
                proof {
                    assert(old(output)@.push((old(self)@.regs[0] & 0xFF) as u8) =~= old(output)@
                        + seq![(old(self)@.regs[0] & 0xFF) as u8]);
                }
                Ok(())
            },
            Ok(TrapVector::PUTS) => {
                let r0 = self.regs[0];
                trap_puts(r0, &self.mem, output)
            },
            Ok(TrapVector::IN) => {
                let r = trap_in(&mut self.regs, input, output);
                proof {
                    if old(input)@.len() > 0 {
                        assert(old(output)@ + in_prompt() + seq![old(input)@[0]] =~= old(output)@
                            + (in_prompt() + seq![old(input)@[0]]));
                    } else {
                        assert(old(output)@ + in_prompt() + Seq::<u8>::empty() =~= old(output)@
                            + in_prompt());
                    }
                }
                r
            },
            Ok(TrapVector::PUTSP) => trap_putsp(&self.regs, &self.mem, output),
            Ok(TrapVector::HALT) => {
                self.is_halted = true;
                Ok(())
            },
        }
    }

    /// Run one fetch-decode-execute cycle: exactly `step_spec` of the
    /// machine state and the pending input. New input bytes are taken from
    /// the front of `input`; emitted bytes are appended to `output`. A
    /// fault leaves its verdict in the result and stops the run.
    pub fn cycle(&mut self, input: &mut Vec<u8>, output: &mut Vec<u8>) -> (r: Result<(), VmError>)
        requires
            old(self).wf(),
            !old(self)@.halted,
        ensures
            final(self).wf(),
            ({
                let so = step_spec(old(self)@, old(input)@);
                final(self)@ == so.state && final(input)@ == so.input && final(output)@ == old(
                    output,
                )@ + so.emitted && r == so.verdict
            }),
    {
        proof {
            assert(output@ + Seq::<u8>::empty() =~= output@);
        }
        let pc = self.regs[8];
        if pc == 0xFFFF {
            return Err(VmError::PcOutOfRange);
        }
        let instr = self.memory_read(pc);
        self.regs[8] = pc + 1;
        proof {
            lemma_fields_bounded(instr);
        }
        let op = OpCode::from_u16(instr >> 12);
        match op {
            OpCode::BR => {
                self.op_br(instr);
                Ok(())
            },
            OpCode::ADD => {
                self.op_add(instr);
                Ok(())
            },
            OpCode::LD => {
                self.op_ld(instr, input);
                Ok(())
            },
            OpCode::ST => {
                self.op_st(instr);
                Ok(())
            },
            OpCode::JSR => {
                self.op_jsr(instr);
                Ok(())
            },
            OpCode::AND => {
                self.op_and(instr);
                Ok(())
            },
            OpCode::LDR => {
                self.op_ldr(instr, input);
                Ok(())
            },
            OpCode::STR => {
                self.op_str(instr);
                Ok(())
            },
            OpCode::RTI => self.op_rti(),
            OpCode::NOT => {
                self.op_not(instr);
                Ok(())
            },
            OpCode::LDI => {
                self.op_ldi(instr, input);
                Ok(())
            },
            OpCode::STI => {
                self.op_sti(instr, input);
                Ok(())
            },
            OpCode::JMP => {
                self.op_jmp(instr);
                Ok(())
            },
            OpCode::RES => self.op_res(),
            OpCode::LEA => {
                self.op_lea(instr);
                Ok(())
            },
            OpCode::TRAP => self.op_trap(instr, input, output),
        }
    }

    /// Reset PC to the load address and run up to `fuel` cycles, stopping
    /// early when the machine halts or faults. The whole run is exactly
    /// `run_n` of the starting state: `Some(Ok(()))` once HALT has
    /// executed, `Some(Err(..))` for the fault that stopped the machine,
    /// `None` when the budget ran out first, with all output appended.
    pub fn run(&mut self, input: &mut Vec<u8>, output: &mut Vec<u8>, fuel: u64) -> (r: Option<
        Result<(), VmError>,
    >)
        requires
            old(self).wf(),
        ensures
            final(self).wf(),
            ({
                let ro = run_n(
                    with_regs(old(self)@, old(self)@.regs.update(8, PC_START)),
                    old(input)@,
                    fuel as nat,
                );
                r == ro.finished && final(self)@ == ro.state && final(input)@ == ro.input
                    && final(output)@ == old(output)@ + ro.emitted
            }),
            r == Some(Result::<(), VmError>::Ok(())) ==> final(self)@.halted,
    {
        self.regs[8] = PC_START;
        let ghost s0 = self@;
        let ghost in0 = input@;
        let ghost out0 = output@;
        let mut remaining: u64 = fuel;
        loop
            invariant
                self.wf(),
                s0 == with_regs(old(self)@, old(self)@.regs.update(8, PC_START)),
                in0 == old(input)@,
                out0 == old(output)@,
                ({
                    let ro = run_n(s0, in0, fuel as nat);
                    let rem = run_n(self@, input@, remaining as nat);
                    ro.state == rem.state && ro.input == rem.input && ro.finished == rem.finished
                        && out0 + ro.emitted == output@ + rem.emitted
                }),
            decreases remaining,
        {
            if self.is_halted {
                proof {
                    assert(output@ + Seq::<u8>::empty() =~= output@);
                }
                return Some(Ok(()));
            }
            if remaining == 0 {
                proof {
                    assert(output@ + Seq::<u8>::empty() =~= output@);
                }
                return None;
            }
            let ghost pre = self@;
            let ghost prein = input@;
            let ghost preout = output@;
            let res = self.cycle(input, output);
            remaining = remaining - 1;
            proof {
                let so = step_spec(pre, prein);
                if res is Ok {
                    let rest = run_n(so.state, so.input, remaining as nat);
                    assert(preout + (so.emitted + rest.emitted) =~= (preout + so.emitted)
                        + rest.emitted);
                }
            }
            match res {
                Err(e) => {
                    return Some(Err(e));
                },
                Ok(u) => {},
            }
        }
    }

    /// Whether the next cycle would try to consume an input byte: a GETC
    /// or IN trap, or an operand read that touches the keyboard status
    /// register. The host can block for a byte exactly when this holds.
    pub fn needs_input(&self) -> (r: bool)
        requires
            self.wf(),
        ensures
            r == wants_input(self@),
    {
        if self.is_halted {
            return false;
        }
        let pc = self.regs[8];
        if pc == 0xFFFF {
            return false;
        }
        let instr = self.memory_read(pc);
        proof {
            lemma_fields_bounded(instr);
        }
        let op = instr >> 12;
        let npc = pc + 1;
        if op == 0x2 || op == 0xB {
            npc.wrapping_add(sign_extend(instr & 0x1FF, 9)) == 0xFE00
        } else if op == 0x6 {
            let base = ((instr >> 6) & 0x7) as usize;
            self.regs[base].wrapping_add(sign_extend(instr & 0x3F, 6)) == 0xFE00
        } else if op == 0xA {
            let addr1 = npc.wrapping_add(sign_extend(instr & 0x1FF, 9));
            if addr1 == 0xFE00 {
                true
            } else {
                self.memory_read(addr1) == 0xFE00
            }
        } else if op == 0xF {
            let vect = instr & 0xFF;
            vect == 0x20 || vect == 0x23
        } else {
            false
        }
    }
}

// ---------------------------------------------------------------------------
// Laws of the cycle
// ---------------------------------------------------------------------------

/// Executing TRAP HALT leaves the machine halted, without a fault.
pub proof fn lemma_trap_halt_halts(s: MachineState, input: Seq<u8>)
    requires
        s.wf(),
        !s.halted,
        s.regs[8] != 0xFFFF,
        s.mem[s.regs[8] as int] == 0xF025,
    ensures
        step_spec(s, input).state.halted,
        step_spec(s, input).verdict == Result::<(), VmError>::Ok(()),
{
    assert(0xF025u16 >> 12 == 0xF && 0xF025u16 & 0xFF == 0x25) by (bit_vector);
}

/// A halted machine executes no further cycle: any remaining budget
/// leaves state, input and output untouched.
pub proof fn lemma_halted_machine_stays_put(s: MachineState, input: Seq<u8>, n: nat)
    requires
        s.halted,
    ensures
        run_n(s, input, n) == (RunOutcome {
            state: s,
            input,
            emitted: Seq::<u8>::empty(),
            finished: Some(Result::<(), VmError>::Ok(())),
        }),
{
}

/// Fetching an instruction whose opcode is RTI or RES stops the run with
/// the unsupported-opcode fault — never a silent no-op.
pub proof fn lemma_reserved_opcodes_fault(s: MachineState, input: Seq<u8>)
    requires
        s.wf(),
        !s.halted,
        s.regs[8] != 0xFFFF,
        s.mem[s.regs[8] as int] >> 12 == 0x8 || s.mem[s.regs[8] as int] >> 12 == 0xD,
    ensures
        step_spec(s, input).verdict == Result::<(), VmError>::Err(VmError::UnsupportedOpcode),
        forall|n: nat|
            n >= 1 ==> #[trigger] run_n(s, input, n).finished == Some(
                Result::<(), VmError>::Err(VmError::UnsupportedOpcode),
            ),
{
}

/// Dispatching a TRAP whose vector is outside the six service routines
/// stops the run with the unknown-trap fault — never a silent no-op.
pub proof fn lemma_unknown_trap_faults(s: MachineState, input: Seq<u8>)
    requires
        s.wf(),
        !s.halted,
        s.regs[8] != 0xFFFF,
        s.mem[s.regs[8] as int] >> 12 == 0xF,
        !(0x20 <= s.mem[s.regs[8] as int] & 0xFF <= 0x25),
    ensures
        step_spec(s, input).verdict == Result::<(), VmError>::Err(VmError::UnknownTrap),
        forall|n: nat|
            n >= 1 ==> #[trigger] run_n(s, input, n).finished == Some(
                Result::<(), VmError>::Err(VmError::UnknownTrap),
            ),
{
}

/// `wants_input` characterises input consumption: a cycle that does not
/// want a byte leaves the queue alone, and one that wants a byte takes
/// exactly the head of a non-empty queue. The host may therefore block
/// for one byte exactly when `needs_input` reports true.
pub proof fn lemma_wants_input_consumption(s: MachineState, input: Seq<u8>)
    requires
        s.wf(),
        !s.halted,
    ensures
        !wants_input(s) ==> step_spec(s, input).input == input,
        wants_input(s) && input.len() > 0 ==> step_spec(s, input).input == input.remove(0),
{
    if s.regs[8] != 0xFFFF {
        let pc = s.regs[8];
        let instr = s.mem[pc as int];
        lemma_fields_bounded(instr);
        if instr >> 12 == 0xA {
            // LDI polls at most once: when the first read polls the
            // status register, the address it yields is the polled
            // status, which is never the status register's own address.
            let npc = (pc + 1) as u16;
            let addr1 = npc.wrapping_add(sext(instr & 0x1FF, 9));
            if addr1 == 0xFE00 {
                if input.len() > 0 {
                    assert(read_result(s.mem, addr1, avail_input(input)) == 0x8000);
                } else {
                    assert(read_result(s.mem, addr1, avail_input(input)) == 0);
                }
            }
        }
    }
}

/// A program counter that would leave addressable memory is detected and
/// reported, never wrapped around.
pub proof fn lemma_pc_overrun_faults(s: MachineState, input: Seq<u8>)
    requires
        s.wf(),
        !s.halted,
        s.regs[8] == 0xFFFF,
    ensures
        step_spec(s, input).verdict == Result::<(), VmError>::Err(VmError::PcOutOfRange),
        step_spec(s, input).state == s,
{
}

/// Whether a cycle of state `s` would try to consume an input byte: a
/// GETC or IN trap, or an operand read of the keyboard status register.
pub open spec fn wants_input(s: MachineState) -> bool
    recommends
        s.wf(),
{
    if s.halted || s.regs[8] == 0xFFFF {
        false
    } else {
        let pc = s.regs[8];
        let instr = s.mem[pc as int];
        let npc = (pc + 1) as u16;
        let opc = instr >> 12;
        if opc == 0x2 || opc == 0xB {
            npc.wrapping_add(sext(instr & 0x1FF, 9)) == 0xFE00
        } else if opc == 0x6 {
            s.regs[src1_of(instr)].wrapping_add(sext(instr & 0x3F, 6)) == 0xFE00
        } else if opc == 0xA {
            let addr1 = npc.wrapping_add(sext(instr & 0x1FF, 9));
            addr1 == 0xFE00 || s.mem[addr1 as int] == 0xFE00
        } else if opc == 0xF {
            instr & 0xFF == 0x20 || instr & 0xFF == 0x23
        } else {
            false
        }
    }
}

} // verus!
