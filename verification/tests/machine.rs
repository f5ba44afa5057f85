use lc3_vm::cpu::Cpu;
use lc3_vm::Flag;
use lc3_vm::MMRegister;
use lc3_vm::Register;
use lc3_vm::VirtualMachine;
use lc3_vm::VmError;

fn image(origin: u16, words: &[u16]) -> Vec<u8> {
    let mut bytes = Vec::new();
    bytes.push((origin >> 8) as u8);
    bytes.push((origin & 0xFF) as u8);
    for w in words {
        bytes.push((w >> 8) as u8);
        bytes.push((w & 0xFF) as u8);
    }
    bytes
}

fn loaded(origin: u16, words: &[u16]) -> VirtualMachine {
    let mut vm = VirtualMachine::new();
    vm.load_img(&image(origin, words)).unwrap();
    vm
}

#[test]
fn new_machine_starts_at_load_address() {
    let vm = VirtualMachine::new();
    assert!(!vm.is_halted());
    let regs = vm.regs();
    assert_eq!(regs.len(), 10);
    for i in 0..10 {
        if i == 8 {
            assert_eq!(regs[i], 0x3000);
        } else {
            assert_eq!(regs[i], 0);
        }
    }
}

#[test]
fn cpu_powers_on_zeroed_with_pc_at_load_address() {
    let cpu = Cpu::new();
    assert_eq!(cpu.ram().len(), 65536);
    assert!(cpu.ram().iter().all(|w| *w == 0));
    assert_eq!(cpu.regs().len(), 10);
    assert_eq!(cpu.regs()[8], 0x3000);
    assert_eq!(cpu.regs()[9], 0);
}

#[test]
fn register_names_map_to_slots() {
    assert_eq!(Register::R0.index(), 0);
    assert_eq!(Register::R7.index(), 7);
    assert_eq!(Register::PC.index(), 8);
    assert_eq!(Register::COND.index(), 9);
}

#[test]
fn flag_values_are_distinct_powers_of_two() {
    assert_eq!(Flag::POS.value(), 1);
    assert_eq!(Flag::ZERO.value(), 2);
    assert_eq!(Flag::NEG.value(), 4);
}

#[test]
fn memory_mapped_registers_have_their_addresses() {
    assert_eq!(MMRegister::KBSR.address(), 0xFE00);
    assert_eq!(MMRegister::KBDR.address(), 0xFE02);
}

#[test]
fn error_messages_name_the_fault() {
    assert_eq!(VmError::Unexpected.message(), "Unexpected error");
    assert_eq!(VmError::UnsupportedOpcode.message(), "unsupported opcode");
    assert_eq!(VmError::UnknownTrap.message(), "unknown trap vector");
    assert_eq!(VmError::InputUnavailable.message(), "no input available");
    assert_eq!(VmError::TruncatedImage.message(), "truncated program image");
    assert_eq!(VmError::PcOutOfRange.message(), "program counter out of range");
}

#[test]
fn load_img_places_words_from_origin() {
    let mut vm = VirtualMachine::new();
    let r = vm.load_img(&image(0x3000, &[0x1234, 0xABCD]));
    assert_eq!(r, Ok(()));

    // The words are visible to the engine: ST dumps a register we can
    // check, but the simplest observation is through a load program.
    // Run: LD R0, #+1 ; TRAP HALT ; 0x1234 is at 0x3002.
    let mut vm = loaded(0x3000, &[0x2001, 0xF025, 0x5678]);
    let mut input = Vec::new();
    let mut output = Vec::new();
    assert_eq!(vm.run(&mut input, &mut output, 10), Some(Ok(())));
    assert_eq!(vm.regs()[0], 0x5678);
}

#[test]
fn load_img_rejects_a_truncated_image() {
    let mut vm = VirtualMachine::new();
    assert_eq!(vm.load_img(&vec![0x30, 0x00, 0x12]), Err(VmError::TruncatedImage));
    assert_eq!(vm.load_img(&vec![0x30]), Err(VmError::TruncatedImage));
    assert_eq!(vm.load_img(&Vec::new()), Err(VmError::TruncatedImage));
}

#[test]
fn cycle_fetches_increments_pc_and_executes() {
    // ADD R0, R0, #7
    let mut vm = loaded(0x3000, &[0x1027]);
    let mut input = Vec::new();
    let mut output = Vec::new();
    assert_eq!(vm.cycle(&mut input, &mut output), Ok(()));
    assert_eq!(vm.regs()[0], 7);
    assert_eq!(vm.regs()[8], 0x3001);
    assert_eq!(vm.regs()[9], 1);
}

#[test]
fn trap_halt_halts_and_no_further_cycle_runs() {
    let mut vm = loaded(0x3000, &[0xF025, 0x1027]);
    let mut input = Vec::new();
    let mut output = Vec::new();
    assert_eq!(vm.cycle(&mut input, &mut output), Ok(()));
    assert!(vm.is_halted());

    // A fresh run over the same machine stops at once: the instruction
    // after the HALT never executes and R0 stays untouched.
    assert_eq!(vm.run(&mut input, &mut output, 100), Some(Ok(())));
    assert_eq!(vm.regs()[0], 0);
    assert!(output.is_empty());
}

#[test]
fn reserved_opcodes_are_fatal() {
    // RTI (0x8000)
    let mut vm = loaded(0x3000, &[0x8000]);
    let mut input = Vec::new();
    let mut output = Vec::new();
    assert_eq!(vm.cycle(&mut input, &mut output), Err(VmError::UnsupportedOpcode));
    assert!(!vm.is_halted());

    // RES (0xD000)
    let mut vm = loaded(0x3000, &[0xD000]);
    assert_eq!(vm.run(&mut input, &mut output, 10), Some(Err(VmError::UnsupportedOpcode)));
}

#[test]
fn unknown_trap_vector_is_fatal() {
    let mut vm = loaded(0x3000, &[0xF026]);
    let mut input = Vec::new();
    let mut output = Vec::new();
    assert_eq!(vm.run(&mut input, &mut output, 10), Some(Err(VmError::UnknownTrap)));
}

#[test]
fn run_puts_program_prints_and_halts() {
    // LEA R0, #+2 ; TRAP PUTS ; TRAP HALT ; "Hi\0"
    let words = [0xE002, 0xF022, 0xF025, 'H' as u16, 'i' as u16, 0x0000];
    let mut vm = loaded(0x3000, &words);
    let mut input = Vec::new();
    let mut output = Vec::new();
    assert_eq!(vm.run(&mut input, &mut output, 100), Some(Ok(())));
    assert_eq!(output, b"Hi".to_vec());
    assert!(vm.is_halted());
}

#[test]
fn run_out_of_fuel_reports_unfinished() {
    // An endless loop: ADD sets COND, then BRnzp #-1 branches to itself.
    let mut vm = loaded(0x3000, &[0x1020, 0x0FFF]);
    let mut input = Vec::new();
    let mut output = Vec::new();
    assert_eq!(vm.run(&mut input, &mut output, 50), None);
    assert!(!vm.is_halted());
}

#[test]
fn getc_through_cycle_consumes_input() {
    let mut vm = loaded(0x3000, &[0xF020, 0xF025]);
    let mut input = vec![b'Q'];
    let mut output = Vec::new();
    assert!(vm.needs_input());
    assert_eq!(vm.run(&mut input, &mut output, 10), Some(Ok(())));
    assert_eq!(vm.regs()[0], b'Q' as u16);
    assert!(input.is_empty());
    assert!(output.is_empty());
}

#[test]
fn getc_through_cycle_without_input_is_fatal() {
    let mut vm = loaded(0x3000, &[0xF020]);
    let mut input = Vec::new();
    let mut output = Vec::new();
    assert_eq!(vm.run(&mut input, &mut output, 10), Some(Err(VmError::InputUnavailable)));
}

#[test]
fn in_through_cycle_prompts_and_echoes() {
    let mut vm = loaded(0x3000, &[0xF023, 0xF025]);
    let mut input = vec![b'Z'];
    let mut output = Vec::new();
    assert!(vm.needs_input());
    assert_eq!(vm.run(&mut input, &mut output, 10), Some(Ok(())));
    assert_eq!(vm.regs()[0], b'Z' as u16);
    assert_eq!(output, b"Enter a character: Z".to_vec());
}

#[test]
fn keyboard_poll_through_ldi() {
    // LDI R0, #+1 ; TRAP HALT ; pointer 0xFE00 at 0x3002.
    let words = [0xA001, 0xF025, 0xFE00];

    // With a pending byte the status register reads 0x8000 and the byte
    // lands in the data register.
    let mut vm = loaded(0x3000, &words);
    let mut input = vec![0x41];
    let mut output = Vec::new();
    assert!(vm.needs_input());
    assert_eq!(vm.run(&mut input, &mut output, 10), Some(Ok(())));
    assert_eq!(vm.regs()[0], 0x8000);
    assert_eq!(vm.regs()[9], 4);
    assert!(input.is_empty());

    // Without input the status reads zero.
    let mut vm = loaded(0x3000, &words);
    let mut input = Vec::new();
    assert_eq!(vm.run(&mut input, &mut output, 10), Some(Ok(())));
    assert_eq!(vm.regs()[0], 0);
    assert_eq!(vm.regs()[9], 2);
}

#[test]
fn needs_input_is_false_for_plain_instructions() {
    let vm = loaded(0x3000, &[0x1027]);
    assert!(!vm.needs_input());
    let vm = loaded(0x3000, &[0xF022]);
    assert!(!vm.needs_input());
}

#[test]
fn pc_overrun_is_detected_not_wrapped() {
    // JMP R1 with R1 = 0xFFFF, then one more fetch would take PC past
    // the end of memory.
    let mut vm = loaded(0x3000, &[0xC040]);
    let mut input = Vec::new();
    let mut output = Vec::new();
    // R1 is zero, so the jump lands at 0; seed R1 first: ADD R1, R1, #-1
    // gives 0xFFFF.
    let mut vm2 = loaded(0x3000, &[0x127F, 0xC040]);
    assert_eq!(vm2.run(&mut input, &mut output, 10), Some(Err(VmError::PcOutOfRange)));
    assert_eq!(vm2.regs()[8], 0xFFFF);

    // The first machine jumps to address 0 and keeps fetching zeroes
    // (BR, never taken) until fuel runs out.
    assert_eq!(vm.run(&mut input, &mut output, 5), None);
}
